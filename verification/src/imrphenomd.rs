//! The three frequency regions of the phenomenological model.
//!
//! Amplitude and phase are each given by three closed-form expressions, one per region.
//! Two breakpoints `lower` and `upper` part the frequency axis: the inspiral lies below
//! `lower`, the intermediate region reaches from `lower` up to, but not including, `upper`,
//! and the merger-ringdown begins at `upper`.

use crate::binary64::{number_le, number_lt, Binary64, Number};
use vstd::prelude::*;

pub mod amplitude;
pub mod constants;
pub mod phase;

verus! {

/// A frequency region.
#[derive(Clone, Copy, Debug, PartialEq, Eq, Structural)]
pub enum Region {
    Inspiral,
    Intermediate,
    MergerRingdown,
}

impl Region {
    /// The place of the region along the frequency axis.
    pub open spec fn rank(self) -> int {
        match self {
            Region::Inspiral => 0,
            Region::Intermediate => 1,
            Region::MergerRingdown => 2,
        }
    }
}

/// The region of `frequency` between the breakpoints `lower` and `upper`: the first of
/// `frequency < lower`, `lower <= frequency < upper` and `upper <= frequency` that holds,
/// and none where no comparison holds.
pub open spec fn region_of(frequency: Number, lower: Number, upper: Number) -> Option<Region> {
    if number_lt(frequency, lower) {
        Some(Region::Inspiral)
    } else if number_le(lower, frequency) && number_lt(frequency, upper) {
        Some(Region::Intermediate)
    } else if number_le(upper, frequency) {
        Some(Region::MergerRingdown)
    } else {
        None
    }
}

/// The region of `frequency` between the breakpoints `lower` and `upper`.
pub fn region(frequency: Binary64, lower: Binary64, upper: Binary64) -> (r: Option<Region>)
    ensures
        r == region_of(frequency@, lower@, upper@),
{
    if frequency.lt(lower) {
        Some(Region::Inspiral)
    } else if lower.le(frequency) && frequency.lt(upper) {
        Some(Region::Intermediate)
    } else if upper.le(frequency) {
        Some(Region::MergerRingdown)
    } else {
        None
    }
}

/// The regions leave no gap: where frequency and breakpoints are numbers, the frequency
/// has a region. A frequency that is not a number has none.
pub proof fn lemma_regions_leave_no_gap(frequency: Binary64, lower: Binary64, upper: Binary64)
    ensures
        frequency@ != Number::NaN && lower@ != Number::NaN && upper@ != Number::NaN
            ==> region_of(frequency@, lower@, upper@) is Some,
        frequency@ == Number::NaN ==> region_of(frequency@, lower@, upper@) is None,
{
}

/// Each region is the half-open interval that its name stands for: with the breakpoints in
/// order, a frequency is in the inspiral exactly below `lower`, in the intermediate region
/// exactly from `lower` up to `upper`, and in the merger-ringdown exactly from `upper` on.
pub proof fn lemma_regions_are_intervals(frequency: Binary64, lower: Binary64, upper: Binary64)
    requires
        number_le(lower@, upper@),
    ensures
        region_of(frequency@, lower@, upper@) == Some(Region::Inspiral) <==> number_lt(
            frequency@,
            lower@,
        ),
        region_of(frequency@, lower@, upper@) == Some(Region::Intermediate) <==> number_le(
            lower@,
            frequency@,
        ) && number_lt(frequency@, upper@),
        region_of(frequency@, lower@, upper@) == Some(Region::MergerRingdown) <==> number_le(
            upper@,
            frequency@,
        ),
{
}

/// A breakpoint belongs to the region that begins at it.
pub proof fn lemma_breakpoints_open_their_region(lower: Binary64, upper: Binary64)
    requires
        number_lt(lower@, upper@),
    ensures
        region_of(lower@, lower@, upper@) == Some(Region::Intermediate),
        region_of(upper@, lower@, upper@) == Some(Region::MergerRingdown),
{
}

/// The regions follow the frequency axis: with the breakpoints in order, the higher of two
/// frequencies is in the same region as the lower one or in a later one.
pub proof fn lemma_regions_follow_frequency(
    low: Binary64,
    high: Binary64,
    lower: Binary64,
    upper: Binary64,
)
    requires
        number_le(lower@, upper@),
        number_le(low@, high@),
    ensures
        region_of(low@, lower@, upper@) is Some,
        region_of(high@, lower@, upper@) is Some,
        region_of(low@, lower@, upper@).unwrap().rank() <= region_of(
            high@,
            lower@,
            upper@,
        ).unwrap().rank(),
{
}

} // verus!
