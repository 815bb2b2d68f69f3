//! The decision of the phase model: the region of a frequency.

use crate::binary64::{number_half, Binary64};
use crate::imrphenomd::constants::PHI_FJOIN_INS;
use crate::imrphenomd::{region, region_of, Region};
use vstd::prelude::*;

verus! {

/// The phase region of `frequency`, for a model that rings down at `f_ringdown`: the
/// inspiral ends at the fixed breakpoint `PHI_FJOIN_INS`, the merger-ringdown begins at half
/// the ringdown frequency.
pub fn phase_region(frequency: Binary64, f_ringdown: Binary64) -> (r: Option<Region>)
    ensures
        r == region_of(
            frequency@,
            (Binary64 { bits: PHI_FJOIN_INS })@,
            number_half(f_ringdown@),
        ),
{
    region(frequency, Binary64::from_bits(PHI_FJOIN_INS), f_ringdown.halve())
}

} // verus!
