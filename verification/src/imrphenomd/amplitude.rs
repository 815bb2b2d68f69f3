//! The decisions of the amplitude model: the region of a frequency, and the form of the
//! peak-frequency expression.

use crate::binary64::{lemma_one, number_lt, Binary64, Number, ONE_BITS};
use crate::imrphenomd::constants::AMP_FJOIN_INS;
use crate::imrphenomd::{region, region_of, Region};
use vstd::prelude::*;

verus! {

/// The amplitude region of `frequency`, for a model whose amplitude peaks at `f_peak`: the
/// inspiral ends at the fixed breakpoint `AMP_FJOIN_INS`, the merger-ringdown begins at
/// `f_peak`.
pub fn amplitude_region(frequency: Binary64, f_peak: Binary64) -> (r: Option<Region>)
    ensures
        r == region_of(frequency@, (Binary64 { bits: AMP_FJOIN_INS })@, f_peak@),
{
    region(frequency, Binary64::from_bits(AMP_FJOIN_INS), f_peak)
}

/// The two forms of the peak-frequency expression
/// `|f_ring + f_damp * gamma3 * (sqrt(1 - gamma2^2) - 1) / gamma2|`.
#[derive(Clone, Copy, Debug, PartialEq, Eq, Structural)]
pub enum PeakFormula {
    /// The expression as it stands.
    WithRoot,
    /// The expression with the square root set to zero:
    /// `|f_ring - f_damp * gamma3 / gamma2|`.
    WithoutRoot,
}

/// The form that the peak-frequency expression takes for `gamma2`: the square root is
/// dropped exactly where `gamma2 > 1`. A `gamma2` that is not a number keeps it.
pub open spec fn peak_formula_of(gamma2: Number) -> PeakFormula {
    if number_lt(Number::Finite { value: 1real }, gamma2) {
        PeakFormula::WithoutRoot
    } else {
        PeakFormula::WithRoot
    }
}

/// What stands under the square root of the peak-frequency expression.
pub open spec fn radicand(gamma2: real) -> real {
    1real - gamma2 * gamma2
}

/// The form that the peak-frequency expression takes for `gamma2`.
pub fn peak_formula(gamma2: Binary64) -> (r: PeakFormula)
    ensures
        r == peak_formula_of(gamma2@),
{
    proof {
        lemma_one();
    }
    if Binary64::from_bits(ONE_BITS).lt(gamma2) {
        PeakFormula::WithoutRoot
    } else {
        PeakFormula::WithRoot
    }
}

/// The square root is dropped on every finite `gamma2` above 1, where its radicand is
/// negative. Where it is kept, the radicand is zero at `gamma2 == 1`, so that the two forms
/// agree there, and it is negative exactly below -1.
pub proof fn lemma_radicand_where_root_is_kept(gamma2: Binary64)
    requires
        gamma2@ is Finite,
    ensures
        peak_formula_of(gamma2@) == PeakFormula::WithoutRoot ==> radicand(gamma2.value()) < 0real,
        peak_formula_of(gamma2@) == PeakFormula::WithRoot ==> (radicand(gamma2.value()) < 0real
            <==> gamma2.value() < -1real),
        gamma2.value() == 1real ==> peak_formula_of(gamma2@) == PeakFormula::WithRoot && radicand(
            gamma2.value(),
        ) == 0real,
{
    let g = gamma2.value();
    assert((g > 1real ==> 1real - g * g < 0real) && (g < -1real ==> 1real - g * g < 0real) && (-1real
        <= g <= 1real ==> 1real - g * g >= 0real) && (g == 1real ==> 1real - g * g == 0real))
        by (nonlinear_arith);
}

} // verus!
