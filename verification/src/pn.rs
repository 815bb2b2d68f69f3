//! The intrinsic parameters of a binary: mass ratio and aligned spins.

use crate::binary64::{
    lemma_encoding_of_position, lemma_one, lemma_value_follows_position, Binary64, Number,
    NEGATIVE_ONE_BITS, ONE_BITS,
};
use vstd::prelude::*;

verus! {

/// Why a set of parameters describes no binary.
#[derive(Clone, Copy, Debug, PartialEq, Eq, Structural)]
pub enum ParameterError {
    /// The total mass is not a positive finite number.
    TotalMass,
    /// The mass ratio is not a positive finite number.
    MassRatio,
    /// The spin of the first body is not a number from -1 to 1.
    FirstSpin,
    /// The spin of the second body is not a number from -1 to 1.
    SecondSpin,
    /// The luminosity distance is not a positive finite number.
    LuminosityDistance,
}

/// A finite number above zero.
pub open spec fn is_positive_finite(x: Number) -> bool {
    x matches Number::Finite { value } && value > 0real
}

/// A dimensionless aligned spin: a number from -1 to 1.
pub open spec fn is_spin(x: Number) -> bool {
    x matches Number::Finite { value } && -1real <= value <= 1real
}

/// The first fault in the intrinsic parameters, in the order mass ratio, first spin, second
/// spin.
pub open spec fn params_fault(mass_ratio: Number, chi_1: Number, chi_2: Number) -> Option<
    ParameterError,
> {
    if !is_positive_finite(mass_ratio) {
        Some(ParameterError::MassRatio)
    } else if !is_spin(chi_1) {
        Some(ParameterError::FirstSpin)
    } else if !is_spin(chi_2) {
        Some(ParameterError::SecondSpin)
    } else {
        None
    }
}

/// The symmetric mass ratio `q / (1 + q)^2` of the mass ratio `q`, in exact arithmetic.
pub open spec fn symmetric_mass_ratio(q: real) -> real {
    q / ((1real + q) * (1real + q))
}

/// The share `1 / (1 + q)` of the first body in the total mass, in exact arithmetic.
pub open spec fn first_mass_fraction(q: real) -> real {
    1real / (1real + q)
}

/// The share `q / (1 + q)` of the second body in the total mass, in exact arithmetic.
pub open spec fn second_mass_fraction(q: real) -> real {
    q / (1real + q)
}

/// The asymmetry of the masses: the first share less the second.
pub open spec fn mass_asymmetry(q: real) -> real {
    first_mass_fraction(q) - second_mass_fraction(q)
}

/// The effective spin `chi_s * (1 - 76 eta / 113) + seta * chi_a` by which the fits are
/// parameterised, with `chi_s` the mean of the spins and `chi_a` half their difference, in
/// exact arithmetic.
pub open spec fn effective_spin(q: real, chi_1: real, chi_2: real) -> real {
    (chi_1 + chi_2) / 2real * (1real - symmetric_mass_ratio(q) * 76real / 113real)
        + mass_asymmetry(q) * ((chi_1 - chi_2) / 2real)
}

/// Whether `x` is a finite number above zero.
pub fn positive_finite(x: Binary64) -> (r: bool)
    ensures
        r == is_positive_finite(x@),
{
    proof {
        let zero = Binary64 { bits: 0 };
        assert(zero.fraction() == 0 && zero.biased_exponent() == 0);
        assert(zero.position() == 0);
        lemma_value_follows_position(zero, zero);
        assert(zero@ == Number::Finite { value: 0real });
    }
    x.is_finite() && Binary64::from_bits(0).lt(x)
}

/// Whether `x` is a number from -1 to 1.
pub fn spin_in_range(x: Binary64) -> (r: bool)
    ensures
        r == is_spin(x@),
{
    proof {
        lemma_one();
    }
    Binary64::from_bits(NEGATIVE_ONE_BITS).le(x) && x.le(Binary64::from_bits(ONE_BITS))
}

/// Checks the intrinsic parameters of a binary: the mass ratio, of the second body to the
/// first, must be a positive finite number, each spin a number from -1 to 1. The first fault
/// found is the error.
pub fn check_params(mass_ratio: Binary64, chi_1: Binary64, chi_2: Binary64) -> (r: Result<
    (),
    ParameterError,
>)
    ensures
        match params_fault(mass_ratio@, chi_1@, chi_2@) {
            Some(e) => r == Err::<(), ParameterError>(e),
            None => r == Ok::<(), ParameterError>(()),
        },
{
    if !positive_finite(mass_ratio) {
        Err(ParameterError::MassRatio)
    } else if !spin_in_range(chi_1) {
        Err(ParameterError::FirstSpin)
    } else if !spin_in_range(chi_2) {
        Err(ParameterError::SecondSpin)
    } else {
        Ok(())
    }
}

/// In exact arithmetic the symmetric mass ratio of every mass ratio that `check_params`
/// accepts is above 0 and at most 1/4, and it is 1/4 for the mass ratio 1 alone.
pub proof fn lemma_symmetric_mass_ratio_range(mass_ratio: Binary64)
    requires
        is_positive_finite(mass_ratio@),
    ensures
        0real < symmetric_mass_ratio(mass_ratio.value()) <= 1real / 4real,
        symmetric_mass_ratio(mass_ratio.value()) == 1real / 4real <==> mass_ratio.bits
            == ONE_BITS,
{
    let q = mass_ratio.value();
    let eta = symmetric_mass_ratio(q);
    assert(0real < eta && eta <= 1real / 4real && (eta == 1real / 4real <==> q == 1real))
        by (nonlinear_arith)
        requires
            q > 0real,
            eta == q / ((1real + q) * (1real + q)),
    ;
    let one = Binary64 { bits: ONE_BITS };
    lemma_one();
    lemma_value_follows_position(mass_ratio, one);
    if q == 1real {
        lemma_encoding_of_position(mass_ratio, one);
    }
}

/// In exact arithmetic the two mass shares of every mass ratio that `check_params` accepts
/// lie between 0 and 1 and sum to 1, their product is the symmetric mass ratio, the square
/// of their difference is `1 - 4 eta`, and they are equal for the mass ratio 1 alone.
pub proof fn lemma_mass_fractions(mass_ratio: Binary64)
    requires
        is_positive_finite(mass_ratio@),
    ensures
        0real < first_mass_fraction(mass_ratio.value()) < 1real,
        0real < second_mass_fraction(mass_ratio.value()) < 1real,
        first_mass_fraction(mass_ratio.value()) + second_mass_fraction(mass_ratio.value())
            == 1real,
        first_mass_fraction(mass_ratio.value()) * second_mass_fraction(mass_ratio.value())
            == symmetric_mass_ratio(mass_ratio.value()),
        mass_asymmetry(mass_ratio.value()) * mass_asymmetry(mass_ratio.value()) == 1real - 4real
            * symmetric_mass_ratio(mass_ratio.value()),
        mass_asymmetry(mass_ratio.value()) == 0real <==> mass_ratio.bits == ONE_BITS,
{
    let q = mass_ratio.value();
    let m1 = first_mass_fraction(q);
    let m2 = second_mass_fraction(q);
    let eta = symmetric_mass_ratio(q);
    assert(0real < m1 < 1real && 0real < m2 < 1real && m1 + m2 == 1real && (m1 - m2 == 0real
        <==> q == 1real)) by (nonlinear_arith)
        requires
            q > 0real,
            m1 == 1real / (1real + q),
            m2 == q / (1real + q),
    ;
    assert(m1 * m2 == eta && (m1 - m2) * (m1 - m2) == 1real - 4real * eta) by (nonlinear_arith)
        requires
            q > 0real,
            m1 == 1real / (1real + q),
            m2 == q / (1real + q),
            eta == q / ((1real + q) * (1real + q)),
    ;
    let one = Binary64 { bits: ONE_BITS };
    lemma_one();
    lemma_value_follows_position(mass_ratio, one);
    if q == 1real {
        lemma_encoding_of_position(mass_ratio, one);
    }
}

/// The mass ratio is that of the second body to the first. In exact arithmetic its inverse
/// describes the same binary with the bodies exchanged: the shares change places, the
/// asymmetry changes sign, and the symmetric mass ratio stays.
pub proof fn lemma_inverse_mass_ratio(q: real)
    requires
        q > 0real,
    ensures
        first_mass_fraction(1real / q) == second_mass_fraction(q),
        second_mass_fraction(1real / q) == first_mass_fraction(q),
        mass_asymmetry(1real / q) == -mass_asymmetry(q),
        symmetric_mass_ratio(1real / q) == symmetric_mass_ratio(q),
{
    let p = 1real / q;
    assert(1real / (1real + p) == q / (1real + q) && p / (1real + p) == 1real / (1real + q) && p
        / ((1real + p) * (1real + p)) == q / ((1real + q) * (1real + q))) by (nonlinear_arith)
        requires
            q > 0real,
            p == 1real / q,
    ;
}

/// In exact arithmetic, for parameters that `check_params` accepts: where the two spins are
/// equal, the effective spin is their common value times `1 - 76 eta / 113`, whatever the
/// masses. For equal masses that is 94/113 of the common spin, which is the mean of the
/// spins only where the spins are zero.
pub proof fn lemma_effective_spin_of_equal_spins(
    mass_ratio: Binary64,
    chi_1: Binary64,
    chi_2: Binary64,
)
    requires
        params_fault(mass_ratio@, chi_1@, chi_2@) is None,
        chi_1.value() == chi_2.value(),
    ensures
        effective_spin(mass_ratio.value(), chi_1.value(), chi_2.value()) == chi_1.value() * (1real
            - symmetric_mass_ratio(mass_ratio.value()) * 76real / 113real),
        mass_ratio.bits == ONE_BITS ==> effective_spin(
            mass_ratio.value(),
            chi_1.value(),
            chi_2.value(),
        ) == chi_1.value() * 94real / 113real,
        mass_ratio.bits == ONE_BITS ==> (effective_spin(
            mass_ratio.value(),
            chi_1.value(),
            chi_2.value(),
        ) == (chi_1.value() + chi_2.value()) / 2real <==> chi_1.value() == 0real),
{
    let q = mass_ratio.value();
    let c = chi_1.value();
    let eta = symmetric_mass_ratio(q);
    let seta = mass_asymmetry(q);
    let spin = effective_spin(q, c, c);
    assert(spin == c * (1real - eta * 76real / 113real)) by (nonlinear_arith)
        requires
            spin == (c + c) / 2real * (1real - eta * 76real / 113real) + seta * ((c - c) / 2real),
    ;
    if mass_ratio.bits == ONE_BITS {
        lemma_one();
        lemma_symmetric_mass_ratio_range(mass_ratio);
        assert(eta == 1real / 4real);
        assert(spin == c * 94real / 113real && (spin == (c + c) / 2real <==> c == 0real))
            by (nonlinear_arith)
            requires
                spin == c * (1real - eta * 76real / 113real),
                eta == 1real / 4real,
        ;
    }
}

} // verus!
