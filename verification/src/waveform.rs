//! Source parameters and strain samples of a waveform model.

use crate::binary64::{Binary64, Number};
use crate::pn::{
    check_params, is_positive_finite, params_fault, positive_finite, ParameterError,
};
use vstd::prelude::*;

verus! {

/// A complex strain sample.
#[derive(Clone, Copy, Debug)]
pub struct Strain {
    pub re: Binary64,
    pub im: Binary64,
}

impl Strain {
    /// Whether both parts are finite numbers.
    pub open spec fn is_finite_spec(self) -> bool {
        self.re@ is Finite && self.im@ is Finite
    }

    /// Whether both parts are zero.
    pub open spec fn is_zero_spec(self) -> bool {
        self.re@ == (Number::Finite { value: 0real }) && self.im@ == (Number::Finite {
            value: 0real,
        })
    }

    /// Whether both parts are finite numbers.
    pub fn is_finite(self) -> (r: bool)
        ensures
            r == self.is_finite_spec(),
    {
        self.re.is_finite() && self.im.is_finite()
    }

    /// Whether both parts are zero.
    pub fn is_zero(self) -> (r: bool)
        ensures
            r == self.is_zero_spec(),
    {
        self.re.is_zero() && self.im.is_zero()
    }
}

/// The first fault in the parameters of a source, in the order total mass, mass ratio,
/// first spin, second spin, luminosity distance.
pub open spec fn source_fault(
    total_mass: Number,
    mass_ratio: Number,
    chi_1: Number,
    chi_2: Number,
    luminosity_distance: Number,
) -> Option<ParameterError> {
    if !is_positive_finite(total_mass) {
        Some(ParameterError::TotalMass)
    } else if params_fault(mass_ratio, chi_1, chi_2) is Some {
        params_fault(mass_ratio, chi_1, chi_2)
    } else if !is_positive_finite(luminosity_distance) {
        Some(ParameterError::LuminosityDistance)
    } else {
        None
    }
}

/// Checks the parameters from which a model is made: total mass and luminosity distance
/// must be positive finite numbers, and the intrinsic parameters must pass `check_params`.
/// The first fault found is the error.
pub fn check_source(
    total_mass: Binary64,
    mass_ratio: Binary64,
    chi_1: Binary64,
    chi_2: Binary64,
    luminosity_distance: Binary64,
) -> (r: Result<(), ParameterError>)
    ensures
        match source_fault(total_mass@, mass_ratio@, chi_1@, chi_2@, luminosity_distance@) {
            Some(e) => r == Err::<(), ParameterError>(e),
            None => r == Ok::<(), ParameterError>(()),
        },
{
    if !positive_finite(total_mass) {
        return Err(ParameterError::TotalMass);
    }
    match check_params(mass_ratio, chi_1, chi_2) {
        Err(e) => Err(e),
        Ok(()) => {
            if !positive_finite(luminosity_distance) {
                Err(ParameterError::LuminosityDistance)
            } else {
                Ok(())
            }
        },
    }
}

/// A waveform model: what turns a frequency into a strain sample.
///
/// A model gives its orbital speed, phase and amplitude, and from them the strain at one
/// frequency, `amplitude(v) * exp(-i * phase(v, phi_c))` at the orbital speed `v` of the
/// frequency. These are evaluated in binary64 arithmetic by the model, and nothing is stated
/// of them here. The strain on a grid is built on them, once for every model.
pub trait Waveform {
    /// The expansion parameter of the model at `frequency`.
    fn orbital_speed(&self, frequency: Binary64) -> Binary64;

    /// The phase at the expansion parameter `v`, in radians.
    fn phase(&self, v: Binary64, phi_c: Binary64) -> Binary64;

    /// The amplitude at the expansion parameter `v`.
    fn amplitude(&self, v: Binary64) -> Binary64;

    /// The strain at one frequency.
    fn waveform_single_frequency(&self, frequency: Binary64, phi_c: Binary64) -> Strain;

    /// The strain on a grid of frequencies: one sample for each frequency, in the order of
    /// the grid, each a result of `waveform_single_frequency` at its frequency. No frequency
    /// is left out, whether or not it lies in a band of interest.
    fn waveform(&self, frequencies: &[Binary64], phi_c: Binary64) -> (samples: Vec<Strain>)
        ensures
            samples@.len() == frequencies@.len(),
            forall|i: int|
                0 <= i < frequencies@.len() ==> call_ensures(
                    Self::waveform_single_frequency,
                    (self, frequencies@[i], phi_c),
                    #[trigger] samples@[i],
                ),
    {
        let mut samples: Vec<Strain> = Vec::with_capacity(frequencies.len());
        let mut i: usize = 0;
        while i < frequencies.len()
            invariant
                i <= frequencies@.len(),
                samples@.len() == i,
                forall|k: int|
                    0 <= k < i ==> call_ensures(
                        Self::waveform_single_frequency,
                        (self, frequencies@[k], phi_c),
                        #[trigger] samples@[k],
                    ),
            decreases frequencies@.len() - i,
        {
            let h = self.waveform_single_frequency(frequencies[i], phi_c);
            samples.push(h);
            i += 1;
        }
        samples
    }
}

} // verus!
