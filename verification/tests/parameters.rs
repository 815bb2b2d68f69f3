use waveformrs::binary64::Binary64;
use waveformrs::pn::{check_params, positive_finite, spin_in_range, ParameterError};
use waveformrs::waveform::{check_source, Strain};

fn number(x: f64) -> Binary64 {
    Binary64::from_bits(x.to_bits())
}

fn strain(re: f64, im: f64) -> Strain {
    Strain { re: number(re), im: number(im) }
}

#[test]
fn positive_finite_numbers() {
    assert!(positive_finite(number(1.0)));
    assert!(positive_finite(number(f64::from_bits(1))));
    assert!(positive_finite(number(f64::MAX)));
    assert!(!positive_finite(number(0.0)));
    assert!(!positive_finite(number(-0.0)));
    assert!(!positive_finite(number(-1.0)));
    assert!(!positive_finite(number(f64::INFINITY)));
    assert!(!positive_finite(number(f64::NEG_INFINITY)));
    assert!(!positive_finite(number(f64::NAN)));
}

#[test]
fn spins_lie_between_minus_one_and_one() {
    for chi in [-1.0, -0.5, -0.0, 0.0, 0.3, 1.0] {
        assert!(spin_in_range(number(chi)), "{}", chi);
    }
    for chi in [
        -1.0 - f64::EPSILON,
        1.0 + f64::EPSILON,
        2.0,
        -7.0,
        f64::INFINITY,
        f64::NEG_INFINITY,
        f64::NAN,
    ] {
        assert!(!spin_in_range(number(chi)), "{}", chi);
    }
}

#[test]
fn check_params_accepts_a_binary() {
    assert_eq!(check_params(number(0.5), number(0.0), number(0.0)), Ok(()));
    assert_eq!(check_params(number(1.0), number(-1.0), number(1.0)), Ok(()));
    assert_eq!(check_params(number(4.0), number(0.7), number(-0.2)), Ok(()));
}

#[test]
fn check_params_rejects_the_mass_ratio() {
    for q in [0.0, -0.0, -0.5, f64::INFINITY, f64::NAN] {
        assert_eq!(
            check_params(number(q), number(0.0), number(0.0)),
            Err(ParameterError::MassRatio)
        );
    }
}

#[test]
fn check_params_rejects_a_spin() {
    assert_eq!(
        check_params(number(0.5), number(1.5), number(0.0)),
        Err(ParameterError::FirstSpin)
    );
    assert_eq!(
        check_params(number(0.5), number(f64::NAN), number(0.0)),
        Err(ParameterError::FirstSpin)
    );
    assert_eq!(
        check_params(number(0.5), number(0.0), number(-1.5)),
        Err(ParameterError::SecondSpin)
    );
    assert_eq!(
        check_params(number(0.5), number(0.0), number(f64::INFINITY)),
        Err(ParameterError::SecondSpin)
    );
}

#[test]
fn check_params_reports_the_first_fault() {
    assert_eq!(
        check_params(number(-1.0), number(3.0), number(3.0)),
        Err(ParameterError::MassRatio)
    );
    assert_eq!(
        check_params(number(1.0), number(3.0), number(3.0)),
        Err(ParameterError::FirstSpin)
    );
}

#[test]
fn check_source_accepts_a_source() {
    assert_eq!(
        check_source(number(90.0), number(0.5), number(0.0), number(0.0), number(100.0)),
        Ok(())
    );
    assert_eq!(
        check_source(number(20.0), number(1.0), number(0.0), number(0.0), number(1.0)),
        Ok(())
    );
}

#[test]
fn check_source_rejects_each_parameter() {
    let ok = number(1.0);
    let zero = number(0.0);
    assert_eq!(check_source(zero, ok, zero, zero, ok), Err(ParameterError::TotalMass));
    assert_eq!(
        check_source(number(-90.0), ok, zero, zero, ok),
        Err(ParameterError::TotalMass)
    );
    assert_eq!(check_source(ok, zero, zero, zero, ok), Err(ParameterError::MassRatio));
    assert_eq!(check_source(ok, ok, number(2.0), zero, ok), Err(ParameterError::FirstSpin));
    assert_eq!(check_source(ok, ok, zero, number(-2.0), ok), Err(ParameterError::SecondSpin));
    assert_eq!(check_source(ok, ok, zero, zero, zero), Err(ParameterError::LuminosityDistance));
    assert_eq!(
        check_source(ok, ok, zero, zero, number(f64::INFINITY)),
        Err(ParameterError::LuminosityDistance)
    );
}

#[test]
fn check_source_reports_the_first_fault() {
    let nan = number(f64::NAN);
    let ok = number(1.0);
    assert_eq!(check_source(nan, nan, nan, nan, nan), Err(ParameterError::TotalMass));
    assert_eq!(check_source(ok, nan, nan, nan, nan), Err(ParameterError::MassRatio));
    assert_eq!(check_source(ok, ok, nan, nan, nan), Err(ParameterError::FirstSpin));
    assert_eq!(check_source(ok, ok, ok, nan, nan), Err(ParameterError::SecondSpin));
    assert_eq!(check_source(ok, ok, ok, ok, nan), Err(ParameterError::LuminosityDistance));
}

#[test]
fn symmetric_mass_ratio_of_accepted_mass_ratios() {
    // q / (1 + q)^2 is above 0 and at most 1/4; 1/4 at q == 1.
    for q in [1.0e-3, 0.1, 0.5, 0.99, 1.0, 2.0, 18.0] {
        assert_eq!(check_params(number(q), number(0.0), number(0.0)), Ok(()));
        let eta = q / ((1.0 + q) * (1.0 + q));
        assert!(number(0.0).lt(number(eta)));
        assert!(number(eta).le(number(0.25)));
        assert_eq!(eta == 0.25, q == 1.0);
    }
    let eta = 0.5f64 / (1.5 * 1.5);
    assert_eq!(eta, 0.2222222222222222);
}

#[test]
fn symmetric_mass_ratio_rounds_out_of_range_next_to_one() {
    // In binary64 the sum 1 + q rounds to 2 for the neighbour of 1, and the quotient
    // comes out above 1/4.
    let q = 1.0 + f64::EPSILON;
    let eta = q / ((1.0 + q) * (1.0 + q));
    assert!(number(0.25).lt(number(eta)));
}

#[test]
fn strain_is_finite() {
    assert!(strain(1.0e-21, -3.0e-22).is_finite());
    assert!(strain(0.0, 0.0).is_finite());
    assert!(!strain(f64::NAN, 0.0).is_finite());
    assert!(!strain(0.0, f64::NAN).is_finite());
    assert!(!strain(f64::INFINITY, 0.0).is_finite());
    assert!(!strain(1.0, f64::NEG_INFINITY).is_finite());
}

#[test]
fn strain_is_zero() {
    assert!(strain(0.0, 0.0).is_zero());
    assert!(strain(-0.0, 0.0).is_zero());
    assert!(strain(0.0, -0.0).is_zero());
    assert!(!strain(1.0e-21, 0.0).is_zero());
    assert!(!strain(0.0, f64::from_bits(1)).is_zero());
    assert!(!strain(f64::NAN, 0.0).is_zero());
}

#[test]
fn effective_spin_of_equal_spins() {
    // chi_s * (1 - 76 eta / 113) + seta * chi_a, as the models evaluate it.
    let effective = |q: f64, chi_1: f64, chi_2: f64| {
        let eta = q / ((1.0 + q) * (1.0 + q));
        let seta = 1.0 / (1.0 + q) - q / (1.0 + q);
        let chi_s = (chi_1 + chi_2) / 2.0;
        let chi_a = (chi_1 - chi_2) / 2.0;
        chi_s * (1.0 - eta * 76.0 / 113.0) + seta * chi_a
    };
    // Equal masses: 94/113 of the common spin, and the mean of the spins only at zero.
    for chi in [-1.0, -0.25, 0.5, 1.0] {
        assert_eq!(check_params(number(1.0), number(chi), number(chi)), Ok(()));
        let spin = effective(1.0, chi, chi);
        assert!((spin - chi * 94.0 / 113.0).abs() <= 1.0e-15);
        assert!(spin != chi);
    }
    assert_eq!(effective(1.0, 0.0, 0.0), 0.0);
    assert_eq!(effective(1.0, 0.5, 0.5), 0.5 * (1.0 - 0.25 * 76.0 / 113.0));
    // Unequal masses: the common spin times 1 - 76 eta / 113.
    let eta = 0.5 / (1.5 * 1.5);
    assert!((effective(0.5, 0.3, 0.3) - 0.3 * (1.0 - eta * 76.0 / 113.0)).abs() <= 1.0e-15);
}
