use waveformrs::binary64::Binary64;
use waveformrs::waveform::{Strain, Waveform};

fn number(x: f64) -> Binary64 {
    Binary64::from_bits(x.to_bits())
}

fn value(x: Binary64) -> f64 {
    f64::from_bits(x.to_bits())
}

/// A model with unit amplitude whose phase grows with the frequency.
struct Ramp {
    slope: f64,
}

impl Waveform for Ramp {
    fn orbital_speed(&self, frequency: Binary64) -> Binary64 {
        frequency
    }

    fn phase(&self, v: Binary64, phi_c: Binary64) -> Binary64 {
        number(self.slope * value(v) - value(phi_c))
    }

    fn amplitude(&self, _v: Binary64) -> Binary64 {
        number(1.0)
    }

    fn waveform_single_frequency(&self, frequency: Binary64, phi_c: Binary64) -> Strain {
        let v = self.orbital_speed(frequency);
        let a = value(self.amplitude(v));
        let p = value(self.phase(v, phi_c));
        Strain { re: number(a * p.cos()), im: number(-a * p.sin()) }
    }
}

#[test]
fn waveform_has_one_sample_for_each_frequency() {
    let model = Ramp { slope: 2.0 };
    let grid: Vec<Binary64> = [0.0, 0.25, 0.5, 0.75, 1.0].iter().map(|&f| number(f)).collect();
    let samples = model.waveform(&grid, number(0.1));
    assert_eq!(samples.len(), grid.len());
}

#[test]
fn waveform_keeps_the_order_of_the_grid() {
    let model = Ramp { slope: 2.0 };
    // Neither sorted nor free of repeats.
    let grid: Vec<Binary64> = [0.75, 0.0, 1.0, 0.25, 0.25, 0.5].iter().map(|&f| number(f)).collect();
    let samples = model.waveform(&grid, number(0.1));
    for (f, h) in grid.iter().zip(samples.iter()) {
        let single = model.waveform_single_frequency(*f, number(0.1));
        assert_eq!(h.re.to_bits(), single.re.to_bits());
        assert_eq!(h.im.to_bits(), single.im.to_bits());
    }
    assert_eq!(value(samples[1].re), (-0.1f64).cos());
    assert_eq!(value(samples[1].im), -(-0.1f64).sin());
}

#[test]
fn waveform_of_an_empty_grid_is_empty() {
    let model = Ramp { slope: 2.0 };
    let samples = model.waveform(&[], number(0.0));
    assert!(samples.is_empty());
}

#[test]
fn waveform_filters_nothing() {
    let model = Ramp { slope: 1.0 };
    // Frequencies that a detector band would exclude, and one that is no number.
    let grid = [number(-5.0), number(0.0), number(1.0e9), number(f64::NAN)];
    let samples = model.waveform(&grid, number(0.0));
    assert_eq!(samples.len(), 4);
    assert!(samples[0].is_finite());
    assert!(!samples[0].is_zero());
    assert!(samples[2].is_finite());
    assert!(!samples[3].is_finite());
}
