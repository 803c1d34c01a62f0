use tuner::analyser::dominant_bin;
use tuner::analyser::dominant_frequency;
use tuner::analyser::DEFAULT_FLOOR;
use tuner::input::Frequency;
use tuner::input::Input;
use tuner::sample::SampleFormat;

fn keys(magnitudes: &[f64]) -> Vec<Option<u64>> {
    magnitudes
        .iter()
        .map(|m| if m.is_finite() { Some(m.to_bits()) } else { None })
        .collect()
}

#[test]
fn default_floor_is_one_thousandth() {
    assert_eq!(DEFAULT_FLOOR, 1e-3f64.to_bits());
    assert_eq!(f64::from_bits(DEFAULT_FLOOR), 0.001);
}

#[test]
fn keys_order_as_magnitudes_do() {
    let magnitudes: [f64; 7] = [0.0, 1e-300, 0.001, 0.5, 1.0, 3.0, 1e300];
    for pair in magnitudes.windows(2) {
        assert!(pair[0].to_bits() < pair[1].to_bits());
    }
}

#[test]
fn largest_bin_below_the_middle_wins() {
    let spectrum = keys(&[100.0, 1.0, 5.0, 2.0, 9.0, 9.5, 7.0, 50.0]);
    assert_eq!(dominant_bin(&spectrum, Some(DEFAULT_FLOOR)), Some(2));
}

#[test]
fn constant_component_never_wins() {
    let spectrum = keys(&[1000.0, 1.0, 2.0, 0.5, 0.0, 0.0, 0.0, 0.0]);
    assert_eq!(dominant_bin(&spectrum, Some(DEFAULT_FLOOR)), Some(2));
}

#[test]
fn mirrored_half_never_wins() {
    let spectrum = keys(&[0.0, 1.0, 2.0, 99.0, 99.0, 99.0]);
    assert_eq!(dominant_bin(&spectrum, Some(DEFAULT_FLOOR)), Some(2));
    let spectrum = keys(&[0.0, 1.0, 2.0, 99.0, 99.0, 99.0, 99.0]);
    assert_eq!(dominant_bin(&spectrum, Some(DEFAULT_FLOOR)), Some(2));
}

#[test]
fn equal_magnitudes_go_to_the_lowest_bin() {
    let spectrum = keys(&[0.0, 3.0, 7.0, 7.0, 7.0, 1.0, 0.0, 0.0, 0.0, 0.0, 0.0, 0.0]);
    assert_eq!(dominant_bin(&spectrum, Some(DEFAULT_FLOOR)), Some(2));
    let spectrum = keys(&[0.0, 7.0, 7.0, 7.0, 0.0, 0.0, 0.0, 0.0]);
    assert_eq!(dominant_bin(&spectrum, None), Some(1));
}

#[test]
fn silence_has_no_dominant_bin() {
    let spectrum = keys(&[38587.5, 0.0, 0.0, 1e-12, 0.0, 0.0, 0.0, 0.0]);
    assert_eq!(dominant_bin(&spectrum, Some(DEFAULT_FLOOR)), None);
}

#[test]
fn magnitude_at_the_floor_does_not_count() {
    let spectrum = keys(&[0.0, 0.001, 0.0005, 0.0, 0.0, 0.0]);
    assert_eq!(dominant_bin(&spectrum, Some(DEFAULT_FLOOR)), None);
    let spectrum = keys(&[0.0, 0.001, 0.0010000001, 0.0, 0.0, 0.0]);
    assert_eq!(dominant_bin(&spectrum, Some(DEFAULT_FLOOR)), Some(2));
}

#[test]
fn without_a_floor_every_finite_magnitude_counts() {
    let spectrum = keys(&[0.0, 0.0, 0.0, 0.0, 0.0, 0.0]);
    assert_eq!(dominant_bin(&spectrum, None), Some(1));
    let spectrum = keys(&[0.0, 1e-9, 2e-9, 0.0, 0.0, 0.0]);
    assert_eq!(dominant_bin(&spectrum, None), Some(2));
}

#[test]
fn magnitudes_that_are_not_finite_are_passed_over() {
    let spectrum = keys(&[0.0, f64::NAN, 2.0, f64::INFINITY, 1.0, 0.0, 0.0, 0.0, 0.0, 0.0]);
    assert_eq!(dominant_bin(&spectrum, Some(DEFAULT_FLOOR)), Some(2));
    let spectrum = keys(&[0.0, f64::NAN, f64::NAN, f64::INFINITY, 0.0, 0.0, 0.0, 0.0]);
    assert_eq!(dominant_bin(&spectrum, Some(DEFAULT_FLOOR)), None);
    assert_eq!(dominant_bin(&spectrum, None), None);
}

#[test]
fn short_spectra_have_no_dominant_bin() {
    assert_eq!(dominant_bin(&Vec::new(), None), None);
    assert_eq!(dominant_bin(&keys(&[5.0]), None), None);
    assert_eq!(dominant_bin(&keys(&[5.0, 6.0]), None), None);
    assert_eq!(dominant_bin(&keys(&[5.0, 6.0, 7.0]), None), None);
    assert_eq!(dominant_bin(&keys(&[5.0, 6.0, 7.0, 8.0]), None), Some(1));
}

#[test]
fn dominant_frequency_is_that_of_the_dominant_bin() {
    let input = Input::from_params(SampleFormat::S16LE, 64, 1, 8000, 2).unwrap();
    assert_eq!(input.buf_len(), 16);
    let mut magnitudes = vec![0.0f64; 16];
    magnitudes[0] = 8.0;
    magnitudes[3] = 4.0;
    magnitudes[13] = 4.0;
    let found = dominant_frequency(&input, &keys(&magnitudes), Some(DEFAULT_FLOOR));
    assert_eq!(found, Some(Frequency { num: 24000, den: 16 }));
    let silent = vec![0.0f64; 16];
    assert_eq!(dominant_frequency(&input, &keys(&silent), Some(DEFAULT_FLOOR)), None);
}
