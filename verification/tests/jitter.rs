use motor_rust::filter::{FilterError, RustFilter};
use motor_rust::fixed::{LIMIT, ONE};

#[test]
fn first_sample_comes_back_unchanged() {
    let mut f = RustFilter::new(ONE, 0, ONE).unwrap();
    assert_eq!(f.filter(0, 123_456), 123_456);
    let mut g = RustFilter::new(ONE, 7_000, ONE).unwrap();
    assert_eq!(g.filter(-5 * ONE, -9 * ONE), -9 * ONE);
}

#[test]
fn second_sample_is_smoothed() {
    let mut f = RustFilter::new(ONE, 0, ONE).unwrap();
    assert_eq!(f.filter(0, 0), 0);
    assert_eq!(f.filter(ONE, ONE), 862_697);
    assert_eq!(f.filter(2 * ONE, ONE), 981_148);
}

#[test]
fn negative_values_are_smoothed() {
    let mut f = RustFilter::new(120_000, 7_000, ONE).unwrap();
    assert_eq!(f.filter(0, -3 * ONE), -3 * ONE);
    assert_eq!(f.filter(20_000, -2 * ONE), -2_980_403);
    assert_eq!(f.filter(40_000, -2_500_000), -2_970_154);
}

#[test]
fn stale_timestamp_changes_nothing() {
    let mut f = RustFilter::new(ONE, 7_000, ONE).unwrap();
    let mut twin = RustFilter::new(ONE, 7_000, ONE).unwrap();
    f.filter(0, 0);
    twin.filter(0, 0);
    let last = f.filter(ONE, ONE);
    assert_eq!(twin.filter(ONE, ONE), last);
    assert_eq!(f.filter(ONE, 5 * ONE), last);
    assert_eq!(f.filter(ONE - 1, -5 * ONE), last);
    assert_eq!(f.filter(i64::MIN, 77), last);
    assert_eq!(f.filter(2 * ONE, 3 * ONE), twin.filter(2 * ONE, 3 * ONE));
    assert_eq!(f.filter(3 * ONE, 3 * ONE), twin.filter(3 * ONE, 3 * ONE));
}

#[test]
fn stale_timestamp_after_the_first_sample() {
    let mut f = RustFilter::new(ONE, 0, ONE).unwrap();
    assert_eq!(f.filter(10, 42), 42);
    assert_eq!(f.filter(10, 43), 42);
    assert_eq!(f.filter(9, 44), 42);
}

#[test]
fn constant_input_is_approached() {
    let mut f = RustFilter::new(ONE, 0, ONE).unwrap();
    f.filter(0, 0);
    let mut distance: i64 = ONE;
    let mut k: i64 = 1;
    while k < 200 {
        let out = f.filter(k * 16_667, ONE);
        assert!(0 <= out && out <= ONE);
        if distance > 0 {
            assert!(ONE - out < distance);
        } else {
            assert_eq!(out, ONE);
        }
        distance = ONE - out;
        if k < 121 {
            assert!(distance > 0);
        } else {
            assert_eq!(distance, 0);
        }
        k += 1;
    }
}

#[test]
fn constant_input_is_reached_within_the_distance() {
    let mut f = RustFilter::new(ONE, 0, ONE).unwrap();
    assert_eq!(f.filter(0, 0), 0);
    assert_eq!(f.filter(1, 3), 1);
    assert_eq!(f.filter(2, 3), 2);
    assert_eq!(f.filter(3, 3), 3);
    assert_eq!(f.filter(4, 3), 3);
}

#[test]
fn slow_filter_moves_once_it_is_responsive() {
    let mut f = RustFilter::new(1, 0, ONE).unwrap();
    assert_eq!(f.filter(0, 0), 0);
    assert_eq!(f.filter(1, 3), 0);
    assert_eq!(f.filter(100_000, 3), 0);
    assert_eq!(f.filter(ONE, 3), 1);
    assert_eq!(f.filter(ONE + 400_000, 3), 2);
}

#[test]
fn constant_input_shrinks_the_distance_at_first() {
    let mut f = RustFilter::new(ONE, 0, ONE).unwrap();
    f.filter(0, 0);
    let expected: [i64; 6] = [94_794, 180_603, 258_277, 328_588, 392_234, 449_847];
    let mut k: usize = 0;
    while k < expected.len() {
        assert_eq!(f.filter((k as i64 + 1) * 16_667, ONE), expected[k]);
        k += 1;
    }
}

#[test]
fn constant_input_from_above() {
    let mut f = RustFilter::new(500_000, 1_000, ONE).unwrap();
    f.filter(0, 4 * ONE);
    let mut last: i64 = 4 * ONE;
    let mut k: i64 = 1;
    while k < 500 {
        let out = f.filter(k * 10_000, -ONE);
        assert!(-ONE <= out && out <= last);
        last = out;
        k += 1;
    }
}

#[test]
fn output_that_reached_the_input_stays() {
    let mut f = RustFilter::new(ONE, 0, ONE).unwrap();
    f.filter(0, 5);
    assert_eq!(f.filter(1_000, 5), 5);
    assert_eq!(f.filter(2_000, 5), 5);
}

#[test]
fn larger_beta_gives_less_lag() {
    let betas: [i64; 5] = [0, 7_000, 100_000, ONE, 10 * ONE];
    let expected: [i64; 5] = [94_794, 98_198, 141_101, 411_878, 858_373];
    let mut k: usize = 0;
    while k < betas.len() {
        let mut f = RustFilter::new(ONE, betas[k], ONE).unwrap();
        f.filter(0, 0);
        assert_eq!(f.filter(16_667, ONE), expected[k]);
        k += 1;
    }
}

#[test]
fn set_beta_changes_the_smoothing() {
    let mut f = RustFilter::new(ONE, 0, ONE).unwrap();
    f.filter(0, 0);
    assert_eq!(f.set_beta(ONE), Ok(()));
    assert_eq!(f.filter(16_667, ONE), 411_878);
}

#[test]
fn refused_parameters() {
    assert_eq!(RustFilter::new(-1, 0, 0).err(), Some(FilterError::Negative));
    assert_eq!(RustFilter::new(0, -1, 0).err(), Some(FilterError::Negative));
    assert_eq!(RustFilter::new(0, 0, -1).err(), Some(FilterError::Negative));
    assert_eq!(RustFilter::new(LIMIT + 1, 0, 0).err(), Some(FilterError::OutOfRange));
    assert_eq!(RustFilter::new(0, LIMIT + 1, 0).err(), Some(FilterError::OutOfRange));
    assert_eq!(RustFilter::new(0, 0, LIMIT + 1).err(), Some(FilterError::OutOfRange));
    assert_eq!(RustFilter::new(LIMIT + 1, -1, 0).err(), Some(FilterError::OutOfRange));
    assert_eq!(RustFilter::new(0, LIMIT + 1, -1).err(), Some(FilterError::OutOfRange));
    assert!(RustFilter::new(0, 0, 0).is_ok());
    assert!(RustFilter::new(LIMIT, LIMIT, LIMIT).is_ok());
}

#[test]
fn refused_beta_leaves_the_filter() {
    let mut f = RustFilter::new(ONE, 0, ONE).unwrap();
    f.filter(0, 0);
    assert_eq!(f.set_beta(-1), Err(FilterError::Negative));
    assert_eq!(f.set_beta(LIMIT + 1), Err(FilterError::OutOfRange));
    assert_eq!(f.filter(16_667, ONE), 94_794);
}

#[test]
fn zero_cutoff_holds_the_value() {
    let mut f = RustFilter::new(0, 0, 0).unwrap();
    assert_eq!(f.filter(0, 100), 100);
    assert_eq!(f.filter(ONE, 5 * ONE), 100);
    assert_eq!(f.filter(2 * ONE, -5 * ONE), 100);
}

#[test]
fn extreme_samples_are_accepted() {
    let mut f = RustFilter::new(LIMIT, LIMIT, LIMIT).unwrap();
    assert_eq!(f.filter(i64::MIN, i64::MIN), i64::MIN);
    assert_eq!(f.filter(i64::MAX, i64::MAX), 9_223_353_590_110_702_098);
    assert_eq!(f.filter(i64::MAX, 0), 9_223_353_590_110_702_098);
    let mut g = RustFilter::new(LIMIT, LIMIT, LIMIT).unwrap();
    assert_eq!(g.filter(0, i64::MAX), i64::MAX);
    assert_eq!(g.filter(1, i64::MIN), -9_223_353_590_110_702_099);
    assert_eq!(g.filter(2, i64::MAX), 9_223_353_590_129_148_842);
}

/// The filter in floating point.
struct Floating {
    min_cutoff: f64,
    beta: f64,
    d_cutoff: f64,
    last: Option<(f64, f64, f64)>,
}

impl Floating {
    fn filter(&mut self, t: f64, x: f64) -> f64 {
        let (x_prev, dx_prev, t_prev) = match self.last {
            None => {
                self.last = Some((x, 0.0, t));
                return x;
            }
            Some(last) => last,
        };
        let elapsed = t - t_prev;
        if elapsed <= 0.0 {
            return x_prev;
        }
        let r = 2.0 * std::f64::consts::PI * self.d_cutoff * elapsed;
        let rate = (r / (r + 1.0)) * ((x - x_prev) / elapsed) + (1.0 - r / (r + 1.0)) * dx_prev;
        let cutoff = self.min_cutoff + self.beta * rate.abs();
        let r = 2.0 * std::f64::consts::PI * cutoff * elapsed;
        let value = (r / (r + 1.0)) * x + (1.0 - r / (r + 1.0)) * x_prev;
        self.last = Some((value, rate, t));
        value
    }
}

#[test]
fn filter_agrees_with_floating_point() {
    let parameters: [[f64; 3]; 5] = [
        [1.0, 0.0, 1.0],
        [1.0, 0.007, 1.0],
        [0.12, 0.5, 1.0],
        [5.0, 1.0, 2.0],
        [0.5, 10.0, 0.5],
    ];
    for [min_cutoff, beta, d_cutoff] in parameters {
        let mut fixed = RustFilter::new(
            (min_cutoff * 1e6).round() as i64,
            (beta * 1e6).round() as i64,
            (d_cutoff * 1e6).round() as i64,
        )
        .unwrap();
        let mut floating = Floating { min_cutoff, beta, d_cutoff, last: None };
        let mut k: i64 = 0;
        while k < 2_000 {
            let jump = if k % 7 == 0 { 0.05 } else { 0.0 };
            let signal = (0.013 * k as f64).sin() + 0.3 * (0.37 * k as f64).sin() + jump;
            let x = (signal * 1e6).round() as i64;
            let t = k * 10_000 - (if k % 11 == 0 { 20_000 } else { 0 });
            let got = fixed.filter(t, x) as f64 / 1e6;
            let expected = floating.filter(t as f64 / 1e6, x as f64 / 1e6);
            assert!((got - expected).abs() < 1e-4, "sample {}: {} against {}", k, got, expected);
            k += 1;
        }
    }
}
