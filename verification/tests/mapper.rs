use motor_rust::fixed::{LIMIT, ONE};
use motor_rust::physics::{ConfigError, RustPhysics};

fn plain(curve: i64) -> RustPhysics {
    RustPhysics::new(300 * ONE, curve, 50_000, 0, 0, 0).unwrap()
}

fn snapping() -> RustPhysics {
    RustPhysics::new(300 * ONE, ONE, 50_000, 100_000, 50_000, 0).unwrap()
}

#[test]
fn half_deflection_on_one_axis() {
    assert_eq!(plain(ONE).calculate(150 * ONE, 0), (500_000, 0, false, false));
    assert_eq!(snapping().calculate(150 * ONE, 0), (500_000, 0, false, true));
}

#[test]
fn small_offset_is_in_the_deadzone() {
    assert_eq!(plain(ONE).calculate(10 * ONE, 10 * ONE), (0, 0, true, false));
    assert_eq!(snapping().calculate(10 * ONE, 10 * ONE), (0, 0, true, true));
}

#[test]
fn centre_is_in_the_deadzone() {
    assert_eq!(plain(ONE).calculate(0, 0), (0, 0, true, false));
}

#[test]
fn deadzone_edge_is_outside() {
    let p = RustPhysics::new(300 * ONE, ONE, 50_000, 0, 0, 0).unwrap();
    assert_eq!(p.calculate(15 * ONE, 0), (50_000, 0, false, false));
    assert_eq!(p.calculate(15 * ONE - 300, 0), (0, 0, true, false));
}

#[test]
fn no_deadzone_when_it_is_zero_or_negative() {
    let zero = RustPhysics::new(300 * ONE, ONE, 0, 0, 0, 0).unwrap();
    assert_eq!(zero.calculate(0, 0), (0, 0, false, false));
    let negative = RustPhysics::new(300 * ONE, ONE, -50_000, 0, 0, 0).unwrap();
    assert_eq!(negative.calculate(0, 3 * ONE), (0, 10_000, false, false));
}

#[test]
fn linear_response_is_the_limited_ratio() {
    let p = plain(ONE);
    assert_eq!(p.calculate(450 * ONE, -75 * ONE), (ONE, -250_000, false, false));
    assert_eq!(p.calculate(-300 * ONE, 300 * ONE), (-ONE, ONE, false, false));
    let mut dx: i64 = -400 * ONE;
    while dx <= 400 * ONE {
        let expected = if dx > 300 * ONE {
            ONE
        } else if dx < -300 * ONE {
            -ONE
        } else {
            dx / 300
        };
        let (fx, fy, in_deadzone, _) = p.calculate(dx, 200 * ONE);
        assert!(!in_deadzone);
        assert_eq!(fx, expected);
        assert_eq!(fy, 666_666);
        dx += 12_345_678;
    }
}

#[test]
fn outer_slack_extends_the_travel_but_not_the_output() {
    let p = RustPhysics::new(300 * ONE, ONE, 50_000, 0, 0, 60 * ONE).unwrap();
    assert_eq!(p.calculate(330 * ONE, -400 * ONE), (ONE, -ONE, false, false));
    assert_eq!(p.calculate(299 * ONE, 100 * ONE), (996_666, 333_333, false, false));
}

#[test]
fn offset_below_the_snap_threshold_is_zeroed() {
    assert_eq!(snapping().calculate(14 * ONE, 200 * ONE), (0, 666_666, false, true));
    assert_eq!(snapping().calculate(200 * ONE, -14 * ONE), (666_666, 0, false, true));
    let mut dy: i64 = -500 * ONE;
    while dy <= 500 * ONE {
        let (fx, _, _, snapped) = snapping().calculate(14 * ONE, dy);
        assert_eq!(fx, 0);
        assert!(snapped);
        let (fx, _, _, snapped) = snapping().calculate(-14 * ONE, dy);
        assert_eq!(fx, 0);
        assert!(snapped);
        dy += 9_876_543;
    }
}

#[test]
fn axis_small_against_the_other_is_zeroed() {
    assert_eq!(snapping().calculate(18 * ONE, 270 * ONE), (0, 900_000, false, true));
    assert_eq!(snapping().calculate(270 * ONE, -18 * ONE), (900_000, 0, false, true));
    assert_eq!(snapping().calculate(100 * ONE, 100 * ONE), (333_333, 333_333, false, false));
}

#[test]
fn curve_shapes_the_response() {
    assert_eq!(
        RustPhysics::new(300 * ONE, 2 * ONE, 0, 0, 0, 0).unwrap().calculate(150 * ONE, -75 * ONE),
        (250_000, -62_500, false, false)
    );
    assert_eq!(
        RustPhysics::new(300 * ONE, 1_500_000, 0, 0, 0, 0).unwrap().calculate(75 * ONE, -150 * ONE),
        (125_000, -353_553, false, false)
    );
    assert_eq!(
        RustPhysics::new(300 * ONE, 500_000, 0, 0, 0, 0).unwrap().calculate(147 * ONE, -75 * ONE),
        (700_000, -500_000, false, false)
    );
    assert_eq!(
        RustPhysics::new(300 * ONE, 2_300_000, 0, 0, 0, 0).unwrap().calculate(150 * ONE, 225 * ONE),
        (203_057, 515_978, false, false)
    );
}

#[test]
fn output_stays_in_range_for_any_offset() {
    let offsets: [i64; 9] =
        [i64::MIN, -LIMIT, -301 * ONE, -1, 0, 1, 301 * ONE, LIMIT, i64::MAX];
    let mappers = [
        snapping(),
        plain(ONE),
        plain(3 * ONE),
        plain(1),
        RustPhysics::new(1, ONE, 0, 0, 0, LIMIT).unwrap(),
        RustPhysics::new(LIMIT, LIMIT, LIMIT, LIMIT, LIMIT, LIMIT).unwrap(),
        RustPhysics::new(1, 1, -LIMIT, -LIMIT, -LIMIT, 0).unwrap(),
    ];
    for p in mappers {
        for dx in offsets {
            for dy in offsets {
                let (fx, fy, in_deadzone, _) = p.calculate(dx, dy);
                assert!(-ONE <= fx && fx <= ONE);
                assert!(-ONE <= fy && fy <= ONE);
                if in_deadzone {
                    assert_eq!((fx, fy), (0, 0));
                }
            }
        }
    }
    assert_eq!(snapping().calculate(i64::MAX, i64::MIN), (ONE, -ONE, false, false));
}

#[test]
fn offsets_inside_the_deadzone_radius_give_zero() {
    let p = RustPhysics::new(300 * ONE, 2 * ONE, 200_000, 100_000, 50_000, 0).unwrap();
    let step: i64 = 7 * ONE;
    let mut dx: i64 = -70 * ONE;
    while dx <= 70 * ONE {
        let mut dy: i64 = -70 * ONE;
        while dy <= 70 * ONE {
            let length = ((dx as f64).powi(2) + (dy as f64).powi(2)).sqrt();
            if length / 300e6 < 0.2 {
                let (fx, fy, in_deadzone, _) = p.calculate(dx, dy);
                assert_eq!((fx, fy, in_deadzone), (0, 0, true));
            }
            dy += step;
        }
        dx += step;
    }
}

#[test]
fn refused_tuning_values() {
    assert_eq!(RustPhysics::new(0, ONE, 0, 0, 0, 0).err(), Some(ConfigError::NonPositiveRadius));
    assert_eq!(
        RustPhysics::new(-300 * ONE, ONE, 0, 0, 0, 0).err(),
        Some(ConfigError::NonPositiveRadius)
    );
    assert_eq!(RustPhysics::new(ONE, 0, 0, 0, 0, 0).err(), Some(ConfigError::NonPositiveCurve));
    assert_eq!(RustPhysics::new(ONE, -ONE, 0, 0, 0, 0).err(), Some(ConfigError::NonPositiveCurve));
    assert_eq!(RustPhysics::new(ONE, ONE, 0, 0, 0, -1).err(), Some(ConfigError::NegativeOuter));
    assert_eq!(RustPhysics::new(LIMIT + 1, ONE, 0, 0, 0, 0).err(), Some(ConfigError::OutOfRange));
    assert_eq!(RustPhysics::new(ONE, LIMIT + 1, 0, 0, 0, 0).err(), Some(ConfigError::OutOfRange));
    assert_eq!(RustPhysics::new(ONE, ONE, LIMIT + 1, 0, 0, 0).err(), Some(ConfigError::OutOfRange));
    assert_eq!(
        RustPhysics::new(ONE, ONE, 0, -LIMIT - 1, 0, 0).err(),
        Some(ConfigError::OutOfRange)
    );
    assert_eq!(RustPhysics::new(ONE, ONE, 0, 0, i64::MIN, 0).err(), Some(ConfigError::OutOfRange));
    assert_eq!(RustPhysics::new(ONE, ONE, 0, 0, 0, i64::MAX).err(), Some(ConfigError::OutOfRange));
    assert_eq!(RustPhysics::new(0, 0, 0, 0, 0, -1).err(), Some(ConfigError::NonPositiveRadius));
    assert_eq!(RustPhysics::new(ONE, 0, 0, 0, 0, -1).err(), Some(ConfigError::NonPositiveCurve));
    assert!(RustPhysics::new(1, 1, 0, 0, 0, 0).is_ok());
    assert!(RustPhysics::new(LIMIT, LIMIT, -LIMIT, LIMIT, -LIMIT, LIMIT).is_ok());
}

#[test]
fn update_config_replaces_or_keeps() {
    let mut p = plain(ONE);
    assert_eq!(p.calculate(150 * ONE, 0), (500_000, 0, false, false));
    assert_eq!(p.update_config(600 * ONE, 2 * ONE, 0, 0, 0, 0), Ok(()));
    assert_eq!(p.calculate(150 * ONE, 0), (62_500, 0, false, false));
    assert_eq!(p.update_config(0, ONE, 0, 0, 0, 0), Err(ConfigError::NonPositiveRadius));
    assert_eq!(p.update_config(ONE, ONE, 0, 0, 0, -5), Err(ConfigError::NegativeOuter));
    assert_eq!(p.calculate(150 * ONE, 0), (62_500, 0, false, false));
}

/// The response curve alone: with the radius one and neither snapping nor
/// deadzone the first deflection is the offset raised to the curve exponent.
fn power(x: i64, curve: i64) -> i64 {
    RustPhysics::new(ONE, curve, 0, 0, 0, 0).unwrap().calculate(x, 0).0
}

#[test]
fn power_with_whole_exponents() {
    assert_eq!(power(500_000, 3 * ONE), 125_000);
    assert_eq!(power(500_000, 2 * ONE), 250_000);
    assert_eq!(power(999_999, 10 * ONE), 999_990);
    assert_eq!(power(333_333, 2 * ONE), 111_110);
    assert_eq!(power(-500_000, 3 * ONE), -125_000);
}

#[test]
fn power_with_fractional_exponents() {
    assert_eq!(power(250_000, 1_500_000), 125_000);
    assert_eq!(power(490_000, 500_000), 700_000);
    assert_eq!(power(500_000, 2_300_000), 203_057);
    assert_eq!(power(300_000, 333_333), 669_421);
    assert_eq!(power(700_000, 1_250_000), 640_283);
    assert_eq!(power(1, 500_000), 1_000);
    assert_eq!(power(-490_000, 500_000), -700_000);
}

#[test]
fn power_is_close_to_the_real_power() {
    let bases: [i64; 6] = [1, 1_000, 100_000, 333_333, 750_000, 999_999];
    let exponents: [i64; 6] = [100_000, 500_000, 1_000_000, 1_700_000, 2_500_000, 4_000_000];
    for x in bases {
        for c in exponents {
            let exact = (x as f64 / 1e6).powf(c as f64 / 1e6);
            let got = power(x, c) as f64 / 1e6;
            assert!((exact - got).abs() < 1e-4, "{} ^ {}: {} against {}", x, c, got, exact);
        }
    }
}

#[test]
fn power_with_exponent_one_is_the_identity() {
    let mut x: i64 = -ONE;
    while x <= ONE {
        assert_eq!(power(x, ONE), x);
        x += 7_919;
    }
    assert_eq!(power(ONE, ONE), ONE);
}

#[test]
fn power_of_zero_and_one() {
    assert_eq!(power(0, 1), 0);
    assert_eq!(power(0, ONE), 0);
    assert_eq!(power(0, 2_500_000), 0);
    assert_eq!(power(0, LIMIT), 0);
    assert_eq!(power(ONE, 1), ONE);
    assert_eq!(power(ONE, 7_777_777), ONE);
    assert_eq!(power(ONE, LIMIT), ONE);
    assert_eq!(power(-ONE, LIMIT), -ONE);
}

#[test]
fn power_stays_between_zero_and_one() {
    let mut x: i64 = 0;
    while x <= ONE {
        let mut c: i64 = 1;
        while c <= 5 * ONE {
            let p = power(x, c);
            assert!(0 <= p && p <= ONE);
            c += 312_500;
        }
        x += 62_500;
    }
}

/// The mapper in floating point: the offset limited to the hard travel and
/// divided by the radius, snapped, tested against the deadzone, curved. The
/// last number is the smallest margin of a decision.
fn floating(cfg: [f64; 6], dx: f64, dy: f64) -> (f64, f64, bool, bool, f64) {
    let [radius, curve, deadzone, snap_axis, snap_threshold, outer] = cfg;
    let hard = radius + outer;
    let rx = dx.abs().min(hard).copysign(dx) / radius;
    let ry = dy.abs().min(hard).copysign(dy) / radius;
    let mut margin = (rx.abs() - snap_threshold).abs().min((ry.abs() - snap_threshold).abs());
    margin = margin.min((rx.abs() - ry.abs() * snap_axis).abs());
    margin = margin.min((ry.abs() - rx.abs() * snap_axis).abs());
    let (mut sx, mut sy, mut snapped) = (rx, ry, false);
    if rx.abs() < snap_threshold {
        sx = 0.0;
        snapped = true;
    }
    if ry.abs() < snap_threshold {
        sy = 0.0;
        snapped = true;
    }
    if rx.abs() < ry.abs() * snap_axis {
        sx = 0.0;
        snapped = true;
    } else if ry.abs() < rx.abs() * snap_axis {
        sy = 0.0;
        snapped = true;
    }
    margin = margin.min((sx.hypot(sy) - deadzone).abs());
    if sx.hypot(sy) < deadzone {
        return (0.0, 0.0, true, snapped, margin);
    }
    let fx = sx.abs().min(1.0).powf(curve).copysign(sx).clamp(-1.0, 1.0);
    let fy = sy.abs().min(1.0).powf(curve).copysign(sy).clamp(-1.0, 1.0);
    (if sx == 0.0 { 0.0 } else { fx }, if sy == 0.0 { 0.0 } else { fy }, false, snapped, margin)
}

#[test]
fn mapper_agrees_with_floating_point() {
    let configs: [[f64; 6]; 4] = [
        [300.0, 1.0, 0.05, 0.1, 0.05, 0.0],
        [300.0, 1.5, 0.05, 0.1, 0.05, 30.0],
        [250.0, 2.3, 0.1, 0.2, 0.02, 0.0],
        [400.0, 0.7, 0.0, 0.0, 0.0, 100.0],
    ];
    let mut compared: u32 = 0;
    for cfg in configs {
        let p = RustPhysics::new(
            (cfg[0] * 1e6) as i64,
            (cfg[1] * 1e6).round() as i64,
            (cfg[2] * 1e6).round() as i64,
            (cfg[3] * 1e6).round() as i64,
            (cfg[4] * 1e6).round() as i64,
            (cfg[5] * 1e6) as i64,
        )
        .unwrap();
        let step = (cfg[0] * 1e6) as i64 / 50;
        let mut i: i64 = -60;
        while i <= 60 {
            let mut j: i64 = -60;
            while j <= 60 {
                let (dx, dy) = (i * step, j * step);
                let (fx, fy, in_deadzone, snapped, margin) =
                    floating(cfg, dx as f64 / 1e6, dy as f64 / 1e6);
                if margin > 1e-4 {
                    let got = p.calculate(dx, dy);
                    assert_eq!((got.2, got.3), (in_deadzone, snapped), "at {} {}", dx, dy);
                    assert!((got.0 as f64 / 1e6 - fx).abs() < 1e-4, "at {} {}", dx, dy);
                    assert!((got.1 as f64 / 1e6 - fy).abs() < 1e-4, "at {} {}", dx, dy);
                    compared += 1;
                }
                j += 1;
            }
            i += 1;
        }
    }
    assert!(compared > 50_000);
}
