//! The radial mapper: from a cursor offset to stick deflection.
//!
//! An offset from the reference centre is limited to the configured travel,
//! divided by the radius, snapped to the axes, tested against the deadzone
//! and shaped by the response curve. All quantities are fixed-point numbers
//! as `fixed` defines them.

use vstd::prelude::*;
use crate::fixed::{
    abs_spec, clamp, clamp_spec, div_spec, in_range, lemma_power_linear, lemma_power_monotone,
    lemma_power_of_one, lemma_power_of_zero, lemma_power_unit, lemma_trunc_div_bound, power_spec,
    unit_pow, LIMIT, ONE,
};

verus! {

/// The six tuning values of the mapper, as mathematical integers.
pub struct Config {
    /// The offset that gives full deflection.
    pub radius: int,
    /// The exponent of the response curve.
    pub curve: int,
    /// The magnitude below which the output is zero.
    pub deadzone: int,
    /// The share of the larger axis below which the smaller axis is zeroed.
    pub snap_axis: int,
    /// The ratio below which an axis is zeroed.
    pub snap_threshold: int,
    /// The extra travel beyond the radius before the hard limit.
    pub outer: int,
}

/// Why a set of tuning values was refused.
#[derive(Clone, Copy, Debug, PartialEq, Eq, Structural)]
pub enum ConfigError {
    /// The radius is zero or negative.
    NonPositiveRadius,
    /// The curve exponent is zero or negative.
    NonPositiveCurve,
    /// The outer slack is negative.
    NegativeOuter,
    /// A value exceeds the magnitude that the engine accepts.
    OutOfRange,
}

/// The reason for which tuning values are refused, if there is one.
pub open spec fn config_error(c: Config) -> Option<ConfigError> {
    if c.radius <= 0 {
        Some(ConfigError::NonPositiveRadius)
    } else if c.curve <= 0 {
        Some(ConfigError::NonPositiveCurve)
    } else if c.outer < 0 {
        Some(ConfigError::NegativeOuter)
    } else if !(in_range(c.radius) && in_range(c.curve) && in_range(c.deadzone) && in_range(
        c.snap_axis,
    ) && in_range(c.snap_threshold) && in_range(c.outer)) {
        Some(ConfigError::OutOfRange)
    } else {
        None
    }
}

/// Whether tuning values are accepted.
pub open spec fn valid_config(c: Config) -> bool {
    config_error(c) is None
}

/// The ratio of an offset to the radius, the offset first limited to the
/// radius plus the outer slack with its sign kept.
pub open spec fn ratio_spec(c: Config, offset: int) -> int {
    div_spec(clamp_spec(offset, -(c.radius + c.outer), c.radius + c.outer), c.radius)
}

/// Whether the ratio `r` is small against the ratio `other` of the second
/// axis: its magnitude is below the snap-axis share of the other magnitude.
pub open spec fn near_axis(c: Config, r: int, other: int) -> bool {
    abs_spec(r) * ONE < abs_spec(other) * c.snap_axis
}

/// Whether the first ratio is zeroed by snapping.
pub open spec fn snaps_x(c: Config, rx: int, ry: int) -> bool {
    abs_spec(rx) < c.snap_threshold || near_axis(c, rx, ry)
}

/// Whether the second ratio is zeroed by snapping. The test against the
/// other axis applies to one axis at most, and the first axis goes first.
pub open spec fn snaps_y(c: Config, rx: int, ry: int) -> bool {
    abs_spec(ry) < c.snap_threshold || (!near_axis(c, rx, ry) && near_axis(c, ry, rx))
}

/// Whether the snapped ratios lie inside the deadzone: their Euclidean
/// magnitude is below it.
pub open spec fn in_deadzone_spec(c: Config, sx: int, sy: int) -> bool {
    c.deadzone > 0 && sx * sx + sy * sy < c.deadzone * c.deadzone
}

/// The response curve on one axis: the magnitude, limited to one, raised to
/// the curve exponent, with the sign of the ratio.
pub open spec fn response_spec(c: Config, r: int) -> int {
    if r >= 0 {
        power_spec(clamp_spec(r, 0, ONE as int), c.curve)
    } else {
        -power_spec(clamp_spec(-r, 0, ONE as int), c.curve)
    }
}

/// The two ratios of an offset after snapping.
pub open spec fn snapped_spec(c: Config, dx: int, dy: int) -> (int, int) {
    let rx = ratio_spec(c, dx);
    let ry = ratio_spec(c, dy);
    (
        if snaps_x(c, rx, ry) {
            0
        } else {
            rx
        },
        if snaps_y(c, rx, ry) {
            0
        } else {
            ry
        },
    )
}

/// Whether snapping zeroes an axis of an offset.
pub open spec fn is_snapped_spec(c: Config, dx: int, dy: int) -> bool {
    let rx = ratio_spec(c, dx);
    let ry = ratio_spec(c, dy);
    snaps_x(c, rx, ry) || snaps_y(c, rx, ry)
}

/// What the mapper gives for an offset: the two deflections, whether the
/// offset was in the deadzone, and whether an axis was snapped.
pub open spec fn calculate_spec(c: Config, dx: int, dy: int) -> (int, int, bool, bool) {
    let (sx, sy) = snapped_spec(c, dx, dy);
    let snapped = is_snapped_spec(c, dx, dy);
    if in_deadzone_spec(c, sx, sy) {
        (0, 0, true, snapped)
    } else {
        (
            clamp_spec(response_spec(c, sx), -ONE as int, ONE as int),
            clamp_spec(response_spec(c, sy), -ONE as int, ONE as int),
            false,
            snapped,
        )
    }
}

/// The response curve gives a value between minus one and one, and zero for
/// the ratio zero.
pub proof fn lemma_response_unit(c: Config, r: int)
    requires
        valid_config(c),
    ensures
        -ONE <= response_spec(c, r) <= ONE,
        r == 0 ==> response_spec(c, r) == 0,
        r >= 0 ==> response_spec(c, r) >= 0,
        r <= 0 ==> response_spec(c, r) <= 0,
{
    lemma_power_unit(clamp_spec(r, 0, ONE as int), c.curve);
    lemma_power_unit(clamp_spec(-r, 0, ONE as int), c.curve);
    lemma_power_of_zero(c.curve);
}

/// With the curve exponent one the response is linear: outside the deadzone
/// each deflection is the snapped ratio of its axis, limited to the interval
/// from minus one to one.
pub proof fn law_linear_response(c: Config, dx: int, dy: int)
    requires
        valid_config(c),
        c.curve == ONE,
    ensures
        ({
            let (sx, sy) = snapped_spec(c, dx, dy);
            calculate_spec(c, dx, dy) == if in_deadzone_spec(c, sx, sy) {
                (0int, 0int, true, is_snapped_spec(c, dx, dy))
            } else {
                (
                    clamp_spec(sx, -ONE as int, ONE as int),
                    clamp_spec(sy, -ONE as int, ONE as int),
                    false,
                    is_snapped_spec(c, dx, dy),
                )
            }
        }),
{
    let (sx, sy) = snapped_spec(c, dx, dy);
    lemma_linear_axis(c, sx);
    lemma_linear_axis(c, sy);
}

/// With the curve exponent one the response, limited to the interval from
/// minus one to one, is the ratio limited to that interval.
proof fn lemma_linear_axis(c: Config, r: int)
    requires
        valid_config(c),
        c.curve == ONE,
    ensures
        clamp_spec(response_spec(c, r), -ONE as int, ONE as int) == clamp_spec(
            r,
            -ONE as int,
            ONE as int,
        ),
{
    lemma_power_linear(clamp_spec(r, 0, ONE as int));
    lemma_power_linear(clamp_spec(-r, 0, ONE as int));
}

/// Whatever the curve exponent, a ratio of one or more gives full
/// deflection, with the sign of the ratio.
pub proof fn law_full_deflection(c: Config, r: int)
    requires
        valid_config(c),
    ensures
        r >= ONE ==> response_spec(c, r) == ONE,
        r <= -ONE ==> response_spec(c, r) == -ONE,
{
    lemma_power_of_one(c.curve);
}

/// The response curve never reverses: a larger ratio gives no smaller
/// response.
pub proof fn law_response_monotone(c: Config, low: int, high: int)
    requires
        valid_config(c),
        low <= high,
    ensures
        response_spec(c, low) <= response_spec(c, high),
{
    let one = ONE as int;
    lemma_response_unit(c, low);
    lemma_response_unit(c, high);
    if low >= 0 {
        lemma_power_monotone(clamp_spec(low, 0, one), clamp_spec(high, 0, one), c.curve);
    } else if high < 0 {
        lemma_power_monotone(clamp_spec(-high, 0, one), clamp_spec(-low, 0, one), c.curve);
    }
}

/// An offset whose Euclidean length, divided by the radius, is below the
/// deadzone gives the output zero on both axes and is reported as in the
/// deadzone.
pub proof fn law_deadzone(c: Config, dx: int, dy: int)
    requires
        valid_config(c),
        c.deadzone > 0,
        (dx * dx + dy * dy) * (ONE * ONE) < (c.deadzone * c.deadzone) * (c.radius * c.radius),
    ensures
        calculate_spec(c, dx, dy).0 == 0,
        calculate_spec(c, dx, dy).1 == 0,
        calculate_spec(c, dx, dy).2,
{
    let (sx, sy) = snapped_spec(c, dx, dy);
    lemma_snapped_square(c, dx, dy);
    let one = ONE as int;
    let r = c.radius;
    let d = c.deadzone;
    assert(sx * sx + sy * sy < d * d) by (nonlinear_arith)
        requires
            (sx * sx) * (r * r) <= (dx * dx) * (one * one),
            (sy * sy) * (r * r) <= (dy * dy) * (one * one),
            (dx * dx + dy * dy) * (one * one) < (d * d) * (r * r),
            r > 0,
    ;
}

/// A snapped ratio, multiplied by the radius, is no longer than its offset.
proof fn lemma_snapped_square(c: Config, dx: int, dy: int)
    requires
        valid_config(c),
    ensures
        (snapped_spec(c, dx, dy).0 * snapped_spec(c, dx, dy).0) * (c.radius * c.radius) <= (dx
            * dx) * (ONE * ONE),
        (snapped_spec(c, dx, dy).1 * snapped_spec(c, dx, dy).1) * (c.radius * c.radius) <= (dy
            * dy) * (ONE * ONE),
{
    lemma_ratio_square(c, dx);
    lemma_ratio_square(c, dy);
    let one = ONE as int;
    assert(0 * 0 * (c.radius * c.radius) <= (dx * dx) * (one * one)) by (nonlinear_arith);
    assert(0 * 0 * (c.radius * c.radius) <= (dy * dy) * (one * one)) by (nonlinear_arith);
}

/// The ratio of an offset, multiplied by the radius, is no longer than the
/// offset.
proof fn lemma_ratio_length(c: Config, offset: int)
    requires
        valid_config(c),
    ensures
        abs_spec(ratio_spec(c, offset)) * c.radius <= abs_spec(offset) * ONE,
{
    let hard = c.radius + c.outer;
    let limited = clamp_spec(offset, -hard, hard);
    lemma_trunc_div_bound(limited * ONE, c.radius);
    assert(abs_spec(limited * ONE) == abs_spec(limited) * ONE);
}

/// The square of the ratio of an offset, multiplied by the square of the
/// radius, is no more than the square of the offset.
proof fn lemma_ratio_square(c: Config, offset: int)
    requires
        valid_config(c),
    ensures
        (ratio_spec(c, offset) * ratio_spec(c, offset)) * (c.radius * c.radius) <= (offset
            * offset) * (ONE * ONE),
{
    lemma_ratio_length(c, offset);
    let a = abs_spec(ratio_spec(c, offset));
    let b = abs_spec(offset);
    let r = c.radius;
    let one = ONE as int;
    assert((a * a) * (r * r) <= (b * b) * (one * one)) by (nonlinear_arith)
        requires
            0 <= a * r <= b * one,
            a >= 0,
            b >= 0,
            r > 0,
    ;
    assert(a * a == ratio_spec(c, offset) * ratio_spec(c, offset)) by (nonlinear_arith)
        requires
            a == abs_spec(ratio_spec(c, offset)),
    ;
    assert(b * b == offset * offset) by (nonlinear_arith)
        requires
            b == abs_spec(offset),
    ;
}

/// Both deflections lie between minus one and one, whatever the offset.
pub proof fn law_output_range(c: Config, dx: int, dy: int)
    requires
        valid_config(c),
    ensures
        -ONE <= calculate_spec(c, dx, dy).0 <= ONE,
        -ONE <= calculate_spec(c, dx, dy).1 <= ONE,
{
}

/// An offset that is, on one axis, within the snap threshold times the
/// radius of zero gives the deflection zero on that axis and is reported as
/// snapped, whatever the offset on the other axis.
pub proof fn law_axis_snap(c: Config, dx: int, dy: int)
    requires
        valid_config(c),
    ensures
        abs_spec(dx) * ONE < c.snap_threshold * c.radius ==> calculate_spec(c, dx, dy).0 == 0
            && calculate_spec(c, dx, dy).3,
        abs_spec(dy) * ONE < c.snap_threshold * c.radius ==> calculate_spec(c, dx, dy).1 == 0
            && calculate_spec(c, dx, dy).3,
{
    lemma_ratio_length(c, dx);
    lemma_ratio_length(c, dy);
    lemma_response_unit(c, 0);
    let rx = abs_spec(ratio_spec(c, dx));
    let ry = abs_spec(ratio_spec(c, dy));
    let t = c.snap_threshold;
    let r = c.radius;
    if abs_spec(dx) * ONE < t * r {
        assert(rx < t) by (nonlinear_arith)
            requires
                rx * r < t * r,
                r > 0,
        ;
    }
    if abs_spec(dy) * ONE < t * r {
        assert(ry < t) by (nonlinear_arith)
            requires
                ry * r < t * r,
                r > 0,
        ;
    }
}

/// The radial mapper with its tuning values.
#[derive(Clone, Copy, Debug)]
pub struct RustPhysics {
    radius: i64,
    curve: i64,
    deadzone: i64,
    snap_axis: i64,
    snap_threshold: i64,
    outer: i64,
}

impl View for RustPhysics {
    type V = Config;

    closed spec fn view(&self) -> Config {
        Config {
            radius: self.radius as int,
            curve: self.curve as int,
            deadzone: self.deadzone as int,
            snap_axis: self.snap_axis as int,
            snap_threshold: self.snap_threshold as int,
            outer: self.outer as int,
        }
    }
}

/// The tuning values as the six arguments give them.
pub open spec fn config_of(
    radius: i64,
    curve: i64,
    deadzone: i64,
    snap_axis: i64,
    snap_threshold: i64,
    outer: i64,
) -> Config {
    Config {
        radius: radius as int,
        curve: curve as int,
        deadzone: deadzone as int,
        snap_axis: snap_axis as int,
        snap_threshold: snap_threshold as int,
        outer: outer as int,
    }
}

fn check_config(
    radius: i64,
    curve: i64,
    deadzone: i64,
    snap_axis: i64,
    snap_threshold: i64,
    outer: i64,
) -> (r: Option<ConfigError>)
    ensures
        r == config_error(config_of(radius, curve, deadzone, snap_axis, snap_threshold, outer)),
{
    if radius <= 0 {
        Some(ConfigError::NonPositiveRadius)
    } else if curve <= 0 {
        Some(ConfigError::NonPositiveCurve)
    } else if outer < 0 {
        Some(ConfigError::NegativeOuter)
    } else if radius > LIMIT || curve > LIMIT || outer > LIMIT || deadzone < -LIMIT || deadzone
        > LIMIT || snap_axis < -LIMIT || snap_axis > LIMIT || snap_threshold < -LIMIT
        || snap_threshold > LIMIT {
        Some(ConfigError::OutOfRange)
    } else {
        None
    }
}

impl RustPhysics {
    #[verifier::type_invariant]
    spec fn well_formed(self) -> bool {
        valid_config(self@)
    }

    /// Makes a mapper, or says why the tuning values are refused.
    pub fn new(
        radius: i64,
        curve: i64,
        deadzone: i64,
        snap_axis: i64,
        snap_threshold: i64,
        outer: i64,
    ) -> (r: Result<RustPhysics, ConfigError>)
        ensures
            match r {
                Ok(p) => valid_config(p@) && p@ == config_of(
                    radius,
                    curve,
                    deadzone,
                    snap_axis,
                    snap_threshold,
                    outer,
                ),
                Err(e) => config_error(
                    config_of(radius, curve, deadzone, snap_axis, snap_threshold, outer),
                ) == Some(e),
            },
    {
        match check_config(radius, curve, deadzone, snap_axis, snap_threshold, outer) {
            Some(e) => Err(e),
            None => Ok(RustPhysics { radius, curve, deadzone, snap_axis, snap_threshold, outer }),
        }
    }

    /// Replaces the tuning values. Values that are refused leave the mapper
    /// as it was.
    pub fn update_config(
        &mut self,
        radius: i64,
        curve: i64,
        deadzone: i64,
        snap_axis: i64,
        snap_threshold: i64,
        outer: i64,
    ) -> (r: Result<(), ConfigError>)
        ensures
            valid_config(final(self)@),
            match r {
                Ok(_) => final(self)@ == config_of(
                    radius,
                    curve,
                    deadzone,
                    snap_axis,
                    snap_threshold,
                    outer,
                ),
                Err(e) => final(self)@ == old(self)@ && config_error(
                    config_of(radius, curve, deadzone, snap_axis, snap_threshold, outer),
                ) == Some(e),
            },
    {
        proof {
            use_type_invariant(&*self);
        }
        match RustPhysics::new(radius, curve, deadzone, snap_axis, snap_threshold, outer) {
            Ok(p) => {
                *self = p;
                Ok(())
            },
            Err(e) => Err(e),
        }
    }

    /// Divides an offset, limited to the hard travel, by the radius.
    fn ratio(&self, offset: i64) -> (r: i64)
        ensures
            r == ratio_spec(self@, offset as int),
            -2 * LIMIT * ONE <= r <= 2 * LIMIT * ONE,
    {
        proof {
            use_type_invariant(self);
        }
        let hard: i64 = self.radius + self.outer;
        let limited: i64 = clamp(offset, -hard, hard);
        proof {
            lemma_trunc_div_bound(limited * ONE, self.radius as int);
        }
        limited * ONE / self.radius
    }

    /// Applies the response curve to one snapped ratio.
    fn respond(&self, r: i64) -> (f: i64)
        ensures
            f == clamp_spec(response_spec(self@, r as int), -ONE as int, ONE as int),
            -ONE <= f <= ONE,
    {
        proof {
            use_type_invariant(self);
        }
        if r >= 0 {
            let shaped: i64 = unit_pow(clamp(r, 0, ONE), self.curve);
            clamp(shaped, -ONE, ONE)
        } else if r < -ONE {
            let shaped: i64 = unit_pow(ONE, self.curve);
            clamp(-shaped, -ONE, ONE)
        } else {
            let shaped: i64 = unit_pow(-r, self.curve);
            clamp(-shaped, -ONE, ONE)
        }
    }

    /// Maps the offset `(dx, dy)` from the reference centre to the two stick
    /// deflections, each between minus one and one, and tells whether the
    /// offset was in the deadzone and whether an axis was snapped.
    pub fn calculate(&self, dx: i64, dy: i64) -> (r: (i64, i64, bool, bool))
        ensures
            (r.0 as int, r.1 as int, r.2, r.3) == calculate_spec(self@, dx as int, dy as int),
            -ONE <= r.0 <= ONE,
            -ONE <= r.1 <= ONE,
    {
        proof {
            use_type_invariant(self);
        }
        let rx: i64 = self.ratio(dx);
        let ry: i64 = self.ratio(dy);
        let ax: i128 = if rx < 0 {
            -(rx as i128)
        } else {
            rx as i128
        };
        let ay: i128 = if ry < 0 {
            -(ry as i128)
        } else {
            ry as i128
        };
        let share: i128 = self.snap_axis as i128;
        let one: i128 = ONE as i128;
        assert(-2 * LIMIT * ONE * LIMIT <= ay * share <= 2 * LIMIT * ONE * LIMIT
            && -2 * LIMIT * ONE * LIMIT <= ax * share <= 2 * LIMIT * ONE * LIMIT)
            by (nonlinear_arith)
            requires
                0 <= ax <= 2 * LIMIT * ONE,
                0 <= ay <= 2 * LIMIT * ONE,
                -LIMIT <= share <= LIMIT,
        ;
        let x_near: bool = ax * one < ay * share;
        let y_near: bool = ay * one < ax * share;
        let x_snaps: bool = ax < self.snap_threshold as i128 || x_near;
        let y_snaps: bool = ay < self.snap_threshold as i128 || (!x_near && y_near);
        let sx: i64 = if x_snaps {
            0
        } else {
            rx
        };
        let sy: i64 = if y_snaps {
            0
        } else {
            ry
        };
        let snapped: bool = x_snaps || y_snaps;
        let wx: i128 = sx as i128;
        let wy: i128 = sy as i128;
        let dz: i128 = self.deadzone as i128;
        assert(0 <= wx * wx <= 4 * LIMIT * ONE * LIMIT * ONE && 0 <= wy * wy <= 4 * LIMIT * ONE
            * LIMIT * ONE && 0 <= dz * dz <= LIMIT * LIMIT) by (nonlinear_arith)
            requires
                -2 * LIMIT * ONE <= wx <= 2 * LIMIT * ONE,
                -2 * LIMIT * ONE <= wy <= 2 * LIMIT * ONE,
                -LIMIT <= dz <= LIMIT,
        ;
        let inside: bool = self.deadzone > 0 && wx * wx + wy * wy < dz * dz;
        if inside {
            (0, 0, true, snapped)
        } else {
            (self.respond(sx), self.respond(sy), false, snapped)
        }
    }
}

} // verus!
