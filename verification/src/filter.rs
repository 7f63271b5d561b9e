//! The jitter filter: an adaptive low-pass filter for a noisy signal.
//!
//! The cutoff frequency rises with the estimated speed of the signal, so a
//! resting signal is smoothed strongly and a moving one follows with little
//! lag. Values, rates, frequencies and timestamps are fixed-point numbers as
//! `fixed` defines them.

use vstd::prelude::*;
use crate::fixed::{
    abs_spec, ceil_div, div_spec, lemma_ceil_div_bound, lemma_ceil_div_monotone,
    lemma_trunc_div_bound, lemma_trunc_div_monotone, mul_spec, LIMIT, ONE, TWO_PI,
};

verus! {

/// The largest magnitude of a rate of change: the widest step between two
/// values over the shortest time between two samples.
pub const RATE_LIMIT: i128 = 18_446_744_073_709_551_616_000_000;

/// The largest cutoff frequency that the filter reaches.
pub const CUTOFF_LIMIT: i128 = 18_446_744_073_709_551_617_000_000_000_000;

/// What the filter keeps of the last sample that it accepted.
pub struct Sample {
    /// The filtered value.
    pub value: int,
    /// The filtered rate of change.
    pub rate: int,
    /// The timestamp.
    pub time: int,
}

/// The filter as mathematical integers: its three parameters and the last
/// sample, absent until the first call.
pub struct FilterModel {
    /// The cutoff frequency of a resting signal.
    pub min_cutoff: int,
    /// How much the cutoff frequency rises with the speed of the signal.
    pub beta: int,
    /// The cutoff frequency for the rate of change.
    pub d_cutoff: int,
    /// The last accepted sample.
    pub last: Option<Sample>,
}

/// Why filter parameters were refused.
#[derive(Clone, Copy, Debug, PartialEq, Eq, Structural)]
pub enum FilterError {
    /// A parameter is negative.
    Negative,
    /// A parameter exceeds the magnitude that the engine accepts.
    OutOfRange,
}

/// The reason for which one parameter is refused, if there is one.
pub open spec fn parameter_error(v: int) -> Option<FilterError> {
    if v < 0 {
        Some(FilterError::Negative)
    } else if v > LIMIT {
        Some(FilterError::OutOfRange)
    } else {
        None
    }
}

/// The reason for which the three parameters are refused, if there is one:
/// that of the first parameter that has one.
pub open spec fn parameters_error(min_cutoff: int, beta: int, d_cutoff: int) -> Option<
    FilterError,
> {
    if parameter_error(min_cutoff) is Some {
        parameter_error(min_cutoff)
    } else if parameter_error(beta) is Some {
        parameter_error(beta)
    } else {
        parameter_error(d_cutoff)
    }
}

/// Whether a filter's parameters and state are those of a filter that
/// `RustFilter::new` made and `filter` drove.
pub open spec fn valid_filter(m: FilterModel) -> bool {
    &&& parameters_error(m.min_cutoff, m.beta, m.d_cutoff) is None
    &&& match m.last {
        None => true,
        Some(s) => i64::MIN <= s.value <= i64::MAX && i64::MIN <= s.time <= i64::MAX
            && -RATE_LIMIT <= s.rate <= RATE_LIMIT,
    }
}

/// Two pi times a cutoff frequency times the time since the last sample.
pub open spec fn turn_spec(cutoff: int, elapsed: int) -> int {
    mul_spec(mul_spec(TWO_PI as int, cutoff), elapsed)
}

/// The smoothing factor for a cutoff frequency and the time since the last
/// sample: with `r` for two pi times the frequency times the time, it is
/// `r / (r + 1)`.
pub open spec fn alpha_spec(cutoff: int, elapsed: int) -> int {
    div_spec(turn_spec(cutoff, elapsed), turn_spec(cutoff, elapsed) + ONE)
}

/// The step from `from` toward `to` by the factor `a`. The length of the
/// step is rounded up, so that a positive factor always moves.
pub open spec fn blend_spec(a: int, from: int, to: int) -> int {
    if to >= from {
        from + ceil_div(a * (to - from), ONE as int)
    } else {
        from - ceil_div(a * (from - to), ONE as int)
    }
}

/// The rate of change that the filter estimates for the sample `(t, x)`
/// after the sample `s`: the step from the last estimate toward the rate
/// between the two samples, by the smoothing factor of the rate's cutoff
/// frequency.
pub open spec fn rate_spec(m: FilterModel, s: Sample, t: int, x: int) -> int {
    let elapsed = t - s.time;
    blend_spec(alpha_spec(m.d_cutoff, elapsed), s.rate, div_spec(x - s.value, elapsed))
}

/// The cutoff frequency that the filter applies to the sample `(t, x)` after
/// the sample `s`: the resting frequency, raised by `beta` times the speed.
pub open spec fn cutoff_spec(m: FilterModel, s: Sample, t: int, x: int) -> int {
    m.min_cutoff + mul_spec(m.beta, abs_spec(rate_spec(m, s, t, x)))
}

/// The smoothing factor that the filter applies to the sample `(t, x)` after
/// the sample `s`.
pub open spec fn factor_spec(m: FilterModel, s: Sample, t: int, x: int) -> int {
    alpha_spec(cutoff_spec(m, s, t, x), t - s.time)
}

/// The filter after the sample `(t, x)`, and the value that it returns.
///
/// The first sample is stored and returned as it is. A sample that is not
/// later than the last one changes nothing and gives the last value again.
/// Any other sample gives the step from the last value toward the sample by
/// the smoothing factor.
pub open spec fn filter_spec(m: FilterModel, t: int, x: int) -> (FilterModel, int) {
    match m.last {
        None => (FilterModel { last: Some(Sample { value: x, rate: 0, time: t }), ..m }, x),
        Some(s) => if t <= s.time {
            (m, s.value)
        } else {
            let value = blend_spec(factor_spec(m, s, t, x), s.value, x);
            (
                FilterModel {
                    last: Some(Sample { value, rate: rate_spec(m, s, t, x), time: t }),
                    ..m
                },
                value,
            )
        },
    }
}

/// The filter after samples of the one value `x` at the given times, in
/// their order.
pub open spec fn hold_spec(m: FilterModel, times: Seq<int>, x: int) -> FilterModel
    decreases times.len(),
{
    if times.len() == 0 {
        m
    } else {
        filter_spec(hold_spec(m, times.drop_last(), x), times.last(), x).0
    }
}

/// Whether the times rise strictly, the first of them above `start`.
pub open spec fn rising_from(start: int, times: Seq<int>) -> bool {
    &&& forall|i: int| 0 <= i < times.len() ==> start < #[trigger] times[i]
    &&& forall|i: int, j: int| 0 <= i < j < times.len() ==> times[i] < times[j]
}

/// Whether the resting cutoff frequency is high enough, for the time since
/// the last sample, to give a positive smoothing factor.
pub open spec fn responsive(m: FilterModel, elapsed: int) -> bool {
    turn_spec(m.min_cutoff, elapsed) >= 2
}

/// Whether the filter is responsive at each of the times, the time before
/// the first being `start`.
pub open spec fn responsive_at(m: FilterModel, start: int, times: Seq<int>) -> bool {
    forall|i: int|
        0 <= i < times.len() ==> responsive(
            m,
            #[trigger] times[i] - if i == 0 {
                start
            } else {
                times[i - 1]
            },
        )
}

/// The distance of a filter's last output from `x`.
pub open spec fn distance_spec(m: FilterModel, x: int) -> int {
    match m.last {
        None => 0,
        Some(s) => abs_spec(s.value - x),
    }
}

/// What is left of a distance after a number of steps of a millionth at
/// least.
pub open spec fn remaining_spec(distance: int, steps: nat) -> int {
    if steps >= distance {
        0
    } else {
        distance - steps
    }
}

/// Two pi times the frequency times the time is not negative, and does not
/// fall when the frequency rises.
pub proof fn lemma_turn_monotone(low: int, high: int, elapsed: int)
    requires
        0 <= low <= high,
        elapsed > 0,
    ensures
        0 <= turn_spec(low, elapsed) <= turn_spec(high, elapsed),
{
    let one = ONE as int;
    lemma_trunc_div_monotone(TWO_PI * low, TWO_PI * high, one);
    lemma_trunc_div_bound(TWO_PI * low, one);
    let w1 = mul_spec(TWO_PI as int, low);
    let w2 = mul_spec(TWO_PI as int, high);
    assert(0 <= w1 * elapsed <= w2 * elapsed) by (nonlinear_arith)
        requires
            0 <= w1 <= w2,
            elapsed > 0,
    ;
    lemma_trunc_div_monotone(w1 * elapsed, w2 * elapsed, one);
    lemma_trunc_div_bound(w1 * elapsed, one);
}

/// The smoothing factor for a non-negative cutoff frequency and a positive
/// time is at least zero and below one, and positive from two millionths of
/// a turn on.
pub proof fn lemma_alpha_unit(cutoff: int, elapsed: int)
    requires
        cutoff >= 0,
        elapsed > 0,
    ensures
        0 <= alpha_spec(cutoff, elapsed) < ONE,
        turn_spec(cutoff, elapsed) >= 2 ==> alpha_spec(cutoff, elapsed) >= 1,
{
    let one = ONE as int;
    lemma_turn_monotone(cutoff, cutoff, elapsed);
    let r = turn_spec(cutoff, elapsed);
    lemma_trunc_div_bound(r * one, r + one);
    let a = alpha_spec(cutoff, elapsed);
    assert(a < one) by (nonlinear_arith)
        requires
            a >= 0,
            a * (r + one) <= r * one,
            r >= 0,
            one > 0,
    ;
    if r >= 2 {
        assert(a >= 1) by (nonlinear_arith)
            requires
                a >= 0,
                r * one < (a + 1) * (r + one),
                r >= 2,
                one == 1_000_000,
        ;
    }
}

/// From almost a million turns on, the smoothing factor is the largest
/// number below one.
pub proof fn lemma_alpha_saturates(r: int)
    requires
        r >= ONE * ONE - ONE,
    ensures
        div_spec(r, r + ONE) == ONE - 1,
{
    let one = ONE as int;
    lemma_trunc_div_bound(r * one, r + one);
    let a = div_spec(r, r + one);
    assert(a == one - 1) by (nonlinear_arith)
        requires
            a >= 0,
            a * (r + one) <= r * one,
            r * one < (a + 1) * (r + one),
            r >= one * one - one,
            one == 1_000_000,
    ;
}

/// The smoothing factor does not fall when the cutoff frequency rises.
pub proof fn lemma_alpha_monotone(low: int, high: int, elapsed: int)
    requires
        0 <= low <= high,
        elapsed > 0,
    ensures
        alpha_spec(low, elapsed) <= alpha_spec(high, elapsed),
{
    let one = ONE as int;
    lemma_turn_monotone(low, high, elapsed);
    let r1 = turn_spec(low, elapsed);
    let r2 = turn_spec(high, elapsed);
    lemma_trunc_div_bound(r1 * one, r1 + one);
    lemma_trunc_div_bound(r2 * one, r2 + one);
    lemma_alpha_unit(low, elapsed);
    lemma_alpha_unit(high, elapsed);
    let a1 = alpha_spec(low, elapsed);
    let a2 = alpha_spec(high, elapsed);
    if a1 > a2 {
        let k = a2 + 1;
        assert(k * (r1 + one) <= a1 * (r1 + one)) by (nonlinear_arith)
            requires
                k <= a1,
                r1 + one > 0,
        ;
        assert(r1 * (one - k) >= k * one) by (nonlinear_arith)
            requires
                k * (r1 + one) <= r1 * one,
        ;
        assert(r2 * (one - k) < k * one) by (nonlinear_arith)
            requires
                r2 * one < k * (r2 + one),
        ;
        assert(r1 * (one - k) <= r2 * (one - k)) by (nonlinear_arith)
            requires
                0 <= r1 <= r2,
                one - k >= 0,
        ;
    }
}

/// A step by a factor between zero and one ends between its two ends, and
/// a step by a positive factor leaves its start unless it is at the end
/// already.
pub proof fn lemma_blend_between(a: int, from: int, to: int)
    requires
        0 <= a <= ONE,
    ensures
        from <= to ==> from <= blend_spec(a, from, to) <= to,
        to <= from ==> to <= blend_spec(a, from, to) <= from,
        a > 0 && from != to ==> blend_spec(a, from, to) != from,
        abs_spec(blend_spec(a, from, to) - to) == abs_spec(from - to) - ceil_div(
            a * abs_spec(from - to),
            ONE as int,
        ),
{
    let one = ONE as int;
    let m = abs_spec(to - from);
    assert(0 <= a * m <= one * m && (a > 0 && m > 0 ==> a * m > 0)) by (nonlinear_arith)
        requires
            0 <= a <= one,
            m >= 0,
    ;
    lemma_ceil_div_bound(a * m, one);
    lemma_ceil_div_monotone(a * m, one * m, one);
    assert(ceil_div(one * m, one) == m) by (nonlinear_arith)
        requires
            one == 1_000_000,
            m >= 0,
    ;
}

/// A larger factor steps at least as close to the end.
pub proof fn lemma_blend_monotone(low: int, high: int, from: int, to: int)
    requires
        0 <= low <= high <= ONE,
    ensures
        abs_spec(blend_spec(high, from, to) - to) <= abs_spec(blend_spec(low, from, to) - to),
{
    let m = abs_spec(from - to);
    lemma_blend_between(low, from, to);
    lemma_blend_between(high, from, to);
    assert(0 <= low * m <= high * m) by (nonlinear_arith)
        requires
            0 <= low <= high,
            m >= 0,
    ;
    lemma_ceil_div_monotone(low * m, high * m, ONE as int);
}

/// The cutoff frequency that the filter applies is at least the resting
/// one, and the smoothing factor is at least zero and below one; it is
/// positive where the filter is responsive.
pub proof fn lemma_factor_unit(m: FilterModel, s: Sample, t: int, x: int)
    requires
        valid_filter(m),
        t > s.time,
    ensures
        cutoff_spec(m, s, t, x) >= m.min_cutoff,
        0 <= factor_spec(m, s, t, x) < ONE,
        responsive(m, t - s.time) ==> factor_spec(m, s, t, x) >= 1,
{
    let speed = abs_spec(rate_spec(m, s, t, x));
    assert(m.beta * speed >= 0) by (nonlinear_arith)
        requires
            m.beta >= 0,
            speed >= 0,
    ;
    lemma_trunc_div_bound(m.beta * speed, ONE as int);
    lemma_alpha_unit(cutoff_spec(m, s, t, x), t - s.time);
    lemma_alpha_unit(m.min_cutoff, t - s.time);
    lemma_alpha_monotone(m.min_cutoff, cutoff_spec(m, s, t, x), t - s.time);
}

/// A sample leaves a valid filter valid and its parameters as they are.
pub proof fn lemma_filter_keeps_valid(m: FilterModel, t: int, x: int)
    requires
        valid_filter(m),
        i64::MIN <= t <= i64::MAX,
        i64::MIN <= x <= i64::MAX,
    ensures
        valid_filter(filter_spec(m, t, x).0),
        filter_spec(m, t, x).0.last is Some,
        filter_spec(m, t, x).0 == (FilterModel { last: filter_spec(m, t, x).0.last, ..m }),
        i64::MIN <= filter_spec(m, t, x).1 <= i64::MAX,
{
    match m.last {
        None => {},
        Some(s) => {
            if t > s.time {
                let elapsed = t - s.time;
                lemma_alpha_unit(m.d_cutoff, elapsed);
                lemma_trunc_div_bound((x - s.value) * ONE, elapsed);
                lemma_blend_between(
                    alpha_spec(m.d_cutoff, elapsed),
                    s.rate,
                    div_spec(x - s.value, elapsed),
                );
                lemma_factor_unit(m, s, t, x);
                lemma_blend_between(factor_spec(m, s, t, x), s.value, x);
            }
        },
    }
}

/// The first sample is returned as it is, and stored with the rate zero.
pub proof fn law_filter_first_sample(m: FilterModel, t: int, x: int)
    requires
        m.last is None,
    ensures
        filter_spec(m, t, x).1 == x,
        filter_spec(m, t, x).0.last == Some(Sample { value: x, rate: 0, time: t }),
{
}

/// A sample whose timestamp is not later than that of the last accepted
/// sample is ignored: the filter returns its last output again, and neither
/// its value, nor its rate of change, nor its timestamp changes.
pub proof fn law_filter_stale_time(m: FilterModel, s: Sample, t: int, x: int)
    requires
        m.last == Some(s),
        t <= s.time,
    ensures
        filter_spec(m, t, x) == (m, s.value),
{
}

/// The output does not move away from the input. A filter that has accepted
/// a sample answers a later sample with a value between its last output and
/// the new input, so the distance to the input never grows; where the
/// filter is responsive the distance shrinks, until the output has reached
/// the input, where it stays.
pub proof fn law_filter_approaches(m: FilterModel, s: Sample, t: int, x: int)
    requires
        valid_filter(m),
        m.last == Some(s),
        t > s.time,
    ensures
        abs_spec(filter_spec(m, t, x).1 - x) <= abs_spec(s.value - x),
        s.value <= x ==> s.value <= filter_spec(m, t, x).1 <= x,
        x <= s.value ==> x <= filter_spec(m, t, x).1 <= s.value,
        responsive(m, t - s.time) && s.value != x ==> abs_spec(filter_spec(m, t, x).1 - x)
            < abs_spec(s.value - x),
        s.value == x ==> filter_spec(m, t, x).1 == x,
{
    lemma_factor_unit(m, s, t, x);
    lemma_blend_between(factor_spec(m, s, t, x), s.value, x);
}

/// Repeated samples of one value at strictly rising times make the output
/// converge to that value. After every sample the distance is at most what
/// it was before that sample. Where the filter is responsive at each of the
/// times, every sample brings the output closer by a millionth at least,
/// until it has reached the value: after as many samples as the distance at
/// the start had millionths, the output is the value itself.
pub proof fn law_constant_input(m: FilterModel, s: Sample, times: Seq<int>, x: int)
    requires
        valid_filter(m),
        m.last == Some(s),
        rising_from(s.time, times),
        forall|i: int| 0 <= i < times.len() ==> i64::MIN <= #[trigger] times[i] <= i64::MAX,
        i64::MIN <= x <= i64::MAX,
    ensures
        valid_filter(hold_spec(m, times, x)),
        hold_spec(m, times, x).last is Some,
        hold_spec(m, times, x).last->0.time == if times.len() == 0 {
            s.time
        } else {
            times.last()
        },
        hold_spec(m, times, x) == (FilterModel { last: hold_spec(m, times, x).last, ..m }),
        times.len() > 0 ==> distance_spec(hold_spec(m, times, x), x) <= distance_spec(
            hold_spec(m, times.drop_last(), x),
            x,
        ),
        distance_spec(hold_spec(m, times, x), x) <= distance_spec(m, x),
        responsive_at(m, s.time, times) ==> distance_spec(hold_spec(m, times, x), x)
            <= remaining_spec(distance_spec(m, x), times.len()),
    decreases times.len(),
{
    if times.len() > 0 {
        let before = times.drop_last();
        law_constant_input(m, s, before, x);
        let held = hold_spec(m, before, x);
        let last = held.last->0;
        lemma_filter_keeps_valid(held, times.last(), x);
        if before.len() > 0 {
            assert(before.last() == times[times.len() - 2]);
        }
        law_filter_approaches(held, last, times.last(), x);
        if responsive_at(m, s.time, times) {
            assert(responsive_at(m, s.time, before)) by {
                assert forall|i: int| 0 <= i < before.len() implies responsive(
                    m,
                    #[trigger] before[i] - if i == 0 {
                        s.time
                    } else {
                        before[i - 1]
                    },
                ) by {
                    assert(before[i] == times[i]);
                }
            }
            let n = times.len() - 1;
            assert(responsive(
                m,
                times[n] - if n == 0 {
                    s.time
                } else {
                    times[n - 1]
                },
            ));
            assert(responsive(held, times.last() - last.time));
        }
    }
}

/// A larger `beta` gives no more lag: of two filters that differ in `beta`
/// alone, the one with the larger `beta` answers a sample with a value at
/// least as close to it.
pub proof fn law_beta_reduces_lag(slow: FilterModel, fast: FilterModel, s: Sample, t: int, x: int)
    requires
        valid_filter(slow),
        valid_filter(fast),
        slow.last == Some(s),
        fast == (FilterModel { beta: fast.beta, ..slow }),
        slow.beta <= fast.beta,
        t > s.time,
    ensures
        abs_spec(filter_spec(fast, t, x).1 - x) <= abs_spec(filter_spec(slow, t, x).1 - x),
{
    let one = ONE as int;
    let speed = abs_spec(rate_spec(slow, s, t, x));
    assert(rate_spec(fast, s, t, x) == rate_spec(slow, s, t, x));
    assert(0 <= slow.beta * speed <= fast.beta * speed) by (nonlinear_arith)
        requires
            0 <= slow.beta <= fast.beta,
            speed >= 0,
    ;
    lemma_trunc_div_monotone(slow.beta * speed, fast.beta * speed, one);
    lemma_trunc_div_bound(slow.beta * speed, one);
    lemma_alpha_monotone(cutoff_spec(slow, s, t, x), cutoff_spec(fast, s, t, x), t - s.time);
    lemma_factor_unit(slow, s, t, x);
    lemma_factor_unit(fast, s, t, x);
    lemma_blend_monotone(factor_spec(slow, s, t, x), factor_spec(fast, s, t, x), s.value, x);
}

/// The filter for one signal: its parameters and what it keeps of the last
/// sample.
#[derive(Debug)]
pub struct RustFilter {
    min_cutoff: i64,
    beta: i64,
    d_cutoff: i64,
    last: Option<Stored>,
}

/// The last accepted sample as the filter stores it.
#[derive(Clone, Copy, Debug)]
struct Stored {
    value: i64,
    rate: i128,
    time: i64,
}

impl View for RustFilter {
    type V = FilterModel;

    closed spec fn view(&self) -> FilterModel {
        FilterModel {
            min_cutoff: self.min_cutoff as int,
            beta: self.beta as int,
            d_cutoff: self.d_cutoff as int,
            last: match self.last {
                None => None,
                Some(s) => Some(
                    Sample { value: s.value as int, rate: s.rate as int, time: s.time as int },
                ),
            },
        }
    }
}

fn check_parameter(v: i64) -> (r: Option<FilterError>)
    ensures
        r == parameter_error(v as int),
{
    if v < 0 {
        Some(FilterError::Negative)
    } else if v > LIMIT {
        Some(FilterError::OutOfRange)
    } else {
        None
    }
}

/// Computes the smoothing factor for a cutoff frequency and the time since
/// the last sample.
fn alpha(cutoff: i128, elapsed: i128) -> (a: i64)
    requires
        0 <= cutoff <= CUTOFF_LIMIT,
        0 < elapsed <= u64::MAX,
    ensures
        a == alpha_spec(cutoff as int, elapsed as int),
        0 <= a < ONE,
{
    let one: i128 = ONE as i128;
    proof {
        lemma_alpha_unit(cutoff as int, elapsed as int);
        lemma_trunc_div_bound(TWO_PI * cutoff, one as int);
    }
    let w: i128 = TWO_PI as i128 * cutoff / one;
    if w >= 1_000_000_000_000_000_000 {
        proof {
            assert(w * elapsed >= 1_000_000_000_000_000_000) by (nonlinear_arith)
                requires
                    w >= 1_000_000_000_000_000_000,
                    elapsed >= 1,
            ;
            lemma_trunc_div_bound(w * elapsed, one as int);
            lemma_alpha_saturates(turn_spec(cutoff as int, elapsed as int));
        }
        ONE - 1
    } else {
        assert(0 <= w * elapsed <= 1_000_000_000_000_000_000 * 0xffff_ffff_ffff_ffff)
            by (nonlinear_arith)
            requires
                0 <= w <= 1_000_000_000_000_000_000,
                0 < elapsed <= 0xffff_ffff_ffff_ffff,
        ;
        proof {
            lemma_trunc_div_bound(w * elapsed, one as int);
        }
        let r: i128 = w * elapsed / one;
        proof {
            lemma_trunc_div_bound(r * one, r + one);
        }
        (r * one / (r + one)) as i64
    }
}

/// Steps from `from` toward `to` by the factor `a`.
fn blend(a: i64, from: i128, to: i128) -> (r: i128)
    requires
        0 <= a <= ONE,
        -RATE_LIMIT <= from <= RATE_LIMIT,
        -RATE_LIMIT <= to <= RATE_LIMIT,
    ensures
        r == blend_spec(a as int, from as int, to as int),
        from <= to ==> from <= r <= to,
        to <= from ==> to <= r <= from,
{
    proof {
        lemma_blend_between(a as int, from as int, to as int);
    }
    let one: i128 = ONE as i128;
    let length: i128 = if to >= from {
        to - from
    } else {
        from - to
    };
    assert(0 <= a * length <= ONE * 2 * RATE_LIMIT) by (nonlinear_arith)
        requires
            0 <= a <= ONE,
            0 <= length <= 2 * RATE_LIMIT,
    ;
    let step: i128 = ((a as i128) * length + one - 1) / one;
    if to >= from {
        from + step
    } else {
        from - step
    }
}

impl RustFilter {
    #[verifier::type_invariant]
    spec fn well_formed(self) -> bool {
        valid_filter(self@)
    }

    /// Makes a filter that has seen no sample, or says why the parameters
    /// are refused.
    pub fn new(min_cutoff: i64, beta: i64, d_cutoff: i64) -> (r: Result<RustFilter, FilterError>)
        ensures
            match r {
                Ok(f) => valid_filter(f@) && f@ == (FilterModel {
                    min_cutoff: min_cutoff as int,
                    beta: beta as int,
                    d_cutoff: d_cutoff as int,
                    last: None,
                }),
                Err(e) => parameters_error(min_cutoff as int, beta as int, d_cutoff as int)
                    == Some(e),
            },
    {
        if let Some(e) = check_parameter(min_cutoff) {
            return Err(e);
        }
        if let Some(e) = check_parameter(beta) {
            return Err(e);
        }
        if let Some(e) = check_parameter(d_cutoff) {
            return Err(e);
        }
        Ok(RustFilter { min_cutoff, beta, d_cutoff, last: None })
    }

    /// Replaces the parameter `beta`. A value that is refused leaves the
    /// filter as it was.
    pub fn set_beta(&mut self, beta: i64) -> (r: Result<(), FilterError>)
        ensures
            valid_filter(final(self)@),
            match r {
                Ok(_) => final(self)@ == (FilterModel { beta: beta as int, ..old(self)@ }),
                Err(e) => final(self)@ == old(self)@ && parameter_error(beta as int) == Some(e),
            },
    {
        proof {
            use_type_invariant(&*self);
        }
        match check_parameter(beta) {
            Some(e) => Err(e),
            None => {
                self.beta = beta;
                Ok(())
            },
        }
    }

    /// Takes the sample `x` with the timestamp `t` and returns the smoothed
    /// value. The first sample is returned as it is. A sample whose
    /// timestamp is not later than that of the last accepted sample changes
    /// nothing, and the last smoothed value is returned again.
    pub fn filter(&mut self, t: i64, x: i64) -> (r: i64)
        ensures
            (final(self)@, r as int) == filter_spec(old(self)@, t as int, x as int),
            valid_filter(final(self)@),
    {
        proof {
            use_type_invariant(&*self);
        }
        let s: Stored = match self.last {
            None => {
                self.last = Some(Stored { value: x, rate: 0, time: t });
                return x;
            },
            Some(s) => s,
        };
        if t <= s.time {
            return s.value;
        }
        let one: i128 = ONE as i128;
        let elapsed: i128 = t as i128 - s.time as i128;
        let rate_factor: i64 = alpha(self.d_cutoff as i128, elapsed);
        let step: i128 = x as i128 - s.value as i128;
        proof {
            lemma_trunc_div_bound(step * one, elapsed as int);
        }
        let raw_rate: i128 = step * one / elapsed;
        let rate: i128 = blend(rate_factor, s.rate, raw_rate);
        let speed: i128 = if rate < 0 {
            -rate
        } else {
            rate
        };
        let gain: i128 = self.beta as i128;
        assert(0 <= gain * speed <= LIMIT * RATE_LIMIT) by (nonlinear_arith)
            requires
                0 <= gain <= LIMIT,
                0 <= speed <= RATE_LIMIT,
        ;
        proof {
            lemma_trunc_div_bound(gain * speed, one as int);
        }
        let cutoff: i128 = self.min_cutoff as i128 + gain * speed / one;
        let factor: i64 = alpha(cutoff, elapsed);
        let value: i64 = blend(factor, s.value as i128, x as i128) as i64;
        self.last = Some(Stored { value, rate, time: t });
        value
    }
}

} // verus!
