//! Fixed-point arithmetic shared by the whole engine.
//!
//! Every quantity that the engine handles (screen positions, stick
//! deflections, cutoff frequencies, timestamps) is a signed integer that
//! counts millionths of its unit. Products and quotients round toward zero.

use vstd::prelude::*;

verus! {

/// The fixed-point representation of the number one.
pub const ONE: i64 = 1_000_000;

/// The largest magnitude that the engine accepts for a configured or sampled
/// quantity: one million units.
pub const LIMIT: i64 = 1_000_000_000_000;

/// Two times pi, rounded toward zero.
pub const TWO_PI: i64 = 6_283_185;

/// The number of binary digits of a fractional exponent that a power takes
/// into account.
pub const FRACTION_BITS: u32 = 20;

/// The absolute value of an integer.
pub open spec fn abs_spec(v: int) -> int {
    if v < 0 {
        -v
    } else {
        v
    }
}

/// `v` limited to the interval from `lo` to `hi`; where `lo` exceeds `hi`,
/// a `v` below `lo` gives `lo` and any other gives `hi`.
pub open spec fn clamp_spec(v: int, lo: int, hi: int) -> int {
    if v < lo {
        lo
    } else if v > hi {
        hi
    } else {
        v
    }
}

/// The quotient of `a` by a positive `b`, rounded toward zero.
pub open spec fn trunc_div(a: int, b: int) -> int {
    if a >= 0 {
        a / b
    } else {
        -((-a) / b)
    }
}

/// The quotient of a non-negative `a` by a positive `b`, rounded up.
pub open spec fn ceil_div(a: int, b: int) -> int {
    (a + b - 1) / b
}

/// The fixed-point product of two fixed-point numbers.
pub open spec fn mul_spec(a: int, b: int) -> int {
    trunc_div(a * b, ONE as int)
}

/// The fixed-point quotient of two fixed-point numbers, for a positive `b`.
pub open spec fn div_spec(a: int, b: int) -> int {
    trunc_div(a * ONE, b)
}

/// Whether a quantity lies within the magnitude that the engine accepts.
pub open spec fn in_range(v: int) -> bool {
    -LIMIT <= v <= LIMIT
}

/// Whether a fixed-point number lies between zero and one.
pub open spec fn is_unit(v: int) -> bool {
    0 <= v <= ONE
}

/// Whether `r` is the integer square root of `v`.
pub open spec fn is_root(v: int, r: int) -> bool {
    0 <= r && r * r <= v < (r + 1) * (r + 1)
}

/// The integer square root: the greatest `r` whose square does not exceed
/// `v`.
pub open spec fn isqrt_spec(v: int) -> int {
    choose|r: int| is_root(v, r)
}

/// The fixed-point square root of a fixed-point number.
pub open spec fn sqrt_spec(x: int) -> int {
    isqrt_spec(x * ONE)
}

/// Every non-negative integer has an integer square root.
pub proof fn lemma_root_exists(v: int)
    requires
        v >= 0,
    ensures
        is_root(v, isqrt_spec(v)),
    decreases v,
{
    if v == 0 {
        assert(is_root(0, 0));
    } else {
        lemma_root_exists(v - 1);
        let r = isqrt_spec(v - 1);
        if (r + 1) * (r + 1) <= v {
            assert((r + 1) * (r + 1) == v);
            assert(v < (r + 2) * (r + 2)) by (nonlinear_arith)
                requires
                    (r + 1) * (r + 1) == v,
                    r >= 0,
            ;
            assert(is_root(v, r + 1));
        } else {
            assert(is_root(v, r));
        }
    }
}

/// An integer has at most one integer square root.
pub proof fn lemma_root_unique(v: int, a: int, b: int)
    requires
        is_root(v, a),
        is_root(v, b),
    ensures
        a == b,
{
    if a < b {
        assert((a + 1) * (a + 1) <= b * b) by (nonlinear_arith)
            requires
                0 <= a,
                a + 1 <= b,
        ;
    } else if b < a {
        assert((b + 1) * (b + 1) <= a * a) by (nonlinear_arith)
            requires
                0 <= b,
                b + 1 <= a,
        ;
    }
}

/// The fixed-point square root of a number between zero and one lies between
/// that number and one.
pub proof fn lemma_sqrt_unit(x: int)
    requires
        is_unit(x),
    ensures
        x <= sqrt_spec(x) <= ONE,
        x == ONE ==> sqrt_spec(x) == ONE,
        x == 0 ==> sqrt_spec(x) == 0,
{
    let v = x * ONE;
    lemma_root_exists(v);
    let r = sqrt_spec(x);
    if r < x {
        assert((r + 1) * (r + 1) <= x * ONE) by (nonlinear_arith)
            requires
                0 <= r,
                r + 1 <= x,
                x <= ONE,
        ;
    }
    if r > ONE {
        assert(r * r > x * ONE) by (nonlinear_arith)
            requires
                r >= ONE + 1,
                0 <= x <= ONE,
        ;
    }
    if x == ONE {
        assert(is_root(v, ONE as int));
        lemma_root_unique(v, r, ONE as int);
    }
    if x == 0 {
        assert(is_root(v, 0));
        lemma_root_unique(v, r, 0);
    }
}

/// A quotient rounded toward zero is no larger in magnitude than its
/// numerator, and has no other sign.
pub proof fn lemma_trunc_div_bound(a: int, b: int)
    requires
        b >= 1,
    ensures
        abs_spec(trunc_div(a, b)) <= abs_spec(a),
        a >= 0 ==> trunc_div(a, b) >= 0,
        a <= 0 ==> trunc_div(a, b) <= 0,
        abs_spec(trunc_div(a, b)) * b <= abs_spec(a),
        abs_spec(a) < (abs_spec(trunc_div(a, b)) + 1) * b,
{
    let m = abs_spec(a);
    assert(0 <= m / b <= m && (m / b) * b <= m && m < (m / b + 1) * b) by (nonlinear_arith)
        requires
            m >= 0,
            b >= 1,
    ;
}

/// A quotient rounded up is the least number whose product with the divisor
/// reaches the numerator.
pub proof fn lemma_ceil_div_bound(a: int, b: int)
    requires
        a >= 0,
        b >= 1,
    ensures
        0 <= ceil_div(a, b) <= a,
        a <= ceil_div(a, b) * b < a + b,
        a > 0 ==> ceil_div(a, b) >= 1,
{
    let q = ceil_div(a, b);
    assert(q * b <= a + b - 1 && a + b - 1 < q * b + b && q >= 0) by (nonlinear_arith)
        requires
            q == (a + b - 1) / b,
            a >= 0,
            b >= 1,
    ;
    assert(q <= a && (q == 0 ==> q * b == 0)) by (nonlinear_arith)
        requires
            q * b < a + b,
            q >= 0,
            a >= 0,
            b >= 1,
    ;
}

/// Of two non-negative numerators the larger gives no smaller quotient
/// rounded up.
pub proof fn lemma_ceil_div_monotone(low: int, high: int, b: int)
    requires
        0 <= low <= high,
        b >= 1,
    ensures
        ceil_div(low, b) <= ceil_div(high, b),
{
    assert((low + b - 1) / b <= (high + b - 1) / b) by (nonlinear_arith)
        requires
            0 <= low <= high,
            b >= 1,
    ;
}

/// Of two non-negative numerators the larger gives no smaller quotient.
pub proof fn lemma_trunc_div_monotone(low: int, high: int, b: int)
    requires
        0 <= low <= high,
        b >= 1,
    ensures
        trunc_div(low, b) <= trunc_div(high, b),
{
    assert(low / b <= high / b) by (nonlinear_arith)
        requires
            0 <= low <= high,
            b >= 1,
    ;
}

/// Limits `v` to the interval from `lo` to `hi`. Where `lo` exceeds `hi`
/// the lower limit goes first.
pub fn clamp(v: i64, lo: i64, hi: i64) -> (r: i64)
    ensures
        r == clamp_spec(v as int, lo as int, hi as int),
        lo <= hi ==> lo <= r <= hi,
{
    if v < lo {
        lo
    } else if v > hi {
        hi
    } else {
        v
    }
}

/// Computes the integer square root by bisection.
pub fn isqrt(v: u64) -> (r: u64)
    ensures
        r == isqrt_spec(v as int),
        is_root(v as int, r as int),
{
    let mut lo: u64 = 0;
    let mut hi: u64 = 4_294_967_296;
    assert(v < 4_294_967_296 * 4_294_967_296) by (nonlinear_arith)
        requires
            v <= u64::MAX,
    ;
    while hi - lo > 1
        invariant
            lo < hi <= 4_294_967_296,
            lo * lo <= v,
            v < hi * hi,
        decreases hi - lo,
    {
        let mid: u64 = lo + (hi - lo) / 2;
        assert(mid * mid <= 4_294_967_296 * 4_294_967_296) by (nonlinear_arith)
            requires
                0 <= mid <= 4_294_967_296,
        ;
        let wide: u128 = mid as u128;
        let square: u128 = wide * wide;
        if square <= v as u128 {
            lo = mid;
        } else {
            hi = mid;
        }
    }
    proof {
        assert(hi == lo + 1);
        assert(is_root(v as int, lo as int));
        lemma_root_exists(v as int);
        lemma_root_unique(v as int, lo as int, isqrt_spec(v as int));
    }
    lo
}

/// The fixed-point product of two numbers between zero and one lies between
/// zero and each of them, and one is its neutral element.
pub proof fn lemma_mul_unit(a: int, b: int)
    requires
        is_unit(a),
        is_unit(b),
    ensures
        is_unit(mul_spec(a, b)),
        mul_spec(a, b) <= a,
        mul_spec(a, b) <= b,
        a == ONE ==> mul_spec(a, b) == b,
        b == ONE ==> mul_spec(a, b) == a,
        a == 0 || b == 0 ==> mul_spec(a, b) == 0,
{
    let one = ONE as int;
    assert(0 <= a * b <= a * one && a * b <= one * b) by (nonlinear_arith)
        requires
            0 <= a <= one,
            0 <= b <= one,
    ;
    assert(a == one ==> a * b == one * b);
    assert(b == one ==> a * b == a * one);
    assert(a == 0 || b == 0 ==> a * b == 0) by (nonlinear_arith);
    assert((a * one) / one == a) by (nonlinear_arith)
        requires
            one > 0,
    ;
    assert((one * b) / one == b) by (nonlinear_arith)
        requires
            one > 0,
    ;
    assert((a * b) / one <= (a * one) / one) by (nonlinear_arith)
        requires
            a * b <= a * one,
            one > 0,
    ;
    assert((a * b) / one <= (one * b) / one) by (nonlinear_arith)
        requires
            a * b <= one * b,
            one > 0,
    ;
    assert(0 <= (a * b) / one) by (nonlinear_arith)
        requires
            0 <= a * b,
            one > 0,
    ;
}

/// The whole-exponent part of a power, by squaring: `acc` times `base`
/// raised to `n`, every product rounded toward zero.
pub open spec fn power_whole(acc: int, base: int, n: nat) -> int
    decreases n,
{
    if n == 0 {
        acc
    } else {
        power_whole(
            if n % 2 == 1 {
                mul_spec(acc, base)
            } else {
                acc
            },
            mul_spec(base, base),
            n / 2,
        )
    }
}

/// The fractional-exponent part of a power, by repeated square roots: `acc`
/// times `root` raised to the fraction `f`, of which the first `bits` binary
/// digits count.
pub open spec fn power_fraction(acc: int, root: int, f: int, bits: nat) -> int
    decreases bits,
{
    if bits == 0 || f <= 0 {
        acc
    } else {
        let next = sqrt_spec(root);
        if 2 * f >= ONE {
            power_fraction(mul_spec(acc, next), next, 2 * f - ONE, (bits - 1) as nat)
        } else {
            power_fraction(acc, next, 2 * f, (bits - 1) as nat)
        }
    }
}

/// `x` raised to the fixed-point exponent `c`, for `x` between zero and one
/// and a non-negative `c`.
pub open spec fn power_spec(x: int, c: int) -> int {
    power_fraction(
        power_whole(ONE as int, x, (c / (ONE as int)) as nat),
        x,
        c % (ONE as int),
        FRACTION_BITS as nat,
    )
}

/// The whole-exponent part of a power keeps its value between zero and the
/// accumulator it started from.
pub proof fn lemma_power_whole_unit(acc: int, base: int, n: nat)
    requires
        is_unit(acc),
        is_unit(base),
    ensures
        0 <= power_whole(acc, base, n) <= acc,
    decreases n,
{
    if n != 0 {
        lemma_mul_unit(acc, base);
        lemma_mul_unit(base, base);
        let next = if n % 2 == 1 {
            mul_spec(acc, base)
        } else {
            acc
        };
        lemma_power_whole_unit(next, mul_spec(base, base), n / 2);
    }
}

/// The fractional-exponent part of a power keeps its value between zero and
/// the accumulator it started from.
pub proof fn lemma_power_fraction_unit(acc: int, root: int, f: int, bits: nat)
    requires
        is_unit(acc),
        is_unit(root),
    ensures
        0 <= power_fraction(acc, root, f, bits) <= acc,
    decreases bits,
{
    if !(bits == 0 || f <= 0) {
        lemma_sqrt_unit(root);
        let next = sqrt_spec(root);
        lemma_mul_unit(acc, next);
        if 2 * f >= ONE {
            lemma_power_fraction_unit(mul_spec(acc, next), next, 2 * f - ONE, (bits - 1) as nat);
        } else {
            lemma_power_fraction_unit(acc, next, 2 * f, (bits - 1) as nat);
        }
    }
}

/// A power of a number between zero and one lies between zero and one.
pub proof fn lemma_power_unit(x: int, c: int)
    requires
        is_unit(x),
        c >= 0,
    ensures
        is_unit(power_spec(x, c)),
{
    let n = (c / (ONE as int)) as nat;
    lemma_power_whole_unit(ONE as int, x, n);
    lemma_power_fraction_unit(
        power_whole(ONE as int, x, n),
        x,
        c % (ONE as int),
        FRACTION_BITS as nat,
    );
}

/// The exponent one leaves every number between zero and one as it is.
pub proof fn lemma_power_linear(x: int)
    requires
        is_unit(x),
    ensures
        power_spec(x, ONE as int) == x,
{
    lemma_mul_unit(ONE as int, x);
    lemma_mul_unit(x, x);
    reveal_with_fuel(power_whole, 3);
    assert(power_whole(ONE as int, x, 1) == x);
}

/// Any power of one is one.
pub proof fn lemma_power_of_one(c: int)
    requires
        c >= 0,
    ensures
        power_spec(ONE as int, c) == ONE,
{
    lemma_power_whole_of_one((c / (ONE as int)) as nat);
    lemma_power_fraction_of_one(c % (ONE as int), FRACTION_BITS as nat);
}

/// The whole-exponent part of a power of one is one.
proof fn lemma_power_whole_of_one(n: nat)
    ensures
        power_whole(ONE as int, ONE as int, n) == ONE,
    decreases n,
{
    if n != 0 {
        lemma_mul_unit(ONE as int, ONE as int);
        lemma_power_whole_of_one(n / 2);
    }
}

/// The fractional-exponent part of a power of one is one.
proof fn lemma_power_fraction_of_one(f: int, bits: nat)
    ensures
        power_fraction(ONE as int, ONE as int, f, bits) == ONE,
    decreases bits,
{
    if !(bits == 0 || f <= 0) {
        lemma_sqrt_unit(ONE as int);
        lemma_mul_unit(ONE as int, ONE as int);
        if 2 * f >= ONE {
            lemma_power_fraction_of_one(2 * f - ONE, (bits - 1) as nat);
        } else {
            lemma_power_fraction_of_one(2 * f, (bits - 1) as nat);
        }
    }
}

/// Any positive power of zero is zero.
pub proof fn lemma_power_of_zero(c: int)
    requires
        c > 0,
    ensures
        power_spec(0, c) == 0,
{
    let n = (c / (ONE as int)) as nat;
    let f = c % (ONE as int);
    if n >= 1 {
        lemma_power_whole_of_zero(ONE as int, n);
        lemma_power_fraction_unit(0, 0, f, FRACTION_BITS as nat);
    } else {
        assert(f == c);
        assert(power_whole(ONE as int, 0, n) == ONE);
        vstd::arithmetic::power2::lemma2_to64();
        lemma_power_fraction_of_zero(ONE as int, f, FRACTION_BITS as nat);
    }
}

/// The whole-exponent part of a power of zero is zero for an exponent of
/// one or more.
proof fn lemma_power_whole_of_zero(acc: int, n: nat)
    requires
        is_unit(acc),
        n >= 1,
    ensures
        power_whole(acc, 0, n) == 0,
    decreases n,
{
    lemma_mul_unit(acc, 0);
    lemma_mul_unit(0, 0);
    if n % 2 == 1 {
        lemma_power_whole_unit(0, 0, n / 2);
    } else {
        lemma_power_whole_of_zero(acc, n / 2);
    }
}

/// The fractional-exponent part of a power of zero is zero for a fraction
/// that has a digit one among the binary digits that count.
proof fn lemma_power_fraction_of_zero(acc: int, f: int, bits: nat)
    requires
        is_unit(acc),
        0 < f < ONE,
        f * vstd::arithmetic::power2::pow2(bits) >= ONE,
    ensures
        power_fraction(acc, 0, f, bits) == 0,
    decreases bits,
{
    vstd::arithmetic::power2::lemma2_to64();
    if bits == 0 {
        assert(vstd::arithmetic::power2::pow2(0) == 1);
        assert(f * 1 == f);
    } else {
        lemma_sqrt_unit(0);
        lemma_mul_unit(acc, 0);
        if 2 * f >= ONE {
            lemma_power_fraction_unit(0, 0, 2 * f - ONE, (bits - 1) as nat);
        } else {
            vstd::arithmetic::power2::lemma_pow2_unfold(bits);
            assert((2 * f) * vstd::arithmetic::power2::pow2((bits - 1) as nat) >= ONE)
                by (nonlinear_arith)
                requires
                    f * vstd::arithmetic::power2::pow2(bits) >= ONE,
                    vstd::arithmetic::power2::pow2(bits) == 2 * vstd::arithmetic::power2::pow2(
                        (bits - 1) as nat,
                    ),
            ;
            lemma_power_fraction_of_zero(acc, 2 * f, (bits - 1) as nat);
        }
    }
}

/// The fixed-point square root does not fall when its argument rises.
pub proof fn lemma_sqrt_monotone(low: int, high: int)
    requires
        0 <= low <= high,
    ensures
        sqrt_spec(low) <= sqrt_spec(high),
{
    lemma_root_exists(low * ONE);
    lemma_root_exists(high * ONE);
    let a = sqrt_spec(low);
    let b = sqrt_spec(high);
    if a > b {
        assert((b + 1) * (b + 1) <= a * a) by (nonlinear_arith)
            requires
                0 <= b,
                b + 1 <= a,
        ;
    }
}

/// The fixed-point product of non-negative numbers does not fall when a
/// factor rises.
pub proof fn lemma_mul_monotone(a: int, b: int, c: int, d: int)
    requires
        0 <= a <= c,
        0 <= b <= d,
    ensures
        0 <= mul_spec(a, b) <= mul_spec(c, d),
{
    assert(0 <= a * b <= c * d) by (nonlinear_arith)
        requires
            0 <= a <= c,
            0 <= b <= d,
    ;
    lemma_trunc_div_monotone(a * b, c * d, ONE as int);
    lemma_trunc_div_bound(a * b, ONE as int);
}

/// The whole-exponent part of a power does not fall when the accumulator or
/// the base rises.
proof fn lemma_power_whole_monotone(acc1: int, acc2: int, base1: int, base2: int, n: nat)
    requires
        0 <= acc1 <= acc2,
        0 <= base1 <= base2,
    ensures
        0 <= power_whole(acc1, base1, n) <= power_whole(acc2, base2, n),
    decreases n,
{
    if n != 0 {
        lemma_mul_monotone(acc1, base1, acc2, base2);
        lemma_mul_monotone(base1, base1, base2, base2);
        if n % 2 == 1 {
            lemma_power_whole_monotone(
                mul_spec(acc1, base1),
                mul_spec(acc2, base2),
                mul_spec(base1, base1),
                mul_spec(base2, base2),
                n / 2,
            );
        } else {
            lemma_power_whole_monotone(
                acc1,
                acc2,
                mul_spec(base1, base1),
                mul_spec(base2, base2),
                n / 2,
            );
        }
    }
}

/// The fractional-exponent part of a power does not fall when the
/// accumulator or the root rises.
proof fn lemma_power_fraction_monotone(
    acc1: int,
    acc2: int,
    root1: int,
    root2: int,
    f: int,
    bits: nat,
)
    requires
        0 <= acc1 <= acc2,
        0 <= root1 <= root2,
    ensures
        0 <= power_fraction(acc1, root1, f, bits) <= power_fraction(acc2, root2, f, bits),
    decreases bits,
{
    if !(bits == 0 || f <= 0) {
        lemma_sqrt_monotone(root1, root2);
        lemma_root_exists(root1 * ONE);
        let next1 = sqrt_spec(root1);
        let next2 = sqrt_spec(root2);
        lemma_mul_monotone(acc1, next1, acc2, next2);
        if 2 * f >= ONE {
            lemma_power_fraction_monotone(
                mul_spec(acc1, next1),
                mul_spec(acc2, next2),
                next1,
                next2,
                2 * f - ONE,
                (bits - 1) as nat,
            );
        } else {
            lemma_power_fraction_monotone(acc1, acc2, next1, next2, 2 * f, (bits - 1) as nat);
        }
    }
}

/// A power does not fall when its base rises.
pub proof fn lemma_power_monotone(low: int, high: int, c: int)
    requires
        0 <= low <= high,
        c >= 0,
    ensures
        power_spec(low, c) <= power_spec(high, c),
{
    let n = (c / (ONE as int)) as nat;
    lemma_power_whole_monotone(ONE as int, ONE as int, low, high, n);
    lemma_power_fraction_monotone(
        power_whole(ONE as int, low, n),
        power_whole(ONE as int, high, n),
        low,
        high,
        c % (ONE as int),
        FRACTION_BITS as nat,
    );
}

/// Multiplies two fixed-point numbers between zero and one.
pub(crate) fn unit_mul(a: i64, b: i64) -> (r: i64)
    requires
        is_unit(a as int),
        is_unit(b as int),
    ensures
        r == mul_spec(a as int, b as int),
        is_unit(r as int),
{
    proof {
        lemma_mul_unit(a as int, b as int);
        assert(0 <= a * b <= ONE * ONE) by (nonlinear_arith)
            requires
                0 <= a <= ONE,
                0 <= b <= ONE,
        ;
    }
    a * b / ONE
}

/// Takes the fixed-point square root of a number between zero and one.
pub(crate) fn unit_sqrt(x: i64) -> (r: i64)
    requires
        is_unit(x as int),
    ensures
        r == sqrt_spec(x as int),
        is_unit(r as int),
{
    proof {
        lemma_sqrt_unit(x as int);
    }
    let scaled: u64 = (x * ONE) as u64;
    isqrt(scaled) as i64
}

/// Raises a number between zero and one to a non-negative fixed-point
/// exponent.
pub(crate) fn unit_pow(x: i64, c: i64) -> (r: i64)
    requires
        is_unit(x as int),
        c >= 0,
    ensures
        r == power_spec(x as int, c as int),
        is_unit(r as int),
{
    let mut acc: i64 = ONE;
    let mut base: i64 = x;
    let mut n: u64 = (c / ONE) as u64;
    while n > 0
        invariant
            is_unit(acc as int),
            is_unit(base as int),
            power_whole(acc as int, base as int, n as nat) == power_whole(
                ONE as int,
                x as int,
                (c / ONE) as nat,
            ),
        decreases n,
    {
        if n % 2 == 1 {
            acc = unit_mul(acc, base);
        }
        base = unit_mul(base, base);
        n = n / 2;
    }
    let mut root: i64 = x;
    let mut f: i64 = c % ONE;
    let mut bits: u32 = FRACTION_BITS;
    while bits > 0 && f > 0
        invariant
            is_unit(acc as int),
            is_unit(root as int),
            0 <= f < ONE,
            power_fraction(acc as int, root as int, f as int, bits as nat) == power_spec(
                x as int,
                c as int,
            ),
        decreases bits,
    {
        root = unit_sqrt(root);
        f = 2 * f;
        if f >= ONE {
            acc = unit_mul(acc, root);
            f = f - ONE;
        }
        bits = bits - 1;
    }
    acc
}

} // verus!
