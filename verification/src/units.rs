//! Fixed-point quantities shared by every module.
//!
//! Beats, seconds, tempi and ratios are integers counted in millionths, so a
//! musical division such as 1/32 of a beat is represented exactly and every
//! comparison on the beat grid is decided without rounding.

use vstd::prelude::*;

verus! {

/// Millionths of a beat (a quarter note).
pub type MicroBeats = i64;

/// Millionths of a second.
pub type MicroSecs = i64;

/// Millionths of a beat per minute.
pub type MicroBpm = i64;

/// A dimensionless ratio in millionths (a playback speed, a tempo nudge).
pub type Micro = i64;

/// Nanoseconds on the host's monotonic time line.
pub type Nanos = u64;

/// One whole unit, in millionths.
pub const MICRO: i64 = 1_000_000;

/// The bit pattern of an IEEE single. The library stores, moves and returns
/// such values; it never computes with them.
#[derive(Clone, Copy, Debug, PartialEq, Eq, Structural)]
pub struct Single(pub u32);

/// The bit pattern of an IEEE double, carried through like [`Single`].
#[derive(Clone, Copy, Debug, PartialEq, Eq, Structural)]
pub struct Double(pub u64);

/// `x` limited to the range of an `i64`.
pub open spec fn saturated(x: int) -> int {
    if x > i64::MAX {
        i64::MAX as int
    } else if x < i64::MIN {
        i64::MIN as int
    } else {
        x
    }
}

/// `x` limited to `lo..=hi`.
pub open spec fn clamped(x: int, lo: int, hi: int) -> int {
    if x < lo {
        lo
    } else if x > hi {
        hi
    } else {
        x
    }
}

/// The multiple of `q` nearest to `x`; a tie goes away from zero.
pub open spec fn nearest_multiple(x: int, q: int) -> int {
    if x >= 0 {
        (2 * x + q) / (2 * q) * q
    } else {
        -((q - 2 * x) / (2 * q) * q)
    }
}

/// The absolute value.
pub open spec fn magnitude(x: int) -> int {
    if x < 0 {
        -x
    } else {
        x
    }
}

/// The integer nearest to `n / d`; a tie goes to the even one.
pub open spec fn half_even(n: int, d: int) -> int {
    let q = n / d;
    let twice = 2 * (n % d);
    if twice < d || twice == d && q % 2 == 0 {
        q
    } else {
        q + 1
    }
}

/// The integer nearest to `x / d`; a tie goes away from zero.
pub open spec fn rounded(x: int, d: int) -> int {
    if x >= 0 {
        (2 * x + d) / (2 * d)
    } else {
        -((d - 2 * x) / (2 * d))
    }
}

/// Rounds `n / d` to the nearest integer, ties to even.
pub fn round_half_even(n: u64, d: u64) -> (r: u64)
    requires
        1 < d <= 1_000_000_000,
    ensures
        r == half_even(n as int, d as int),
{
    let q: u64 = n / d;
    let twice: u64 = 2 * (n % d);
    proof {
        let (ni, di) = (n as int, d as int);
        assert(ni / di < 0xffff_ffff_ffff_ffff) by (nonlinear_arith)
            requires
                0 <= ni <= 0xffff_ffff_ffff_ffff,
                di > 1,
        ;
    }
    if twice < d || twice == d && q % 2 == 0 {
        q
    } else {
        q + 1
    }
}

/// Rounds `x / d` to the nearest integer, ties away from zero.
pub fn round(x: i64, d: i64) -> (r: i128)
    requires
        d > 0,
    ensures
        r == rounded(x as int, d as int),
{
    let (n, q): (i128, i128) = (x as i128, d as i128);
    if n >= 0 {
        (2 * n + q) / (2 * q)
    } else {
        -((q - 2 * n) / (2 * q))
    }
}

/// Limits a wide value to the range of an `i64`.
pub fn saturate(x: i128) -> (r: i64)
    ensures
        r == saturated(x as int),
{
    if x > i64::MAX as i128 {
        i64::MAX
    } else if x < i64::MIN as i128 {
        i64::MIN
    } else {
        x as i64
    }
}

/// Limits `x` to `lo..=hi`.
pub fn clamp(x: i64, lo: i64, hi: i64) -> (r: i64)
    requires
        lo <= hi,
    ensures
        r == clamped(x as int, lo as int, hi as int),
{
    if x < lo {
        lo
    } else if x > hi {
        hi
    } else {
        x
    }
}

/// Division rounding towards negative infinity.
pub fn floor_div(x: i128, q: i128) -> (r: i128)
    requires
        q > 0,
    ensures
        r == x as int / q as int,
{
    if x >= 0 {
        x / q
    } else {
        let up: i128 = (-(x + 1)) / q;
        proof {
            let m: int = -(x + 1);
            let d = q as int;
            assert(0 <= m / d <= m) by (nonlinear_arith)
                requires
                    m >= 0,
                    d > 0,
            ;
            lemma_floor_of_negative(m, d);
        }
        -up - 1
    }
}

proof fn lemma_floor_of_negative(m: int, d: int)
    requires
        m >= 0,
        d > 0,
    ensures
        (-m - 1) / d == -(m / d) - 1,
{
    let q = m / d;
    let r = m % d;
    vstd::arithmetic::div_mod::lemma_fundamental_div_mod(m, d);
    assert(-m - 1 == d * (-q - 1) + (d - 1 - r)) by (nonlinear_arith)
        requires
            m == d * q + r,
    ;
    vstd::arithmetic::div_mod::lemma_fundamental_div_mod_converse(-m - 1, d, -q - 1, d - 1 - r);
}

/// The non-negative remainder of [`floor_div`].
pub fn floor_mod(x: i64, q: i64) -> (r: i64)
    requires
        q > 0,
    ensures
        r == x as int % q as int,
        0 <= r < q,
{
    let d: i128 = floor_div(x as i128, q as i128);
    proof {
        let xi = x as int;
        let qi = q as int;
        vstd::arithmetic::div_mod::lemma_fundamental_div_mod(xi, qi);
        assert(qi * (xi / qi) == d * q) by (nonlinear_arith)
            requires
                d == xi / qi,
                qi == q,
        ;
    }
    let back: i128 = d * q as i128;
    (x as i128 - back) as i64
}

/// The multiple of `q` nearest to `x`, limited to the range of an `i64`.
pub fn snap_to_multiple(x: i64, q: i64) -> (r: i64)
    requires
        q > 0,
    ensures
        r == saturated(nearest_multiple(x as int, q as int)),
{
    let d: i128 = q as i128;
    let n: i128 = x as i128;
    let twice: i128 = if n >= 0 {
        2 * n + d
    } else {
        d - 2 * n
    };
    let k: i128 = twice / (2 * d);
    proof {
        let (t, di, ki) = (twice as int, d as int, k as int);
        vstd::arithmetic::div_mod::lemma_fundamental_div_mod(t, 2 * di);
        assert(0 <= ki * di <= t) by (nonlinear_arith)
            requires
                t == 2 * di * ki + t % (2 * di),
                0 <= t % (2 * di),
                di > 0,
                t >= 0,
                ki >= 0,
        ;
    }
    let m: i128 = k * d;
    if n >= 0 {
        saturate(m)
    } else {
        saturate(-m)
    }
}

/// A snap moves a value by at most half the grid, and lands on the grid.
pub proof fn nearest_multiple_is_close(x: int, q: int)
    requires
        q > 0,
    ensures
        nearest_multiple(x, q) % q == 0,
        -q <= 2 * (nearest_multiple(x, q) - x) <= q,
{
    let t = if x >= 0 {
        2 * x + q
    } else {
        q - 2 * x
    };
    let k = t / (2 * q);
    vstd::arithmetic::div_mod::lemma_fundamental_div_mod(t, 2 * q);
    assert(2 * q * k <= t < 2 * q * k + 2 * q);
    assert(2 * q * k == 2 * (k * q)) by (nonlinear_arith);
    vstd::arithmetic::div_mod::lemma_mod_multiples_basic(k, q);
    vstd::arithmetic::div_mod::lemma_mod_multiples_basic(-k, q);
    assert(-(k * q) == (-k) * q) by (nonlinear_arith);
}

/// A limit keeps what lies within and brings what lies outside to its nearer end.
pub proof fn limits_keep_what_lies_within(x: int, lo: int, hi: int)
    requires
        lo <= hi,
    ensures
        lo <= clamped(x, lo, hi) <= hi,
        lo <= x <= hi ==> clamped(x, lo, hi) == x,
        x < lo ==> clamped(x, lo, hi) == lo,
        x > hi ==> clamped(x, lo, hi) == hi,
        i64::MIN <= x <= i64::MAX ==> saturated(x) == x,
        x > i64::MAX ==> saturated(x) == i64::MAX,
        x < i64::MIN ==> saturated(x) == i64::MIN,
{
}

} // verus!
