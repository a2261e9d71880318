//! Exact integer forms of the two rounding operations the rasterizers need:
//! round-to-nearest division (ties away from zero) and floor / round-to-nearest
//! integer square roots.

use vstd::arithmetic::div_mod::lemma_fundamental_div_mod;
use vstd::prelude::*;

verus! {

/// `round(a / b)` for `b > 0`, rounding ties away from zero.
pub open spec fn div_round(a: int, b: int) -> int
    recommends
        b > 0,
{
    if a >= 0 {
        (2 * a + b) / (2 * b)
    } else {
        -((2 * (-a) + b) / (2 * b))
    }
}

/// The rounded quotient is within half a unit of the exact quotient:
/// `2*a - b <= 2*b*div_round(a, b) <= 2*a + b`.
pub proof fn lemma_div_round_props(a: int, b: int)
    requires
        b > 0,
    ensures
        2 * a - b <= 2 * b * div_round(a, b) <= 2 * a + b,
{
    if a >= 0 {
        let q: int = (2 * a + b) / (2 * b);
        lemma_fundamental_div_mod(2 * a + b, 2 * b);
        assert(2 * a + b == 2 * b * q + (2 * a + b) % (2 * b));
    } else {
        let q: int = (2 * (-a) + b) / (2 * b);
        lemma_fundamental_div_mod(2 * (-a) + b, 2 * b);
        assert(2 * (-a) + b == 2 * b * q + (2 * (-a) + b) % (2 * b));
        assert(2 * b * div_round(a, b) == -(2 * b * q)) by (nonlinear_arith)
            requires
                div_round(a, b) == -q,
                b > 0,
        ;
    }
}

/// Rounding an exact multiple of the divisor recovers the factor.
pub proof fn lemma_div_round_exact(q: int, b: int)
    requires
        b > 0,
    ensures
        div_round(q * b, b) == q,
{
    lemma_div_round_props(q * b, b);
    let r: int = div_round(q * b, b);
    assert(r == q) by (nonlinear_arith)
        requires
            b > 0,
            2 * (q * b) - b <= 2 * b * r <= 2 * (q * b) + b,
    ;
}

/// A rounded interpolation between `e0` (at `i == 0`) and `e1` (at `i == n`)
/// never leaves the closed interval spanned by `e0` and `e1`.
pub proof fn lemma_div_round_between(e0: int, e1: int, n: int, i: int)
    requires
        0 < n,
        0 <= i <= n,
    ensures
        e0 <= e1 ==> e0 <= div_round(e0 * n + i * (e1 - e0), n) <= e1,
        e1 <= e0 ==> e1 <= div_round(e0 * n + i * (e1 - e0), n) <= e0,
{
    let a: int = e0 * n + i * (e1 - e0);
    lemma_div_round_props(a, n);
    let r: int = div_round(a, n);
    assert(e0 <= e1 ==> n * e0 <= a <= n * e1) by (nonlinear_arith)
        requires
            0 < n,
            0 <= i <= n,
            a == e0 * n + i * (e1 - e0),
    ;
    assert(e1 <= e0 ==> n * e1 <= a <= n * e0) by (nonlinear_arith)
        requires
            0 < n,
            0 <= i <= n,
            a == e0 * n + i * (e1 - e0),
    ;
    assert(n * e0 <= a <= n * e1 ==> e0 <= r <= e1) by (nonlinear_arith)
        requires
            0 < n,
            2 * a - n <= 2 * n * r <= 2 * a + n,
    ;
    assert(n * e1 <= a <= n * e0 ==> e1 <= r <= e0) by (nonlinear_arith)
        requires
            0 < n,
            2 * a - n <= 2 * n * r <= 2 * a + n,
    ;
}

/// Exact rounded division on machine integers.
pub fn div_round_i128(a: i128, b: i128) -> (r: i128)
    requires
        0 < b < 0x1000_0000_0000_0000_0000_0000_0000,
        -0x1000_0000_0000_0000_0000_0000_0000 < a < 0x1000_0000_0000_0000_0000_0000_0000,
    ensures
        r == div_round(a as int, b as int),
{
    if a >= 0 {
        (2 * a + b) / (2 * b)
    } else {
        -((2 * (-a) + b) / (2 * b))
    }
}

/// `r` is the floor of the square root of `n`.
pub open spec fn is_floor_sqrt(n: int, r: int) -> bool {
    0 <= r && r * r <= n && n < (r + 1) * (r + 1)
}

/// The floor of the square root of `n`, for `n >= 0`.
pub open spec fn floor_sqrt(n: int) -> int {
    choose|r: int| is_floor_sqrt(n, r)
}

proof fn lemma_floor_sqrt_exists(n: nat)
    ensures
        exists|r: int| is_floor_sqrt(n as int, r),
    decreases n,
{
    if n == 0 {
        assert(is_floor_sqrt(0, 0));
    } else {
        lemma_floor_sqrt_exists((n - 1) as nat);
        let r: int = choose|r: int| #[trigger] is_floor_sqrt(n - 1, r);
        if (r + 1) * (r + 1) <= n {
            assert(is_floor_sqrt(n as int, r + 1)) by (nonlinear_arith)
                requires
                    is_floor_sqrt(n - 1, r),
                    (r + 1) * (r + 1) <= n,
            ;
        } else {
            assert(is_floor_sqrt(n as int, r));
        }
    }
}

/// Any two floors of the same square root agree, so `floor_sqrt` is the one
/// value satisfying `is_floor_sqrt`.
pub proof fn lemma_floor_sqrt_is(n: int, r: int)
    requires
        is_floor_sqrt(n, r),
    ensures
        floor_sqrt(n) == r,
{
    assert(exists|k: int| is_floor_sqrt(n, k));
    let k: int = floor_sqrt(n);
    assert(is_floor_sqrt(n, k));
    assert(k == r) by (nonlinear_arith)
        requires
            is_floor_sqrt(n, k),
            is_floor_sqrt(n, r),
    ;
}

/// `floor_sqrt(n)` does satisfy its defining property whenever `n >= 0`.
pub proof fn lemma_floor_sqrt_def(n: int)
    requires
        n >= 0,
    ensures
        is_floor_sqrt(n, floor_sqrt(n)),
{
    lemma_floor_sqrt_exists(n as nat);
    let k: int = floor_sqrt(n);
    assert(is_floor_sqrt(n, k));
}

/// `round(sqrt(n))` for `n >= 0`, rounding to the nearest integer (the exact
/// root is never a tie, since `k + 1/2` squared is not an integer).
pub open spec fn sqrt_round(n: int) -> int {
    let f: int = floor_sqrt(n);
    if n - f * f > f {
        f + 1
    } else {
        f
    }
}

/// For `n >= 1` the rounded root `o` is characterized by
/// `o*o - o < n <= o*o + o`; for `n == 0` it is `0`.
pub proof fn lemma_sqrt_round_char(n: int)
    requires
        n >= 1,
    ensures
        1 <= sqrt_round(n),
        sqrt_round(n) * sqrt_round(n) - sqrt_round(n) < n,
        n <= sqrt_round(n) * sqrt_round(n) + sqrt_round(n),
{
    lemma_floor_sqrt_def(n);
    let f: int = floor_sqrt(n);
    assert(f >= 1) by (nonlinear_arith)
        requires
            is_floor_sqrt(n, f),
            n >= 1,
    ;
    if n - f * f > f {
        assert((f + 1) * (f + 1) - (f + 1) < n <= (f + 1) * (f + 1) + (f + 1)) by (nonlinear_arith)
            requires
                is_floor_sqrt(n, f),
                n - f * f > f,
        ;
    } else {
        assert(f * f - f < n <= f * f + f) by (nonlinear_arith)
            requires
                is_floor_sqrt(n, f),
                n - f * f <= f,
                f >= 1,
        ;
    }
}

/// The rounded root of `n` is zero exactly when `n` is zero.
pub proof fn lemma_sqrt_round_zero()
    ensures
        sqrt_round(0) == 0,
{
    lemma_floor_sqrt_is(0, 0);
}

/// The rounded root never exceeds `r` while `n` stays at or below `r * r`.
pub proof fn lemma_sqrt_round_le(n: int, r: int)
    requires
        0 <= n <= r * r,
        0 <= r,
    ensures
        0 <= sqrt_round(n) <= r,
{
    if n == 0 {
        lemma_sqrt_round_zero();
    } else {
        lemma_sqrt_round_char(n);
        let o: int = sqrt_round(n);
        assert(o <= r) by (nonlinear_arith)
            requires
                o * o - o < n <= r * r,
                o >= 1,
                r >= 0,
        ;
    }
}

/// Exact floor square root on machine integers, by binary search.
pub fn isqrt_i128(n: i128) -> (r: i128)
    requires
        0 <= n < 0x1_0000_0000_0000_0000,
    ensures
        r == floor_sqrt(n as int),
        is_floor_sqrt(n as int, r as int),
        0 <= r <= 0x1_0000_0000,
{
    let mut lo: i128 = 0;
    let mut hi: i128 = 0x1_0000_0000;
    proof {
        assert((hi + 1) * (hi + 1) > n) by (nonlinear_arith)
            requires
                hi == 0x1_0000_0000,
                n < 0x1_0000_0000_0000_0000,
        ;
    }
    while lo < hi
        invariant
            0 <= lo <= hi <= 0x1_0000_0000,
            lo * lo <= n,
            n < (hi + 1) * (hi + 1),
        decreases hi - lo,
    {
        let mid: i128 = lo + (hi - lo + 1) / 2;
        assert(lo < mid <= hi);
        assert(0 <= mid * mid <= 0x1_0000_0000 * 0x1_0000_0000) by (nonlinear_arith)
            requires
                0 < mid <= 0x1_0000_0000,
        ;
        if mid * mid <= n {
            lo = mid;
        } else {
            hi = mid - 1;
        }
    }
    proof {
        lemma_floor_sqrt_is(n as int, lo as int);
    }
    lo
}

/// Exact rounded square root on machine integers.
pub fn sqrt_round_i128(n: i128) -> (r: i128)
    requires
        0 <= n < 0x1_0000_0000_0000_0000,
    ensures
        r == sqrt_round(n as int),
        0 <= r <= 0x1_0000_0001,
{
    let f: i128 = isqrt_i128(n);
    if n - f * f > f {
        f + 1
    } else {
        f
    }
}

} // verus!
