//! Rounding a fraction to the nearest integer, in exact integer arithmetic.

use vstd::prelude::*;
use vstd::arithmetic::div_mod::lemma_fundamental_div_mod;
use vstd::arithmetic::div_mod::lemma_fundamental_div_mod_converse;
use vstd::arithmetic::div_mod::lemma_mod_bound;

verus! {

/// The integer nearest to `n / d`, for `d > 0`. A fraction that lies halfway
/// between two integers goes to the one farther from zero.
pub open spec fn round_half_away(n: int, d: int) -> int {
    if n >= 0 {
        (2 * n + d) / (2 * d)
    } else {
        -((2 * (-n) + d) / (2 * d))
    }
}

/// `r` is the integer nearest to `n / d`, ties away from zero: `n / d` lies
/// in `[r - 1/2, r + 1/2)` where it is not negative, in `(r - 1/2, r + 1/2]`
/// where it is.
pub open spec fn nearest_half_away(n: int, d: int, r: int) -> bool {
    if n >= 0 {
        2 * (r * d) - d <= 2 * n < 2 * (r * d) + d
    } else {
        2 * (r * d) - d < 2 * n <= 2 * (r * d) + d
    }
}

/// The integer nearest to `n / d`, for `d > 0`. A fraction that lies halfway
/// between two integers goes to the lower one. Where `d` is 0 the result is 0.
pub open spec fn round_half_down(n: int, d: int) -> int {
    if d == 0 {
        0
    } else {
        (2 * n + d - 1) / (2 * d)
    }
}

/// `k` is the integer nearest to `n / d`, ties downwards: `n / d` lies in
/// `(k - 1/2, k + 1/2]`.
pub open spec fn nearest_half_down(n: int, d: int, k: int) -> bool {
    2 * (k * d) - d < 2 * n <= 2 * (k * d) + d
}

/// The value `v0 + dv * i / n` rounded to the nearest integer, ties away from
/// zero: the point reached after `i` of `n` equal steps from `v0` to
/// `v0 + dv`. Where `n` is 0 there is no step, and the result is `v0`.
pub open spec fn lerp_round(v0: int, dv: int, i: int, n: int) -> int {
    if n == 0 {
        v0
    } else {
        round_half_away(v0 * n + dv * i, n)
    }
}

/// `round_half_away` yields the nearest integer, and nothing else does.
pub proof fn lemma_round_half_away_nearest(n: int, d: int, r: int)
    requires
        d > 0,
    ensures
        nearest_half_away(n, d, r) <==> r == round_half_away(n, d),
{
    let m = if n >= 0 { n } else { -n };
    let s = if n >= 0 { r } else { -r };
    let x = 2 * m + d;
    let q = x / (2 * d);
    lemma_fundamental_div_mod(x, 2 * d);
    lemma_mod_bound(x, 2 * d);
    assert((2 * d) * q == 2 * (q * d)) by (nonlinear_arith);
    assert((-r) * d == -(r * d)) by (nonlinear_arith);
    if 2 * (s * d) - d <= 2 * m < 2 * (s * d) + d {
        assert(x == s * (2 * d) + (x - 2 * (s * d))) by (nonlinear_arith);
        lemma_fundamental_div_mod_converse(x, 2 * d, s, x - 2 * (s * d));
    }
}

/// `round_half_down` yields the nearest integer, and nothing else does.
pub proof fn lemma_round_half_down_nearest(n: int, d: int, k: int)
    requires
        d > 0,
    ensures
        nearest_half_down(n, d, k) <==> k == round_half_down(n, d),
{
    let x = 2 * n + d - 1;
    let q = x / (2 * d);
    lemma_fundamental_div_mod(x, 2 * d);
    lemma_mod_bound(x, 2 * d);
    assert((2 * d) * q == 2 * (q * d)) by (nonlinear_arith);
    if nearest_half_down(n, d, k) {
        assert(x == k * (2 * d) + (x - 2 * (k * d))) by (nonlinear_arith);
        lemma_fundamental_div_mod_converse(x, 2 * d, k, x - 2 * (k * d));
    }
}

/// A fraction whose value is an integer rounds to that integer.
pub proof fn lemma_round_exact(k: int, d: int)
    requires
        d > 0,
    ensures
        round_half_away(k * d, d) == k,
{
    lemma_round_half_away_nearest(k * d, d, k);
}

/// Rounding keeps a fraction between the integers that bound it.
pub proof fn lemma_round_between(n: int, d: int, lo: int, hi: int)
    requires
        d > 0,
        lo * d <= n <= hi * d,
    ensures
        lo <= round_half_away(n, d) <= hi,
{
    let r = round_half_away(n, d);
    lemma_round_half_away_nearest(n, d, r);
    assert(lo <= r) by (nonlinear_arith)
        requires
            d > 0,
            lo * d <= n,
            2 * n <= 2 * (r * d) + d,
    ;
    assert(r <= hi) by (nonlinear_arith)
        requires
            d > 0,
            n <= hi * d,
            2 * (r * d) - d <= 2 * n,
    ;
}

/// The first step of an interpolation is its start, the last is its end.
pub proof fn lemma_lerp_ends(v0: int, dv: int, n: int)
    requires
        n >= 0,
    ensures
        lerp_round(v0, dv, 0, n) == v0,
        n > 0 ==> lerp_round(v0, dv, n, n) == v0 + dv,
{
    if n > 0 {
        assert(v0 * n + dv * 0 == v0 * n) by (nonlinear_arith);
        lemma_round_exact(v0, n);
        assert(v0 * n + dv * n == (v0 + dv) * n) by (nonlinear_arith);
        lemma_round_exact(v0 + dv, n);
    }
}

/// An interpolation that moves by a whole number `s` at each step is exact.
pub proof fn lemma_lerp_whole_steps(v0: int, s: int, i: int, n: int)
    requires
        n > 0,
    ensures
        lerp_round(v0, s * n, i, n) == v0 + s * i,
{
    assert(v0 * n + (s * n) * i == (v0 + s * i) * n) by (nonlinear_arith);
    lemma_round_exact(v0 + s * i, n);
}

/// Every step of an interpolation lies between its start and its end.
pub proof fn lemma_lerp_between(v0: int, dv: int, i: int, n: int)
    requires
        0 <= i <= n,
    ensures
        dv >= 0 ==> v0 <= lerp_round(v0, dv, i, n) <= v0 + dv,
        dv <= 0 ==> v0 + dv <= lerp_round(v0, dv, i, n) <= v0,
{
    if n > 0 {
        if dv >= 0 {
            assert(v0 * n <= v0 * n + dv * i <= (v0 + dv) * n) by (nonlinear_arith)
                requires
                    0 <= i <= n,
                    dv >= 0,
            ;
            lemma_round_between(v0 * n + dv * i, n, v0, v0 + dv);
        }
        if dv <= 0 {
            assert((v0 + dv) * n <= v0 * n + dv * i <= v0 * n) by (nonlinear_arith)
                requires
                    0 <= i <= n,
                    dv <= 0,
            ;
            lemma_round_between(v0 * n + dv * i, n, v0 + dv, v0);
        }
    }
}

/// The largest numerator and denominator that `round_div` takes: with these
/// its sums stay within 128 bits.
pub const ROUND_DIV_MAX: i128 = 0x2000_0000_0000_0000_0000_0000_0000_0000;

/// Rounds `n / d` to the nearest integer, ties away from zero.
pub fn round_div(n: i128, d: i128) -> (r: i128)
    requires
        0 < d <= ROUND_DIV_MAX,
        -ROUND_DIV_MAX <= n <= ROUND_DIV_MAX,
    ensures
        r == round_half_away(n as int, d as int),
{
    if n >= 0 {
        (2 * n + d) / (2 * d)
    } else {
        -((2 * (-n) + d) / (2 * d))
    }
}

} // verus!
