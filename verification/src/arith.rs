//! Integer arithmetic shared by the geometry: division rounded toward zero and
//! greatest common divisors.

use gcd::Gcd;
use vstd::arithmetic::div_mod::{
    lemma_div_is_ordered, lemma_div_multiples_vanish, lemma_fundamental_div_mod,
    lemma_mod_multiples_vanish,
};
use vstd::prelude::*;

verus! {

/// The magnitude of an integer.
pub open spec fn magnitude(n: int) -> int {
    if n < 0 {
        -n
    } else {
        n
    }
}

/// The quotient of `n` by `d` rounded toward zero.
pub open spec fn trunc_div(n: int, d: int) -> int {
    if (n >= 0) == (d > 0) {
        magnitude(n) / magnitude(d)
    } else {
        -(magnitude(n) / magnitude(d))
    }
}

/// The greatest common divisor of two naturals, zero only when both are zero.
pub open spec fn gcd_of(a: nat, b: nat) -> nat
    decreases b,
{
    if b == 0 {
        a
    } else {
        gcd_of(b, a % b)
    }
}

/// A quotient lies above every integer whose multiple of the divisor does not
/// exceed the dividend, and below every integer whose multiple reaches it.
pub proof fn lemma_floor_bounds(n: int, d: int, k: int)
    requires
        d > 0,
    ensures
        k * d <= n ==> k <= n / d,
        n <= k * d ==> n / d <= k,
{
    lemma_div_multiples_vanish(k, d);
    assert(d * k == k * d) by (nonlinear_arith);
    if k * d <= n {
        lemma_div_is_ordered(k * d, n, d);
    }
    if n <= k * d {
        lemma_div_is_ordered(n, k * d, d);
    }
}

/// Rounding toward zero keeps a quotient inside any integer interval that
/// holds the exact ratio.
pub proof fn lemma_trunc_div_bounds(n: int, d: int, lo: int, hi: int)
    requires
        d != 0,
        d > 0 ==> lo * d <= n <= hi * d,
        d < 0 ==> hi * d <= n <= lo * d,
    ensures
        lo <= trunc_div(n, d) <= hi,
{
    let big_n = magnitude(n);
    let big_d = magnitude(d);
    let m = big_n / big_d;
    if (n >= 0) == (d > 0) {
        assert(lo * big_d <= big_n <= hi * big_d) by (nonlinear_arith)
            requires
                d != 0,
                d > 0 ==> lo * d <= n <= hi * d,
                d < 0 ==> hi * d <= n <= lo * d,
                (n >= 0) == (d > 0),
                big_n == if n < 0 { -n } else { n },
                big_d == if d < 0 { -d } else { d },
        ;
        lemma_floor_bounds(big_n, big_d, lo);
        lemma_floor_bounds(big_n, big_d, hi);
    } else {
        assert((-hi) * big_d <= big_n <= (-lo) * big_d) by (nonlinear_arith)
            requires
                d != 0,
                d > 0 ==> lo * d <= n <= hi * d,
                d < 0 ==> hi * d <= n <= lo * d,
                (n >= 0) != (d > 0),
                big_n == if n < 0 { -n } else { n },
                big_d == if d < 0 { -d } else { d },
        ;
        lemma_floor_bounds(big_n, big_d, -hi);
        lemma_floor_bounds(big_n, big_d, -lo);
    }
}

/// Rounding toward zero keeps a quotient inside any integer interval that
/// holds the exact ratio, also where that is known of a common multiple of
/// dividend and divisor only.
pub proof fn lemma_trunc_div_scaled_bounds(n: int, d: int, m: int, lo: int, hi: int)
    requires
        d * m > 0 ==> lo * (d * m) <= n * m <= hi * (d * m),
        d * m < 0 ==> hi * (d * m) <= n * m <= lo * (d * m),
        d * m != 0,
    ensures
        d != 0,
        lo <= trunc_div(n, d) <= hi,
{
    assert(d != 0 && m != 0) by (nonlinear_arith)
        requires
            d * m != 0,
    ;
    assert((d > 0 ==> lo * d <= n <= hi * d) && (d < 0 ==> hi * d <= n <= lo * d))
        by (nonlinear_arith)
        requires
            d * m > 0 ==> lo * (d * m) <= n * m <= hi * (d * m),
            d * m < 0 ==> hi * (d * m) <= n * m <= lo * (d * m),
            d != 0,
            m != 0,
    {
        assert(lo * (d * m) == (lo * d) * m);
        assert(hi * (d * m) == (hi * d) * m);
        if m > 0 {
            if d > 0 {
                assert(d * m > 0);
                assert((n - lo * d) * m >= 0);
                assert((hi * d - n) * m >= 0);
            } else {
                assert(d * m < 0);
                assert((n - hi * d) * m >= 0);
                assert((lo * d - n) * m >= 0);
            }
        } else {
            if d > 0 {
                assert(d * m < 0);
                assert((n - hi * d) * m >= 0);
                assert((lo * d - n) * m >= 0);
            } else {
                assert(d * m > 0);
                assert((n - lo * d) * m >= 0);
                assert((hi * d - n) * m >= 0);
            }
        }
    }
    lemma_trunc_div_bounds(n, d, lo, hi);
}

/// A quotient rounded toward zero does not exceed a bound that is not negative
/// and that the exact ratio does not exceed.
pub proof fn lemma_trunc_div_at_most(n: int, d: int, hi: int)
    requires
        d != 0,
        hi >= 0,
        d > 0 ==> n <= hi * d,
        d < 0 ==> n >= hi * d,
    ensures
        trunc_div(n, d) <= hi,
{
    let big_n = magnitude(n);
    let big_d = magnitude(d);
    lemma_floor_bounds(big_n, big_d, 0);
    if (n >= 0) == (d > 0) {
        assert(big_n <= hi * big_d) by (nonlinear_arith)
            requires
                d != 0,
                d > 0 ==> n <= hi * d,
                d < 0 ==> n >= hi * d,
                (n >= 0) == (d > 0),
                big_n == if n < 0 { -n } else { n },
                big_d == if d < 0 { -d } else { d },
        ;
        lemma_floor_bounds(big_n, big_d, hi);
    }
}

/// A quotient rounded toward zero reaches a bound that is not negative and
/// that the exact ratio reaches.
pub proof fn lemma_trunc_div_at_least(n: int, d: int, lo: int)
    requires
        d != 0,
        lo >= 0,
        d > 0 ==> lo * d <= n,
        d < 0 ==> lo * d >= n,
    ensures
        lo <= trunc_div(n, d),
{
    let big_n = magnitude(n);
    let big_d = magnitude(d);
    assert(lo * big_d <= big_n && ((n >= 0) != (d > 0) ==> lo == 0 && n == 0))
        by (nonlinear_arith)
        requires
            d != 0,
            lo >= 0,
            d > 0 ==> lo * d <= n,
            d < 0 ==> lo * d >= n,
            big_n == if n < 0 { -n } else { n },
            big_d == if d < 0 { -d } else { d },
    ;
    lemma_floor_bounds(big_n, big_d, lo);
}

/// Dividing an exact multiple gives back the other factor.
pub proof fn lemma_trunc_div_exact(q: int, d: int)
    requires
        d != 0,
    ensures
        trunc_div(q * d, d) == q,
{
    assert(q * d <= q * d);
    lemma_trunc_div_bounds(q * d, d, q, q);
}

/// The greatest common divisor divides both of its arguments, and vanishes
/// only when both of them do.
pub proof fn lemma_gcd_divides(a: nat, b: nat)
    ensures
        gcd_of(a, b) == 0 <==> a == 0 && b == 0,
        gcd_of(a, b) > 0 ==> a % gcd_of(a, b) == 0 && b % gcd_of(a, b) == 0,
    decreases b,
{
    if b != 0 {
        let g = gcd_of(b, a % b);
        lemma_gcd_divides(b, a % b);
        assert(g > 0);
        lemma_fundamental_div_mod(a as int, b as int);
        let q = (a / b) as int;
        let r = (a % b) as int;
        let bi = b as int;
        let gi = g as int;
        // b and r are multiples of g, hence so is b * q + r
        lemma_fundamental_div_mod(bi, gi);
        lemma_fundamental_div_mod(r, gi);
        let kb = bi / gi;
        let kr = r / gi;
        assert(a as int == (kb * q + kr) * gi) by (nonlinear_arith)
            requires
                a as int == bi * q + r,
                bi == gi * kb,
                r == gi * kr,
        ;
        lemma_mod_multiples_vanish(kb * q + kr, 0, gi);
        assert((kb * q + kr) * gi == gi * (kb * q + kr)) by (nonlinear_arith);
    }
}

/// Every common divisor of two naturals divides their greatest common divisor.
pub proof fn lemma_gcd_greatest(a: nat, b: nat, d: nat)
    requires
        d > 0,
        a % d == 0,
        b % d == 0,
    ensures
        gcd_of(a, b) % d == 0,
    decreases b,
{
    if b != 0 {
        let q = (a / b) as int;
        let r = (a % b) as int;
        let di = d as int;
        lemma_fundamental_div_mod(a as int, b as int);
        lemma_fundamental_div_mod(a as int, di);
        lemma_fundamental_div_mod(b as int, di);
        let ka = a as int / di;
        let kb = b as int / di;
        // a and b are multiples of d, hence so is a - b * q
        assert(r == (ka - kb * q) * di) by (nonlinear_arith)
            requires
                a as int == (b as int) * q + r,
                a as int == di * ka,
                b as int == di * kb,
        ;
        lemma_mod_multiples_vanish(ka - kb * q, 0, di);
        assert((ka - kb * q) * di == di * (ka - kb * q)) by (nonlinear_arith);
        lemma_gcd_greatest(b, (a % b) as nat, d);
    }
}

/// The quotient of `n` by `d` rounded toward zero.
pub fn trunc_quotient(n: i128, d: i128) -> (q: i128)
    requires
        d != 0,
        n > i128::MIN,
        d > i128::MIN,
    ensures
        q == trunc_div(n as int, d as int),
{
    let big_n: i128 = if n < 0 { -n } else { n };
    let big_d: i128 = if d < 0 { -d } else { d };
    let m: i128 = big_n / big_d;
    proof {
        lemma_floor_bounds(big_n as int, big_d as int, 0);
        assert(m <= big_n) by (nonlinear_arith)
            requires
                m == big_n as int / big_d as int,
                big_n >= 0,
                big_d >= 1,
        ;
    }
    if (n >= 0) == (d > 0) {
        m
    } else {
        -m
    }
}

/// The greatest common divisor of two unsigned integers.
///
/// Calls `gcd::Gcd::gcd` for `u32`. Trusted: that the result is the greatest
/// common divisor of the arguments, with the value zero when both are zero.
#[verifier::external_body]
pub(crate) fn gcd(a: u32, b: u32) -> (g: u32)
    ensures
        g == gcd_of(a as nat, b as nat),
{
    a.gcd(b)
}

} // verus!
