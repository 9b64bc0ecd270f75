//! The numeric bridge.
//!
//! The host's canonical number type is a double-precision float, whose
//! 53-bit significand represents every integer of magnitude at most
//! 2^53 exactly and rounds larger integers to the nearest multiple of
//! a power-of-two scale (ties to even). The model captures exactly
//! that rounding on unsigned integers, so the known precision boundary
//! is stated, not hidden.

use vstd::prelude::*;
use vstd::arithmetic::div_mod::{lemma_fundamental_div_mod, lemma_div_denominator};

verus! {

/// 2^53: the bound below which every integer is an exact double.
pub const EXACT_DOUBLE_BOUND: u64 = 0x20000000000000;

/// The rounding scale of `n`: the smallest power of two `d` with
/// `n / d` inside the 53-bit significand range.
pub open spec fn spec_double_scale(n: nat) -> nat
    decreases n,
{
    if n < EXACT_DOUBLE_BOUND as nat {
        1
    } else {
        2 * spec_double_scale(n / 2)
    }
}

/// The integer-valued double nearest to `n`: `n` rounded to a multiple
/// of its scale, ties to the even multiple.
pub open spec fn spec_round_to_double(n: nat) -> nat {
    let d = spec_double_scale(n);
    let q = n / d;
    let rem = n % d;
    if 2 * rem < d {
        q * d
    } else if 2 * rem > d {
        (q + 1) * d
    } else if q % 2 == 0 {
        q * d
    } else {
        (q + 1) * d
    }
}

proof fn lemma_scale_props(n: nat)
    ensures
        spec_double_scale(n) >= 1,
        n / spec_double_scale(n) < EXACT_DOUBLE_BOUND as nat,
        spec_double_scale(n) > 1 ==> spec_double_scale(n) % 2 == 0
            && n / (spec_double_scale(n) / 2) >= EXACT_DOUBLE_BOUND as nat,
    decreases n,
{
    let b = EXACT_DOUBLE_BOUND as nat;
    if n < b {
    } else {
        let d2 = spec_double_scale(n / 2);
        lemma_scale_props(n / 2);
        lemma_div_denominator(n as int, 2, d2 as int);
        assert(n / (2 * d2) == (n / 2) / d2);
        if d2 == 1 {
            assert(n / 1nat == n) by (nonlinear_arith);
        } else {
            lemma_div_denominator(n as int, 2, (d2 / 2) as int);
            assert(2 * (d2 / 2) == d2);
            assert(n / d2 == (n / 2) / (d2 / 2));
        }
    }
}

/// Integers up to 2^53 round to themselves: the exact range of the
/// double-precision bridge.
pub proof fn lemma_round_to_double_exact(n: nat)
    requires
        n <= EXACT_DOUBLE_BOUND as nat,
    ensures
        spec_round_to_double(n) == n,
{
    let b = EXACT_DOUBLE_BOUND as nat;
    if n < b {
        assert(spec_double_scale(n) == 1);
        assert(n / 1 == n) by (nonlinear_arith);
        assert(n % 1 == 0) by (nonlinear_arith);
        assert(n * 1 == n) by (nonlinear_arith);
    } else {
        assert(n == b);
        assert(n / 2 < b);
        assert(spec_double_scale(n / 2) == 1);
        assert(spec_double_scale(n) == 2);
        assert(n % 2 == 0);
        assert(2 * (n % 2) < 2);
        assert((n / 2) * 2 == n);
    }
}

/// The precision boundary, stated: rounding moves `n` by at most half
/// its scale, and that half-scale is bounded by `n` divided by 2^53.
pub proof fn lemma_round_to_double_bound(n: nat)
    ensures
        n <= spec_round_to_double(n) + spec_double_scale(n) / 2,
        spec_round_to_double(n) <= n + spec_double_scale(n) / 2,
        (spec_double_scale(n) / 2) * (EXACT_DOUBLE_BOUND as nat) <= n,
{
    let b = EXACT_DOUBLE_BOUND as nat;
    let d = spec_double_scale(n);
    let q = n / d;
    let rem = n % d;
    lemma_scale_props(n);
    lemma_fundamental_div_mod(n as int, d as int);
    assert(n == q * d + rem);
    if d == 1 {
        assert(rem == 0);
        assert(spec_round_to_double(n) == q * d);
    } else {
        assert(d % 2 == 0);
        let h = d / 2;
        assert(d == 2 * h);
        if 2 * rem < d {
            assert(rem <= h);
            assert(spec_round_to_double(n) == q * d);
        } else if 2 * rem > d {
            assert(d - rem <= h);
            assert(spec_round_to_double(n) == (q + 1) * d);
            assert((q + 1) * d == q * d + d) by (nonlinear_arith);
        } else {
            assert(rem == h);
            if q % 2 == 0 {
                assert(spec_round_to_double(n) == q * d);
            } else {
                assert(spec_round_to_double(n) == (q + 1) * d);
                assert((q + 1) * d == q * d + d) by (nonlinear_arith);
            }
        }
        // minimality of the scale bounds the half-scale by n / 2^53
        let ni: int = n as int;
        let hi: int = h as int;
        let qh: int = ni / hi;
        assert(qh >= b);
        lemma_fundamental_div_mod(ni, hi);
        assert(ni == hi * qh + ni % hi);
        assert(ni % hi >= 0);
        assert(hi * qh >= hi * (b as int)) by (nonlinear_arith)
            requires qh >= b as int, hi >= 1;
        assert(hi * (b as int) <= ni);
    }
}

/// The signed rounding of the numeric bridge: rounding commutes with
/// the sign, since a double carries sign and magnitude separately.
pub open spec fn spec_round_i64_to_double(v: i64) -> int {
    if v >= 0 {
        spec_round_to_double(v as nat) as int
    } else {
        -(spec_round_to_double((-(v as int)) as nat) as int)
    }
}

/// Signed integers within the exact range of the double-precision
/// bridge round to themselves.
pub proof fn lemma_round_i64_exact(v: i64)
    requires
        -(EXACT_DOUBLE_BOUND as int) <= v as int <= EXACT_DOUBLE_BOUND as int,
    ensures
        spec_round_i64_to_double(v) == v as int,
{
    if v >= 0 {
        lemma_round_to_double_exact(v as nat);
    } else {
        lemma_round_to_double_exact((-(v as int)) as nat);
    }
}

/// Rounds `n` to the nearest integer-valued double, ties to even.
///
/// The result can exceed `u64::MAX` (the largest inputs round up to
/// 2^64), hence the wider return type.
pub fn round_to_double(n: u64) -> (r: u128)
    ensures
        r == spec_round_to_double(n as nat),
        n <= EXACT_DOUBLE_BOUND ==> r == n,
        r < 0x20000000000000000u128,
{
    proof {
        lemma_scale_props(n as nat);
        if n <= EXACT_DOUBLE_BOUND {
            lemma_round_to_double_exact(n as nat);
        }
    }
    if n < EXACT_DOUBLE_BOUND {
        proof {
            lemma_round_to_double_exact(n as nat);
        }
        return n as u128;
    }
    let mut d: u64 = 1;
    let mut m: u64 = n;
    proof {
        assert(n as nat / 1nat == n as nat) by (nonlinear_arith);
    }
    while m >= EXACT_DOUBLE_BOUND
        invariant
            1 <= d,
            n >= EXACT_DOUBLE_BOUND,
            m == n as nat / d as nat,
            spec_double_scale(n as nat) == d as nat * spec_double_scale(m as nat),
        decreases m,
    {
        proof {
            // m = n / d >= 2^53 bounds d below 2^11, so doubling fits
            lemma_fundamental_div_mod(n as int, d as int);
            assert(n as int == d as int * (n as nat / d as nat) + n as int % d as int);
            assert(d as int * m as int >= d as int * EXACT_DOUBLE_BOUND as int) by (nonlinear_arith)
                requires m as int >= EXACT_DOUBLE_BOUND as int, d as int >= 1;
            assert(d as int * EXACT_DOUBLE_BOUND as int <= n as int);
            assert(d <= 0x800) by (nonlinear_arith)
                requires d as int * (EXACT_DOUBLE_BOUND as int) <= n as int, n < 0x10000000000000000, d >= 1;
            // dividing the quotient by two composes into one division
            lemma_div_denominator(n as int, d as int, 2);
            assert((n as nat / d as nat) / 2 == n as nat / (d as nat * 2));
            // unfold the scale of m once
            assert(spec_double_scale(m as nat) == 2 * spec_double_scale(m as nat / 2));
            assert(d as nat * (2 * spec_double_scale(m as nat / 2))
                == (d as nat * 2) * spec_double_scale(m as nat / 2)) by (nonlinear_arith);
            // the quotient shrinks, so the loop terminates
            assert(m / 2 < m);
        }
        m = m / 2;
        d = d * 2;
    }
    proof {
        assert(spec_double_scale(m as nat) == 1);
        assert(d as nat * 1 == d as nat) by (nonlinear_arith);
        assert(spec_double_scale(n as nat) == d as nat);
        lemma_fundamental_div_mod(n as int, d as int);
    }
    let q: u64 = m;
    let rem: u64 = n % d;
    let wide_q: u128 = q as u128;
    let wide_d: u128 = d as u128;
    proof {
        // q < 2^53 and d <= 2^12 keep every product below 2^65
        lemma_scale_props(n as nat);
        assert(q < EXACT_DOUBLE_BOUND);
        if d > 1 {
            let h: int = d as int / 2;
            assert(h >= 1);
            assert(n as int / h >= EXACT_DOUBLE_BOUND as int);
            lemma_fundamental_div_mod(n as int, h);
            assert(n as int == h * (n as int / h) + n as int % h);
            assert(h * (n as int / h) >= h * (EXACT_DOUBLE_BOUND as int)) by (nonlinear_arith)
                requires n as int / h >= EXACT_DOUBLE_BOUND as int, h >= 1;
            assert(h * (EXACT_DOUBLE_BOUND as int) <= n as int);
            assert(h <= 0x7ff) by (nonlinear_arith)
                requires h * (EXACT_DOUBLE_BOUND as int) <= n as int, n < 0x10000000000000000, h >= 1;
            assert(d <= 0xfff);
        }
        assert((q as int + 1) * d as int <= EXACT_DOUBLE_BOUND as int * d as int) by (nonlinear_arith)
            requires q as int + 1 <= EXACT_DOUBLE_BOUND as int, d as int >= 1;
        assert(EXACT_DOUBLE_BOUND as int * d as int <= EXACT_DOUBLE_BOUND as int * 0x1000)
            by (nonlinear_arith)
            requires 1 <= d as int <= 0x1000;
    }
    if 2 * (rem as u128) < wide_d {
        wide_q * wide_d
    } else if 2 * (rem as u128) > wide_d {
        (wide_q + 1) * wide_d
    } else if q % 2 == 0 {
        wide_q * wide_d
    } else {
        (wide_q + 1) * wide_d
    }
}

} // verus!
