//! Fixed-point arithmetic shared by every stage.
//!
//! A quantity in `[0, 1]` is stored as an integer number of millionths:
//! `SCALE` stands for `1.0`. Multiplication of two fixed-point quantities
//! divides the raw product by `SCALE` with floor rounding; the specification
//! functions state exactly that arithmetic over `int`.

use vstd::arithmetic::div_mod::{
    lemma_div_is_ordered, lemma_div_multiples_vanish, lemma_multiply_divide_le,
};
use vstd::arithmetic::mul::{lemma_mul_inequality, lemma_mul_nonnegative, lemma_mul_upper_bound};
use vstd::arithmetic::power::{lemma_pow_increases, lemma_pow_positive, pow};
use vstd::prelude::*;

verus! {

/// One: the fixed-point representation of 1.0.
pub const SCALE: u64 = 1_000_000;

/// One half: the fixed-point representation of 0.5.
pub const HALF_SCALE: u64 = 500_000;

/// Fixed-point power: `v` (a fixed-point quantity) raised to the integer
/// exponent `n`, with floor rounding after every multiplication.
pub open spec fn spec_fixpow(v: int, n: nat) -> int
    decreases n,
{
    if n == 0 {
        SCALE as int
    } else {
        spec_fixpow(v, (n - 1) as nat) * v / (SCALE as int)
    }
}

/// A nonnegative base keeps every fixed-point power nonnegative.
pub proof fn lemma_fixpow_nonneg(v: int, n: nat)
    requires
        0 <= v,
    ensures
        0 <= spec_fixpow(v, n),
    decreases n,
{
    if n > 0 {
        lemma_fixpow_nonneg(v, (n - 1) as nat);
        lemma_mul_nonnegative(spec_fixpow(v, (n - 1) as nat), v);
    }
}

/// A base of at most `k` whole units keeps the `n`-th fixed-point power at
/// most `k^n` whole units.
pub proof fn lemma_fixpow_upper(v: int, n: nat, k: int)
    requires
        0 <= v,
        1 <= k,
        v <= k * SCALE,
    ensures
        spec_fixpow(v, n) <= pow(k, n) * SCALE,
    decreases n,
{
    if n == 0 {
        assert(pow(k, 0) == 1) by {
            vstd::arithmetic::power::lemma_pow0(k);
        }
    } else {
        let prev = spec_fixpow(v, (n - 1) as nat);
        lemma_fixpow_nonneg(v, (n - 1) as nat);
        lemma_fixpow_upper(v, (n - 1) as nat, k);
        let pk = pow(k, (n - 1) as nat);
        assert(0 <= pk) by {
            lemma_pow_positive(k, (n - 1) as nat);
        }
        // prev * v <= (pk * SCALE) * (k * SCALE)
        lemma_mul_upper_bound(prev, pk * SCALE, v, k * SCALE);
        assert((pk * SCALE) * (k * SCALE) == (pk * k) * SCALE * SCALE) by (nonlinear_arith);
        assert(pow(k, n) == k * pow(k, (n - 1) as nat)) by {
            reveal(pow);
        }
        assert((pk * k) * SCALE * SCALE == (pow(k, n) * SCALE) * SCALE) by (nonlinear_arith)
            requires
                pow(k, n) == k * pk,
        ;
        lemma_div_is_ordered(prev * v, (pow(k, n) * SCALE) * SCALE, SCALE as int);
        lemma_div_multiples_vanish(pow(k, n) * SCALE, SCALE as int);
        assert(SCALE as int * (pow(k, n) * SCALE) == (pow(k, n) * SCALE) * SCALE) by (nonlinear_arith);
    }
}

/// A base of at least one whole unit keeps every positive fixed-point power
/// at least the base itself.
pub proof fn lemma_fixpow_lower(v: int, n: nat)
    requires
        SCALE <= v,
        1 <= n,
    ensures
        v <= spec_fixpow(v, n),
    decreases n,
{
    if n == 1 {
        assert(spec_fixpow(v, 1) == SCALE as int * v / (SCALE as int));
        lemma_div_multiples_vanish(v, SCALE as int);
    } else {
        let prev = spec_fixpow(v, (n - 1) as nat);
        lemma_fixpow_lower(v, (n - 1) as nat);
        lemma_mul_inequality(v, prev, v);
        lemma_mul_inequality(SCALE as int, v, v);
        lemma_div_is_ordered(SCALE as int * v, prev * v, SCALE as int);
        lemma_div_multiples_vanish(v, SCALE as int);
    }
}

/// Executable fixed-point power. The bound of twenty whole units on the base
/// covers every use in the crate and keeps the result within `u64`.
pub fn fixpow(v: u64, n: u32) -> (r: u64)
    requires
        v <= 20 * SCALE,
        n <= 10,
    ensures
        r == spec_fixpow(v as int, n as nat),
        r <= pow(20, n as nat) * SCALE,
{
    proof {
        lemma_pow20_values();
        vstd::arithmetic::power::lemma_pow0(20);
    }
    let mut acc: u64 = SCALE;
    let mut i: u32 = 0;
    while i < n
        invariant
            i <= n,
            n <= 10,
            v <= 20 * SCALE,
            acc == spec_fixpow(v as int, i as nat),
            acc <= pow(20, i as nat) * SCALE,
            pow(20, 10) == 10_240_000_000_000,
        decreases n - i,
    {
        proof {
            lemma_fixpow_nonneg(v as int, i as nat);
            lemma_fixpow_upper(v as int, (i + 1) as nat, 20);
            lemma_pow_increases(20, (i + 1) as nat, 10);
            lemma_mul_inequality(pow(20, (i + 1) as nat), pow(20, 10), SCALE as int);
        }
        let wide: u128 = (acc as u128) * (v as u128) / (SCALE as u128);
        proof {
            assert(spec_fixpow(v as int, (i + 1) as nat) == acc as int * v as int / (SCALE as int));
        }
        acc = wide as u64;
        i = i + 1;
    }
    proof {
        lemma_pow_increases(20, n as nat, 10);
        lemma_mul_inequality(pow(20, n as nat), pow(20, 10), SCALE as int);
    }
    acc
}

/// The concrete value of `20^10`, the largest power bound the crate uses.
pub proof fn lemma_pow20_values()
    ensures
        pow(20, 10) == 10_240_000_000_000,
{
    reveal_with_fuel(pow, 11);
}

/// A zero base gives a zero fixed-point power for every positive exponent.
pub proof fn lemma_fixpow_zero(n: nat)
    requires
        1 <= n,
    ensures
        spec_fixpow(0, n) == 0,
    decreases n,
{
    if n > 1 {
        lemma_fixpow_zero((n - 1) as nat);
    }
}

/// The absolute difference of two nonnegative quantities.
pub open spec fn spec_abs_diff(a: int, b: int) -> int {
    if a >= b {
        a - b
    } else {
        b - a
    }
}

/// `x` bounded above by `cap`.
pub open spec fn spec_min(x: int, cap: int) -> int {
    if x > cap {
        cap
    } else {
        x
    }
}

} // verus!
