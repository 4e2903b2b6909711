//! Deterministic two-dimensional coherent noise.
//!
//! A sample point is placed inside a lattice cell whose step is `scale`
//! grid cells. The four lattice corners are hashed to fixed-point values in
//! `[0, 2]`, interpolated with the smoothstep fade, and the result is halved
//! into `[0, 1]` — the remap of a raw lattice amplitude in `[-1, 1]` by
//! `(raw + 1) / 2`. Sampling is a pure function of seed, coordinates and
//! scale, so regeneration with the same inputs is bit-identical.
//!
//! Logical channels that share one base seed (the elevation octaves and the
//! temperature and humidity fields) must stay decorrelated, so each channel
//! derives its own seed by adding a fixed, non-overlapping offset to the
//! base seed.

use crate::fixed::SCALE;
use vstd::arithmetic::div_mod::{lemma_div_is_ordered, lemma_multiply_divide_le};
use vstd::arithmetic::mul::{lemma_mul_inequality, lemma_mul_is_distributive_add_other_way,
    lemma_mul_nonnegative, lemma_mul_upper_bound};
use vstd::prelude::*;

verus! {

/// Channel offset of the base elevation octave.
pub const CHANNEL_BASE: u32 = 0;

/// Channel offset of the mid elevation octave.
pub const CHANNEL_MID: u32 = 1000;

/// Channel offset of the detail elevation octave.
pub const CHANNEL_DETAIL: u32 = 2000;

/// Channel offset of the temperature field.
pub const CHANNEL_TEMPERATURE: u32 = 3000;

/// Channel offset of the humidity field.
pub const CHANNEL_HUMIDITY: u32 = 4000;

/// Number of distinct lattice corner values: they span `[0, 2 * SCALE]`.
pub const LATTICE_SPAN: u64 = 2_000_001;

/// Product of two machine words, truncated to 64 bits.
pub open spec fn spec_mulmod64(a: u64, b: u64) -> u64 {
    ((a * b) % 0x1_0000_0000_0000_0000) as u64
}

fn mulmod64(a: u64, b: u64) -> (r: u64)
    ensures
        r == spec_mulmod64(a, b),
{
    proof {
        lemma_mul_upper_bound(a as int, u64::MAX as int, b as int, u64::MAX as int);
        lemma_mul_nonnegative(a as int, b as int);
    }
    let wide: u128 = (a as u128) * (b as u128);
    (wide % 0x1_0000_0000_0000_0000u128) as u64
}

/// One round of 64-bit avalanche mixing.
pub open spec fn spec_mix64(z: u64) -> u64 {
    let a = z ^ (z >> 33);
    let b = spec_mulmod64(a, 0xFF51_AFD7_ED55_8CCD);
    let c = b ^ (b >> 33);
    let d = spec_mulmod64(c, 0xC4CE_B9FE_1A85_EC53);
    d ^ (d >> 33)
}

fn mix64(z: u64) -> (r: u64)
    ensures
        r == spec_mix64(z),
{
    let a = z ^ (z >> 33);
    let b = mulmod64(a, 0xFF51_AFD7_ED55_8CCD);
    let c = b ^ (b >> 33);
    let d = mulmod64(c, 0xC4CE_B9FE_1A85_EC53);
    d ^ (d >> 33)
}

/// The fixed-point value in `[0, 2 * SCALE]` hashed onto a lattice corner.
pub open spec fn spec_corner(seed: u32, xi: u64, yi: u64) -> u64 {
    let hx = spec_mix64((seed as u64) ^ spec_mulmod64(xi, 0x9E37_79B9_7F4A_7C15));
    let hxy = spec_mix64(hx ^ spec_mulmod64(yi, 0xC2B2_AE3D_27D4_EB4F));
    hxy % LATTICE_SPAN
}

fn corner(seed: u32, xi: u64, yi: u64) -> (r: u64)
    ensures
        r == spec_corner(seed, xi, yi),
        r <= 2 * SCALE,
{
    let hx = mix64((seed as u64) ^ mulmod64(xi, 0x9E37_79B9_7F4A_7C15));
    let hxy = mix64(hx ^ mulmod64(yi, 0xC2B2_AE3D_27D4_EB4F));
    hxy % LATTICE_SPAN
}

/// The smoothstep fade `f^2 * (3 - 2 * f)` in fixed point; the divisor is
/// `SCALE * SCALE`, cancelling the two raw multiplications.
pub open spec fn spec_fade(f: int) -> int {
    f * f * (3 * SCALE - 2 * f) / 1_000_000_000_000
}

fn fade(f: u64) -> (r: u64)
    requires
        f <= SCALE,
    ensures
        r == spec_fade(f as int),
        r <= SCALE,
{
    proof {
        lemma_mul_upper_bound(f as int, SCALE as int, f as int, SCALE as int);
    }
    let t1: u64 = f * f;
    let t2: u64 = 3 * SCALE - 2 * f;
    proof {
        let fi = f as int;
        let s = SCALE as int;
        lemma_mul_upper_bound(t1 as int, 1_000_000_000_000, t2 as int, 3_000_000);
        assert(s * s * s - fi * fi * (3 * s - 2 * fi) == (s - fi) * (s - fi) * (s + 2 * fi))
            by (nonlinear_arith);
        assert((s - fi) * (s - fi) * (s + 2 * fi) >= 0) by (nonlinear_arith)
            requires
                0 <= fi <= s,
        ;
        assert(s * s * s == 1_000_000_000_000_000_000) by (nonlinear_arith)
            requires
                s == 1_000_000,
        ;
        lemma_div_is_ordered(fi * fi * (3 * s - 2 * fi), s * s * s, 1_000_000_000_000);
    }
    let t3: u64 = t1 * t2;
    t3 / 1_000_000_000_000
}

/// Linear interpolation from `a` to `b` by the fixed-point weight `f`.
pub open spec fn spec_lerp(a: int, b: int, f: int) -> int {
    (a * (SCALE - f) + b * f) / (SCALE as int)
}

fn lerp(a: u64, b: u64, f: u64) -> (r: u64)
    requires
        a <= 2 * SCALE,
        b <= 2 * SCALE,
        f <= SCALE,
    ensures
        r == spec_lerp(a as int, b as int, f as int),
        r <= 2 * SCALE,
{
    proof {
        lemma_mul_inequality(a as int, 2 * SCALE as int, SCALE - f as int);
        lemma_mul_inequality(b as int, 2 * SCALE as int, f as int);
        lemma_mul_is_distributive_add_other_way(2 * SCALE as int, SCALE - f as int, f as int);
        lemma_multiply_divide_le(
            a as int * (SCALE - f as int) + b as int * (f as int),
            SCALE as int,
            2 * SCALE as int,
        );
        lemma_mul_nonnegative(a as int, SCALE - f as int);
        lemma_mul_nonnegative(b as int, f as int);
    }
    let t: u64 = a * (SCALE - f) + b * f;
    t / SCALE
}

/// The noise value at grid cell `(x, y)` for a channel seed and a lattice
/// step of `scale` cells: corner hashes interpolated with the fade of the
/// in-cell fractions, halved into `[0, SCALE]`. Opaque: callers treat a
/// sample as an atom; only `sample` itself reasons through the hashing.
#[verifier::opaque]
pub open spec fn spec_sample(seed: u32, x: u64, y: u64, scale: u64) -> int {
    let xi = x as int / scale as int;
    let yi = y as int / scale as int;
    let fx = (x as int % scale as int) * SCALE / (scale as int);
    let fy = (y as int % scale as int) * SCALE / (scale as int);
    let fu = spec_fade(fx);
    let fv = spec_fade(fy);
    let c00 = spec_corner(seed, (xi) as u64, (yi) as u64);
    let c10 = spec_corner(seed, (xi + 1) as u64, (yi) as u64);
    let c01 = spec_corner(seed, (xi) as u64, (yi + 1) as u64);
    let c11 = spec_corner(seed, (xi + 1) as u64, (yi + 1) as u64);
    let a = spec_lerp(c00 as int, c10 as int, fu);
    let b = spec_lerp(c01 as int, c11 as int, fu);
    spec_lerp(a, b, fv) / 2
}

/// Sample one noise channel. Deterministic: the result is a function of
/// the four arguments alone, and always lies in `[0, SCALE]`.
pub fn sample(seed: u32, x: u64, y: u64, scale: u64) -> (r: u64)
    requires
        1 <= scale <= 1_000_000_000,
        x <= u32::MAX,
        y <= u32::MAX,
    ensures
        r == spec_sample(seed, x, y, scale),
        r <= SCALE,
{
    proof {
        reveal(spec_sample);
    }
    let xi: u64 = x / scale;
    let yi: u64 = y / scale;
    let fx: u64 = in_cell_fraction(x, scale);
    let fy: u64 = in_cell_fraction(y, scale);
    let fu = fade(fx);
    let fv = fade(fy);
    let c00 = corner(seed, xi, yi);
    let c10 = corner(seed, xi + 1, yi);
    let c01 = corner(seed, xi, yi + 1);
    let c11 = corner(seed, xi + 1, yi + 1);
    let a = lerp(c00, c10, fu);
    let b = lerp(c01, c11, fu);
    let m = lerp(a, b, fv);
    m / 2
}

/// The fixed-point fraction of the way from one lattice line to the next.
fn in_cell_fraction(x: u64, scale: u64) -> (r: u64)
    requires
        1 <= scale <= 1_000_000_000,
        x <= u32::MAX,
    ensures
        r == (x as int % scale as int) * SCALE / (scale as int),
        r <= SCALE,
{
    let rem: u64 = x % scale;
    proof {
        lemma_mul_inequality(rem as int, scale as int, SCALE as int);
        lemma_multiply_divide_le(rem as int * SCALE, scale as int, SCALE as int);
        lemma_mul_nonnegative(rem as int, SCALE as int);
    }
    (rem * SCALE) / scale
}

/// The seed of a logical noise channel: the base seed plus the channel's
/// fixed offset, wrapping at the 32-bit boundary.
pub open spec fn spec_channel_seed(base: u32, offset: u32) -> u32 {
    ((base + offset) % 0x1_0000_0000) as u32
}

/// Derive a channel seed from the shared base seed.
pub fn channel_seed(base: u32, offset: u32) -> (r: u32)
    ensures
        r == spec_channel_seed(base, offset),
{
    (((base as u64) + (offset as u64)) % 0x1_0000_0000) as u32
}

} // verus!
