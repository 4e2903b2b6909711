//! Heightmap generation.
//!
//! Every cell combines three noise octaves, sharpened by the mountainous
//! exponent, normalized by the configuration's amplitude budget and clamped
//! into `[0, 1]`. Island mode then attenuates cells near the grid border,
//! and an optional overlay blend interpolates towards a previous heightmap
//! of the same dimensions. Cells are mutually independent: the grid is the
//! concatenation of rows, and each row is a pure function of the
//! configuration, the seed, the previous map and the row index.

use crate::config::MapConfig;
use crate::fixed::{
    fixpow, lemma_fixpow_lower, lemma_fixpow_nonneg, lemma_fixpow_upper, spec_fixpow, spec_min,
    HALF_SCALE, SCALE,
};
use crate::noise_field::{
    channel_seed, sample, spec_channel_seed, spec_sample, CHANNEL_BASE, CHANNEL_DETAIL,
    CHANNEL_MID,
};
use vstd::arithmetic::div_mod::{
    lemma_div_is_ordered, lemma_div_multiples_vanish, lemma_fundamental_div_mod_converse,
    lemma_multiply_divide_le,
};
use vstd::arithmetic::mul::{lemma_mul_inequality, lemma_mul_nonnegative, lemma_mul_upper_bound};
use vstd::arithmetic::power::{lemma_pow_increases, pow};
use vstd::prelude::*;

verus! {

/// A well-formed heightmap: every cell is a fixed-point value in `[0, 1]`.
pub open spec fn heightmap_wf(hm: Seq<u64>) -> bool {
    forall|i: int| 0 <= i < hm.len() ==> hm[i] <= SCALE
}

/// The view of an optional borrowed previous heightmap.
pub open spec fn spec_prev_view(p: Option<&Vec<u64>>) -> Option<Seq<u64>> {
    match p {
        Some(v) => Some(v@),
        None => None,
    }
}

/// A well-formed optional previous heightmap.
pub open spec fn spec_prev_wf(p: Option<Seq<u64>>) -> bool {
    match p {
        Some(s) => heightmap_wf(s),
        None => true,
    }
}

/// The island border fraction actually used: clamped to `[0.01, 0.5]`.
pub open spec fn spec_border_clamped(b: u64) -> int {
    if b < 10_000 {
        10_000
    } else if b > 500_000 {
        500_000
    } else {
        b as int
    }
}

/// The island falloff exponent actually used: clamped to `[1, 10]`.
pub open spec fn spec_curve_clamped(c: u32) -> nat {
    if c < 1 {
        1
    } else if c > 10 {
        10
    } else {
        c as nat
    }
}

/// Edge strength along one axis: zero in the interior, rising linearly to
/// one at the outer edge over the border fraction of the axis.
pub open spec fn spec_edge_axis(pos: int, dim: int, border: int) -> int {
    let f = pos * SCALE / dim;
    if f < border {
        (border - f) * SCALE / border
    } else if f > SCALE - border {
        (f - (SCALE - border)) * SCALE / border
    } else {
        0
    }
}

/// The normalization bound: the largest value the unnormalized octave
/// combination can reach, computed once per generation.
pub open spec fn spec_max_amp(c: MapConfig) -> int {
    (spec_fixpow(3 * HALF_SCALE, c.mountainous as nat) - HALF_SCALE) * c.amp_base / (SCALE as int)
        + c.amp_mid + c.amp_detail
}

/// The octave combination at one cell, normalized by `spec_max_amp` and
/// clamped into `[0, 1]`, before island shaping and overlay blending.
pub open spec fn spec_raw_cell(c: MapConfig, seed: u32, x: int, y: int) -> int {
    let base = spec_sample(
        spec_channel_seed(seed, CHANNEL_BASE),
        x as u64,
        y as u64,
        c.scale_base,
    );
    let mid = spec_sample(spec_channel_seed(seed, CHANNEL_MID), x as u64, y as u64, c.scale_mid);
    let det = spec_sample(
        spec_channel_seed(seed, CHANNEL_DETAIL),
        x as u64,
        y as u64,
        c.scale_detail,
    );
    let hb = spec_fixpow(base + HALF_SCALE, c.mountainous as nat);
    let pos = hb * c.amp_base / (SCALE as int) + c.amp_mid * mid / (SCALE as int) + c.amp_detail
        * det / (SCALE as int);
    let neg = HALF_SCALE as int * c.amp_base / (SCALE as int);
    if pos > neg {
        spec_min((pos - neg) * SCALE / spec_max_amp(c), SCALE as int)
    } else {
        0
    }
}

/// The cell after island shaping: attenuated by one minus the edge strength
/// raised to the falloff curve, and never below zero.
pub open spec fn spec_island_cell(c: MapConfig, x: int, y: int, h: int) -> int {
    if !c.island_mode {
        h
    } else {
        let border = spec_border_clamped(c.island_border);
        let ex = spec_edge_axis(x, c.width as int, border);
        let ey = spec_edge_axis(y, c.height as int, border);
        let p = spec_fixpow(ex + ey, spec_curve_clamped(c.island_curve));
        if p >= SCALE {
            0
        } else {
            h * (SCALE - p) / (SCALE as int)
        }
    }
}

/// The overlay blend strength: the configured percentage as a fixed-point
/// fraction, capped at one.
pub open spec fn spec_overlay_strength(c: MapConfig) -> int {
    spec_min(c.overlay as int / 100, SCALE as int)
}

/// Overlay blending applies only below full strength and with a previous
/// map of exactly the current dimensions; otherwise the previous map is
/// ignored entirely.
pub open spec fn spec_overlay_active(c: MapConfig, prev: Option<Seq<u64>>) -> bool {
    &&& spec_overlay_strength(c) < SCALE
    &&& prev is Some
    &&& prev.unwrap().len() == c.width * c.height
}

/// The finished cell: island-shaped elevation, blended towards the previous
/// map when the overlay is active.
pub open spec fn spec_cell(c: MapConfig, seed: u32, prev: Option<Seq<u64>>, x: int, y: int) -> int {
    let h = spec_island_cell(c, x, y, spec_raw_cell(c, seed, x, y));
    if spec_overlay_active(c, prev) {
        let s = spec_overlay_strength(c);
        (h * s + prev.unwrap()[y * c.width + x] * (SCALE - s)) / (SCALE as int)
    } else {
        h
    }
}

/// The whole generated grid, row-major: cell `(x, y)` at index
/// `y * width + x`.
pub open spec fn spec_generate(c: MapConfig, seed: u32, prev: Option<Seq<u64>>) -> Seq<u64> {
    Seq::new(
        (c.width * c.height) as nat,
        |i: int| spec_cell(c, seed, prev, i % (c.width as int), i / (c.width as int)) as u64,
    )
}

/// Edge strength along one axis, in `[0, SCALE]`.
fn edge_axis(pos: u32, dim: u32, border: u64) -> (r: u64)
    requires
        10_000 <= border <= 500_000,
        1 <= dim <= 65536,
        pos < dim,
    ensures
        r == spec_edge_axis(pos as int, dim as int, border as int),
        r <= SCALE,
{
    proof {
        lemma_mul_inequality(pos as int, dim as int, SCALE as int);
        lemma_multiply_divide_le(pos as int * SCALE, dim as int, SCALE as int);
        lemma_mul_nonnegative(pos as int, SCALE as int);
    }
    let f: u64 = (pos as u64) * SCALE / (dim as u64);
    if f < border {
        proof {
            lemma_mul_inequality(border as int - f as int, border as int, SCALE as int);
            lemma_multiply_divide_le(
                (border as int - f as int) * SCALE,
                border as int,
                SCALE as int,
            );
            lemma_mul_nonnegative(border as int - f as int, SCALE as int);
        }
        (border - f) * SCALE / border
    } else if f > SCALE - border {
        proof {
            lemma_mul_inequality(
                f as int - (SCALE - border as int),
                border as int,
                SCALE as int,
            );
            lemma_multiply_divide_le(
                (f as int - (SCALE - border as int)) * SCALE,
                border as int,
                SCALE as int,
            );
            lemma_mul_nonnegative(f as int - (SCALE - border as int), SCALE as int);
        }
        (f - (SCALE - border)) * SCALE / border
    } else {
        0
    }
}

/// The clamped island border fraction.
fn border_clamped(b: u64) -> (r: u64)
    ensures
        r == spec_border_clamped(b),
        10_000 <= r <= 500_000,
{
    if b < 10_000 {
        10_000
    } else if b > 500_000 {
        500_000
    } else {
        b
    }
}

/// The clamped island falloff exponent.
fn curve_clamped(c: u32) -> (r: u32)
    ensures
        r == spec_curve_clamped(c),
        1 <= r <= 10,
{
    if c < 1 {
        1
    } else if c > 10 {
        10
    } else {
        c
    }
}

/// `2^e <= 1024` for every exponent the island curve and the mountainous
/// exponent admit.
proof fn lemma_pow2_small(e: nat)
    requires
        e <= 10,
    ensures
        0 < pow(2, e) <= 1024,
{
    reveal_with_fuel(pow, 11);
    lemma_pow_increases(2, e, 10);
    vstd::arithmetic::power::lemma_pow_positive(2, e);
}

/// The normalization bound, at least one and small enough for every later
/// product to stay in `u64`.
fn max_amp(c: &MapConfig) -> (r: u64)
    requires
        c.wf(),
    ensures
        r == spec_max_amp(*c),
        1 <= r <= 2_000_000_000_000,
{
    let mm: u64 = fixpow(3 * HALF_SCALE, c.mountainous);
    proof {
        lemma_fixpow_lower(3 * HALF_SCALE as int, c.mountainous as nat);
        lemma_fixpow_upper(3 * HALF_SCALE as int, c.mountainous as nat, 2);
        lemma_pow2_small(c.mountainous as nat);
        lemma_mul_inequality(pow(2, c.mountainous as nat), 1024, SCALE as int);
        // mm - HALF_SCALE is at least one whole unit, so the base term is
        // at least amp_base and the bound is positive with any amplitude.
        lemma_mul_inequality(SCALE as int, mm as int - HALF_SCALE as int, c.amp_base as int);
        lemma_div_is_ordered(
            SCALE as int * c.amp_base as int,
            (mm as int - HALF_SCALE as int) * c.amp_base as int,
            SCALE as int,
        );
        lemma_div_multiples_vanish(c.amp_base as int, SCALE as int);
        // mm itself is at most 1024 whole units, which keeps the base term
        // within u64 for every admissible amplitude.
        lemma_mul_inequality(
            mm as int - HALF_SCALE as int,
            1024 * SCALE as int,
            c.amp_base as int,
        );
        lemma_mul_upper_bound(1024 * SCALE as int, 1024 * SCALE as int, c.amp_base as int, 1_000_000_000);
        lemma_div_is_ordered(
            (mm as int - HALF_SCALE as int) * c.amp_base as int,
            1024 * SCALE as int * 1_000_000_000,
            SCALE as int,
        );
        lemma_mul_nonnegative(mm as int - HALF_SCALE as int, c.amp_base as int);
    }
    let t: u64 = (mm - HALF_SCALE) * c.amp_base / SCALE;
    t + c.amp_mid + c.amp_detail
}

/// One normalized, clamped cell of raw elevation.
fn raw_cell(c: &MapConfig, seed: u32, ma: u64, x: u32, y: u32) -> (r: u64)
    requires
        c.wf(),
        ma == spec_max_amp(*c),
        1 <= ma,
        x < c.width,
        y < c.height,
    ensures
        r == spec_raw_cell(*c, seed, x as int, y as int),
        r <= SCALE,
{
    let base = sample(channel_seed(seed, CHANNEL_BASE), x as u64, y as u64, c.scale_base);
    let mid = sample(channel_seed(seed, CHANNEL_MID), x as u64, y as u64, c.scale_mid);
    let det = sample(channel_seed(seed, CHANNEL_DETAIL), x as u64, y as u64, c.scale_detail);
    let hb: u64 = fixpow(base + HALF_SCALE, c.mountainous);
    proof {
        lemma_fixpow_nonneg(base as int + HALF_SCALE, c.mountainous as nat);
        lemma_fixpow_upper(base as int + HALF_SCALE, c.mountainous as nat, 2);
        lemma_pow2_small(c.mountainous as nat);
        lemma_mul_inequality(pow(2, c.mountainous as nat), 1024, SCALE as int);
        lemma_mul_upper_bound(hb as int, 1024 * SCALE as int, c.amp_base as int, 1_000_000_000);
        lemma_mul_upper_bound(c.amp_mid as int, 1_000_000_000, mid as int, SCALE as int);
        lemma_mul_upper_bound(c.amp_detail as int, 1_000_000_000, det as int, SCALE as int);
        lemma_mul_nonnegative(hb as int, c.amp_base as int);
        lemma_mul_nonnegative(c.amp_mid as int, mid as int);
        lemma_mul_nonnegative(c.amp_detail as int, det as int);
        lemma_div_is_ordered(hb as int * c.amp_base as int, 1024 * SCALE as int * 1_000_000_000, SCALE as int);
        lemma_div_is_ordered(c.amp_mid as int * mid as int, 1_000_000_000 * SCALE as int, SCALE as int);
        lemma_div_is_ordered(c.amp_detail as int * det as int, 1_000_000_000 * SCALE as int, SCALE as int);
        lemma_mul_nonnegative(HALF_SCALE as int, c.amp_base as int);
    }
    let pos: u64 = hb * c.amp_base / SCALE + c.amp_mid * mid / SCALE + c.amp_detail * det / SCALE;
    let neg: u64 = HALF_SCALE * c.amp_base / SCALE;
    if pos > neg {
        proof {
            lemma_mul_upper_bound(pos as int - neg as int, 3_000_000_000_000, SCALE as int, SCALE as int);
            lemma_mul_nonnegative(pos as int - neg as int, SCALE as int);
        }
        let scaled: u64 = (pos - neg) * SCALE / ma;
        if scaled > SCALE {
            SCALE
        } else {
            scaled
        }
    } else {
        0
    }
}

/// The cell after island shaping.
fn island_cell(c: &MapConfig, x: u32, y: u32, h: u64) -> (r: u64)
    requires
        c.wf(),
        x < c.width,
        y < c.height,
        h <= SCALE,
    ensures
        r == spec_island_cell(*c, x as int, y as int, h as int),
        r <= SCALE,
{
    if !c.island_mode {
        return h;
    }
    let border = border_clamped(c.island_border);
    let curve = curve_clamped(c.island_curve);
    let ex = edge_axis(x, c.width, border);
    let ey = edge_axis(y, c.height, border);
    let p: u64 = fixpow(ex + ey, curve);
    proof {
        lemma_fixpow_nonneg(ex as int + ey as int, spec_curve_clamped(c.island_curve));
    }
    if p >= SCALE {
        0
    } else {
        proof {
            lemma_mul_inequality(SCALE as int - p as int, SCALE as int, h as int);
            lemma_multiply_divide_le(h as int * (SCALE - p as int), SCALE as int, h as int);
            lemma_mul_nonnegative(h as int, SCALE as int - p as int);
        }
        h * (SCALE - p) / SCALE
    }
}

/// The overlay blend strength in `[0, SCALE]`.
fn overlay_strength(c: &MapConfig) -> (r: u64)
    ensures
        r == spec_overlay_strength(*c),
        r <= SCALE,
{
    let s: u64 = c.overlay / 100;
    if s > SCALE {
        SCALE
    } else {
        s
    }
}

/// Generate one output row. Rows are independent, so callers may compute
/// them in any order or concurrently and concatenate.
#[verifier::rlimit(60)]
pub fn generate_row(config: &MapConfig, seed: u32, previous: Option<&Vec<u64>>, y: u32) -> (row:
    Vec<u64>)
    requires
        config.wf(),
        spec_prev_wf(spec_prev_view(previous)),
        y < config.height,
    ensures
        row@.len() == config.width,
        forall|x: int|
            0 <= x < config.width ==> row@[x] == spec_cell(
                *config,
                seed,
                spec_prev_view(previous),
                x,
                y as int,
            ),
        heightmap_wf(row@),
{
    let ghost prev = spec_prev_view(previous);
    let ma = max_amp(config);
    let strength = overlay_strength(config);
    proof {
        lemma_mul_upper_bound(config.width as int, 65536, config.height as int, 65536);
        lemma_mul_nonnegative(config.width as int, config.height as int);
    }
    let total: u64 = (config.width as u64) * (config.height as u64);
    let active: bool = strength < SCALE && match previous {
        Some(p) => p.len() as u64 == total,
        None => false,
    };
    proof {
        assert(active == spec_overlay_active(*config, prev));
    }
    let mut row: Vec<u64> = Vec::new();
    let mut x: u32 = 0;
    while x < config.width
        invariant
            config.wf(),
            spec_prev_wf(prev),
            prev == spec_prev_view(previous),
            y < config.height,
            ma == spec_max_amp(*config),
            1 <= ma,
            strength == spec_overlay_strength(*config),
            strength <= SCALE,
            total == config.width * config.height,
            active == spec_overlay_active(*config, prev),
            x <= config.width,
            row@.len() == x,
            forall|k: int|
                0 <= k < x ==> row@[k] == spec_cell(*config, seed, prev, k, y as int),
            heightmap_wf(row@),
        decreases config.width - x,
    {
        let raw = raw_cell(config, seed, ma, x, y);
        let shaped = island_cell(config, x, y, raw);
        let cell: u64 = if active {
            match previous {
                Some(p) => {
                    proof {
                        lemma_mul_upper_bound(y as int, 65536, config.width as int, 65536);
                        lemma_mul_nonnegative(y as int, config.width as int);
                    }
                    let i: u64 = (y as u64) * (config.width as u64) + (x as u64);
                    proof {
                        assert(i < total && total <= 0x1_0000_0000) by (nonlinear_arith)
                            requires
                                y < config.height,
                                x < config.width,
                                config.width <= 65536,
                                config.height <= 65536,
                                i == y * config.width + x,
                                total == config.width * config.height,
                        ;
                    }
                    let pv: u64 = p[i as usize];
                    proof {
                        assert(pv <= SCALE);
                        assert(shaped * strength + pv * (SCALE - strength)
                            <= 1_000_000_000_000) by (nonlinear_arith)
                            requires
                                shaped <= SCALE,
                                strength <= SCALE,
                                pv <= SCALE,
                        ;
                        lemma_multiply_divide_le(
                            shaped as int * strength as int + pv as int * (SCALE
                                - strength as int),
                            SCALE as int,
                            SCALE as int,
                        );
                        lemma_mul_nonnegative(shaped as int, strength as int);
                        lemma_mul_nonnegative(pv as int, SCALE as int - strength as int);
                    }
                    (shaped * strength + pv * (SCALE - strength)) / SCALE
                },
                None => {
                    proof {
                        assert(false);
                    }
                    shaped
                },
            }
        } else {
            shaped
        };
        proof {
            assert(cell == spec_cell(*config, seed, prev, x as int, y as int));
        }
        row.push(cell);
        x = x + 1;
    }
    row
}

/// Generate a full heightmap.
///
/// The result has exactly `width * height` cells, cell `(x, y)` at index
/// `y * width + x`, and every cell is the stated pure function of the
/// configuration, the seed and the previous map — so generation is
/// deterministic — and lies in `[0, SCALE]`.
pub fn generate_map(config: &MapConfig, seed: u32, previous: Option<&Vec<u64>>) -> (heightmap:
    Vec<u64>)
    requires
        config.wf(),
        spec_prev_wf(spec_prev_view(previous)),
    ensures
        heightmap@ == spec_generate(*config, seed, spec_prev_view(previous)),
        heightmap@.len() == config.width * config.height,
        heightmap_wf(heightmap@),
{
    let ghost prev = spec_prev_view(previous);
    let mut out: Vec<u64> = Vec::new();
    let mut y: u32 = 0;
    proof {
        lemma_mul_nonnegative(config.width as int, config.height as int);
    }
    while y < config.height
        invariant
            config.wf(),
            spec_prev_wf(prev),
            prev == spec_prev_view(previous),
            y <= config.height,
            out@.len() == y * config.width,
            forall|i: int|
                0 <= i < out@.len() ==> out@[i] == spec_cell(
                    *config,
                    seed,
                    prev,
                    i % (config.width as int),
                    i / (config.width as int),
                ),
            heightmap_wf(out@),
        decreases config.height - y,
    {
        let mut row = generate_row(config, seed, previous, y);
        proof {
            assert forall|i: int|
                y * config.width <= i < y * config.width + config.width implies #[trigger] (i % (
            config.width as int)) == i - y * config.width && i / (config.width as int)
                == y as int by {
                lemma_fundamental_div_mod_converse(
                    i,
                    config.width as int,
                    y as int,
                    i - y * config.width,
                );
            }
        }
        out.append(&mut row);
        y = y + 1;
        proof {
            assert(out@.len() == y * config.width) by (nonlinear_arith)
                requires
                    out@.len() == (y - 1) * config.width + config.width,
            ;
        }
    }
    proof {
        assert(out@.len() == config.width * config.height) by (nonlinear_arith)
            requires
                out@.len() == config.height * config.width,
        ;
        assert(out@ =~= spec_generate(*config, seed, prev));
    }
    out
}

/// Generation is deterministic: two grids generated from identical
/// configuration, seed and previous map are bit-identical.
pub proof fn lemma_generate_deterministic(
    c: MapConfig,
    seed: u32,
    prev: Option<Seq<u64>>,
    a: Seq<u64>,
    b: Seq<u64>,
)
    requires
        a == spec_generate(c, seed, prev),
        b == spec_generate(c, seed, prev),
    ensures
        a == b,
{
}

/// With island mode on and even dimensions, the cell exactly at the grid
/// center has edge strength zero on both axes, so the border falloff never
/// attenuates it.
pub proof fn lemma_island_center_untouched(c: MapConfig, h: int)
    requires
        c.wf(),
        c.width % 2 == 0,
        c.height % 2 == 0,
        0 <= h <= SCALE,
    ensures
        spec_edge_axis(c.width as int / 2, c.width as int, spec_border_clamped(c.island_border))
            == 0,
        spec_edge_axis(c.height as int / 2, c.height as int, spec_border_clamped(c.island_border))
            == 0,
        spec_island_cell(c, c.width as int / 2, c.height as int / 2, h) == h,
{
    lemma_edge_axis_center(c.width as int, spec_border_clamped(c.island_border));
    lemma_edge_axis_center(c.height as int, spec_border_clamped(c.island_border));
    if c.island_mode {
        let curve = spec_curve_clamped(c.island_curve);
        crate::fixed::lemma_fixpow_zero(curve);
        assert(h * SCALE == SCALE as int * h) by (nonlinear_arith);
        lemma_div_multiples_vanish(h, SCALE as int);
    }
}

/// The cell midway along an even axis sits exactly at fraction one half,
/// inside the interior band for every admissible border.
proof fn lemma_edge_axis_center(dim: int, border: int)
    requires
        2 <= dim <= 65536,
        dim % 2 == 0,
        10_000 <= border <= 500_000,
    ensures
        spec_edge_axis(dim / 2, dim, border) == 0,
{
    let half = dim / 2;
    assert(half * SCALE == dim * 500_000) by (nonlinear_arith)
        requires
            dim == 2 * half,
    ;
    lemma_div_multiples_vanish(500_000, dim);
}

/// With island mode on, a cell on the leading border row or column has the
/// maximal edge strength of one on that axis.
pub proof fn lemma_island_border_maximal(c: MapConfig)
    requires
        c.wf(),
    ensures
        spec_edge_axis(0, c.width as int, spec_border_clamped(c.island_border)) == SCALE,
        spec_edge_axis(0, c.height as int, spec_border_clamped(c.island_border)) == SCALE,
{
    let border = spec_border_clamped(c.island_border);
    vstd::arithmetic::div_mod::lemma_div_of0(c.width as int);
    vstd::arithmetic::div_mod::lemma_div_of0(c.height as int);
    lemma_div_multiples_vanish(SCALE as int, border);
}

/// At full overlay strength the generated map ignores any supplied
/// previous map: the result is bit-identical to generating with none.
pub proof fn lemma_overlay_full(c: MapConfig, seed: u32, prev: Option<Seq<u64>>)
    requires
        c.wf(),
        c.overlay >= 100 * SCALE,
    ensures
        spec_generate(c, seed, prev) == spec_generate(c, seed, None),
{
    lemma_div_is_ordered(100 * SCALE as int, c.overlay as int, 100);
    lemma_div_multiples_vanish(SCALE as int, 100);
    assert(100 * SCALE as int == SCALE as int * 100) by (nonlinear_arith);
    assert(spec_overlay_strength(c) == SCALE);
    assert(spec_generate(c, seed, prev) =~= spec_generate(c, seed, None));
}

/// At zero overlay strength with a previous map of matching dimensions the
/// generated map reproduces the previous map exactly, cell for cell.
pub proof fn lemma_overlay_zero(c: MapConfig, seed: u32, p: Seq<u64>)
    requires
        c.wf(),
        c.overlay == 0,
        p.len() == c.width * c.height,
        heightmap_wf(p),
    ensures
        spec_generate(c, seed, Some(p)) == p,
{
    let g = spec_generate(c, seed, Some(p));
    assert(spec_overlay_strength(c) == 0);
    assert(spec_overlay_active(c, Some(p)));
    assert forall|i: int| 0 <= i < p.len() implies g[i] == p[i] by {
        let w = c.width as int;
        let x = i % w;
        let y = i / w;
        vstd::arithmetic::div_mod::lemma_fundamental_div_mod(i, w);
        vstd::arithmetic::div_mod::lemma_remainder_lower(i, w);
        vstd::arithmetic::div_mod::lemma_remainder_upper(i, w);
        let h = spec_island_cell(c, x, y, spec_raw_cell(c, seed, x, y));
        assert(h * 0 == 0) by (nonlinear_arith);
        assert(p[y * w + x] * (SCALE - 0) == SCALE as int * p[i]) by (nonlinear_arith)
            requires
                y * w + x == i,
        ;
        lemma_div_multiples_vanish(p[i] as int, SCALE as int);
    }
    assert(g =~= p);
}

} // verus!
