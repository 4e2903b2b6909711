//! Biome classification.
//!
//! Temperature and humidity come from two independent noise channels,
//! remapped into the configured bands around the normalized base values.
//! Slope is the mean absolute elevation difference to the four axis
//! neighbors of an interior cell — boundary cells have slope zero — scaled
//! by the one-cell-is-one-meter convention and squashed into `[0, 1)` by
//! `s / (s + 1)`, which crosses one half exactly where the arctangent
//! normalization does. Each cell is then classified by a fixed decision
//! list evaluated top to bottom; the slope rule is active.

use crate::config::{BiomeConfig, MapConfig};
use crate::fixed::{spec_abs_diff, spec_min, SCALE};
use crate::noise_field::{
    channel_seed, sample, spec_channel_seed, spec_sample, CHANNEL_HUMIDITY, CHANNEL_TEMPERATURE,
};
use vstd::arithmetic::div_mod::{lemma_fundamental_div_mod_converse, lemma_multiply_divide_le};
use vstd::arithmetic::mul::{lemma_mul_inequality, lemma_mul_nonnegative, lemma_mul_upper_bound};
use vstd::prelude::*;

verus! {

/// The ten biome labels a cell can take.
#[derive(Clone, Copy, Debug, PartialEq, Eq, Structural)]
pub enum Biome {
    Ocean,
    Beach,
    Plains,
    Forest,
    Mountain,
    Snow,
    Desert,
    Swamp,
    Tundra,
    Jungle,
}

/// The display color of each biome: a pure, total function from label to
/// an RGB triple.
pub open spec fn spec_biome_color(biome: Biome) -> (u8, u8, u8) {
    match biome {
        Biome::Ocean => (0, 0, 100),
        Biome::Beach => (238, 214, 175),
        Biome::Plains => (50, 205, 50),
        Biome::Forest => (34, 139, 34),
        Biome::Mountain => (139, 137, 137),
        Biome::Snow => (255, 250, 250),
        Biome::Desert => (255, 228, 181),
        Biome::Swamp => (0, 100, 0),
        Biome::Tundra => (255, 228, 196),
        Biome::Jungle => (0, 128, 0),
    }
}

/// The display color of a biome.
pub fn get_biome_color(biome: Biome) -> (c: (u8, u8, u8))
    ensures
        c == spec_biome_color(biome),
{
    match biome {
        Biome::Ocean => (0, 0, 100),
        Biome::Beach => (238, 214, 175),
        Biome::Plains => (50, 205, 50),
        Biome::Forest => (34, 139, 34),
        Biome::Mountain => (139, 137, 137),
        Biome::Snow => (255, 250, 250),
        Biome::Desert => (255, 228, 181),
        Biome::Swamp => (0, 100, 0),
        Biome::Tundra => (255, 228, 196),
        Biome::Jungle => (0, 128, 0),
    }
}

/// The classification decision list, evaluated top to bottom, first match
/// wins. Elevation bands are multiples of the sea level (0.8, 1.0, 1.2,
/// 1.5); the comparisons below state them exactly over integers.
pub open spec fn spec_choose_biome(
    temp: int,
    humidity: int,
    elev: int,
    sea_level: int,
    slope: int,
) -> Biome {
    if elev * 10 < sea_level * 8 {
        Biome::Ocean
    } else if elev < sea_level {
        Biome::Beach
    } else if humidity > 700_000 && temp > 700_000 {
        if elev > 800_000 {
            Biome::Mountain
        } else {
            Biome::Jungle
        }
    } else if temp < 200_000 {
        Biome::Snow
    } else if slope > 500_000 {
        Biome::Mountain
    } else if elev * 10 < sea_level * 12 {
        if humidity > 700_000 {
            if temp > 500_000 {
                Biome::Jungle
            } else {
                Biome::Swamp
            }
        } else if humidity > 400_000 {
            if temp > 500_000 {
                Biome::Forest
            } else {
                Biome::Plains
            }
        } else {
            if temp > 700_000 {
                Biome::Desert
            } else {
                Biome::Plains
            }
        }
    } else if elev * 2 < sea_level * 3 {
        if humidity > 500_000 {
            if temp > 500_000 {
                Biome::Mountain
            } else {
                Biome::Tundra
            }
        } else {
            if temp > 700_000 {
                Biome::Desert
            } else {
                Biome::Forest
            }
        }
    } else {
        if temp < 300_000 {
            Biome::Snow
        } else if temp < 500_000 {
            Biome::Mountain
        } else if temp < 700_000 {
            Biome::Forest
        } else {
            Biome::Desert
        }
    }
}

/// Classify one cell from temperature, humidity, elevation, sea level and
/// slope. Total: defined for every input, including elevations beyond one
/// whole unit as a degenerate refinement can produce.
pub fn choose_biome(temp: i64, humidity: i64, elev: u64, sea_level: u64, slope: u64) -> (b: Biome)
    ensures
        b == spec_choose_biome(temp as int, humidity as int, elev as int, sea_level as int, slope as int),
{
    let e = elev as u128;
    let s = sea_level as u128;
    if e * 10 < s * 8 {
        Biome::Ocean
    } else if elev < sea_level {
        Biome::Beach
    } else if humidity > 700_000 && temp > 700_000 {
        if elev > 800_000 {
            Biome::Mountain
        } else {
            Biome::Jungle
        }
    } else if temp < 200_000 {
        Biome::Snow
    } else if slope > 500_000 {
        Biome::Mountain
    } else if e * 10 < s * 12 {
        if humidity > 700_000 {
            if temp > 500_000 {
                Biome::Jungle
            } else {
                Biome::Swamp
            }
        } else if humidity > 400_000 {
            if temp > 500_000 {
                Biome::Forest
            } else {
                Biome::Plains
            }
        } else {
            if temp > 700_000 {
                Biome::Desert
            } else {
                Biome::Plains
            }
        }
    } else if e * 2 < s * 3 {
        if humidity > 500_000 {
            if temp > 500_000 {
                Biome::Mountain
            } else {
                Biome::Tundra
            }
        } else {
            if temp > 700_000 {
                Biome::Desert
            } else {
                Biome::Forest
            }
        }
    } else {
        if temp < 300_000 {
            Biome::Snow
        } else if temp < 500_000 {
            Biome::Mountain
        } else if temp < 700_000 {
            Biome::Forest
        } else {
            Biome::Desert
        }
    }
}

/// The classifier is total: whatever the five inputs, the decision list
/// yields one of the ten labels and nothing else.
pub proof fn lemma_choose_biome_total(
    temp: int,
    humidity: int,
    elev: int,
    sea_level: int,
    slope: int,
)
    ensures
        ({
            let b = spec_choose_biome(temp, humidity, elev, sea_level, slope);
            ||| b == Biome::Ocean
            ||| b == Biome::Beach
            ||| b == Biome::Plains
            ||| b == Biome::Forest
            ||| b == Biome::Mountain
            ||| b == Biome::Snow
            ||| b == Biome::Desert
            ||| b == Biome::Swamp
            ||| b == Biome::Tundra
            ||| b == Biome::Jungle
        }),
{
}

/// The normalized average temperature: degrees shifted by ten and divided
/// by fifty, clamped into `[0, 1]`.
pub open spec fn spec_avg_temp(bc: BiomeConfig) -> int {
    if bc.base_temperature + 10 * SCALE <= 0 {
        0
    } else {
        spec_min((bc.base_temperature + 10 * SCALE) / 50, SCALE as int)
    }
}

/// A percentage normalized into `[0, 1]`.
pub open spec fn spec_percent_clamped(v: int) -> int {
    if v <= 0 {
        0
    } else {
        spec_min(v / 100, SCALE as int)
    }
}

/// The temperature at one cell: the temperature noise channel remapped
/// into the band around the configured average.
pub open spec fn spec_temp_at(bc: BiomeConfig, seed: u32, x: int, y: int) -> int {
    let avg = spec_avg_temp(bc);
    let va = spec_percent_clamped(bc.temperature_variation as int);
    let n = spec_sample(spec_channel_seed(seed, CHANNEL_TEMPERATURE), x as u64, y as u64, bc.scale);
    avg - va + n * (2 * va) / (SCALE as int)
}

/// The humidity at one cell: the humidity noise channel remapped into the
/// band around the configured average.
pub open spec fn spec_hum_at(bc: BiomeConfig, seed: u32, x: int, y: int) -> int {
    let avg = spec_percent_clamped(bc.base_humidity as int);
    let va = spec_percent_clamped(bc.humidity_variation as int);
    let n = spec_sample(spec_channel_seed(seed, CHANNEL_HUMIDITY), x as u64, y as u64, bc.scale);
    avg - va + n * (2 * va) / (SCALE as int)
}

/// The normalized average temperature, executable.
fn avg_temp(bc: &BiomeConfig) -> (r: u64)
    requires
        bc.wf(),
    ensures
        r == spec_avg_temp(*bc),
        r <= SCALE,
{
    if bc.base_temperature <= -10_000_000 {
        0
    } else {
        let u: u64 = ((bc.base_temperature + 10_000_000) as u64) / 50;
        if u > SCALE {
            SCALE
        } else {
            u
        }
    }
}

/// A percentage normalized into `[0, 1]`, executable.
fn percent_clamped(v: i64) -> (r: u64)
    requires
        -1000 * (SCALE as int) <= v <= 1000 * SCALE,
    ensures
        r == spec_percent_clamped(v as int),
        r <= SCALE,
{
    if v <= 0 {
        0
    } else {
        let u: u64 = (v as u64) / 100;
        if u > SCALE {
            SCALE
        } else {
            u
        }
    }
}

/// One remapped climate sample: the channel noise stretched over the band
/// `[avg - va, avg + va]`.
fn climate_at(chan: u32, scale: u64, avg: u64, va: u64, x: u32, y: u32) -> (t: i64)
    requires
        1 <= scale <= 1_000_000_000,
        avg <= SCALE,
        va <= SCALE,
    ensures
        t == avg - va + spec_sample(chan, x as u64, y as u64, scale) * (2 * va) / (SCALE as int),
        -(SCALE as int) <= t <= 2 * SCALE,
{
    let n = sample(chan, x as u64, y as u64, scale);
    proof {
        lemma_mul_inequality(n as int, SCALE as int, 2 * va as int);
        lemma_multiply_divide_le(n as int * (2 * va as int), SCALE as int, 2 * va as int);
        lemma_mul_nonnegative(n as int, 2 * va as int);
    }
    let u: u64 = n * (2 * va) / SCALE;
    avg as i64 - va as i64 + u as i64
}

/// The slope steepness at one cell: zero on the grid boundary; for an
/// interior cell, the mean absolute elevation difference to the four axis
/// neighbors, scaled by a thousand meters per unit, squashed by
/// `s / (s + 1)`.
pub open spec fn spec_slope_at(hm: Seq<u64>, w: int, h: int, x: int, y: int) -> int {
    if 0 < x && x < w - 1 && 0 < y && y < h - 1 {
        let c = hm[y * w + x] as int;
        let l = hm[y * w + x - 1] as int;
        let r = hm[y * w + x + 1] as int;
        let u = hm[(y - 1) * w + x] as int;
        let d = hm[(y + 1) * w + x] as int;
        let mean = (spec_abs_diff(l, c) + spec_abs_diff(r, c) + spec_abs_diff(u, c)
            + spec_abs_diff(d, c)) / 4;
        let s = mean * 1000;
        s * SCALE / (s + SCALE)
    } else {
        0
    }
}

/// The absolute difference of two cells.
fn abs_diff(a: u64, b: u64) -> (r: u64)
    ensures
        r == spec_abs_diff(a as int, b as int),
{
    if a >= b {
        a - b
    } else {
        b - a
    }
}

/// The slope steepness at one cell, executable.
fn slope_at(heightmap: &Vec<u64>, width: u32, height: u32, x: u32, y: u32) -> (r: u64)
    requires
        heightmap@.len() == width * height,
        width <= 65536,
        height <= 65536,
        x < width,
        y < height,
    ensures
        r == spec_slope_at(heightmap@, width as int, height as int, x as int, y as int),
        r <= SCALE,
{
    if x > 0 && y > 0 && x + 1 < width && y + 1 < height {
        proof {
            lemma_mul_upper_bound(y as int, 65536, width as int, 65536);
            lemma_mul_nonnegative(y as int, width as int);
        }
        let i: u64 = (y as u64) * (width as u64) + (x as u64);
        proof {
            assert(width <= i && i + width < width * height && i + 1 < width * height && width
                * height <= 0x1_0000_0000 && i - width == (y - 1) * width + x && i + width == (y
                + 1) * width + x) by (nonlinear_arith)
                requires
                    i == y * width + x,
                    0 < x,
                    x + 1 < width,
                    0 < y,
                    y + 1 < height,
                    width <= 65536,
                    height <= 65536,
            ;
        }
        let c: u64 = heightmap[i as usize];
        let l: u64 = heightmap[(i - 1) as usize];
        let r: u64 = heightmap[(i + 1) as usize];
        let u: u64 = heightmap[(i - (width as u64)) as usize];
        let d: u64 = heightmap[(i + (width as u64)) as usize];
        let dl = abs_diff(l, c);
        let dr = abs_diff(r, c);
        let du = abs_diff(u, c);
        let dd = abs_diff(d, c);
        let mean: u128 = ((dl as u128) + (dr as u128) + (du as u128) + (dd as u128)) / 4;
        let s: u128 = mean * 1000;
        proof {
            lemma_mul_inequality(s as int, s as int + SCALE, SCALE as int);
            lemma_multiply_divide_le(s as int * SCALE, s as int + SCALE, SCALE as int);
            lemma_mul_nonnegative(s as int, SCALE as int);
        }
        let q: u128 = s * (SCALE as u128) / (s + (SCALE as u128));
        q as u64
    } else {
        0
    }
}

/// The biome of the cell at `(x, y)`.
pub open spec fn spec_biome_at(
    mc: MapConfig,
    bc: BiomeConfig,
    hm: Seq<u64>,
    seed: u32,
    x: int,
    y: int,
) -> Biome {
    spec_choose_biome(
        spec_temp_at(bc, seed, x, y),
        spec_hum_at(bc, seed, x, y),
        hm[y * mc.width + x] as int,
        mc.sea_level as int,
        spec_slope_at(hm, mc.width as int, mc.height as int, x, y),
    )
}

/// The whole biome grid, row-major and index-aligned with the heightmap.
pub open spec fn spec_biome_grid(
    mc: MapConfig,
    bc: BiomeConfig,
    hm: Seq<u64>,
    seed: u32,
) -> Seq<Biome> {
    Seq::new(
        (mc.width * mc.height) as nat,
        |i: int| spec_biome_at(mc, bc, hm, seed, i % (mc.width as int), i / (mc.width as int)),
    )
}

/// Classify one output row. Rows are independent, so callers may compute
/// them in any order or concurrently and concatenate.
#[verifier::rlimit(60)]
pub fn biome_row(
    map_config: &MapConfig,
    biome_config: &BiomeConfig,
    heightmap: &Vec<u64>,
    seed: u32,
    y: u32,
) -> (row: Vec<Biome>)
    requires
        map_config.wf(),
        biome_config.wf(),
        heightmap@.len() == map_config.width * map_config.height,
        y < map_config.height,
    ensures
        row@.len() == map_config.width,
        forall|x: int|
            0 <= x < map_config.width ==> row@[x] == spec_biome_at(
                *map_config,
                *biome_config,
                heightmap@,
                seed,
                x,
                y as int,
            ),
{
    let avg_t = avg_temp(biome_config);
    let va_t = percent_clamped(biome_config.temperature_variation);
    let avg_h = percent_clamped(biome_config.base_humidity);
    let va_h = percent_clamped(biome_config.humidity_variation);
    let chan_t = channel_seed(seed, CHANNEL_TEMPERATURE);
    let chan_h = channel_seed(seed, CHANNEL_HUMIDITY);
    let mut row: Vec<Biome> = Vec::new();
    let mut x: u32 = 0;
    while x < map_config.width
        invariant
            map_config.wf(),
            biome_config.wf(),
            heightmap@.len() == map_config.width * map_config.height,
            y < map_config.height,
            avg_t == spec_avg_temp(*biome_config),
            avg_t <= SCALE,
            va_t == spec_percent_clamped(biome_config.temperature_variation as int),
            va_t <= SCALE,
            avg_h == spec_percent_clamped(biome_config.base_humidity as int),
            avg_h <= SCALE,
            va_h == spec_percent_clamped(biome_config.humidity_variation as int),
            va_h <= SCALE,
            chan_t == spec_channel_seed(seed, CHANNEL_TEMPERATURE),
            chan_h == spec_channel_seed(seed, CHANNEL_HUMIDITY),
            x <= map_config.width,
            row@.len() == x,
            forall|k: int|
                0 <= k < x ==> row@[k] == spec_biome_at(
                    *map_config,
                    *biome_config,
                    heightmap@,
                    seed,
                    k,
                    y as int,
                ),
        decreases map_config.width - x,
    {
        let temp = climate_at(chan_t, biome_config.scale, avg_t, va_t, x, y);
        let hum = climate_at(chan_h, biome_config.scale, avg_h, va_h, x, y);
        let slope = slope_at(heightmap, map_config.width, map_config.height, x, y);
        proof {
            assert(y * map_config.width + x < map_config.width * map_config.height
                && map_config.width * map_config.height <= 0x1_0000_0000) by (nonlinear_arith)
                requires
                    y < map_config.height,
                    x < map_config.width,
                    map_config.width <= 65536,
                    map_config.height <= 65536,
            ;
        }
        let i: u64 = (y as u64) * (map_config.width as u64) + (x as u64);
        let elev: u64 = heightmap[i as usize];
        let b = choose_biome(temp, hum, elev, map_config.sea_level, slope);
        row.push(b);
        x = x + 1;
    }
    row
}

/// Classify a whole heightmap into a biome grid of the same dimensions,
/// cell `(x, y)` at index `y * width + x`. The result is the stated pure
/// function of the two configurations, the heightmap and the seed, so
/// classification is deterministic.
pub fn generate_biome_map(
    map_config: &MapConfig,
    biome_config: &BiomeConfig,
    heightmap: &Vec<u64>,
    seed: u32,
) -> (grid: Vec<Biome>)
    requires
        map_config.wf(),
        biome_config.wf(),
        heightmap@.len() == map_config.width * map_config.height,
    ensures
        grid@ == spec_biome_grid(*map_config, *biome_config, heightmap@, seed),
        grid@.len() == map_config.width * map_config.height,
{
    let mut out: Vec<Biome> = Vec::new();
    let mut y: u32 = 0;
    proof {
        lemma_mul_nonnegative(map_config.width as int, map_config.height as int);
    }
    while y < map_config.height
        invariant
            map_config.wf(),
            biome_config.wf(),
            heightmap@.len() == map_config.width * map_config.height,
            y <= map_config.height,
            out@.len() == y * map_config.width,
            forall|i: int|
                0 <= i < out@.len() ==> out@[i] == spec_biome_at(
                    *map_config,
                    *biome_config,
                    heightmap@,
                    seed,
                    i % (map_config.width as int),
                    i / (map_config.width as int),
                ),
        decreases map_config.height - y,
    {
        let mut row = biome_row(map_config, biome_config, heightmap, seed, y);
        proof {
            assert forall|i: int|
                y * map_config.width <= i < y * map_config.width + map_config.width implies #[trigger] (
            i % (map_config.width as int)) == i - y * map_config.width && i / (
            map_config.width as int) == y as int by {
                lemma_fundamental_div_mod_converse(
                    i,
                    map_config.width as int,
                    y as int,
                    i - y * map_config.width,
                );
            }
        }
        out.append(&mut row);
        y = y + 1;
        proof {
            assert(out@.len() == y * map_config.width) by (nonlinear_arith)
                requires
                    out@.len() == (y - 1) * map_config.width + map_config.width,
            ;
        }
    }
    proof {
        assert(out@.len() == map_config.width * map_config.height) by (nonlinear_arith)
            requires
                out@.len() == map_config.height * map_config.width,
        ;
        assert(out@ =~= spec_biome_grid(*map_config, *biome_config, heightmap@, seed));
    }
    out
}

} // verus!
