//! Configuration for the three synthesis stages.
//!
//! Every quantity that the floating-point convention would keep in `[0, 1]`
//! is a fixed-point integer in millionths (`fixed::SCALE` is `1.0`). The
//! overlay strength is in millionths of a percent, so `100.0` percent is
//! `100 * SCALE`. Temperatures are in millionths of a degree Celsius and
//! humidities in millionths of a percent; the classifier normalizes both.

use crate::fixed::SCALE;
use vstd::prelude::*;

verus! {

/// Parameters of heightmap generation.
pub struct MapConfig {
    /// Grid width in cells.
    pub width: u32,
    /// Grid height in cells.
    pub height: u32,
    /// Cells per lattice step of the base noise octave.
    pub scale_base: u64,
    /// Amplitude of the base octave, fixed point.
    pub amp_base: u64,
    /// Cells per lattice step of the mid octave.
    pub scale_mid: u64,
    /// Amplitude of the mid octave, fixed point.
    pub amp_mid: u64,
    /// Cells per lattice step of the detail octave.
    pub scale_detail: u64,
    /// Amplitude of the detail octave, fixed point.
    pub amp_detail: u64,
    /// Configured seed, used when `use_random_seed` is off.
    pub seed: u32,
    /// Draw a fresh seed for each generation instead of `seed`.
    pub use_random_seed: bool,
    /// Attenuate elevation towards the grid borders.
    pub island_mode: bool,
    /// Border fraction of the island falloff, fixed point in `[0, 1]`;
    /// clamped to `[0.01, 0.5]` at use.
    pub island_border: u64,
    /// Exponent of the island falloff curve; clamped to `[1, 10]` at use.
    pub island_curve: u32,
    /// Sea level threshold, fixed point in `[0, 1]`.
    pub sea_level: u64,
    /// Exponent sharpening the base octave into mountains.
    pub mountainous: u32,
    /// Overlay blend strength in millionths of a percent; `100.0` percent
    /// keeps the freshly generated map.
    pub overlay: u64,
}

impl MapConfig {
    /// Bounds under which heightmap generation is defined: a nonempty grid,
    /// positive noise scales, a bounded and not everywhere-zero amplitude
    /// budget, and a sea level within `[0, 1]`.
    pub open spec fn wf(self) -> bool {
        &&& 1 <= self.width <= 65536
        &&& 1 <= self.height <= 65536
        &&& 1 <= self.scale_base <= 1_000_000_000
        &&& 1 <= self.scale_mid <= 1_000_000_000
        &&& 1 <= self.scale_detail <= 1_000_000_000
        &&& self.amp_base <= 1_000_000_000
        &&& self.amp_mid <= 1_000_000_000
        &&& self.amp_detail <= 1_000_000_000
        &&& self.amp_base + self.amp_mid + self.amp_detail >= 1
        &&& 1 <= self.mountainous <= 10
        &&& self.island_border <= SCALE
        &&& self.sea_level <= SCALE
    }
}

/// The default map: a 512-cell square island with three octaves.
pub open spec fn spec_default_map_config() -> MapConfig {
    MapConfig {
        width: 512,
        height: 512,
        scale_base: 400,
        amp_base: 1_000_000,
        scale_mid: 100,
        amp_mid: 500_000,
        scale_detail: 25,
        amp_detail: 150_000,
        seed: 12345,
        use_random_seed: true,
        island_mode: true,
        island_border: 100_000,
        island_curve: 2,
        sea_level: 400_000,
        mountainous: 1,
        overlay: 100_000_000,
    }
}

impl Default for MapConfig {
    fn default() -> (c: Self)
        ensures
            c == spec_default_map_config(),
            c.wf(),
    {
        MapConfig {
            width: 512,
            height: 512,
            scale_base: 400,
            amp_base: 1_000_000,
            scale_mid: 100,
            amp_mid: 500_000,
            scale_detail: 25,
            amp_detail: 150_000,
            seed: 12345,
            use_random_seed: true,
            island_mode: true,
            island_border: 100_000,
            island_curve: 2,
            sea_level: 400_000,
            mountainous: 1,
            overlay: 100_000_000,
        }
    }
}

/// Parameters of the refinement transform.
pub struct RefinerConfig {
    /// Added to every cell before scaling, fixed point in `[-1, 1]`.
    pub height_offset: i64,
    /// Multiplies every offset cell, fixed point in `[0, 10]`.
    pub height_coeff: u64,
    /// Integer exponent applied after offset and scaling, in `[0, 10]`.
    pub height_exponent: u32,
    /// Reserved: smoothing strength, not consumed by the transform.
    pub smoothness: u64,
    /// Reserved: remapping curve control points, not consumed.
    pub curve_points: Option<Vec<(u64, u64)>>,
    /// Reserved: sculpting overlay, not consumed.
    pub paint_map_overlay: Option<Vec<u64>>,
}

impl RefinerConfig {
    /// Bounds under which the transform is defined and free of overflow.
    pub open spec fn wf(self) -> bool {
        &&& -(SCALE as int) <= self.height_offset <= SCALE
        &&& self.height_coeff <= 10 * SCALE
        &&& self.height_exponent <= 10
    }
}

/// The default refinement: the identity transform.
pub open spec fn spec_default_refiner_config() -> RefinerConfig {
    RefinerConfig {
        height_offset: 0,
        height_coeff: 1_000_000,
        height_exponent: 1,
        smoothness: 0,
        curve_points: None,
        paint_map_overlay: None,
    }
}

impl Default for RefinerConfig {
    fn default() -> (c: Self)
        ensures
            c == spec_default_refiner_config(),
            c.wf(),
    {
        RefinerConfig {
            height_offset: 0,
            height_coeff: 1_000_000,
            height_exponent: 1,
            smoothness: 0,
            curve_points: None,
            paint_map_overlay: None,
        }
    }
}

/// Parameters of biome classification.
pub struct BiomeConfig {
    /// Base temperature in millionths of a degree Celsius.
    pub base_temperature: i64,
    /// Base humidity in millionths of a percent.
    pub base_humidity: i64,
    /// Temperature swing around the base, millionths of a degree.
    pub temperature_variation: i64,
    /// Humidity swing around the base, millionths of a percent.
    pub humidity_variation: i64,
    /// Reserved: blend factor between adjacent biomes, not consumed.
    pub biome_blend_factor: u64,
    /// Cells per lattice step of the temperature and humidity noise.
    pub scale: u64,
    /// Configured seed, used when `use_random_seed` is off.
    pub seed: u32,
    /// Draw a fresh seed for each classification instead of `seed`.
    pub use_random_seed: bool,
}

impl BiomeConfig {
    /// Bounds under which classification is defined and free of overflow.
    pub open spec fn wf(self) -> bool {
        &&& -1000 * (SCALE as int) <= self.base_temperature <= 1000 * SCALE
        &&& -1000 * (SCALE as int) <= self.base_humidity <= 1000 * SCALE
        &&& -1000 * (SCALE as int) <= self.temperature_variation <= 1000 * SCALE
        &&& -1000 * (SCALE as int) <= self.humidity_variation <= 1000 * SCALE
        &&& 1 <= self.scale <= 1_000_000_000
    }
}

/// The default climate: 15 degrees and 50 percent humidity, both varying
/// by 20 units, over a very wide noise field.
pub open spec fn spec_default_biome_config() -> BiomeConfig {
    BiomeConfig {
        base_temperature: 15_000_000,
        base_humidity: 50_000_000,
        temperature_variation: 20_000_000,
        humidity_variation: 20_000_000,
        biome_blend_factor: 500_000,
        scale: 10_000,
        seed: 12345,
        use_random_seed: true,
    }
}

impl Default for BiomeConfig {
    fn default() -> (c: Self)
        ensures
            c == spec_default_biome_config(),
            c.wf(),
    {
        BiomeConfig {
            base_temperature: 15_000_000,
            base_humidity: 50_000_000,
            temperature_variation: 20_000_000,
            humidity_variation: 20_000_000,
            biome_blend_factor: 500_000,
            scale: 10_000,
            seed: 12345,
            use_random_seed: true,
        }
    }
}

/// Declared contract for a future water-body synthesis stage. No algorithm
/// in this crate consumes it; it is carried so that callers can edit and
/// persist the parameters alongside the other stages.
pub struct WaterConfig {
    /// Configured seed, used when `use_random_seed` is off.
    pub seed: u32,
    /// Draw a fresh seed for each run instead of `seed`.
    pub use_random_seed: bool,
    /// Number of lake placement attempts.
    pub lake_attempts: u32,
    /// Minimum number of lakes to keep.
    pub min_lake_n: u32,
    /// Maximum number of lakes to keep.
    pub max_lake_n: u32,
    /// Lowest elevation at which a lake may form, fixed point.
    pub min_elevation: u64,
    /// Highest elevation at which a lake may form, fixed point.
    pub max_elevation: u64,
    /// Smallest admissible lake capacity, fixed point.
    pub min_capacity: u64,
    /// Largest admissible lake capacity, fixed point.
    pub max_capacity: u64,
    /// Smallest admissible lake depth, fixed point.
    pub min_depth: u64,
    /// Evaporation rate, fixed point percent.
    pub base_evaporation: u64,
    /// Inflow rate, fixed point percent.
    pub base_inflow: u64,
    /// Drainage rate, fixed point percent.
    pub base_drainage: u64,
    /// Weight of biome influence on water placement, fixed point percent.
    pub biome_influence: u64,
    /// Strength of terrain carving under lakes, fixed point percent.
    pub lake_terrain_modification: u64,
    /// Number of rivers to trace.
    pub river_count: u32,
    /// River width, fixed point percent.
    pub river_width: u64,
    /// River momentum, fixed point percent.
    pub river_momentum: u64,
    /// River direction variation, fixed point percent.
    pub river_direction_variation: u64,
    /// River speed, fixed point percent.
    pub river_speed: u64,
    /// River spread, fixed point percent.
    pub river_spread: u64,
    /// River depth, fixed point percent.
    pub river_depth: u64,
}

/// The default water contract values.
pub open spec fn spec_default_water_config() -> WaterConfig {
    WaterConfig {
        seed: 32345,
        use_random_seed: true,
        lake_attempts: 100,
        min_lake_n: 0,
        max_lake_n: 100,
        min_elevation: 0,
        max_elevation: 1_000_000,
        min_capacity: 10_000_000,
        max_capacity: 1_000_000_000_000,
        min_depth: 1_000_000,
        base_evaporation: 50_000_000,
        base_inflow: 50_000_000,
        base_drainage: 50_000_000,
        biome_influence: 50_000_000,
        lake_terrain_modification: 10_000_000,
        river_count: 10,
        river_width: 50_000_000,
        river_momentum: 50_000_000,
        river_direction_variation: 10_000_000,
        river_speed: 50_000_000,
        river_spread: 50_000_000,
        river_depth: 50_000_000,
    }
}

impl Default for WaterConfig {
    fn default() -> (c: Self)
        ensures
            c == spec_default_water_config(),
    {
        WaterConfig {
            seed: 32345,
            use_random_seed: true,
            lake_attempts: 100,
            min_lake_n: 0,
            max_lake_n: 100,
            min_elevation: 0,
            max_elevation: 1_000_000,
            min_capacity: 10_000_000,
            max_capacity: 1_000_000_000_000,
            min_depth: 1_000_000,
            base_evaporation: 50_000_000,
            base_inflow: 50_000_000,
            base_drainage: 50_000_000,
            biome_influence: 50_000_000,
            lake_terrain_modification: 10_000_000,
            river_count: 10,
            river_width: 50_000_000,
            river_momentum: 50_000_000,
            river_direction_variation: 10_000_000,
            river_speed: 50_000_000,
            river_spread: 50_000_000,
            river_depth: 50_000_000,
        }
    }
}

} // verus!
