//! Procedural terrain synthesis.
//!
//! The crate turns a generation configuration and a seed into a normalized
//! elevation grid, refines such a grid with an offset/coefficient/exponent
//! transform, and classifies every cell into a biome from elevation, slope,
//! temperature and humidity. All quantities in `[0, 1]` are carried as
//! fixed-point integers in units of one millionth (`fixed::SCALE`), so every
//! stage is exact integer arithmetic with stated rounding.

pub mod biomes;
pub mod config;
pub mod export;
pub mod fixed;
pub mod noise_field;
pub mod preview;
pub mod refiner;
pub mod seed;
pub mod terrain;
pub mod water;
