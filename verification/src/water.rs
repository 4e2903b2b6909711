//! Water-map coloring.
//!
//! The water synthesis stage itself is only a declared contract (see
//! `config::WaterConfig`); what the crate provides is the color mapping
//! that a preview applies to a water intensity grid.

use crate::fixed::{spec_min, SCALE};
use vstd::arithmetic::div_mod::lemma_multiply_divide_le;
use vstd::arithmetic::mul::{lemma_mul_inequality, lemma_mul_nonnegative};
use vstd::prelude::*;

verus! {

/// The preview color of a water intensity: blue rises and green falls with
/// the intensity, both clamped to the color range.
pub open spec fn spec_color_for_water(value: int) -> (u8, u8, u8) {
    let blue = spec_min(value * 255 / (SCALE as int), 255);
    let green = if value >= SCALE {
        0
    } else {
        (SCALE - value) * 255 / (SCALE as int)
    };
    (blue as u8, green as u8, 255)
}

/// The preview color of a water intensity. Total: defined for every value,
/// clamping intensities beyond one whole unit.
pub fn get_color_for_water(value: u64) -> (c: (u8, u8, u8))
    ensures
        c == spec_color_for_water(value as int),
{
    let wide: u128 = (value as u128) * 255 / (SCALE as u128);
    let blue: u8 = if wide > 255 {
        255
    } else {
        wide as u8
    };
    let green: u8 = if value >= SCALE {
        0
    } else {
        proof {
            lemma_mul_inequality(SCALE as int - value as int, SCALE as int, 255);
            lemma_multiply_divide_le((SCALE as int - value as int) * 255, SCALE as int, 255);
            lemma_mul_nonnegative(SCALE as int - value as int, 255);
        }
        ((SCALE - value) * 255 / SCALE) as u8
    };
    (blue, green, 255)
}

} // verus!
