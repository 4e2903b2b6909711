//! Preview coloring of elevation values.

use crate::fixed::SCALE;
use vstd::prelude::*;

verus! {

/// The preview color of an elevation: deep water below six tenths of the
/// sea level, shallow water below it, then grass, dirt, rock and snow
/// bands at fixed elevations.
pub open spec fn spec_color_for_height(h: int, sea_level: int) -> (u8, u8, u8) {
    if h * 10 < sea_level * 6 {
        (0, 0, 100)
    } else if h < sea_level {
        (64, 164, 223)
    } else if h < 500_000 {
        (34, 139, 34)
    } else if h < 650_000 {
        (160, 82, 45)
    } else if h < 850_000 {
        (139, 137, 137)
    } else {
        (255, 250, 250)
    }
}

/// The preview color of an elevation. Total: defined for every elevation,
/// including values beyond one whole unit.
pub fn get_color_for_height(h: u64, sea_level: u64) -> (c: (u8, u8, u8))
    ensures
        c == spec_color_for_height(h as int, sea_level as int),
{
    if (h as u128) * 10 < (sea_level as u128) * 6 {
        (0, 0, 100)
    } else if h < sea_level {
        (64, 164, 223)
    } else if h < 500_000 {
        (34, 139, 34)
    } else if h < 650_000 {
        (160, 82, 45)
    } else if h < 850_000 {
        (139, 137, 137)
    } else {
        (255, 250, 250)
    }
}

} // verus!
