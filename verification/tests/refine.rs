use mapgen::config::{MapConfig, RefinerConfig};
use mapgen::refiner::refine_heightmap;

fn dims(width: u32, height: u32) -> MapConfig {
    let mut c = MapConfig::default();
    c.width = width;
    c.height = height;
    c
}

fn identity() -> RefinerConfig {
    RefinerConfig::default()
}

#[test]
fn identity_refinement_keeps_a_full_range_map() {
    let c = dims(2, 2);
    let hm: Vec<u64> = vec![0, 250_000, 1_000_000, 700_000];
    let out = refine_heightmap(&hm, &identity(), &c);
    assert_eq!(out, hm);
}

#[test]
fn identity_refinement_keeps_a_flat_map_flat() {
    let c = dims(2, 2);
    let hm: Vec<u64> = vec![300_000; 4];
    let out = refine_heightmap(&hm, &identity(), &c);
    assert_eq!(out, hm);
}

#[test]
fn renormalization_stretches_a_narrow_map() {
    // A map that does not span [0, 1] is stretched onto it, so the
    // identity parameters do not keep it unchanged.
    let c = dims(2, 1);
    let hm: Vec<u64> = vec![200_000, 400_000];
    let out = refine_heightmap(&hm, &identity(), &c);
    assert_eq!(out, vec![0, 1_000_000]);
}

#[test]
fn offset_coefficient_and_exponent_transform_cells() {
    // offset -0.5, coefficient 2.0, exponent 2:
    //   0.25 -> max(0.25 - 0.5, 0) * 2 = 0        -> 0^2 = 0
    //   0.75 -> (0.75 - 0.5) * 2     = 0.5        -> 0.5^2 = 0.25
    // then renormalization stretches [0, 0.25] onto [0, 1].
    let c = dims(2, 1);
    let rc = RefinerConfig {
        height_offset: -500_000,
        height_coeff: 2_000_000,
        height_exponent: 2,
        ..RefinerConfig::default()
    };
    let hm: Vec<u64> = vec![250_000, 750_000];
    let out = refine_heightmap(&hm, &rc, &c);
    assert_eq!(out, vec![0, 1_000_000]);
}

#[test]
fn degenerate_flat_transform_is_left_unnormalized() {
    // offset 1.0 and coefficient 10.0 push every cell to 15.0; the flat
    // result skips renormalization and keeps values beyond one unit.
    let c = dims(2, 2);
    let rc = RefinerConfig {
        height_offset: 1_000_000,
        height_coeff: 10_000_000,
        height_exponent: 1,
        ..RefinerConfig::default()
    };
    let hm: Vec<u64> = vec![500_000; 4];
    let out = refine_heightmap(&hm, &rc, &c);
    assert_eq!(out, vec![15_000_000; 4]);
}

#[test]
fn zero_exponent_gives_a_flat_unit_map() {
    let c = dims(2, 1);
    let rc = RefinerConfig {
        height_exponent: 0,
        ..RefinerConfig::default()
    };
    let hm: Vec<u64> = vec![100_000, 900_000];
    let out = refine_heightmap(&hm, &rc, &c);
    assert_eq!(out, vec![1_000_000, 1_000_000]);
}
