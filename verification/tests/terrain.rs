use mapgen::config::MapConfig;
use mapgen::fixed::SCALE;
use mapgen::noise_field::sample;
use mapgen::terrain::{generate_map, generate_row};

fn small_config() -> MapConfig {
    let mut c = MapConfig::default();
    c.width = 16;
    c.height = 12;
    c.scale_base = 7;
    c.scale_mid = 3;
    c.scale_detail = 2;
    c.use_random_seed = false;
    c
}

#[test]
fn noise_sample_is_deterministic_and_in_range() {
    let a = sample(7, 10, 20, 400);
    let b = sample(7, 10, 20, 400);
    assert_eq!(a, b);
    assert!(a <= SCALE);
    for x in 0..50u64 {
        for y in 0..50u64 {
            let v = sample(12345, x, y, 5);
            assert!(v <= SCALE);
        }
    }
}

#[test]
fn generated_cells_stay_in_unit_range() {
    let c = small_config();
    let hm = generate_map(&c, 42, None);
    assert_eq!(hm.len(), (c.width * c.height) as usize);
    for &v in hm.iter() {
        assert!(v <= SCALE);
    }
}

#[test]
fn generation_is_deterministic() {
    let c = small_config();
    let a = generate_map(&c, 42, None);
    let b = generate_map(&c, 42, None);
    assert_eq!(a, b);
    let mut blend = small_config();
    blend.overlay = 50_000_000;
    let prev: Vec<u64> = (0..(blend.width * blend.height) as u64)
        .map(|i| (i * 1_000) % (SCALE + 1))
        .collect();
    let x = generate_map(&blend, 42, Some(&prev));
    let y = generate_map(&blend, 42, Some(&prev));
    assert_eq!(x, y);
}

#[test]
fn rows_concatenate_to_the_full_map() {
    let c = small_config();
    let hm = generate_map(&c, 9, None);
    let mut joined: Vec<u64> = Vec::new();
    for y in 0..c.height {
        joined.extend(generate_row(&c, 9, None, y));
    }
    assert_eq!(hm, joined);
}

#[test]
fn island_center_is_never_attenuated() {
    let mut with_island = small_config();
    with_island.island_mode = true;
    let mut without = small_config();
    without.island_mode = false;
    let a = generate_map(&with_island, 7, None);
    let b = generate_map(&without, 7, None);
    // Even dimensions: the center cell sits exactly at fraction one half
    // on both axes, where the edge strength is zero.
    let cx = with_island.width / 2;
    let cy = with_island.height / 2;
    let i = (cy * with_island.width + cx) as usize;
    assert_eq!(a[i], b[i]);
}

#[test]
fn island_border_cell_is_fully_attenuated() {
    let mut c = small_config();
    c.island_mode = true;
    let hm = generate_map(&c, 7, None);
    // At x = 0 the x-axis edge strength is maximal (one), so the falloff
    // factor is zero and the cell is pulled to sea bottom.
    let mid_row = (c.height / 2) as usize;
    assert_eq!(hm[mid_row * c.width as usize], 0);
}

#[test]
fn full_overlay_ignores_the_previous_map() {
    let mut c = small_config();
    c.overlay = 100_000_000;
    let prev: Vec<u64> = vec![123_456; (c.width * c.height) as usize];
    let fresh = generate_map(&c, 42, None);
    let blended = generate_map(&c, 42, Some(&prev));
    assert_eq!(fresh, blended);
}

#[test]
fn zero_overlay_reproduces_the_previous_map() {
    let mut c = small_config();
    c.overlay = 0;
    let prev: Vec<u64> = (0..(c.width * c.height) as u64)
        .map(|i| (i * 5_003) % (SCALE + 1))
        .collect();
    let out = generate_map(&c, 42, Some(&prev));
    assert_eq!(out, prev);
}

#[test]
fn size_mismatch_disables_the_overlay() {
    let mut c = small_config();
    c.overlay = 0;
    let wrong: Vec<u64> = vec![200_000; 5];
    let out = generate_map(&c, 42, Some(&wrong));
    let fresh = generate_map(&c, 42, None);
    assert_eq!(out, fresh);
}
