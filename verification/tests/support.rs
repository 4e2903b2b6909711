use mapgen::config::{BiomeConfig, MapConfig, RefinerConfig, WaterConfig};
use mapgen::export::scale_elevations;
use mapgen::preview::get_color_for_height;
use mapgen::seed::resolve_seed;
use mapgen::water::get_color_for_water;

#[test]
fn height_preview_bands() {
    let sea: u64 = 400_000;
    assert_eq!(get_color_for_height(100_000, sea), (0, 0, 100));
    assert_eq!(get_color_for_height(300_000, sea), (64, 164, 223));
    assert_eq!(get_color_for_height(450_000, sea), (34, 139, 34));
    assert_eq!(get_color_for_height(600_000, sea), (160, 82, 45));
    assert_eq!(get_color_for_height(700_000, sea), (139, 137, 137));
    assert_eq!(get_color_for_height(900_000, sea), (255, 250, 250));
}

#[test]
fn water_preview_endpoints() {
    assert_eq!(get_color_for_water(0), (0, 255, 255));
    assert_eq!(get_color_for_water(1_000_000), (255, 0, 255));
    assert_eq!(get_color_for_water(500_000), (127, 127, 255));
    // Intensities beyond one unit clamp to full blue.
    assert_eq!(get_color_for_water(3_000_000), (255, 0, 255));
}

#[test]
fn elevations_scale_into_the_configured_range() {
    let hm: Vec<u64> = vec![0, 500_000, 1_000_000];
    let out = scale_elevations(&hm, 0, 100_000_000);
    assert_eq!(out, vec![0, 50_000_000, 100_000_000]);
    let shifted = scale_elevations(&hm, -10_000_000, 10_000_000);
    assert_eq!(shifted, vec![-10_000_000, 0, 10_000_000]);
    let inverted = scale_elevations(&hm, 100_000_000, 0);
    assert_eq!(inverted, vec![100_000_000, 50_000_000, 0]);
}

#[test]
fn fixed_seed_is_kept() {
    assert_eq!(resolve_seed(false, 42), 42);
    assert_eq!(resolve_seed(false, 0), 0);
}

#[test]
fn random_seed_resolves() {
    // Nothing can be asserted of the drawn value beyond its type.
    let _ = resolve_seed(true, 42);
}

#[test]
fn default_configurations() {
    let mc = MapConfig::default();
    assert_eq!(mc.width, 512);
    assert_eq!(mc.height, 512);
    assert_eq!(mc.sea_level, 400_000);
    assert_eq!(mc.overlay, 100_000_000);
    assert!(mc.island_mode);
    let rc = RefinerConfig::default();
    assert_eq!(rc.height_offset, 0);
    assert_eq!(rc.height_coeff, 1_000_000);
    assert_eq!(rc.height_exponent, 1);
    let bc = BiomeConfig::default();
    assert_eq!(bc.base_temperature, 15_000_000);
    assert_eq!(bc.base_humidity, 50_000_000);
    assert_eq!(bc.scale, 10_000);
    let wc = WaterConfig::default();
    assert_eq!(wc.seed, 32345);
    assert_eq!(wc.river_count, 10);
}
