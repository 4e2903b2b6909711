use mapgen::biomes::{choose_biome, generate_biome_map, get_biome_color, Biome};
use mapgen::config::{BiomeConfig, MapConfig};

fn dims(width: u32, height: u32, sea_level: u64) -> MapConfig {
    let mut c = MapConfig::default();
    c.width = width;
    c.height = height;
    c.sea_level = sea_level;
    c
}

#[test]
fn flat_low_map_is_all_ocean() {
    // Every cell at 0.1 with sea level 0.4: 0.1 < 0.32, ocean everywhere,
    // whatever the climate noise gives.
    let mc = dims(4, 4, 400_000);
    let bc = BiomeConfig::default();
    let hm: Vec<u64> = vec![100_000; 16];
    let grid = generate_biome_map(&mc, &bc, &hm, 42);
    assert_eq!(grid.len(), 16);
    for &b in grid.iter() {
        assert_eq!(b, Biome::Ocean);
    }
}

#[test]
fn hot_humid_highland_is_mountain() {
    // Humidity and temperature above 0.7 take the early rule: elevation
    // above 0.8 gives mountain, before any sea-level band is consulted.
    let b = choose_biome(900_000, 900_000, 900_000, 400_000, 0);
    assert_eq!(b, Biome::Mountain);
}

#[test]
fn hot_dry_highland_is_desert() {
    // With humidity at 0.5 the early rule passes; elevation 0.9 is beyond
    // 1.5 times the sea level, and temperature 0.9 lands in the desert
    // band.
    let b = choose_biome(900_000, 500_000, 900_000, 400_000, 0);
    assert_eq!(b, Biome::Desert);
}

#[test]
fn dry_hot_flat_map_is_all_desert() {
    // Zero variation pins temperature to (40 + 10) / 50 = 1.0 and
    // humidity to 0.0 exactly, independent of the noise, so the whole
    // grid classifies identically.
    let mc = dims(3, 3, 400_000);
    let bc = BiomeConfig {
        base_temperature: 40_000_000,
        base_humidity: 0,
        temperature_variation: 0,
        humidity_variation: 0,
        ..BiomeConfig::default()
    };
    let hm: Vec<u64> = vec![500_000; 9];
    let grid = generate_biome_map(&mc, &bc, &hm, 123);
    for &b in grid.iter() {
        assert_eq!(b, Biome::Desert);
    }
}

#[test]
fn decision_list_branches() {
    let sea: u64 = 400_000;
    // Ocean: below 0.8 * sea.
    assert_eq!(choose_biome(500_000, 500_000, 300_000, sea, 0), Biome::Ocean);
    // Beach: between 0.8 * sea and sea.
    assert_eq!(choose_biome(500_000, 500_000, 350_000, sea, 0), Biome::Beach);
    // Jungle: hot and humid but not high.
    assert_eq!(choose_biome(800_000, 800_000, 700_000, sea, 0), Biome::Jungle);
    // Snow: freezing temperature.
    assert_eq!(choose_biome(100_000, 500_000, 700_000, sea, 0), Biome::Snow);
    // Mountain: steep slope.
    assert_eq!(choose_biome(500_000, 300_000, 700_000, sea, 600_000), Biome::Mountain);
    // Lowland band, humid and warm: jungle.
    assert_eq!(choose_biome(600_000, 800_000, 450_000, sea, 0), Biome::Jungle);
    // Lowland band, humid and cool: swamp.
    assert_eq!(choose_biome(400_000, 800_000, 450_000, sea, 0), Biome::Swamp);
    // Lowland band, moderate humidity, warm: forest.
    assert_eq!(choose_biome(600_000, 500_000, 450_000, sea, 0), Biome::Forest);
    // Lowland band, moderate humidity, cool: plains.
    assert_eq!(choose_biome(400_000, 500_000, 450_000, sea, 0), Biome::Plains);
    // Lowland band, dry and hot: desert.
    assert_eq!(choose_biome(800_000, 300_000, 450_000, sea, 0), Biome::Desert);
    // Lowland band, dry and mild: plains.
    assert_eq!(choose_biome(600_000, 300_000, 450_000, sea, 0), Biome::Plains);
    // Midland band, humid and warm: mountain.
    assert_eq!(choose_biome(600_000, 600_000, 550_000, sea, 0), Biome::Mountain);
    // Midland band, humid and cool: tundra.
    assert_eq!(choose_biome(400_000, 600_000, 550_000, sea, 0), Biome::Tundra);
    // Midland band, dry and hot: desert.
    assert_eq!(choose_biome(800_000, 400_000, 550_000, sea, 0), Biome::Desert);
    // Midland band, dry and mild: forest.
    assert_eq!(choose_biome(600_000, 400_000, 550_000, sea, 0), Biome::Forest);
    // Highland bands by temperature: snow, mountain, forest, desert.
    assert_eq!(choose_biome(250_000, 400_000, 900_000, sea, 0), Biome::Snow);
    assert_eq!(choose_biome(400_000, 400_000, 900_000, sea, 0), Biome::Mountain);
    assert_eq!(choose_biome(600_000, 400_000, 900_000, sea, 0), Biome::Forest);
    assert_eq!(choose_biome(800_000, 400_000, 900_000, sea, 0), Biome::Desert);
}

#[test]
fn classification_is_deterministic() {
    let mc = dims(5, 4, 400_000);
    let bc = BiomeConfig::default();
    let hm: Vec<u64> = (0..20u64).map(|i| (i * 50_000) % 1_000_001).collect();
    let a = generate_biome_map(&mc, &bc, &hm, 77);
    let b = generate_biome_map(&mc, &bc, &hm, 77);
    assert_eq!(a, b);
}

#[test]
fn classifier_is_total_over_a_sweep() {
    // Every combination over a coarse sweep of the five inputs yields one
    // of the ten labels; the match below would panic otherwise.
    let values: [i64; 5] = [-500_000, 0, 300_000, 700_001, 1_500_000];
    for &t in values.iter() {
        for &hu in values.iter() {
            for &e in [0u64, 320_000, 400_000, 479_000, 599_000, 900_000, 2_000_000].iter() {
                for &sl in [0u64, 500_001].iter() {
                    let b = choose_biome(t, hu, e, 400_000, sl);
                    let _named = match b {
                        Biome::Ocean => "ocean",
                        Biome::Beach => "beach",
                        Biome::Plains => "plains",
                        Biome::Forest => "forest",
                        Biome::Mountain => "mountain",
                        Biome::Snow => "snow",
                        Biome::Desert => "desert",
                        Biome::Swamp => "swamp",
                        Biome::Tundra => "tundra",
                        Biome::Jungle => "jungle",
                    };
                }
            }
        }
    }
}

#[test]
fn biome_colors_are_fixed() {
    assert_eq!(get_biome_color(Biome::Ocean), (0, 0, 100));
    assert_eq!(get_biome_color(Biome::Beach), (238, 214, 175));
    assert_eq!(get_biome_color(Biome::Plains), (50, 205, 50));
    assert_eq!(get_biome_color(Biome::Forest), (34, 139, 34));
    assert_eq!(get_biome_color(Biome::Mountain), (139, 137, 137));
    assert_eq!(get_biome_color(Biome::Snow), (255, 250, 250));
    assert_eq!(get_biome_color(Biome::Desert), (255, 228, 181));
    assert_eq!(get_biome_color(Biome::Swamp), (0, 100, 0));
    assert_eq!(get_biome_color(Biome::Tundra), (255, 228, 196));
    assert_eq!(get_biome_color(Biome::Jungle), (0, 128, 0));
}

#[test]
fn steep_spike_classifies_interior_cell_by_slope() {
    // A flat cold dry map whose center cell towers over its neighbors:
    // the interior slope rule fires and gives mountain, while the flat
    // cells of the same climate land elsewhere.
    let mc = dims(3, 3, 100_000);
    let bc = BiomeConfig {
        base_temperature: 20_000_000,  // temperature pinned to 0.6
        base_humidity: 40_000_000,     // humidity pinned to 0.4
        temperature_variation: 0,
        humidity_variation: 0,
        ..BiomeConfig::default()
    };
    let mut hm: Vec<u64> = vec![400_000; 9];
    hm[4] = 1_000_000;
    let grid = generate_biome_map(&mc, &bc, &hm, 5);
    // Center: mean neighbor difference 0.6, scaled by a thousand and
    // squashed far beyond the 0.5 threshold, so the slope rule fires.
    assert_eq!(grid[4], Biome::Mountain);
    // A boundary cell of the same climate has slope zero and falls to the
    // high-elevation temperature bands instead: 0.6 gives forest.
    assert_eq!(grid[0], Biome::Forest);
}
