use std::ops::RangeInclusive;

use tile_split::Config;

// slice all tiles
#[test]
fn full_zoom() {
    let config = Config::new(
        "test.png",
        256,
        5,
        RangeInclusive::new(0, 5),
        None,
    )
    .unwrap();
    assert_eq!(config.startzoomrangetoslice, 0);
    assert_eq!(config.starttargetrange, 0);
    assert_eq!(config.endzoomrangetoslice, 5);
    assert_eq!(config.endtargetrange, 1023);
}

// slice the first 341 tiles out of all tiles
#[test]
fn full_zoom_1() {
    let config = Config::new(
        "test.png",
        256,
        5,
        RangeInclusive::new(0, 5),
        Some(RangeInclusive::new(0, 341)),
    )
    .unwrap();
    assert_eq!(config.startzoomrangetoslice, 0);
    assert_eq!(config.starttargetrange, 0);
    assert_eq!(config.endzoomrangetoslice, 4);
    assert_eq!(config.endtargetrange, 255);
}

// slice the second 341 tiles out of all tiles
#[test]
fn full_zoom_2() {
    let config = Config::new(
        "test.png",
        256,
        5,
        RangeInclusive::new(0, 5),
        Some(RangeInclusive::new(341, 682)),
    )
    .unwrap();
    assert_eq!(config.startzoomrangetoslice, 5);
    assert_eq!(config.starttargetrange, 0);
    assert_eq!(config.endzoomrangetoslice, 5);
    assert_eq!(config.endtargetrange, 340);
}

// slice the third 341 tiles out of all tiles
#[test]
fn full_zoom_3() {
    let config = Config::new(
        "test.png",
        256,
        5,
        RangeInclusive::new(0, 5),
        Some(RangeInclusive::new(682, 1023)),
    )
    .unwrap();
    assert_eq!(config.startzoomrangetoslice, 5);
    assert_eq!(config.starttargetrange, 341);
    assert_eq!(config.endzoomrangetoslice, 5);
    assert_eq!(config.endtargetrange, 681);
}

// slice the remaining tiles out of all tiles
#[test]
fn full_zoom_4() {
    let config = Config::new(
        "test.png",
        256,
        5,
        RangeInclusive::new(0, 5),
        Some(RangeInclusive::new(1023, 1365)),
    )
    .unwrap();
    assert_eq!(config.startzoomrangetoslice, 5);
    assert_eq!(config.starttargetrange, 682);
    assert_eq!(config.endzoomrangetoslice, 5);
    assert_eq!(config.endtargetrange, 1023);
}

// slice the first 448 tiles out of all tiles
#[test]
fn half_zoom_1() {
    let config = Config::new(
        "test.png",
        256,
        5,
        RangeInclusive::new(3, 5),
        Some(RangeInclusive::new(0, 448)),
    )
    .unwrap();
    assert_eq!(config.startzoomrangetoslice, 3);
    assert_eq!(config.starttargetrange, 0);
    assert_eq!(config.endzoomrangetoslice, 5);
    assert_eq!(config.endtargetrange, 127);
}

// slice the second 448 tiles out of all tiles
#[test]
fn half_zoom_2() {
    let config = Config::new(
        "test.png",
        256,
        5,
        RangeInclusive::new(3, 5),
        Some(RangeInclusive::new(448, 896)),
    )
    .unwrap();
    assert_eq!(config.startzoomrangetoslice, 5);
    assert_eq!(config.starttargetrange, 128);
    assert_eq!(config.endzoomrangetoslice, 5);
    assert_eq!(config.endtargetrange, 575);
}

// slice the remaining tiles out of all tiles
#[test]
fn half_zoom_3() {
    let config = Config::new(
        "test.png",
        256,
        5,
        RangeInclusive::new(3, 5),
        Some(RangeInclusive::new(896, 1344)),
    )
    .unwrap();
    assert_eq!(config.startzoomrangetoslice, 5);
    assert_eq!(config.starttargetrange, 576);
    assert_eq!(config.endzoomrangetoslice, 5);
    assert_eq!(config.endtargetrange, 1023);
}
fn plan(zoom: (u8, u8), target: Option<(u32, u32)>) -> Config {
    Config::new(
        "test.png",
        256,
        5,
        RangeInclusive::new(zoom.0, zoom.1),
        target.map(|t| RangeInclusive::new(t.0, t.1)),
    )
    .unwrap()
}

fn range_of(config: &Config, z: u8) -> Option<(u32, u32)> {
    config
        .target_range_for(z)
        .map(|r| (*r.start(), *r.end()))
}

#[test]
fn full_plan_covers_every_level() {
    for lo in 0..=5u8 {
        for hi in lo..=5u8 {
            let config = plan((lo, hi), None);
            assert_eq!(config.startzoomrangetoslice, lo);
            assert_eq!(config.starttargetrange, 0);
            assert_eq!(config.endzoomrangetoslice, hi);
            assert_eq!(config.endtargetrange, (1u32 << (2 * hi)) - 1);
            for z in lo..=hi {
                assert_eq!(range_of(&config, z), Some((0, (1u32 << (2 * z)) - 1)));
            }
        }
    }
}

#[test]
fn filename_and_sizes_are_kept() {
    let config = plan((2, 4), None);
    assert_eq!(config.filename, "test.png");
    assert_eq!(config.tilesize, 256);
    assert_eq!(config.zoomlevel, 5);
}

#[test]
fn level_ranges_of_a_plan_over_three_levels() {
    let config = plan((0, 5), Some((3, 400)));
    assert_eq!(config.startzoomrangetoslice, 1);
    assert_eq!(config.starttargetrange, 2);
    assert_eq!(config.endzoomrangetoslice, 5);
    assert_eq!(config.endtargetrange, 58);
    assert_eq!(range_of(&config, 0), None);
    assert_eq!(range_of(&config, 1), Some((2, 3)));
    assert_eq!(range_of(&config, 2), Some((0, 15)));
    assert_eq!(range_of(&config, 4), Some((0, 255)));
    assert_eq!(range_of(&config, 5), Some((0, 58)));
    assert_eq!(range_of(&config, 6), None);
}

#[test]
fn single_tile_level_at_a_boundary() {
    // The one tile of level 0 starts a plan that crosses into level 1.
    let config = plan((0, 2), Some((0, 5)));
    assert_eq!(config.startzoomrangetoslice, 0);
    assert_eq!(config.starttargetrange, 0);
    assert_eq!(config.endzoomrangetoslice, 1);
    assert_eq!(config.endtargetrange, 3);
    assert_eq!(range_of(&config, 0), Some((0, 0)));
    assert_eq!(range_of(&config, 1), Some((0, 3)));
    assert_eq!(range_of(&config, 2), None);
    // A plan that ends exactly on that tile.
    let config = plan((0, 2), Some((0, 1)));
    assert_eq!(config.startzoomrangetoslice, 0);
    assert_eq!(config.endzoomrangetoslice, 0);
    assert_eq!(range_of(&config, 0), Some((0, 0)));
    // A plan that starts right after it.
    let config = plan((0, 2), Some((1, 6)));
    assert_eq!(config.startzoomrangetoslice, 1);
    assert_eq!(config.starttargetrange, 0);
    assert_eq!(config.endzoomrangetoslice, 2);
    assert_eq!(config.endtargetrange, 0);
    assert_eq!(range_of(&config, 0), None);
    assert_eq!(range_of(&config, 1), Some((0, 3)));
    assert_eq!(range_of(&config, 2), Some((0, 0)));
}

#[test]
fn last_tile_of_the_range() {
    let config = plan((0, 5), Some((1364, 1365)));
    assert_eq!(config.startzoomrangetoslice, 5);
    assert_eq!(config.starttargetrange, 1023);
    assert_eq!(config.endzoomrangetoslice, 5);
    assert_eq!(config.endtargetrange, 1023);
}

#[test]
fn deepest_zoom_level_is_accepted() {
    let config = Config::new("big.png", 1, 16, RangeInclusive::new(16, 16), None).unwrap();
    assert_eq!(config.endtargetrange, u32::MAX);
    assert_eq!(range_of(&config, 16), Some((0, u32::MAX)));
}
