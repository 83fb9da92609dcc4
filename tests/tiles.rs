use std::ops::RangeInclusive;

use tile_split::encode::encode_outcome;

use tile_split::{
    encode_png, png_color, Config, ConfigFault, Format, PngColor, Raster, Resizer, TileError,
    TileImage,
};

/// A square image whose every byte tells its own position.
fn patterned(side: u32, channels: u8) -> Raster {
    let n = (side * side) as usize * channels as usize;
    let pixels: Vec<u8> = (0..n).map(|i| (i % 251) as u8).collect();
    Raster::new(side, side, channels, pixels).unwrap()
}

fn config(tilesize: u32, zoomlevel: u8, zoom: (u8, u8), target: Option<(u32, u32)>) -> Config {
    Config::new(
        "test.png",
        tilesize,
        zoomlevel,
        RangeInclusive::new(zoom.0, zoom.1),
        target.map(|t| RangeInclusive::new(t.0, t.1)),
    )
    .unwrap()
}

#[test]
fn raster_checks_its_size() {
    assert!(Raster::new(2, 2, 3, vec![0; 12]).is_some());
    assert!(Raster::new(2, 2, 3, vec![0; 11]).is_none());
    assert!(Raster::new(2, 2, 0, vec![]).is_none());
    let img = Raster::new(3, 1, 4, vec![7; 12]).unwrap();
    assert_eq!((img.width(), img.height(), img.channels()), (3, 1, 4));
    assert_eq!(img.pixels().len(), 12);
}

#[test]
fn crop_copies_the_block() {
    let img = patterned(4, 3);
    let block = img.crop(2, 1, 2);
    assert_eq!((block.width(), block.height(), block.channels()), (2, 2, 3));
    let src = img.pixels();
    let mut expected = Vec::new();
    for row in 1..3usize {
        let start = (row * 4 + 2) * 3;
        expected.extend_from_slice(&src[start..start + 6]);
    }
    assert_eq!(block.pixels(), &expected);
}

#[test]
fn full_level_slice_visits_every_cell_once() {
    let tilesize = 2u32;
    let z = 3u32;
    let side = tilesize << z;
    let source = TileImage::new(config(tilesize, z as u8, (z as u8, z as u8), None), patterned(side, 4)).unwrap();
    let level = source.resize(side, side).unwrap();
    let cells = 1u32 << z;
    let mut seen = vec![0u32; (cells * cells) as usize];
    let mut tiles = source.iter_tiles(&level, None);
    let mut count = 0;
    while let Some((tile, x, y)) = tiles.next() {
        assert!(x < cells && y < cells);
        assert_eq!(tile.pixels(), level.crop(x * tilesize, y * tilesize, tilesize).pixels());
        seen[(y * cells + x) as usize] += 1;
        count += 1;
    }
    assert_eq!(count, 64);
    assert!(seen.iter().all(|n| *n == 1));
    // Once done, it stays done.
    assert!(tiles.next().is_none());
}

#[test]
fn slice_follows_a_local_range() {
    let source = TileImage::new(config(1, 2, (2, 2), None), patterned(4, 3)).unwrap();
    let level = source.resize(4, 4).unwrap();
    let mut tiles = source.iter_tiles(&level, Some(RangeInclusive::new(3, 6)));
    let mut coords = Vec::new();
    while let Some((_, x, y)) = tiles.next() {
        coords.push((x, y));
    }
    assert_eq!(coords, vec![(1, 1), (2, 0), (3, 0), (2, 1)]);
}

#[test]
fn slice_stops_at_the_image_edge() {
    let source = TileImage::new(config(1, 1, (1, 1), None), patterned(2, 3)).unwrap();
    let level = source.resize(2, 2).unwrap();
    let mut tiles = source.iter_tiles(&level, Some(RangeInclusive::new(2, 9)));
    assert_eq!(tiles.next().map(|t| (t.1, t.2)), Some((0, 1)));
    assert_eq!(tiles.next().map(|t| (t.1, t.2)), Some((1, 1)));
    assert!(tiles.next().is_none());
}

#[test]
fn non_square_source_is_a_config_error() {
    let img = Raster::new(8, 4, 3, vec![0; 96]).unwrap();
    let err = TileImage::new(config(4, 1, (0, 1), None), img).err().unwrap();
    assert_eq!(err, TileError::Config(ConfigFault::NotSquare { width: 8, height: 4, expected: 8 }));
}

#[test]
fn wrong_side_is_a_config_error() {
    let err = TileImage::new(config(4, 2, (0, 2), None), patterned(8, 3)).err().unwrap();
    assert_eq!(err, TileError::Config(ConfigFault::SideMismatch { side: 8, expected: 16 }));
    let err = config(4, 2, (0, 2), None).resize_range(&patterned(8, 3)).err().unwrap();
    assert!(matches!(err, TileError::Config(_)));
}

#[test]
fn two_channel_source_is_unsupported() {
    let err = TileImage::new(config(2, 1, (0, 1), None), patterned(4, 2)).err().unwrap();
    assert_eq!(err, TileError::UnsupportedPixelFormat { channels: 2 });
}

#[test]
fn resize_changes_the_size() {
    let source = TileImage::new(config(2, 2, (0, 2), None), patterned(8, 3)).unwrap();
    let small = source.resize(2, 2).unwrap();
    assert_eq!((small.width(), small.height(), small.channels()), (2, 2, 3));
    assert_eq!(small.pixels().len(), 12);
    let same = source.resize(8, 8).unwrap();
    assert_eq!(same.pixels(), source.img.pixels());
}

#[test]
fn resize_is_idempotent() {
    let source = TileImage::new(config(4, 2, (0, 2), None), patterned(16, 4)).unwrap();
    for side in [4u32, 8, 16, 5] {
        let a = source.resize(side, side).unwrap();
        let b = source.resize(side, side).unwrap();
        assert_eq!(a.pixels(), b.pixels());
    }
}

#[test]
fn resize_range_gives_each_level_from_the_source() {
    let plan = config(2, 3, (1, 3), None);
    let img = patterned(16, 4);
    let levels = plan.resize_range(&img).unwrap();
    let zooms: Vec<u8> = levels.iter().map(|l| l.1).collect();
    assert_eq!(zooms, vec![1, 2, 3]);
    let sides: Vec<u32> = levels.iter().map(|l| l.0.width()).collect();
    assert_eq!(sides, vec![4, 8, 16]);
    let source = TileImage::new(config(2, 3, (1, 3), None), patterned(16, 4)).unwrap();
    for (level, z) in &levels {
        let side = 2u32 << z;
        assert_eq!(level.pixels(), source.resize(side, side).unwrap().pixels());
    }
}

#[test]
fn png_color_by_channels() {
    assert_eq!(png_color(3), Ok(PngColor::Rgb));
    assert_eq!(png_color(4), Ok(PngColor::Rgba));
    assert_eq!(png_color(1), Err(TileError::UnsupportedPixelFormat { channels: 1 }));
}

#[test]
fn encode_png_writes_png_bytes() {
    let tile = patterned(4, 4);
    let bytes = encode_png(tile, 2).unwrap();
    assert_eq!(&bytes[..8], &[0x89, b'P', b'N', b'G', 0x0d, 0x0a, 0x1a, 0x0a]);
    let rgb = encode_png(patterned(4, 3), 0).unwrap();
    assert_eq!(&rgb[1..4], b"PNG");
}

#[test]
fn encode_png_refuses_other_channel_counts() {
    let tile = Raster::new(2, 2, 2, vec![0; 8]).unwrap();
    assert_eq!(encode_png(tile, 2), Err(TileError::UnsupportedPixelFormat { channels: 2 }));
}

#[test]
fn format_extension() {
    assert_eq!(Format::OxiPng(2).extension(), "png");
    assert_eq!(Format::Image("jpg".to_string()).extension(), "jpg");
}

#[test]
fn encoder_failure_becomes_an_encode_error() {
    assert_eq!(encode_outcome(Err(oxipng::PngError::NotPNG)), Err(TileError::Encode));
    assert_eq!(encode_outcome(Ok(vec![1, 2, 3])), Ok(vec![1, 2, 3]));
}
