use vstd::prelude::*;

use crate::config::{Config, MAX_ZOOM};
use crate::error::{ConfigFault, TileError};
use crate::morton::pow2;
use crate::raster::{shape_ok, Raster, RasterView};

verus! {

/// The 8-bit pixels, `channels` bytes each, that Lanczos3 resampling of
/// `pixels`, an image of `width` by `height`, gives at `new_width` by `new_height`.
pub uninterp spec fn lanczos_of(
    pixels: Seq<u8>,
    width: u32,
    height: u32,
    channels: u8,
    new_width: u32,
    new_height: u32,
) -> Seq<u8>;

/// Relies on image::imageops::resize with FilterType::Lanczos3 over an RGB
/// buffer: the result depends on the arguments alone, holds
/// `new_width * new_height` pixels, and is a copy of the source when the size
/// does not change.
#[verifier::external_body]
fn resample_rgb8(pixels: &Vec<u8>, width: u32, height: u32, new_width: u32, new_height: u32) -> (r: Vec<u8>)
    requires
        width > 0 && height > 0 && new_width > 0 && new_height > 0,
        pixels@.len() == width as nat * height as nat * 3,
        new_width as nat * new_height as nat * 3 <= usize::MAX,
    ensures
        r@ == lanczos_of(pixels@, width, height, 3, new_width, new_height),
        r@.len() == new_width as nat * new_height as nat * 3,
        new_width == width && new_height == height ==> r@ == pixels@,
{
    let src = image::ImageBuffer::<image::Rgb<u8>, &[u8]>::from_raw(width, height, pixels.as_slice()).unwrap();
    image::imageops::resize(&src, new_width, new_height, image::imageops::FilterType::Lanczos3).into_raw()
}

/// Relies on image::imageops::resize with FilterType::Lanczos3 over an RGBA
/// buffer: the result depends on the arguments alone, holds
/// `new_width * new_height` pixels, and is a copy of the source when the size
/// does not change.
#[verifier::external_body]
fn resample_rgba8(pixels: &Vec<u8>, width: u32, height: u32, new_width: u32, new_height: u32) -> (r: Vec<u8>)
    requires
        width > 0 && height > 0 && new_width > 0 && new_height > 0,
        pixels@.len() == width as nat * height as nat * 4,
        new_width as nat * new_height as nat * 4 <= usize::MAX,
    ensures
        r@ == lanczos_of(pixels@, width, height, 4, new_width, new_height),
        r@.len() == new_width as nat * new_height as nat * 4,
        new_width == width && new_height == height ==> r@ == pixels@,
{
    let src = image::ImageBuffer::<image::Rgba<u8>, &[u8]>::from_raw(width, height, pixels.as_slice()).unwrap();
    image::imageops::resize(&src, new_width, new_height, image::imageops::FilterType::Lanczos3).into_raw()
}

/// `img` resampled from the source to `width` by `height` (3 or 4 channels).
pub open spec fn resampled(img: RasterView, width: u32, height: u32) -> RasterView {
    RasterView {
        width,
        height,
        channels: img.channels,
        pixels: lanczos_of(img.pixels, img.width, img.height, img.channels, width, height),
    }
}

/// Why `img` cannot be the source of the pyramid `config` describes, checked
/// in this order; `None` when it can: the plan reaches no deeper than the base
/// zoom level, the image is square, its side is `tilesize << zoomlevel`, and
/// its pixels have 3 or 4 channels.
pub open spec fn source_fault(config: Config, img: RasterView) -> Option<TileError> {
    if config.endzoomrangetoslice > config.zoomlevel {
        Some(
            TileError::Config(
                ConfigFault::ZoomBeyondLevel {
                    zoom_end: config.endzoomrangetoslice,
                    zoomlevel: config.zoomlevel,
                },
            ),
        )
    } else if config.zoomlevel > MAX_ZOOM {
        Some(TileError::Config(ConfigFault::ZoomTooDeep { zoomlevel: config.zoomlevel }))
    } else if config.tilesize == 0 {
        Some(TileError::Config(ConfigFault::ZeroTileSize))
    } else if img.width != img.height {
        Some(
            TileError::Config(
                ConfigFault::NotSquare {
                    width: img.width,
                    height: img.height,
                    expected: (config.tilesize * pow2(config.zoomlevel as nat)) as u64,
                },
            ),
        )
    } else if img.width != config.tilesize * pow2(config.zoomlevel as nat) {
        Some(
            TileError::Config(
                ConfigFault::SideMismatch {
                    side: img.width,
                    expected: (config.tilesize * pow2(config.zoomlevel as nat)) as u64,
                },
            ),
        )
    } else if img.channels != 3 && img.channels != 4 {
        Some(TileError::UnsupportedPixelFormat { channels: img.channels })
    } else {
        None
    }
}

proof fn lemma_pow2_max(z: nat)
    requires
        z <= MAX_ZOOM,
    ensures
        1 <= pow2(z) <= 65536,
    decreases z,
{
    lemma_pow2_monotone(z, 16);
    lemma_pow2_monotone(0, z);
    reveal_with_fuel(pow2, 17);
}

/// `tilesize << z`, the side of level `z` in pixels, if it fits a `u64`.
fn level_side(tilesize: u32, z: u8) -> (r: u64)
    requires
        z <= MAX_ZOOM,
    ensures
        r == tilesize * pow2(z as nat),
{
    let mut side: u64 = tilesize as u64;
    let mut i: u8 = 0;
    proof {
        assert(pow2(0) == 1);
        assert(tilesize * pow2(0) == tilesize);
    }
    while i < z
        invariant
            i <= z <= MAX_ZOOM,
            side == tilesize * pow2(i as nat),
        decreases z - i,
    {
        proof {
            lemma_pow2_max((i + 1) as nat);
            assert(tilesize * pow2((i + 1) as nat) <= u32::MAX * 65536) by (nonlinear_arith)
                requires pow2((i + 1) as nat) <= 65536, tilesize <= u32::MAX;
            assert(tilesize * pow2((i + 1) as nat) == side * 2) by (nonlinear_arith)
                requires side == tilesize * pow2(i as nat), pow2((i + 1) as nat) == 2 * pow2(i as nat);
        }
        side = side * 2;
        i = i + 1;
    }
    side
}

/// Checks that `img` can be the source of the pyramid `config` describes.
pub fn check_source(config: &Config, img: &Raster) -> (r: Result<(), TileError>)
    ensures
        match source_fault(*config, img@) {
            Some(e) => r == Err::<(), TileError>(e),
            None => r is Ok,
        },
{
    if config.endzoomrangetoslice > config.zoomlevel {
        return Err(
            TileError::Config(
                ConfigFault::ZoomBeyondLevel {
                    zoom_end: config.endzoomrangetoslice,
                    zoomlevel: config.zoomlevel,
                },
            ),
        );
    }
    if config.zoomlevel > MAX_ZOOM {
        return Err(TileError::Config(ConfigFault::ZoomTooDeep { zoomlevel: config.zoomlevel }));
    }
    if config.tilesize == 0 {
        return Err(TileError::Config(ConfigFault::ZeroTileSize));
    }
    let (width, height) = (img.width(), img.height());
    let expected = level_side(config.tilesize, config.zoomlevel);
    if width != height {
        return Err(TileError::Config(ConfigFault::NotSquare { width, height, expected }));
    }
    if width as u64 != expected {
        return Err(TileError::Config(ConfigFault::SideMismatch { side: width, expected }));
    }
    let channels = img.channels();
    if channels != 3 && channels != 4 {
        return Err(TileError::UnsupportedPixelFormat { channels });
    }
    Ok(())
}

/// Resamples `img`, which has 3 or 4 channels, to `width` by `height`.
pub fn resample(img: &Raster, width: u32, height: u32) -> (r: Raster)
    requires
        img@.channels == 3 || img@.channels == 4,
        img@.width > 0 && img@.height > 0 && width > 0 && height > 0,
        width as nat * height as nat * img@.channels as nat <= usize::MAX,
    ensures
        r@ == resampled(img@, width, height),
{
    let channels = img.channels();
    let pixels = if channels == 3 {
        resample_rgb8(img.pixels(), img.width(), img.height(), width, height)
    } else {
        resample_rgba8(img.pixels(), img.width(), img.height(), width, height)
    };
    proof {
        assert(width as nat * height as nat * channels as nat == pixels@.len());
    }
    let r = Raster::new(width, height, channels, pixels);
    r.unwrap()
}

/// Resizing is idempotent per level: two resizes of the same source for
/// level `z`, each one what `TileImage::resize` or `resize_range` returns for
/// that level, have the same size and the same pixels, since each is taken
/// from the source itself and never from another level.
pub proof fn lemma_level_resize_idempotent(
    source: RasterView,
    tilesize: u32,
    z: u8,
    first: RasterView,
    second: RasterView,
)
    requires
        first == resampled(source, (tilesize * pow2(z as nat)) as u32, (tilesize * pow2(z as nat)) as u32),
        second == resampled(source, (tilesize * pow2(z as nat)) as u32, (tilesize * pow2(z as nat)) as u32),
    ensures
        first == second,
        first.pixels == second.pixels,
{
}

/// Produces the source resampled for each zoom level of a plan.
pub trait Resizer {
    /// What `resize_range` gives for a source with view `img`.
    spec fn spec_resize_range(&self, img: RasterView) -> Result<Seq<(RasterView, u8)>, TileError>;

    /// The source checked, then resampled from its own pixels (never from another level) to the
    /// side of each level the plan touches, with the level, in increasing order.
    fn resize_range(&self, img: &Raster) -> (r: Result<Vec<(Raster, u8)>, TileError>)
        ensures
            match r {
                Ok(levels) => self.spec_resize_range(img@) == Ok::<Seq<(RasterView, u8)>, TileError>(
                    levels@.map_values(|p: (Raster, u8)| (p.0@, p.1)),
                ),
                Err(e) => self.spec_resize_range(img@) == Err::<Seq<(RasterView, u8)>, TileError>(e),
            },
    ;
}

/// The levels from `start` to `end`, each with the source resampled to `tilesize << z`.
pub open spec fn resized_levels(config: Config, img: RasterView) -> Seq<(RasterView, u8)> {
    let start = config.startzoomrangetoslice as int;
    let end = config.endzoomrangetoslice as int;
    Seq::new(
        if end >= start { (end - start + 1) as nat } else { 0 },
        |i: int|
            {
                let z = (start + i) as u8;
                let side = (config.tilesize * pow2(z as nat)) as u32;
                (resampled(img, side, side), z)
            },
    )
}

impl Resizer for Config {
    open spec fn spec_resize_range(&self, img: RasterView) -> Result<Seq<(RasterView, u8)>, TileError> {
        match source_fault(*self, img) {
            Some(e) => Err(e),
            None => Ok(resized_levels(*self, img)),
        }
    }

    fn resize_range(&self, img: &Raster) -> (r: Result<Vec<(Raster, u8)>, TileError>) {
        match check_source(self, img) {
            Err(e) => return Err(e),
            Ok(()) => {},
        }
        let ghost v = img@;
        let side_max = img.width();
        let len: usize = img.pixels().len();
        let start = self.startzoomrangetoslice;
        let end = self.endzoomrangetoslice;
        let mut levels: Vec<(Raster, u8)> = Vec::new();
        if start > end {
            proof {
                assert(levels@.map_values(|p: (Raster, u8)| (p.0@, p.1)) =~= resized_levels(*self, v));
            }
            return Ok(levels);
        }
        let mut z: u8 = start;
        while z <= end
            invariant
                v == img@,
                shape_ok(v),
                source_fault(*self, v) is None,
                side_max == v.width,
                len == v.pixels.len(),
                start == self.startzoomrangetoslice,
                end == self.endzoomrangetoslice,
                start <= z <= end + 1,
                end <= self.zoomlevel <= MAX_ZOOM,
                levels@.len() == z - start,
                forall|i: int|
                    0 <= i < levels@.len() ==> (#[trigger] levels@[i].0@, levels@[i].1)
                        == resized_levels(*self, v)[i],
            decreases end + 1 - z,
        {
            let side = level_side(self.tilesize, z);
            proof {
                lemma_pow2_max(z as nat);
                lemma_pow2_monotone(z as nat, self.zoomlevel as nat);
                assert(self.tilesize * pow2(z as nat) <= self.tilesize * pow2(self.zoomlevel as nat)) by (nonlinear_arith)
                    requires pow2(z as nat) <= pow2(self.zoomlevel as nat);
                assert(side as nat * side as nat * v.channels as nat <= v.width as nat * v.height as nat * v.channels as nat) by (nonlinear_arith)
                    requires side <= v.width, v.width == v.height;
                assert(side > 0) by (nonlinear_arith)
                    requires side == self.tilesize * pow2(z as nat), pow2(z as nat) >= 1, self.tilesize > 0;
                assert(v.width > 0) by (nonlinear_arith)
                    requires v.width == self.tilesize * pow2(self.zoomlevel as nat), pow2(self.zoomlevel as nat) >= 1, self.tilesize > 0;
            }
            let level = resample(img, side as u32, side as u32);
            levels.push((level, z));
            z = z + 1;
        }
        proof {
            assert(levels@.map_values(|p: (Raster, u8)| (p.0@, p.1)) =~= resized_levels(*self, v));
        }
        Ok(levels)
    }
}

proof fn lemma_pow2_monotone(a: nat, b: nat)
    requires
        a <= b,
    ensures
        pow2(a) <= pow2(b),
    decreases b,
{
    if a < b {
        lemma_pow2_monotone(a, (b - 1) as nat);
    }
}

} // verus!
