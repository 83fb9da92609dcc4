use vstd::prelude::*;

use crate::error::TileError;
use crate::raster::Raster;

verus! {

#[verifier::external_type_specification]
#[verifier::external_body]
pub struct ExPngError(oxipng::PngError);

/// How tiles are written out.
#[derive(Debug, Clone)]
pub enum Format {
    /// PNG, recompressed by the optimizer at this preset level (0 is fastest;
    /// levels above 6 compress as 6 does).
    OxiPng(u8),
    /// A raster format that the generic encoder picks by this file extension.
    Image(String),
}

impl Format {
    /// The extension of the tile files: `png` for the optimized PNG format.
    pub fn extension(&self) -> (r: &str)
        ensures
            match self {
                Format::OxiPng(_) => r@ == "png"@,
                Format::Image(ext) => r@ == ext@,
            },
    {
        match self {
            Format::OxiPng(_) => {
                proof {
                    reveal_strlit("png");
                }
                "png"
            },
            Format::Image(ext) => ext.as_str(),
        }
    }
}

/// The PNG color types a tile can be written with, 8 bits per channel.
#[derive(Debug, Clone, Copy, PartialEq, Eq, Structural)]
pub enum PngColor {
    Rgb,
    Rgba,
}

/// The PNG color type for pixels of `channels` bytes: RGB for 3, RGBA for 4.
pub open spec fn color_for(channels: u8) -> Option<PngColor> {
    if channels == 3 {
        Some(PngColor::Rgb)
    } else if channels == 4 {
        Some(PngColor::Rgba)
    } else {
        None
    }
}

/// Chooses the PNG color type from the channel count; any count but 3 or 4
/// is an unsupported pixel format.
pub fn png_color(channels: u8) -> (r: Result<PngColor, TileError>)
    ensures
        match color_for(channels) {
            Some(c) => r == Ok::<PngColor, TileError>(c),
            None => r == Err::<PngColor, TileError>(TileError::UnsupportedPixelFormat { channels }),
        },
{
    if channels == 3 {
        Ok(PngColor::Rgb)
    } else if channels == 4 {
        Ok(PngColor::Rgba)
    } else {
        Err(TileError::UnsupportedPixelFormat { channels })
    }
}

/// What oxipng makes of an 8-bit image of `width` by `height` pixels (RGBA
/// where `alpha`, else RGB) at preset `preset`: the optimized PNG, or `None`
/// where it reports an error.
pub uninterp spec fn optimized_png_of(width: u32, height: u32, alpha: bool, data: Seq<u8>, preset: u8) -> Option<Seq<u8>>;

/// Relies on oxipng::RawImage::new over 8-bit channels, then
/// RawImage::create_optimized_png with Options::from_preset: the PNG bytes,
/// or the error the encoder reports. Built without oxipng's `parallel`
/// feature and with no timeout in the preset, the encoder tries its
/// candidates one after another, so the outcome depends on the arguments alone.
#[verifier::external_body]
fn optimize_png(width: u32, height: u32, color: PngColor, data: Vec<u8>, preset: u8) -> (r: Result<Vec<u8>, oxipng::PngError>)
    requires
        width > 0 && height > 0,
    ensures
        match optimized_png_of(width, height, color == PngColor::Rgba, data@, preset) {
            Some(b) => r matches Ok(bytes) && bytes@ == b,
            None => r is Err,
        },
{
    let color_type = match color {
        PngColor::Rgb => oxipng::ColorType::RGB { transparent_color: None },
        PngColor::Rgba => oxipng::ColorType::RGBA,
    };
    oxipng::RawImage::new(width, height, color_type, oxipng::BitDepth::Eight, data)?
        .create_optimized_png(&oxipng::Options::from_preset(preset))
}

/// The error that a failed PNG encoding becomes.
pub fn encode_outcome(outcome: Result<Vec<u8>, oxipng::PngError>) -> (r: Result<Vec<u8>, TileError>)
    ensures
        match outcome {
            Ok(bytes) => r matches Ok(b) && b@ == bytes@,
            Err(_) => r == Err::<Vec<u8>, TileError>(TileError::Encode),
        },
{
    match outcome {
        Ok(bytes) => Ok(bytes),
        Err(_) => Err(TileError::Encode),
    }
}

/// Encodes `tile` as an optimized PNG at `preset`, its color type chosen by
/// its channel count. Fails with an unsupported pixel format before any
/// encoding where that count is not 3 or 4; otherwise returns the optimized
/// PNG of its pixels where the encoder makes one, and an encode error where
/// it reports a failure.
pub fn encode_png(tile: Raster, preset: u8) -> (r: Result<Vec<u8>, TileError>)
    requires
        tile@.width > 0 && tile@.height > 0,
    ensures
        match color_for(tile@.channels) {
            None => r == Err::<Vec<u8>, TileError>(
                TileError::UnsupportedPixelFormat { channels: tile@.channels },
            ),
            Some(c) => match optimized_png_of(
                tile@.width,
                tile@.height,
                c == PngColor::Rgba,
                tile@.pixels,
                preset,
            ) {
                Some(b) => r matches Ok(bytes) && bytes@ == b,
                None => r == Err::<Vec<u8>, TileError>(TileError::Encode),
            },
        },
{
    let color = match png_color(tile.channels()) {
        Ok(c) => c,
        Err(e) => return Err(e),
    };
    let (width, height) = (tile.width(), tile.height());
    let outcome = optimize_png(width, height, color, tile.into_pixels(), preset);
    encode_outcome(outcome)
}

} // verus!
