use vstd::prelude::*;

verus! {

/// A configuration that cannot describe a pyramid.
#[derive(Debug, Clone, Copy, PartialEq, Eq, Structural)]
pub enum ConfigFault {
    /// Tiles must be at least one pixel on a side.
    ZeroTileSize,
    /// The base zoom level is deeper than a `u32` Morton index can address.
    ZoomTooDeep { zoomlevel: u8 },
    /// The zoom range reaches past the base zoom level.
    ZoomBeyondLevel { zoom_end: u8, zoomlevel: u8 },
    /// The source image is not square; it should be `expected` on a side.
    NotSquare { width: u32, height: u32, expected: u64 },
    /// The source side is not `tilesize << zoomlevel`.
    SideMismatch { side: u32, expected: u64 },
}

/// A range that selects nothing, or more than there is.
#[derive(Debug, Clone, Copy, PartialEq, Eq, Structural)]
pub enum RangeFault {
    /// The zoom range ends before it starts.
    InvertedZoom { zoom_start: u8, zoom_end: u8 },
    /// The target range ends at or before its start.
    EmptyTarget { target_start: u32, target_end: u32 },
    /// The target range reaches past the last tile of the zoom range.
    TargetBeyondTiles { target_last: u32, total: u64 },
}

/// Every way in which building a pyramid can fail inside the library.
#[derive(Debug, Clone, Copy, PartialEq, Eq, Structural)]
pub enum TileError {
    Config(ConfigFault),
    Range(RangeFault),
    /// Pixels with this many channels cannot be resampled or encoded.
    UnsupportedPixelFormat { channels: u8 },
    /// The PNG encoder gave up on a tile.
    Encode,
}

} // verus!
