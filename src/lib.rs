//! Splits one large square raster into a pyramid of fixed-size square tiles
//! over a range of zoom levels, addressed in Z-order (Morton) within a level.

pub mod config;
pub mod encode;
pub mod error;
pub mod morton;
pub mod naming;
pub mod raster;
pub mod resize;
pub mod tiles;

pub use crate::config::Config;
pub use crate::encode::{encode_png, png_color, Format, PngColor};
pub use crate::error::{ConfigFault, RangeFault, TileError};
pub use crate::morton::{coord_of, index_of};
pub use crate::naming::tile_file_name;
pub use crate::raster::Raster;
pub use crate::resize::Resizer;
pub use crate::tiles::{TileImage, TilesIterator};
