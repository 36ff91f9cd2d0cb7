//! Raster images: dense rectangular pixel buffers with region-addressed
//! access and format-converting copies.
//!
//! The crate is organised around four types: [`region::Region`] describes a
//! rectangle with a signed origin, [`raster::Raster`] owns a flat pixel
//! buffer, [`raster::RasterIter`] walks the pixels of a clipped region in
//! row-major order, and [`raster::RasterBuilder`] holds the construction
//! paths. Pixel formats are kept behind the [`pixel::Pixel`] and
//! [`pixel::Convert`] capabilities, so the core never depends on concrete
//! channel arithmetic.
use vstd::prelude::*;

pub mod formats;
pub mod pixel;
pub mod raster;
pub mod region;

pub use formats::Mask16;
pub use formats::Mask8;
pub use formats::SGray16;
pub use formats::SGray8;
pub use formats::SGrayAlpha16;
pub use formats::SGrayAlpha8;
pub use formats::SRgb16;
pub use formats::SRgb8;
pub use formats::SRgba16;
pub use formats::SRgba8;
pub use pixel::Convert;
pub use pixel::Pixel;
pub use raster::PixelSource;
pub use raster::Raster;
pub use raster::RasterBuilder;
pub use raster::RasterIter;
pub use region::IntoRegion;
pub use region::Region;
