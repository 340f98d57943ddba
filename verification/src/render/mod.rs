//! Raster images, and drawing glyphs into them.

pub mod color;
pub mod image;

pub use self::color::Color;
pub use self::image::Image;
pub use crate::font::get_boolmasks;
