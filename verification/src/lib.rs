//! Reading, writing and replacing the metadata trailer of text-mode art
//! files, and conversion of bitmap fonts between packed bitmasks and images.

pub mod ascii;
pub mod bytes;
pub mod font;
pub mod render;
pub mod sauce;
pub mod string;

pub use crate::sauce::{AspectRatio, DataType, FileType, LetterSpacing, Sauce, SauceError};
