//! What can go wrong when a font is loaded.

use vstd::prelude::*;

verus! {

/// Why a font could not be loaded.
#[derive(Debug, Clone, Copy, PartialEq, Eq, Structural)]
pub enum FontError {
    /// No font is known by the name.
    FontNotFound,
    /// The image cannot be cut into glyphs of the size asked for.
    ImageNotCorrectDimensions,
    /// The file does not hold glyphs of the size asked for.
    FileNotCorrectSize,
    /// The file is no extended binary file.
    InvalidXBinFile,
    /// The file is no ADF file.
    InvalidADFFile,
    /// The file is no IDF file.
    InvalidIDFFile,
    /// The file holds no font.
    NoFontDataFound,
}

impl FontError {
    /// The message shown for this error.
    pub open spec fn message(self) -> Seq<char> {
        match self {
            FontError::FontNotFound => "Font not found"@,
            FontError::ImageNotCorrectDimensions => "Image not correct dimensions"@,
            FontError::FileNotCorrectSize => "File not correct size"@,
            FontError::InvalidXBinFile => "Invalid XBin file"@,
            FontError::InvalidADFFile => "Invalid ADF file"@,
            FontError::InvalidIDFFile => "Invalid IDF file"@,
            FontError::NoFontDataFound => "No font data found"@,
        }
    }

    /// Renders the error as text.
    pub fn to_string(&self) -> (r: String)
        ensures
            r@ == self.message(),
    {
        match self {
            FontError::FontNotFound => "Font not found".to_owned(),
            FontError::ImageNotCorrectDimensions => "Image not correct dimensions".to_owned(),
            FontError::FileNotCorrectSize => "File not correct size".to_owned(),
            FontError::InvalidXBinFile => "Invalid XBin file".to_owned(),
            FontError::InvalidADFFile => "Invalid ADF file".to_owned(),
            FontError::InvalidIDFFile => "Invalid IDF file".to_owned(),
            FontError::NoFontDataFound => "No font data found".to_owned(),
        }
    }
}

} // verus!
