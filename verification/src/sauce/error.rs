//! What can go wrong when a trailer is read or written.

use crate::bytes::BytesError;
use vstd::prelude::*;

verus! {

/// Why a trailer could not be read or written.
#[derive(Debug, Clone, Copy, PartialEq, Eq, Structural)]
pub enum SauceError {
    /// The byte in front of the trailer is not the end-of-file marker.
    EOFValueNotFound,
    /// The datatype byte is none of the known codes.
    InvalidDataType,
    /// The filetype byte is not valid for the record's datatype.
    InvalidFileType,
    /// The record announces comment lines that are not there.
    CommentsNotFound,
    /// Both letter spacing bits of the flags byte are set.
    InvalidLetterSpacingValue,
    /// Both aspect ratio bits of the flags byte are set.
    InvalidAspectRatioValue,
    /// The comments take more than 255 lines.
    CommentsTooLarge,
    /// A field does not fit in its slot.
    TooLarge,
}

impl SauceError {
    /// The message shown for this error.
    pub open spec fn message(self) -> Seq<char> {
        match self {
            SauceError::EOFValueNotFound => "EOF value not found"@,
            SauceError::InvalidDataType => "Invalid datatype"@,
            SauceError::InvalidFileType => "Invalid filetype"@,
            SauceError::CommentsNotFound => "Comments not found"@,
            SauceError::InvalidLetterSpacingValue => "Invalid letter spacing value"@,
            SauceError::InvalidAspectRatioValue => "Invalid aspect ratio value"@,
            SauceError::CommentsTooLarge => "Comments too large"@,
            SauceError::TooLarge => "Bytes too large"@,
        }
    }

    /// Renders the error as text.
    pub fn to_string(&self) -> (r: String)
        ensures
            r@ == self.message(),
    {
        match self {
            SauceError::EOFValueNotFound => "EOF value not found".to_owned(),
            SauceError::InvalidDataType => "Invalid datatype".to_owned(),
            SauceError::InvalidFileType => "Invalid filetype".to_owned(),
            SauceError::CommentsNotFound => "Comments not found".to_owned(),
            SauceError::InvalidLetterSpacingValue => "Invalid letter spacing value".to_owned(),
            SauceError::InvalidAspectRatioValue => "Invalid aspect ratio value".to_owned(),
            SauceError::CommentsTooLarge => "Comments too large".to_owned(),
            SauceError::TooLarge => "Bytes too large".to_owned(),
        }
    }
}

impl From<BytesError> for SauceError {
    fn from(e: BytesError) -> (r: SauceError) {
        SauceError::TooLarge
    }
}

impl vstd::std_specs::convert::FromSpecImpl<BytesError> for SauceError {
    open spec fn obeys_from_spec() -> bool {
        true
    }

    open spec fn from_spec(e: BytesError) -> SauceError {
        SauceError::TooLarge
    }
}

} // verus!
