//! Changes to a record that follow a rule: which records take display
//! settings, how dates are written, and what a file's extension says about
//! its format.

use super::aspect_ratio::AspectRatio;
use super::datatype::DataType;
use super::filetype::FileType;
use super::layout::Record;
use super::letter_spacing::LetterSpacing;
use super::Sauce;
use crate::string::{push_zero_padded, same_text, zero_padded};
use vstd::prelude::*;
use vstd::string::StrSliceExecFns;

verus! {

/// Whether a record describes text for a screen, which alone has ice
/// colours, a letter spacing and an aspect ratio: a binary text, or a
/// character file in ASCII, ANSI or ANSIMation.
pub open spec fn is_screen_text(record: Record) -> bool {
    record.datatype == Some(DataType::BinaryText) || record.filetype == Some(FileType::ASCII)
        || record.filetype == Some(FileType::ANSI) || record.filetype == Some(
        FileType::ANSIMation,
    )
}

/// What a file's pixel dimensions are to a record.
#[derive(Debug, Clone, Copy, PartialEq, Eq, Structural)]
pub enum Dimensions {
    /// The record cannot be written without them.
    Needed,
    /// The record states them where they are known.
    Wanted,
    /// The record does not state them.
    Unused,
}

/// What the extension of a file says about the file.
#[derive(Debug, Clone, Copy, PartialEq, Eq, Structural)]
pub struct Detected {
    pub datatype: DataType,
    pub filetype: FileType,
    pub dimensions: Dimensions,
}

/// What an extension in upper case says about a file, where it says
/// anything.
pub open spec fn detected(extension: Seq<char>) -> Option<Detected> {
    if extension == "GIF"@ {
        Some(
            Detected {
                datatype: DataType::Bitmap,
                filetype: FileType::GIF,
                dimensions: Dimensions::Needed,
            },
        )
    } else if extension == "IT"@ {
        Some(
            Detected {
                datatype: DataType::Audio,
                filetype: FileType::IT,
                dimensions: Dimensions::Unused,
            },
        )
    } else if extension == "JPG"@ || extension == "JPEG "@ {
        Some(
            Detected {
                datatype: DataType::Bitmap,
                filetype: FileType::JPG,
                dimensions: Dimensions::Wanted,
            },
        )
    } else if extension == "MP4"@ {
        Some(
            Detected {
                datatype: DataType::Bitmap,
                filetype: FileType::MPG,
                dimensions: Dimensions::Unused,
            },
        )
    } else if extension == "PNG"@ {
        Some(
            Detected {
                datatype: DataType::Bitmap,
                filetype: FileType::PNG,
                dimensions: Dimensions::Needed,
            },
        )
    } else if extension == "RIP"@ {
        Some(
            Detected {
                datatype: DataType::Character,
                filetype: FileType::RIPScript,
                dimensions: Dimensions::Unused,
            },
        )
    } else if extension == "S3M"@ {
        Some(
            Detected {
                datatype: DataType::Audio,
                filetype: FileType::S3M,
                dimensions: Dimensions::Unused,
            },
        )
    } else {
        None
    }
}

/// What an extension in upper case says about a file.
pub fn detect(extension: &str) -> (r: Option<Detected>)
    ensures
        r == detected(extension@),
{
    if same_text(extension, "GIF") {
        Some(
            Detected {
                datatype: DataType::Bitmap,
                filetype: FileType::GIF,
                dimensions: Dimensions::Needed,
            },
        )
    } else if same_text(extension, "IT") {
        Some(
            Detected {
                datatype: DataType::Audio,
                filetype: FileType::IT,
                dimensions: Dimensions::Unused,
            },
        )
    } else if same_text(extension, "JPG") || same_text(extension, "JPEG ") {
        Some(
            Detected {
                datatype: DataType::Bitmap,
                filetype: FileType::JPG,
                dimensions: Dimensions::Wanted,
            },
        )
    } else if same_text(extension, "MP4") {
        Some(
            Detected {
                datatype: DataType::Bitmap,
                filetype: FileType::MPG,
                dimensions: Dimensions::Unused,
            },
        )
    } else if same_text(extension, "PNG") {
        Some(
            Detected {
                datatype: DataType::Bitmap,
                filetype: FileType::PNG,
                dimensions: Dimensions::Needed,
            },
        )
    } else if same_text(extension, "RIP") {
        Some(
            Detected {
                datatype: DataType::Character,
                filetype: FileType::RIPScript,
                dimensions: Dimensions::Unused,
            },
        )
    } else if same_text(extension, "S3M") {
        Some(
            Detected {
                datatype: DataType::Audio,
                filetype: FileType::S3M,
                dimensions: Dimensions::Unused,
            },
        )
    } else {
        None
    }
}

/// Whether what was detected can be put into a record, given the pixel
/// dimensions that are known of the file.
pub open spec fn can_apply(found: Detected, size: Option<(usize, usize)>) -> bool {
    found.dimensions == Dimensions::Needed ==> size is Some
}

impl Sauce {
    /// Whether the record describes text for a screen.
    pub fn is_screen_text(&self) -> (r: bool)
        ensures
            r == is_screen_text(self@),
    {
        match &self.datatype {
            Some(DataType::BinaryText) => true,
            _ => match &self.filetype {
                Some(FileType::ASCII) | Some(FileType::ANSI) | Some(FileType::ANSIMation) => true,
                _ => false,
            },
        }
    }

    /// Turns ice colours on or off where the record describes text for a
    /// screen, and says whether it does.
    pub fn set_ice_colors(&mut self, ice_colors: bool) -> (changed: bool)
        ensures
            changed == is_screen_text(old(self)@),
            changed ==> *final(self) == (Sauce { ice_colors, ..*old(self) }),
            !changed ==> *final(self) == *old(self),
    {
        if self.is_screen_text() {
            self.ice_colors = ice_colors;
            true
        } else {
            false
        }
    }

    /// Sets or unsets the aspect ratio where the record describes text for a
    /// screen, and says whether it does.
    pub fn set_aspect_ratio(&mut self, aspect_ratio: Option<AspectRatio>) -> (changed: bool)
        ensures
            changed == is_screen_text(old(self)@),
            changed ==> *final(self) == (Sauce { aspect_ratio, ..*old(self) }),
            !changed ==> *final(self) == *old(self),
    {
        if self.is_screen_text() {
            self.aspect_ratio = aspect_ratio;
            true
        } else {
            false
        }
    }

    /// Sets or unsets the letter spacing where the record describes text for
    /// a screen, and says whether it does.
    pub fn set_letter_spacing(&mut self, letter_spacing: Option<LetterSpacing>) -> (changed: bool)
        ensures
            changed == is_screen_text(old(self)@),
            changed ==> *final(self) == (Sauce { letter_spacing, ..*old(self) }),
            !changed ==> *final(self) == *old(self),
    {
        if self.is_screen_text() {
            self.letter_spacing = letter_spacing;
            true
        } else {
            false
        }
    }

    /// Puts what was detected of a file into the record: its datatype and
    /// filetype, and its width and height where they are known and the format
    /// has them. Leaves the record as it is, and says so, where the format
    /// needs dimensions and none are known.
    pub fn set_detected(&mut self, found: Detected, size: Option<(usize, usize)>) -> (changed:
        bool)
        ensures
            changed == can_apply(found, size),
            !changed ==> *final(self) == *old(self),
            changed ==> *final(self) == (Sauce {
                datatype: Some(found.datatype),
                filetype: Some(found.filetype),
                info_1: match size {
                    Some((width, _)) if found.dimensions != Dimensions::Unused => width,
                    _ => old(self).info_1,
                },
                info_2: match size {
                    Some((_, height)) if found.dimensions != Dimensions::Unused => height,
                    _ => old(self).info_2,
                },
                ..*old(self)
            }),
    {
        let with_size: Option<(usize, usize)> = match found.dimensions {
            Dimensions::Needed => match size {
                Some(size) => Some(size),
                None => {
                    return false;
                },
            },
            Dimensions::Wanted => size,
            Dimensions::Unused => None,
        };
        self.datatype = Some(found.datatype);
        self.filetype = Some(found.filetype);
        match with_size {
            Some((width, height)) => {
                self.info_1 = width;
                self.info_2 = height;
            },
            None => {},
        }
        true
    }

    /// Sets the comments, or unsets them where the text is empty.
    pub fn set_comments(&mut self, comments: &str)
        ensures
            final(self)@ == (Record {
                comments: if comments@.len() == 0 {
                    None
                } else {
                    Some(comments@)
                },
                ..old(self)@
            }),
    {
        if comments.unicode_len() == 0 {
            self.comments = None;
        } else {
            self.comments = Some(comments.to_owned());
        }
    }

    /// Sets the year, written with at least four digits.
    pub fn set_year(&mut self, year: usize)
        ensures
            final(self)@ == (Record { year: zero_padded(year as nat, 4), ..old(self)@ }),
    {
        let mut text = String::new();
        push_zero_padded(&mut text, year, 4);
        assert(text@ =~= zero_padded(year as nat, 4));
        self.year = text;
    }

    /// Sets the month, written with at least two digits.
    pub fn set_month(&mut self, month: usize)
        ensures
            final(self)@ == (Record { month: zero_padded(month as nat, 2), ..old(self)@ }),
    {
        let mut text = String::new();
        push_zero_padded(&mut text, month, 2);
        assert(text@ =~= zero_padded(month as nat, 2));
        self.month = text;
    }

    /// Sets the day of the month, written with at least two digits.
    pub fn set_day(&mut self, day: usize)
        ensures
            final(self)@ == (Record { date: zero_padded(day as nat, 2), ..old(self)@ }),
    {
        let mut text = String::new();
        push_zero_padded(&mut text, day, 2);
        assert(text@ =~= zero_padded(day as nat, 2));
        self.date = text;
    }
}

} // verus!
