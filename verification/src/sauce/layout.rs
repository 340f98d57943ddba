//! The bytes of a trailer, stated as functions between byte sequences and
//! records.
//!
//! A trailer is the end-of-file marker, an optional comment block, and a
//! record of 128 bytes. The comment block is a tag of five bytes and one line
//! of 64 bytes for each line that the record counts.

use super::aspect_ratio::{aspect_ratio_bits, aspect_ratio_flag, aspect_ratio_of, AspectRatio};
use super::datatype::{datatype_code, datatype_of, DataType};
use super::error::SauceError;
use super::filetype::{filetype_code, filetype_of, FileType};
use super::letter_spacing::{
    letter_spacing_bits, letter_spacing_flag, letter_spacing_of, LetterSpacing,
};
use crate::ascii;
use crate::bytes::{le_bytes, le_value, pad_with, strip_trailing};
use crate::string::{decode_text, encode_text};
use vstd::prelude::*;

verus! {

/// The seven bytes that every record begins with: `SAUCE00`.
pub const SAUCE_ID: [u8; 7] = [0x53, 0x41, 0x55, 0x43, 0x45, 0x30, 0x30];

/// The five bytes that every comment block begins with: `COMNT`.
pub const COMMENT_ID: [u8; 5] = [0x43, 0x4f, 0x4d, 0x4e, 0x54];

/// The length of a record.
pub const RECORD_LEN: usize = 128;

/// The length of a comment line.
pub const LINE_LEN: usize = 64;

/// The most comment lines that a record can count.
pub const MAX_LINES: usize = 255;

/// What a trailer says, as mathematical values.
pub struct Record {
    pub file: Option<Seq<char>>,
    pub title: Seq<char>,
    pub author: Seq<char>,
    pub group: Seq<char>,
    pub year: Seq<char>,
    pub month: Seq<char>,
    pub date: Seq<char>,
    pub filesize: nat,
    pub actual_filesize: nat,
    pub datatype: Option<DataType>,
    pub filetype: Option<FileType>,
    pub info_1: nat,
    pub info_2: nat,
    pub info_3: nat,
    pub info_4: nat,
    pub ice_colors: bool,
    pub letter_spacing: Option<LetterSpacing>,
    pub aspect_ratio: Option<AspectRatio>,
    pub font_name: Seq<char>,
    pub comments: Option<Seq<char>>,
}

// ---------------------------------------------------------------------------
// Reading
// ---------------------------------------------------------------------------

/// The last 128 bytes of a file.
pub open spec fn record_bytes(bytes: Seq<u8>) -> Seq<u8> {
    bytes.subrange(bytes.len() - 128, bytes.len() as int)
}

/// Whether a file ends in a record: it is long enough to hold the marker
/// and a record, and its last 128 bytes begin with `SAUCE00`.
pub open spec fn has_record(bytes: Seq<u8>) -> bool {
    bytes.len() >= 129 && record_bytes(bytes).subrange(0, 7) == SAUCE_ID@
}

/// How many comment lines the record of a file counts.
pub open spec fn line_count(bytes: Seq<u8>) -> nat {
    record_bytes(bytes)[104] as nat
}

/// The length of a trailer with `lines` comment lines, marker included.
pub open spec fn trailer_len(lines: nat) -> nat {
    if lines == 0 {
        129
    } else {
        134 + 64 * lines
    }
}

/// The length of what stands in front of the trailer of a file.
pub open spec fn content_len(bytes: Seq<u8>) -> int {
    bytes.len() - trailer_len(line_count(bytes))
}

/// The comment lines of a file, without their tag.
pub open spec fn comment_block(bytes: Seq<u8>) -> Seq<u8> {
    bytes.subrange(content_len(bytes) + 6, bytes.len() - 128)
}

/// Line `i` of a comment block.
pub open spec fn comment_line(block: Seq<u8>, i: int) -> Seq<u8> {
    block.subrange(64 * i, 64 * i + 64)
}

/// The text of the first `n` lines of a comment block, each read by itself
/// and with its trailing spaces kept.
pub open spec fn decoded_lines(block: Seq<u8>, n: nat) -> Seq<char>
    decreases n,
{
    if n == 0 {
        Seq::empty()
    } else {
        decoded_lines(block, (n - 1) as nat) + decode_text(comment_line(block, n - 1))
    }
}

/// The text of a comment block of `n` lines: the lines in order, each read by
/// itself, the last one without its trailing spaces.
pub open spec fn decoded_comments(block: Seq<u8>, n: nat) -> Seq<char>
    recommends
        n > 0,
{
    decoded_lines(block, (n - 1) as nat) + decode_text(
        strip_trailing(comment_line(block, n - 1), ascii::SPACE),
    )
}

/// The first violation that reading a file with a record meets: the datatype
/// byte, the filetype byte, the letter spacing bits, the aspect ratio bits,
/// and then the comment block and the marker in front of the trailer.
pub open spec fn decode_error(bytes: Seq<u8>) -> Option<SauceError> {
    let rec = record_bytes(bytes);
    let lines = line_count(bytes);
    if datatype_of(rec[94]) is Err {
        Some(SauceError::InvalidDataType)
    } else if filetype_of(rec[95], datatype_of(rec[94])->Ok_0) is Err {
        Some(SauceError::InvalidFileType)
    } else if letter_spacing_of(letter_spacing_bits(rec[105])) is Err {
        Some(SauceError::InvalidLetterSpacingValue)
    } else if aspect_ratio_of(aspect_ratio_bits(rec[105])) is Err {
        Some(SauceError::InvalidAspectRatioValue)
    } else if lines > 0 && bytes.len() < trailer_len(lines) {
        Some(SauceError::CommentsNotFound)
    } else if bytes[content_len(bytes)] != ascii::EOF {
        Some(SauceError::EOFValueNotFound)
    } else if lines > 0 && bytes.subrange(content_len(bytes) + 1, content_len(bytes) + 6)
        != COMMENT_ID@ {
        Some(SauceError::CommentsNotFound)
    } else {
        None
    }
}

/// What a file with a sound trailer says.
pub open spec fn decoded(bytes: Seq<u8>) -> Record {
    let rec = record_bytes(bytes);
    let lines = line_count(bytes);
    let datatype = datatype_of(rec[94])->Ok_0;
    Record {
        file: None,
        title: decode_text(strip_trailing(rec.subrange(7, 42), ascii::SPACE)),
        author: decode_text(strip_trailing(rec.subrange(42, 62), ascii::SPACE)),
        group: decode_text(strip_trailing(rec.subrange(62, 82), ascii::SPACE)),
        year: decode_text(rec.subrange(82, 86)),
        month: decode_text(rec.subrange(86, 88)),
        date: decode_text(rec.subrange(88, 90)),
        filesize: le_value(rec.subrange(90, 94)),
        actual_filesize: content_len(bytes) as nat,
        datatype,
        filetype: filetype_of(rec[95], datatype)->Ok_0,
        info_1: le_value(rec.subrange(96, 98)),
        info_2: le_value(rec.subrange(98, 100)),
        info_3: le_value(rec.subrange(100, 102)),
        info_4: le_value(rec.subrange(102, 104)),
        ice_colors: rec[105] & 1 == 1,
        letter_spacing: letter_spacing_of(letter_spacing_bits(rec[105]))->Ok_0,
        aspect_ratio: aspect_ratio_of(aspect_ratio_bits(rec[105]))->Ok_0,
        font_name: decode_text(strip_trailing(rec.subrange(106, 128), ascii::NULL)),
        comments: if lines > 0 {
            Some(decoded_comments(comment_block(bytes), lines))
        } else {
            None
        },
    }
}

/// What reading a file gives: nothing where the file has no record, the first
/// violation where its trailer is unsound, and what the trailer says
/// otherwise.
pub open spec fn decode(bytes: Seq<u8>) -> Result<Option<Record>, SauceError> {
    if !has_record(bytes) {
        Ok(None)
    } else {
        match decode_error(bytes) {
            Some(e) => Err(e),
            None => Ok(Some(decoded(bytes))),
        }
    }
}

/// The file without its trailer: the file itself where reading it finds no
/// sound trailer.
pub open spec fn content_of(bytes: Seq<u8>) -> Seq<u8> {
    match decode(bytes) {
        Ok(Some(record)) => bytes.subrange(0, record.actual_filesize as int),
        _ => bytes,
    }
}

// ---------------------------------------------------------------------------
// Writing
// ---------------------------------------------------------------------------

/// How many lines of 64 bytes the bytes of a comment take.
pub open spec fn lines_for(len: nat) -> nat {
    (len + 63) / 64
}

/// How many comment lines a record's comments take.
pub open spec fn lines_of(record: Record) -> nat {
    match record.comments {
        Some(c) => lines_for(encode_text(c).len()),
        None => 0,
    }
}

/// Whether every field of a record fits in its slot.
pub open spec fn fields_fit(record: Record) -> bool {
    &&& encode_text(record.title).len() <= 35
    &&& encode_text(record.author).len() <= 20
    &&& encode_text(record.group).len() <= 20
    &&& encode_text(record.year).len() <= 4
    &&& encode_text(record.month).len() <= 2
    &&& encode_text(record.date).len() <= 2
    &&& encode_text(record.font_name).len() <= 22
}

/// The flags byte of a record.
pub open spec fn flags_of(record: Record) -> u8 {
    ((if record.ice_colors {
        1int
    } else {
        0int
    }) + letter_spacing_flag(record.letter_spacing) + aspect_ratio_flag(
        record.aspect_ratio,
    )) as u8
}

/// The 128 bytes of a record whose fields fit.
pub open spec fn encoded_record(record: Record) -> Seq<u8> {
    SAUCE_ID@ + pad_with(encode_text(record.title), 35, ascii::SPACE) + pad_with(
        encode_text(record.author),
        20,
        ascii::SPACE,
    ) + pad_with(encode_text(record.group), 20, ascii::SPACE) + pad_with(
        encode_text(record.year),
        4,
        ascii::NULL,
    ) + pad_with(encode_text(record.month), 2, ascii::NULL) + pad_with(
        encode_text(record.date),
        2,
        ascii::NULL,
    ) + le_bytes(record.filesize, 4) + seq![
        datatype_code(record.datatype),
        filetype_code(record.filetype),
    ] + le_bytes(record.info_1, 2) + le_bytes(record.info_2, 2) + le_bytes(record.info_3, 2)
        + le_bytes(record.info_4, 2) + seq![lines_of(record) as u8, flags_of(record)] + pad_with(
        encode_text(record.font_name),
        22,
        ascii::NULL,
    )
}

/// The comment block of a record: the tag and the comment's bytes, filled up
/// with spaces to whole lines. There is no block where the comments take no
/// line, be it that the record has no comments or that they are empty: a
/// block stands in a trailer exactly where the record counts lines.
pub open spec fn encoded_comments(record: Record) -> Seq<u8> {
    match record.comments {
        Some(c) => if lines_of(record) > 0 {
            COMMENT_ID@ + pad_with(encode_text(c), 64 * lines_of(record), ascii::SPACE)
        } else {
            Seq::empty()
        },
        None => Seq::empty(),
    }
}

/// The whole trailer of a record: marker, comment block, record.
pub open spec fn encoded(record: Record) -> Seq<u8> {
    seq![ascii::EOF] + encoded_comments(record) + encoded_record(record)
}

/// What writing a record gives: `CommentsTooLarge` where the comments take
/// more than 255 lines, else `TooLarge` where a field does not fit, else the
/// trailer.
pub open spec fn encode(record: Record) -> Result<Seq<u8>, SauceError> {
    if lines_of(record) > 255 {
        Err(SauceError::CommentsTooLarge)
    } else if !fields_fit(record) {
        Err(SauceError::TooLarge)
    } else {
        Ok(encoded(record))
    }
}

/// A record with another file size.
pub open spec fn with_filesize(record: Record, filesize: nat) -> Record {
    Record { filesize, ..record }
}

/// What putting a record on a file gives: the file without the trailer it
/// had, followed by the trailer of the record, whose file size is the length
/// of what it follows.
pub open spec fn added(bytes: Seq<u8>, record: Record) -> Result<Seq<u8>, SauceError> {
    match decode(bytes) {
        Err(e) => Err(e),
        Ok(_) => match encode(with_filesize(record, content_of(bytes).len())) {
            Err(e) => Err(e),
            Ok(trailer) => Ok(content_of(bytes) + trailer),
        },
    }
}

/// What taking the trailer off a file gives.
pub open spec fn removed(bytes: Seq<u8>) -> Result<Seq<u8>, SauceError> {
    match decode(bytes) {
        Err(e) => Err(e),
        Ok(_) => Ok(content_of(bytes)),
    }
}

} // verus!
