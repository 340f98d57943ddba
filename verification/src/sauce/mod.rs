//! The trailer record: its fields, its bytes, and how it is put on a file
//! and taken off again.

pub mod aspect_ratio;
pub mod datatype;
pub mod display;
pub mod edit;
pub mod error;
pub mod filetype;
pub mod laws;
pub mod layout;
pub mod letter_spacing;

pub use self::aspect_ratio::AspectRatio;
pub use self::datatype::{AsDataType, DataType};
pub use self::error::SauceError;
pub use self::filetype::{AsFileType, FileType};
pub use self::layout::Record;
pub use self::letter_spacing::LetterSpacing;

use self::datatype::datatype_code;
use self::filetype::filetype_code;
use self::layout::{
    added, content_len, content_of, decode, decoded_comments, decoded_lines, encode,
    encoded_comments, encoded_record, fields_fit, flags_of, lines_of, removed, with_filesize,
    COMMENT_ID, LINE_LEN, MAX_LINES, RECORD_LEN, SAUCE_ID,
};
use crate::ascii;
use crate::bytes::{
    le_bytes, le_value, pad_with, strip_trailing, written, AsUSize, BytesError, PackToBytes,
    VecOps,
};
use crate::string::{as_cp437_bytes, decode_text, encode_text, from_cp437_bytes};
use vstd::prelude::*;
use vstd::slice::{slice_subrange, slice_to_vec};
use vstd::string::StringExecFns;

verus! {

/// What a trailer says about the file that it ends.
#[derive(Debug, Clone, PartialEq, Eq)]
pub struct Sauce {
    /// The path of the file that the record was read from, where it was read
    /// from one.
    pub file: Option<String>,
    pub title: String,
    pub author: String,
    pub group: String,
    /// Four digits.
    pub year: String,
    /// Two digits.
    pub month: String,
    /// Two digits.
    pub date: String,
    /// The length of the file without its trailer, as the record states it.
    pub filesize: usize,
    /// The length of the file without its trailer, as found when the record
    /// was read.
    pub actual_filesize: usize,
    pub datatype: Option<DataType>,
    pub filetype: Option<FileType>,
    pub info_1: usize,
    pub info_2: usize,
    pub info_3: usize,
    pub info_4: usize,
    pub ice_colors: bool,
    pub letter_spacing: Option<LetterSpacing>,
    pub aspect_ratio: Option<AspectRatio>,
    pub font_name: String,
    /// Comments that are empty are written like none.
    pub comments: Option<String>,
}

impl View for Sauce {
    type V = Record;

    open spec fn view(&self) -> Record {
        Record {
            file: match self.file {
                Some(f) => Some(f@),
                None => None,
            },
            title: self.title@,
            author: self.author@,
            group: self.group@,
            year: self.year@,
            month: self.month@,
            date: self.date@,
            filesize: self.filesize as nat,
            actual_filesize: self.actual_filesize as nat,
            datatype: self.datatype,
            filetype: self.filetype,
            info_1: self.info_1 as nat,
            info_2: self.info_2 as nat,
            info_3: self.info_3 as nat,
            info_4: self.info_4 as nat,
            ice_colors: self.ice_colors,
            letter_spacing: self.letter_spacing,
            aspect_ratio: self.aspect_ratio,
            font_name: self.font_name@,
            comments: match self.comments {
                Some(c) => Some(c@),
                None => None,
            },
        }
    }
}

/// The record that says nothing: every text empty, every number zero, every
/// choice unset.
pub open spec fn empty_record() -> Record {
    Record {
        file: None,
        title: Seq::empty(),
        author: Seq::empty(),
        group: Seq::empty(),
        year: Seq::empty(),
        month: Seq::empty(),
        date: Seq::empty(),
        filesize: 0,
        actual_filesize: 0,
        datatype: None,
        filetype: None,
        info_1: 0,
        info_2: 0,
        info_3: 0,
        info_4: 0,
        ice_colors: false,
        letter_spacing: None,
        aspect_ratio: None,
        font_name: Seq::empty(),
        comments: None,
    }
}

impl Default for Sauce {
    fn default() -> (r: Sauce)
        ensures
            r@ == empty_record(),
    {
        Sauce::new()
    }
}

/// Whether `bytes` holds `id` at `start`.
fn holds_id<const N: usize>(bytes: &[u8], start: usize, id: &[u8; N]) -> (r: bool)
    requires
        start + N <= bytes@.len(),
    ensures
        r == (bytes@.subrange(start as int, start + N) == id@),
{
    let len: usize = bytes.len();
    let mut i: usize = 0;
    while i < N
        invariant
            i <= N,
            start + N <= bytes@.len() == len,
            bytes@.subrange(start as int, start + i) == id@.subrange(0, i as int),
        decreases N - i,
    {
        if bytes[start + i] != id[i] {
            assert(bytes@.subrange(start as int, start + N)[i as int] != id@[i as int]);
            return false;
        }
        i += 1;
        assert(bytes@.subrange(start as int, start + i) =~= id@.subrange(0, i as int));
    }
    assert(id@.subrange(0, N as int) == id@);
    true
}

/// The text in the slot `from..to` of a record, after the fill at its end has
/// been taken off.
fn stripped_text(record: &[u8], from: usize, to: usize, fill: u8) -> (r: String)
    requires
        from <= to <= record@.len(),
    ensures
        r@ == decode_text(strip_trailing(record@.subrange(from as int, to as int), fill)),
{
    let mut field = slice_to_vec(slice_subrange(record, from, to));
    field.strip_trailing_value(fill);
    from_cp437_bytes(&field)
}

/// The text in the slot `from..to` of a record, as it stands.
fn plain_text(record: &[u8], from: usize, to: usize) -> (r: String)
    requires
        from <= to <= record@.len(),
    ensures
        r@ == decode_text(record@.subrange(from as int, to as int)),
{
    let field = slice_to_vec(slice_subrange(record, from, to));
    from_cp437_bytes(&field)
}

/// The number in the slot `from..to` of a record.
fn number(record: &[u8], from: usize, to: usize) -> (r: usize)
    requires
        from <= to <= record@.len(),
        to - from <= 4,
    ensures
        r == le_value(record@.subrange(from as int, to as int)),
{
    slice_subrange(record, from, to).as_usize()
}

/// The text of a comment block of `lines` lines.
fn read_comments(block: &[u8], lines: usize) -> (r: String)
    requires
        0 < lines <= 255,
        block@.len() == 64 * lines,
    ensures
        r@ == decoded_comments(block@, lines as nat),
{
    let mut comments = String::new();
    let mut i: usize = 0;
    while i < lines - 1
        invariant
            0 < lines <= 255,
            block@.len() == 64 * lines,
            i <= lines - 1,
            comments@ == decoded_lines(block@, i as nat),
        decreases lines - i,
    {
        let line = plain_text(block, i * LINE_LEN, i * LINE_LEN + LINE_LEN);
        comments.append(line.as_str());
        i += 1;
    }
    let last = stripped_text(block, i * LINE_LEN, i * LINE_LEN + LINE_LEN, ascii::SPACE);
    comments.append(last.as_str());
    comments
}

/// Appends the slot of `width` bytes that holds `src`, or fails where `src`
/// is longer than the slot.
fn push_field(trailer: &mut Vec<u8>, src: &Vec<u8>, width: usize) -> (r: Result<(), BytesError>)
    ensures
        r is Ok <==> src@.len() <= width,
        r is Ok ==> final(trailer)@ == old(trailer)@ + pad_with(src@, width as nat, ascii::NULL),
        r is Err ==> final(trailer)@ == old(trailer)@,
{
    let mut slot: Vec<u8> = vec![ascii::NULL; width];
    match src.write_to_slice(slot.as_mut_slice()) {
        Ok(()) => {
            assert(slot@ =~= pad_with(src@, width as nat, ascii::NULL));
            trailer.append(&mut slot);
            Ok(())
        },
        Err(e) => Err(e),
    }
}

/// Appends the `width` least significant bytes of `value`.
fn push_number(trailer: &mut Vec<u8>, value: usize, width: usize)
    ensures
        final(trailer)@ == old(trailer)@ + le_bytes(value as nat, width as nat),
{
    let mut slot: Vec<u8> = vec![ascii::NULL; width];
    value.pack_to_bytes(slot.as_mut_slice());
    trailer.append(&mut slot);
}

/// Appends the bytes of `id`.
fn push_id<const N: usize>(trailer: &mut Vec<u8>, id: &[u8; N])
    ensures
        final(trailer)@ == old(trailer)@ + id@,
{
    let mut i: usize = 0;
    while i < N
        invariant
            i <= N,
            trailer@ == old(trailer)@ + id@.subrange(0, i as int),
        decreases N - i,
    {
        trailer.push(id[i]);
        i += 1;
        assert(trailer@ =~= old(trailer)@ + id@.subrange(0, i as int));
    }
    assert(id@.subrange(0, N as int) == id@);
}

impl Sauce {
    /// A record that says nothing.
    pub fn new() -> (r: Sauce)
        ensures
            r@ == empty_record(),
    {
        Sauce {
            file: None,
            title: String::new(),
            author: String::new(),
            group: String::new(),
            year: String::new(),
            month: String::new(),
            date: String::new(),
            filesize: 0,
            actual_filesize: 0,
            datatype: None,
            filetype: None,
            info_1: 0,
            info_2: 0,
            info_3: 0,
            info_4: 0,
            ice_colors: false,
            letter_spacing: None,
            aspect_ratio: None,
            font_name: String::new(),
            comments: None,
        }
    }

    /// Reads the record at the end of a file. Gives nothing where the file
    /// has no record, and an error where it has one that is unsound.
    pub fn from_bytes(bytes: &[u8]) -> (r: Result<Option<Sauce>, SauceError>)
        ensures
            match r {
                Ok(Some(sauce)) => decode(bytes@) == Ok::<_, SauceError>(Some(sauce@)),
                Ok(None) => decode(bytes@) == Ok::<Option<Record>, SauceError>(None),
                Err(e) => decode(bytes@) == Err::<Option<Record>, _>(e),
            },
    {
        if bytes.len() < RECORD_LEN + 1 {
            return Ok(None);
        }
        let record = slice_subrange(bytes, bytes.len() - RECORD_LEN, bytes.len());
        if !holds_id(record, 0, &SAUCE_ID) {
            return Ok(None);
        }
        let title = stripped_text(record, 7, 42, ascii::SPACE);
        let author = stripped_text(record, 42, 62, ascii::SPACE);
        let group = stripped_text(record, 62, 82, ascii::SPACE);
        let year = plain_text(record, 82, 86);
        let month = plain_text(record, 86, 88);
        let date = plain_text(record, 88, 90);
        let filesize = number(record, 90, 94);
        let datatype = match record[94].as_datatype() {
            Ok(datatype) => datatype,
            Err(e) => {
                return Err(e);
            },
        };
        let filetype = match record[95].as_filetype(&datatype) {
            Ok(filetype) => filetype,
            Err(e) => {
                return Err(e);
            },
        };
        let info_1 = number(record, 96, 98);
        let info_2 = number(record, 98, 100);
        let info_3 = number(record, 100, 102);
        let info_4 = number(record, 102, 104);
        let lines: usize = record[104] as usize;
        let flags: u8 = record[105];
        let ice_colors = (flags & 1) == 1;
        let spacing_bits: u8 = (flags >> 1) & 3;
        let ratio_bits: u8 = (flags >> 3) & 3;
        let letter_spacing = match spacing_bits {
            0 => None,
            1 => Some(LetterSpacing::EightPixels),
            2 => Some(LetterSpacing::NinePixels),
            _ => {
                return Err(SauceError::InvalidLetterSpacingValue);
            },
        };
        let aspect_ratio = match ratio_bits {
            0 => None,
            1 => Some(AspectRatio::Legacy),
            2 => Some(AspectRatio::Modern),
            _ => {
                return Err(SauceError::InvalidAspectRatioValue);
            },
        };
        let font_name = stripped_text(record, 106, 128, ascii::NULL);
        let actual_filesize: usize;
        let comments: Option<String>;
        if lines > 0 {
            if bytes.len() < 134 + lines * LINE_LEN {
                return Err(SauceError::CommentsNotFound);
            }
            actual_filesize = bytes.len() - lines * LINE_LEN - 134;
            if bytes[actual_filesize] != ascii::EOF {
                return Err(SauceError::EOFValueNotFound);
            }
            if !holds_id(bytes, actual_filesize + 1, &COMMENT_ID) {
                return Err(SauceError::CommentsNotFound);
            }
            let block = slice_subrange(bytes, actual_filesize + 6, bytes.len() - RECORD_LEN);
            comments = Some(read_comments(block, lines));
        } else {
            actual_filesize = bytes.len() - RECORD_LEN - 1;
            if bytes[actual_filesize] != ascii::EOF {
                return Err(SauceError::EOFValueNotFound);
            }
            comments = None;
        }
        Ok(
            Some(
                Sauce {
                    file: None,
                    title,
                    author,
                    group,
                    year,
                    month,
                    date,
                    filesize,
                    actual_filesize,
                    datatype,
                    filetype,
                    info_1,
                    info_2,
                    info_3,
                    info_4,
                    ice_colors,
                    letter_spacing,
                    aspect_ratio,
                    font_name,
                    comments,
                },
            ),
        )
    }

    /// The flags byte of the record.
    fn flags(&self) -> (r: u8)
        ensures
            r == flags_of(self@),
    {
        let ice: u8 = if self.ice_colors {
            1
        } else {
            0
        };
        let spacing: u8 = match &self.letter_spacing {
            Some(LetterSpacing::EightPixels) => 2,
            Some(LetterSpacing::NinePixels) => 4,
            None => 0,
        };
        let ratio: u8 = match &self.aspect_ratio {
            Some(AspectRatio::Legacy) => 8,
            Some(AspectRatio::Modern) => 16,
            None => 0,
        };
        ice + spacing + ratio
    }

    /// Appends the comment block, where the comments take a line at all, and
    /// gives the number of its lines.
    fn write_comments(&self, trailer: &mut Vec<u8>) -> (r: Result<usize, SauceError>)
        ensures
            match r {
                Ok(lines) => {
                    &&& lines == lines_of(self@)
                    &&& lines <= 255
                    &&& final(trailer)@ == old(trailer)@ + encoded_comments(self@)
                },
                Err(e) => {
                    &&& e == SauceError::CommentsTooLarge
                    &&& lines_of(self@) > 255
                    &&& final(trailer)@ == old(trailer)@
                },
            },
    {
        match &self.comments {
            Some(comments) => {
                let mut comment_bytes = as_cp437_bytes(comments.as_str());
                let mut lines: usize = comment_bytes.len() / LINE_LEN;
                if comment_bytes.len() % LINE_LEN != 0 {
                    lines += 1;
                }
                if lines > MAX_LINES {
                    return Err(SauceError::CommentsTooLarge);
                }
                if lines > 0 {
                    comment_bytes.pad_with_spaces(lines * LINE_LEN);
                    push_id(trailer, &COMMENT_ID);
                    trailer.append(&mut comment_bytes);
                }
                assert(trailer@ =~= old(trailer)@ + encoded_comments(self@));
                Ok(lines)
            },
            None => {
                assert(trailer@ =~= old(trailer)@ + encoded_comments(self@));
                Ok(0)
            },
        }
    }

    /// Appends the 128 bytes of the record.
    fn write_record(&self, trailer: &mut Vec<u8>, lines: usize) -> (r: Result<(), SauceError>)
        requires
            lines == lines_of(self@),
            lines <= 255,
        ensures
            r is Ok <==> fields_fit(self@),
            r is Ok ==> final(trailer)@ == old(trailer)@ + encoded_record(self@),
            r is Err ==> r == Err::<(), _>(SauceError::TooLarge),
    {
        let ghost head = trailer@;
        let ghost record = self@;
        push_id(trailer, &SAUCE_ID);
        let ghost mut part = SAUCE_ID@;

        let mut title = as_cp437_bytes(self.title.as_str());
        title.pad_with_spaces(35);
        if push_field(trailer, &title, 35).is_err() {
            return Err(SauceError::TooLarge);
        }
        proof {
            let piece = pad_with(encode_text(record.title), 35, ascii::SPACE);
            assert(pad_with(piece, 35, ascii::NULL) == piece);
            assert(trailer@ =~= head + (part + piece));
            part = part + piece;
        }

        let mut author = as_cp437_bytes(self.author.as_str());
        author.pad_with_spaces(20);
        if push_field(trailer, &author, 20).is_err() {
            return Err(SauceError::TooLarge);
        }
        proof {
            let piece = pad_with(encode_text(record.author), 20, ascii::SPACE);
            assert(pad_with(piece, 20, ascii::NULL) == piece);
            assert(trailer@ =~= head + (part + piece));
            part = part + piece;
        }

        let mut group = as_cp437_bytes(self.group.as_str());
        group.pad_with_spaces(20);
        if push_field(trailer, &group, 20).is_err() {
            return Err(SauceError::TooLarge);
        }
        proof {
            let piece = pad_with(encode_text(record.group), 20, ascii::SPACE);
            assert(pad_with(piece, 20, ascii::NULL) == piece);
            assert(trailer@ =~= head + (part + piece));
            part = part + piece;
        }

        let year = as_cp437_bytes(self.year.as_str());
        if push_field(trailer, &year, 4).is_err() {
            return Err(SauceError::TooLarge);
        }
        proof {
            let piece = pad_with(encode_text(record.year), 4, ascii::NULL);
            assert(trailer@ =~= head + (part + piece));
            part = part + piece;
        }

        let month = as_cp437_bytes(self.month.as_str());
        if push_field(trailer, &month, 2).is_err() {
            return Err(SauceError::TooLarge);
        }
        proof {
            let piece = pad_with(encode_text(record.month), 2, ascii::NULL);
            assert(trailer@ =~= head + (part + piece));
            part = part + piece;
        }

        let date = as_cp437_bytes(self.date.as_str());
        if push_field(trailer, &date, 2).is_err() {
            return Err(SauceError::TooLarge);
        }
        proof {
            let piece = pad_with(encode_text(record.date), 2, ascii::NULL);
            assert(trailer@ =~= head + (part + piece));
            part = part + piece;
        }

        push_number(trailer, self.filesize, 4);
        proof {
            let piece = le_bytes(record.filesize, 4);
            assert(trailer@ =~= head + (part + piece));
            part = part + piece;
        }

        let datatype: u8 = match &self.datatype {
            Some(datatype) => datatype.as_u8(),
            None => 0,
        };
        let filetype: u8 = match &self.filetype {
            Some(filetype) => filetype.as_u8(),
            None => 0,
        };
        trailer.push(datatype);
        trailer.push(filetype);
        proof {
            let piece = seq![datatype_code(record.datatype), filetype_code(record.filetype)];
            assert(trailer@ =~= head + (part + piece));
            part = part + piece;
        }

        push_number(trailer, self.info_1, 2);
        proof {
            let piece = le_bytes(record.info_1, 2);
            assert(trailer@ =~= head + (part + piece));
            part = part + piece;
        }
        push_number(trailer, self.info_2, 2);
        proof {
            let piece = le_bytes(record.info_2, 2);
            assert(trailer@ =~= head + (part + piece));
            part = part + piece;
        }
        push_number(trailer, self.info_3, 2);
        proof {
            let piece = le_bytes(record.info_3, 2);
            assert(trailer@ =~= head + (part + piece));
            part = part + piece;
        }
        push_number(trailer, self.info_4, 2);
        proof {
            let piece = le_bytes(record.info_4, 2);
            assert(trailer@ =~= head + (part + piece));
            part = part + piece;
        }

        trailer.push(lines as u8);
        trailer.push(self.flags());
        proof {
            let piece = seq![lines_of(record) as u8, flags_of(record)];
            assert(trailer@ =~= head + (part + piece));
            part = part + piece;
        }

        let mut font_name = as_cp437_bytes(self.font_name.as_str());
        font_name.pad_with_nulls(22);
        if push_field(trailer, &font_name, 22).is_err() {
            return Err(SauceError::TooLarge);
        }
        proof {
            let piece = pad_with(encode_text(record.font_name), 22, ascii::NULL);
            assert(pad_with(piece, 22, ascii::NULL) == piece);
            assert(trailer@ =~= head + (part + piece));
            part = part + piece;
            assert(part == encoded_record(record));
        }
        Ok(())
    }

    /// Writes the record as a trailer: the end-of-file marker, the comment
    /// block where the record has comments that are not empty, and the record
    /// itself. The file size written is the one that the record states.
    pub fn to_bytes(&self) -> (r: Result<Vec<u8>, SauceError>)
        ensures
            match r {
                Ok(trailer) => encode(self@) == Ok::<_, SauceError>(trailer@),
                Err(e) => encode(self@) == Err::<Seq<u8>, _>(e),
            },
    {
        let mut bytes: Vec<u8> = Vec::new();
        bytes.push(ascii::EOF);
        assert(bytes@ =~= seq![ascii::EOF]);
        let lines: usize = match self.write_comments(&mut bytes) {
            Ok(lines) => lines,
            Err(e) => {
                return Err(e);
            },
        };
        match self.write_record(&mut bytes, lines) {
            Ok(()) => Ok(bytes),
            Err(e) => Err(e),
        }
    }

    /// Takes the trailer off a file: gives the file's content where it ends
    /// in a sound trailer, and the file as it is where it has no record.
    pub fn remove_from_bytes(bytes: &[u8]) -> (r: Result<Vec<u8>, SauceError>)
        ensures
            match r {
                Ok(content) => removed(bytes@) == Ok::<_, SauceError>(content@),
                Err(e) => removed(bytes@) == Err::<Seq<u8>, _>(e),
            },
    {
        match Sauce::from_bytes(bytes) {
            Ok(Some(sauce)) => Ok(slice_to_vec(slice_subrange(bytes, 0, sauce.actual_filesize))),
            Ok(None) => {
                assert(bytes@.subrange(0, bytes@.len() as int) == bytes@);
                Ok(slice_to_vec(bytes))
            },
            Err(e) => Err(e),
        }
    }

    /// Puts the record on a file in place of the trailer that the file may
    /// have. The record's file size becomes the length of the file's content.
    ///
    /// Where the file's own trailer is unsound, or the record cannot be
    /// written, the file is left as it is. In the first case the record is
    /// left as it is too.
    pub fn add_to_bytes(&mut self, bytes: &mut Vec<u8>) -> (r: Result<(), SauceError>)
        ensures
            match decode(old(bytes)@) {
                Err(e) => {
                    &&& r == Err::<(), _>(e)
                    &&& *final(self) == *old(self)
                    &&& final(bytes)@ == old(bytes)@
                },
                Ok(_) => {
                    &&& *final(self) == (Sauce {
                        filesize: content_of(old(bytes)@).len() as usize,
                        ..*old(self)
                    })
                    &&& final(self)@ == with_filesize(old(self)@, content_of(old(bytes)@).len())
                    &&& match added(old(bytes)@, old(self)@) {
                        Ok(whole) => r is Ok && final(bytes)@ == whole,
                        Err(e) => r == Err::<(), _>(e) && final(bytes)@ == old(bytes)@,
                    }
                },
            },
    {
        let content_len: usize = match Sauce::from_bytes(bytes.as_slice()) {
            Ok(Some(sauce)) => sauce.actual_filesize,
            Ok(None) => bytes.len(),
            Err(e) => {
                return Err(e);
            },
        };
        self.filesize = content_len;
        let mut trailer = match self.to_bytes() {
            Ok(trailer) => trailer,
            Err(e) => {
                return Err(e);
            },
        };
        bytes.truncate(content_len);
        bytes.append(&mut trailer);
        Ok(())
    }
}

/// Reads the record at the end of a file, and gives nothing both where the
/// file has no record and where it has one that is unsound.
pub fn parse_bytes(bytes: &Vec<u8>) -> (r: Option<Sauce>)
    ensures
        match r {
            Some(sauce) => decode(bytes@) == Ok::<_, SauceError>(Some(sauce@)),
            None => !(decode(bytes@) matches Ok(Some(_))),
        },
{
    match Sauce::from_bytes(bytes.as_slice()) {
        Ok(found) => found,
        Err(_) => None,
    }
}

} // verus!
