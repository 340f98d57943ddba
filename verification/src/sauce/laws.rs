//! What holds of reading and writing trailers, proved from their
//! definitions.

use super::aspect_ratio::{aspect_ratio_bits, aspect_ratio_flag, aspect_ratio_of};
use super::datatype::{datatype_code, datatype_of, lemma_datatype_codes};
use super::error::SauceError;
use super::filetype::{filetype_code, filetype_fits, filetype_of, lemma_filetype_fits};
use super::layout::{
    added, comment_block, comment_line, content_len, content_of, decode, decode_error, decoded,
    decoded_comments, decoded_lines, encode, encoded, encoded_comments, encoded_record, fields_fit,
    flags_of, has_record, line_count, lines_for, lines_of, record_bytes, removed, with_filesize,
    Record, COMMENT_ID, SAUCE_ID,
};
use super::letter_spacing::{letter_spacing_bits, letter_spacing_flag, letter_spacing_of};
use crate::ascii;
use crate::bytes::{
    le_bytes, le_value, lemma_le_round_trip, lemma_strip_pad, pad_with, pow256, strip_trailing,
};
use crate::string::{decode_text, encode_text, lemma_ascii_text_survives, text_survives};
use vstd::prelude::*;
use vstd::utf8::is_ascii_chars;

verus! {

/// Where a whole sequence begins with `prefix + piece`, it holds `piece`
/// right behind `prefix`, and begins with `prefix`.
proof fn lemma_slot(whole: Seq<u8>, prefix: Seq<u8>, piece: Seq<u8>)
    requires
        prefix.len() + piece.len() <= whole.len(),
        whole.subrange(0, (prefix.len() + piece.len()) as int) == prefix + piece,
    ensures
        whole.subrange(prefix.len() as int, (prefix.len() + piece.len()) as int) == piece,
        whole.subrange(0, prefix.len() as int) == prefix,
{
    let a = prefix.len() as int;
    let b = (prefix.len() + piece.len()) as int;
    let both = whole.subrange(0, b);
    assert(whole.subrange(a, b) =~= both.subrange(a, b));
    assert(both.subrange(a, b) =~= piece);
    assert(whole.subrange(0, a) =~= both.subrange(0, a));
    assert(both.subrange(0, a) =~= prefix);
}

/// Where the fields of a record fit, its 128 bytes hold each field in its
/// slot.
pub proof fn lemma_encoded_record_layout(record: Record)
    requires
        fields_fit(record),
    ensures
        ({
            let rec = encoded_record(record);
            &&& rec.len() == 128
            &&& rec.subrange(0, 7) == SAUCE_ID@
            &&& rec.subrange(7, 42) == pad_with(encode_text(record.title), 35, ascii::SPACE)
            &&& rec.subrange(42, 62) == pad_with(encode_text(record.author), 20, ascii::SPACE)
            &&& rec.subrange(62, 82) == pad_with(encode_text(record.group), 20, ascii::SPACE)
            &&& rec.subrange(82, 86) == pad_with(encode_text(record.year), 4, ascii::NULL)
            &&& rec.subrange(86, 88) == pad_with(encode_text(record.month), 2, ascii::NULL)
            &&& rec.subrange(88, 90) == pad_with(encode_text(record.date), 2, ascii::NULL)
            &&& rec.subrange(90, 94) == le_bytes(record.filesize, 4)
            &&& rec[94] == datatype_code(record.datatype)
            &&& rec[95] == filetype_code(record.filetype)
            &&& rec.subrange(96, 98) == le_bytes(record.info_1, 2)
            &&& rec.subrange(98, 100) == le_bytes(record.info_2, 2)
            &&& rec.subrange(100, 102) == le_bytes(record.info_3, 2)
            &&& rec.subrange(102, 104) == le_bytes(record.info_4, 2)
            &&& rec[104] == lines_of(record) as u8
            &&& rec[105] == flags_of(record)
            &&& rec.subrange(106, 128) == pad_with(
                encode_text(record.font_name),
                22,
                ascii::NULL,
            )
        }),
{
    let rec = encoded_record(record);
    let f0 = SAUCE_ID@;
    let f1 = pad_with(encode_text(record.title), 35, ascii::SPACE);
    let f2 = pad_with(encode_text(record.author), 20, ascii::SPACE);
    let f3 = pad_with(encode_text(record.group), 20, ascii::SPACE);
    let f4 = pad_with(encode_text(record.year), 4, ascii::NULL);
    let f5 = pad_with(encode_text(record.month), 2, ascii::NULL);
    let f6 = pad_with(encode_text(record.date), 2, ascii::NULL);
    let f7 = le_bytes(record.filesize, 4);
    let f8 = seq![datatype_code(record.datatype), filetype_code(record.filetype)];
    let f9 = le_bytes(record.info_1, 2);
    let f10 = le_bytes(record.info_2, 2);
    let f11 = le_bytes(record.info_3, 2);
    let f12 = le_bytes(record.info_4, 2);
    let f13 = seq![lines_of(record) as u8, flags_of(record)];
    let f14 = pad_with(encode_text(record.font_name), 22, ascii::NULL);
    let p0 = Seq::<u8>::empty();
    let p1 = f0;
    let p2 = p1 + f1;
    let p3 = p2 + f2;
    let p4 = p3 + f3;
    let p5 = p4 + f4;
    let p6 = p5 + f5;
    let p7 = p6 + f6;
    let p8 = p7 + f7;
    let p9 = p8 + f8;
    let p10 = p9 + f9;
    let p11 = p10 + f10;
    let p12 = p11 + f11;
    let p13 = p12 + f12;
    let p14 = p13 + f13;
    let p15 = p14 + f14;
    assert(rec == p15);
    assert(f0.len() == 7);
    assert(f8.len() == 2 && f13.len() == 2);
    assert(rec.len() == 128);
    assert(rec.subrange(0, 128) == rec);
    lemma_slot(rec, p14, f14);
    lemma_slot(rec, p13, f13);
    lemma_slot(rec, p12, f12);
    lemma_slot(rec, p11, f11);
    lemma_slot(rec, p10, f10);
    lemma_slot(rec, p9, f9);
    lemma_slot(rec, p8, f8);
    lemma_slot(rec, p7, f7);
    lemma_slot(rec, p6, f6);
    lemma_slot(rec, p5, f5);
    lemma_slot(rec, p4, f4);
    lemma_slot(rec, p3, f3);
    lemma_slot(rec, p2, f2);
    lemma_slot(rec, p1, f1);
    assert(rec.subrange(94, 96)[0] == rec[94]);
    assert(rec.subrange(94, 96)[1] == rec[95]);
    assert(rec.subrange(104, 106)[0] == rec[104]);
    assert(rec.subrange(104, 106)[1] == rec[105]);
}

/// The flags byte written for a record is read back as the record's three
/// settings.
pub proof fn lemma_flags_round_trip(record: Record)
    ensures
        (flags_of(record) & 1 == 1) == record.ice_colors,
        letter_spacing_of(letter_spacing_bits(flags_of(record))) == Ok::<_, SauceError>(
            record.letter_spacing,
        ),
        aspect_ratio_of(aspect_ratio_bits(flags_of(record))) == Ok::<_, SauceError>(
            record.aspect_ratio,
        ),
{
    let ice: u8 = if record.ice_colors {
        1
    } else {
        0
    };
    let spacing: u8 = letter_spacing_flag(record.letter_spacing);
    let ratio: u8 = aspect_ratio_flag(record.aspect_ratio);
    let flags: u8 = flags_of(record);
    assert(flags == ice + spacing + ratio);
    assert(flags & 1 == ice && (flags >> 1) & 3 == spacing / 2 && (flags >> 3) & 3 == ratio / 8)
        by (bit_vector)
        requires
            ice <= 1,
            spacing == 0 || spacing == 2 || spacing == 4,
            ratio == 0 || ratio == 8 || ratio == 16,
            flags == ice + spacing + ratio,
    ;
}

/// The length of a record's comment block.
pub open spec fn comment_block_len(record: Record) -> nat {
    if lines_of(record) > 0 {
        5 + 64 * lines_of(record)
    } else {
        0
    }
}

/// How many bytes are needed for `len` bytes in whole lines.
proof fn lemma_lines_for(len: nat)
    ensures
        len <= 64 * lines_for(len) < len + 64,
        len > 0 ==> lines_for(len) > 0,
        len == 0 ==> lines_for(len) == 0,
{
}

/// The shape of a file that ends in the trailer written for a record: where
/// the marker, the comment block and the record stand in it.
pub proof fn lemma_trailer_shape(content: Seq<u8>, record: Record)
    requires
        encode(record) is Ok,
    ensures
        ({
            let bytes = content + encoded(record);
            let start = content.len() as int;
            &&& bytes.len() == content.len() + 1 + comment_block_len(record) + 128
            &&& bytes.subrange(0, start) == content
            &&& bytes[start] == ascii::EOF
            &&& record_bytes(bytes) == encoded_record(record)
            &&& has_record(bytes)
            &&& line_count(bytes) == lines_of(record)
            &&& record.comments matches Some(c) ==> (lines_of(record) > 0 ==> {
                &&& bytes.subrange(start + 1, start + 6) == COMMENT_ID@
                &&& bytes.subrange(start + 6, bytes.len() - 128) == pad_with(
                    encode_text(c),
                    64 * lines_of(record),
                    ascii::SPACE,
                )
            })
        }),
{
    let bytes = content + encoded(record);
    let start = content.len() as int;
    let rec = encoded_record(record);
    let block = encoded_comments(record);
    lemma_encoded_record_layout(record);
    assert(COMMENT_ID@.len() == 5);
    match record.comments {
        Some(c) => {
            lemma_lines_for(encode_text(c).len());
            if lines_of(record) > 0 {
                let lines = pad_with(encode_text(c), 64 * lines_of(record), ascii::SPACE);
                assert(lines.len() == 64 * lines_of(record));
                assert(block == COMMENT_ID@ + lines);
                assert(bytes.subrange(start + 1, start + 6) =~= COMMENT_ID@);
                assert(bytes.subrange(start + 6, bytes.len() - 128) =~= lines);
            }
        },
        None => {},
    }
    assert(block.len() == comment_block_len(record));
    assert(bytes.subrange(0, start) =~= content);
    assert(record_bytes(bytes) =~= rec);
}

/// The text of a comment's bytes, read line by line: every 64 bytes by
/// themselves, and what is left at the end by itself.
pub open spec fn text_in_lines(bytes: Seq<u8>) -> Seq<char> {
    let n = lines_for(bytes.len());
    if n == 0 {
        Seq::empty()
    } else {
        decoded_lines(bytes, (n - 1) as nat) + decode_text(
            bytes.subrange(64 * (n - 1), bytes.len() as int),
        )
    }
}

/// Whether a comment comes back unchanged when it is written and read line
/// by line.
pub open spec fn comment_survives(comment: Seq<char>) -> bool {
    text_in_lines(encode_text(comment)) == comment
}

/// The first lines of a comment block do not depend on what follows them.
proof fn lemma_decoded_lines_prefix(a: Seq<u8>, b: Seq<u8>, n: nat)
    requires
        64 * n <= a.len(),
        64 * n <= b.len(),
        a.subrange(0, 64 * n as int) == b.subrange(0, 64 * n as int),
    ensures
        decoded_lines(a, n) == decoded_lines(b, n),
    decreases n,
{
    if n > 0 {
        let m = (n - 1) as nat;
        let lo = 64 * m as int;
        let hi = 64 * n as int;
        assert(a.subrange(0, lo) =~= a.subrange(0, hi).subrange(0, lo));
        assert(b.subrange(0, lo) =~= b.subrange(0, hi).subrange(0, lo));
        lemma_decoded_lines_prefix(a, b, m);
        assert(comment_line(a, n - 1) =~= a.subrange(0, hi).subrange(lo, hi));
        assert(comment_line(b, n - 1) =~= b.subrange(0, hi).subrange(lo, hi));
    }
}

/// A comment's bytes that do not end in a space are read from their comment
/// block as they are read line by line.
pub proof fn lemma_comment_block_text(bytes: Seq<u8>)
    requires
        bytes.len() > 0,
        bytes.last() != ascii::SPACE,
    ensures
        decoded_comments(
            pad_with(bytes, 64 * lines_for(bytes.len()), ascii::SPACE),
            lines_for(bytes.len()),
        ) == text_in_lines(bytes),
{
    let n = lines_for(bytes.len());
    let m = (n - 1) as nat;
    let block = pad_with(bytes, 64 * n, ascii::SPACE);
    lemma_lines_for(bytes.len());
    let lo = 64 * m as int;
    assert(block.subrange(0, lo) =~= bytes.subrange(0, lo));
    lemma_decoded_lines_prefix(block, bytes, m);
    let rest = bytes.subrange(lo, bytes.len() as int);
    assert(rest.last() == bytes.last());
    assert(comment_line(block, n - 1) =~= pad_with(rest, 64, ascii::SPACE));
    lemma_strip_pad(rest, 64, ascii::SPACE);
}

/// Writing a text part by part gives the parts of what writing it whole
/// gives.
proof fn lemma_encode_subrange(text: Seq<char>, from: int, to: int)
    requires
        0 <= from <= to <= text.len(),
    ensures
        encode_text(text).subrange(from, to) == encode_text(text.subrange(from, to)),
{
    assert(encode_text(text).subrange(from, to) =~= encode_text(text.subrange(from, to)));
}

/// The first lines of an ASCII comment are its first characters.
proof fn lemma_ascii_lines(comment: Seq<char>, n: nat)
    requires
        is_ascii_chars(comment),
        64 * n <= comment.len(),
    ensures
        decoded_lines(encode_text(comment), n) == comment.subrange(0, 64 * n as int),
    decreases n,
{
    if n > 0 {
        let m = (n - 1) as nat;
        let lo = 64 * m as int;
        let hi = 64 * n as int;
        lemma_ascii_lines(comment, m);
        let line = comment.subrange(lo, hi);
        lemma_encode_subrange(comment, lo, hi);
        lemma_ascii_text_survives(line);
        assert(comment.subrange(0, hi) =~= comment.subrange(0, lo) + line);
    } else {
        assert(comment.subrange(0, 0) =~= Seq::<char>::empty());
    }
}

/// An ASCII comment comes back unchanged.
pub proof fn lemma_ascii_comment_survives(comment: Seq<char>)
    requires
        is_ascii_chars(comment),
    ensures
        comment_survives(comment),
{
    let bytes = encode_text(comment);
    let n = lines_for(bytes.len());
    lemma_lines_for(bytes.len());
    if n > 0 {
        let m = (n - 1) as nat;
        let lo = 64 * m as int;
        lemma_ascii_lines(comment, m);
        let rest = comment.subrange(lo, comment.len() as int);
        lemma_encode_subrange(comment, lo, comment.len() as int);
        lemma_ascii_text_survives(rest);
        assert(comment =~= comment.subrange(0, lo) + rest);
    } else {
        assert(comment =~= Seq::<char>::empty());
    }
}

/// Whether a text can stand in a slot that is filled up with `fill` and is
/// still the same text when it is read from there: it is no longer than the
/// slot, its bytes do not end in the fill, and the text itself comes back
/// unchanged.
pub open spec fn text_fits_padded(text: Seq<char>, width: nat, fill: u8) -> bool {
    let bytes = encode_text(text);
    &&& bytes.len() <= width
    &&& bytes.len() > 0 ==> bytes.last() != fill
    &&& text_survives(text)
}

/// Whether a text fills a slot: it is exactly as long as the slot, and comes
/// back unchanged.
pub open spec fn text_fills(text: Seq<char>, width: nat) -> bool {
    &&& encode_text(text).len() == width
    &&& text_survives(text)
}

/// Whether a record is read back, field by field, from the trailer that is
/// written for it.
///
/// The three texts that are filled up with spaces, and the font name, which
/// is filled up with null bytes, fit their slots and do not end in the fill.
/// Year, month and day fill their slots. The numbers fit their widths. The
/// filetype belongs to the datatype. The comments, where there are any, are
/// not empty (empty ones are written like none, and so read as none), take
/// no more than 255 lines and do not end in a space. And every text comes
/// back unchanged from its bytes.
pub open spec fn survives(record: Record) -> bool {
    &&& text_fits_padded(record.title, 35, ascii::SPACE)
    &&& text_fits_padded(record.author, 20, ascii::SPACE)
    &&& text_fits_padded(record.group, 20, ascii::SPACE)
    &&& text_fills(record.year, 4)
    &&& text_fills(record.month, 2)
    &&& text_fills(record.date, 2)
    &&& record.filesize < 0x1_0000_0000
    &&& filetype_fits(record.datatype, record.filetype)
    &&& record.info_1 < 0x1_0000
    &&& record.info_2 < 0x1_0000
    &&& record.info_3 < 0x1_0000
    &&& record.info_4 < 0x1_0000
    &&& text_fits_padded(record.font_name, 22, ascii::NULL)
    &&& record.comments matches Some(c) ==> {
        &&& 0 < encode_text(c).len() <= 255 * 64
        &&& encode_text(c).last() != ascii::SPACE
        &&& comment_survives(c)
    }
}

/// What reading gives for a record that was written behind `len` bytes of
/// content: the record, found in no named file, behind content of that
/// length.
pub open spec fn as_read(record: Record, len: nat) -> Record {
    Record { file: None, actual_filesize: len, ..record }
}

/// A text in a padded slot is read back.
proof fn lemma_padded_text(text: Seq<char>, width: nat, fill: u8)
    requires
        text_fits_padded(text, width, fill),
    ensures
        decode_text(strip_trailing(pad_with(encode_text(text), width, fill), fill)) == text,
{
    lemma_strip_pad(encode_text(text), width, fill);
}

/// A number of `width` bytes is read back.
proof fn lemma_number(n: nat, width: nat, bound: nat)
    requires
        n < bound,
        bound == pow256(width),
    ensures
        le_value(le_bytes(n, width)) == n,
{
    lemma_le_round_trip(n, width);
}

/// The widths of the numbers in a record.
proof fn lemma_widths()
    ensures
        pow256(2) == 0x1_0000,
        pow256(4) == 0x1_0000_0000,
{
    reveal_with_fuel(pow256, 5);
}

/// Round trip: a record that survives is written without error, and reading
/// any content followed by its trailer gives the record back, together with
/// the length of the content.
pub proof fn lemma_round_trip(content: Seq<u8>, record: Record)
    requires
        survives(record),
    ensures
        encode(record) == Ok::<_, SauceError>(encoded(record)),
        decode(content + encoded(record)) == Ok::<_, SauceError>(
            Some(as_read(record, content.len())),
        ),
        content_of(content + encoded(record)) == content,
{
    let bytes = content + encoded(record);
    let rec = encoded_record(record);
    match record.comments {
        Some(c) => {
            lemma_lines_for(encode_text(c).len());
        },
        None => {},
    }
    assert(lines_of(record) <= 255);
    assert(fields_fit(record));
    lemma_trailer_shape(content, record);
    lemma_encoded_record_layout(record);
    lemma_flags_round_trip(record);
    lemma_datatype_codes(record.datatype, 0);
    lemma_filetype_fits(record.datatype, record.filetype);
    lemma_widths();
    lemma_number(record.filesize, 4, 0x1_0000_0000);
    lemma_number(record.info_1, 2, 0x1_0000);
    lemma_number(record.info_2, 2, 0x1_0000);
    lemma_number(record.info_3, 2, 0x1_0000);
    lemma_number(record.info_4, 2, 0x1_0000);
    lemma_padded_text(record.title, 35, ascii::SPACE);
    lemma_padded_text(record.author, 20, ascii::SPACE);
    lemma_padded_text(record.group, 20, ascii::SPACE);
    lemma_padded_text(record.font_name, 22, ascii::NULL);
    assert(content_len(bytes) == content.len());
    assert(decode_error(bytes) is None);
    let got = decoded(bytes);
    let want = as_read(record, content.len());
    assert(got.year == want.year);
    assert(got.month == want.month);
    assert(got.date == want.date);
    match record.comments {
        Some(c) => {
            lemma_comment_block_text(encode_text(c));
            assert(comment_block(bytes) == pad_with(
                encode_text(c),
                64 * lines_of(record),
                ascii::SPACE,
            ));
            assert(got.comments == want.comments);
        },
        None => {
            assert(got.comments == want.comments);
        },
    }
    assert(got == want);
    assert(bytes.subrange(0, content.len() as int) == content);
}

/// Whether the trailer written for a record can be read again: its filetype
/// byte is valid for its datatype.
pub open spec fn readable(record: Record) -> bool {
    filetype_of(filetype_code(record.filetype), record.datatype) is Ok
}

/// A file that ends in a written trailer has a record. Reading it succeeds
/// exactly where the record is readable, and then finds the content as long
/// as it was when the trailer was put behind it.
pub proof fn lemma_read_after_write(content: Seq<u8>, record: Record)
    requires
        encode(record) is Ok,
    ensures
        has_record(content + encoded(record)),
        decode(content + encoded(record)) is Ok <==> readable(record),
        decode(content + encoded(record)) is Ok ==> content_of(content + encoded(record))
            == content,
        decode(content + encoded(record)) is Err ==> content_of(content + encoded(record))
            == content + encoded(record),
{
    let bytes = content + encoded(record);
    let start = content.len() as int;
    lemma_trailer_shape(content, record);
    lemma_encoded_record_layout(record);
    lemma_flags_round_trip(record);
    lemma_datatype_codes(record.datatype, 0);
    assert(content_len(bytes) == start);
}

/// A record without comments and one with empty comments are written as the
/// same trailer of 129 bytes, which holds no comment block.
pub proof fn lemma_empty_comments(record: Record)
    requires
        encode(record) is Ok,
        record.comments matches Some(c) ==> encode_text(c).len() == 0,
    ensures
        encoded(record).len() == 129,
        encoded(record) == encoded(Record { comments: None, ..record }),
        encoded(record) == seq![ascii::EOF] + encoded_record(record),
{
    lemma_encoded_record_layout(record);
    assert(encoded_comments(record) =~= Seq::<u8>::empty());
    assert(encoded(record) =~= seq![ascii::EOF] + encoded_record(record));
    assert(encoded_record(record) == encoded_record(Record { comments: None, ..record }));
}

/// No accumulation: where a record that can be read again was put on a file,
/// putting a second record on the result gives what putting the second
/// record on the file itself gives. The first trailer leaves no trace, and
/// the content keeps its length. This holds whatever comments the records
/// have, empty ones too.
pub proof fn lemma_add_twice(bytes: Seq<u8>, first: Record, second: Record)
    requires
        added(bytes, first) is Ok,
        readable(first),
    ensures
        decode(added(bytes, first)->Ok_0) is Ok,
        content_of(added(bytes, first)->Ok_0) == content_of(bytes),
        added(added(bytes, first)->Ok_0, second) == added(bytes, second),
        added(bytes, second) matches Ok(whole) ==> {
            &&& whole.len() == content_of(bytes).len() + 1 + comment_block_len(second) + 128
            &&& readable(second) ==> decode(whole) is Ok && content_of(whole) == content_of(
                bytes,
            )
        },
{
    let content = content_of(bytes);
    let sized = with_filesize(first, content.len());
    lemma_read_after_write(content, sized);
    let last = with_filesize(second, content.len());
    if encode(last) is Ok {
        lemma_read_after_write(content, last);
        lemma_trailer_shape(content, last);
    }
}

/// Putting a record on a file and taking it off again gives the file's
/// content back, byte for byte: the file itself where it had no record.
pub proof fn lemma_remove_after_add(bytes: Seq<u8>, record: Record)
    requires
        added(bytes, record) is Ok,
        readable(record),
    ensures
        removed(added(bytes, record)->Ok_0) == Ok::<_, SauceError>(content_of(bytes)),
        decode(bytes) == Ok::<Option<Record>, SauceError>(None) ==> removed(
            added(bytes, record)->Ok_0,
        ) == Ok::<_, SauceError>(bytes),
{
    let content = content_of(bytes);
    lemma_read_after_write(content, with_filesize(record, content.len()));
}

/// What was put on a file states the length of the file's content as its
/// file size, whatever the record stated before.
pub proof fn lemma_added_filesize(bytes: Seq<u8>, record: Record)
    requires
        added(bytes, record) is Ok,
        readable(record),
        content_of(bytes).len() < 0x1_0000_0000,
    ensures
        decode(added(bytes, record)->Ok_0) matches Ok(Some(found)) && found.filesize
            == content_of(bytes).len() && found.actual_filesize == content_of(bytes).len(),
{
    let content = content_of(bytes);
    let sized = with_filesize(record, content.len());
    let whole = content + encoded(sized);
    lemma_read_after_write(content, sized);
    lemma_trailer_shape(content, sized);
    lemma_encoded_record_layout(sized);
    lemma_widths();
    lemma_number(content.len(), 4, 0x1_0000_0000);
    assert(decode(whole) is Ok);
    assert(content_of(whole) == content);
    assert(whole.len() > content.len());
}

/// A file of fewer than 129 bytes has no record.
pub proof fn lemma_short_file_has_no_record(bytes: Seq<u8>)
    requires
        bytes.len() < 129,
    ensures
        decode(bytes) == Ok::<Option<Record>, SauceError>(None),
        content_of(bytes) == bytes,
{
}

/// A file whose last 128 bytes do not begin with `SAUCE00` has no record,
/// whatever else it holds.
pub proof fn lemma_other_tail_is_no_record(bytes: Seq<u8>)
    requires
        bytes.len() < 128 || bytes.subrange(bytes.len() - 128, bytes.len() - 121) != SAUCE_ID@,
    ensures
        decode(bytes) == Ok::<Option<Record>, SauceError>(None),
        content_of(bytes) == bytes,
{
    if bytes.len() >= 129 {
        assert(record_bytes(bytes).subrange(0, 7) =~= bytes.subrange(
            bytes.len() - 128,
            bytes.len() - 121,
        ));
    }
}

/// A record whose flags byte has both letter spacing bits set is refused
/// with `InvalidLetterSpacingValue`, and one that has both aspect ratio bits
/// set with `InvalidAspectRatioValue`, unless an earlier field is refused
/// first.
pub proof fn lemma_flag_errors(bytes: Seq<u8>)
    requires
        has_record(bytes),
        datatype_of(record_bytes(bytes)[94]) is Ok,
        filetype_of(record_bytes(bytes)[95], datatype_of(record_bytes(bytes)[94])->Ok_0) is Ok,
    ensures
        letter_spacing_bits(record_bytes(bytes)[105]) == 3 ==> decode(bytes) == Err::<
            Option<Record>,
            _,
        >(SauceError::InvalidLetterSpacingValue),
        letter_spacing_bits(record_bytes(bytes)[105]) != 3 && aspect_ratio_bits(
            record_bytes(bytes)[105],
        ) == 3 ==> decode(bytes) == Err::<Option<Record>, _>(
            SauceError::InvalidAspectRatioValue,
        ),
        letter_spacing_bits(record_bytes(bytes)[105]) <= 3,
        aspect_ratio_bits(record_bytes(bytes)[105]) <= 3,
{
    let flags = record_bytes(bytes)[105];
    assert((flags >> 1) & 3 <= 3) by (bit_vector);
    assert((flags >> 3) & 3 <= 3) by (bit_vector);
}

/// Comments of more than 255 lines are refused with `CommentsTooLarge`,
/// whatever the other fields hold, and nothing is written.
pub proof fn lemma_comments_too_large(bytes: Seq<u8>, record: Record)
    requires
        record.comments matches Some(c) && encode_text(c).len() > 255 * 64,
    ensures
        encode(record) == Err::<Seq<u8>, _>(SauceError::CommentsTooLarge),
        decode(bytes) is Ok ==> added(bytes, record) == Err::<Seq<u8>, _>(
            SauceError::CommentsTooLarge,
        ),
{
}

} // verus!
