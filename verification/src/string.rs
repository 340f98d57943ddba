//! Text in trailer fields: bytes are read as UTF-8 where they are valid
//! UTF-8 and as code page 437 otherwise, and text is written as code page 437.

use vstd::prelude::*;
use vstd::std_specs::iter::IteratorSpec;
use vstd::string::{StrSliceExecFns, StringExecFns};
use vstd::utf8::{decode_utf8, encode_utf8, is_ascii_chars, valid_utf8};

verus! {

broadcast use {vstd::string::group_string_axioms, vstd::utf8::group_utf8_lib};

/// The characters of code page 437 for the bytes `0x80` to `0xff`, in order.
pub const CP437_HIGH: [char; 128] = [
    '\u{00C7}', '\u{00FC}', '\u{00E9}', '\u{00E2}', '\u{00E4}', '\u{00E0}', '\u{00E5}', '\u{00E7}',
    '\u{00EA}', '\u{00EB}', '\u{00E8}', '\u{00EF}', '\u{00EE}', '\u{00EC}', '\u{00C4}', '\u{00C5}',
    '\u{00C9}', '\u{00E6}', '\u{00C6}', '\u{00F4}', '\u{00F6}', '\u{00F2}', '\u{00FB}', '\u{00F9}',
    '\u{00FF}', '\u{00D6}', '\u{00DC}', '\u{00A2}', '\u{00A3}', '\u{00A5}', '\u{20A7}', '\u{0192}',
    '\u{00E1}', '\u{00ED}', '\u{00F3}', '\u{00FA}', '\u{00F1}', '\u{00D1}', '\u{00AA}', '\u{00BA}',
    '\u{00BF}', '\u{2310}', '\u{00AC}', '\u{00BD}', '\u{00BC}', '\u{00A1}', '\u{00AB}', '\u{00BB}',
    '\u{2591}', '\u{2592}', '\u{2593}', '\u{2502}', '\u{2524}', '\u{2561}', '\u{2562}', '\u{2556}',
    '\u{2555}', '\u{2563}', '\u{2551}', '\u{2557}', '\u{255D}', '\u{255C}', '\u{255B}', '\u{2510}',
    '\u{2514}', '\u{2534}', '\u{252C}', '\u{251C}', '\u{2500}', '\u{253C}', '\u{255E}', '\u{255F}',
    '\u{255A}', '\u{2554}', '\u{2569}', '\u{2566}', '\u{2560}', '\u{2550}', '\u{256C}', '\u{2567}',
    '\u{2568}', '\u{2564}', '\u{2565}', '\u{2559}', '\u{2558}', '\u{2552}', '\u{2553}', '\u{256B}',
    '\u{256A}', '\u{2518}', '\u{250C}', '\u{2588}', '\u{2584}', '\u{258C}', '\u{2590}', '\u{2580}',
    '\u{03B1}', '\u{00DF}', '\u{0393}', '\u{03C0}', '\u{03A3}', '\u{03C3}', '\u{00B5}', '\u{03C4}',
    '\u{03A6}', '\u{0398}', '\u{03A9}', '\u{03B4}', '\u{221E}', '\u{03C6}', '\u{03B5}', '\u{2229}',
    '\u{2261}', '\u{00B1}', '\u{2265}', '\u{2264}', '\u{2320}', '\u{2321}', '\u{00F7}', '\u{2248}',
    '\u{00B0}', '\u{2219}', '\u{00B7}', '\u{221A}', '\u{207F}', '\u{00B2}', '\u{25A0}', '\u{00A0}',
];

/// Written in place of a character that the code page does not have.
pub const SUBSTITUTE: u8 = 0x3f;

/// The character that code page 437 gives to a byte. The lower half is ASCII.
pub open spec fn cp437_char(b: u8) -> char {
    if b < 0x80 {
        b as char
    } else {
        CP437_HIGH[b - 0x80]
    }
}

/// The first place at or after `from` where the upper half of the code page
/// holds `c`, or 128 where it holds it nowhere.
pub open spec fn high_position(c: char, from: int) -> int
    decreases 128 - from,
{
    if from < 0 || from >= 128 {
        128
    } else if CP437_HIGH[from] == c {
        from
    } else {
        high_position(c, from + 1)
    }
}

/// Whether code page 437 has the character.
pub open spec fn in_code_page(c: char) -> bool {
    (c as u32) < 0x80 || high_position(c, 0) < 128
}

/// The byte that stands for a character: its code page 437 byte, or
/// `SUBSTITUTE` where the code page does not have the character.
pub open spec fn cp437_byte(c: char) -> u8 {
    if (c as u32) < 0x80 {
        c as u8
    } else if high_position(c, 0) < 128 {
        (0x80 + high_position(c, 0)) as u8
    } else {
        SUBSTITUTE
    }
}

/// Bytes read as code page 437, one character for each byte.
pub open spec fn cp437_decode(bytes: Seq<u8>) -> Seq<char> {
    Seq::new(bytes.len(), |i: int| cp437_char(bytes[i]))
}

/// The text that a field's bytes hold: their UTF-8 reading where they are
/// valid UTF-8, their code page 437 reading otherwise.
pub open spec fn decode_text(bytes: Seq<u8>) -> Seq<char> {
    if valid_utf8(bytes) {
        decode_utf8(bytes)
    } else {
        cp437_decode(bytes)
    }
}

/// The bytes written for a text, one for each character.
pub open spec fn encode_text(chars: Seq<char>) -> Seq<u8> {
    Seq::new(chars.len(), |i: int| cp437_byte(chars[i]))
}

/// Whether a text comes back unchanged when it is written and read again.
pub open spec fn text_survives(chars: Seq<char>) -> bool {
    decode_text(encode_text(chars)) == chars
}

/// Where the upper half of the code page holds a character, it holds it at
/// the position found.
pub proof fn lemma_high_position(c: char, from: int)
    requires
        0 <= from <= 128,
    ensures
        from <= high_position(c, from) <= 128,
        high_position(c, from) < 128 ==> CP437_HIGH[high_position(c, from)] == c,
        forall|i: int| from <= i < high_position(c, from) ==> CP437_HIGH[i] != c,
    decreases 128 - from,
{
    if from < 128 && CP437_HIGH[from] != c {
        lemma_high_position(c, from + 1);
    }
}

/// A character of the code page is read back from the byte written for it.
pub proof fn lemma_cp437_char_of_byte(c: char)
    requires
        in_code_page(c),
    ensures
        cp437_char(cp437_byte(c)) == c,
{
    if (c as u32) >= 0x80 {
        lemma_high_position(c, 0);
    }
}

/// ASCII text is written as its own bytes.
pub proof fn lemma_encode_ascii(chars: Seq<char>)
    requires
        is_ascii_chars(chars),
    ensures
        encode_text(chars) == encode_utf8(chars),
        encode_text(chars).len() == chars.len(),
        forall|i: int| 0 <= i < chars.len() ==> encode_text(chars)[i] == chars[i] as u8,
{
    vstd::utf8::is_ascii_chars_encode_utf8(chars);
    assert(encode_text(chars) =~= encode_utf8(chars));
}

/// ASCII text comes back unchanged.
pub proof fn lemma_ascii_text_survives(chars: Seq<char>)
    requires
        is_ascii_chars(chars),
    ensures
        text_survives(chars),
{
    lemma_encode_ascii(chars);
    vstd::utf8::encode_utf8_valid_utf8(chars);
    vstd::utf8::encode_utf8_decode_utf8(chars);
}

/// Text of the code page whose bytes are not valid UTF-8 comes back
/// unchanged.
pub proof fn lemma_code_page_text_survives(chars: Seq<char>)
    requires
        forall|i: int| 0 <= i < chars.len() ==> in_code_page(#[trigger] chars[i]),
        !valid_utf8(encode_text(chars)),
    ensures
        text_survives(chars),
{
    assert forall|i: int| 0 <= i < chars.len() implies cp437_decode(encode_text(chars))[i]
        == chars[i] by {
        lemma_cp437_char_of_byte(chars[i]);
    }
    assert(cp437_decode(encode_text(chars)) =~= chars);
}

/// `std::str::from_utf8`: the bytes as a string slice when they are valid
/// UTF-8, and nothing when they are not. The slice holds exactly the bytes
/// given.
#[verifier::external_body]
fn str_from_utf8(bytes: &[u8]) -> (r: Option<&str>)
    ensures
        r is Some <==> valid_utf8(bytes@),
        r matches Some(s) ==> encode_utf8(s@) == bytes@,
{
    match std::str::from_utf8(bytes) {
        Ok(s) => Some(s),
        Err(_) => None,
    }
}

/// `String::push`: appends one character.
#[verifier::external_body]
fn string_push(s: &mut String, c: char)
    ensures
        final(s)@ == old(s)@.push(c),
{
    s.push(c)
}

/// The character that code page 437 gives to a byte.
pub fn cp437_char_of(b: u8) -> (c: char)
    ensures
        c == cp437_char(b),
{
    if b < 0x80 {
        b as char
    } else {
        CP437_HIGH[(b - 0x80) as usize]
    }
}

/// The byte that stands for a character.
pub fn cp437_byte_of(c: char) -> (b: u8)
    ensures
        b == cp437_byte(c),
{
    if (c as u32) < 0x80 {
        return c as u8;
    }
    let mut i: usize = 0;
    while i < 128
        invariant
            i <= 128,
            high_position(c, 0) == high_position(c, i as int),
        decreases 128 - i,
    {
        if CP437_HIGH[i] == c {
            return (0x80 + i) as u8;
        }
        i += 1;
    }
    SUBSTITUTE
}

/// Reads the bytes of a field as text.
pub fn from_cp437_bytes(bytes: &Vec<u8>) -> (r: String)
    ensures
        r@ == decode_text(bytes@),
{
    match str_from_utf8(bytes.as_slice()) {
        Some(s) => {
            proof {
                vstd::utf8::encode_utf8_decode_utf8(s@);
            }
            s.to_owned()
        },
        None => {
            let mut text = String::new();
            let mut i: usize = 0;
            while i < bytes.len()
                invariant
                    i <= bytes@.len(),
                    text@ == cp437_decode(bytes@.subrange(0, i as int)),
                decreases bytes@.len() - i,
            {
                string_push(&mut text, cp437_char_of(bytes[i]));
                i += 1;
                assert(text@ =~= cp437_decode(bytes@.subrange(0, i as int)));
            }
            assert(bytes@.subrange(0, i as int) == bytes@);
            text
        },
    }
}

/// Writes a text as the bytes of a field.
pub fn as_cp437_bytes(text: &str) -> (r: Vec<u8>)
    ensures
        r@ == encode_text(text@),
{
    let mut bytes: Vec<u8> = Vec::new();
    for c in it: text.chars()
        invariant
            it.seq() == text@,
            bytes@ == encode_text(text@.subrange(0, it.index() as int)),
    {
        bytes.push(cp437_byte_of(c));
        assert(bytes@ =~= encode_text(text@.subrange(0, it.index() + 1)));
    }
    assert(text@.subrange(0, text@.len() as int) == text@);
    bytes
}

/// Whether two texts are the same.
pub fn same_text(a: &str, b: &str) -> (r: bool)
    ensures
        r == (a@ == b@),
{
    let x = a.as_bytes();
    let y = b.as_bytes();
    proof {
        vstd::utf8::encode_utf8_decode_utf8(a@);
        vstd::utf8::encode_utf8_decode_utf8(b@);
    }
    if x.len() != y.len() {
        return false;
    }
    let mut i: usize = 0;
    while i < x.len()
        invariant
            i <= x@.len(),
            x@.len() == y@.len(),
            x@ == encode_utf8(a@),
            y@ == encode_utf8(b@),
            x@.subrange(0, i as int) == y@.subrange(0, i as int),
        decreases x@.len() - i,
    {
        if x[i] != y[i] {
            return false;
        }
        i += 1;
        assert(x@.subrange(0, i as int) =~= y@.subrange(0, i as int)) by {
            assert(x@.subrange(0, i - 1) == y@.subrange(0, i - 1));
            assert forall|k: int| 0 <= k < i implies x@[k] == y@[k] by {
                if k < i - 1 {
                    assert(x@[k] == x@.subrange(0, i - 1)[k]);
                    assert(y@[k] == y@.subrange(0, i - 1)[k]);
                }
            }
        }
    }
    assert(x@ == x@.subrange(0, i as int));
    assert(y@ == y@.subrange(0, i as int));
    true
}

/// The character of a decimal digit.
pub open spec fn digit(d: nat) -> char
    recommends
        d < 10,
{
    (48 + d) as char
}

/// A number written in decimal digits, without leading zeros.
pub open spec fn decimal(n: nat) -> Seq<char>
    decreases n,
{
    if n < 10 {
        seq![digit(n)]
    } else {
        decimal(n / 10).push(digit(n % 10))
    }
}

/// A number written in decimal digits, with zeros in front where it has
/// fewer than `width` digits.
pub open spec fn zero_padded(n: nat, width: nat) -> Seq<char> {
    if decimal(n).len() >= width {
        decimal(n)
    } else {
        Seq::new((width - decimal(n).len()) as nat, |i: int| '0') + decimal(n)
    }
}

/// Appends a number in decimal digits.
pub fn push_decimal(text: &mut String, n: usize)
    ensures
        final(text)@ == old(text)@ + decimal(n as nat),
    decreases n,
{
    if n >= 10 {
        push_decimal(text, n / 10);
    }
    let d: u8 = (n % 10) as u8;
    string_push(text, (48 + d) as char);
    assert(text@ =~= old(text)@ + decimal(n as nat));
}

/// Appends a number in decimal digits, with zeros in front where it has
/// fewer than `width` digits.
pub fn push_zero_padded(text: &mut String, n: usize, width: usize)
    ensures
        final(text)@ == old(text)@ + zero_padded(n as nat, width as nat),
{
    let mut digits = String::new();
    push_decimal(&mut digits, n);
    assert(digits@ =~= decimal(n as nat));
    let have: usize = digits.as_str().unicode_len();
    let mut i: usize = have;
    while i < width
        invariant
            have <= i,
            i <= width || i == have,
            text@ == old(text)@ + Seq::new((i - have) as nat, |k: int| '0'),
        decreases width - i,
    {
        string_push(text, '0');
        i += 1;
        assert(text@ =~= old(text)@ + Seq::new((i - have) as nat, |k: int| '0'));
    }
    text.append(digits.as_str());
    assert(text@ =~= old(text)@ + zero_padded(n as nat, width as nat));
}

} // verus!
