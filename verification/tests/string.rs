use textmode::string::{
    as_cp437_bytes, cp437_byte_of, cp437_char_of, from_cp437_bytes, push_decimal,
    push_zero_padded, same_text, SUBSTITUTE,
};

#[test]
fn ascii_bytes_are_read_as_they_are() {
    assert_eq!(from_cp437_bytes(&b"DEMO".to_vec()), "DEMO");
    assert_eq!(from_cp437_bytes(&Vec::new()), "");
    assert_eq!(from_cp437_bytes(&vec![0, 0, 0, 0]), "\0\0\0\0");
}

#[test]
fn valid_utf8_is_read_as_utf8() {
    // C3 A4 is one character in UTF-8, two in the code page.
    assert_eq!(from_cp437_bytes(&vec![0xc3, 0xa4]), "\u{e4}");
}

#[test]
fn other_bytes_are_read_as_code_page_437() {
    assert_eq!(from_cp437_bytes(&vec![0xdb, 0xdb]), "\u{2588}\u{2588}");
    assert_eq!(from_cp437_bytes(&vec![b'a', 0x80, b'b']), "a\u{c7}b");
    assert_eq!(from_cp437_bytes(&vec![0xff]), "\u{a0}");
    assert_eq!(from_cp437_bytes(&vec![0xb0, 0xb1, 0xb2]), "\u{2591}\u{2592}\u{2593}");
}

#[test]
fn text_is_written_as_code_page_437() {
    assert_eq!(as_cp437_bytes("DEMO"), b"DEMO".to_vec());
    assert_eq!(as_cp437_bytes(""), Vec::<u8>::new());
    assert_eq!(as_cp437_bytes("\u{2588}\u{e9}"), vec![0xdb, 0x82]);
    assert_eq!(as_cp437_bytes("\u{a0}"), vec![0xff]);
}

#[test]
fn characters_outside_the_code_page_are_substituted() {
    assert_eq!(SUBSTITUTE, b'?');
    assert_eq!(as_cp437_bytes("a\u{4e2d}b"), b"a?b".to_vec());
    assert_eq!(cp437_byte_of('\u{1f600}'), b'?');
}

#[test]
fn every_byte_comes_back_from_its_character() {
    for b in 0..=255u8 {
        assert_eq!(cp437_byte_of(cp437_char_of(b)), b);
    }
}

#[test]
fn the_code_page_agrees_with_known_characters() {
    assert_eq!(cp437_char_of(0x41), 'A');
    assert_eq!(cp437_char_of(0x80), '\u{c7}');
    assert_eq!(cp437_char_of(0x9e), '\u{20a7}');
    assert_eq!(cp437_char_of(0xc4), '\u{2500}');
    assert_eq!(cp437_char_of(0xe0), '\u{3b1}');
    assert_eq!(cp437_char_of(0xfe), '\u{25a0}');
}

#[test]
fn ascii_text_survives_writing_and_reading() {
    let text = "The quick brown fox, 1234567890!";
    assert_eq!(from_cp437_bytes(&as_cp437_bytes(text)), text);
}

#[test]
fn same_text_compares_whole_texts() {
    assert!(same_text("8px", "8px"));
    assert!(!same_text("8px", "9px"));
    assert!(!same_text("8px", "8px "));
    assert!(same_text("", ""));
    assert!(same_text("\u{e9}t\u{e9}", "\u{e9}t\u{e9}"));
}

#[test]
fn push_decimal_appends_digits() {
    let mut text = String::from("n=");
    push_decimal(&mut text, 0);
    assert_eq!(text, "n=0");
    push_decimal(&mut text, 1234567890);
    assert_eq!(text, "n=01234567890");
    let mut max = String::new();
    push_decimal(&mut max, usize::MAX);
    assert_eq!(max, format!("{}", usize::MAX));
}

#[test]
fn push_zero_padded_fills_with_zeros() {
    let mut text = String::new();
    push_zero_padded(&mut text, 7, 2);
    assert_eq!(text, "07");
    push_zero_padded(&mut text, 1994, 4);
    assert_eq!(text, "071994");
    push_zero_padded(&mut text, 12345, 4);
    assert_eq!(text, "07199412345");
    push_zero_padded(&mut text, 0, 0);
    assert_eq!(text, "071994123450");
}
