use std::str::FromStr;
use textmode::sauce::edit::{detect, Detected, Dimensions};
use textmode::sauce::{
    parse_bytes, AsDataType, AsFileType, AspectRatio, DataType, FileType, LetterSpacing, Sauce,
    SauceError,
};

/// A trailer of 129 bytes without comments, blank but for its identification.
fn blank_trailer() -> Vec<u8> {
    let mut bytes = vec![0x1au8];
    bytes.extend_from_slice(b"SAUCE00");
    bytes.extend_from_slice(&[b' '; 75]);
    bytes.extend_from_slice(&[0u8; 46]);
    assert_eq!(bytes.len(), 129);
    bytes
}

/// A record in which every field is set and comes back from its bytes.
fn full_record() -> Sauce {
    let mut sauce = Sauce::new();
    sauce.title = String::from("A title");
    sauce.author = String::from("An author");
    sauce.group = String::from("A group");
    sauce.year = String::from("1994");
    sauce.month = String::from("07");
    sauce.date = String::from("31");
    sauce.filesize = 12345;
    sauce.datatype = Some(DataType::Character);
    sauce.filetype = Some(FileType::ANSI);
    sauce.info_1 = 80;
    sauce.info_2 = 25;
    sauce.info_3 = 3;
    sauce.info_4 = 65535;
    sauce.ice_colors = true;
    sauce.letter_spacing = Some(LetterSpacing::NinePixels);
    sauce.aspect_ratio = Some(AspectRatio::Legacy);
    sauce.font_name = String::from("IBM VGA");
    sauce.comments = Some("x".repeat(64) + "second line  with spaces" + &" ".repeat(40) + "end");
    sauce
}

#[test]
fn demo_record_on_a_hundred_zero_bytes() {
    let mut bytes = vec![0u8; 100];
    let mut sauce = Sauce::new();
    sauce.title = String::from("DEMO");
    sauce.datatype = Some(DataType::Character);
    sauce.filetype = Some(FileType::ANSI);
    sauce.add_to_bytes(&mut bytes).unwrap();
    assert_eq!(bytes.len(), 229);
    assert_eq!(&bytes[..100], &[0u8; 100][..]);
    assert_eq!(bytes[100], 0x1a);
    assert_eq!(&bytes[101..108], b"SAUCE00");
    let found = Sauce::from_bytes(&bytes).unwrap().unwrap();
    assert_eq!(found.actual_filesize, 100);
    assert_eq!(found.filesize, 100);
    assert_eq!(found.title, "DEMO");
    assert_eq!(found.datatype, Some(DataType::Character));
    assert_eq!(found.filetype, Some(FileType::ANSI));
    assert_eq!(found.comments, None);
}

#[test]
fn a_new_record_is_empty() {
    let sauce = Sauce::new();
    assert_eq!(sauce, Sauce::default());
    assert_eq!(sauce.file, None);
    assert_eq!(sauce.title, "");
    assert_eq!(sauce.year, "");
    assert_eq!(sauce.filesize, 0);
    assert_eq!(sauce.actual_filesize, 0);
    assert_eq!(sauce.datatype, None);
    assert_eq!(sauce.filetype, None);
    assert!(!sauce.ice_colors);
    assert_eq!(sauce.letter_spacing, None);
    assert_eq!(sauce.aspect_ratio, None);
    assert_eq!(sauce.comments, None);
}

#[test]
fn short_buffers_have_no_record() {
    assert_eq!(Sauce::from_bytes(&[]), Ok(None));
    assert_eq!(Sauce::from_bytes(&[0u8; 128]), Ok(None));
    // Even a whole record is too short without the byte in front of it.
    let trailer = blank_trailer();
    assert_eq!(Sauce::from_bytes(&trailer[1..]), Ok(None));
    assert!(Sauce::from_bytes(&trailer).unwrap().is_some());
}

#[test]
fn another_tail_is_no_record() {
    assert_eq!(Sauce::from_bytes(&[0u8; 500]), Ok(None));
    let mut bytes = blank_trailer();
    bytes[7] = b'1';
    assert_eq!(Sauce::from_bytes(&bytes), Ok(None));
    let mut bytes = blank_trailer();
    bytes[1] = b's';
    assert_eq!(Sauce::from_bytes(&bytes), Ok(None));
    // What follows the identification is not looked at.
    bytes[95] = 200;
    bytes[106] = 0xff;
    assert_eq!(Sauce::from_bytes(&bytes), Ok(None));
}

#[test]
fn a_blank_trailer_is_read_field_by_field() {
    let mut bytes = vec![9u8; 10];
    bytes.extend_from_slice(&blank_trailer());
    let sauce = Sauce::from_bytes(&bytes).unwrap().unwrap();
    assert_eq!(sauce.file, None);
    assert_eq!(sauce.title, "");
    assert_eq!(sauce.author, "");
    assert_eq!(sauce.group, "");
    assert_eq!(sauce.year, "\0\0\0\0");
    assert_eq!(sauce.month, "\0\0");
    assert_eq!(sauce.date, "\0\0");
    assert_eq!(sauce.filesize, 0);
    assert_eq!(sauce.actual_filesize, 10);
    assert_eq!(sauce.datatype, None);
    assert_eq!(sauce.filetype, None);
    assert_eq!(sauce.font_name, "");
    assert_eq!(sauce.comments, None);
}

#[test]
fn fields_are_read_from_their_offsets() {
    let mut bytes = blank_trailer();
    bytes[1 + 7..1 + 12].copy_from_slice(b"Title");
    bytes[1 + 42..1 + 46].copy_from_slice(b"Auth");
    bytes[1 + 62..1 + 65].copy_from_slice(b"Grp");
    bytes[1 + 82..1 + 90].copy_from_slice(b"20240229");
    bytes[1 + 90..1 + 94].copy_from_slice(&[0x78, 0x56, 0x34, 0x12]);
    bytes[1 + 94] = 2;
    bytes[1 + 95] = 10;
    bytes[1 + 96..1 + 104].copy_from_slice(&[0x80, 0x02, 0xe0, 0x01, 0x18, 0x00, 0xff, 0xff]);
    bytes[1 + 105] = 0b0001_0101;
    bytes[1 + 106..1 + 113].copy_from_slice(b"IBM VGA");
    let sauce = Sauce::from_bytes(&bytes).unwrap().unwrap();
    assert_eq!(sauce.title, "Title");
    assert_eq!(sauce.author, "Auth");
    assert_eq!(sauce.group, "Grp");
    assert_eq!(sauce.year, "2024");
    assert_eq!(sauce.month, "02");
    assert_eq!(sauce.date, "29");
    assert_eq!(sauce.filesize, 0x12345678);
    assert_eq!(sauce.actual_filesize, 0);
    assert_eq!(sauce.datatype, Some(DataType::Bitmap));
    assert_eq!(sauce.filetype, Some(FileType::PNG));
    assert_eq!(sauce.info_1, 640);
    assert_eq!(sauce.info_2, 480);
    assert_eq!(sauce.info_3, 24);
    assert_eq!(sauce.info_4, 65535);
    assert!(sauce.ice_colors);
    assert_eq!(sauce.letter_spacing, Some(LetterSpacing::NinePixels));
    assert_eq!(sauce.aspect_ratio, Some(AspectRatio::Modern));
    assert_eq!(sauce.font_name, "IBM VGA");
}

#[test]
fn text_fields_fall_back_to_the_code_page() {
    let mut bytes = blank_trailer();
    bytes[1 + 7] = 0xdb;
    bytes[1 + 8] = b'x';
    // Valid UTF-8 is read as such.
    bytes[1 + 42] = 0xc3;
    bytes[1 + 43] = 0xa9;
    let sauce = Sauce::from_bytes(&bytes).unwrap().unwrap();
    assert_eq!(sauce.title, "\u{2588}x");
    assert_eq!(sauce.author, "\u{e9}");
}

#[test]
fn every_flag_setting_is_read() {
    for (flags, ice, spacing, ratio) in [
        (0u8, false, None, None),
        (1, true, None, None),
        (2, false, Some(LetterSpacing::EightPixels), None),
        (4, false, Some(LetterSpacing::NinePixels), None),
        (8, false, None, Some(AspectRatio::Legacy)),
        (16, false, None, Some(AspectRatio::Modern)),
        (21, true, Some(LetterSpacing::NinePixels), Some(AspectRatio::Modern)),
        // The three highest bits have no meaning.
        (0xe0 | 11, true, Some(LetterSpacing::EightPixels), Some(AspectRatio::Legacy)),
    ] {
        let mut bytes = blank_trailer();
        bytes[1 + 105] = flags;
        let sauce = Sauce::from_bytes(&bytes).unwrap().unwrap();
        assert_eq!(sauce.ice_colors, ice);
        assert_eq!(sauce.letter_spacing, spacing);
        assert_eq!(sauce.aspect_ratio, ratio);
    }
}

#[test]
fn both_letter_spacing_bits_are_an_error() {
    for flags in [6u8, 7, 6 | 8, 6 | 24, 0xff] {
        let mut bytes = blank_trailer();
        bytes[1 + 105] = flags;
        assert_eq!(Sauce::from_bytes(&bytes), Err(SauceError::InvalidLetterSpacingValue));
    }
}

#[test]
fn both_aspect_ratio_bits_are_an_error() {
    for flags in [24u8, 25, 24 | 2, 24 | 4, 0xf9] {
        let mut bytes = blank_trailer();
        bytes[1 + 105] = flags;
        assert_eq!(Sauce::from_bytes(&bytes), Err(SauceError::InvalidAspectRatioValue));
    }
}

#[test]
fn an_unknown_datatype_is_an_error() {
    for code in [9u8, 10, 100, 255] {
        let mut bytes = blank_trailer();
        bytes[1 + 94] = code;
        assert_eq!(Sauce::from_bytes(&bytes), Err(SauceError::InvalidDataType));
    }
}

#[test]
fn a_filetype_outside_its_datatype_is_an_error() {
    for (datatype, filetype) in [(1u8, 9u8), (2, 14), (3, 4), (4, 25), (6, 1), (7, 10), (8, 1)] {
        let mut bytes = blank_trailer();
        bytes[1 + 94] = datatype;
        bytes[1 + 95] = filetype;
        assert_eq!(Sauce::from_bytes(&bytes), Err(SauceError::InvalidFileType));
        bytes[1 + 95] = filetype - 1;
        assert!(Sauce::from_bytes(&bytes).is_ok());
    }
}

#[test]
fn errors_come_in_the_order_of_the_fields() {
    let mut bytes = blank_trailer();
    bytes[0] = 0;
    bytes[1 + 105] = 0xff;
    assert_eq!(Sauce::from_bytes(&bytes), Err(SauceError::InvalidLetterSpacingValue));
    bytes[1 + 94] = 6;
    bytes[1 + 95] = 1;
    assert_eq!(Sauce::from_bytes(&bytes), Err(SauceError::InvalidFileType));
    bytes[1 + 94] = 9;
    assert_eq!(Sauce::from_bytes(&bytes), Err(SauceError::InvalidDataType));
}

#[test]
fn a_missing_marker_is_an_error() {
    let mut bytes = blank_trailer();
    bytes[0] = 0;
    assert_eq!(Sauce::from_bytes(&bytes), Err(SauceError::EOFValueNotFound));
    let mut bytes = vec![0x1a, 0x1a];
    bytes.extend_from_slice(&blank_trailer()[1..]);
    assert!(Sauce::from_bytes(&bytes).is_ok());
    bytes[1] = b' ';
    assert_eq!(Sauce::from_bytes(&bytes), Err(SauceError::EOFValueNotFound));
}

#[test]
fn announced_comments_must_be_there() {
    let mut bytes = blank_trailer();
    bytes[1 + 104] = 1;
    // Too short for one line.
    assert_eq!(Sauce::from_bytes(&bytes), Err(SauceError::CommentsNotFound));
    // Long enough, but without the tag.
    let mut long = vec![0x1au8];
    long.extend_from_slice(b"COMNX");
    long.extend_from_slice(&[b' '; 64]);
    long.extend_from_slice(&bytes[1..]);
    assert_eq!(long.len(), 134 + 64);
    assert_eq!(Sauce::from_bytes(&long), Err(SauceError::CommentsNotFound));
    long[5] = b'T';
    assert_eq!(Sauce::from_bytes(&long).unwrap().unwrap().comments, Some(String::new()));
    // The marker is looked for before the tag.
    long[0] = 0;
    long[5] = b'X';
    assert_eq!(Sauce::from_bytes(&long), Err(SauceError::EOFValueNotFound));
    // One byte short.
    assert_eq!(Sauce::from_bytes(&long[1..]), Err(SauceError::CommentsNotFound));
}

#[test]
fn comment_lines_keep_their_spaces_but_for_the_last() {
    let mut bytes = vec![b'c'; 7];
    bytes.push(0x1a);
    bytes.extend_from_slice(b"COMNT");
    let mut first = b"first ".to_vec();
    first.resize(64, b' ');
    let mut second = b"  second  ".to_vec();
    second.resize(64, b' ');
    bytes.extend_from_slice(&first);
    bytes.extend_from_slice(&second);
    let mut record = blank_trailer()[1..].to_vec();
    record[104] = 2;
    bytes.extend_from_slice(&record);
    let sauce = Sauce::from_bytes(&bytes).unwrap().unwrap();
    assert_eq!(sauce.actual_filesize, 7);
    assert_eq!(sauce.comments, Some(format!("first{}  second", " ".repeat(59))));
}

#[test]
fn a_record_without_comments_is_written_as_129_bytes() {
    let mut sauce = Sauce::new();
    sauce.title = String::from("DEMO");
    sauce.year = String::from("19");
    sauce.filesize = 0x0102;
    sauce.datatype = Some(DataType::Archive);
    sauce.filetype = Some(FileType::RAR);
    sauce.info_1 = 0x1_0203;
    sauce.font_name = String::from("IBM VGA");
    sauce.letter_spacing = Some(LetterSpacing::EightPixels);
    sauce.aspect_ratio = Some(AspectRatio::Modern);
    let bytes = sauce.to_bytes().unwrap();
    let mut expected = vec![0x1au8];
    expected.extend_from_slice(b"SAUCE00");
    expected.extend_from_slice(b"DEMO");
    expected.extend_from_slice(&[b' '; 31 + 20 + 20]);
    expected.extend_from_slice(b"19\0\0\0\0\0\0");
    expected.extend_from_slice(&[2, 1, 0, 0]);
    expected.extend_from_slice(&[7, 6]);
    expected.extend_from_slice(&[3, 2, 0, 0, 0, 0, 0, 0]);
    expected.extend_from_slice(&[0, 2 + 16]);
    expected.extend_from_slice(b"IBM VGA");
    expected.extend_from_slice(&[0u8; 15]);
    assert_eq!(bytes, expected);
}

#[test]
fn the_empty_record_is_written_blank() {
    assert_eq!(Sauce::new().to_bytes().unwrap(), blank_trailer());
}

#[test]
fn comments_are_written_in_whole_lines() {
    let mut sauce = Sauce::new();
    sauce.comments = Some("a".repeat(65));
    let bytes = sauce.to_bytes().unwrap();
    assert_eq!(bytes.len(), 134 + 128);
    assert_eq!(bytes[0], 0x1a);
    assert_eq!(&bytes[1..6], b"COMNT");
    assert_eq!(&bytes[6..71], "a".repeat(65).as_bytes());
    assert_eq!(&bytes[71..134], &[b' '; 63][..]);
    assert_eq!(&bytes[134..141], b"SAUCE00");
    assert_eq!(bytes[134 + 104], 2);
    sauce.comments = Some("a".repeat(64));
    let bytes = sauce.to_bytes().unwrap();
    assert_eq!(bytes.len(), 134 + 64);
    assert_eq!(bytes[70 + 104], 1);
}

#[test]
fn the_most_comments_are_255_lines() {
    let mut sauce = Sauce::new();
    sauce.comments = Some("c".repeat(255 * 64));
    let bytes = sauce.to_bytes().unwrap();
    assert_eq!(bytes.len(), 134 + 255 * 64);
    assert_eq!(bytes[bytes.len() - 128 + 104], 255);
    let found = Sauce::from_bytes(&bytes).unwrap().unwrap();
    assert_eq!(found.comments, sauce.comments);
    assert_eq!(found.actual_filesize, 0);
}

#[test]
fn comments_of_256_lines_are_too_large() {
    let mut sauce = Sauce::new();
    sauce.comments = Some("c".repeat(255 * 64 + 1));
    assert_eq!(sauce.to_bytes(), Err(SauceError::CommentsTooLarge));
    // The comments are looked at before the other fields.
    sauce.title = "t".repeat(36);
    assert_eq!(sauce.to_bytes(), Err(SauceError::CommentsTooLarge));
    // Nothing is written.
    let mut bytes = b"content".to_vec();
    assert_eq!(sauce.add_to_bytes(&mut bytes), Err(SauceError::CommentsTooLarge));
    assert_eq!(bytes, b"content".to_vec());
}

#[test]
fn a_field_that_does_not_fit_is_too_large() {
    let long = |n: usize| "x".repeat(n);
    let mut sauce = Sauce::new();
    sauce.title = long(35);
    sauce.author = long(20);
    sauce.group = long(20);
    sauce.year = long(4);
    sauce.month = long(2);
    sauce.date = long(2);
    sauce.font_name = long(22);
    assert_eq!(sauce.to_bytes().unwrap().len(), 129);
    let fits = sauce.clone();
    sauce.title = long(36);
    assert_eq!(sauce.to_bytes(), Err(SauceError::TooLarge));
    sauce = fits.clone();
    sauce.author = long(21);
    assert_eq!(sauce.to_bytes(), Err(SauceError::TooLarge));
    sauce = fits.clone();
    sauce.group = long(21);
    assert_eq!(sauce.to_bytes(), Err(SauceError::TooLarge));
    sauce = fits.clone();
    sauce.year = long(5);
    assert_eq!(sauce.to_bytes(), Err(SauceError::TooLarge));
    sauce = fits.clone();
    sauce.month = long(3);
    assert_eq!(sauce.to_bytes(), Err(SauceError::TooLarge));
    sauce = fits.clone();
    sauce.date = long(3);
    assert_eq!(sauce.to_bytes(), Err(SauceError::TooLarge));
    sauce = fits.clone();
    sauce.font_name = long(23);
    assert_eq!(sauce.to_bytes(), Err(SauceError::TooLarge));
}

#[test]
fn numbers_are_written_in_their_width() {
    let mut sauce = Sauce::new();
    sauce.filesize = 0x1_0000_0005;
    sauce.info_2 = 0x1_0007;
    let bytes = sauce.to_bytes().unwrap();
    assert_eq!(&bytes[1 + 90..1 + 94], &[5, 0, 0, 0]);
    assert_eq!(&bytes[1 + 98..1 + 100], &[7, 0]);
}

#[test]
fn a_full_record_comes_back_field_by_field() {
    let sauce = full_record();
    let content = b"some content \x1a with a marker inside".to_vec();
    let mut bytes = content.clone();
    bytes.extend_from_slice(&sauce.to_bytes().unwrap());
    let found = Sauce::from_bytes(&bytes).unwrap().unwrap();
    let mut expected = sauce.clone();
    expected.actual_filesize = content.len();
    assert_eq!(found, expected);
    assert_eq!(found.comments.as_ref().unwrap().len(), 64 + 24 + 40 + 3);
}

#[test]
fn every_filetype_comes_back_under_its_datatype() {
    for datatype in 1..=8u8 {
        let datatype = datatype.as_datatype().unwrap().unwrap();
        for code in 0..=255u8 {
            if let Ok(filetype) = code.as_filetype(&Some(datatype)) {
                let mut sauce = Sauce::new();
                sauce.year = String::from("1994");
                sauce.month = String::from("01");
                sauce.date = String::from("02");
                sauce.datatype = Some(datatype);
                sauce.filetype = filetype;
                let bytes = sauce.to_bytes().unwrap();
                assert_eq!(bytes[1 + 94], datatype.as_u8());
                assert_eq!(bytes[1 + 95], code);
                assert_eq!(Sauce::from_bytes(&bytes), Ok(Some(sauce)));
            }
        }
    }
}

#[test]
fn adding_twice_leaves_one_trailer() {
    let content = vec![7u8; 300];
    let mut bytes = content.clone();
    let mut first = full_record();
    first.add_to_bytes(&mut bytes).unwrap();
    assert_eq!(first.filesize, 300);
    let once = bytes.len();
    assert_eq!(once, 300 + 134 + 3 * 64);
    let mut second = Sauce::new();
    second.title = String::from("second");
    second.add_to_bytes(&mut bytes).unwrap();
    assert_eq!(second.filesize, 300);
    assert_eq!(bytes.len(), 300 + 129);
    let found = Sauce::from_bytes(&bytes).unwrap().unwrap();
    assert_eq!(found.actual_filesize, 300);
    assert_eq!(found.filesize, 300);
    assert_eq!(found.title, "second");
    // The same as adding the second record to the content itself.
    let mut direct = content.clone();
    let mut again = Sauce::new();
    again.title = String::from("second");
    again.add_to_bytes(&mut direct).unwrap();
    assert_eq!(bytes, direct);
    // And once more.
    first.add_to_bytes(&mut bytes).unwrap();
    assert_eq!(bytes.len(), once);
    assert_eq!(&bytes[..300], &content[..]);
}

#[test]
fn removing_after_adding_gives_the_content_back() {
    for content in [Vec::new(), vec![0x1a], b"SAUCE00".to_vec(), vec![0u8; 129], vec![b' '; 1000]] {
        let mut bytes = content.clone();
        full_record().add_to_bytes(&mut bytes).unwrap();
        assert_ne!(bytes, content);
        assert_eq!(Sauce::remove_from_bytes(&bytes), Ok(content.clone()));
        let mut bytes = content.clone();
        Sauce::new().add_to_bytes(&mut bytes).unwrap();
        assert_eq!(bytes.len(), content.len() + 129);
        assert_eq!(Sauce::remove_from_bytes(&bytes), Ok(content));
    }
}

#[test]
fn removing_leaves_a_file_without_record_alone() {
    assert_eq!(Sauce::remove_from_bytes(&[]), Ok(Vec::new()));
    assert_eq!(Sauce::remove_from_bytes(b"no record here"), Ok(b"no record here".to_vec()));
    assert_eq!(Sauce::remove_from_bytes(&[1u8; 400]), Ok(vec![1u8; 400]));
}

#[test]
fn removing_reports_an_unsound_trailer() {
    let mut bytes = blank_trailer();
    bytes[0] = 0;
    assert_eq!(Sauce::remove_from_bytes(&bytes), Err(SauceError::EOFValueNotFound));
    bytes[1 + 94] = 77;
    assert_eq!(Sauce::remove_from_bytes(&bytes), Err(SauceError::InvalidDataType));
}

#[test]
fn adding_reports_an_unsound_trailer_and_changes_nothing() {
    let mut bytes = blank_trailer();
    bytes[1 + 105] = 6;
    let before = bytes.clone();
    let mut sauce = Sauce::new();
    sauce.filesize = 42;
    assert_eq!(sauce.add_to_bytes(&mut bytes), Err(SauceError::InvalidLetterSpacingValue));
    assert_eq!(bytes, before);
    assert_eq!(sauce.filesize, 42);
}

#[test]
fn adding_a_record_that_does_not_fit_changes_no_byte() {
    let mut bytes = b"content".to_vec();
    Sauce::new().add_to_bytes(&mut bytes).unwrap();
    let before = bytes.clone();
    let mut sauce = Sauce::new();
    sauce.title = "t".repeat(40);
    assert_eq!(sauce.add_to_bytes(&mut bytes), Err(SauceError::TooLarge));
    assert_eq!(bytes, before);
    assert_eq!(sauce.filesize, 7);
}

#[test]
fn adding_replaces_a_trailer_with_comments() {
    let mut bytes = b"content".to_vec();
    full_record().add_to_bytes(&mut bytes).unwrap();
    assert_eq!(bytes.len(), 7 + 134 + 192);
    let mut plain = Sauce::new();
    plain.add_to_bytes(&mut bytes).unwrap();
    assert_eq!(bytes.len(), 7 + 129);
    assert_eq!(&bytes[..7], b"content");
    assert_eq!(bytes[7], 0x1a);
}

#[test]
fn empty_comments_are_written_without_a_comment_block() {
    let mut sauce = Sauce::new();
    sauce.year = String::from("2020");
    sauce.month = String::from("01");
    sauce.date = String::from("02");
    sauce.comments = Some(String::new());
    let bytes = sauce.to_bytes().unwrap();
    assert_eq!(bytes.len(), 129);
    assert_eq!(bytes[0], 0x1a);
    assert_eq!(&bytes[1..8], b"SAUCE00");
    assert_eq!(bytes[105], 0);
    // The same trailer as without comments, and it is read as such.
    let mut plain = sauce.clone();
    plain.comments = None;
    assert_eq!(plain.to_bytes().unwrap(), bytes);
    let mut file = b"content".to_vec();
    file.extend_from_slice(&bytes);
    let found = Sauce::from_bytes(&file).unwrap().unwrap();
    assert_eq!(found.actual_filesize, 7);
    assert_eq!(found.comments, None);
    assert_eq!(found.year, "2020");
}

#[test]
fn a_record_with_empty_comments_is_replaced_and_removed_like_any_other() {
    let content = b"some content".to_vec();
    let mut bytes = content.clone();
    let mut first = Sauce::new();
    first.comments = Some(String::new());
    assert_eq!(first.add_to_bytes(&mut bytes), Ok(()));
    assert_eq!(bytes.len(), content.len() + 129);
    assert_eq!(Sauce::remove_from_bytes(&bytes), Ok(content.clone()));
    let mut second = full_record();
    assert_eq!(second.add_to_bytes(&mut bytes), Ok(()));
    assert_eq!(&bytes[..content.len()], &content[..]);
    assert_eq!(bytes.len(), content.len() + second.to_bytes().unwrap().len());
    assert_eq!(Sauce::from_bytes(&bytes).unwrap().unwrap().actual_filesize, content.len());
    assert_eq!(Sauce::remove_from_bytes(&bytes), Ok(content));
}

#[test]
fn a_block_of_one_blank_line_is_written_back_as_no_block() {
    let mut bytes = b"abc".to_vec();
    bytes.push(0x1a);
    bytes.extend_from_slice(b"COMNT");
    bytes.extend_from_slice(&[b' '; 64]);
    let mut record = blank_trailer()[1..].to_vec();
    record[104] = 1;
    bytes.extend_from_slice(&record);
    let mut sauce = Sauce::from_bytes(&bytes).unwrap().unwrap();
    assert_eq!(sauce.comments, Some(String::new()));
    assert_eq!(sauce.add_to_bytes(&mut bytes), Ok(()));
    assert_eq!(bytes.len(), 3 + 129);
    let again = Sauce::from_bytes(&bytes).unwrap().unwrap();
    assert_eq!(again.actual_filesize, 3);
    assert_eq!(again.comments, None);
    assert_eq!(Sauce::remove_from_bytes(&bytes), Ok(b"abc".to_vec()));
}

#[test]
fn a_filetype_of_another_datatype_is_written_but_not_read_back() {
    let mut sauce = Sauce::new();
    sauce.datatype = Some(DataType::XBin);
    sauce.filetype = Some(FileType::ANSI);
    let mut bytes = b"content".to_vec();
    sauce.add_to_bytes(&mut bytes).unwrap();
    assert_eq!(bytes[8 + 94], 6);
    assert_eq!(bytes[8 + 95], 1);
    assert_eq!(Sauce::from_bytes(&bytes), Err(SauceError::InvalidFileType));
    assert_eq!(Sauce::new().add_to_bytes(&mut bytes), Err(SauceError::InvalidFileType));
}

#[test]
fn parse_bytes_gives_nothing_for_an_unsound_trailer() {
    let mut bytes = blank_trailer();
    assert!(parse_bytes(&bytes).is_some());
    bytes[0] = 0;
    assert_eq!(parse_bytes(&bytes), None);
    assert_eq!(parse_bytes(&vec![0u8; 10]), None);
    let mut with_record = b"abc".to_vec();
    full_record().add_to_bytes(&mut with_record).unwrap();
    assert_eq!(parse_bytes(&with_record).unwrap().title, "A title");
}

#[test]
fn datatype_codes() {
    let all = [
        (1u8, DataType::Character),
        (2, DataType::Bitmap),
        (3, DataType::Vector),
        (4, DataType::Audio),
        (5, DataType::BinaryText),
        (6, DataType::XBin),
        (7, DataType::Archive),
        (8, DataType::Executable),
    ];
    assert_eq!(0u8.as_datatype(), Ok(None));
    for (code, datatype) in all {
        assert_eq!(datatype.as_u8(), code);
        assert_eq!(code.as_datatype(), Ok(Some(datatype)));
    }
    for code in 9..=255u8 {
        assert_eq!(code.as_datatype(), Err(SauceError::InvalidDataType));
    }
}

#[test]
fn filetype_codes_by_datatype() {
    assert_eq!(0u8.as_filetype(&Some(DataType::Character)), Ok(Some(FileType::ASCII)));
    assert_eq!(1u8.as_filetype(&Some(DataType::Character)), Ok(Some(FileType::ANSI)));
    assert_eq!(2u8.as_filetype(&Some(DataType::Character)), Ok(Some(FileType::ANSIMation)));
    assert_eq!(3u8.as_filetype(&Some(DataType::Character)), Ok(Some(FileType::RIPScript)));
    assert_eq!(8u8.as_filetype(&Some(DataType::Character)), Ok(Some(FileType::TundraDraw)));
    assert_eq!(9u8.as_filetype(&Some(DataType::Character)), Err(SauceError::InvalidFileType));
    assert_eq!(0u8.as_filetype(&Some(DataType::Bitmap)), Ok(Some(FileType::GIF)));
    assert_eq!(11u8.as_filetype(&Some(DataType::Bitmap)), Ok(Some(FileType::JPG)));
    assert_eq!(13u8.as_filetype(&Some(DataType::Bitmap)), Ok(Some(FileType::AVI)));
    assert_eq!(16u8.as_filetype(&Some(DataType::Bitmap)), Err(SauceError::InvalidFileType));
    assert_eq!(3u8.as_filetype(&Some(DataType::Vector)), Ok(Some(FileType::Studio3DS)));
    assert_eq!(4u8.as_filetype(&Some(DataType::Vector)), Err(SauceError::InvalidFileType));
    assert_eq!(0u8.as_filetype(&Some(DataType::Audio)), Ok(Some(FileType::MOD)));
    assert_eq!(24u8.as_filetype(&Some(DataType::Audio)), Ok(Some(FileType::IT)));
    assert_eq!(25u8.as_filetype(&Some(DataType::Audio)), Err(SauceError::InvalidFileType));
    assert_eq!(0u8.as_filetype(&Some(DataType::Archive)), Ok(Some(FileType::ZIP)));
    assert_eq!(9u8.as_filetype(&Some(DataType::Archive)), Ok(Some(FileType::SQZ)));
    assert_eq!(10u8.as_filetype(&Some(DataType::Archive)), Err(SauceError::InvalidFileType));
}

#[test]
fn without_a_datatype_there_is_no_filetype() {
    for code in 0..=255u8 {
        assert_eq!(code.as_filetype(&None), Ok(None));
    }
}

#[test]
fn binary_text_takes_every_byte_as_its_width() {
    for code in 0..=255u8 {
        assert_eq!(
            code.as_filetype(&Some(DataType::BinaryText)),
            Ok(Some(FileType::Variable(code)))
        );
        assert_eq!(FileType::Variable(code).as_u8(), code);
        assert_eq!(FileType::Variable(code).owner(), DataType::BinaryText);
    }
}

#[test]
fn xbin_and_executable_take_only_zero() {
    assert_eq!(0u8.as_filetype(&Some(DataType::XBin)), Ok(Some(FileType::ExtendedBin)));
    assert_eq!(0u8.as_filetype(&Some(DataType::Executable)), Ok(None));
    for code in 1..=255u8 {
        assert_eq!(code.as_filetype(&Some(DataType::XBin)), Err(SauceError::InvalidFileType));
        assert_eq!(
            code.as_filetype(&Some(DataType::Executable)),
            Err(SauceError::InvalidFileType)
        );
    }
}

#[test]
fn every_filetype_has_its_code_and_its_datatype() {
    let mut seen = 0;
    for datatype in 1..=8u8 {
        let datatype = datatype.as_datatype().unwrap().unwrap();
        for code in 0..=255u8 {
            if let Ok(Some(filetype)) = code.as_filetype(&Some(datatype)) {
                assert_eq!(filetype.as_u8(), code);
                assert_eq!(filetype.owner(), datatype);
                seen += 1;
            }
        }
    }
    assert_eq!(seen, 9 + 14 + 4 + 25 + 256 + 1 + 10);
}

#[test]
fn names_of_datatypes() {
    assert_eq!(DataType::Character.to_string(), "Character");
    assert_eq!(DataType::BinaryText.to_string(), "Binary Text");
    assert_eq!(DataType::XBin.to_string(), "XBin");
    for code in 1..=8u8 {
        let datatype = code.as_datatype().unwrap().unwrap();
        assert_eq!(DataType::from_name(&datatype.to_string()), Ok(datatype));
        assert_eq!(DataType::from_str(&datatype.to_string()), Ok(datatype));
    }
    assert_eq!(DataType::from_name("BinaryText"), Err(SauceError::InvalidDataType));
    assert_eq!("character".parse::<DataType>(), Err(SauceError::InvalidDataType));
    assert_eq!("".parse::<DataType>(), Err(SauceError::InvalidDataType));
}

#[test]
fn names_of_filetypes() {
    assert_eq!(FileType::ASCII.to_string(), "ASCII");
    assert_eq!(FileType::LBMOrIFF.to_string(), "LBM/IFF");
    assert_eq!(FileType::WPGBitmap.to_string(), "WPG Bitmap");
    assert_eq!(FileType::WPGVector.to_string(), "WPG Vector");
    assert_eq!(FileType::Studio3DS.to_string(), "3DS");
    assert_eq!(FileType::Renaissance669.to_string(), "669");
    assert_eq!(FileType::ExtendedBin.to_string(), "ExtendedBin");
    assert_eq!(FileType::Variable(0).to_string(), "Variable(0)");
    assert_eq!(FileType::Variable(160).to_string(), "Variable(160)");
    assert_eq!(FileType::Variable(255).to_string(), "Variable(255)");
}

#[test]
fn names_of_letter_spacing_and_aspect_ratio() {
    assert_eq!(LetterSpacing::EightPixels.to_string(), "8px");
    assert_eq!(LetterSpacing::NinePixels.to_string(), "9px");
    assert_eq!("8px".parse::<LetterSpacing>(), Ok(LetterSpacing::EightPixels));
    assert_eq!("9px".parse::<LetterSpacing>(), Ok(LetterSpacing::NinePixels));
    assert_eq!("10px".parse::<LetterSpacing>(), Err(SauceError::InvalidLetterSpacingValue));
    assert_eq!(LetterSpacing::default(), LetterSpacing::EightPixels);
    assert_eq!(AspectRatio::Modern.to_string(), "modern");
    assert_eq!(AspectRatio::Legacy.to_string(), "legacy");
    assert_eq!(AspectRatio::from_name("modern"), Ok(AspectRatio::Modern));
    assert_eq!("legacy".parse::<AspectRatio>(), Ok(AspectRatio::Legacy));
    assert_eq!("Modern".parse::<AspectRatio>(), Err(SauceError::InvalidAspectRatioValue));
    assert_eq!(AspectRatio::default(), AspectRatio::Modern);
}

#[test]
fn error_messages() {
    assert_eq!(SauceError::EOFValueNotFound.to_string(), "EOF value not found");
    assert_eq!(SauceError::InvalidDataType.to_string(), "Invalid datatype");
    assert_eq!(SauceError::InvalidFileType.to_string(), "Invalid filetype");
    assert_eq!(SauceError::CommentsNotFound.to_string(), "Comments not found");
    assert_eq!(
        SauceError::InvalidLetterSpacingValue.to_string(),
        "Invalid letter spacing value"
    );
    assert_eq!(SauceError::InvalidAspectRatioValue.to_string(), "Invalid aspect ratio value");
    assert_eq!(SauceError::CommentsTooLarge.to_string(), "Comments too large");
    assert_eq!(SauceError::TooLarge.to_string(), "Bytes too large");
    assert_eq!(SauceError::from(textmode::bytes::BytesError::TooLarge), SauceError::TooLarge);
}

#[test]
fn a_record_is_shown_line_by_line() {
    let mut sauce = full_record();
    sauce.comments = Some(String::from("hello"));
    sauce.file = Some(String::from("demo.ans"));
    sauce.actual_filesize = 12000;
    assert_eq!(
        sauce.to_string(),
        "file: demo.ans\ntitle: A title\nauthor: An author\ngroup: A group\nyear: 1994\n\
         month: 07\ndate: 31\nfilesize: 12345\nactual filesize: 12000\ndatatype: Character\n\
         filetype: ANSI\ntype info 1: 80\ntype info 2: 25\ntype info 3: 3\ntype info 4: 65535\n\
         ice colors: true\nletter spacing: 9px\naspect ratio: legacy\nfont name: IBM VGA\n\
         comments: hello\n"
    );
    assert_eq!(
        Sauce::new().to_string(),
        "file: None\ntitle: \nauthor: \ngroup: \nyear: \nmonth: \ndate: \nfilesize: 0\n\
         actual filesize: 0\ndatatype: None\nfiletype: None\ntype info 1: 0\ntype info 2: 0\n\
         type info 3: 0\ntype info 4: 0\nice colors: false\nletter spacing not set\n\
         aspect ratio not set\nfont name: \ncomments not set\n"
    );
}

#[test]
fn display_settings_are_for_screen_text_only() {
    let mut sauce = Sauce::new();
    assert!(!sauce.is_screen_text());
    assert!(!sauce.set_ice_colors(true));
    assert!(!sauce.set_letter_spacing(Some(LetterSpacing::NinePixels)));
    assert!(!sauce.set_aspect_ratio(Some(AspectRatio::Modern)));
    assert_eq!(sauce, Sauce::new());
    sauce.datatype = Some(DataType::Bitmap);
    sauce.filetype = Some(FileType::GIF);
    assert!(!sauce.set_ice_colors(true));
    assert!(!sauce.ice_colors);
    for (datatype, filetype) in [
        (DataType::BinaryText, FileType::Variable(80)),
        (DataType::Character, FileType::ASCII),
        (DataType::Character, FileType::ANSI),
        (DataType::Character, FileType::ANSIMation),
    ] {
        let mut sauce = Sauce::new();
        sauce.datatype = Some(datatype);
        sauce.filetype = Some(filetype);
        assert!(sauce.is_screen_text());
        assert!(sauce.set_ice_colors(true));
        assert!(sauce.ice_colors);
        assert!(sauce.set_letter_spacing(Some(LetterSpacing::NinePixels)));
        assert_eq!(sauce.letter_spacing, Some(LetterSpacing::NinePixels));
        assert!(sauce.set_aspect_ratio(Some(AspectRatio::Legacy)));
        assert_eq!(sauce.aspect_ratio, Some(AspectRatio::Legacy));
        assert!(sauce.set_aspect_ratio(None));
        assert_eq!(sauce.aspect_ratio, None);
    }
    let mut sauce = Sauce::new();
    sauce.datatype = Some(DataType::Character);
    sauce.filetype = Some(FileType::RIPScript);
    assert!(!sauce.is_screen_text());
}

#[test]
fn extensions_say_what_a_file_is() {
    let found = |datatype, filetype, dimensions| Some(Detected { datatype, filetype, dimensions });
    assert_eq!(detect("GIF"), found(DataType::Bitmap, FileType::GIF, Dimensions::Needed));
    assert_eq!(detect("IT"), found(DataType::Audio, FileType::IT, Dimensions::Unused));
    assert_eq!(detect("JPG"), found(DataType::Bitmap, FileType::JPG, Dimensions::Wanted));
    assert_eq!(detect("MP4"), found(DataType::Bitmap, FileType::MPG, Dimensions::Unused));
    assert_eq!(detect("PNG"), found(DataType::Bitmap, FileType::PNG, Dimensions::Needed));
    assert_eq!(detect("RIP"), found(DataType::Character, FileType::RIPScript, Dimensions::Unused));
    assert_eq!(detect("S3M"), found(DataType::Audio, FileType::S3M, Dimensions::Unused));
    assert_eq!(detect("gif"), None);
    assert_eq!(detect("JPEG"), None);
    assert_eq!(detect("ANS"), None);
    assert_eq!(detect(""), None);
}

#[test]
fn what_was_detected_goes_into_the_record() {
    let mut sauce = Sauce::new();
    sauce.info_1 = 1;
    sauce.info_2 = 2;
    assert!(!sauce.set_detected(detect("PNG").unwrap(), None));
    assert_eq!(sauce.datatype, None);
    assert!(sauce.set_detected(detect("PNG").unwrap(), Some((640, 480))));
    assert_eq!(sauce.datatype, Some(DataType::Bitmap));
    assert_eq!(sauce.filetype, Some(FileType::PNG));
    assert_eq!((sauce.info_1, sauce.info_2), (640, 480));
    assert!(sauce.set_detected(detect("JPG").unwrap(), None));
    assert_eq!(sauce.filetype, Some(FileType::JPG));
    assert_eq!((sauce.info_1, sauce.info_2), (640, 480));
    assert!(sauce.set_detected(detect("JPG").unwrap(), Some((3, 4))));
    assert_eq!((sauce.info_1, sauce.info_2), (3, 4));
    assert!(sauce.set_detected(detect("S3M").unwrap(), Some((9, 9))));
    assert_eq!(sauce.datatype, Some(DataType::Audio));
    assert_eq!(sauce.filetype, Some(FileType::S3M));
    assert_eq!((sauce.info_1, sauce.info_2), (3, 4));
}

#[test]
fn dates_are_written_with_leading_zeros() {
    let mut sauce = Sauce::new();
    sauce.set_year(1994);
    sauce.set_month(7);
    sauce.set_day(31);
    assert_eq!(sauce.year, "1994");
    assert_eq!(sauce.month, "07");
    assert_eq!(sauce.date, "31");
    sauce.set_year(33);
    sauce.set_month(0);
    sauce.set_day(123);
    assert_eq!(sauce.year, "0033");
    assert_eq!(sauce.month, "00");
    assert_eq!(sauce.date, "123");
    assert_eq!(sauce.to_bytes(), Err(SauceError::TooLarge));
}

#[test]
fn empty_comments_are_unset() {
    let mut sauce = Sauce::new();
    sauce.set_comments("a comment");
    assert_eq!(sauce.comments, Some(String::from("a comment")));
    sauce.set_comments("");
    assert_eq!(sauce.comments, None);
}

#[test]
fn code_page_text_comes_back() {
    let mut sauce = full_record();
    sauce.title = String::from("\u{2588}\u{2593}\u{2592}\u{2591} blocks");
    sauce.comments = Some(String::from("\u{2554}\u{2550}\u{2557} box"));
    let bytes = sauce.to_bytes().unwrap();
    assert_eq!(&bytes[bytes.len() - 121..bytes.len() - 117], &[0xdb, 0xb2, 0xb1, 0xb0]);
    assert_eq!(Sauce::from_bytes(&bytes), Ok(Some(sauce)));
}

#[test]
fn code_page_bytes_that_are_utf8_come_back_as_utf8() {
    let mut sauce = full_record();
    // These two characters are written as C3 A4, which is one character in
    // UTF-8.
    sauce.title = String::from("\u{251c}\u{f1}");
    let bytes = sauce.to_bytes().unwrap();
    assert_eq!(&bytes[bytes.len() - 121..bytes.len() - 119], &[0xc3, 0xa4]);
    assert_eq!(Sauce::from_bytes(&bytes).unwrap().unwrap().title, "\u{e4}");
}

#[test]
fn a_text_that_ends_in_its_fill_loses_it() {
    let mut sauce = full_record();
    sauce.title = String::from("title  ");
    sauce.font_name = String::from("font\0");
    sauce.comments = Some(String::from("comment "));
    let found = Sauce::from_bytes(&sauce.to_bytes().unwrap()).unwrap().unwrap();
    assert_eq!(found.title, "title");
    assert_eq!(found.font_name, "font");
    assert_eq!(found.comments, Some(String::from("comment")));
}
