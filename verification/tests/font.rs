use textmode::font::builtin::{TABLE_LENGTH, TABLE_WIDTH};
use textmode::font::{get_boolmasks, pack_bits, Font, FontError, FontTable};
use textmode::render::{Color, Image};

fn bits(text: &str) -> Vec<bool> {
    text.chars().filter(|c| *c != ' ').map(|c| c == '1').collect()
}

/// Four glyphs of 4 by 2 pixels.
fn small_font() -> Font {
    Font::new(&[0b1010_0101, 0b1111_0000, 0b0000_0001, 0b1000_0000], 4, 2, 4)
}

#[test]
fn get_boolmasks_unpacks_the_highest_bit_first() {
    let masks = get_boolmasks(&[0b1010_0000, 0b0000_1111], 4, 2);
    assert_eq!(masks, vec![bits("1010 0000"), bits("0000 1111")]);
}

#[test]
fn get_boolmasks_cuts_across_bytes() {
    let masks = get_boolmasks(&[0b1100_0011, 0b1111_0000, 0b0101_0101], 4, 3);
    assert_eq!(masks, vec![bits("1100 0011 1111"), bits("0000 0101 0101")]);
    let bitwise = get_boolmasks(&[0b1000_0001], 1, 1);
    assert_eq!(bitwise.len(), 8);
    assert_eq!(bitwise[0], vec![true]);
    assert_eq!(bitwise[1], vec![false]);
    assert_eq!(bitwise[7], vec![true]);
    assert!(get_boolmasks(&[], 8, 16).is_empty());
}

#[test]
fn a_new_font_holds_what_it_was_given() {
    let font = small_font();
    assert_eq!(font.width, 4);
    assert_eq!(font.height, 2);
    assert_eq!(font.length, 4);
    assert_eq!(
        font.bitmasks,
        vec![bits("1010 0101"), bits("1111 0000"), bits("0000 0001"), bits("1000 0000")]
    );
}

#[test]
fn pack_bits_packs_the_first_bit_highest() {
    assert_eq!(pack_bits(&bits("1010 0101 1111 0000"), 2), vec![0b1010_0101, 0b1111_0000]);
    // Missing bits are unset.
    assert_eq!(pack_bits(&bits("1010 0101 111"), 2), vec![0b1010_0101, 0b1110_0000]);
    assert_eq!(pack_bits(&bits("1"), 3), vec![0b1000_0000, 0, 0]);
    // Bits beyond the bytes asked for are left out.
    assert_eq!(pack_bits(&bits("1111 1111 1"), 1), vec![0xff]);
    assert_eq!(pack_bits(&bits("1111"), 0), Vec::<u8>::new());
}

#[test]
fn a_font_is_packed_as_it_was_unpacked() {
    let bytes = [0b1010_0101, 0b1111_0000, 0b0000_0001, 0b1000_0000];
    assert_eq!(small_font().as_bitmask_bytes(), bytes.to_vec());
    let table: Vec<u8> = (0..=255u8).cycle().take(4096).collect();
    let font = Font::new(&table, 8, 16, 256);
    assert_eq!(font.bitmasks.len(), 256);
    assert_eq!(font.as_bitmask_bytes(), table);
}

#[test]
fn a_packed_font_has_as_many_bytes_as_its_glyphs_take() {
    // Three glyphs of 3 by 3 pixels take 27 bits, which is four bytes.
    let font = Font {
        width: 3,
        height: 3,
        length: 3,
        bitmasks: vec![bits("111 000 111"), bits("101 010 101"), bits("000 111 000")],
    };
    assert_eq!(
        font.as_bitmask_bytes(),
        vec![0b1110_0011, 0b1101_0101, 0b0100_0111, 0b0000_0000]
    );
    // A font that counts fewer glyphs than it has masks leaves the rest out.
    let mut fewer = small_font();
    fewer.length = 1;
    assert_eq!(fewer.as_bitmask_bytes(), vec![0b1010_0101]);
    // One that counts more is filled up with unset bits.
    let mut more = small_font();
    more.length = 5;
    assert_eq!(
        more.as_bitmask_bytes(),
        vec![0b1010_0101, 0b1111_0000, 0b0000_0001, 0b1000_0000, 0]
    );
}

#[test]
fn a_bitmask_gives_a_font_of_the_size_asked_for() {
    let table = vec![0x81u8; 4096];
    let font = Font::from_bitmask_bytes(&table, 8, Some(16), 256).unwrap();
    assert_eq!((font.width, font.height, font.length), (8, 16, 256));
    assert_eq!(font.bitmasks.len(), 256);
    assert_eq!(font.bitmasks[255].len(), 128);
    assert_eq!(&font.bitmasks[0][..8], &bits("1000 0001")[..]);
    // More glyphs than asked for are kept.
    let font = Font::from_bitmask_bytes(&table, 8, Some(16), 100).unwrap();
    assert_eq!(font.length, 100);
    assert_eq!(font.bitmasks.len(), 256);
}

#[test]
fn the_height_follows_from_the_size_of_the_bitmask() {
    let font = Font::from_bitmask_bytes(&vec![0u8; 2048], 8, None, 256).unwrap();
    assert_eq!(font.height, 8);
    let font = Font::from_bitmask_bytes(&vec![0u8; 4864], 8, None, 256).unwrap();
    assert_eq!(font.height, 19);
    let font = Font::from_bitmask_bytes(&[1, 2, 3, 4], 4, None, 2).unwrap();
    assert_eq!(font.height, 4);
    assert_eq!(font.bitmasks.len(), 2);
}

#[test]
fn a_bitmask_of_the_wrong_size_is_refused() {
    let refused = |r: Result<Font, FontError>| assert_eq!(r.err(), Some(FontError::FileNotCorrectSize));
    // Too short for the glyphs.
    refused(Font::from_bitmask_bytes(&vec![0u8; 4095], 8, Some(16), 256));
    refused(Font::from_bitmask_bytes(&[], 8, Some(16), 1));
    // Not a whole number of glyphs.
    refused(Font::from_bitmask_bytes(&vec![0u8; 4097], 8, Some(16), 256));
    // No pixels.
    refused(Font::from_bitmask_bytes(&vec![0u8; 16], 0, Some(16), 1));
    refused(Font::from_bitmask_bytes(&vec![0u8; 16], 8, Some(0), 1));
    // No height can be found for no glyphs, nor one of no rows.
    refused(Font::from_bitmask_bytes(&vec![0u8; 16], 8, None, 0));
    refused(Font::from_bitmask_bytes(&[0u8; 3], 8, None, 4));
    // Sizes beyond every file.
    refused(Font::from_bitmask_bytes(&vec![0u8; 16], usize::MAX, Some(usize::MAX), 1));
    refused(Font::from_bitmask_bytes(&vec![0u8; 16], 8, Some(16), usize::MAX));
}

#[test]
fn an_empty_bitmask_is_a_font_without_glyphs() {
    let font = Font::from_bitmask_bytes(&[], 8, Some(16), 0).unwrap();
    assert_eq!((font.width, font.height, font.length), (8, 16, 0));
    assert!(font.bitmasks.is_empty());
    let huge = Font::from_bitmask_bytes(&[], usize::MAX, Some(2), 0).unwrap();
    assert!(huge.bitmasks.is_empty());
}

#[test]
fn a_new_image_is_black() {
    let image = Image::new(3, 2);
    assert_eq!((image.width, image.height), (3, 2));
    assert_eq!(image.data, vec![0u8; 18]);
    assert!(Image::new(0, 5).data.is_empty());
}

#[test]
fn an_image_takes_data_of_three_bytes_a_pixel() {
    let image = Image::from_rgb(2, 1, vec![1, 2, 3, 4, 5, 6]).unwrap();
    assert_eq!((image.width, image.height), (2, 1));
    assert_eq!(image.data, vec![1, 2, 3, 4, 5, 6]);
    assert!(Image::from_rgb(2, 1, vec![1, 2, 3, 4, 5]).is_none());
    assert!(Image::from_rgb(2, 1, vec![0; 8]).is_none());
    assert!(Image::from_rgb(usize::MAX, 2, Vec::new()).is_none());
    assert!(Image::from_rgb(0, 7, Vec::new()).is_some());
}

#[test]
fn a_colour_holds_its_channels() {
    assert_eq!(Color::new(1, 2, 3).rgb, [1, 2, 3]);
}

#[test]
fn a_glyph_is_drawn_in_its_rectangle_only() {
    let font = small_font();
    let mut image = Image::from_rgb(6, 4, vec![9u8; 72]).unwrap();
    image.draw_font(1, 1, &font, 0, &[1, 2, 3], &[4, 5, 6]);
    let pixel = |x: usize, y: usize| {
        let i = (y * 6 + x) * 3;
        [image.data[i], image.data[i + 1], image.data[i + 2]]
    };
    // Glyph 0 is 1010 over 0101.
    assert_eq!(pixel(1, 1), [1, 2, 3]);
    assert_eq!(pixel(2, 1), [4, 5, 6]);
    assert_eq!(pixel(3, 1), [1, 2, 3]);
    assert_eq!(pixel(4, 1), [4, 5, 6]);
    assert_eq!(pixel(1, 2), [4, 5, 6]);
    assert_eq!(pixel(2, 2), [1, 2, 3]);
    assert_eq!(pixel(3, 2), [4, 5, 6]);
    assert_eq!(pixel(4, 2), [1, 2, 3]);
    for y in 0..4 {
        for x in 0..6 {
            if !(1..5).contains(&x) || !(1..3).contains(&y) {
                assert_eq!(pixel(x, y), [9, 9, 9]);
            }
        }
    }
}

#[test]
fn a_font_is_drawn_as_a_sheet() {
    let image = small_font().as_image(3);
    // Three glyphs to the row, so two rows for four glyphs.
    assert_eq!((image.width, image.height), (12, 4));
    let lit = |x: usize, y: usize| {
        let i = (y * 12 + x) * 3;
        let p = [image.data[i], image.data[i + 1], image.data[i + 2]];
        assert!(p == [0, 0, 0] || p == [255, 255, 255]);
        p[0] == 255
    };
    let row = |y: usize| (0..12).map(|x| lit(x, y)).collect::<Vec<bool>>();
    assert_eq!(row(0), bits("1010 1111 0000"));
    assert_eq!(row(1), bits("0101 0000 0001"));
    assert_eq!(row(2), bits("1000 0000 0000"));
    assert_eq!(row(3), bits("0000 0000 0000"));
}

#[test]
fn a_sheet_of_one_row() {
    let image = small_font().as_image(4);
    assert_eq!((image.width, image.height), (16, 2));
    let image = small_font().as_image(7);
    assert_eq!((image.width, image.height), (28, 2));
    let image = small_font().as_image(1);
    assert_eq!((image.width, image.height), (4, 8));
}

#[test]
fn a_font_comes_back_from_its_sheet() {
    let font = small_font();
    for per_row in [1usize, 2, 3, 4, 5] {
        let image = font.as_image(per_row);
        let back = Font::from_image(&image, 4, Some(2), 4).unwrap();
        assert_eq!((back.width, back.height, back.length), (4, 2, 4));
        assert_eq!(back.bitmasks, font.bitmasks);
    }
    let image = font.as_image(2);
    let back = Font::from_image(&image, 4, None, 4).unwrap();
    assert_eq!(back.height, 2);
    assert_eq!(back.bitmasks, font.bitmasks);
}

#[test]
fn pixels_are_set_where_they_are_bright() {
    // Two glyphs of 2 by 2 pixels side by side.
    let mut data = Vec::new();
    for p in [[128u8, 128, 128], [127, 127, 127], [255, 0, 0], [255, 255, 0]] {
        data.extend_from_slice(&p);
    }
    for p in [[0u8, 0, 0], [255, 255, 255], [127, 128, 128], [128, 128, 126]] {
        data.extend_from_slice(&p);
    }
    let image = Image::from_rgb(4, 2, data).unwrap();
    let font = Font::from_image(&image, 2, Some(2), 2).unwrap();
    assert_eq!(font.bitmasks, vec![bits("10 01"), bits("01 00")]);
}

#[test]
fn an_image_that_cannot_be_cut_is_refused() {
    let refused = |r: Result<Font, FontError>| {
        assert_eq!(r.err(), Some(FontError::ImageNotCorrectDimensions))
    };
    let image = Image::new(16, 16);
    assert!(Font::from_image(&image, 8, Some(16), 2).is_ok());
    assert!(Font::from_image(&image, 8, Some(8), 4).is_ok());
    // Too few cells.
    refused(Font::from_image(&image, 8, Some(16), 3));
    // Cells that do not fill the image.
    refused(Font::from_image(&image, 5, Some(16), 1));
    refused(Font::from_image(&image, 8, Some(5), 1));
    // No pixels.
    refused(Font::from_image(&image, 0, Some(16), 1));
    refused(Font::from_image(&image, 8, Some(0), 1));
    // Wider than the image.
    refused(Font::from_image(&image, 32, None, 1));
    refused(Font::from_image(&image, 32, Some(16), 1));
    // Bits that do not fill whole bytes.
    let odd = Image::new(3, 3);
    refused(Font::from_image(&odd, 3, Some(3), 1));
    refused(Font::from_image(&odd, 1, Some(1), 9));
    assert!(Font::from_image(&odd, 1, Some(1), 8).is_ok());
}

#[test]
fn no_glyphs_are_read_from_any_image_that_can_be_cut() {
    let font = Font::from_image(&Image::new(16, 16), 8, Some(16), 0).unwrap();
    assert_eq!((font.width, font.height, font.length), (8, 16, 0));
    assert!(font.bitmasks.is_empty());
    let font = Font::from_image(&Image::new(0, 0), 8, Some(16), 0).unwrap();
    assert!(font.bitmasks.is_empty());
}

#[test]
fn fonts_are_known_by_name() {
    assert_eq!(FontTable::from_name("IBM VGA"), Ok(FontTable::Cp437F16));
    assert_eq!(FontTable::from_name("IBM VGA50"), Ok(FontTable::Cp437F08));
    assert_eq!(FontTable::from_name("IBM VGA25G"), Ok(FontTable::Cp437F19));
    assert_eq!(FontTable::from_name("IBM EGA"), Ok(FontTable::Cp437F14));
    assert_eq!(FontTable::from_name("IBM EGA43"), Ok(FontTable::Cp437F08));
    assert_eq!(FontTable::from_name("IBM VGA 437"), Ok(FontTable::Cp437F16));
    assert_eq!(FontTable::from_name("IBM VGA 737"), Ok(FontTable::Cp737F16));
    assert_eq!(FontTable::from_name("IBM VGA25G 737"), Ok(FontTable::Cp437F19));
    assert_eq!(FontTable::from_name("IBM VGA 819"), Ok(FontTable::Cp437F16));
    assert_eq!(FontTable::from_name("IBM EGA43 850"), Ok(FontTable::Cp850F08));
    assert_eq!(FontTable::from_name("IBM VGA MIK"), Ok(FontTable::Cp866F16));
    assert_eq!(FontTable::from_name("IBM EGA43 867"), Ok(FontTable::Cp437F08));
    assert_eq!(FontTable::from_name("Amiga Topaz 1"), Ok(FontTable::TopazA500F16));
    assert_eq!(FontTable::from_name("Amiga Topaz 2+"), Ok(FontTable::TopazPlusA1200F16));
    assert_eq!(FontTable::from_name("Amiga P0T-NOoDLE"), Ok(FontTable::P0tNoodleF16));
    assert_eq!(FontTable::from_name("Amiga mOsOul"), Ok(FontTable::MoSoulF16));
    assert_eq!(FontTable::from_name("C64 PETSCII unshifted"), Ok(FontTable::PetsciiUnshifted));
    assert_eq!(FontTable::from_name("C64 PETSCII shifted"), Ok(FontTable::PetsciiShifted));
    assert_eq!(FontTable::from_name("IBM VGA 999"), Err(FontError::FontNotFound));
    assert_eq!(FontTable::from_name("ibm vga"), Err(FontError::FontNotFound));
    assert_eq!(FontTable::from_name(""), Err(FontError::FontNotFound));
}

#[test]
fn tables_have_256_glyphs_eight_pixels_wide() {
    assert_eq!((TABLE_WIDTH, TABLE_LENGTH), (8, 256));
    assert_eq!(FontTable::Cp437F16.glyph_height(), 16);
    assert_eq!(FontTable::Cp437F08.glyph_height(), 8);
    assert_eq!(FontTable::Cp437F19.glyph_height(), 19);
    assert_eq!(FontTable::Cp437F14.glyph_height(), 14);
    assert_eq!(FontTable::MicroKnightPlusF16.glyph_height(), 16);
    assert_eq!(FontTable::PetsciiShifted.glyph_height(), 8);
    let font = Font::from_table(FontTable::Cp437F14, &vec![0xaau8; 256 * 14]).unwrap();
    assert_eq!((font.width, font.height, font.length), (8, 14, 256));
    assert_eq!(font.bitmasks.len(), 256);
    assert_eq!(font.bitmasks[0].len(), 8 * 14);
    assert_eq!(
        Font::from_table(FontTable::Cp437F14, &vec![0u8; 4096]).err(),
        Some(FontError::FileNotCorrectSize)
    );
}

#[test]
fn font_error_messages() {
    assert_eq!(FontError::FontNotFound.to_string(), "Font not found");
    assert_eq!(FontError::ImageNotCorrectDimensions.to_string(), "Image not correct dimensions");
    assert_eq!(FontError::FileNotCorrectSize.to_string(), "File not correct size");
    assert_eq!(FontError::InvalidXBinFile.to_string(), "Invalid XBin file");
    assert_eq!(FontError::InvalidADFFile.to_string(), "Invalid ADF file");
    assert_eq!(FontError::InvalidIDFFile.to_string(), "Invalid IDF file");
    assert_eq!(FontError::NoFontDataFound.to_string(), "No font data found");
}

#[test]
fn masks_are_unpacked_for_drawing_too() {
    assert_eq!(
        textmode::render::get_boolmasks(&[0b1111_0000], 2, 2),
        vec![bits("1111"), bits("0000")]
    );
}

#[test]
fn drawing_looks_at_the_one_mask_only() {
    // The other masks are of no use, and the mask drawn is longer than the
    // glyph: only its first eight bits count.
    let font = Font {
        width: 4,
        height: 2,
        length: 3,
        bitmasks: vec![Vec::new(), bits("1111 0000 1111"), bits("1")],
    };
    let mut image = Image::new(4, 2);
    image.draw_font(0, 0, &font, 1, &[255, 255, 255], &[7, 7, 7]);
    let mut expected = vec![255u8; 12];
    expected.extend_from_slice(&[7u8; 12]);
    assert_eq!(image.data, expected);
}

#[test]
fn a_font_without_pixels_draws_nothing() {
    let font = Font { width: 0, height: 16, length: 5, bitmasks: Vec::new() };
    let mut image = Image::from_rgb(2, 16, vec![9u8; 96]).unwrap();
    image.draw_font(2, 0, &font, 3, &[1, 1, 1], &[0, 0, 0]);
    assert_eq!(image.data, vec![9u8; 96]);
    let sheet = font.as_image(4);
    assert_eq!((sheet.width, sheet.height), (0, 32));
    assert!(sheet.data.is_empty());
}
