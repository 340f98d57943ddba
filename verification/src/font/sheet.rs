//! Fonts as sheets of glyphs: an image cut into cells, one glyph to a cell,
//! row after row.

use super::error::FontError;
use super::{glyph_masks, masks, Font};
use crate::render::image::{lemma_offset, offset};
use crate::render::{Color, Image};
use vstd::prelude::*;

verus! {

/// Whether the pixel in column `x` of row `y` of an image `width` pixels wide
/// is bright: its three channels are above 127 on average.
pub open spec fn bright(data: Seq<u8>, width: int, x: int, y: int) -> bool {
    (data[offset(width, x, y, 0)] + data[offset(width, x, y, 1)] + data[offset(width, x, y, 2)])
        / 3 > 127
}

/// Where item `minor` of run `major` stands among runs of `stride` items
/// that follow one another.
pub open spec fn place(stride: int, major: int, minor: int) -> int {
    major * stride + minor
}

/// The bit in column `col` of row `row` of the glyph that stands in column
/// `cx` of row `cy` of a sheet of `per_row` glyphs to the row.
pub open spec fn glyph_bit(
    bitmasks: Seq<Seq<bool>>,
    width: int,
    per_row: int,
    cx: int,
    cy: int,
    row: int,
    col: int,
) -> bool {
    bitmasks[cy * per_row + cx][row * width + col]
}

/// Whether the pixel in column `col` of row `row` of the cell that stands in
/// column `cx` of row `cy` of an image is bright, where each cell is `width`
/// pixels wide and `height` pixels high.
pub open spec fn cell_bright(
    data: Seq<u8>,
    image_width: int,
    width: int,
    height: int,
    cx: int,
    cy: int,
    row: int,
    col: int,
) -> bool {
    bright(data, image_width, cx * width + col, cy * height + row)
}

/// How many rows `length` glyphs take with `per_row` glyphs to the row.
pub open spec fn rows_for(length: int, per_row: int) -> int {
    (length + per_row - 1) / per_row
}

/// Where channel `channel` of the pixel in column `col` of row `row` of the
/// cell in column `cx` of row `cy` stands in the data of an image, where
/// each cell is `width` pixels wide and `height` pixels high.
pub open spec fn cell_offset(
    image_width: int,
    width: int,
    height: int,
    cx: int,
    cy: int,
    row: int,
    col: int,
    channel: int,
) -> int {
    offset(image_width, cx * width + col, cy * height + row, channel)
}

/// Whether masks are what an image shows: the first `length` of its cells
/// of `width` by `height` pixels, counted from the left of the top row, hold
/// one glyph each, whose bits are set where the pixels are bright.
pub open spec fn shown_in(
    all: Seq<Seq<bool>>,
    data: Seq<u8>,
    image_width: int,
    width: int,
    height: int,
    length: int,
) -> bool {
    forall|cx: int, cy: int, row: int, col: int|
        0 <= cx < image_width / width && 0 <= cy && cy * (image_width / width) + cx < length && 0
            <= row < height && 0 <= col < width ==> #[trigger] glyph_bit(
            all,
            width,
            image_width / width,
            cx,
            cy,
            row,
            col,
        ) == cell_bright(data, image_width, width, height, cx, cy, row, col)
}

/// Whether the data of an image is the sheet of a font's masks: with
/// `per_row` cells of `width` by `height` pixels to the row, the first
/// `length` cells, counted from the left of the top row, show one glyph
/// each, white where its bits are set and black elsewhere, and every other
/// cell is black.
pub open spec fn is_sheet(
    data: Seq<u8>,
    all: Seq<Seq<bool>>,
    width: int,
    height: int,
    per_row: int,
    length: int,
) -> bool {
    forall|cx: int, cy: int, row: int, col: int, channel: int|
        0 <= cx < per_row && 0 <= cy < rows_for(length, per_row) && 0 <= row < height && 0 <= col
            < width && 0 <= channel < 3 ==> data[#[trigger] cell_offset(
            per_row * width,
            width,
            height,
            cx,
            cy,
            row,
            col,
            channel,
        )] == if cy * per_row + cx < length && glyph_bit(all, width, per_row, cx, cy, row, col) {
            255u8
        } else {
            0u8
        }
}

/// Enough rows hold all glyphs, and no fewer do.
proof fn lemma_rows_for(length: int, per_row: int)
    requires
        0 <= length,
        0 < per_row,
    ensures
        rows_for(length, per_row) == if length % per_row == 0 {
            length / per_row
        } else {
            length / per_row + 1
        },
        0 <= rows_for(length, per_row) <= length,
        length <= rows_for(length, per_row) * per_row,
{
    vstd::arithmetic::div_mod::lemma_fundamental_div_mod(length, per_row);
    let q = length / per_row;
    let r = length % per_row;
    if r == 0 {
        assert(length + per_row - 1 == q * per_row + (per_row - 1)) by (nonlinear_arith)
            requires
                length == per_row * q + r,
                r == 0,
        ;
        vstd::arithmetic::div_mod::lemma_fundamental_div_mod_converse(
            length + per_row - 1,
            per_row,
            q,
            per_row - 1,
        );
    } else {
        assert(length + per_row - 1 == (q + 1) * per_row + (r - 1)) by (nonlinear_arith)
            requires
                length == per_row * q + r,
        ;
        vstd::arithmetic::div_mod::lemma_fundamental_div_mod_converse(
            length + per_row - 1,
            per_row,
            q + 1,
            r - 1,
        );
    }
    let rows = rows_for(length, per_row);
    assert(length <= rows * per_row && 0 <= q) by (nonlinear_arith)
        requires
            length == per_row * q + r,
            0 <= r < per_row,
            rows == if r == 0 {
                q
            } else {
                q + 1
            },
            0 <= length,
    ;
    assert(rows <= length) by (nonlinear_arith)
        requires
            length == per_row * q + r,
            0 <= r < per_row,
            0 <= q,
            rows == if r == 0 {
                q
            } else {
                q + 1
            },
    ;
}

/// Cell `c` of `count` cells of `size` pixels each lies within them.
proof fn lemma_cell(count: int, size: int, c: int)
    requires
        0 <= c < count,
        0 <= size,
    ensures
        0 <= c * size,
        c * size + size <= count * size,
{
    assert(0 <= c * size && c * size + size <= count * size) by (nonlinear_arith)
        requires
            0 <= c < count,
            0 <= size,
    ;
}

/// A pixel of cell `c` lies in cell `other` only where the two are the same
/// cell.
proof fn lemma_same_cell(size: int, c: int, within: int, other: int)
    requires
        0 <= within < size,
        0 <= c,
        0 <= other,
    ensures
        (other * size <= c * size + within < other * size + size) <==> c == other,
{
    assert((other * size <= c * size + within < other * size + size) <==> c == other)
        by (nonlinear_arith)
        requires
            0 <= within < size,
    ;
}

/// A font comes back from its sheet: masks that an image shows are the
/// masks whose sheet the image is.
pub proof fn lemma_sheet_round_trip(
    data: Seq<u8>,
    drawn: Seq<Seq<bool>>,
    read: Seq<Seq<bool>>,
    width: int,
    height: int,
    per_row: int,
    length: int,
)
    requires
        width > 0,
        height > 0,
        per_row > 0,
        0 <= length <= drawn.len(),
        read.len() == length,
        forall|g: int| 0 <= g < length ==> (#[trigger] drawn[g]).len() == width * height,
        forall|g: int| 0 <= g < length ==> (#[trigger] read[g]).len() == width * height,
        is_sheet(data, drawn, width, height, per_row, length),
        shown_in(read, data, per_row * width, width, height, length),
    ensures
        read == drawn.subrange(0, length),
{
    let image_width = per_row * width;
    assert(image_width / width == per_row) by (nonlinear_arith)
        requires
            image_width == per_row * width,
            width > 0,
    ;
    lemma_rows_for(length, per_row);
    assert forall|g: int| 0 <= g < length implies read[g] == drawn[g] by {
        let cx = g % per_row;
        let cy = g / per_row;
        vstd::arithmetic::div_mod::lemma_fundamental_div_mod(g, per_row);
        assert(cy * per_row + cx == g && 0 <= cy && cy < rows_for(length, per_row))
            by (nonlinear_arith)
            requires
                g == per_row * cy + cx,
                0 <= cx < per_row,
                0 <= g < length,
                length <= rows_for(length, per_row) * per_row,
        ;
        assert forall|i: int| 0 <= i < width * height implies read[g][i] == drawn[g][i] by {
            let row = i / width;
            let col = i % width;
            vstd::arithmetic::div_mod::lemma_fundamental_div_mod(i, width);
            assert(row * width + col == i && 0 <= row < height) by (nonlinear_arith)
                requires
                    i == width * row + col,
                    0 <= col < width,
                    0 <= i < width * height,
            ;
            assert(glyph_bit(read, width, per_row, cx, cy, row, col) == read[g][i]);
            assert(glyph_bit(drawn, width, per_row, cx, cy, row, col) == drawn[g][i]);
            let red = data[cell_offset(image_width, width, height, cx, cy, row, col, 0)];
            let green = data[cell_offset(image_width, width, height, cx, cy, row, col, 1)];
            let blue = data[cell_offset(image_width, width, height, cx, cy, row, col, 2)];
            assert(cell_bright(data, image_width, width, height, cx, cy, row, col) == ((red
                + green + blue) / 3 > 127));
        }
        assert(read[g] =~= drawn[g]);
    }
    assert(read =~= drawn.subrange(0, length));
}

impl Font {
    /// The height of the glyphs in an image: the height given, or else the
    /// height of the image shared among as many rows as the image has
    /// columns of glyphs.
    pub open spec fn height_in_image(
        image_width: int,
        image_height: int,
        width: int,
        height: Option<usize>,
    ) -> int {
        match height {
            Some(h) => h as int,
            None => image_height / (image_width / width),
        }
    }

    /// Whether an image can be cut into cells of `width` by `height` pixels
    /// that hold `length` glyphs whose bits fill whole bytes.
    pub open spec fn image_holds(
        image_width: int,
        image_height: int,
        width: int,
        height: int,
        length: int,
    ) -> bool {
        &&& width > 0
        &&& height > 0
        &&& image_width % width == 0
        &&& image_height % height == 0
        &&& length <= (image_width / width) * (image_height / height)
        &&& (width * height * length) % 8 == 0
    }

    /// The bits of the glyph whose cell has its top left corner in column `x`
    /// of row `y` of an image, appended to `bits`.
    fn read_glyph(image: &Image, x: usize, y: usize, width: usize, height: usize, bits: &mut Vec<bool>)
        requires
            image.wf(),
            x + width <= image.width,
            y + height <= image.height,
        ensures
            final(bits)@.len() == old(bits)@.len() + width * height,
            final(bits)@.subrange(0, old(bits)@.len() as int) == old(bits)@,
            forall|row: int, col: int|
                0 <= row < height && 0 <= col < width ==> final(bits)@[#[trigger] place(
                    width as int,
                    row,
                    old(bits)@.len() + col,
                )] == bright(image.data@, image.width as int, x + col, y + row),
    {
        let ghost before = bits@;
        let data_len: usize = image.data.len();
        let mut row: usize = 0;
        while row < height
            invariant
                image.wf(),
                data_len == image.data@.len(),
                x + width <= image.width,
                y + height <= image.height,
                row <= height,
                bits@.len() == before.len() + row * width,
                bits@.subrange(0, before.len() as int) == before,
                forall|r: int, c: int|
                    0 <= r < row && 0 <= c < width ==> bits@[#[trigger] place(
                        width as int,
                        r,
                        before.len() + c,
                    )] == bright(image.data@, image.width as int, x + c, y + r),
            decreases height - row,
        {
            let mut col: usize = 0;
            while col < width
                invariant
                    image.wf(),
                    data_len == image.data@.len(),
                    x + width <= image.width,
                    y + height <= image.height,
                    row < height,
                    col <= width,
                    bits@.len() == before.len() + row * width + col,
                    bits@.subrange(0, before.len() as int) == before,
                    forall|r: int, c: int|
                        (0 <= r < row && 0 <= c < width) || (r == row && 0 <= c < col)
                            ==> bits@[#[trigger] place(width as int, r, before.len() + c)]
                            == bright(image.data@, image.width as int, x + c, y + r),
                decreases width - col,
            {
                proof {
                    lemma_offset(
                        image.width as int,
                        image.height as int,
                        x + col,
                        y + row,
                        0,
                    );
                    assert(0 <= (y + row) * image.width <= (y + row) * image.width + (x + col))
                        by (nonlinear_arith)
                        requires
                            0 <= x + col,
                            0 <= y + row,
                            0 <= image.width,
                    ;
                }
                let i: usize = ((y + row) * image.width + (x + col)) * 3;
                let sum: usize = image.data[i] as usize + image.data[i + 1] as usize
                    + image.data[i + 2] as usize;
                let ghost old_bits = bits@;
                bits.push(sum / 3 > 127);
                proof {
                    assert(bits@.subrange(0, before.len() as int) =~= old_bits.subrange(
                        0,
                        before.len() as int,
                    ));
                    assert forall|r: int, c: int|
                        (0 <= r < row && 0 <= c < width) || (r == row && 0 <= c < col + 1)
                            implies bits@[#[trigger] place(
                        width as int,
                        r,
                        before.len() + c,
                    )] == bright(image.data@, image.width as int, x + c, y + r) by {
                        if r == row && c == col {
                        } else {
                            assert(r * width + c < row * width + col) by (nonlinear_arith)
                                requires
                                    (0 <= r < row && 0 <= c < width) || (r == row && 0 <= c
                                        < col),
                                    0 <= col,
                            ;
                            assert(bits@[place(width as int, r, before.len() + c)]
                                == old_bits[place(width as int, r, before.len() + c)]);
                        }
                    }
                }
                col += 1;
            }
            row += 1;
            proof {
                assert(row * width == (row - 1) * width + width) by (nonlinear_arith);
            }
        }
        proof {
            assert(height * width == width * height) by (nonlinear_arith);
        }
    }

    /// The bits of the first `length` glyphs drawn in an image, cell by cell
    /// from the left of the top row.
    fn read_glyphs(image: &Image, width: usize, h: usize, length: usize) -> (bits: Vec<bool>)
        requires
            image.wf(),
            width > 0,
            h > 0,
            image.width % width == 0,
            image.height % h == 0,
            0 < length <= (image.width / width) * (image.height / h),
        ensures
            width * h * length <= usize::MAX,
            bits@.len() == width * h * length,
            forall|x: int, y: int, row: int, col: int|
                0 <= x < image.width / width && 0 <= y && y * (image.width / width) + x < length
                    && 0 <= row < h && 0 <= col < width ==> bits@[#[trigger] place(
                    width * h,
                    y * (image.width / width) + x,
                    place(width as int, row, col),
                )] == cell_bright(
                    image.data@,
                    image.width as int,
                    width as int,
                    h as int,
                    x,
                    y,
                    row,
                    col,
                ),
    {
        let per_row: usize = image.width / width;
        let rows: usize = image.height / h;
        let data_len: usize = image.data.len();
        proof {
            vstd::arithmetic::div_mod::lemma_fundamental_div_mod(
                image.width as int,
                width as int,
            );
            vstd::arithmetic::div_mod::lemma_fundamental_div_mod(image.height as int, h as int);
            assert(per_row > 0 && rows > 0) by (nonlinear_arith)
                requires
                    per_row * rows > 0,
                    per_row >= 0,
                    rows >= 0,
            ;
            assert(per_row * rows * (width * h) == (width * per_row) * (h * rows))
                by (nonlinear_arith);
            assert(image.width * image.height <= image.width * image.height * 3)
                by (nonlinear_arith);
            assert(width * h <= (width * per_row) * (h * rows)) by (nonlinear_arith)
                requires
                    per_row > 0,
                    rows > 0,
                    width > 0,
                    h > 0,
            ;
        }
        let glyph_len: usize = width * h;
        proof {
            assert(glyph_len * length <= glyph_len * (per_row * rows)) by (nonlinear_arith)
                requires
                    length <= per_row * rows,
                    glyph_len >= 0,
            ;
            assert(glyph_len * (per_row * rows) == per_row * rows * (width * h))
                by (nonlinear_arith)
                requires
                    glyph_len == width * h,
            ;
            assert(width * h * length == glyph_len * length) by (nonlinear_arith)
                requires
                    glyph_len == width * h,
            ;
        }
        let mut bits: Vec<bool> = Vec::new();
        let mut glyph_x: usize = 0;
        let mut glyph_y: usize = 0;
        let ghost mut cx: int = 0;
        let ghost mut cy: int = 0;
        let mut code: usize = 0;
        while code < length
            invariant
                image.wf(),
                width > 0,
                h > 0,
                per_row > 0,
                image.width == width * per_row,
                image.height == h * rows,
                glyph_len == width * h,
                length <= per_row * rows,
                code <= length,
                0 <= cx < per_row,
                0 <= cy,
                code == cy * per_row + cx,
                glyph_x == cx * width,
                glyph_y == cy * h,
                code < length || glyph_y <= image.height,
                bits@.len() == code * glyph_len,
                forall|x: int, y: int, row: int, col: int|
                    0 <= x < per_row && 0 <= y && y * per_row + x < code && 0 <= row < h && 0
                        <= col < width ==> bits@[#[trigger] place(
                        glyph_len as int,
                        y * per_row + x,
                        place(width as int, row, col),
                    )] == cell_bright(
                        image.data@,
                        image.width as int,
                        width as int,
                        h as int,
                        x,
                        y,
                        row,
                        col,
                    ),
            decreases length - code,
        {
            proof {
                assert(cy < rows) by (nonlinear_arith)
                    requires
                        cy * per_row + cx < per_row * rows,
                        0 <= cx,
                        0 <= cy,
                        per_row > 0,
                ;
                assert(cx * width + width <= width * per_row) by (nonlinear_arith)
                    requires
                        0 <= cx < per_row,
                        width > 0,
                ;
                assert(cy * h + h <= h * rows) by (nonlinear_arith)
                    requires
                        0 <= cy < rows,
                        h > 0,
                ;
            }
            let ghost before = bits@;
            Font::read_glyph(image, glyph_x, glyph_y, width, h, &mut bits);
            proof {
                assert((code + 1) * glyph_len == code * glyph_len + glyph_len) by (nonlinear_arith);
                assert forall|x: int, y: int, row: int, col: int|
                    0 <= x < per_row && 0 <= y && y * per_row + x < code + 1 && 0 <= row < h && 0
                        <= col < width implies bits@[#[trigger] place(
                    glyph_len as int,
                    y * per_row + x,
                    place(width as int, row, col),
                )] == cell_bright(
                    image.data@,
                    image.width as int,
                    width as int,
                    h as int,
                    x,
                    y,
                    row,
                    col,
                ) by {
                    let g = y * per_row + x;
                    let inner = place(width as int, row, col);
                    assert(0 <= inner < glyph_len) by (nonlinear_arith)
                        requires
                            inner == row * width + col,
                            0 <= row < h,
                            0 <= col < width,
                            glyph_len == width * h,
                    ;
                    assert(0 <= g) by (nonlinear_arith)
                        requires
                            g == y * per_row + x,
                            0 <= x,
                            0 <= y,
                            0 <= per_row,
                    ;
                    if g == code {
                        assert(x == cx && y == cy) by (nonlinear_arith)
                            requires
                                y * per_row + x == cy * per_row + cx,
                                0 <= x < per_row,
                                0 <= cx < per_row,
                                0 <= y,
                                0 <= cy,
                        ;
                        assert(place(glyph_len as int, g, inner) == place(
                            width as int,
                            row,
                            before.len() + col,
                        ));
                    } else {
                        assert(0 <= g * glyph_len && g * glyph_len + glyph_len <= code
                            * glyph_len) by (nonlinear_arith)
                            requires
                                0 <= g < code,
                                glyph_len >= 0,
                        ;
                        let at = place(glyph_len as int, g, inner);
                        assert(bits@[at] == bits@.subrange(0, before.len() as int)[at]);
                    }
                }
            }
            if glyph_x + width == image.width {
                proof {
                    assert(cx + 1 == per_row) by (nonlinear_arith)
                        requires
                            cx * width + width == width * per_row,
                            width > 0,
                    ;
                    assert((cy + 1) * per_row == cy * per_row + per_row) by (nonlinear_arith);
                    assert((cy + 1) * h == cy * h + h) by (nonlinear_arith);
                    cx = 0;
                    cy = cy + 1;
                }
                glyph_y += h;
                glyph_x = 0;
            } else {
                proof {
                    assert(cx + 1 < per_row) by (nonlinear_arith)
                        requires
                            cx * width + width != width * per_row,
                            0 <= cx < per_row,
                            width > 0,
                    ;
                    assert((cx + 1) * width == cx * width + width) by (nonlinear_arith);
                    cx = cx + 1;
                }
                glyph_x += width;
            }
            code += 1;
        }
        proof {
            assert(code * glyph_len == width * h * length) by (nonlinear_arith)
                requires
                    code == length,
                    glyph_len == width * h,
            ;
        }
        bits
    }

    /// The font of `length` glyphs drawn in an image, cell by cell from the
    /// left of the top row: each pixel that is bright sets a bit. Where no
    /// height is given, the glyphs are as high as the image allows.
    pub fn from_image(image: &Image, width: usize, height: Option<usize>, length: usize) -> (r:
        Result<Font, FontError>)
        requires
            image.wf(),
        ensures
            match r {
                Ok(font) => {
                    &&& width > 0
                    &&& height is None ==> image.width >= width
                    &&& Font::image_holds(
                        image.width as int,
                        image.height as int,
                        width as int,
                        font.height as int,
                        length as int,
                    )
                    &&& font.width == width
                    &&& font.height == Font::height_in_image(
                        image.width as int,
                        image.height as int,
                        width as int,
                        height,
                    )
                    &&& font.length == length
                    &&& font.bitmasks@.len() == length
                    &&& font.wf()
                    &&& shown_in(
                        masks(font.bitmasks@),
                        image.data@,
                        image.width as int,
                        width as int,
                        font.height as int,
                        length as int,
                    )
                },
                Err(e) => {
                    &&& e == FontError::ImageNotCorrectDimensions
                    &&& width == 0 || (height is None && image.width < width)
                        || !Font::image_holds(
                        image.width as int,
                        image.height as int,
                        width as int,
                        Font::height_in_image(
                            image.width as int,
                            image.height as int,
                            width as int,
                            height,
                        ),
                        length as int,
                    )
                },
            },
    {
        if width == 0 {
            return Err(FontError::ImageNotCorrectDimensions);
        }
        let per_row: usize = image.width / width;
        let h: usize = match height {
            Some(h) => h,
            None => {
                if per_row == 0 {
                    proof {
                        if image.width >= width {
                            vstd::arithmetic::div_mod::lemma_div_non_zero(
                                image.width as int,
                                width as int,
                            );
                        }
                    }
                    return Err(FontError::ImageNotCorrectDimensions);
                }
                proof {
                    if image.width < width {
                        vstd::arithmetic::div_mod::lemma_basic_div(
                            image.width as int,
                            width as int,
                        );
                    }
                }
                image.height / per_row
            },
        };
        if h == 0 {
            return Err(FontError::ImageNotCorrectDimensions);
        }
        let rows: usize = image.height / h;
        if image.width % width != 0 || image.height % h != 0 {
            return Err(FontError::ImageNotCorrectDimensions);
        }
        let enough: bool = match per_row.checked_mul(rows) {
            Some(cells) => length <= cells,
            None => true,
        };
        if !enough {
            return Err(FontError::ImageNotCorrectDimensions);
        }
        if length == 0 {
            let font = Font { width, height: h, length, bitmasks: Vec::new() };
            proof {
                assert(width * h * length == 0) by (nonlinear_arith)
                    requires
                        length == 0,
                ;
                assert(0 <= per_row * rows) by (nonlinear_arith)
                    requires
                        0 <= per_row,
                        0 <= rows,
                ;
                assert forall|cx: int, cy: int, row: int, col: int|
                    0 <= cx < image.width / width && 0 <= cy && cy * (image.width / width) + cx
                        < length && 0 <= row < font.height && 0 <= col
                        < width implies #[trigger] glyph_bit(
                    masks(font.bitmasks@),
                    width as int,
                    image.width as int / width as int,
                    cx,
                    cy,
                    row,
                    col,
                ) == cell_bright(
                    image.data@,
                    image.width as int,
                    width as int,
                    font.height as int,
                    cx,
                    cy,
                    row,
                    col,
                ) by {
                    assert(cy * per_row >= 0) by (nonlinear_arith)
                        requires
                            cy >= 0,
                            per_row >= 0,
                    ;
                }
            }
            return Ok(font);
        }
        let bits = Font::read_glyphs(image, width, h, length);
        if bits.len() % 8 != 0 {
            return Err(FontError::ImageNotCorrectDimensions);
        }
        let font = Font::from_bits(&bits, width, h, length);
        proof {
            let all = masks(font.bitmasks@);
            let glyph_len = width * h;
            assert forall|x: int, y: int, row: int, col: int|
                0 <= x < image.width / width && 0 <= y && y * (image.width / width) + x < length
                    && 0 <= row < font.height && 0 <= col < width implies #[trigger] glyph_bit(
                all,
                width as int,
                image.width as int / width as int,
                x,
                y,
                row,
                col,
            ) == cell_bright(
                image.data@,
                image.width as int,
                width as int,
                font.height as int,
                x,
                y,
                row,
                col,
            ) by {
                let g = y * per_row + x;
                let inner = place(width as int, row, col);
                assert(0 <= inner < glyph_len) by (nonlinear_arith)
                    requires
                        inner == row * width + col,
                        0 <= row < h,
                        0 <= col < width,
                        glyph_len == width * h,
                ;
                assert(0 <= g) by (nonlinear_arith)
                    requires
                        g == y * per_row + x,
                        0 <= x,
                        0 <= y,
                        0 <= per_row,
                ;
                assert(0 <= g * glyph_len && (g + 1) * glyph_len == g * glyph_len + glyph_len && (
                g + 1) * glyph_len <= width * h * length) by (nonlinear_arith)
                    requires
                        0 <= g < length,
                        glyph_len > 0,
                        glyph_len == width * h,
                ;
                assert(all == glyph_masks(bits@, glyph_len));
                assert(all.len() == length);
                assert(all[g] == bits@.subrange(g * glyph_len, (g + 1) * glyph_len));
                assert(all[g][inner] == bits@[place(glyph_len, g, inner)]);
            }
        }
        Ok(font)
    }

    /// Whether each of the font's `length` glyphs can be drawn.
    pub open spec fn can_draw(&self) -> bool {
        forall|code: int| 0 <= code < self.length ==> #[trigger] self.has_glyph(code)
    }

    /// The font as a sheet of glyphs: an image with `per_row` glyphs to the
    /// row, in order from the left of the top row, each glyph white on black.
    /// Cells behind the last glyph stay black.
    pub fn as_image(&self, per_row: usize) -> (image: Image)
        requires
            self.can_draw(),
            per_row > 0,
            per_row * self.width <= usize::MAX,
            rows_for(self.length as int, per_row as int) * self.height <= usize::MAX,
            (per_row * self.width) * (rows_for(self.length as int, per_row as int) * self.height)
                * 3 <= usize::MAX,
        ensures
            image.wf(),
            image.width == per_row * self.width,
            image.height == rows_for(self.length as int, per_row as int) * self.height,
            is_sheet(
                image.data@,
                masks(self.bitmasks@),
                self.width as int,
                self.height as int,
                per_row as int,
                self.length as int,
            ),
    {
        proof {
            lemma_rows_for(self.length as int, per_row as int);
        }
        let mut rows: usize = self.length / per_row;
        if self.length % per_row != 0 {
            rows += 1;
        }
        let image_width: usize = per_row * self.width;
        let image_height: usize = rows * self.height;
        let mut image = Image::new(image_width, image_height);
        proof {
            assert forall|cx: int, cy: int, row: int, col: int, channel: int|
                0 <= cx < per_row && 0 <= cy < rows && 0 <= row < self.height && 0 <= col
                    < self.width && 0 <= channel < 3 implies image.data@[#[trigger] cell_offset(
                image_width as int,
                self.width as int,
                self.height as int,
                cx,
                cy,
                row,
                col,
                channel,
            )] == 0u8 by {
                lemma_cell(per_row as int, self.width as int, cx);
                lemma_cell(rows as int, self.height as int, cy);
                lemma_offset(
                    image_width as int,
                    image_height as int,
                    cx * self.width + col,
                    cy * self.height + row,
                    channel,
                );
            }
        }
        let black = Color::new(0, 0, 0);
        let white = Color::new(255, 255, 255);
        let mut x: usize = 0;
        let mut y: usize = 0;
        let mut code: usize = 0;
        while code < self.length
            invariant
                self.can_draw(),
                per_row > 0,
                rows == rows_for(self.length as int, per_row as int),
                image_width == per_row * self.width,
                image_height == rows * self.height,
                image.wf(),
                image.width == image_width,
                image.height == image_height,
                black.rgb@ == seq![0u8, 0u8, 0u8],
                white.rgb@ == seq![255u8, 255u8, 255u8],
                code <= self.length,
                x < per_row,
                code == y * per_row + x,
                forall|cx: int, cy: int, row: int, col: int, channel: int|
                    0 <= cx < per_row && 0 <= cy < rows && 0 <= row < self.height && 0 <= col
                        < self.width && 0 <= channel < 3 ==> image.data@[#[trigger] cell_offset(
                        image_width as int,
                        self.width as int,
                        self.height as int,
                        cx,
                        cy,
                        row,
                        col,
                        channel,
                    )] == if cy * per_row + cx < code && glyph_bit(
                        masks(self.bitmasks@),
                        self.width as int,
                        per_row as int,
                        cx,
                        cy,
                        row,
                        col,
                    ) {
                        255u8
                    } else {
                        0u8
                    },
            decreases self.length - code,
        {
            proof {
                lemma_rows_for(self.length as int, per_row as int);
                assert(y < rows) by (nonlinear_arith)
                    requires
                        y * per_row + x < self.length,
                        self.length <= rows * per_row,
                        0 <= x,
                        per_row > 0,
                ;
                lemma_cell(per_row as int, self.width as int, x as int);
                lemma_cell(rows as int, self.height as int, y as int);
            }
            let ghost before = image.data@;
            image.draw_font(x * self.width, y * self.height, self, code, &white.rgb, &black.rgb);
            proof {
                let after = image.data@;
                let fw = self.width as int;
                let fh = self.height as int;
                assert forall|cx: int, cy: int, row: int, col: int, channel: int|
                    0 <= cx < per_row && 0 <= cy < rows && 0 <= row < fh && 0 <= col < fw && 0
                        <= channel < 3 implies after[#[trigger] cell_offset(
                    image_width as int,
                    fw,
                    fh,
                    cx,
                    cy,
                    row,
                    col,
                    channel,
                )] == if cy * per_row + cx < code + 1 && glyph_bit(
                    masks(self.bitmasks@),
                    fw,
                    per_row as int,
                    cx,
                    cy,
                    row,
                    col,
                ) {
                    255u8
                } else {
                    0u8
                } by {
                    let px = cx * fw + col;
                    let py = cy * fh + row;
                    lemma_cell(per_row as int, fw, cx);
                    lemma_cell(rows as int, fh, cy);
                    lemma_same_cell(fw, cx, col, x as int);
                    lemma_same_cell(fh, cy, row, y as int);
                    assert(after[offset(image_width as int, px, py, channel)] == after[cell_offset(
                        image_width as int,
                        fw,
                        fh,
                        cx,
                        cy,
                        row,
                        col,
                        channel,
                    )]);
                    assert(before[offset(image_width as int, px, py, channel)]
                        == before[cell_offset(
                        image_width as int,
                        fw,
                        fh,
                        cx,
                        cy,
                        row,
                        col,
                        channel,
                    )]);
                    if cx == x && cy == y {
                        assert(self.has_glyph(code as int));
                        assert(masks(self.bitmasks@)[code as int] == self.glyph(code as int));
                        assert((py - y * fh) * fw + (px - x * fw) == row * fw + col);
                    } else {
                        assert(cy * per_row + cx != y * per_row + x) by (nonlinear_arith)
                            requires
                                cx != x || cy != y,
                                0 <= cx < per_row,
                                0 <= x < per_row,
                        ;
                    }
                }
            }
            if x + 1 == per_row {
                proof {
                    assert((y + 1) * per_row == y * per_row + per_row) by (nonlinear_arith);
                }
                y += 1;
                x = 0;
            } else {
                x += 1;
            }
            code += 1;
        }
        image
    }
}

} // verus!
