//! An image of three bytes for each pixel, row after row.

use crate::font::Font;
use vstd::prelude::*;

verus! {

/// An image of three bytes for each pixel, row after row from the top.
#[derive(Debug, Clone, PartialEq, Eq)]
pub struct Image {
    pub width: usize,
    pub height: usize,
    pub data: Vec<u8>,
}

/// Where channel `channel` of the pixel in column `x` of row `y` stands in
/// the data of an image `width` pixels wide.
pub open spec fn offset(width: int, x: int, y: int, channel: int) -> int {
    (y * width + x) * 3 + channel
}

/// The data of an image after a glyph has been drawn with its top left
/// corner in column `x` of row `y`: within the glyph's rectangle each pixel
/// is `fg` where the glyph's mask is set and `bg` where it is not, and every
/// other pixel is as it was.
pub open spec fn drawn(
    before: Seq<u8>,
    after: Seq<u8>,
    width: int,
    height: int,
    x: int,
    y: int,
    mask: Seq<bool>,
    glyph_width: int,
    glyph_height: int,
    fg: Seq<u8>,
    bg: Seq<u8>,
) -> bool {
    &&& after.len() == before.len()
    &&& forall|px: int, py: int, channel: int|
        0 <= px < width && 0 <= py < height && 0 <= channel < 3 ==> #[trigger] after[offset(
            width,
            px,
            py,
            channel,
        )] == if x <= px < x + glyph_width && y <= py < y + glyph_height {
            if mask[(py - y) * glyph_width + (px - x)] {
                fg[channel]
            } else {
                bg[channel]
            }
        } else {
            before[offset(width, px, py, channel)]
        }
}

/// Every place in the data of an image is the place of one channel of one
/// pixel, and of no other.
pub proof fn lemma_offset(width: int, height: int, x: int, y: int, channel: int)
    requires
        0 <= x < width,
        0 <= y < height,
        0 <= channel < 3,
    ensures
        0 <= offset(width, x, y, channel) < width * height * 3,
        forall|x2: int, y2: int, c2: int|
            0 <= x2 < width && 0 <= y2 < height && 0 <= c2 < 3 && #[trigger] offset(
                width,
                x2,
                y2,
                c2,
            ) == offset(width, x, y, channel) ==> x2 == x && y2 == y && c2 == channel,
{
    assert(0 <= (y * width + x) * 3 + channel < width * height * 3) by (nonlinear_arith)
        requires
            0 <= x < width,
            0 <= y < height,
            0 <= channel < 3,
    ;
    assert forall|x2: int, y2: int, c2: int|
        0 <= x2 < width && 0 <= y2 < height && 0 <= c2 < 3 && #[trigger] offset(
            width,
            x2,
            y2,
            c2,
        ) == offset(width, x, y, channel) implies x2 == x && y2 == y && c2 == channel by {
        assert(y2 * width + x2 == y * width + x && c2 == channel);
        assert(y2 == y && x2 == x) by (nonlinear_arith)
            requires
                y2 * width + x2 == y * width + x,
                0 <= x < width,
                0 <= x2 < width,
                0 <= y,
                0 <= y2,
        ;
    }
}

impl Image {
    /// Whether the image is sound: its data holds three bytes for each of its
    /// pixels.
    pub open spec fn wf(&self) -> bool {
        self.data@.len() == self.width * self.height * 3
    }

    /// A black image of the given size.
    pub fn new(width: usize, height: usize) -> (r: Image)
        requires
            width * height * 3 <= usize::MAX,
        ensures
            r.wf(),
            r.width == width,
            r.height == height,
            r.data@ == Seq::new((width * height * 3) as nat, |i: int| 0u8),
    {
        assert(width * height <= width * height * 3) by (nonlinear_arith);
        let image = Image { width, height, data: vec![0u8; width * height * 3] };
        assert(image.data@ =~= Seq::new((width * height * 3) as nat, |i: int| 0u8));
        image
    }

    /// The image of the given size that holds the given data, where the data
    /// holds three bytes for each pixel.
    pub fn from_rgb(width: usize, height: usize, data: Vec<u8>) -> (r: Option<Image>)
        ensures
            r is Some <==> data@.len() == width * height * 3,
            r matches Some(image) ==> image.wf() && image.width == width && image.height
                == height && image.data@ == data@,
    {
        let have: usize = data.len();
        let pixels: usize = match width.checked_mul(height) {
            Some(pixels) => pixels,
            None => {
                assert(width * height * 3 > usize::MAX) by (nonlinear_arith)
                    requires
                        width * height > usize::MAX,
                ;
                return None;
            },
        };
        match pixels.checked_mul(3) {
            Some(len) => {
                if have == len {
                    Some(Image { width, height, data })
                } else {
                    None
                }
            },
            None => None,
        }
    }

    /// Gives the pixel in column `x` of row `y` the colour `color`.
    fn set_pixel(&mut self, x: usize, y: usize, color: &[u8; 3])
        requires
            old(self).wf(),
            x < old(self).width,
            y < old(self).height,
        ensures
            final(self).wf(),
            final(self).width == old(self).width,
            final(self).height == old(self).height,
            forall|px: int, py: int, channel: int|
                0 <= px < old(self).width && 0 <= py < old(self).height && 0 <= channel < 3
                    ==> #[trigger] final(self).data@[offset(
                    old(self).width as int,
                    px,
                    py,
                    channel,
                )] == if px == x && py == y {
                    color@[channel]
                } else {
                    old(self).data@[offset(old(self).width as int, px, py, channel)]
                },
    {
        let ghost width = self.width as int;
        let ghost height = self.height as int;
        let len: usize = self.data.len();
        proof {
            lemma_offset(width, height, x as int, y as int, 0);
            lemma_offset(width, height, x as int, y as int, 1);
            lemma_offset(width, height, x as int, y as int, 2);
            assert(0 <= y * width + x < width * height) by (nonlinear_arith)
                requires
                    0 <= x < width,
                    0 <= y < height,
            ;
            assert(0 <= y * width <= y * width + x) by (nonlinear_arith)
                requires
                    0 <= x,
                    0 <= y,
                    0 <= width,
            ;
        }
        let i: usize = (y * self.width + x) * 3;
        self.data[i] = color[0];
        self.data[i + 1] = color[1];
        self.data[i + 2] = color[2];
        proof {
            assert forall|px: int, py: int, channel: int|
                0 <= px < width && 0 <= py < height && 0 <= channel < 3 implies #[trigger] self.data@[offset(
                width,
                px,
                py,
                channel,
            )] == if px == x && py == y {
                color@[channel]
            } else {
                old(self).data@[offset(width, px, py, channel)]
            } by {
                lemma_offset(width, height, px, py, channel);
            }
        }
    }

    /// Draws glyph `code` of a font with its top left corner in column `x` of
    /// row `y`: `fg` where the glyph's mask is set, `bg` where it is not. Of
    /// the font only the mask of that glyph is looked at, and of the mask
    /// only its first `width * height` bits.
    pub fn draw_font(
        &mut self,
        x: usize,
        y: usize,
        font: &Font,
        code: usize,
        fg: &[u8; 3],
        bg: &[u8; 3],
    )
        requires
            old(self).wf(),
            font.has_glyph(code as int),
            x + font.width <= old(self).width,
            y + font.height <= old(self).height,
        ensures
            final(self).wf(),
            final(self).width == old(self).width,
            final(self).height == old(self).height,
            drawn(
                old(self).data@,
                final(self).data@,
                old(self).width as int,
                old(self).height as int,
                x as int,
                y as int,
                font.glyph(code as int),
                font.width as int,
                font.height as int,
                fg@,
                bg@,
            ),
    {
        let ghost width = self.width as int;
        let ghost height = self.height as int;
        let ghost mask = font.glyph(code as int);
        let data_len: usize = self.data.len();
        proof {
            assert(font.width * font.height <= width * height * 3) by (nonlinear_arith)
                requires
                    0 <= font.width <= width,
                    0 <= font.height <= height,
            ;
        }
        let mut boolmask_index: usize = 0;
        let mut row: usize = 0;
        while row < font.height
            invariant
                self.wf(),
                self.width == width,
                self.height == height,
                font.has_glyph(code as int),
                font.width * font.height <= usize::MAX,
                mask == font.glyph(code as int),
                x + font.width <= width,
                y + font.height <= height,
                row <= font.height,
                boolmask_index == row * font.width,
                self.data@.len() == old(self).data@.len(),
                forall|px: int, py: int, channel: int|
                    0 <= px < width && 0 <= py < height && 0 <= channel < 3
                        ==> #[trigger] self.data@[offset(width, px, py, channel)] == if x <= px < x
                        + font.width && y <= py < y + row {
                        if mask[(py - y) * font.width + (px - x)] {
                            fg@[channel]
                        } else {
                            bg@[channel]
                        }
                    } else {
                        old(self).data@[offset(width, px, py, channel)]
                    },
            decreases font.height - row,
        {
            let mut col: usize = 0;
            while col < font.width
                invariant
                    self.wf(),
                    self.width == width,
                    self.height == height,
                    font.has_glyph(code as int),
                    font.width * font.height <= usize::MAX,
                    mask == font.glyph(code as int),
                    x + font.width <= width,
                    y + font.height <= height,
                    row < font.height,
                    col <= font.width,
                    boolmask_index == row * font.width + col,
                    self.data@.len() == old(self).data@.len(),
                    forall|px: int, py: int, channel: int|
                        0 <= px < width && 0 <= py < height && 0 <= channel < 3
                            ==> #[trigger] self.data@[offset(width, px, py, channel)] == if x <= px
                            < x + font.width && (y <= py < y + row || (py == y + row && px < x
                            + col)) {
                            if mask[(py - y) * font.width + (px - x)] {
                                fg@[channel]
                            } else {
                                bg@[channel]
                            }
                        } else {
                            old(self).data@[offset(width, px, py, channel)]
                        },
                decreases font.width - col,
            {
                proof {
                    assert(row * font.width + col < font.width * font.height)
                        by (nonlinear_arith)
                        requires
                            0 <= row < font.height,
                            0 <= col < font.width,
                    ;
                }
                if font.bitmasks[code][boolmask_index] {
                    self.set_pixel(x + col, y + row, fg);
                } else {
                    self.set_pixel(x + col, y + row, bg);
                }
                boolmask_index += 1;
                col += 1;
            }
            row += 1;
            proof {
                assert(row * font.width == (row - 1) * font.width + font.width)
                    by (nonlinear_arith);
            }
        }
    }
}

} // verus!
