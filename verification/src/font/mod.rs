//! Bitmap fonts: glyphs as masks of pixels, packed eight to a byte or drawn
//! side by side in an image.

pub mod bitmask;
pub mod builtin;
pub mod error;
pub mod sheet;

pub use self::bitmask::pack_bits;
pub use self::builtin::FontTable;
pub use self::error::FontError;

use vstd::prelude::*;

verus! {

/// A bitmap font: `length` glyphs, each `width` pixels wide and `height`
/// pixels high, each held as one mask that goes through its pixels row by
/// row from the top.
#[derive(Debug, Clone, PartialEq, Eq)]
pub struct Font {
    pub width: usize,
    pub height: usize,
    pub length: usize,
    pub bitmasks: Vec<Vec<bool>>,
}

/// Whether the bit that `shift` places above the lowest is set in a byte.
pub open spec fn bit_of(byte: u8, shift: u8) -> bool {
    (byte >> shift) & 1 == 1
}

/// The bits of a sequence of bytes, the highest bit of each byte first.
pub open spec fn bits_of(bytes: Seq<u8>) -> Seq<bool> {
    Seq::new(8 * bytes.len(), |i: int| bit_of(bytes[i / 8], (7 - i % 8) as u8))
}

/// A sequence of bits cut into masks of `glyph_len` bits each; bits that do
/// not fill a mask are left out.
pub open spec fn glyph_masks(bits: Seq<bool>, glyph_len: int) -> Seq<Seq<bool>> {
    Seq::new(
        (bits.len() as int / glyph_len) as nat,
        |g: int| bits.subrange(g * glyph_len, (g + 1) * glyph_len),
    )
}

/// The masks that a vector of masks holds.
pub open spec fn masks(bitmasks: Seq<Vec<bool>>) -> Seq<Seq<bool>> {
    Seq::new(bitmasks.len(), |g: int| bitmasks[g]@)
}

/// Unpacks a bitmask into one mask for each glyph of `width` by `height`
/// pixels.
pub fn get_boolmasks(bitmask: &[u8], width: usize, height: usize) -> (r: Vec<Vec<bool>>)
    requires
        0 < width * height <= usize::MAX,
        8 * bitmask@.len() <= usize::MAX,
        (8 * bitmask@.len() as int) % (width * height) == 0,
    ensures
        masks(r@) == glyph_masks(bits_of(bitmask@), width * height),
{
    let mut boolmask: Vec<bool> = Vec::new();
    let mut k: usize = 0;
    while k < bitmask.len()
        invariant
            k <= bitmask@.len(),
            boolmask@ == bits_of(bitmask@.subrange(0, k as int)),
        decreases bitmask@.len() - k,
    {
        let byte: u8 = bitmask[k];
        let ghost before = boolmask@;
        let mut j: u8 = 0;
        while j < 8
            invariant
                j <= 8,
                k < bitmask@.len(),
                byte == bitmask@[k as int],
                before == bits_of(bitmask@.subrange(0, k as int)),
                boolmask@.len() == before.len() + j,
                boolmask@.subrange(0, before.len() as int) == before,
                forall|i: int|
                    before.len() <= i < before.len() + j ==> #[trigger] boolmask@[i] == bit_of(
                        byte,
                        (7 - (i - before.len())) as u8,
                    ),
            decreases 8 - j,
        {
            let bit = ((byte >> (7 - j)) & 1) == 1;
            boolmask.push(bit);
            j += 1;
        }
        k += 1;
        assert(boolmask@ =~= bits_of(bitmask@.subrange(0, k as int))) by {
            let now = bits_of(bitmask@.subrange(0, k as int));
            assert(before.len() == 8 * (k - 1));
            assert forall|i: int| 0 <= i < now.len() implies boolmask@[i] == now[i] by {
                if i < before.len() {
                    assert(boolmask@[i] == boolmask@.subrange(0, before.len() as int)[i]);
                    assert(i / 8 < k - 1);
                } else {
                    assert(i / 8 == k - 1);
                    assert(i % 8 == i - before.len());
                }
            }
        }
    }
    assert(bitmask@.subrange(0, k as int) == bitmask@);
    let glyph_len: usize = width * height;
    let count: usize = boolmask.len() / glyph_len;
    let mut boolmasks: Vec<Vec<bool>> = Vec::new();
    let mut g: usize = 0;
    while g < count
        invariant
            g <= count,
            glyph_len > 0,
            boolmask@.len() <= usize::MAX,
            count == boolmask@.len() as int / glyph_len as int,
            boolmasks@.len() == g,
            forall|i: int| 0 <= i < g ==> (#[trigger] boolmasks@[i])@ == boolmask@.subrange(i * glyph_len, (i + 1) * glyph_len),
        decreases count - g,
    {
        assert(0 <= g * glyph_len && g * glyph_len + glyph_len == (g + 1) * glyph_len && (g + 1)
            * glyph_len <= boolmask@.len()) by (nonlinear_arith)
            requires
                0 <= g < count,
                count == boolmask@.len() as int / glyph_len as int,
                glyph_len > 0,
        ;
        let glyph_start: usize = g * glyph_len;
        let mut glyph_mask: Vec<bool> = Vec::new();
        let glyph_end: usize = glyph_start + glyph_len;
        let mut i: usize = glyph_start;
        while i < glyph_end
            invariant
                glyph_start <= i <= glyph_end <= boolmask@.len(),
                glyph_mask@ == boolmask@.subrange(glyph_start as int, i as int),
            decreases glyph_end - i,
        {
            glyph_mask.push(boolmask[i]);
            i += 1;
            assert(glyph_mask@ =~= boolmask@.subrange(glyph_start as int, i as int));
        }
        boolmasks.push(glyph_mask);
        g += 1;
    }
    assert(masks(boolmasks@) =~= glyph_masks(bits_of(bitmask@), width * height));
    boolmasks
}

impl Font {
    /// The mask of glyph `code`.
    pub open spec fn glyph(&self, code: int) -> Seq<bool> {
        self.bitmasks@[code]@
    }

    /// Whether the font has what drawing glyph `code` looks at: a mask for
    /// the glyph that holds a bit for each of its pixels. A font whose glyphs
    /// have no pixels has it for every code.
    pub open spec fn has_glyph(&self, code: int) -> bool {
        self.width > 0 && self.height > 0 ==> 0 <= code < self.bitmasks@.len() && (
        #[trigger] self.bitmasks@[code])@.len() >= self.width * self.height
    }

    /// Whether the font is sound: it holds a mask for each of its glyphs, and
    /// each mask holds one bit for each pixel of a glyph.
    pub open spec fn wf(&self) -> bool {
        &&& self.length <= self.bitmasks@.len()
        &&& forall|code: int|
            0 <= code < self.bitmasks@.len() ==> (#[trigger] self.bitmasks@[code])@.len()
                == self.width * self.height
    }

    /// The font of `length` glyphs whose masks are packed in `bitmask`.
    pub fn new(bitmask: &[u8], width: usize, height: usize, length: usize) -> (r: Font)
        requires
            0 < width * height <= usize::MAX,
            8 * bitmask@.len() <= usize::MAX,
            (8 * bitmask@.len() as int) % (width * height) == 0,
        ensures
            r.width == width,
            r.height == height,
            r.length == length,
            masks(r.bitmasks@) == glyph_masks(bits_of(bitmask@), width * height),
            r.wf() <==> length * (width * height) <= 8 * bitmask@.len(),
    {
        let font = Font { width, height, length, bitmasks: get_boolmasks(bitmask, width, height) };
        proof {
            let all = glyph_masks(bits_of(bitmask@), width * height);
            let glyph_len: int = width * height;
            let bits: int = 8 * bitmask@.len() as int;
            assert(font.bitmasks@.len() == masks(font.bitmasks@).len());
            assert(all.len() == bits / glyph_len);
            assert forall|code: int| 0 <= code < font.bitmasks@.len() implies (
            #[trigger] font.bitmasks@[code])@.len() == glyph_len by {
                assert(font.bitmasks@[code]@ == masks(font.bitmasks@)[code]);
                assert((code + 1) * glyph_len <= bits && code * glyph_len + glyph_len == (code
                    + 1) * glyph_len && 0 <= code * glyph_len) by (nonlinear_arith)
                    requires
                        0 <= code < bits / glyph_len,
                        glyph_len > 0,
                ;
            }
            assert(length <= bits / glyph_len <==> length * glyph_len <= bits)
                by (nonlinear_arith)
                requires
                    glyph_len > 0,
                    bits % glyph_len == 0,
            ;
        }
        font
    }
}

} // verus!
