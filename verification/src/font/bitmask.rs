//! Fonts as packed bitmasks: the masks of the glyphs one after the other,
//! eight bits to a byte, the first bit highest.

use super::error::FontError;
use super::{bits_of, bit_of, glyph_masks, masks, Font};
use vstd::prelude::*;

verus! {

/// One for a set bit, zero for an unset one.
pub open spec fn bit_value(bit: bool) -> int {
    if bit {
        1
    } else {
        0
    }
}

/// The byte whose bits, the highest first, are the eight given.
pub open spec fn byte_of(bits: Seq<bool>) -> u8
    recommends
        bits.len() == 8,
{
    (128 * bit_value(bits[0]) + 64 * bit_value(bits[1]) + 32 * bit_value(bits[2]) + 16
        * bit_value(bits[3]) + 8 * bit_value(bits[4]) + 4 * bit_value(bits[5]) + 2 * bit_value(
        bits[6],
    ) + bit_value(bits[7])) as u8
}

/// The first `len` bits of a sequence, with unset bits where it has fewer.
pub open spec fn resized(bits: Seq<bool>, len: nat) -> Seq<bool> {
    Seq::new(
        len,
        |i: int|
            if i < bits.len() {
                bits[i]
            } else {
                false
            },
    )
}

/// The first `8 * count` bits of a sequence packed into `count` bytes, the
/// first bit highest, with unset bits where the sequence has fewer.
pub open spec fn packed(bits: Seq<bool>, count: nat) -> Seq<u8> {
    Seq::new(count, |k: int| byte_of(resized(bits, 8 * count).subrange(8 * k, 8 * k + 8)))
}

/// The masks of a font one after the other.
pub open spec fn flat(masks: Seq<Seq<bool>>) -> Seq<bool>
    decreases masks.len(),
{
    if masks.len() == 0 {
        Seq::empty()
    } else {
        flat(masks.drop_last()) + masks.last()
    }
}

/// How many bytes hold `bits` bits.
pub open spec fn bytes_for(bits: int) -> int {
    (bits + 7) / 8
}

/// The bits of a byte are the bits that it was packed from.
pub proof fn lemma_bits_of_byte(bits: Seq<bool>, i: int)
    requires
        bits.len() == 8,
        0 <= i < 8,
    ensures
        bit_of(byte_of(bits), (7 - i) as u8) == bits[i],
{
    let b0: u8 = bit_value(bits[0]) as u8;
    let b1: u8 = bit_value(bits[1]) as u8;
    let b2: u8 = bit_value(bits[2]) as u8;
    let b3: u8 = bit_value(bits[3]) as u8;
    let b4: u8 = bit_value(bits[4]) as u8;
    let b5: u8 = bit_value(bits[5]) as u8;
    let b6: u8 = bit_value(bits[6]) as u8;
    let b7: u8 = bit_value(bits[7]) as u8;
    let byte: u8 = byte_of(bits);
    assert(byte == 128 * b0 + 64 * b1 + 32 * b2 + 16 * b3 + 8 * b4 + 4 * b5 + 2 * b6 + b7);
    assert(((byte >> 7u8) & 1 == 1) == (b0 == 1) && ((byte >> 6u8) & 1 == 1) == (b1 == 1) && ((byte
        >> 5u8) & 1 == 1) == (b2 == 1) && ((byte >> 4u8) & 1 == 1) == (b3 == 1) && ((byte >> 3u8)
        & 1 == 1) == (b4 == 1) && ((byte >> 2u8) & 1 == 1) == (b5 == 1) && ((byte >> 1u8) & 1
        == 1) == (b6 == 1) && ((byte >> 0u8) & 1 == 1) == (b7 == 1)) by (bit_vector)
        requires
            b0 <= 1,
            b1 <= 1,
            b2 <= 1,
            b3 <= 1,
            b4 <= 1,
            b5 <= 1,
            b6 <= 1,
            b7 <= 1,
            byte == 128 * b0 + 64 * b1 + 32 * b2 + 16 * b3 + 8 * b4 + 4 * b5 + 2 * b6 + b7,
    ;
}

/// Unpacking what was packed gives the bits back, filled up to whole bytes.
pub proof fn lemma_bits_of_packed(bits: Seq<bool>, count: nat)
    ensures
        bits_of(packed(bits, count)) == resized(bits, 8 * count),
{
    let back = bits_of(packed(bits, count));
    let all = resized(bits, 8 * count);
    assert forall|i: int| 0 <= i < 8 * count implies back[i] == all[i] by {
        let k = i / 8;
        let eight = all.subrange(8 * k, 8 * k + 8);
        lemma_bits_of_byte(eight, i % 8);
        assert(eight[i % 8] == all[i]);
    }
    assert(back =~= all);
}

/// The length of the masks of a sound font taken together.
pub proof fn lemma_flat_len(masks: Seq<Seq<bool>>, glyph_len: int)
    requires
        forall|g: int| 0 <= g < masks.len() ==> (#[trigger] masks[g]).len() == glyph_len,
    ensures
        flat(masks).len() == masks.len() * glyph_len,
    decreases masks.len(),
{
    if masks.len() > 0 {
        lemma_flat_len(masks.drop_last(), glyph_len);
        assert(masks.len() * glyph_len == (masks.len() - 1) * glyph_len + glyph_len)
            by (nonlinear_arith);
    } else {
        assert(masks.len() * glyph_len == 0) by (nonlinear_arith)
            requires
                masks.len() == 0,
        ;
    }
}

/// Masks that follow one another are found again where they are cut into
/// masks of their length.
pub proof fn lemma_glyph_masks_of_flat(all: Seq<Seq<bool>>, glyph_len: int)
    requires
        glyph_len > 0,
        forall|g: int| 0 <= g < all.len() ==> (#[trigger] all[g]).len() == glyph_len,
    ensures
        glyph_masks(flat(all), glyph_len) == all,
    decreases all.len(),
{
    let n = all.len() as int;
    lemma_flat_len(all, glyph_len);
    assert((n * glyph_len) / glyph_len == n) by (nonlinear_arith)
        requires
            glyph_len > 0,
    ;
    let cut = glyph_masks(flat(all), glyph_len);
    assert(cut.len() == n);
    if n > 0 {
        let front = all.drop_last();
        lemma_glyph_masks_of_flat(front, glyph_len);
        lemma_flat_len(front, glyph_len);
        let front_cut = glyph_masks(flat(front), glyph_len);
        assert(((n - 1) * glyph_len) / glyph_len == n - 1) by (nonlinear_arith)
            requires
                glyph_len > 0,
        ;
        assert forall|g: int| 0 <= g < n implies cut[g] == all[g] by {
            assert(0 <= g * glyph_len && (g + 1) * glyph_len == g * glyph_len + glyph_len && (g
                + 1) * glyph_len <= n * glyph_len) by (nonlinear_arith)
                requires
                    0 <= g < n,
                    glyph_len > 0,
            ;
            if g < n - 1 {
                assert((g + 1) * glyph_len <= (n - 1) * glyph_len) by (nonlinear_arith)
                    requires
                        g < n - 1,
                        glyph_len > 0,
                ;
                assert(cut[g] =~= front_cut[g]);
                assert(front_cut[g] == front[g]);
            } else {
                assert((n - 1) * glyph_len == flat(front).len());
                assert(cut[g] =~= all.last());
            }
        }
    }
    assert(cut =~= all);
}

/// A font comes back from its bitmask: where masks of one length fill whole
/// bytes, unpacking what they were packed into and cutting it into masks of
/// that length gives the masks again.
pub proof fn lemma_bitmask_round_trip(all: Seq<Seq<bool>>, glyph_len: int)
    requires
        glyph_len > 0,
        forall|g: int| 0 <= g < all.len() ==> (#[trigger] all[g]).len() == glyph_len,
        (all.len() * glyph_len) % 8 == 0,
    ensures
        glyph_masks(
            bits_of(packed(flat(all), bytes_for(all.len() * glyph_len) as nat)),
            glyph_len,
        ) == all,
{
    let bits = flat(all);
    let count = bytes_for(all.len() * glyph_len) as nat;
    lemma_flat_len(all, glyph_len);
    assert(0 <= all.len() * glyph_len) by (nonlinear_arith)
        requires
            glyph_len > 0,
    ;
    assert(8 * count == bits.len());
    lemma_bits_of_packed(bits, count);
    assert(resized(bits, 8 * count) =~= bits);
    lemma_glyph_masks_of_flat(all, glyph_len);
}

/// Packs the first `8 * count` bits of `bits` into `count` bytes.
pub fn pack_bits(bits: &Vec<bool>, count: usize) -> (r: Vec<u8>)
    requires
        8 * count <= usize::MAX,
    ensures
        r@ == packed(bits@, count as nat),
{
    let mut bytes: Vec<u8> = Vec::new();
    let mut k: usize = 0;
    while k < count
        invariant
            k <= count,
            8 * count <= usize::MAX,
            bytes@ == packed(bits@, count as nat).subrange(0, k as int),
        decreases count - k,
    {
        let ghost eight = resized(bits@, 8 * count as nat).subrange(8 * k, 8 * k + 8);
        let mut byte: u8 = 0;
        let mut j: usize = 0;
        while j < 8
            invariant
                j <= 8,
                k < count,
                8 * count <= usize::MAX,
                eight == resized(bits@, 8 * count as nat).subrange(8 * k, 8 * k + 8),
                j == 0 ==> byte == 0,
                j == 1 ==> byte == bit_value(eight[0]),
                j == 2 ==> byte == 2 * bit_value(eight[0]) + bit_value(eight[1]),
                j == 3 ==> byte == 4 * bit_value(eight[0]) + 2 * bit_value(eight[1]) + bit_value(
                    eight[2],
                ),
                j == 4 ==> byte == 8 * bit_value(eight[0]) + 4 * bit_value(eight[1]) + 2
                    * bit_value(eight[2]) + bit_value(eight[3]),
                j == 5 ==> byte == 16 * bit_value(eight[0]) + 8 * bit_value(eight[1]) + 4
                    * bit_value(eight[2]) + 2 * bit_value(eight[3]) + bit_value(eight[4]),
                j == 6 ==> byte == 32 * bit_value(eight[0]) + 16 * bit_value(eight[1]) + 8
                    * bit_value(eight[2]) + 4 * bit_value(eight[3]) + 2 * bit_value(eight[4])
                    + bit_value(eight[5]),
                j == 7 ==> byte == 64 * bit_value(eight[0]) + 32 * bit_value(eight[1]) + 16
                    * bit_value(eight[2]) + 8 * bit_value(eight[3]) + 4 * bit_value(eight[4]) + 2
                    * bit_value(eight[5]) + bit_value(eight[6]),
                j == 8 ==> byte == byte_of(eight),
            decreases 8 - j,
        {
            let at: usize = 8 * k + j;
            let bit: u8 = if at < bits.len() && bits[at] {
                1
            } else {
                0
            };
            assert(bit == bit_value(eight[j as int]));
            byte = byte * 2 + bit;
            j += 1;
        }
        bytes.push(byte);
        k += 1;
        assert(bytes@ =~= packed(bits@, count as nat).subrange(0, k as int));
    }
    assert(packed(bits@, count as nat).subrange(0, count as int) == packed(bits@, count as nat));
    bytes
}

impl Font {
    /// The masks of the font one after the other.
    fn flatten(&self) -> (r: Vec<bool>)
        ensures
            r@ == flat(masks(self.bitmasks@)),
    {
        let mut bits: Vec<bool> = Vec::new();
        let mut g: usize = 0;
        assert(masks(self.bitmasks@).subrange(0, 0) =~= Seq::<Seq<bool>>::empty());
        while g < self.bitmasks.len()
            invariant
                g <= self.bitmasks@.len(),
                bits@ == flat(masks(self.bitmasks@).subrange(0, g as int)),
            decreases self.bitmasks@.len() - g,
        {
            let mask = &self.bitmasks[g];
            let ghost before = bits@;
            let mut i: usize = 0;
            while i < mask.len()
                invariant
                    i <= mask@.len(),
                    bits@ == before + mask@.subrange(0, i as int),
                decreases mask@.len() - i,
            {
                bits.push(mask[i]);
                i += 1;
                assert(bits@ =~= before + mask@.subrange(0, i as int));
            }
            g += 1;
            proof {
                let upto = masks(self.bitmasks@).subrange(0, g as int);
                assert(mask@.subrange(0, i as int) == mask@);
                assert(upto.last() == mask@);
                assert(upto.drop_last() =~= masks(self.bitmasks@).subrange(0, g - 1));
            }
        }
        assert(masks(self.bitmasks@).subrange(0, g as int) == masks(self.bitmasks@));
        bits
    }

    /// The font as a packed bitmask: the masks of its glyphs one after the
    /// other, eight bits to a byte, in as many bytes as `length` glyphs take.
    /// Bits that the masks do not have are unset, and masks beyond those bytes
    /// are left out.
    pub fn as_bitmask_bytes(&self) -> (r: Vec<u8>)
        requires
            self.width * self.height * self.length + 7 <= usize::MAX,
        ensures
            r@ == packed(
                flat(masks(self.bitmasks@)),
                bytes_for(self.width * self.height * self.length) as nat,
            ),
    {
        assert(self.width * self.height <= self.width * self.height * self.length || self.length
            == 0) by (nonlinear_arith);
        assert(self.length == 0 ==> self.width * self.height * self.length == 0)
            by (nonlinear_arith);
        let bits_len: usize = if self.length == 0 {
            0
        } else {
            self.width * self.height * self.length
        };
        let mut count: usize = bits_len / 8;
        if bits_len % 8 != 0 {
            count += 1;
        }
        let bits = self.flatten();
        pack_bits(&bits, count)
    }

    /// The height of the glyphs in a bitmask of `len` bytes: the height
    /// given, or else as many rows as `length` glyphs of `width` pixels can
    /// have.
    pub open spec fn height_in_bitmask(
        len: int,
        width: int,
        height: Option<usize>,
        length: int,
    ) -> int {
        match height {
            Some(h) => h as int,
            None => 8 * len / length / width,
        }
    }

    /// Whether a bitmask of `len` bytes holds `length` glyphs of `width` by
    /// `height` pixels and nothing but whole glyphs: the glyphs have pixels,
    /// the bitmask is long enough for them, and its bits come to a whole
    /// number of glyphs.
    pub open spec fn bitmask_holds(len: int, width: int, height: int, length: int) -> bool {
        &&& width > 0
        &&& height > 0
        &&& width * height * length <= 8 * len
        &&& (8 * len) % (width * height) == 0
    }

    /// The font of `length` glyphs held in a packed bitmask. Where no height
    /// is given, the glyphs are as high as the bitmask allows.
    pub fn from_bitmask_bytes(
        bytes: &[u8],
        width: usize,
        height: Option<usize>,
        length: usize,
    ) -> (r: Result<Font, FontError>)
        requires
            8 * bytes@.len() <= usize::MAX,
        ensures
            match r {
                Ok(font) => {
                    &&& height is None ==> length > 0
                    &&& Font::bitmask_holds(
                        bytes@.len() as int,
                        width as int,
                        Font::height_in_bitmask(
                            bytes@.len() as int,
                            width as int,
                            height,
                            length as int,
                        ),
                        length as int,
                    )
                    &&& font.width == width
                    &&& font.height == Font::height_in_bitmask(
                        bytes@.len() as int,
                        width as int,
                        height,
                        length as int,
                    )
                    &&& font.length == length
                    &&& masks(font.bitmasks@) == glyph_masks(
                        bits_of(bytes@),
                        font.width * font.height,
                    )
                    &&& font.wf()
                },
                Err(e) => {
                    &&& e == FontError::FileNotCorrectSize
                    &&& (height is None && length == 0) || !Font::bitmask_holds(
                        bytes@.len() as int,
                        width as int,
                        Font::height_in_bitmask(
                            bytes@.len() as int,
                            width as int,
                            height,
                            length as int,
                        ),
                        length as int,
                    )
                },
            },
    {
        let bits: usize = 8 * bytes.len();
        if width == 0 {
            return Err(FontError::FileNotCorrectSize);
        }
        let h: usize = match height {
            Some(h) => h,
            None => {
                if length == 0 {
                    return Err(FontError::FileNotCorrectSize);
                }
                bits / length / width
            },
        };
        if h == 0 {
            return Err(FontError::FileNotCorrectSize);
        }
        let glyph_len: usize = match width.checked_mul(h) {
            Some(glyph_len) => glyph_len,
            None => {
                if bits == 0 && length == 0 {
                    let font = Font { width, height: h, length, bitmasks: Vec::new() };
                    proof {
                        assert(width * h * length == 0) by (nonlinear_arith)
                            requires
                                length == 0,
                        ;
                        assert(0int % (width * h) == 0) by (nonlinear_arith)
                            requires
                                width * h > 0,
                        ;
                        assert(0int / (width * h) == 0) by (nonlinear_arith)
                            requires
                                width * h > 0,
                        ;
                        assert(bits_of(bytes@).len() == 0);
                        assert(masks(font.bitmasks@) =~= glyph_masks(
                            bits_of(bytes@),
                            width * h,
                        ));
                    }
                    return Ok(font);
                }
                proof {
                    if length > 0 {
                        assert(width * h * length > bits) by (nonlinear_arith)
                            requires
                                width * h > bits,
                                length > 0,
                        ;
                    } else {
                        vstd::arithmetic::div_mod::lemma_small_mod(
                            bits as nat,
                            (width * h) as nat,
                        );
                    }
                }
                return Err(FontError::FileNotCorrectSize);
            },
        };
        assert(glyph_len > 0) by (nonlinear_arith)
            requires
                glyph_len == width * h,
                width > 0,
                h > 0,
        ;
        match glyph_len.checked_mul(length) {
            Some(total) => {
                if bits < total {
                    return Err(FontError::FileNotCorrectSize);
                }
            },
            None => {
                return Err(FontError::FileNotCorrectSize);
            },
        }
        if bits % glyph_len != 0 {
            return Err(FontError::FileNotCorrectSize);
        }
        proof {
            assert(length * (width * h) == width * h * length) by (nonlinear_arith);
        }
        Ok(Font::new(bytes, width, h, length))
    }

    /// The font of `length` glyphs of `width` by `height` pixels whose masks
    /// follow one another in `bits`.
    pub(crate) fn from_bits(bits: &Vec<bool>, width: usize, height: usize, length: usize) -> (font: Font)
        requires
            width > 0,
            height > 0,
            width * height * length <= usize::MAX,
            bits@.len() == width * height * length,
            (width * height * length) % 8 == 0,
            length > 0,
        ensures
            font.width == width,
            font.height == height,
            font.length == length,
            font.wf(),
            masks(font.bitmasks@) == glyph_masks(bits@, width * height),
            font.bitmasks@.len() == length,
    {
        proof {
            assert(0 < width * height <= width * height * length) by (nonlinear_arith)
                requires
                    width > 0,
                    height > 0,
                    length > 0,
            ;
        }
        let glyph_len: usize = width * height;
        let total: usize = glyph_len * length;
        let count: usize = total / 8;
        let bitmask = pack_bits(bits, count);
        proof {
            lemma_bits_of_packed(bits@, count as nat);
            assert(resized(bits@, 8 * count as nat) =~= bits@);
            assert((glyph_len * length) % (glyph_len as int) == 0 && (glyph_len * length) / (
            glyph_len as int) == length) by (nonlinear_arith)
                requires
                    glyph_len > 0,
                    length >= 0,
            ;
            assert(length * glyph_len == glyph_len * length) by (nonlinear_arith);
        }
        let font = Font::new(bitmask.as_slice(), width, height, length);
        proof {
            assert(masks(font.bitmasks@).len() == length);
        }
        font
    }
}

} // verus!
