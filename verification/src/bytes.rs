//! Primitives on byte sequences: stripping and padding of fixed-width fields,
//! bounds-checked writes into a slot, and little-endian integers.

use crate::ascii;
use vstd::arithmetic::div_mod::{
    lemma_add_mod_noop, lemma_div_denominator, lemma_fundamental_div_mod, lemma_mod_breakdown,
    lemma_mul_mod_noop_left, lemma_small_mod,
};
use vstd::arithmetic::mul::lemma_mul_strictly_positive;
use vstd::prelude::*;

verus! {

/// Why a write into a slot failed.
#[derive(Debug, Clone, Copy, PartialEq, Eq, Structural)]
pub enum BytesError {
    /// The source holds more bytes than the slot has room for.
    TooLarge,
}

impl BytesError {
    /// The message shown for this error.
    pub open spec fn message(self) -> Seq<char> {
        "Bytes too large"@
    }

    /// Renders the error as text.
    pub fn to_string(&self) -> (r: String)
        ensures
            r@ == self.message(),
    {
        "Bytes too large".to_owned()
    }
}

/// `s` without the run of `value` at its end.
pub open spec fn strip_trailing<T>(s: Seq<T>, value: T) -> Seq<T>
    decreases s.len(),
{
    if s.len() > 0 && s.last() == value {
        strip_trailing(s.drop_last(), value)
    } else {
        s
    }
}

/// `s` extended with `value` up to `length` elements; `s` itself when it is
/// already that long.
pub open spec fn pad_with<T>(s: Seq<T>, length: nat, value: T) -> Seq<T> {
    if s.len() >= length {
        s
    } else {
        s + Seq::new((length - s.len()) as nat, |i: int| value)
    }
}

/// 256 to the power `k`.
pub open spec fn pow256(k: nat) -> nat
    decreases k,
{
    if k == 0 {
        1
    } else {
        256 * pow256((k - 1) as nat)
    }
}

/// The number that `bytes` stands for, least significant byte first.
pub open spec fn le_value(bytes: Seq<u8>) -> nat
    decreases bytes.len(),
{
    if bytes.len() == 0 {
        0
    } else {
        bytes[0] as nat + 256 * le_value(bytes.drop_first())
    }
}

/// The byte of weight `256^i` in `n`.
pub open spec fn le_byte(n: nat, i: nat) -> u8 {
    ((n / pow256(i)) % 256) as u8
}

/// The `width` least significant bytes of `n`, least significant first.
pub open spec fn le_bytes(n: nat, width: nat) -> Seq<u8> {
    Seq::new(width, |i: int| le_byte(n, i as nat))
}

/// What a bounded write leaves in a slot that held `slot`: `src` followed by
/// the part of the slot that `src` does not reach.
pub open spec fn written(src: Seq<u8>, slot: Seq<u8>) -> Seq<u8> {
    src + slot.subrange(src.len() as int, slot.len() as int)
}

/// Stripping never lengthens, removes only `value`, and leaves no `value`
/// at the end.
pub proof fn lemma_strip_trailing<T>(s: Seq<T>, value: T)
    ensures
        strip_trailing(s, value).len() <= s.len(),
        strip_trailing(s, value) == s.subrange(0, strip_trailing(s, value).len() as int),
        forall|i: int| strip_trailing(s, value).len() <= i < s.len() ==> s[i] == value,
        strip_trailing(s, value).len() > 0 ==> strip_trailing(s, value).last() != value,
    decreases s.len(),
{
    if s.len() > 0 && s.last() == value {
        lemma_strip_trailing(s.drop_last(), value);
        let t = strip_trailing(s, value);
        assert(t == s.subrange(0, t.len() as int));
        assert forall|i: int| t.len() <= i < s.len() implies s[i] == value by {
            if i < s.len() - 1 {
                assert(s[i] == s.drop_last()[i]);
            }
        }
    } else {
        assert(s == s.subrange(0, s.len() as int));
    }
}

/// Padding then stripping gives back a sequence that does not end in the
/// fill value.
pub proof fn lemma_strip_pad<T>(s: Seq<T>, length: nat, value: T)
    requires
        s.len() > 0 ==> s.last() != value,
    ensures
        strip_trailing(pad_with(s, length, value), value) == s,
    decreases length,
{
    if s.len() < length {
        let p = pad_with(s, length, value);
        assert(p.last() == value);
        assert(p.drop_last() == pad_with(s, (length - 1) as nat, value));
        lemma_strip_pad(s, (length - 1) as nat, value);
    }
}

/// Every power of 256 is positive.
pub proof fn lemma_pow256_positive(k: nat)
    ensures
        pow256(k) > 0,
    decreases k,
{
    if k > 0 {
        lemma_pow256_positive((k - 1) as nat);
        lemma_mul_strictly_positive(256, pow256((k - 1) as nat) as int);
    }
}

/// A little-endian sequence of `n` bytes stands for a number below `256^n`.
pub proof fn lemma_le_value_bound(bytes: Seq<u8>)
    ensures
        le_value(bytes) < pow256(bytes.len()),
    decreases bytes.len(),
{
    if bytes.len() > 0 {
        lemma_le_value_bound(bytes.drop_first());
        let rest = le_value(bytes.drop_first());
        let p = pow256((bytes.len() - 1) as nat);
        assert(256 * rest + 256 <= 256 * p) by (nonlinear_arith)
            requires
                rest < p,
        ;
    }
}

/// Unpacking what was packed gives the number back, reduced to the width.
pub proof fn lemma_le_value_of_le_bytes(n: nat, width: nat)
    ensures
        le_value(le_bytes(n, width)) == n % pow256(width),
    decreases width,
{
    if width == 0 {
        assert(le_bytes(n, 0).len() == 0);
    } else {
        let w1 = (width - 1) as nat;
        let b = le_bytes(n, width);
        lemma_pow256_positive(w1);
        assert(b.drop_first() =~= le_bytes(n / 256, w1)) by {
            assert forall|i: int| 0 <= i < w1 implies b.drop_first()[i] == le_bytes(n / 256, w1)[i] by {
                lemma_pow256_positive(i as nat);
                lemma_div_denominator(n as int, 256, pow256(i as nat) as int);
                assert(pow256((i + 1) as nat) == 256 * pow256(i as nat));
            }
        }
        lemma_le_value_of_le_bytes(n / 256, w1);
        assert(pow256(0) == 1);
        assert(b[0] == (n % 256) as u8);
        lemma_mod_breakdown(n as int, 256, pow256(w1) as int);
    }
}

/// A number that fits the width comes back unchanged.
pub proof fn lemma_le_round_trip(n: nat, width: nat)
    requires
        n < pow256(width),
    ensures
        le_value(le_bytes(n, width)) == n,
{
    lemma_le_value_of_le_bytes(n, width);
    lemma_small_mod(n, pow256(width));
}

/// Operations on a growable sequence that holds one fixed-width field.
pub trait VecOps<T>: View<V = Seq<T>> + Sized {
    /// Removes the run of `value` at the end.
    fn strip_trailing_value(&mut self, value: T) -> (r: &Vec<T>)
        ensures
            final(self)@ == strip_trailing(old(self)@, value),
            r@ == final(self)@,
    ;

    /// Removes the spaces at the end.
    fn strip_trailing_spaces(&mut self) -> (r: &Vec<T>)
        ensures
            final(self)@.len() <= old(self)@.len(),
            final(self)@ == old(self)@.subrange(0, final(self)@.len() as int),
            r@ == final(self)@,
    ;

    /// Removes the null bytes at the end.
    fn strip_trailing_nulls(&mut self) -> (r: &Vec<T>)
        ensures
            final(self)@.len() <= old(self)@.len(),
            final(self)@ == old(self)@.subrange(0, final(self)@.len() as int),
            r@ == final(self)@,
    ;

    /// Appends `value` until the sequence has `length` elements.
    fn pad_with_value(&mut self, length: usize, value: T) -> (r: &Self)
        ensures
            final(self)@ == pad_with(old(self)@, length as nat, value),
            r@ == final(self)@,
    ;

    /// Appends spaces until the sequence has `length` elements.
    fn pad_with_spaces(&mut self, length: usize) -> (r: &Self)
        ensures
            final(self)@.len() >= old(self)@.len(),
            final(self)@.subrange(0, old(self)@.len() as int) == old(self)@,
            r@ == final(self)@,
    ;

    /// Appends null bytes until the sequence has `length` elements.
    fn pad_with_nulls(&mut self, length: usize) -> (r: &Self)
        ensures
            final(self)@.len() >= old(self)@.len(),
            final(self)@.subrange(0, old(self)@.len() as int) == old(self)@,
            r@ == final(self)@,
    ;

    /// Copies the sequence to the front of `slice`, or fails and leaves
    /// `slice` untouched when it does not fit.
    fn write_to_slice(&self, slice: &mut [u8]) -> (r: Result<(), BytesError>)
        ensures
            r is Ok <==> self@.len() <= old(slice)@.len(),
            r is Err ==> r == Err::<(), BytesError>(BytesError::TooLarge) && final(slice)@ == old(
                slice,
            )@,
            final(slice)@.len() == old(slice)@.len(),
    ;
}

impl VecOps<u8> for Vec<u8> {
    fn strip_trailing_value(&mut self, value: u8) -> (r: &Vec<u8>) {
        while self.len() > 0 && self[self.len() - 1] == value
            invariant
                strip_trailing(self@, value) == strip_trailing(old(self)@, value),
            decreases self.len(),
        {
            self.pop();
        }
        self
    }

    fn strip_trailing_spaces(&mut self) -> (r: &Vec<u8>)
        ensures
            final(self)@ == strip_trailing(old(self)@, ascii::SPACE),
    {
        proof {
            lemma_strip_trailing(self@, ascii::SPACE);
        }
        self.strip_trailing_value(ascii::SPACE)
    }

    fn strip_trailing_nulls(&mut self) -> (r: &Vec<u8>)
        ensures
            final(self)@ == strip_trailing(old(self)@, ascii::NULL),
    {
        proof {
            lemma_strip_trailing(self@, ascii::NULL);
        }
        self.strip_trailing_value(ascii::NULL)
    }

    fn pad_with_value(&mut self, length: usize, value: u8) -> (r: &Self) {
        while self.len() < length
            invariant
                old(self)@.len() <= self@.len(),
                self@.len() <= length || self@ == old(self)@,
                self@ == old(self)@ + Seq::new(
                    (self@.len() - old(self)@.len()) as nat,
                    |i: int| value,
                ),
            decreases length - self.len(),
        {
            self.push(value);
        }
        self
    }

    fn pad_with_spaces(&mut self, length: usize) -> (r: &Self)
        ensures
            final(self)@ == pad_with(old(self)@, length as nat, ascii::SPACE),
    {
        self.pad_with_value(length, ascii::SPACE)
    }

    fn pad_with_nulls(&mut self, length: usize) -> (r: &Self)
        ensures
            final(self)@ == pad_with(old(self)@, length as nat, ascii::NULL),
    {
        self.pad_with_value(length, ascii::NULL)
    }

    fn write_to_slice(&self, slice: &mut [u8]) -> (r: Result<(), BytesError>)
        ensures
            r is Ok ==> final(slice)@ == written(self@, old(slice)@),
    {
        if self.len() > slice.len() {
            return Err(BytesError::TooLarge);
        }
        let mut i: usize = 0;
        while i < self.len()
            invariant
                i <= self@.len() <= slice@.len(),
                slice@.len() == old(slice)@.len(),
                slice@ == self@.subrange(0, i as int) + old(slice)@.subrange(
                    i as int,
                    old(slice)@.len() as int,
                ),
            decreases self@.len() - i,
        {
            slice[i] = self[i];
            i += 1;
        }
        assert(self@.subrange(0, i as int) == self@);
        Ok(())
    }
}

/// A sequence of bytes read as one little-endian number.
pub trait AsUSize {
    /// The bytes of the sequence.
    spec fn le_digits(&self) -> Seq<u8>;

    /// The number the bytes stand for, reduced to the range of `usize`.
    fn as_usize(&self) -> (r: usize)
        ensures
            r as nat == le_value(self.le_digits()) % (usize::MAX as nat + 1),
            self.le_digits().len() <= 4 ==> r as nat == le_value(self.le_digits()),
    ;
}

/// A number written out as little-endian bytes.
pub trait PackToBytes {
    /// The number to write.
    spec fn packed_value(&self) -> nat;

    /// Fills `bytes` with the number's least significant bytes, least
    /// significant first; what does not fit is dropped.
    fn pack_to_bytes(&self, bytes: &mut [u8])
        ensures
            final(bytes)@ == le_bytes(self.packed_value(), old(bytes)@.len()),
    ;
}

impl PackToBytes for usize {
    open spec fn packed_value(&self) -> nat {
        *self as nat
    }

    fn pack_to_bytes(&self, bytes: &mut [u8]) {
        let n: usize = bytes.len();
        let mut value: usize = *self;
        let mut i: usize = 0;
        proof {
            assert(pow256(0) == 1);
        }
        while i < n
            invariant
                i <= n,
                bytes@.len() == n,
                value as nat == (*self as nat) / pow256(i as nat),
                forall|j: int| 0 <= j < i ==> bytes@[j] == le_byte(*self as nat, j as nat),
            decreases n - i,
        {
            let low: u8 = (value & 255) as u8;
            proof {
                let v = value;
                assert(v & 255 == v % 256) by (bit_vector);
                assert(v >> 8 == v / 256) by (bit_vector);
                lemma_pow256_positive(i as nat);
                lemma_div_denominator(*self as int, pow256(i as nat) as int, 256);
                assert(pow256((i + 1) as nat) == pow256(i as nat) * 256);
            }
            bytes[i] = low;
            value = value >> 8;
            i += 1;
        }
        assert(bytes@ =~= le_bytes(*self as nat, n as nat));
    }
}

impl AsUSize for [u8] {
    open spec fn le_digits(&self) -> Seq<u8> {
        self@
    }

    fn as_usize(&self) -> (r: usize) {
        let ghost modulus: nat = usize::MAX as nat + 1;
        let n: usize = self.len();
        let mut value: usize = 0;
        let mut i: usize = n;
        proof {
            assert(self@.subrange(n as int, n as int).len() == 0);
        }
        while i > 0
            invariant
                i <= n,
                n == self@.len(),
                modulus == usize::MAX as nat + 1,
                value as nat == le_value(self@.subrange(i as int, n as int)) % modulus,
            decreases i,
        {
            i -= 1;
            let byte: u8 = self[i];
            let shifted: usize = value.wrapping_mul(256);
            proof {
                let tail = self@.subrange(i as int + 1, n as int);
                let here = self@.subrange(i as int, n as int);
                assert(here.drop_first() == tail);
                assert(here[0] == byte);
                assert(modulus % 256 == 0) by {
                    assert(usize::BITS == 32 || usize::BITS == 64);
                }
                lemma_shift_in_byte(le_value(tail) as int, byte as int, modulus as int);
            }
            value = shifted + byte as usize;
        }
        proof {
            assert(self@.subrange(0, n as int) == self@);
            if self@.len() <= 4 {
                lemma_le_value_bound(self@);
                lemma_pow256_le_four(self@.len());
                lemma_small_mod(le_value(self@), modulus);
            }
        }
        value
    }
}

/// Shifting a reduced number up by one byte and adding a byte reduces to the
/// same as doing so with the number itself.
proof fn lemma_shift_in_byte(rest: int, byte: int, m: int)
    requires
        m > 0,
        m % 256 == 0,
        0 <= rest,
        0 <= byte < 256,
    ensures
        ((rest % m) * 256) % m + byte < m,
        ((rest % m) * 256) % m + byte == (byte + 256 * rest) % m,
{
    let a = (rest % m) * 256;
    lemma_mul_mod_noop_left(rest, 256, m);
    assert(a % m == (rest * 256) % m);
    // a % m is a multiple of 256 below m, so adding a byte stays below m.
    lemma_fundamental_div_mod(a, m);
    lemma_fundamental_div_mod(m, 256);
    let q = a / m;
    let k = m / 256;
    let t = (rest % m) - k * q;
    assert(a % m == 256 * t) by (nonlinear_arith)
        requires
            a == (rest % m) * 256,
            a == m * q + a % m,
            m == 256 * k,
            t == (rest % m) - k * q,
    ;
    assert(256 * t + byte < 256 * k) by (nonlinear_arith)
        requires
            256 * t < 256 * k,
            0 <= byte < 256,
    ;
    lemma_add_mod_noop(byte, rest * 256, m);
    lemma_small_mod(byte as nat, m as nat);
    lemma_small_mod((a % m + byte) as nat, m as nat);
    assert(rest * 256 == 256 * rest) by (nonlinear_arith);
}

/// Up to four bytes stand for a number within the range of `usize`.
proof fn lemma_pow256_le_four(k: nat)
    requires
        k <= 4,
    ensures
        pow256(k) <= usize::MAX as nat + 1,
{
    reveal_with_fuel(pow256, 5);
    assert(usize::MAX >= 0xffff_ffff) by {
        assert(usize::BITS >= 32);
    }
}

} // verus!
