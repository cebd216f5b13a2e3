//! Bit-field arithmetic on 64-bit words.
//!
//! Every value of the representation is at most 64 bits wide and is held in
//! a `u64`. A bit field is named by the offset of its lowest bit and by its
//! width.

use vstd::prelude::*;

verus! {

/// The word whose lowest `width` bits are set and all others clear.
pub open spec fn mask(width: u8) -> u64 {
    if width >= 64 {
        u64::MAX
    } else {
        ((1u64 << width) - 1) as u64
    }
}

/// The field of `width` bits that starts at bit `offset` of `word`.
pub open spec fn field(word: u64, offset: u8, width: u8) -> u64 {
    if offset >= 64 {
        0
    } else {
        (word >> offset) & mask(width)
    }
}

/// `word` with the field of `width` bits at `offset` replaced by the lowest
/// `width` bits of `value`.
pub open spec fn deposit(word: u64, offset: u8, width: u8, value: u64) -> u64 {
    if offset >= 64 {
        word
    } else {
        (word & !(mask(width) << offset)) | ((value & mask(width)) << offset)
    }
}

/// A 1 shifted by less than 64 places is not lost.
proof fn lemma_one_shifted(width: u8)
    by (bit_vector)
    requires
        width < 64,
    ensures
        (1u64 << width) >= 1,
{
}

/// Computes [`mask`].
pub fn mask_of(width: u8) -> (m: u64)
    ensures
        m == mask(width),
{
    if width >= 64 {
        u64::MAX
    } else {
        proof {
            lemma_one_shifted(width);
        }
        (1u64 << width) - 1
    }
}

/// Computes [`field`].
pub fn field_of(word: u64, offset: u8, width: u8) -> (v: u64)
    ensures
        v == field(word, offset, width),
{
    if offset >= 64 {
        0
    } else {
        (word >> offset) & mask_of(width)
    }
}

/// Computes [`deposit`].
pub fn deposit_into(word: u64, offset: u8, width: u8, value: u64) -> (w: u64)
    ensures
        w == deposit(word, offset, width, value),
{
    if offset >= 64 {
        word
    } else {
        let m: u64 = mask_of(width);
        (word & !(m << offset)) | ((value & m) << offset)
    }
}

/// The masks of the widths that the processor's registers, flags and
/// addresses have.
pub proof fn lemma_masks()
    ensures
        mask(1) == 1,
        mask(8) == 0xff,
        mask(9) == 0x1ff,
        mask(16) == 0xffff,
{
    assert((1u64 << 1u8) == 2) by (bit_vector);
    assert((1u64 << 8u8) == 0x100) by (bit_vector);
    assert((1u64 << 9u8) == 0x200) by (bit_vector);
    assert((1u64 << 16u8) == 0x10000) by (bit_vector);
}

/// Cutting a word to its lowest 1, 8, 9 or 16 bits is taking it modulo 2,
/// 256, 512 or 65536.
pub proof fn lemma_low_bits(x: u64)
    by (bit_vector)
    ensures
        x & 1 == x % 2,
        x & 0xff == x % 0x100,
        x & 0x1ff == x % 0x200,
        x & 0xffff == x % 0x10000,
{
}

/// A field at offset 0 is the lowest bits of the word.
pub proof fn lemma_field_low(word: u64, width: u8)
    ensures
        field(word, 0, width) == word & mask(width),
{
    let m = mask(width);
    assert((word >> 0u8) & m == word & m) by (bit_vector);
}

/// A field reads back what was deposited in it.
pub proof fn lemma_deposit_read(word: u64, offset: u8, width: u8, value: u64)
    requires
        offset + width <= 64,
    ensures
        field(deposit(word, offset, width, value), offset, width) == value & mask(width),
{
    let m = mask(width);
    if offset < 64 {
        if width >= 64 {
            assert(offset == 0);
            assert((((word & !(m << 0u8)) | ((value & m) << 0u8)) >> 0u8) & m == value & m)
                by (bit_vector)
                requires
                    m == u64::MAX,
            ;
        } else {
            assert((((word & !(m << offset)) | ((value & m) << offset)) >> offset) & m == value
                & m) by (bit_vector)
                requires
                    m == (((1u64 << width) - 1) as u64),
                    offset < 64,
                    width < 64,
                    offset + width <= 64,
            ;
        }
    } else {
        assert(width == 0);
        assert((1u64 << 0u8) == 1) by (bit_vector);
        assert(value & 0 == 0) by (bit_vector);
        assert(m == 0);
    }
}

/// Bit `k` of a word, for the eight bits of its low byte, and the shift
/// of a word to the right by one place, in ordinary arithmetic.
pub proof fn lemma_byte_bits(w: u64)
    by (bit_vector)
    ensures
        (w >> 0u8) & 1 == (w & 0xff) % 2,
        (w >> 1u8) & 1 == ((w & 0xff) / 2) % 2,
        (w >> 2u8) & 1 == ((w & 0xff) / 4) % 2,
        (w >> 3u8) & 1 == ((w & 0xff) / 8) % 2,
        (w >> 4u8) & 1 == ((w & 0xff) / 16) % 2,
        (w >> 5u8) & 1 == ((w & 0xff) / 32) % 2,
        (w >> 6u8) & 1 == ((w & 0xff) / 64) % 2,
        (w >> 7u8) & 1 == ((w & 0xff) / 128) % 2,
        w >> 1u64 == w / 2,
{
}

/// [`lemma_deposit_bit`], with the mask of one bit written out.
proof fn lemma_deposit_raw(w: u64, b: u64)
    by (bit_vector)
    requires
        b <= 1,
    ensures
        w < 0x1 ==> (w & !(1u64 << 0u8)) | ((b & 1u64) << 0u8) == w + 0x1 * b,
        w < 0x2 ==> (w & !(1u64 << 1u8)) | ((b & 1u64) << 1u8) == w + 0x2 * b,
        w < 0x4 ==> (w & !(1u64 << 2u8)) | ((b & 1u64) << 2u8) == w + 0x4 * b,
        w < 0x8 ==> (w & !(1u64 << 3u8)) | ((b & 1u64) << 3u8) == w + 0x8 * b,
        w < 0x10 ==> (w & !(1u64 << 4u8)) | ((b & 1u64) << 4u8) == w + 0x10 * b,
        w < 0x20 ==> (w & !(1u64 << 5u8)) | ((b & 1u64) << 5u8) == w + 0x20 * b,
        w < 0x40 ==> (w & !(1u64 << 6u8)) | ((b & 1u64) << 6u8) == w + 0x40 * b,
        w < 0x80 ==> (w & !(1u64 << 7u8)) | ((b & 1u64) << 7u8) == w + 0x80 * b,
{
}

/// Depositing one bit at place `k`, above all set bits of a word, adds the
/// bit's weight.
pub proof fn lemma_deposit_bit(w: u64, k: u8, b: u64)
    requires
        k < 8,
        b <= 1,
    ensures
        k == 0 && w < 1 ==> deposit(w, k, 1, b) == w + b,
        k == 1 && w < 2 ==> deposit(w, k, 1, b) == w + 2 * b,
        k == 2 && w < 4 ==> deposit(w, k, 1, b) == w + 4 * b,
        k == 3 && w < 8 ==> deposit(w, k, 1, b) == w + 8 * b,
        k == 4 && w < 16 ==> deposit(w, k, 1, b) == w + 16 * b,
        k == 5 && w < 32 ==> deposit(w, k, 1, b) == w + 32 * b,
        k == 6 && w < 64 ==> deposit(w, k, 1, b) == w + 64 * b,
        k == 7 && w < 128 ==> deposit(w, k, 1, b) == w + 128 * b,
{
    lemma_masks();
    lemma_deposit_raw(w, b);
}

/// The shift of a byte to the left by one place, in ordinary arithmetic;
/// and a byte with nothing above it is itself.
pub proof fn lemma_byte_shift_left(w: u64)
    by (bit_vector)
    requires
        w < 0x100,
    ensures
        (w << 1u64) & 0xff == (2 * w) % 0x100,
        (w | (0u64 << 8u64)) & 0xff == w,
        w | (0u64 << 8u64) == w,
{
}

/// Two bytes, the low one first, make the word whose value is the low byte
/// plus 256 times the high byte.
pub proof fn lemma_word_of_bytes(low: u64, high: u64)
    by (bit_vector)
    requires
        low < 0x100,
        high < 0x100,
    ensures
        (low | (high << 8u64)) & 0xffff == low + 0x100 * high,
{
}

/// The low byte of a wrapping difference of two bytes is their difference
/// modulo 256.
pub proof fn lemma_sub_low(a: u64, b: u64)
    requires
        a < 0x100,
        b < 0x100,
    ensures
        a.wrapping_sub(b) & 0xff == (a - b) % 0x100,
        a.wrapping_sub(b) % 0x100 == (a - b) % 0x100,
{
    let d = a.wrapping_sub(b);
    lemma_low_bits(d);
    if a < b {
        assert(d == a - b + 0x1_0000_0000_0000_0000);
    }
}

/// The low bits of a wrapping sum of two words below 512 are their sum
/// modulo 256 or 512.
pub proof fn lemma_add_low(a: u64, b: u64)
    requires
        a < 0x200,
        b < 0x200,
    ensures
        a.wrapping_add(b) & 0xff == (a + b) % 0x100,
        a.wrapping_add(b) % 0x100 == (a + b) % 0x100,
        a.wrapping_add(b) & 0x1ff == (a + b) % 0x200,
{
    lemma_low_bits(a.wrapping_add(b));
}

/// Depositing one bit at the bottom of an even word adds the bit.
pub proof fn lemma_deposit_low(w: u64, b: u64)
    requires
        b <= 1,
        w % 2 == 0,
    ensures
        deposit(w, 0, 1, b) == w + b,
{
    lemma_masks();
    assert((w & !(1u64 << 0u8)) | ((b & 1u64) << 0u8) == w + b) by (bit_vector)
        requires
            b <= 1,
            w % 2 == 0,
    ;
}

/// The bitwise operations on bytes give bytes, whatever the width they are
/// computed in.
pub proof fn lemma_byte_logic(a: u8, b: u8)
    by (bit_vector)
    ensures
        (a as u64) & (b as u64) == (a & b) as u64,
        (a as u64) | (b as u64) == (a | b) as u64,
        (a as u64) ^ (b as u64) == (a ^ b) as u64,
        a & b == b & a,
        a | b == b | a,
        a ^ b == b ^ a,
{
}

} // verus!
