//! Bit-field access on 32-bit register words.
//!
//! Every register of the system control space is a 32-bit word made of
//! fields. A field is named by its lowest bit `lo` and its `width`; these
//! helpers read and replace such a field and state, over plain integers,
//! what they do.
use vstd::prelude::*;

verus! {

/// The mask of the `width` lowest bits.
pub open spec fn low_mask(width: u32) -> u32 {
    if width >= 32 { 0xffff_ffffu32 } else { ((1u32 << width) - 1) as u32 }
}

/// The value of the field of `width` bits that starts at bit `lo` of `v`.
pub open spec fn field(v: u32, lo: u32, width: u32) -> u32 {
    (v >> lo) & low_mask(width)
}

/// `v` with the field of `width` bits at bit `lo` replaced by the low bits of `x`.
pub open spec fn with_field(v: u32, lo: u32, width: u32, x: u32) -> u32 {
    (v & !(low_mask(width) << lo)) | ((x & low_mask(width)) << lo)
}

/// Bit `lo` of `v`.
pub open spec fn bit(v: u32, lo: u32) -> bool {
    (v >> lo) & 1u32 == 1u32
}

/// `v` with bit `lo` set to `b`.
pub open spec fn with_bit(v: u32, lo: u32, b: bool) -> u32 {
    if b { v | (1u32 << lo) } else { v & !(1u32 << lo) }
}

/// A field is well placed in a word when it is not empty and ends by bit 31.
pub open spec fn field_fits(lo: u32, width: u32) -> bool {
    0 < width && width <= 32 && lo < 32 && lo + width <= 32
}

/// Reads the mask of the `width` lowest bits.
pub fn mask_of(width: u32) -> (r: u32)
    requires
        0 < width <= 32,
    ensures
        r == low_mask(width),
{
    if width == 32 {
        0xffff_ffffu32
    } else {
        assert((1u32 << width) >= 1u32) by (bit_vector)
            requires
                width < 32,
        ;
        (1u32 << width) - 1
    }
}

/// Reads the field of `width` bits at bit `lo` of `v`.
pub fn get_field(v: u32, lo: u32, width: u32) -> (r: u32)
    requires
        field_fits(lo, width),
    ensures
        r == field(v, lo, width),
        r <= low_mask(width),
{
    let m = mask_of(width);
    let r = (v >> lo) & m;
    assert(((v >> lo) & m) <= m) by (bit_vector);
    r
}

/// Replaces the field of `width` bits at bit `lo` of `v` by the low bits of `x`.
pub fn put_field(v: u32, lo: u32, width: u32, x: u32) -> (r: u32)
    requires
        field_fits(lo, width),
    ensures
        r == with_field(v, lo, width, x),
{
    let m = mask_of(width);
    (v & !(m << lo)) | ((x & m) << lo)
}

/// Reads bit `lo` of `v`.
pub fn get_bit(v: u32, lo: u32) -> (r: bool)
    requires
        lo < 32,
    ensures
        r == bit(v, lo),
{
    (v >> lo) & 1u32 == 1u32
}

/// Sets bit `lo` of `v` to `b`.
pub fn put_bit(v: u32, lo: u32, b: bool) -> (r: u32)
    requires
        lo < 32,
    ensures
        r == with_bit(v, lo, b),
{
    if b {
        v | (1u32 << lo)
    } else {
        v & !(1u32 << lo)
    }
}

/// The masks of the widths that register fields use.
pub proof fn lemma_low_mask_values()
    by (bit_vector)
    ensures
        low_mask(1) == 0x1,
        low_mask(2) == 0x3,
        low_mask(3) == 0x7,
        low_mask(4) == 0xf,
        low_mask(5) == 0x1f,
        low_mask(6) == 0x3f,
        low_mask(7) == 0x7f,
        low_mask(8) == 0xff,
        low_mask(9) == 0x1ff,
        low_mask(12) == 0xfff,
        low_mask(16) == 0xffff,
        low_mask(23) == 0x7f_ffff,
        low_mask(24) == 0xff_ffff,
        low_mask(25) == 0x1ff_ffff,
        low_mask(27) == 0x7ff_ffff,
        low_mask(32) == 0xffff_ffff,
{
}

/// Byte `k` (0 to 3, little-endian) of the word `w`.
pub open spec fn byte_of(w: u32, k: u32) -> u8 {
    ((w >> ((k * 8) as u32)) & 0xffu32) as u8
}

/// The four bytes of `w`, least significant first.
pub open spec fn word_bytes(w: u32) -> Seq<u8> {
    seq![byte_of(w, 0), byte_of(w, 1), byte_of(w, 2), byte_of(w, 3)]
}

/// Reads byte `k` of `w`.
pub fn get_byte(w: u32, k: u32) -> (r: u8)
    requires
        k < 4,
    ensures
        r == byte_of(w, k),
{
    ((w >> (k * 8)) & 0xff) as u8
}

/// `w` with byte `k` replaced by `b`.
pub open spec fn with_byte(w: u32, k: u32, b: u8) -> u32 {
    (w & !(0xffu32 << ((k * 8) as u32))) | ((b as u32) << ((k * 8) as u32))
}

/// Replaces byte `k` of `w` by `b`; the other bytes stay.
pub fn put_byte(w: u32, k: u32, b: u8) -> (r: u32)
    requires
        k < 4,
    ensures
        r == with_byte(w, k, b),
        byte_of(r, k) == b,
        forall|j: u32| j < 4 && j != k ==> #[trigger] byte_of(r, j) == byte_of(w, j),
{
    let sh = k * 8;
    let r = (w & !(0xffu32 << sh)) | ((b as u32) << sh);
    proof {
        let bb = b as u32;
        assert(bb < 256);
        assert(((r >> sh) & 0xffu32) == bb) by (bit_vector)
            requires
                sh <= 24,
                bb < 256,
                r == (w & !(0xffu32 << sh)) | (bb << sh),
        ;
        assert forall|j: u32| j < 4 && j != k implies #[trigger] byte_of(r, j) == byte_of(w, j) by {
            let sj: u32 = (j * 8) as u32;
            assert(((r >> sj) & 0xffu32) == ((w >> sj) & 0xffu32)) by (bit_vector)
                requires
                    sh <= 24,
                    sj <= 24,
                    sh % 8 == 0,
                    sj % 8 == 0,
                    sh != sj,
                    bb < 256,
                    r == (w & !(0xffu32 << sh)) | (bb << sh),
            ;
        }
    }
    r
}

/// The value that the system control space takes from the bytes of a
/// write: the little-endian word of the first four bytes, byte `i`
/// shifted left by `8 i` bits and the results or-ed together.
pub open spec fn write_value_of(s: Seq<u8>, n: nat) -> u32
    decreases n,
{
    if n == 0 {
        0u32
    } else {
        write_value_of(s, (n - 1) as nat) | ((s[n - 1] as u32) << (((n - 1) * 8) as u32))
    }
}

/// The number of bytes of `s` that make the write value: at most four.
pub open spec fn write_value_len(s: Seq<u8>) -> nat {
    if s.len() < 4 { s.len() } else { 4 }
}

/// Computes the write value of `src`: the little-endian word of its first
/// four bytes (fewer when it is shorter).
pub fn write_value(src: &[u8]) -> (r: u32)
    ensures
        r == write_value_of(src@, write_value_len(src@)),
{
    let n: usize = if src.len() < 4 { src.len() } else { 4 };
    let mut val: u32 = 0;
    let mut i: usize = 0;
    while i < n
        invariant
            n == write_value_len(src@),
            n <= src@.len(),
            n <= 4,
            i <= n,
            val == write_value_of(src@, i as nat),
        decreases n - i,
    {
        val = val | ((src[i] as u32) << ((i as u32) * 8));
        i = i + 1;
    }
    val
}

/// A field is no larger than the mask of its width.
pub proof fn lemma_field_bound(v: u32, lo: u32, width: u32)
    requires
        field_fits(lo, width),
    ensures
        field(v, lo, width) <= low_mask(width),
{
    let m = low_mask(width);
    assert(((v >> lo) & m) <= m) by (bit_vector);
}

/// A field read back after it was written gives the low bits of what was written.
pub proof fn lemma_field_read_after_write(v: u32, lo: u32, width: u32, x: u32)
    requires
        field_fits(lo, width),
    ensures
        field(with_field(v, lo, width, x), lo, width) == x & low_mask(width),
{
    let m = low_mask(width);
    assert(m == low_mask(width));
    assert(((v & !(m << lo)) | ((x & m) << lo)) >> lo & m == x & m) by (bit_vector)
        requires
            0 < width <= 32,
            lo < 32,
            lo + width <= 32,
            m == (if width >= 32 { 0xffff_ffffu32 } else { ((1u32 << width) - 1) as u32 }),
    ;
}

/// Writing one field leaves a field that does not overlap it unchanged.
pub proof fn lemma_field_frame(v: u32, lo: u32, width: u32, x: u32, lo2: u32, width2: u32)
    requires
        field_fits(lo, width),
        field_fits(lo2, width2),
        lo + width <= lo2 || lo2 + width2 <= lo,
    ensures
        field(with_field(v, lo, width, x), lo2, width2) == field(v, lo2, width2),
{
    let m = low_mask(width);
    let m2 = low_mask(width2);
    assert(((v & !(m << lo)) | ((x & m) << lo)) >> lo2 & m2 == (v >> lo2) & m2) by (bit_vector)
        requires
            0 < width <= 32,
            lo < 32,
            lo + width <= 32,
            0 < width2 <= 32,
            lo2 < 32,
            lo2 + width2 <= 32,
            lo + width <= lo2 || lo2 + width2 <= lo,
            m == (if width >= 32 { 0xffff_ffffu32 } else { ((1u32 << width) - 1) as u32 }),
            m2 == (if width2 >= 32 { 0xffff_ffffu32 } else { ((1u32 << width2) - 1) as u32 }),
    ;
}

/// A bit read back after it was written gives what was written.
pub proof fn lemma_bit_read_after_write(v: u32, lo: u32, b: bool)
    requires
        lo < 32,
    ensures
        bit(with_bit(v, lo, b), lo) == b,
{
    assert((((v | (1u32 << lo)) >> lo) & 1u32) == 1u32) by (bit_vector)
        requires
            lo < 32,
    ;
    assert((((v & !(1u32 << lo)) >> lo) & 1u32) == 0u32) by (bit_vector)
        requires
            lo < 32,
    ;
}

/// Writing one bit leaves every other bit unchanged.
pub proof fn lemma_bit_frame(v: u32, lo: u32, b: bool, lo2: u32)
    requires
        lo < 32,
        lo2 < 32,
        lo != lo2,
    ensures
        bit(with_bit(v, lo, b), lo2) == bit(v, lo2),
{
    assert((((v | (1u32 << lo)) >> lo2) & 1u32) == ((v >> lo2) & 1u32)) by (bit_vector)
        requires
            lo < 32,
            lo2 < 32,
            lo != lo2,
    ;
    assert((((v & !(1u32 << lo)) >> lo2) & 1u32) == ((v >> lo2) & 1u32)) by (bit_vector)
        requires
            lo < 32,
            lo2 < 32,
            lo != lo2,
    ;
}

} // verus!
