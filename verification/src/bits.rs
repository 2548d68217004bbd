//! Bit arithmetic of register fields: masks, extraction, insertion, and the
//! backing width of a value of a given number of bits.

use vstd::prelude::*;

verus! {

/// The mask of the low `width` bits: `(1 << width) - 1`, all ones at 64.
pub open spec fn low_mask(width: u32) -> u64 {
    if width >= 64 {
        0xffff_ffff_ffff_ffffu64
    } else {
        ((1u64 << (width as u64)) - 1) as u64
    }
}

/// What a reader yields for the field of `width` bits at `offset`: the
/// register shifted right by the offset, then masked.
pub open spec fn field_of(bits: u64, offset: u32, width: u32) -> u64 {
    (bits >> (offset as u64)) & low_mask(width)
}

/// What a writer leaves after setting that field to `value`: the field's bits
/// cleared, then the masked value shifted into place.
pub open spec fn with_field(bits: u64, offset: u32, width: u32, value: u64) -> u64 {
    (bits & !(low_mask(width) << (offset as u64))) | ((value & low_mask(width)) << (offset as u64))
}

/// A field lies inside a register of `reg_width` bits.
pub open spec fn field_fits(offset: u32, width: u32, reg_width: u32) -> bool {
    1 <= width && offset as int + width as int <= reg_width as int && reg_width <= 64
}

/// The mask `(1 << width) - 1`.
pub fn mask(width: u32) -> (m: u64)
    requires
        width <= 64,
    ensures
        m == low_mask(width),
{
    if width >= 64 {
        0xffff_ffff_ffff_ffffu64
    } else {
        let w: u64 = width as u64;
        assert((1u64 << w) >= 1) by (bit_vector)
            requires
                w < 64,
        ;
        (1u64 << w) - 1
    }
}

/// Extracts a field: shift right by `offset`, mask to `width` bits.
pub fn extract(bits: u64, offset: u32, width: u32) -> (value: u64)
    requires
        field_fits(offset, width, 64),
    ensures
        value == field_of(bits, offset, width),
        value <= low_mask(width),
{
    let m: u64 = mask(width);
    let shifted: u64 = bits >> (offset as u64);
    assert(shifted & m <= m) by (bit_vector);
    shifted & m
}

/// Inserts a field: clear its bits, then OR in the masked value shifted into
/// place. Bits of `value` above the field's width are dropped.
pub fn insert(bits: u64, offset: u32, width: u32, value: u64) -> (out: u64)
    requires
        field_fits(offset, width, 64),
    ensures
        out == with_field(bits, offset, width, value),
{
    let m: u64 = mask(width);
    let o: u64 = offset as u64;
    (bits & !(m << o)) | ((value & m) << o)
}

/// The narrowest unsigned integer width, in bits, that holds `bits` bits.
pub open spec fn backing_width(bits: u32) -> Option<u32> {
    if bits == 0 || bits > 64 {
        None
    } else if bits <= 8 {
        Some(8u32)
    } else if bits <= 16 {
        Some(16u32)
    } else if bits <= 32 {
        Some(32u32)
    } else {
        Some(64u32)
    }
}

/// The narrowest of 8, 16, 32 and 64 that is at least `bits`; `None` for zero
/// bits and for more than 64.
pub fn smallest_width(bits: u32) -> (w: Option<u32>)
    ensures
        w == backing_width(bits),
{
    if bits == 0 || bits > 64 {
        None
    } else if bits <= 8 {
        Some(8)
    } else if bits <= 16 {
        Some(16)
    } else if bits <= 32 {
        Some(32)
    } else {
        Some(64)
    }
}

/// Reading a field back after writing it yields the written value, masked to
/// the field's width.
pub proof fn lemma_read_after_write(bits: u64, offset: u32, width: u32, value: u64)
    requires
        field_fits(offset, width, 64),
    ensures
        field_of(with_field(bits, offset, width, value), offset, width) == value & low_mask(width),
{
    let o: u64 = offset as u64;
    let m: u64 = low_mask(width);
    lemma_mask_shift(offset, width);
    assert((((bits & !(m << o)) | ((value & m) << o)) >> o) & m == value & m) by (bit_vector)
        requires
            o < 64,
            (m << o) >> o == m,
    ;
}

/// A field's mask survives being shifted to the field's place and back:
/// no bit of it leaves the register.
pub proof fn lemma_mask_shift(offset: u32, width: u32)
    requires
        field_fits(offset, width, 64),
    ensures
        (low_mask(width) << (offset as u64)) >> (offset as u64) == low_mask(width),
{
    let o: u64 = offset as u64;
    let w: u64 = width as u64;
    if width < 64 {
        assert(((((1u64 << w) - 1) as u64) << o) >> o == ((1u64 << w) - 1) as u64) by (bit_vector)
            requires
                o + w <= 64,
                1 <= w < 64,
        ;
    } else {
        assert((0xffff_ffff_ffff_ffffu64 << o) >> o == 0xffff_ffff_ffff_ffffu64) by (bit_vector)
            requires
                o == 0,
        ;
    }
}

/// Writing one field leaves every other field that does not overlap it as it was.
pub proof fn lemma_write_keeps_disjoint(
    bits: u64,
    offset: u32,
    width: u32,
    value: u64,
    other_offset: u32,
    other_width: u32,
)
    requires
        field_fits(offset, width, 64),
        field_fits(other_offset, other_width, 64),
        other_offset + other_width <= offset || offset + width <= other_offset,
    ensures
        field_of(with_field(bits, offset, width, value), other_offset, other_width) == field_of(
            bits,
            other_offset,
            other_width,
        ),
{
    let o: u64 = offset as u64;
    let m: u64 = low_mask(width);
    let p: u64 = other_offset as u64;
    let n: u64 = low_mask(other_width);
    lemma_masks_apart(offset, width, other_offset, other_width);
    let placed: u64 = m << o;
    let moved: u64 = (value & m) << o;
    assert(moved & !placed == 0) by (bit_vector)
        requires
            moved == (value & m) << o,
            placed == m << o,
    ;
    assert((((bits & !placed) | moved) >> p) & n == (bits >> p) & n) by (bit_vector)
        requires
            p < 64,
            moved & !placed == 0,
            (placed >> p) & n == 0,
    ;
}

/// The masks of two fields that do not overlap share no bit.
pub proof fn lemma_masks_apart(offset: u32, width: u32, other_offset: u32, other_width: u32)
    requires
        field_fits(offset, width, 64),
        field_fits(other_offset, other_width, 64),
        other_offset + other_width <= offset || offset + width <= other_offset,
    ensures
        ((low_mask(width) << (offset as u64)) >> (other_offset as u64)) & low_mask(other_width) == 0,
{
    let o: u64 = offset as u64;
    let w: u64 = width as u64;
    let p: u64 = other_offset as u64;
    let v: u64 = other_width as u64;
    let m: u64 = low_mask(width);
    let n: u64 = low_mask(other_width);
    assert(m == if w >= 64 { 0xffff_ffff_ffff_ffffu64 } else { ((1u64 << w) - 1) as u64 });
    assert(n == if v >= 64 { 0xffff_ffff_ffff_ffffu64 } else { ((1u64 << v) - 1) as u64 });
    assert(((m << o) >> p) & n == 0) by (bit_vector)
        requires
            1 <= w,
            1 <= v,
            o + w <= 64,
            p + v <= 64,
            p + v <= o || o + w <= p,
            m == if w >= 64 { 0xffff_ffff_ffff_ffffu64 } else { ((1u64 << w) - 1) as u64 },
            n == if v >= 64 { 0xffff_ffff_ffff_ffffu64 } else { ((1u64 << v) - 1) as u64 },
    ;
}

/// A value that fits the field reads back unchanged after it was written.
pub proof fn lemma_round_trip(bits: u64, offset: u32, width: u32, value: u64)
    requires
        field_fits(offset, width, 64),
        value <= low_mask(width),
    ensures
        field_of(with_field(bits, offset, width, value), offset, width) == value,
{
    lemma_read_after_write(bits, offset, width, value);
    let w: u64 = width as u64;
    let m: u64 = low_mask(width);
    if width < 64 {
        assert(value & m == value) by (bit_vector)
            requires
                1 <= w < 64,
                m == ((1u64 << w) - 1) as u64,
                value <= m,
        ;
    } else {
        assert(value & 0xffff_ffff_ffff_ffffu64 == value) by (bit_vector);
    }
}

} // verus!
