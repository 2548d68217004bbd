//! The rules that the fields of one register must meet.

use vstd::prelude::*;
use crate::bits::{low_mask, mask};
use crate::model::{Access, EnumeratedValue, Error, Field};
use crate::register::{can_read, can_write};

verus! {

/// The field is not empty and ends within the register.
pub open spec fn in_bounds(f: Field, reg_width: u32) -> bool {
    1 <= f.width && f.offset as int + f.width as int <= reg_width as int
}

/// Every enumerated value of the field fits its width.
pub open spec fn values_fit(f: Field) -> bool {
    match f.values {
        Some(values) => forall|k: int|
            0 <= k < values@.len() ==> (#[trigger] values@[k]).value <= low_mask(f.width),
        None => true,
    }
}

/// The two fields share a bit.
pub open spec fn overlapping(a: Field, b: Field) -> bool {
    (a.offset as int) < b.offset as int + b.width as int && (b.offset as int) < a.offset as int
        + a.width as int
}

/// The two fields share a bit and neither is declared an alternate.
pub open spec fn clash(a: Field, b: Field) -> bool {
    overlapping(a, b) && !a.alternate && !b.alternate
}

/// The fields of a register of `reg_width` bits are in order: each in bounds,
/// each with values that fit, and no two clashing.
pub open spec fn fields_valid(fields: Seq<Field>, reg_width: u32) -> bool {
    &&& forall|i: int| 0 <= i < fields.len() ==> in_bounds(#[trigger] fields[i], reg_width)
    &&& forall|i: int| 0 <= i < fields.len() ==> values_fit(#[trigger] fields[i])
    &&& forall|i: int, j: int|
        0 <= i < j < fields.len() ==> !clash(#[trigger] fields[i], #[trigger] fields[j])
}

/// The error names a rule that the fields break, and where: a field out of
/// bounds, a field with a value too wide for it, or two fields that clash.
pub open spec fn breaks(fields: Seq<Field>, reg_width: u32, e: Error) -> bool {
    match e {
        Error::OutOfBounds(i) => i < fields.len() && !in_bounds(fields[i as int], reg_width),
        Error::ValueTooWide(i) => i < fields.len() && !values_fit(fields[i as int]),
        Error::Overlap(i, j) => i < j < fields.len() && clash(fields[i as int], fields[j as int]),
        _ => false,
    }
}

/// The error is the first that a left-to-right check meets: every field
/// before the one it names is in order with those before it, and of that
/// field the bounds are looked at first, then the values, then the clashes
/// with earlier fields from the left.
pub open spec fn first_break(fields: Seq<Field>, reg_width: u32, e: Error) -> bool {
    &&& breaks(fields, reg_width, e)
    &&& match e {
        Error::OutOfBounds(j) => fields_valid(fields.take(j as int), reg_width),
        Error::ValueTooWide(j) => fields_valid(fields.take(j as int), reg_width) && in_bounds(
            fields[j as int],
            reg_width,
        ),
        Error::Overlap(i, j) => {
            &&& fields_valid(fields.take(j as int), reg_width)
            &&& in_bounds(fields[j as int], reg_width)
            &&& values_fit(fields[j as int])
            &&& forall|k: int| 0 <= k < i ==> !clash(#[trigger] fields[k], fields[j as int])
        },
        _ => false,
    }
}

/// Whether every enumerated value of `f` fits the field's width.
pub fn check_values(f: &Field) -> (r: bool)
    ensures
        r == values_fit(*f),
{
    if f.width >= 64 {
        assert(low_mask(f.width) == u64::MAX);
        return true;
    }
    let limit: u64 = mask(f.width);
    match &f.values {
        Some(values) => {
            let mut k: usize = 0;
            while k < values.len()
                invariant
                    k <= values@.len(),
                    limit == low_mask(f.width),
                    f.values == Some(*values),
                    forall|m: int| 0 <= m < k ==> (#[trigger] values@[m]).value <= limit,
                decreases values@.len() - k,
            {
                let v: &EnumeratedValue = &values[k];
                if v.value > limit {
                    assert(f.values.unwrap()@[k as int].value > low_mask(f.width));
                    assert(!values_fit(*f));
                    return false;
                }
                k += 1;
            }
            true
        },
        None => true,
    }
}

/// Whether two fields share a bit and neither is an alternate.
pub fn clashing(a: &Field, b: &Field) -> (r: bool)
    ensures
        r == clash(*a, *b),
{
    let a_end: u64 = a.offset as u64 + a.width as u64;
    let b_end: u64 = b.offset as u64 + b.width as u64;
    (a.offset as u64) < b_end && (b.offset as u64) < a_end && !a.alternate && !b.alternate
}

/// Checks the fields of a register of `reg_width` bits from left to right.
/// The fields pass exactly when each is in bounds, each has only values that
/// fit, and no two clash; otherwise the error names the first field, or
/// pair, that breaks a rule.
pub fn check_fields(fields: &Vec<Field>, reg_width: u32) -> (r: Result<(), Error>)
    ensures
        match r {
            Ok(_) => fields_valid(fields@, reg_width),
            Err(e) => first_break(fields@, reg_width, e),
        },
{
    let mut j: usize = 0;
    while j < fields.len()
        invariant
            j <= fields@.len(),
            fields_valid(fields@.take(j as int), reg_width),
        decreases fields@.len() - j,
    {
        let f: &Field = &fields[j];
        if f.width < 1 || f.offset as u64 + f.width as u64 > reg_width as u64 {
            return Err(Error::OutOfBounds(j));
        }
        if !check_values(f) {
            return Err(Error::ValueTooWide(j));
        }
        let mut i: usize = 0;
        while i < j
            invariant
                i <= j,
                j < fields@.len(),
                *f == fields@[j as int],
                fields_valid(fields@.take(j as int), reg_width),
                in_bounds(*f, reg_width),
                values_fit(*f),
                forall|k: int| 0 <= k < i ==> !clash(#[trigger] fields@[k], fields@[j as int]),
            decreases j - i,
        {
            if clashing(&fields[i], f) {
                return Err(Error::Overlap(i, j));
            }
            i += 1;
        }
        proof {
            let before = fields@.take(j as int);
            let after = fields@.take(j + 1);
            assert forall|k: int| 0 <= k < after.len() implies in_bounds(
                #[trigger] after[k],
                reg_width,
            ) && values_fit(after[k]) by {
                if k < j {
                    assert(after[k] == before[k]);
                }
            }
            assert forall|a: int, b: int| 0 <= a < b < after.len() implies !clash(
                #[trigger] after[a],
                #[trigger] after[b],
            ) by {
                assert(after[a] == fields@[a]);
                if b < j {
                    assert(after[a] == before[a]);
                    assert(after[b] == before[b]);
                }
            }
        }
        j += 1;
    }
    assert(fields@.take(j as int) =~= fields@);
    Ok(())
}

/// What the reader accessor of a field returns.
#[derive(Clone, Copy, Debug, PartialEq, Eq, Structural)]
pub enum ReaderKind {
    /// A `bool`, for a field one bit wide without enumerated values.
    Bit,
    /// The raw bits, for a wider field without enumerated values.
    Raw,
    /// The enumeration itself: its values cover every pattern.
    Enumerated,
    /// Either a known value or the raw bits: the values leave patterns out.
    Partial,
}

/// Two to the power `width`, for widths under 64.
pub open spec fn patterns(width: u32) -> int {
    low_mask(width) + 1
}

/// The values of the field enumerate as many patterns as its width has.
pub open spec fn total(f: Field) -> bool {
    match f.values {
        Some(values) => f.width < 64 && values@.len() == patterns(f.width),
        None => false,
    }
}

/// The kind of reader that the field gets.
pub open spec fn reader_of(f: Field) -> ReaderKind {
    if f.values.is_some() {
        if total(f) {
            ReaderKind::Enumerated
        } else {
            ReaderKind::Partial
        }
    } else if f.width == 1 {
        ReaderKind::Bit
    } else {
        ReaderKind::Raw
    }
}

/// Whether the enumerated values of the field are as many as the patterns of
/// its width.
pub fn covers_all(f: &Field) -> (r: bool)
    ensures
        r == total(*f),
{
    match &f.values {
        Some(values) => {
            if f.width >= 64 {
                return false;
            }
            let top: u64 = mask(f.width);
            let count: usize = values.len();
            count >= 1 && (count - 1) as u64 == top
        },
        None => false,
    }
}

/// Chooses the reader of a field: the enumeration where its values cover the
/// whole range, a known-or-raw sum where they cover a part, and without
/// values a `bool` for one bit and the raw bits for more.
pub fn reader_kind(f: &Field) -> (k: ReaderKind)
    ensures
        k == reader_of(*f),
{
    if f.values.is_some() {
        if covers_all(f) {
            ReaderKind::Enumerated
        } else {
            ReaderKind::Partial
        }
    } else if f.width == 1 {
        ReaderKind::Bit
    } else {
        ReaderKind::Raw
    }
}

/// Whether the raw setter of a field is safe to call: it is where the field
/// fills a whole integer type, so that every value of that type is a value of
/// the field.
pub fn raw_write_is_safe(width: u32) -> (safe: bool)
    ensures
        safe == (width == 8 || width == 16 || width == 32 || width == 64),
{
    width == 8 || width == 16 || width == 32 || width == 64
}

/// Whether the accessors of a field need no mask: they do not where the field
/// is as wide as its register.
pub fn mask_elided(width: u32, reg_width: u32) -> (elided: bool)
    ensures
        elided == (width == reg_width),
{
    width == reg_width
}

/// The field's own access policy lets software do something that the
/// register's does not: read where the register cannot be read, or write
/// where it cannot be written.
pub open spec fn broader(field: Access, register: Access) -> bool {
    (can_read(field) && !can_read(register)) || (can_write(field) && !can_write(register))
}

/// Whether a field's access is broader than its register's. What such a field
/// means is left open, so this is to be reported and not resolved.
pub fn access_is_broader(field: Access, register: Access) -> (r: bool)
    ensures
        r == broader(field, register),
{
    let field_reads = match field {
        Access::ReadOnly | Access::ReadWrite | Access::ReadWriteOnce => true,
        _ => false,
    };
    let register_reads = match register {
        Access::ReadOnly | Access::ReadWrite | Access::ReadWriteOnce => true,
        _ => false,
    };
    let field_writes = match field {
        Access::ReadOnly => false,
        _ => true,
    };
    let register_writes = match register {
        Access::ReadOnly => false,
        _ => true,
    };
    (field_reads && !register_reads) || (field_writes && !register_writes)
}

} // verus!
