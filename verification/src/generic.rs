//! The register facade: capability marks, a volatile register handle, and the
//! reader and writer proxies that every register shares.

use core::marker::PhantomData;
use vstd::prelude::*;
use crate::bits::{extract, field_fits, field_of, insert, with_field};

verus! {

/// A cell whose loads and stores are never elided or reordered by the compiler.
#[verifier::external_type_specification]
#[verifier::external_body]
#[verifier::reject_recursive_types(T)]
pub struct ExVolatileCell<T>(vcell::VolatileCell<T>);

/// `VolatileCell::new` makes a cell around a value. What a volatile cell holds
/// is never stated here, so nothing is claimed of the result.
pub assume_specification<T>[ vcell::VolatileCell::<T>::new ](value: T) -> (cell: vcell::VolatileCell<T>);

/// `VolatileCell::get` performs one volatile load. The cell may sit on a
/// device register, so nothing is claimed of the value that comes back.
pub assume_specification<T>[ vcell::VolatileCell::<T>::get ](cell: &vcell::VolatileCell<T>) -> (value: T)
    where T: Copy;

/// `VolatileCell::set` performs one volatile store. It returns nothing and
/// nothing is claimed of later loads.
pub assume_specification<T>[ vcell::VolatileCell::<T>::set ](cell: &vcell::VolatileCell<T>, value: T)
    where T: Copy;

/// Marks a register that has `read`; together with `Writable` it also has `modify`.
pub trait Readable {}

/// Marks a register that has `write`, `write_with_zero` and `reset`; together
/// with `Readable` it also has `modify`.
pub trait Writable {}

/// The unsigned backing type of a register or field.
pub trait SizeType {
    /// Register or field unsigned size type.
    type Type;
}

impl SizeType for bool {
    type Type = bool;
}

impl SizeType for u8 {
    type Type = u8;
}

impl SizeType for u16 {
    type Type = u16;
}

impl SizeType for u32 {
    type Type = u32;
}

impl SizeType for u64 {
    type Type = u64;
}

/// The value a register holds after reset: the seed of `write`, and what
/// `reset` stores.
pub trait ResetValue: SizeType {
    /// Reset value of the register.
    fn reset_value() -> Self::Type;
}

/// Conversion of an enumerated value to its bit pattern.
pub trait ToBits: SizeType {
    /// Conversion method.
    fn to_bits(&self) -> Self::Type;
}

/// Register or field reader: the bits that one load returned.
pub struct R<T: SizeType> {
    pub(crate) bits: T::Type,
}

impl<T: SizeType> R<T> {
    /// The bits this reader was made from.
    pub closed spec fn raw(&self) -> T::Type {
        self.bits
    }

    /// A reader over `bits`.
    pub fn new(bits: T::Type) -> (r: Self)
        ensures
            r.raw() == bits,
    {
        R { bits }
    }
}

impl<T> R<T> where T: SizeType, T::Type: Copy {
    /// Read raw bits from register/field.
    pub fn bits(&self) -> (bits: T::Type)
        ensures
            bits == self.raw(),
    {
        self.bits
    }
}

/// A reader equals an enumerated value when its bits are the value's bit pattern.
impl<FI> PartialEq<FI> for R<FI> where FI: SizeType + ToBits, FI::Type: PartialEq {
    /// Converts `other` to bits and compares the reader's bits with them: the
    /// result is what the comparison of the backing type gives for the two.
    fn eq(&self, other: &FI) -> (same: bool)
        ensures
            exists|b: FI::Type| #[trigger]
                call_ensures(FI::to_bits, (other,), b) && call_ensures(
                    <FI::Type as PartialEq>::eq,
                    (&self.raw(), &b),
                    same,
                ),
    {
        self.bits.eq(&other.to_bits())
    }
}

/// What `==` between a reader and an enumerated value means in contracts:
/// some conversion of the value to bits compares equal to the reader's bits.
/// The conversion and the comparison belong to the implementer of the
/// value's type and need not be functions of their arguments, so `==` is not
/// promised to agree with this on every call; what one call of `eq` returns
/// is stated on `eq` itself.
impl<FI> vstd::std_specs::cmp::PartialEqSpecImpl<FI> for R<FI> where FI: SizeType + ToBits, FI::Type: PartialEq {
    open spec fn obeys_eq_spec() -> bool {
        false
    }

    open spec fn eq_spec(&self, other: &FI) -> bool {
        exists|b: FI::Type| #[trigger]
            call_ensures(FI::to_bits, (other,), b) && call_ensures(
                <FI::Type as PartialEq>::eq,
                (&self.raw(), &b),
                true,
            )
    }
}

/// Bit access for a field one bit wide.
impl<FI> R<FI> where FI: SizeType<Type = bool> {
    /// Value of the field as raw bits.
    pub fn bit(&self) -> (b: bool)
        ensures
            b == self.raw(),
    {
        self.bits
    }

    /// Returns `true` if the bit is clear (0).
    pub fn bit_is_clear(&self) -> (b: bool)
        ensures
            b == !self.raw(),
    {
        !self.bit()
    }

    /// Returns `true` if the bit is set (1).
    pub fn bit_is_set(&self) -> (b: bool)
        ensures
            b == self.raw(),
    {
        self.bit()
    }
}

/// Register writer: the bits that the next store will carry.
pub struct W<REG: SizeType> {
    /// Writable bits.
    pub bits: REG::Type,
}

impl<REG: SizeType> W<REG> {
    /// Overwrites the pending bits with `bits` and hands the writer back for chaining.
    pub fn bits(&mut self, bits: REG::Type) -> (w: &mut Self)
        ensures
            w.bits == bits,
            *final(self) == *final(w),
    {
        self.bits = bits;
        self
    }
}

/// A field value where the enumerated values do not cover the whole range.
#[derive(Clone, Copy, PartialEq)]
pub enum Variant<FI: SizeType> {
    /// Expected variant.
    Val(FI),
    /// Raw bits.
    Res(FI::Type),
}

/// Volatile access to one memory-mapped register of backing type `U`; `REG`
/// is the marker that carries its capability marks.
#[verifier::reject_recursive_types(U)]
pub struct Reg<U, REG> {
    register: vcell::VolatileCell<U>,
    _marker: PhantomData<REG>,
}

impl<U, REG> SizeType for Reg<U, REG> {
    type Type = U;
}

impl<U, REG> Reg<U, REG> {
    /// A register handle over a fresh cell that starts out holding `initial`.
    pub fn new(initial: U) -> Self {
        Reg { register: vcell::VolatileCell::new(initial), _marker: PhantomData }
    }
}

impl<U, REG> Reg<U, REG> where REG: Readable, U: Copy {
    /// Reads the contents of a `Readable` register with one volatile load.
    pub fn read(&self) -> R<Self> {
        R { bits: self.register.get() }
    }
}

impl<U, REG> Reg<U, REG> where REG: ResetValue<Type = U> + Writable, U: Copy {
    /// Writes the reset value to a `Writable` register.
    pub fn reset(&self) {
        self.register.set(REG::reset_value())
    }

    /// The bits that `write` stores: what `f` leaves in a writer that
    /// started out with the reset value.
    pub fn written<F>(f: F) -> (bits: U) where F: FnOnce(&mut W<Self>) -> &mut W<Self>
        requires
            forall|w: &mut W<Self>|
                call_ensures(REG::reset_value, (), w.bits) ==> call_requires(f, (w,)),
        ensures
            exists|w: &mut W<Self>, out: &mut W<Self>|
                call_ensures(REG::reset_value, (), w.bits) && #[trigger] call_ensures(f, (w,), out)
                    && out.bits == bits,
    {
        let mut w = W { bits: REG::reset_value() };
        let out = f(&mut w);
        out.bits
    }

    /// Hands `f` a writer seeded with the reset value and stores what it
    /// leaves, with one volatile store.
    pub fn write<F>(&self, f: F) where F: FnOnce(&mut W<Self>) -> &mut W<Self>
        requires
            forall|w: &mut W<Self>|
                call_ensures(REG::reset_value, (), w.bits) ==> call_requires(f, (w,)),
    {
        self.register.set(Self::written(f));
    }
}

impl<U, REG> Reg<U, REG> where REG: Writable, U: Copy + Default {
    /// The bits that `write_with_zero` stores: what `f` leaves in a writer
    /// that started out with the default value of the backing type, which is
    /// zero for the unsigned integers.
    pub fn written_from_zero<F>(f: F) -> (bits: U) where F: FnOnce(&mut W<Self>) -> &mut W<Self>
        requires
            forall|w: &mut W<Self>| call_ensures(U::default, (), w.bits) ==> call_requires(f, (w,)),
        ensures
            exists|w: &mut W<Self>, out: &mut W<Self>|
                call_ensures(U::default, (), w.bits) && #[trigger] call_ensures(f, (w,), out)
                    && out.bits == bits,
    {
        let mut w = W { bits: U::default() };
        let out = f(&mut w);
        out.bits
    }

    /// As `write`, but the writer starts from zero whatever the reset value is.
    pub fn write_with_zero<F>(&self, f: F) where F: FnOnce(&mut W<Self>) -> &mut W<Self>
        requires
            forall|w: &mut W<Self>| call_ensures(U::default, (), w.bits) ==> call_requires(f, (w,)),
    {
        self.register.set(Self::written_from_zero(f));
    }
}

impl<U, REG> Reg<U, REG> where REG: Readable + Writable, U: Copy {
    /// The bits that `modify` stores after it loaded `loaded`: what `f`
    /// leaves in a writer that started out with the loaded bits, given a
    /// reader over the same bits.
    pub fn modified<F>(loaded: U, f: F) -> (bits: U) where
        for<'w> F: FnOnce(&R<Self>, &'w mut W<Self>) -> &'w mut W<Self>,
        requires
            forall|r: &R<Self>, w: &mut W<Self>|
                r.raw() == loaded && w.bits == loaded ==> call_requires(f, (r, w)),
        ensures
            exists|r: &R<Self>, w: &mut W<Self>, out: &mut W<Self>|
                r.raw() == loaded && w.bits == loaded && #[trigger] call_ensures(f, (r, w), out)
                    && out.bits == bits,
    {
        let r = R { bits: loaded };
        let mut w = W { bits: loaded };
        let out = f(&r, &mut w);
        out.bits
    }

    /// Loads the register, hands `f` a reader and a writer that both carry the
    /// loaded bits, and stores what `f` leaves in the writer. The load and the
    /// store are two separate accesses: nothing makes the pair atomic.
    pub fn modify<F>(&self, f: F) where
        for<'w> F: FnOnce(&R<Self>, &'w mut W<Self>) -> &'w mut W<Self>,
        requires
            forall|r: &R<Self>, w: &mut W<Self>| r.raw() == w.bits ==> call_requires(f, (r, w)),
    {
        let loaded = self.register.get();
        self.register.set(Self::modified(loaded, f));
    }
}

impl<REG> Reg<u64, REG> where REG: Readable + Writable {
    /// What a field's reader yields from the bits that `modify` loaded: the
    /// bits shifted right by the field's offset and masked to its width.
    pub fn field_read(loaded: u64, offset: u32, width: u32) -> (value: u64)
        requires
            field_fits(offset, width, 64),
        ensures
            value == field_of(loaded, offset, width),
    {
        let r: R<Self> = R { bits: loaded };
        extract(r.bits(), offset, width)
    }

    /// The bits that `modify` stores when its closure sets one field to
    /// `value` with the field's writer: the loaded bits with the field
    /// cleared and the masked value shifted into its place, and every bit
    /// outside the field as it was loaded.
    pub fn field_modified(loaded: u64, offset: u32, width: u32, value: u64) -> (bits: u64)
        requires
            field_fits(offset, width, 64),
        ensures
            bits == with_field(loaded, offset, width, value),
    {
        let ghost fits: bool = field_fits(offset, width, 64);
        let ghost stored: u64 = with_field(loaded, offset, width, value);
        Self::modified(
            loaded,
            (|r: &R<Self>, w: &mut W<Self>| -> (out: &mut W<Self>)
                requires
                    fits,
                    w.bits == loaded,
                ensures
                    out.bits == stored,
                {
                    let next: u64 = insert(w.bits, offset, width, value);
                    w.bits(next)
                }),
        )
    }
}

} // verus!
