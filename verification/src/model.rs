//! The device tree that generation works on: a device, its peripherals, their
//! registers and fields. Names are ASCII byte strings.

use vstd::prelude::*;

verus! {

/// The architecture that the produced library is for.
#[derive(Clone, Copy, Debug, PartialEq, Eq, Structural)]
pub enum Target {
    CortexM,
    Msp430,
    RISCV,
    /// No particular architecture: no runtime crate and no critical section.
    Bare,
}

/// The access policy of a register or field.
#[derive(Clone, Copy, Debug, PartialEq, Eq, Structural)]
pub enum Access {
    ReadOnly,
    WriteOnly,
    ReadWrite,
    WriteOnce,
    ReadWriteOnce,
}

/// The four properties that a register may leave to an enclosing level.
#[derive(Clone, Copy, Debug, PartialEq, Eq, Structural)]
pub struct Properties {
    pub width: Option<u32>,
    pub access: Option<Access>,
    pub reset_value: Option<u64>,
    pub reset_mask: Option<u64>,
}

/// A repetition: `count` copies, `increment` bytes apart, named by the index
/// strings if there are any and by decimal numbers otherwise.
#[derive(Clone, Debug)]
pub struct Dim {
    pub count: u32,
    pub increment: u64,
    pub indexes: Option<Vec<Vec<u8>>>,
}

/// One enumerated value of a field.
#[derive(Clone, Debug)]
pub struct EnumeratedValue {
    pub name: Vec<u8>,
    pub value: u64,
}

/// A contiguous range of bits in a register.
#[derive(Clone, Debug)]
pub struct Field {
    pub name: Vec<u8>,
    pub offset: u32,
    pub width: u32,
    pub access: Option<Access>,
    pub values: Option<Vec<EnumeratedValue>>,
    /// Whether the field is declared as an alternate view of bits that
    /// another field also names.
    pub alternate: bool,
}

/// A register as the description gives it, before defaults are applied.
#[derive(Clone, Debug)]
pub struct Register {
    pub name: Vec<u8>,
    pub offset: u64,
    pub properties: Properties,
    pub fields: Vec<Field>,
    pub dim: Option<Dim>,
    pub derived_from: Option<Vec<u8>>,
}

/// One interrupt line of a peripheral.
#[derive(Clone, Debug)]
pub struct Interrupt {
    pub name: Vec<u8>,
    pub number: u16,
}

/// A block of registers at a base address.
#[derive(Clone, Debug)]
pub struct Peripheral {
    pub name: Vec<u8>,
    pub base_address: u64,
    pub derived_from: Option<Vec<u8>>,
    pub registers: Option<Vec<Register>>,
    pub interrupts: Vec<Interrupt>,
    pub defaults: Properties,
    pub dim: Option<Dim>,
}

/// What the description says of the processor core.
#[derive(Clone, Copy, Debug, PartialEq, Eq, Structural)]
pub struct Cpu {
    pub nvic_priority_bits: u32,
    pub fpu_present: bool,
}

/// A whole microcontroller.
#[derive(Clone, Debug)]
pub struct Device {
    pub name: Vec<u8>,
    pub cpu: Option<Cpu>,
    pub peripherals: Vec<Peripheral>,
    pub defaults: Properties,
}

/// Why generation stops.
#[derive(Clone, Copy, Debug, PartialEq, Eq, Structural)]
pub enum Error {
    /// The peripheral at this index derives from a name that no peripheral has.
    MissingParent(usize),
    /// Following the derivations from the peripheral at this index never ends.
    DerivationCycle(usize),
    /// The names at these two indices sanitise to the same identifier.
    Collision(usize, usize),
    /// The fields at these two indices share bits and neither is an alternate.
    Overlap(usize, usize),
    /// The field at this index is empty or reaches past the register's width.
    OutOfBounds(usize),
    /// An enumerated value of the field at this index does not fit the field.
    ValueTooWide(usize),
    /// Two interrupts with this number have different names.
    InterruptConflict(u16),
    /// The register width is none of 8, 16, 32 and 64.
    UnsupportedWidth(u32),
    /// A repetition reaches past the end of the address space.
    AddressOverflow,
}

} // verus!
