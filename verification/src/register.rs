//! Register-level rules: where an unset property falls back to, which
//! operations an access policy unlocks, and the reset constant.

use vstd::prelude::*;
use crate::model::{Access, Error, Properties};

verus! {

/// The operations that a register's marker type unlocks.
#[derive(Clone, Copy, Debug, PartialEq, Eq, Structural)]
pub enum Capability {
    /// `read` only.
    ReadOnly,
    /// `write`, `write_with_zero` and `reset`.
    WriteOnly,
    /// All of them, and `modify`.
    ReadWrite,
}

/// A register's properties once every level has been consulted.
#[derive(Clone, Copy, Debug, PartialEq, Eq, Structural)]
pub struct Resolved {
    pub width: u32,
    pub access: Access,
    pub reset_value: u64,
    pub reset_mask: u64,
}

/// The first of four settings that is present, from the register outwards.
pub open spec fn first_of<T>(a: Option<T>, b: Option<T>, c: Option<T>, d: Option<T>) -> Option<T> {
    if a.is_some() {
        a
    } else if b.is_some() {
        b
    } else if c.is_some() {
        c
    } else {
        d
    }
}

/// No level sets anything.
pub open spec fn unset() -> Properties {
    Properties { width: None, access: None, reset_value: None, reset_mask: None }
}

/// All ones in a register of `width` bits, for the four widths there are.
pub open spec fn ones(width: u32) -> u64 {
    if width == 8 {
        0xffu64
    } else if width == 16 {
        0xffffu64
    } else if width == 32 {
        0xffff_ffffu64
    } else {
        0xffff_ffff_ffff_ffffu64
    }
}

/// One of the four register widths.
pub open spec fn width_supported(width: u32) -> bool {
    width == 8 || width == 16 || width == 32 || width == 64
}

/// The width that the levels give a register, 32 where none sets one.
pub open spec fn width_from(
    register: Properties,
    cluster: Properties,
    peripheral: Properties,
    device: Properties,
) -> u32 {
    match first_of(register.width, cluster.width, peripheral.width, device.width) {
        Some(w) => w,
        None => 32u32,
    }
}

/// The properties that the levels give a register: for each, the innermost
/// level that sets it; where none does, 32 bits, read-write, reset value 0 and
/// a reset mask of all ones.
pub open spec fn resolved_from(
    register: Properties,
    cluster: Properties,
    peripheral: Properties,
    device: Properties,
) -> Resolved {
    let width = width_from(register, cluster, peripheral, device);
    Resolved {
        width,
        access: match first_of(register.access, cluster.access, peripheral.access, device.access) {
            Some(a) => a,
            None => Access::ReadWrite,
        },
        reset_value: match first_of(
            register.reset_value,
            cluster.reset_value,
            peripheral.reset_value,
            device.reset_value,
        ) {
            Some(v) => v,
            None => 0u64,
        },
        reset_mask: match first_of(
            register.reset_mask,
            cluster.reset_mask,
            peripheral.reset_mask,
            device.reset_mask,
        ) {
            Some(m) => m,
            None => ones(width),
        },
    }
}

fn pick<T: Copy>(a: Option<T>, b: Option<T>, c: Option<T>, d: Option<T>) -> (r: Option<T>)
    ensures
        r == first_of(a, b, c, d),
{
    if a.is_some() {
        a
    } else if b.is_some() {
        b
    } else if c.is_some() {
        c
    } else {
        d
    }
}

/// A level that sets nothing, for a register outside any cluster.
pub fn no_properties() -> (p: Properties)
    ensures
        p == unset(),
{
    Properties { width: None, access: None, reset_value: None, reset_mask: None }
}

/// Applies the defaults to a register: each property comes from the register
/// itself, else its cluster, else its peripheral, else the device, else the
/// built-in default. A width other than 8, 16, 32 or 64 is refused.
pub fn resolve_properties(
    register: &Properties,
    cluster: &Properties,
    peripheral: &Properties,
    device: &Properties,
) -> (r: Result<Resolved, Error>)
    ensures
        width_supported(width_from(*register, *cluster, *peripheral, *device)) ==> r == Ok::<
            Resolved,
            Error,
        >(resolved_from(*register, *cluster, *peripheral, *device)),
        !width_supported(width_from(*register, *cluster, *peripheral, *device)) ==> r == Err::<
            Resolved,
            Error,
        >(Error::UnsupportedWidth(width_from(*register, *cluster, *peripheral, *device))),
{
    let width: u32 = match pick(register.width, cluster.width, peripheral.width, device.width) {
        Some(w) => w,
        None => 32,
    };
    if !(width == 8 || width == 16 || width == 32 || width == 64) {
        return Err(Error::UnsupportedWidth(width));
    }
    let access = match pick(register.access, cluster.access, peripheral.access, device.access) {
        Some(a) => a,
        None => Access::ReadWrite,
    };
    let reset_value: u64 = match pick(
        register.reset_value,
        cluster.reset_value,
        peripheral.reset_value,
        device.reset_value,
    ) {
        Some(v) => v,
        None => 0,
    };
    let reset_mask: u64 = match pick(
        register.reset_mask,
        cluster.reset_mask,
        peripheral.reset_mask,
        device.reset_mask,
    ) {
        Some(m) => m,
        None => all_ones(width),
    };
    Ok(Resolved { width, access, reset_value, reset_mask })
}

/// All ones in a register of `width` bits.
pub fn all_ones(width: u32) -> (m: u64)
    ensures
        m == ones(width),
{
    if width == 8 {
        0xff
    } else if width == 16 {
        0xffff
    } else if width == 32 {
        0xffff_ffff
    } else {
        0xffff_ffff_ffff_ffff
    }
}

/// Whether the access policy lets software read.
pub open spec fn can_read(access: Access) -> bool {
    access == Access::ReadOnly || access == Access::ReadWrite || access == Access::ReadWriteOnce
}

/// Whether the access policy lets software write.
pub open spec fn can_write(access: Access) -> bool {
    access != Access::ReadOnly
}

/// The capability set of an access policy.
pub open spec fn capability_of(access: Access) -> Capability {
    match access {
        Access::ReadOnly => Capability::ReadOnly,
        Access::WriteOnly => Capability::WriteOnly,
        Access::WriteOnce => Capability::WriteOnly,
        Access::ReadWrite => Capability::ReadWrite,
        Access::ReadWriteOnce => Capability::ReadWrite,
    }
}

/// The capability set that a register's marker implements: read-only,
/// write-only or read-write, as the access policy lets software read and write.
pub fn capability(access: Access) -> (c: Capability)
    ensures
        c == capability_of(access),
        (c == Capability::ReadOnly) == (can_read(access) && !can_write(access)),
        (c == Capability::WriteOnly) == (!can_read(access) && can_write(access)),
        (c == Capability::ReadWrite) == (can_read(access) && can_write(access)),
{
    match access {
        Access::ReadOnly => Capability::ReadOnly,
        Access::WriteOnly => Capability::WriteOnly,
        Access::WriteOnce => Capability::WriteOnly,
        Access::ReadWrite => Capability::ReadWrite,
        Access::ReadWriteOnce => Capability::ReadWrite,
    }
}

/// The reset constant of a register: its reset value under its reset mask,
/// for a register that can be written; a read-only register has none.
pub open spec fn reset_of(r: Resolved) -> Option<u64> {
    if can_write(r.access) {
        Some(r.reset_value & r.reset_mask)
    } else {
        None
    }
}

/// The reset constant to emit for a register, if it gets one.
pub fn reset_constant(r: &Resolved) -> (c: Option<u64>)
    ensures
        c == reset_of(*r),
{
    match r.access {
        Access::ReadOnly => None,
        _ => Some(r.reset_value & r.reset_mask),
    }
}

/// The gap, in bytes, between a register of `width` bits at `offset` and the
/// next register at `next`: `None` where the next one starts before this one ends.
pub open spec fn gap_after(offset: u64, width: u32, next: u64) -> Option<u64> {
    if offset as int + (width / 8) as int <= next as int {
        Some((next as int - (offset as int + (width / 8) as int)) as u64)
    } else {
        None
    }
}

/// The number of padding bytes to declare between two registers laid out in
/// address order, or `None` if they overlap.
pub fn padding(offset: u64, width: u32, next: u64) -> (gap: Option<u64>)
    ensures
        gap == gap_after(offset, width, next),
{
    let size: u64 = (width / 8) as u64;
    if next >= size && offset <= next - size {
        Some(next - size - offset)
    } else {
        None
    }
}

/// Every access policy yields exactly one capability set, and that set lets
/// software read or write exactly where the policy does; a reset constant
/// exists exactly for the sets that can write.
pub proof fn lemma_capability_matches_access(r: Resolved)
    ensures
        capability_of(r.access) == Capability::ReadOnly <==> can_read(r.access) && !can_write(
            r.access,
        ),
        capability_of(r.access) == Capability::WriteOnly <==> !can_read(r.access) && can_write(
            r.access,
        ),
        capability_of(r.access) == Capability::ReadWrite <==> can_read(r.access) && can_write(
            r.access,
        ),
        reset_of(r).is_some() <==> capability_of(r.access) != Capability::ReadOnly,
        reset_of(r).is_some() ==> reset_of(r) == Some(r.reset_value & r.reset_mask),
{
}

/// What a derived entity has of a property: its own setting where it has
/// one, else its parent's.
pub open spec fn inherited(child: Properties, parent: Properties) -> Properties {
    Properties {
        width: if child.width.is_some() {
            child.width
        } else {
            parent.width
        },
        access: if child.access.is_some() {
            child.access
        } else {
            parent.access
        },
        reset_value: if child.reset_value.is_some() {
            child.reset_value
        } else {
            parent.reset_value
        },
        reset_mask: if child.reset_mask.is_some() {
            child.reset_mask
        } else {
            parent.reset_mask
        },
    }
}

/// The properties of an entity derived from `parent`: every property that the
/// child sets stays, every other one is copied from the parent.
pub fn inherit(child: &Properties, parent: &Properties) -> (p: Properties)
    ensures
        p == inherited(*child, *parent),
{
    Properties {
        width: if child.width.is_some() {
            child.width
        } else {
            parent.width
        },
        access: if child.access.is_some() {
            child.access
        } else {
            parent.access
        },
        reset_value: if child.reset_value.is_some() {
            child.reset_value
        } else {
            parent.reset_value
        },
        reset_mask: if child.reset_mask.is_some() {
            child.reset_mask
        } else {
            parent.reset_mask
        },
    }
}

/// Deriving and then applying the defaults is applying the defaults with the
/// parent as one more level directly outside the child.
pub proof fn lemma_inherit_then_resolve(
    child: Properties,
    parent: Properties,
    peripheral: Properties,
    device: Properties,
)
    ensures
        resolved_from(inherited(child, parent), unset(), peripheral, device) == resolved_from(
            child,
            parent,
            peripheral,
            device,
        ),
{
}

} // verus!
