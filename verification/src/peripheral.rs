//! What is needed to emit one peripheral: whose register block it uses, and
//! how that block is laid out.

use vstd::prelude::*;
use crate::derivation::{block_owner, marker_owner, owner};
use crate::field::{breaks, check_fields, fields_valid};
use crate::expand::{expand_registers, expanded, shapes, too_far, Handle};
use crate::layout::{block_layout, is_order, register_widths, slots, widths_of, Slot};
use crate::model::{Error, Peripheral, Properties, Register};
use crate::register::width_supported;

verus! {

/// The register block behind a peripheral.
#[derive(Debug)]
pub struct BlockPlan {
    /// The peripheral that owns the block; the peripheral itself unless it is derived.
    pub owner: usize,
    /// The registers of the block, each repeated one replaced by its copies.
    pub entries: Vec<Handle>,
    /// The expanded registers in emission order.
    pub order: Vec<usize>,
    /// The members of the block: registers and padding.
    pub slots: Vec<Slot>,
}

/// The registers of a peripheral; none where it describes no block.
pub open spec fn registers_of(p: Peripheral) -> Seq<Register> {
    match p.registers {
        Some(registers) => registers@,
        None => Seq::empty(),
    }
}

/// `plan` is the block of the peripheral `o` of `ps`: its registers all have a
/// supported width and valid fields, and are ordered and padded as the
/// layout rules say.
pub open spec fn is_block(ps: Seq<Peripheral>, device: Properties, o: usize, plan: BlockPlan) -> bool {
    let rs = registers_of(ps[o as int]);
    let widths = widths_of(rs, ps[o as int].defaults, device);
    &&& plan.owner == o
    &&& shapes(plan.entries@) == expanded(rs, rs.len() as int)
    &&& is_order(plan.entries@, plan.order@, plan.entries@.len() as int)
    &&& plan.slots@ == slots(plan.entries@, widths, plan.order@, plan.entries@.len() as int)
    &&& block_ok(ps, device, o)
}

/// The block of the peripheral `o` of `ps` cannot be emitted, and `e` says
/// why: a register has a width that is not supported, fields that break a
/// rule, a copy past the end of the address space, or a derivation that does
/// not resolve.
pub open spec fn block_fails(ps: Seq<Peripheral>, device: Properties, o: usize, e: Error) -> bool {
    let rs = registers_of(ps[o as int]);
    let widths = widths_of(rs, ps[o as int].defaults, device);
    exists|r: int|
        0 <= r < rs.len() && (e == Error::UnsupportedWidth(#[trigger] widths[r]) && !width_supported(
            widths[r],
        ) || breaks(rs[r].fields@, widths[r], e) || (e == Error::AddressOverflow && too_far(rs[r]))
            || owner(rs, r as usize, rs.len()) == Err::<usize, Error>(e))
}

/// The registers of the block of peripheral `o` all have a supported width
/// and valid fields, every copy of a repeated one lies within the address
/// space, and the derivation of every derived one resolves among them.
pub open spec fn block_ok(ps: Seq<Peripheral>, device: Properties, o: usize) -> bool {
    let rs = registers_of(ps[o as int]);
    let widths = widths_of(rs, ps[o as int].defaults, device);
    forall|r: int|
        0 <= r < rs.len() ==> width_supported(#[trigger] widths[r]) && fields_valid(
            rs[r].fields@,
            widths[r],
        ) && !too_far(rs[r]) && owner(rs, r as usize, rs.len()).is_ok()
}

/// The peripheral at `index` can be emitted: its derivation resolves, and the
/// block it resolves to is in order.
pub open spec fn plan_ok(ps: Seq<Peripheral>, device: Properties, index: usize) -> bool {
    match owner(ps, index, ps.len()) {
        Ok(o) => block_ok(ps, device, o),
        Err(_) => false,
    }
}

/// The peripheral at `index` cannot be emitted, and `e` says why: it is the
/// error of its derivation, or one of the block that it resolves to.
pub open spec fn plan_fails(ps: Seq<Peripheral>, device: Properties, index: usize, e: Error) -> bool {
    match owner(ps, index, ps.len()) {
        Ok(o) => block_fails(ps, device, o, e),
        Err(first) => e == first,
    }
}

/// The errors that stop the plan of a block.
pub open spec fn block_error(e: Error) -> bool {
    match e {
        Error::MissingParent(_) => true,
        Error::DerivationCycle(_) => true,
        Error::UnsupportedWidth(_) => true,
        Error::OutOfBounds(_) => true,
        Error::ValueTooWide(_) => true,
        Error::Overlap(_, _) => true,
        Error::AddressOverflow => true,
        _ => false,
    }
}

/// Plans the register block of the peripheral at `index`: resolves its
/// derivation to the peripheral that owns the block, applies the defaults to
/// that peripheral's registers, checks their fields, replaces every repeated
/// register by its copies, and lays the copies out. It
/// succeeds exactly when the derivation resolves and every register of the
/// owner has a supported width and valid fields.
pub fn plan_block(ps: &Vec<Peripheral>, index: usize, device: &Properties) -> (r: Result<
    BlockPlan,
    Error,
>)
    requires
        index < ps@.len(),
    ensures
        match r {
            Ok(plan) => owner(ps@, index, ps@.len()) == Ok::<usize, Error>(plan.owner) && is_block(
                ps@,
                *device,
                plan.owner,
                plan,
            ),
            Err(e) => plan_fails(ps@, *device, index, e) && block_error(e),
        },
        r.is_ok() <==> plan_ok(ps@, *device, index),
{
    let o = match block_owner(ps, index) {
        Ok(o) => o,
        Err(e) => {
            return Err(e);
        },
    };
    let p: &Peripheral = &ps[o];
    match &p.registers {
        None => {
            let plan = BlockPlan {
                owner: o,
                entries: Vec::new(),
                order: Vec::new(),
                slots: Vec::new(),
            };
            assert(shapes(plan.entries@) =~= expanded(registers_of(ps@[o as int]), 0));
            assert(plan.slots@ =~= slots(
                plan.entries@,
                widths_of(registers_of(ps@[o as int]), ps@[o as int].defaults, *device),
                plan.order@,
                0,
            ));
            Ok(plan)
        },
        Some(rs) => {
            assert(registers_of(ps@[o as int]) == rs@);
            let widths = match register_widths(rs, &p.defaults, device) {
                Ok(widths) => widths,
                Err(e) => {
                    proof {
                        lemma_width_fails(ps@, *device, o, e);
                    }
                    return Err(e);
                },
            };
            let mut r: usize = 0;
            while r < rs.len()
                invariant
                    r <= rs@.len(),
                    o < ps@.len(),
                    owner(ps@, index, ps@.len()) == Ok::<usize, Error>(o),
                    *p == ps@[o as int],
                    p.registers == Some(*rs),
                    widths@ == widths_of(rs@, p.defaults, *device),
                    forall|k: int|
                        0 <= k < r ==> fields_valid(#[trigger] rs@[k].fields@, widths@[k]) && owner(
                            rs@,
                            k as usize,
                            rs@.len(),
                        ).is_ok(),
                decreases rs@.len() - r,
            {
                match check_fields(&rs[r].fields, widths[r]) {
                    Ok(_) => {},
                    Err(e) => {
                        assert(breaks(rs@[r as int].fields@, widths@[r as int], e));
                        assert(block_fails(ps@, *device, o, e));
                        return Err(e);
                    },
                }
                match marker_owner(rs, r) {
                    Ok(_) => {},
                    Err(e) => {
                        let ghost w = widths@[r as int];
                        assert(owner(rs@, r, rs@.len()) == Err::<usize, Error>(e));
                        assert(block_fails(ps@, *device, o, e));
                        return Err(e);
                    },
                }
                r += 1;
            }
            let entries = match expand_registers(rs) {
                Ok(entries) => entries,
                Err(e) => {
                    proof {
                        let i = choose|i: int| 0 <= i < rs@.len() && too_far(#[trigger] rs@[i]);
                        let w = widths_of(rs@, p.defaults, *device)[i];
                        assert(too_far(registers_of(ps@[o as int])[i]));
                        assert(block_fails(ps@, *device, o, e));
                    }
                    return Err(e);
                },
            };
            let (order, slots) = block_layout(&entries, &widths);
            Ok(BlockPlan { owner: o, entries, order, slots })
        },
    }
}

/// A register of the block with an unsupported width makes the block fail
/// with that width.
proof fn lemma_width_fails(ps: Seq<Peripheral>, device: Properties, o: usize, e: Error)
    requires
        match e {
            Error::UnsupportedWidth(w) => exists|i: int|
                0 <= i < registers_of(ps[o as int]).len() && #[trigger] widths_of(
                    registers_of(ps[o as int]),
                    ps[o as int].defaults,
                    device,
                )[i] == w && !width_supported(w),
            _ => false,
        },
    ensures
        block_fails(ps, device, o, e),
{
    let rs = registers_of(ps[o as int]);
    let widths = widths_of(rs, ps[o as int].defaults, device);
    match e {
        Error::UnsupportedWidth(w) => {
            let i = choose|i: int| 0 <= i < rs.len() && #[trigger] widths[i] == w && !width_supported(w);
            assert(e == Error::UnsupportedWidth(widths[i]) && !width_supported(widths[i]));
        },
        _ => {},
    }
}

} // verus!
