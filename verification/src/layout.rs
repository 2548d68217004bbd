//! The layout of a register block: registers in address order, with padding
//! declared wherever two neighbours leave a gap.

use vstd::prelude::*;
use crate::expand::Handle;
use crate::model::{Error, Properties, Register};
use crate::derivation::{find_named, first_named, Derivable};
use crate::register::{
    gap_after, inherit, inherited, no_properties, padding, resolve_properties, unset, width_from,
    width_supported,
};

verus! {

/// One member of a register block.
#[derive(Clone, Copy, Debug, PartialEq, Eq, Structural)]
pub enum Slot {
    /// The register at this index of the block's expanded list.
    Register(usize),
    /// This many bytes that belong to no register.
    Padding(u64),
}

/// Of the expanded registers `rs`, `i` is emitted before `j`: it lies at a lower offset,
/// or at the same offset and earlier in the document.
pub open spec fn before(rs: Seq<Handle>, i: usize, j: usize) -> bool {
    rs[i as int].address < rs[j as int].address || (rs[i as int].address == rs[j as int].address && i
        < j)
}

/// `order` lists the first `n` registers of `rs`, each once, in emission order.
pub open spec fn is_order(rs: Seq<Handle>, order: Seq<usize>, n: int) -> bool {
    &&& order.len() == n
    &&& forall|a: int| 0 <= a < order.len() ==> (#[trigger] order[a] as int) < n
    &&& forall|i: usize| (i as int) < n ==> #[trigger] order.contains(i)
    &&& forall|a: int, b: int|
        0 <= a < b < order.len() ==> before(rs, #[trigger] order[a], #[trigger] order[b])
}

/// The order in which the registers of a block are emitted: by address
/// offset, and in document order where offsets are equal.
pub fn emission_order(rs: &Vec<Handle>) -> (order: Vec<usize>)
    ensures
        is_order(rs@, order@, rs@.len() as int),
{
    let mut order: Vec<usize> = Vec::new();
    let mut k: usize = 0;
    while k < rs.len()
        invariant
            k <= rs@.len(),
            is_order(rs@, order@, k as int),
        decreases rs@.len() - k,
    {
        let mut pos: usize = 0;
        while pos < order.len() && rs[order[pos]].address <= rs[k].address
            invariant
                k < rs@.len(),
                pos <= order@.len(),
                is_order(rs@, order@, k as int),
                forall|a: int|
                    0 <= a < pos ==> rs@[#[trigger] order@[a] as int].address <= rs@[k as int].address,
            decreases order@.len() - pos,
        {
            pos += 1;
        }
        let ghost old_order = order@;
        order.insert(pos, k);
        proof {
            let new_order = order@;
            assert(new_order.len() == k + 1);
            assert forall|a: int| 0 <= a < new_order.len() implies (#[trigger] new_order[a] as int)
                < k + 1 by {
                if a < pos {
                    assert(new_order[a] == old_order[a]);
                } else if a > pos {
                    assert(new_order[a] == old_order[a - 1]);
                }
            }
            assert forall|i: usize| (i as int) < k + 1 implies #[trigger] new_order.contains(i) by {
                if i == k {
                    assert(new_order[pos as int] == k);
                } else {
                    assert(old_order.contains(i));
                    let a = choose|a: int| 0 <= a < old_order.len() && old_order[a] == i;
                    if a < pos {
                        assert(new_order[a] == i);
                    } else {
                        assert(new_order[a + 1] == i);
                    }
                }
            }
            assert forall|a: int, b: int| 0 <= a < b < new_order.len() implies before(
                rs@,
                #[trigger] new_order[a],
                #[trigger] new_order[b],
            ) by {
                let x = if a < pos {
                    a
                } else {
                    a - 1
                };
                let y = if b < pos {
                    b
                } else {
                    b - 1
                };
                if a != pos {
                    assert(new_order[a] == old_order[x]);
                }
                if b != pos {
                    assert(new_order[b] == old_order[y]);
                }
                if a == pos {
                    assert(new_order[a] == k);
                    if pos < old_order.len() {
                        assert(rs@[old_order[pos as int] as int].address > rs@[k as int].address);
                        if y > pos {
                            assert(before(rs@, old_order[pos as int], old_order[y]));
                        }
                    }
                } else if b == pos {
                    assert(new_order[b] == k);
                    assert(rs@[old_order[x] as int].address <= rs@[k as int].address);
                    assert((old_order[x] as int) < k);
                } else {
                    assert(before(rs@, old_order[x], old_order[y]));
                }
            }
        }
        k += 1;
    }
    order
}

/// The members of the block up to the `n`-th register of `order`: each
/// register in turn, after the padding that fills the gap since the last one
/// ended, or since the start of the block. `widths` holds the width of each
/// register of the description, which all its copies share. Where a register starts before
/// the last one ends, as alternates do, no padding stands between them.
pub open spec fn slots(rs: Seq<Handle>, widths: Seq<u32>, order: Seq<usize>, n: int) -> Seq<Slot>
    decreases n,
{
    if n <= 0 {
        Seq::empty()
    } else {
        let this = order[n - 1];
        let gap = if n == 1 {
            Some(rs[this as int].address)
        } else {
            gap_after(
                rs[order[n - 2] as int].address,
                widths[rs[order[n - 2] as int].source as int],
                rs[this as int].address,
            )
        };
        let head = slots(rs, widths, order, n - 1);
        match gap {
            Some(bytes) => if bytes > 0 {
                head.push(Slot::Padding(bytes)).push(Slot::Register(this))
            } else {
                head.push(Slot::Register(this))
            },
            None => head.push(Slot::Register(this)),
        }
    }
}

/// The properties of the register at `index` after derivation, following at
/// most `fuel` derivations: its own settings, and for each one that it leaves
/// open what the register it derives from has, which may itself derive. A
/// register whose parent is not among its siblings has its own settings only.
pub open spec fn effective(rs: Seq<Register>, index: usize, fuel: nat) -> Properties
    decreases fuel,
{
    match rs[index as int].parent_of() {
        None => rs[index as int].properties,
        Some(parent) => if fuel == 0 {
            rs[index as int].properties
        } else {
            match first_named(rs, parent, 0) {
                None => rs[index as int].properties,
                Some(next) => inherited(
                    rs[index as int].properties,
                    effective(rs, next, (fuel - 1) as nat),
                ),
            }
        },
    }
}

/// The properties of the register at `index` after derivation.
pub fn effective_properties(rs: &Vec<Register>, index: usize, fuel: usize) -> (p: Properties)
    requires
        index < rs@.len(),
    ensures
        p == effective(rs@, index, fuel as nat),
    decreases fuel,
{
    match rs[index].parent() {
        None => rs[index].properties,
        Some(parent) => {
            if fuel == 0 {
                return rs[index].properties;
            }
            match find_named(rs, parent) {
                None => rs[index].properties,
                Some(next) => {
                    let above = effective_properties(rs, next, fuel - 1);
                    inherit(&rs[index].properties, &above)
                },
            }
        },
    }
}

/// The width of each register of a block once derivation and the defaults
/// are applied.
pub open spec fn widths_of(rs: Seq<Register>, peripheral: Properties, device: Properties) -> Seq<u32> {
    Seq::new(
        rs.len(),
        |i: int| width_from(effective(rs, i as usize, rs.len()), unset(), peripheral, device),
    )
}

/// Applies derivation and the defaults to the width of each register of a
/// block. The first
/// register whose width is none of 8, 16, 32 and 64 stops it.
pub fn register_widths(rs: &Vec<Register>, peripheral: &Properties, device: &Properties) -> (r:
    Result<Vec<u32>, Error>)
    ensures
        match r {
            Ok(widths) => widths@ == widths_of(rs@, *peripheral, *device) && forall|i: int|
                0 <= i < widths@.len() ==> width_supported(#[trigger] widths@[i]),
            Err(Error::UnsupportedWidth(w)) => exists|i: int|
                0 <= i < rs@.len() && #[trigger] widths_of(rs@, *peripheral, *device)[i] == w
                    && !width_supported(w),
            Err(_) => false,
        },
{
    let none = no_properties();
    let mut widths: Vec<u32> = Vec::new();
    let mut i: usize = 0;
    while i < rs.len()
        invariant
            i <= rs@.len(),
            none == unset(),
            widths@.len() == i,
            forall|k: int|
                0 <= k < i ==> #[trigger] widths@[k] == widths_of(rs@, *peripheral, *device)[k]
                    && width_supported(widths@[k]),
        decreases rs@.len() - i,
    {
        let own = effective_properties(rs, i, rs.len());
        match resolve_properties(&own, &none, peripheral, device) {
            Ok(resolved) => {
                widths.push(resolved.width);
            },
            Err(e) => {
                assert(!width_supported(widths_of(rs@, *peripheral, *device)[i as int]));
                return Err(e);
            },
        }
        i += 1;
    }
    assert(widths@ =~= widths_of(rs@, *peripheral, *device));
    Ok(widths)
}

/// Lays out a register block: the expanded registers in emission order, with
/// `next offset - (previous offset + previous width / 8)` bytes of padding
/// between neighbours that leave a gap. `widths` holds the resolved width of
/// each register of the description.
pub fn block_layout(rs: &Vec<Handle>, widths: &Vec<u32>) -> (r: (Vec<usize>, Vec<Slot>))
    requires
        forall|j: int| 0 <= j < rs@.len() ==> (#[trigger] rs@[j]).source < widths@.len(),
    ensures
        is_order(rs@, r.0@, rs@.len() as int),
        r.1@ == slots(rs@, widths@, r.0@, rs@.len() as int),
{
    let order = emission_order(rs);
    let mut out: Vec<Slot> = Vec::new();
    let mut n: usize = 0;
    while n < order.len()
        invariant
            n <= order@.len(),
            forall|j: int| 0 <= j < rs@.len() ==> (#[trigger] rs@[j]).source < widths@.len(),
            is_order(rs@, order@, rs@.len() as int),
            out@ == slots(rs@, widths@, order@, n as int),
        decreases order@.len() - n,
    {
        let this: usize = order[n];
        let gap: Option<u64> = if n == 0 {
            Some(rs[this].address)
        } else {
            let last: usize = order[n - 1];
            padding(rs[last].address, widths[rs[last].source], rs[this].address)
        };
        match gap {
            Some(bytes) => {
                if bytes > 0 {
                    out.push(Slot::Padding(bytes));
                }
            },
            None => {},
        }
        out.push(Slot::Register(this));
        n += 1;
    }
    (order, out)
}

} // verus!
