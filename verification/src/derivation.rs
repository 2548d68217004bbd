//! Derivation: an entity that names a parent among its siblings uses what
//! the parent has. A derived peripheral uses its parent's register block, a
//! derived register its parent's marker type; the parent may itself be derived.

use vstd::prelude::*;
use crate::ident::same_bytes;
use crate::model::{Error, Peripheral, Register};

verus! {

/// Something that has a name and may be derived from a sibling by name.
pub trait Derivable {
    /// The entity's name.
    spec fn name_of(&self) -> Seq<u8>;

    /// The name of the sibling that the entity is derived from, if any.
    spec fn parent_of(&self) -> Option<Seq<u8>>;

    /// The entity's name.
    fn name(&self) -> (n: &[u8])
        ensures
            n@ == self.name_of(),
    ;

    /// The name of the sibling that the entity is derived from, if any.
    fn parent(&self) -> (p: Option<&[u8]>)
        ensures
            match p {
                Some(n) => self.parent_of() == Some(n@),
                None => self.parent_of().is_none(),
            },
    ;
}

impl Derivable for Peripheral {
    open spec fn name_of(&self) -> Seq<u8> {
        self.name@
    }

    open spec fn parent_of(&self) -> Option<Seq<u8>> {
        match self.derived_from {
            Some(n) => Some(n@),
            None => None,
        }
    }

    fn name(&self) -> (n: &[u8]) {
        self.name.as_slice()
    }

    fn parent(&self) -> (p: Option<&[u8]>) {
        match &self.derived_from {
            Some(n) => Some(n.as_slice()),
            None => None,
        }
    }
}

impl Derivable for Register {
    open spec fn name_of(&self) -> Seq<u8> {
        self.name@
    }

    open spec fn parent_of(&self) -> Option<Seq<u8>> {
        match self.derived_from {
            Some(n) => Some(n@),
            None => None,
        }
    }

    fn name(&self) -> (n: &[u8]) {
        self.name.as_slice()
    }

    fn parent(&self) -> (p: Option<&[u8]>) {
        match &self.derived_from {
            Some(n) => Some(n.as_slice()),
            None => None,
        }
    }
}

/// The first sibling at or after `from` that is called `name`.
pub open spec fn first_named<T: Derivable>(all: Seq<T>, name: Seq<u8>, from: int) -> Option<usize>
    decreases all.len() - from,
{
    if from < 0 || from >= all.len() {
        None
    } else if all[from].name_of() == name {
        Some(from as usize)
    } else {
        first_named(all, name, from + 1)
    }
}

/// The sibling whose block or marker the entity at `index` uses, following
/// at most `fuel` derivations: itself if it is not derived, else what its
/// parent uses. A parent that does not exist and a chain longer than `fuel`
/// are errors, each named by the entity that met it.
pub open spec fn owner<T: Derivable>(all: Seq<T>, index: usize, fuel: nat) -> Result<usize, Error>
    decreases fuel,
{
    match all[index as int].parent_of() {
        None => Ok(index),
        Some(parent) => if fuel == 0 {
            Err(Error::DerivationCycle(index))
        } else {
            match first_named(all, parent, 0) {
                None => Err(Error::MissingParent(index)),
                Some(next) => owner(all, next, (fuel - 1) as nat),
            }
        },
    }
}

/// Finds a sibling by name: the first in document order that has it.
pub fn find_named<T: Derivable>(all: &Vec<T>, name: &[u8]) -> (r: Option<usize>)
    ensures
        r == first_named(all@, name@, 0),
        match r {
            Some(i) => i < all@.len() && all@[i as int].name_of() == name@,
            None => forall|j: int| 0 <= j < all@.len() ==> (#[trigger] all@[j]).name_of() != name@,
        },
{
    let mut i: usize = 0;
    while i < all.len()
        invariant
            i <= all@.len(),
            first_named(all@, name@, i as int) == first_named(all@, name@, 0),
            forall|j: int| 0 <= j < i ==> (#[trigger] all@[j]).name_of() != name@,
        decreases all@.len() - i,
    {
        if same_bytes(all[i].name(), name) {
            return Some(i);
        }
        i += 1;
    }
    None
}

/// Resolves the derivations from the entity at `index` to the sibling that
/// is not derived. A chain of more derivations than there are siblings runs
/// in a circle and is refused.
pub fn resolve_owner<T: Derivable>(all: &Vec<T>, index: usize) -> (r: Result<usize, Error>)
    requires
        index < all@.len(),
    ensures
        r == owner(all@, index, all@.len()),
        match r {
            Ok(k) => k < all@.len() && all@[k as int].parent_of().is_none(),
            Err(Error::MissingParent(k)) => k < all@.len(),
            Err(Error::DerivationCycle(k)) => k < all@.len(),
            Err(_) => false,
        },
{
    let mut current: usize = index;
    let mut fuel: usize = all.len();
    loop
        invariant
            current < all@.len(),
            owner(all@, current, fuel as nat) == owner(all@, index, all@.len()),
        decreases fuel,
    {
        match all[current].parent() {
            None => {
                return Ok(current);
            },
            Some(parent) => {
                if fuel == 0 {
                    return Err(Error::DerivationCycle(current));
                }
                match find_named(all, parent) {
                    None => {
                        return Err(Error::MissingParent(current));
                    },
                    Some(next) => {
                        current = next;
                        fuel -= 1;
                    },
                }
            },
        }
    }
}

/// Finds a peripheral by name: the first in document order that has it.
pub fn find_peripheral(ps: &Vec<Peripheral>, name: &[u8]) -> (r: Option<usize>)
    ensures
        r == first_named(ps@, name@, 0),
        match r {
            Some(i) => i < ps@.len() && ps@[i as int].name@ == name@,
            None => forall|j: int| 0 <= j < ps@.len() ==> (#[trigger] ps@[j]).name@ != name@,
        },
{
    let r = find_named(ps, name);
    proof {
        if r.is_none() {
            assert forall|j: int| 0 <= j < ps@.len() implies (#[trigger] ps@[j]).name@ != name@ by {
                assert(ps@[j].name_of() != name@);
            }
        }
    }
    r
}

/// The peripheral whose register block the peripheral at `index` uses.
pub fn block_owner(ps: &Vec<Peripheral>, index: usize) -> (r: Result<usize, Error>)
    requires
        index < ps@.len(),
    ensures
        r == owner(ps@, index, ps@.len()),
        match r {
            Ok(k) => k < ps@.len() && ps@[k as int].derived_from.is_none(),
            Err(Error::MissingParent(k)) => k < ps@.len(),
            Err(Error::DerivationCycle(k)) => k < ps@.len(),
            Err(_) => false,
        },
{
    resolve_owner(ps, index)
}

/// The register whose marker type the register at `index` of a block uses:
/// its own unless it is derived, in which case it is an alias of the marker
/// of the register it derives from.
pub fn marker_owner(rs: &Vec<Register>, index: usize) -> (r: Result<usize, Error>)
    requires
        index < rs@.len(),
    ensures
        r == owner(rs@, index, rs@.len()),
        match r {
            Ok(k) => k < rs@.len() && rs@[k as int].derived_from.is_none(),
            Err(Error::MissingParent(k)) => k < rs@.len(),
            Err(Error::DerivationCycle(k)) => k < rs@.len(),
            Err(_) => false,
        },
{
    resolve_owner(rs, index)
}

/// A chain that ends within `fuel` derivations ends at the same sibling
/// with more.
pub proof fn lemma_more_fuel<T: Derivable>(all: Seq<T>, index: usize, fuel: nat)
    requires
        owner(all, index, fuel).is_ok(),
    ensures
        owner(all, index, fuel + 1) == owner(all, index, fuel),
    decreases fuel,
{
    match all[index as int].parent_of() {
        None => {},
        Some(parent) => {
            match first_named(all, parent, 0) {
                None => {},
                Some(next) => {
                    lemma_more_fuel(all, next, (fuel - 1) as nat);
                },
            }
        },
    }
}

/// A derived entity uses what its parent uses: where the derivations from
/// `child` resolve, those from the sibling that it names resolve to the same
/// owner. For peripherals the owner's register block is the block of both.
pub proof fn lemma_derived_shares_block<T: Derivable>(all: Seq<T>, child: usize, parent: usize)
    requires
        child < all.len(),
        all[child as int].parent_of().is_some(),
        first_named(all, all[child as int].parent_of().unwrap(), 0) == Some(parent),
        owner(all, child, all.len()).is_ok(),
    ensures
        owner(all, parent, all.len()) == owner(all, child, all.len()),
{
    lemma_more_fuel(all, parent, (all.len() - 1) as nat);
}

} // verus!
