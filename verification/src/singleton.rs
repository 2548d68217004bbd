//! The take-once rule of the peripherals singleton, as a state machine over
//! the single taken flag.

use vstd::prelude::*;

verus! {

/// The right to use the device's peripherals.
#[derive(Debug)]
pub struct Grant {}

/// The flag that records whether the peripherals were handed out.
#[derive(Debug)]
pub struct TakenFlag {
    taken: bool,
}

/// What `take` does to a flag: whether it grants, and the flag afterwards.
pub open spec fn take_step(taken: bool) -> (bool, bool) {
    (!taken, true)
}

/// What `steal` does to a flag: it always grants, and the flag is set afterwards.
pub open spec fn steal_step(taken: bool) -> (bool, bool) {
    (true, true)
}

impl TakenFlag {
    /// Whether the peripherals were handed out.
    pub closed spec fn taken(&self) -> bool {
        self.taken
    }

    /// The flag at program start: nothing was handed out.
    pub fn new() -> (flag: Self)
        ensures
            !flag.taken(),
    {
        TakenFlag { taken: false }
    }

    /// Hands the peripherals out if they were never handed out before. The
    /// caller holds the flag exclusively for the whole check-and-set, which on
    /// a device means with interrupts masked.
    pub fn take(&mut self) -> (grant: Option<Grant>)
        ensures
            grant.is_some() == take_step(old(self).taken()).0,
            final(self).taken() == take_step(old(self).taken()).1,
    {
        if self.taken {
            None
        } else {
            Some(self.steal())
        }
    }

    /// Hands the peripherals out whatever the flag says, and sets it.
    pub fn steal(&mut self) -> (grant: Grant)
        ensures
            final(self).taken() == steal_step(old(self).taken()).1,
    {
        self.taken = true;
        Grant {  }
    }
}

/// From a fresh flag the first `take` grants and the second does not; a
/// `steal` grants even after a `take`; and no `take` grants after a `take` or
/// a `steal`, whatever the flag was before.
pub proof fn lemma_take_once(taken: bool)
    ensures
        take_step(false).0,
        !take_step(take_step(taken).1).0,
        steal_step(take_step(taken).1).0,
        !take_step(steal_step(taken).1).0,
{
}

} // verus!
