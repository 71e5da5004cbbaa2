//! The numbers that tell selectors and registrations apart.

use vstd::prelude::*;

verus! {

/// Hands out consecutive numbers, starting with 1.  A process keeps one counter
/// for its selectors and one for its registrations.
#[derive(Debug)]
pub struct IdCounter {
    next: usize,
}

impl View for IdCounter {
    type V = usize;

    /// The number that comes next.
    closed spec fn view(&self) -> usize {
        self.next
    }
}

/// The number after `n`; after the largest one the count starts over at 0.
pub open spec fn successor(n: usize) -> usize {
    if n == usize::MAX {
        0
    } else {
        (n + 1) as usize
    }
}

impl IdCounter {
    pub fn new() -> (counter: IdCounter)
        ensures
            counter@ == 1,
    {
        IdCounter { next: 1 }
    }

    /// Takes the next number.
    pub fn advance(&mut self) -> (id: usize)
        ensures
            id == old(self)@,
            final(self)@ == successor(old(self)@),
    {
        let id: usize = self.next;
        self.next = id.wrapping_add(1);
        id
    }
}

/// Identifies a registration within its process.
#[derive(Clone, Copy, Debug, PartialEq, Eq, Hash, Structural)]
pub struct RegistrationId(pub usize);

impl RegistrationId {
    /// Takes the next registration number from `ids`.
    pub fn new(ids: &mut IdCounter) -> (id: RegistrationId)
        ensures
            id.0 == old(ids)@,
            final(ids)@ == successor(old(ids)@),
    {
        RegistrationId(ids.advance())
    }
}

} // verus!
