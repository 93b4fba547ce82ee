//! Hands out organization identifiers: 0, 1, 2, ... in that order.

use vstd::prelude::*;
use crate::error::RegistryError;
use crate::types::OrgId;

verus! {

/// The source of fresh organization identifiers. Its view is the number of
/// identifiers handed out so far, which is also the next one to hand out.
pub struct OrgAllocator {
    next: OrgId,
}

impl View for OrgAllocator {
    type V = nat;

    closed spec fn view(&self) -> nat {
        self.next as nat
    }
}

impl OrgAllocator {
    /// Whether an allocator that has handed out `issued` identifiers has none
    /// left. The last value of the integer range is never handed out: the
    /// count of identifiers issued must itself fit the range.
    pub open spec fn exhausted(issued: nat) -> bool {
        issued >= OrgId::MAX
    }

    /// An allocator that has handed out nothing.
    pub fn new() -> (allocator: Self)
        ensures
            allocator@ == 0,
    {
        OrgAllocator { next: 0 }
    }

    /// An allocator that has already handed out the identifiers below `next`.
    pub fn resume(next: OrgId) -> (allocator: Self)
        ensures
            allocator@ == next,
    {
        OrgAllocator { next }
    }

    /// The number of identifiers handed out so far.
    pub fn issued(&self) -> (issued: OrgId)
        ensures
            issued == self@,
    {
        self.next
    }

    /// Hands out the next identifier, or fails, handing out nothing, when the
    /// identifiers are exhausted.
    pub fn next(&mut self) -> (issued: Result<OrgId, RegistryError>)
        ensures
            Self::exhausted(old(self)@) ==> issued == Err::<OrgId, RegistryError>(
                RegistryError::CounterOverflow,
            ) && final(self)@ == old(self)@,
            !Self::exhausted(old(self)@) ==> issued == Ok::<OrgId, RegistryError>(
                old(self)@ as OrgId,
            ) && final(self)@ == old(self)@ + 1,
    {
        match self.next.checked_add(1) {
            Some(following) => {
                let id = self.next;
                self.next = following;
                Ok(id)
            },
            None => Err(RegistryError::CounterOverflow),
        }
    }
}

} // verus!
