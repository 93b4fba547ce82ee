//! The plain values the registry is made of.

use vstd::prelude::*;
use crate::table::TableKey;

verus! {

/// A one-way hash of a principal's identity secret.
pub type IdentityCommitment = [u8; 32];

/// The digest an organization publishes over its set of members.
pub type MerkleRoot = [u8; 32];

/// The identifier of an organization.
pub type OrgId = u32;

/// The identifier of the file or context a proof was made for.
pub type FileId = u32;

/// The hash of a zero-knowledge proof.
pub type ProofHash = [u8; 32];

/// The hash of a proof's public signals.
pub type PublicSignalsHash = [u8; 32];

/// A principal: the 32 bytes by which the ledger names an account.
#[derive(Clone, Copy, Debug, PartialEq, Eq, Hash)]
pub struct AccountId(pub [u8; 32]);

/// Compares two 32-byte values byte by byte.
pub fn same_bytes(a: &[u8; 32], b: &[u8; 32]) -> (same: bool)
    ensures
        same == (*a == *b),
{
    let mut i: usize = 0;
    while i < 32
        invariant
            i <= 32,
            forall|j: int| 0 <= j < i ==> a[j] == b[j],
        decreases 32 - i,
    {
        if a[i] != b[i] {
            return false;
        }
        i += 1;
    }
    assert(*a =~= *b);
    true
}

impl TableKey for AccountId {
    fn same(&self, other: &Self) -> (same: bool) {
        same_bytes(&self.0, &other.0)
    }
}

impl TableKey for (AccountId, OrgId) {
    fn same(&self, other: &Self) -> (same: bool) {
        self.0.same(&other.0) && self.1 == other.1
    }
}

} // verus!
