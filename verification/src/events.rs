//! What each state-changing operation reports to the outside.
//!
//! An event carries the fields that the operation wrote to the state. The
//! operation returns it; publishing it is the caller's part.

use vstd::prelude::*;
use crate::types::{AccountId, FileId, IdentityCommitment, MerkleRoot, OrgId};

verus! {

/// A principal registered an identity commitment.
#[derive(Clone, Copy, Debug, PartialEq, Eq)]
pub struct IdentityCreated {
    pub user: AccountId,
    pub identity_commitment: IdentityCommitment,
}

/// An organization's Merkle root was set or replaced.
#[derive(Clone, Copy, Debug, PartialEq, Eq)]
pub struct OrgRootUpdated {
    pub org_id: OrgId,
    pub new_root: MerkleRoot,
}

/// A principal's membership proof was accepted and recorded.
#[derive(Clone, Copy, Debug, PartialEq, Eq)]
pub struct ProofVerified {
    pub user: AccountId,
    pub org_id: OrgId,
    pub file_id: FileId,
    pub timestamp: u64,
}

} // verus!
