//! An identity and organization-membership registry.
//!
//! Principals register identity commitments, organizations publish a Merkle
//! root over their members, and a principal's zero-knowledge membership proof,
//! once an outside verifier has reported on it, is recorded in a verification
//! ledger. Every operation is a total function on the registry's state whose
//! contract gives the state after the call in terms of the state before it.

pub mod allocator;
pub mod error;
pub mod events;
pub mod history;
pub mod laws;
pub mod ledger;
pub mod protocol;
pub mod registry;
pub mod table;
pub mod types;

pub use crate::allocator::OrgAllocator;
pub use crate::error::RegistryError;
pub use crate::events::{IdentityCreated, OrgRootUpdated, ProofVerified};
pub use crate::ledger::VerificationLedger;
pub use crate::protocol::{VerificationRequest, VerifierReport};
pub use crate::registry::OrgRegistry;
pub use crate::types::{
    AccountId, FileId, IdentityCommitment, MerkleRoot, OrgId, ProofHash, PublicSignalsHash,
};
