//! The ways in which the registry rejects an operation.

use vstd::prelude::*;

verus! {

/// Why an operation was rejected. A rejected operation changes nothing.
#[derive(Clone, Copy, Debug, PartialEq, Eq)]
pub enum RegistryError {
    /// The organization named has no published root.
    UnknownOrganization,
    /// The public-signals hash is not the one that binds the proof to the
    /// submitting principal and the organization's current root.
    MalformedPublicInput,
    /// The verifier did not accept the proof.
    InvalidProof,
    /// Every organization identifier has been handed out. This is permanent:
    /// no organization can be created from then on.
    CounterOverflow,
}

} // verus!
