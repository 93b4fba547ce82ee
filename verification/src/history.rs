//! Histories: the calls made on a registry since it was created, and what
//! can be read off them.
//!
//! Everything here is mathematics. It gives the laws of the registry a way to
//! speak of "the commitments a principal has registered" or "the identifiers
//! handed out so far" without a registry at hand.

use vstd::prelude::*;
use crate::protocol::VerifierReport;
use crate::registry::RegistryView;
use crate::types::{
    AccountId, FileId, IdentityCommitment, MerkleRoot, OrgId, ProofHash, PublicSignalsHash,
};

verus! {

/// One state-changing call on the registry, with its arguments.
pub enum Call {
    RegisterIdentity { caller: AccountId, commitment: IdentityCommitment },
    UpdateOrgRoot { org_id: OrgId, new_root: MerkleRoot },
    VerifyProof {
        caller: AccountId,
        timestamp: u64,
        org_id: OrgId,
        file_id: FileId,
        proof_hash: ProofHash,
        public_signals_hash: PublicSignalsHash,
        report: VerifierReport,
    },
    CreateOrg,
}

impl RegistryView {
    /// The state after `call` is made in this state.
    pub open spec fn after(self, call: Call) -> Self {
        match call {
            Call::RegisterIdentity { caller, commitment } => self.register_identity(
                caller,
                commitment,
            ),
            Call::UpdateOrgRoot { org_id, new_root } => self.update_org_root(org_id, new_root),
            Call::VerifyProof {
                caller,
                timestamp,
                org_id,
                file_id,
                proof_hash,
                public_signals_hash,
                report,
            } => self.verify_proof(
                caller,
                timestamp,
                org_id,
                file_id,
                proof_hash,
                public_signals_hash,
                report,
            ),
            Call::CreateOrg => self.create_org(),
        }
    }
}

/// The state of a registry on which `calls` have been made, in that order,
/// since it was created.
pub open spec fn state_after(calls: Seq<Call>) -> RegistryView
    decreases calls.len(),
{
    if calls.len() == 0 {
        RegistryView::empty()
    } else {
        state_after(calls.drop_last()).after(calls.last())
    }
}

/// The commitments that `principal` registers in `calls`, in call order.
pub open spec fn registered_by(calls: Seq<Call>, principal: AccountId) -> Seq<IdentityCommitment>
    decreases calls.len(),
{
    if calls.len() == 0 {
        Seq::empty()
    } else {
        let earlier = registered_by(calls.drop_last(), principal);
        match calls.last() {
            Call::RegisterIdentity { caller, commitment } => if caller == principal {
                earlier.push(commitment)
            } else {
                earlier
            },
            _ => earlier,
        }
    }
}

/// The root that `calls` leave `org_id` with: the one set by the last update
/// of that organization's root, if there is any.
pub open spec fn root_published(calls: Seq<Call>, org_id: OrgId) -> Option<MerkleRoot>
    decreases calls.len(),
{
    if calls.len() == 0 {
        None
    } else {
        match calls.last() {
            Call::UpdateOrgRoot { org_id: updated, new_root } => if updated == org_id {
                Some(new_root)
            } else {
                root_published(calls.drop_last(), org_id)
            },
            _ => root_published(calls.drop_last(), org_id),
        }
    }
}

/// The identifiers that the calls to create an organization return in
/// `calls`, in call order. A call that fails returns none.
pub open spec fn ids_created(calls: Seq<Call>) -> Seq<OrgId>
    decreases calls.len(),
{
    if calls.len() == 0 {
        Seq::empty()
    } else {
        let earlier = ids_created(calls.drop_last());
        let before = state_after(calls.drop_last());
        if calls.last() is CreateOrg && !before.orgs_exhausted() {
            earlier.push(before.orgs_created as OrgId)
        } else {
            earlier
        }
    }
}

/// The history that creates `count` organizations and does nothing else.
pub open spec fn creations(count: nat) -> Seq<Call> {
    Seq::new(count, |i: int| Call::CreateOrg)
}

} // verus!
