//! The verification protocol: what is asked of the proof verifier, and what
//! its answer is worth.
//!
//! The registry checks no proof itself. For a submitted proof it draws up a
//! request that names the organization's current root and the submitting
//! principal; an outside verifier answers with a report; and the report is
//! judged against the request. Only a proof judged acceptable is recorded.

use vstd::prelude::*;
use crate::error::RegistryError;
use crate::types::{
    same_bytes, AccountId, FileId, MerkleRoot, OrgId, ProofHash, PublicSignalsHash,
};

verus! {

/// What the verifier is asked: is `proof_hash` a valid proof, with public
/// signals `public_signals_hash`, that `principal` belongs to the member set
/// under `root`?
#[derive(Clone, Copy, Debug, PartialEq, Eq)]
pub struct VerificationRequest {
    /// The submitting principal: the authenticated caller of the operation.
    pub principal: AccountId,
    pub org_id: OrgId,
    pub file_id: FileId,
    /// The organization's root at the time of the request.
    pub root: MerkleRoot,
    pub proof_hash: ProofHash,
    pub public_signals_hash: PublicSignalsHash,
}

/// The verifier's answer to a request.
#[derive(Clone, Copy, Debug, PartialEq, Eq)]
pub struct VerifierReport {
    /// The public-signals hash that the proof system derives from the
    /// request's root and principal: the only one that binds a proof to them.
    pub bound_signals_hash: PublicSignalsHash,
    /// Whether the proof passed the cryptographic check.
    pub proof_valid: bool,
}

/// The request for a proof submitted against an organization whose root, if it
/// has published one, is `root`. Without a root there is nothing to prove
/// membership in.
pub open spec fn request_for(
    root: Option<MerkleRoot>,
    principal: AccountId,
    org_id: OrgId,
    file_id: FileId,
    proof_hash: ProofHash,
    public_signals_hash: PublicSignalsHash,
) -> Result<VerificationRequest, RegistryError> {
    match root {
        Some(root) => Ok(
            VerificationRequest { principal, org_id, file_id, root, proof_hash, public_signals_hash },
        ),
        None => Err(RegistryError::UnknownOrganization),
    }
}

/// What a report is worth. The binding of the public signals is judged first:
/// a proof that is valid for other signals proves nothing about this request.
pub open spec fn verdict(request: VerificationRequest, report: VerifierReport) -> Result<
    (),
    RegistryError,
> {
    if report.bound_signals_hash != request.public_signals_hash {
        Err(RegistryError::MalformedPublicInput)
    } else if !report.proof_valid {
        Err(RegistryError::InvalidProof)
    } else {
        Ok(())
    }
}

/// Draws up the request for a submitted proof.
pub fn open_request(
    root: Option<MerkleRoot>,
    principal: AccountId,
    org_id: OrgId,
    file_id: FileId,
    proof_hash: ProofHash,
    public_signals_hash: PublicSignalsHash,
) -> (request: Result<VerificationRequest, RegistryError>)
    ensures
        request == request_for(root, principal, org_id, file_id, proof_hash, public_signals_hash),
{
    match root {
        Some(root) => Ok(
            VerificationRequest { principal, org_id, file_id, root, proof_hash, public_signals_hash },
        ),
        None => Err(RegistryError::UnknownOrganization),
    }
}

/// Judges the verifier's report on a request.
pub fn judge(request: &VerificationRequest, report: &VerifierReport) -> (judgement: Result<
    (),
    RegistryError,
>)
    ensures
        judgement == verdict(*request, *report),
{
    if !same_bytes(&report.bound_signals_hash, &request.public_signals_hash) {
        Err(RegistryError::MalformedPublicInput)
    } else if !report.proof_valid {
        Err(RegistryError::InvalidProof)
    } else {
        Ok(())
    }
}

} // verus!
