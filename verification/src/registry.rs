//! The registry: identity commitments, organization roots, the verification
//! ledger and the allocator of organization identifiers, with the operations
//! that read and change them.
//!
//! The registry has no clock and no notion of who is calling: the caller of an
//! operation and the time of the transaction are handed in by whoever runs
//! it, and the events it returns are theirs to publish.

use vstd::prelude::*;
use crate::allocator::OrgAllocator;
use crate::error::RegistryError;
use crate::events::{IdentityCreated, OrgRootUpdated, ProofVerified};
use crate::ledger::{LedgerView, VerificationLedger};
use crate::protocol::{
    judge, open_request, request_for, verdict, VerificationRequest, VerifierReport,
};
use crate::table::{
    duplicate, lemma_list_views_empty, lemma_list_views_insert, list_views, Table,
};
use crate::types::{
    AccountId, FileId, IdentityCommitment, MerkleRoot, OrgId, ProofHash, PublicSignalsHash,
};

verus! {

/// The state of the registry, as mathematical values.
pub struct RegistryView {
    /// The commitments each principal has registered, in the order of
    /// registration.
    pub commitments: Map<AccountId, Seq<IdentityCommitment>>,
    /// The current root of each organization that has published one.
    pub roots: Map<OrgId, MerkleRoot>,
    /// The verification records and the membership index.
    pub ledger: LedgerView,
    /// The number of organizations created. They are those with an identifier
    /// below it.
    pub orgs_created: nat,
}

impl RegistryView {
    /// The state of a new registry.
    pub open spec fn empty() -> Self {
        RegistryView {
            commitments: Map::empty(),
            roots: Map::empty(),
            ledger: LedgerView::empty(),
            orgs_created: 0,
        }
    }

    /// The commitments `principal` has registered, oldest first.
    pub open spec fn commitments_of(self, principal: AccountId) -> Seq<IdentityCommitment> {
        if self.commitments.dom().contains(principal) {
            self.commitments[principal]
        } else {
            Seq::empty()
        }
    }

    /// The current root of `org_id`, if it has published one.
    pub open spec fn root_of(self, org_id: OrgId) -> Option<MerkleRoot> {
        if self.roots.dom().contains(org_id) {
            Some(self.roots[org_id])
        } else {
            None
        }
    }

    /// The organizations `principal` has proved membership in, oldest first.
    pub open spec fn orgs_of(self, principal: AccountId) -> Seq<OrgId> {
        self.ledger.orgs_of(principal)
    }

    /// The time of the latest accepted proof of `principal` for `org_id`.
    pub open spec fn latest_verification(self, principal: AccountId, org_id: OrgId) -> Option<
        u64,
    > {
        self.ledger.latest(principal, org_id)
    }

    /// Whether the organization has been created.
    pub open spec fn org_exists(self, org_id: OrgId) -> bool {
        org_id < self.orgs_created
    }

    /// The state after `caller` registers `commitment`: it is appended to the
    /// caller's commitments.
    pub open spec fn register_identity(
        self,
        caller: AccountId,
        commitment: IdentityCommitment,
    ) -> Self {
        RegistryView {
            commitments: self.commitments.insert(
                caller,
                self.commitments_of(caller).push(commitment),
            ),
            ..self
        }
    }

    /// The state after the root of `org_id` is set to `new_root`.
    pub open spec fn update_org_root(self, org_id: OrgId, new_root: MerkleRoot) -> Self {
        RegistryView { roots: self.roots.insert(org_id, new_root), ..self }
    }

    /// Whether no further organization can be created.
    pub open spec fn orgs_exhausted(self) -> bool {
        OrgAllocator::exhausted(self.orgs_created)
    }

    /// The state after an attempt to create an organization: one more is
    /// created unless the identifiers are exhausted.
    pub open spec fn create_org(self) -> Self {
        if self.orgs_exhausted() {
            self
        } else {
            RegistryView { orgs_created: self.orgs_created + 1, ..self }
        }
    }

    /// Whether a proof that `caller` submits against `org_id`, on which the
    /// verifier has given `report`, is to be recorded, and if not, why not.
    pub open spec fn proof_judgement(
        self,
        caller: AccountId,
        org_id: OrgId,
        file_id: FileId,
        proof_hash: ProofHash,
        public_signals_hash: PublicSignalsHash,
        report: VerifierReport,
    ) -> Result<(), RegistryError> {
        match request_for(
            self.root_of(org_id),
            caller,
            org_id,
            file_id,
            proof_hash,
            public_signals_hash,
        ) {
            Ok(request) => verdict(request, report),
            Err(error) => Err(error),
        }
    }

    /// The state after an accepted proof of `caller` for `org_id` at
    /// `timestamp`.
    pub open spec fn record_verification(
        self,
        caller: AccountId,
        org_id: OrgId,
        timestamp: u64,
    ) -> Self {
        RegistryView { ledger: self.ledger.record(caller, org_id, timestamp), ..self }
    }

    /// The state after `caller` submits a proof against `org_id` at
    /// `timestamp`: the proof is recorded if it is judged acceptable, and
    /// nothing changes if it is not.
    pub open spec fn verify_proof(
        self,
        caller: AccountId,
        timestamp: u64,
        org_id: OrgId,
        file_id: FileId,
        proof_hash: ProofHash,
        public_signals_hash: PublicSignalsHash,
        report: VerifierReport,
    ) -> Self {
        if self.proof_judgement(caller, org_id, file_id, proof_hash, public_signals_hash, report)
            is Ok {
            self.record_verification(caller, org_id, timestamp)
        } else {
            self
        }
    }
}

/// The registry.
pub struct OrgRegistry {
    identity_commitments: Table<AccountId, Vec<IdentityCommitment>>,
    org_roots: Table<OrgId, MerkleRoot>,
    ledger: VerificationLedger,
    org_counter: OrgAllocator,
}

impl View for OrgRegistry {
    type V = RegistryView;

    open spec fn view(&self) -> RegistryView {
        self.as_view()
    }
}

impl Default for OrgRegistry {
    fn default() -> (registry: Self)
        ensures
            registry@ == RegistryView::empty(),
            registry@.ledger.consistent(),
    {
        Self::new()
    }
}

impl OrgRegistry {
    /// The state of the registry.
    pub closed spec fn as_view(self) -> RegistryView {
        RegistryView {
            commitments: list_views(self.identity_commitments@),
            roots: self.org_roots@,
            ledger: self.ledger@,
            orgs_created: self.org_counter@,
        }
    }

    /// A registry with no commitments, no organizations and no verifications.
    pub fn new() -> (registry: Self)
        ensures
            registry@ == RegistryView::empty(),
            registry@.ledger.consistent(),
    {
        proof {
            lemma_list_views_empty::<AccountId, IdentityCommitment>();
            LedgerView::lemma_empty_consistent();
        }
        OrgRegistry {
            identity_commitments: Table::new(),
            org_roots: Table::new(),
            ledger: VerificationLedger::new(),
            org_counter: OrgAllocator::new(),
        }
    }

    /// Registers `identity_commitment` for `caller`, after those the caller
    /// has registered before. `caller` is the authenticated sender of the
    /// transaction. The registry does not look into the commitment and does
    /// not refuse one it has seen: this never fails.
    pub fn register_identity(
        &mut self,
        caller: AccountId,
        identity_commitment: IdentityCommitment,
    ) -> (created: Result<IdentityCreated, RegistryError>)
        ensures
            final(self)@ == old(self)@.register_identity(caller, identity_commitment),
            created == Ok::<IdentityCreated, RegistryError>(
                IdentityCreated { user: caller, identity_commitment },
            ),
            final(self)@.ledger.consistent(),
    {
        proof {
            use_type_invariant(&self.ledger);
        }
        let mut commitments = match self.identity_commitments.get(&caller) {
            Some(registered) => duplicate(registered),
            None => Vec::new(),
        };
        commitments.push(identity_commitment);
        proof {
            lemma_list_views_insert(self.identity_commitments@, caller, commitments);
        }
        self.identity_commitments.insert(caller, commitments);
        Ok(IdentityCreated { user: caller, identity_commitment })
    }

    /// The commitments `address` has registered, oldest first; none for a
    /// principal that has registered none.
    pub fn get_identity_commitments(&self, address: AccountId) -> (commitments: Vec<
        IdentityCommitment,
    >)
        ensures
            commitments@ == self@.commitments_of(address),
    {
        match self.identity_commitments.get(&address) {
            Some(registered) => duplicate(registered),
            None => Vec::new(),
        }
    }

    /// Sets the root of `org_id` to `new_root`, in place of the one it had.
    /// Whether the organization has been created is not asked, nor who is
    /// calling: this never fails.
    pub fn update_org_root(&mut self, org_id: OrgId, new_root: MerkleRoot) -> (updated: Result<
        OrgRootUpdated,
        RegistryError,
    >)
        ensures
            final(self)@ == old(self)@.update_org_root(org_id, new_root),
            updated == Ok::<OrgRootUpdated, RegistryError>(OrgRootUpdated { org_id, new_root }),
            final(self)@.ledger.consistent(),
    {
        proof {
            use_type_invariant(&self.ledger);
        }
        self.org_roots.insert(org_id, new_root);
        Ok(OrgRootUpdated { org_id, new_root })
    }

    /// The current root of `org_id`, if it has published one.
    pub fn get_org_root(&self, org_id: OrgId) -> (root: Option<MerkleRoot>)
        ensures
            root == self@.root_of(org_id),
    {
        match self.org_roots.get(&org_id) {
            Some(root) => Some(*root),
            None => None,
        }
    }

    /// The request to put to the verifier for a proof that `caller` submits
    /// against `org_id`; it names the organization's current root. Fails with
    /// `UnknownOrganization` exactly when the organization has no root.
    pub fn verification_request(
        &self,
        caller: AccountId,
        org_id: OrgId,
        file_id: FileId,
        proof_hash: ProofHash,
        public_signals_hash: PublicSignalsHash,
    ) -> (request: Result<VerificationRequest, RegistryError>)
        ensures
            request == request_for(
                self@.root_of(org_id),
                caller,
                org_id,
                file_id,
                proof_hash,
                public_signals_hash,
            ),
    {
        open_request(
            self.get_org_root(org_id),
            caller,
            org_id,
            file_id,
            proof_hash,
            public_signals_hash,
        )
    }

    /// Takes the proof that `caller` submits against `org_id` at `timestamp`,
    /// on which the verifier has given `report`. `caller` is the
    /// authenticated sender of the transaction, never a name the sender
    /// supplies, and `report` is the verifier's answer to
    /// [`Self::verification_request`] for the same arguments, obtained with no
    /// other call on the registry in between.
    ///
    /// The proof is rejected, and nothing changes, with `UnknownOrganization`
    /// if the organization has no root; else with `MalformedPublicInput` if
    /// `public_signals_hash` is not the one the report binds to the caller
    /// and the root; else with `InvalidProof` if the report does not declare
    /// the proof valid. Otherwise the caller's record for the organization is
    /// set to `timestamp`, and the organization joins the caller's list if it
    /// is not in it.
    pub fn verify_proof(
        &mut self,
        caller: AccountId,
        timestamp: u64,
        org_id: OrgId,
        file_id: FileId,
        proof_hash: ProofHash,
        public_signals_hash: PublicSignalsHash,
        report: VerifierReport,
    ) -> (verified: Result<ProofVerified, RegistryError>)
        ensures
            verified == match old(self)@.proof_judgement(
                caller,
                org_id,
                file_id,
                proof_hash,
                public_signals_hash,
                report,
            ) {
                Ok(_) => Ok::<ProofVerified, RegistryError>(
                    ProofVerified { user: caller, org_id, file_id, timestamp },
                ),
                Err(error) => Err(error),
            },
            final(self)@ == old(self)@.verify_proof(
                caller,
                timestamp,
                org_id,
                file_id,
                proof_hash,
                public_signals_hash,
                report,
            ),
            verified is Err ==> final(self)@ == old(self)@,
            final(self)@.ledger.consistent(),
    {
        proof {
            use_type_invariant(&self.ledger);
        }
        let request = self.verification_request(
            caller,
            org_id,
            file_id,
            proof_hash,
            public_signals_hash,
        )?;
        judge(&request, &report)?;
        self.ledger.record(caller, org_id, timestamp);
        Ok(ProofVerified { user: caller, org_id, file_id, timestamp })
    }

    /// The organizations `address` has proved membership in, in the order of
    /// its first accepted proof for each. None occurs twice, and each is one
    /// for which the principal has a verification on record.
    pub fn get_user_orgs(&self, address: AccountId) -> (orgs: Vec<OrgId>)
        ensures
            orgs@ == self@.orgs_of(address),
            orgs@.no_duplicates(),
            forall|org_id: OrgId|
                orgs@.contains(org_id) <==> self@.latest_verification(address, org_id).is_some(),
            self@.ledger.consistent(),
    {
        let orgs = self.ledger.orgs_for(address);
        assert forall|org_id: OrgId|
            orgs@.contains(org_id) <==> self@.latest_verification(
                address,
                org_id,
            ).is_some() by {
            assert(self@.ledger.orgs_of(address).contains(org_id)
                <==> self@.ledger.records.dom().contains((address, org_id)));
        }
        orgs
    }

    /// The time of the latest accepted proof of `address` for `org_id`, if
    /// there has been one.
    pub fn get_latest_verification(&self, address: AccountId, org_id: OrgId) -> (latest: Option<
        u64,
    >)
        ensures
            latest == self@.latest_verification(address, org_id),
            latest.is_some() <==> self@.orgs_of(address).contains(org_id),
            self@.ledger.consistent(),
    {
        proof {
            use_type_invariant(&self.ledger);
            assert(self@.ledger.orgs_of(address).contains(org_id)
                <==> self@.ledger.records.dom().contains((address, org_id)));
        }
        self.ledger.latest_verification(address, org_id)
    }

    /// Creates an organization and returns its identifier: the number of
    /// organizations created before it. The new organization has whatever
    /// root was set for its identifier beforehand, and otherwise none. Fails
    /// with `CounterOverflow`, changing nothing, exactly when the identifiers
    /// are exhausted; it then fails for ever.
    pub fn create_org(&mut self) -> (created: Result<OrgId, RegistryError>)
        ensures
            final(self)@ == old(self)@.create_org(),
            created == if old(self)@.orgs_exhausted() {
                Err::<OrgId, RegistryError>(RegistryError::CounterOverflow)
            } else {
                Ok::<OrgId, RegistryError>(old(self)@.orgs_created as OrgId)
            },
            final(self)@.ledger.consistent(),
    {
        proof {
            use_type_invariant(&self.ledger);
        }
        self.org_counter.next()
    }
}

} // verus!
