//! Laws of the registry: what holds of every state it can reach and of every
//! sequence of calls, proved from the contracts of its operations.

use vstd::prelude::*;
use crate::error::RegistryError;
use crate::history::{creations, ids_created, registered_by, root_published, state_after, Call};
use crate::ledger::LedgerView;
use crate::protocol::VerifierReport;
use crate::registry::RegistryView;
use crate::types::{AccountId, FileId, MerkleRoot, OrgId, ProofHash, PublicSignalsHash};

verus! {

/// A principal's commitments are exactly those it has registered, in the
/// order in which it registered them: whatever calls were made, by whomever,
/// none is lost, none is added and none changes place.
pub proof fn law_commitments_are_registrations_in_order(calls: Seq<Call>, principal: AccountId)
    ensures
        state_after(calls).commitments_of(principal) == registered_by(calls, principal),
    decreases calls.len(),
{
    if calls.len() > 0 {
        law_commitments_are_registrations_in_order(calls.drop_last(), principal);
    }
}

/// The identifiers of created organizations count up from 0: the call that
/// creates the organization number `i` returns `i`, and the registry has
/// created as many organizations as identifiers were returned.
pub proof fn law_org_ids_count_up(calls: Seq<Call>)
    ensures
        state_after(calls).orgs_created == ids_created(calls).len(),
        forall|i: int| 0 <= i < ids_created(calls).len() ==> ids_created(calls)[i] == i,
    decreases calls.len(),
{
    if calls.len() > 0 {
        law_org_ids_count_up(calls.drop_last());
    }
}

/// An organization's root is the one it was last given, and it has none if it
/// was never given one.
pub proof fn law_root_is_the_last_published(calls: Seq<Call>, org_id: OrgId)
    ensures
        state_after(calls).root_of(org_id) == root_published(calls, org_id),
    decreases calls.len(),
{
    if calls.len() > 0 {
        law_root_is_the_last_published(calls.drop_last(), org_id);
    }
}

/// After `count` organizations have been created on a new registry, and
/// nothing else was done, the identifiers returned were 0, 1, ..., `count` - 1
/// in that order, and each of these organizations exists and has no root.
pub proof fn law_created_orgs_exist_without_root(count: nat)
    requires
        count <= OrgId::MAX,
    ensures
        ids_created(creations(count)) == Seq::new(count, |i: int| i as OrgId),
        state_after(creations(count)).orgs_created == count,
        forall|org_id: OrgId|
            org_id < count ==> #[trigger] state_after(creations(count)).org_exists(org_id)
                && state_after(creations(count)).root_of(org_id).is_none(),
    decreases count,
{
    let calls = creations(count);
    law_org_ids_count_up(calls);
    if count > 0 {
        let fewer = (count - 1) as nat;
        assert(calls.drop_last() =~= creations(fewer));
        law_created_orgs_exist_without_root(fewer);
        assert(state_after(calls) == state_after(creations(fewer)).create_org());
    }
    assert(ids_created(calls) =~= Seq::new(count, |i: int| i as OrgId));
    assert forall|org_id: OrgId| org_id < count implies #[trigger] state_after(calls).org_exists(
        org_id,
    ) && state_after(calls).root_of(org_id).is_none() by {
        law_root_is_the_last_published(calls, org_id);
        lemma_creations_publish_no_root(count, org_id);
    }
}

proof fn lemma_creations_publish_no_root(count: nat, org_id: OrgId)
    ensures
        root_published(creations(count), org_id).is_none(),
    decreases count,
{
    if count > 0 {
        let fewer = (count - 1) as nat;
        assert(creations(count).drop_last() =~= creations(fewer));
        lemma_creations_publish_no_root(fewer, org_id);
    }
}

/// Once the identifiers are exhausted, creating an organization fails for
/// ever: the attempt changes nothing, so the next one fails too.
pub proof fn law_exhaustion_is_permanent(state: RegistryView)
    requires
        state.orgs_exhausted(),
    ensures
        state.create_org() == state,
        state.create_org().orgs_exhausted(),
{
}

/// Setting a root overwrites: the organization then has the root that was
/// set, a second setting leaves no trace of the first, and no other
/// organization's root changes.
pub proof fn law_root_update_overwrites(
    state: RegistryView,
    org_id: OrgId,
    first: MerkleRoot,
    second: MerkleRoot,
    other: OrgId,
)
    ensures
        state.update_org_root(org_id, first).root_of(org_id) == Some(first),
        state.update_org_root(org_id, first).update_org_root(org_id, second).root_of(org_id)
            == Some(second),
        state.update_org_root(org_id, first).update_org_root(org_id, second)
            == state.update_org_root(org_id, second),
        other != org_id ==> state.update_org_root(org_id, first).root_of(other) == state.root_of(
            other,
        ),
{
    assert(state.roots.insert(org_id, first).insert(org_id, second) =~= state.roots.insert(
        org_id,
        second,
    ));
}

/// A proof submitted against an organization that has no root is rejected
/// with `UnknownOrganization`, whatever the verifier reports, and the
/// registry stays as it was: no verification is recorded and no principal's
/// organizations change.
pub proof fn law_unknown_organization_changes_nothing(
    state: RegistryView,
    caller: AccountId,
    timestamp: u64,
    org_id: OrgId,
    file_id: FileId,
    proof_hash: ProofHash,
    public_signals_hash: PublicSignalsHash,
    report: VerifierReport,
)
    requires
        state.root_of(org_id).is_none(),
    ensures
        state.proof_judgement(caller, org_id, file_id, proof_hash, public_signals_hash, report)
            == Err::<(), RegistryError>(RegistryError::UnknownOrganization),
        state.verify_proof(
            caller,
            timestamp,
            org_id,
            file_id,
            proof_hash,
            public_signals_hash,
            report,
        ) == state,
{
}

/// A rejected proof, for whatever reason it is rejected, changes nothing.
pub proof fn law_rejection_changes_nothing(
    state: RegistryView,
    caller: AccountId,
    timestamp: u64,
    org_id: OrgId,
    file_id: FileId,
    proof_hash: ProofHash,
    public_signals_hash: PublicSignalsHash,
    report: VerifierReport,
)
    requires
        state.proof_judgement(caller, org_id, file_id, proof_hash, public_signals_hash, report)
            is Err,
    ensures
        state.verify_proof(
            caller,
            timestamp,
            org_id,
            file_id,
            proof_hash,
            public_signals_hash,
            report,
        ) == state,
{
}

/// A proof is accepted exactly when the organization has a root, the
/// public-signals hash is the one the verifier binds to the request, and the
/// verifier declares the proof valid.
pub proof fn law_acceptance(
    state: RegistryView,
    caller: AccountId,
    org_id: OrgId,
    file_id: FileId,
    proof_hash: ProofHash,
    public_signals_hash: PublicSignalsHash,
    report: VerifierReport,
)
    ensures
        state.proof_judgement(caller, org_id, file_id, proof_hash, public_signals_hash, report)
            is Ok <==> state.root_of(org_id).is_some() && report.bound_signals_hash
            == public_signals_hash && report.proof_valid,
{
}

/// An accepted proof is recorded: the principal's latest verification for
/// the organization is the time of the call, and the organization is one of
/// the principal's. Nothing else changes: not another pair's record, not
/// another principal's organizations, no commitment, no root and no count.
pub proof fn law_accepted_proof_is_recorded(
    state: RegistryView,
    caller: AccountId,
    timestamp: u64,
    org_id: OrgId,
    file_id: FileId,
    proof_hash: ProofHash,
    public_signals_hash: PublicSignalsHash,
    report: VerifierReport,
    other_principal: AccountId,
    other_org: OrgId,
)
    requires
        state.proof_judgement(caller, org_id, file_id, proof_hash, public_signals_hash, report)
            is Ok,
    ensures
        ({
            let after = state.verify_proof(
                caller,
                timestamp,
                org_id,
                file_id,
                proof_hash,
                public_signals_hash,
                report,
            );
            &&& after.latest_verification(caller, org_id) == Some(timestamp)
            &&& after.orgs_of(caller).contains(org_id)
            &&& (other_principal, other_org) != (caller, org_id) ==> after.latest_verification(
                other_principal,
                other_org,
            ) == state.latest_verification(other_principal, other_org)
            &&& other_principal != caller ==> after.orgs_of(other_principal) == state.orgs_of(
                other_principal,
            )
            &&& after.commitments == state.commitments
            &&& after.roots == state.roots
            &&& after.orgs_created == state.orgs_created
        }),
{
    let orgs = state.orgs_of(caller);
    if !orgs.contains(org_id) {
        assert(orgs.push(org_id)[orgs.len() as int] == org_id);
    }
}

/// A second accepted proof of the same principal for the same organization
/// moves the time of the latest verification and leaves the principal's
/// organizations as the first one left them: the organization is not listed
/// a second time.
pub proof fn law_repeated_proof_moves_the_time_only(
    state: RegistryView,
    caller: AccountId,
    org_id: OrgId,
    first_time: u64,
    first_file: FileId,
    first_proof: ProofHash,
    first_signals: PublicSignalsHash,
    first_report: VerifierReport,
    second_time: u64,
    second_file: FileId,
    second_proof: ProofHash,
    second_signals: PublicSignalsHash,
    second_report: VerifierReport,
)
    requires
        state.proof_judgement(
            caller,
            org_id,
            first_file,
            first_proof,
            first_signals,
            first_report,
        ) is Ok,
        state.proof_judgement(
            caller,
            org_id,
            second_file,
            second_proof,
            second_signals,
            second_report,
        ) is Ok,
    ensures
        ({
            let once = state.verify_proof(
                caller,
                first_time,
                org_id,
                first_file,
                first_proof,
                first_signals,
                first_report,
            );
            let twice = once.verify_proof(
                caller,
                second_time,
                org_id,
                second_file,
                second_proof,
                second_signals,
                second_report,
            );
            &&& once.proof_judgement(
                caller,
                org_id,
                second_file,
                second_proof,
                second_signals,
                second_report,
            ) is Ok
            &&& twice.latest_verification(caller, org_id) == Some(second_time)
            &&& twice.orgs_of(caller) == once.orgs_of(caller)
            &&& state.ledger.consistent() ==> twice.orgs_of(caller).filter(
                |listed: OrgId| listed == org_id,
            ).len() == 1
        }),
{
    let orgs = state.orgs_of(caller);
    if !orgs.contains(org_id) {
        assert(orgs.push(org_id)[orgs.len() as int] == org_id);
    }
    if state.ledger.consistent() {
        let once = state.verify_proof(
            caller,
            first_time,
            org_id,
            first_file,
            first_proof,
            first_signals,
            first_report,
        );
        state.ledger.lemma_record_consistent(caller, org_id, first_time);
        lemma_listed_once(once.orgs_of(caller), org_id);
    }
}

/// In a sequence that names nothing twice, what it names it names once.
proof fn lemma_listed_once(orgs: Seq<OrgId>, org_id: OrgId)
    requires
        orgs.no_duplicates(),
        orgs.contains(org_id),
    ensures
        orgs.filter(|listed: OrgId| listed == org_id).len() == 1,
    decreases orgs.len(),
{
    let named = |listed: OrgId| listed == org_id;
    reveal(Seq::filter);
    if orgs.len() > 0 {
        let rest = orgs.drop_last();
        assert(rest.no_duplicates());
        if orgs.last() == org_id {
            if rest.contains(org_id) {
                let i = choose|i: int| 0 <= i < rest.len() && rest[i] == org_id;
                assert(orgs[i] == orgs[orgs.len() - 1]);
            }
            lemma_not_listed(rest, org_id);
        } else {
            let i = choose|i: int| 0 <= i < orgs.len() && orgs[i] == org_id;
            assert(rest[i] == org_id);
            lemma_listed_once(rest, org_id);
        }
    }
}

/// A sequence that does not name a value names it no times.
proof fn lemma_not_listed(orgs: Seq<OrgId>, org_id: OrgId)
    requires
        !orgs.contains(org_id),
    ensures
        orgs.filter(|listed: OrgId| listed == org_id).len() == 0,
    decreases orgs.len(),
{
    reveal(Seq::filter);
    if orgs.len() > 0 {
        let rest = orgs.drop_last();
        assert(orgs[orgs.len() - 1] != org_id);
        if rest.contains(org_id) {
            let i = choose|i: int| 0 <= i < rest.len() && rest[i] == org_id;
            assert(orgs[i] == org_id);
        }
        lemma_not_listed(rest, org_id);
    }
}

/// Nothing is ever deleted. Whatever call is made, each principal keeps its
/// commitments and its organizations, in their order, at the head of its
/// lists; an organization that had a root has one; a pair that had a
/// verification on record has one; and no organization ceases to exist.
pub proof fn law_nothing_is_deleted(
    state: RegistryView,
    call: Call,
    principal: AccountId,
    org_id: OrgId,
)
    ensures
        state.commitments_of(principal).is_prefix_of(state.after(call).commitments_of(principal)),
        state.orgs_of(principal).is_prefix_of(state.after(call).orgs_of(principal)),
        state.root_of(org_id).is_some() ==> state.after(call).root_of(org_id).is_some(),
        state.latest_verification(principal, org_id).is_some() ==> state.after(
            call,
        ).latest_verification(principal, org_id).is_some(),
        state.org_exists(org_id) ==> state.after(call).org_exists(org_id),
{
}

/// In every state the registry can reach, the membership index agrees with
/// the verification records: no principal's list names an organization
/// twice, and it names an organization exactly when the principal has a
/// verification on record for it.
pub proof fn law_index_agrees_with_records(calls: Seq<Call>)
    ensures
        state_after(calls).ledger.consistent(),
    decreases calls.len(),
{
    if calls.len() == 0 {
        LedgerView::lemma_empty_consistent();
    } else {
        let before = state_after(calls.drop_last());
        law_index_agrees_with_records(calls.drop_last());
        match calls.last() {
            Call::VerifyProof { caller, timestamp, org_id, .. } => {
                before.ledger.lemma_record_consistent(caller, org_id, timestamp);
            },
            _ => {},
        }
    }
}

} // verus!
