use org_registry::{
    AccountId, IdentityCommitment, IdentityCreated, OrgRegistry, OrgRootUpdated, ProofVerified,
    RegistryError, VerifierReport,
};

const ALICE: AccountId = AccountId([0x01; 32]);
const BOB: AccountId = AccountId([0x02; 32]);
const CAROL: AccountId = AccountId([0x03; 32]);

const PROOF: [u8; 32] = [0xA1; 32];
const SIGNALS: [u8; 32] = [0xB2; 32];

fn accepting(signals: [u8; 32]) -> VerifierReport {
    VerifierReport { bound_signals_hash: signals, proof_valid: true }
}

#[test]
fn test_register_identity() {
    let mut contract = OrgRegistry::new();
    let commitment: IdentityCommitment = [1u8; 32];

    assert!(contract.register_identity(ALICE, commitment).is_ok());

    let commitments = contract.get_identity_commitments(ALICE);
    assert_eq!(commitments.len(), 1);
}

#[test]
fn test_org_root() {
    let mut contract = OrgRegistry::new();
    let org_id = 1;
    let root: [u8; 32] = [2u8; 32];

    assert!(contract.update_org_root(org_id, root).is_ok());
    assert_eq!(contract.get_org_root(org_id), Some(root));
}

#[test]
fn new_registry_is_empty() {
    let registry = OrgRegistry::new();
    assert_eq!(registry.get_identity_commitments(ALICE), Vec::<[u8; 32]>::new());
    assert_eq!(registry.get_user_orgs(ALICE), Vec::<u32>::new());
    assert_eq!(registry.get_org_root(0), None);
    assert_eq!(registry.get_latest_verification(ALICE, 0), None);
}

#[test]
fn default_registry_is_a_new_registry() {
    let mut registry = OrgRegistry::default();
    assert_eq!(registry.get_identity_commitments(ALICE), Vec::<[u8; 32]>::new());
    assert_eq!(registry.get_org_root(0), None);
    assert_eq!(registry.create_org(), Ok(0));
}

#[test]
fn register_identity_reports_the_commitment() {
    let mut registry = OrgRegistry::new();
    assert_eq!(
        registry.register_identity(BOB, [9; 32]),
        Ok(IdentityCreated { user: BOB, identity_commitment: [9; 32] })
    );
}

#[test]
fn commitments_keep_call_order_for_each_principal() {
    let mut registry = OrgRegistry::new();
    registry.register_identity(ALICE, [1; 32]).unwrap();
    registry.register_identity(BOB, [2; 32]).unwrap();
    registry.register_identity(ALICE, [3; 32]).unwrap();
    registry.register_identity(ALICE, [4; 32]).unwrap();
    registry.register_identity(BOB, [5; 32]).unwrap();

    assert_eq!(registry.get_identity_commitments(ALICE), vec![[1u8; 32], [3; 32], [4; 32]]);
    assert_eq!(registry.get_identity_commitments(BOB), vec![[2u8; 32], [5; 32]]);
    assert_eq!(registry.get_identity_commitments(CAROL), Vec::<[u8; 32]>::new());
}

#[test]
fn a_commitment_registered_twice_is_listed_twice() {
    let mut registry = OrgRegistry::new();
    registry.register_identity(ALICE, [7; 32]).unwrap();
    registry.register_identity(ALICE, [7; 32]).unwrap();
    assert_eq!(registry.get_identity_commitments(ALICE), vec![[7u8; 32], [7; 32]]);
}

#[test]
fn principals_that_differ_in_one_byte_are_kept_apart() {
    let mut almost_alice = [0x01u8; 32];
    almost_alice[31] = 0x00;
    let mut registry = OrgRegistry::new();
    registry.register_identity(ALICE, [1; 32]).unwrap();
    registry.register_identity(AccountId(almost_alice), [2; 32]).unwrap();
    assert_eq!(registry.get_identity_commitments(ALICE), vec![[1u8; 32]]);
    assert_eq!(registry.get_identity_commitments(AccountId(almost_alice)), vec![[2u8; 32]]);
}

#[test]
fn create_org_counts_up_from_zero() {
    let mut registry = OrgRegistry::new();
    for expected in 0..5u32 {
        assert_eq!(registry.create_org(), Ok(expected));
    }
    for org_id in 0..5u32 {
        assert_eq!(registry.get_org_root(org_id), None);
    }
}

#[test]
fn create_org_leaves_the_rest_of_the_state_alone() {
    let mut registry = OrgRegistry::new();
    registry.register_identity(ALICE, [1; 32]).unwrap();
    registry.update_org_root(3, [8; 32]).unwrap();
    assert_eq!(registry.create_org(), Ok(0));
    assert_eq!(registry.get_identity_commitments(ALICE), vec![[1u8; 32]]);
    assert_eq!(registry.get_org_root(3), Some([8; 32]));
    assert_eq!(registry.get_org_root(0), None);
}

#[test]
fn update_org_root_reports_the_root() {
    let mut registry = OrgRegistry::new();
    assert_eq!(
        registry.update_org_root(4, [6; 32]),
        Ok(OrgRootUpdated { org_id: 4, new_root: [6; 32] })
    );
}

#[test]
fn a_second_root_replaces_the_first() {
    let mut registry = OrgRegistry::new();
    registry.update_org_root(0, [2; 32]).unwrap();
    assert_eq!(registry.get_org_root(0), Some([2; 32]));
    registry.update_org_root(0, [3; 32]).unwrap();
    assert_eq!(registry.get_org_root(0), Some([3; 32]));
    assert_eq!(registry.get_org_root(1), None);
}

#[test]
fn roots_of_different_orgs_do_not_mix() {
    let mut registry = OrgRegistry::new();
    registry.update_org_root(0, [2; 32]).unwrap();
    registry.update_org_root(1, [3; 32]).unwrap();
    registry.update_org_root(0, [4; 32]).unwrap();
    assert_eq!(registry.get_org_root(0), Some([4; 32]));
    assert_eq!(registry.get_org_root(1), Some([3; 32]));
}

#[test]
fn accepted_proof_is_recorded() {
    let mut registry = OrgRegistry::new();
    assert_eq!(registry.create_org(), Ok(0));
    registry.update_org_root(0, [2; 32]).unwrap();
    registry.register_identity(ALICE, [1; 32]).unwrap();

    let verified = registry.verify_proof(ALICE, 1_700_000_000, 0, 7, PROOF, SIGNALS, accepting(SIGNALS));

    assert_eq!(
        verified,
        Ok(ProofVerified { user: ALICE, org_id: 0, file_id: 7, timestamp: 1_700_000_000 })
    );
    assert_eq!(registry.get_latest_verification(ALICE, 0), Some(1_700_000_000));
    assert_eq!(registry.get_user_orgs(ALICE), vec![0]);
    assert_eq!(registry.get_latest_verification(BOB, 0), None);
    assert_eq!(registry.get_user_orgs(BOB), Vec::<u32>::new());
}

#[test]
fn proof_against_an_org_that_was_never_created_is_refused() {
    let mut registry = OrgRegistry::new();
    assert_eq!(registry.create_org(), Ok(0));
    registry.update_org_root(0, [2; 32]).unwrap();
    registry.verify_proof(ALICE, 10, 0, 7, PROOF, SIGNALS, accepting(SIGNALS)).unwrap();

    let refused = registry.verify_proof(ALICE, 20, 99, 7, PROOF, SIGNALS, accepting(SIGNALS));

    assert_eq!(refused, Err(RegistryError::UnknownOrganization));
    assert_eq!(registry.get_latest_verification(ALICE, 99), None);
    assert_eq!(registry.get_latest_verification(ALICE, 0), Some(10));
    assert_eq!(registry.get_user_orgs(ALICE), vec![0]);
}

#[test]
fn proof_against_a_created_org_without_root_is_refused() {
    let mut registry = OrgRegistry::new();
    assert_eq!(registry.create_org(), Ok(0));

    let refused = registry.verify_proof(ALICE, 20, 0, 7, PROOF, SIGNALS, accepting(SIGNALS));

    assert_eq!(refused, Err(RegistryError::UnknownOrganization));
    assert_eq!(registry.get_latest_verification(ALICE, 0), None);
    assert_eq!(registry.get_user_orgs(ALICE), Vec::<u32>::new());
}

#[test]
fn a_proof_the_verifier_rejects_is_not_recorded() {
    let mut registry = OrgRegistry::new();
    registry.update_org_root(0, [2; 32]).unwrap();
    let report = VerifierReport { bound_signals_hash: SIGNALS, proof_valid: false };

    let refused = registry.verify_proof(ALICE, 20, 0, 7, PROOF, SIGNALS, report);

    assert_eq!(refused, Err(RegistryError::InvalidProof));
    assert_eq!(registry.get_latest_verification(ALICE, 0), None);
    assert_eq!(registry.get_user_orgs(ALICE), Vec::<u32>::new());
}

#[test]
fn public_signals_that_are_not_bound_are_refused() {
    let mut registry = OrgRegistry::new();
    registry.update_org_root(0, [2; 32]).unwrap();
    let mut other_signals = SIGNALS;
    other_signals[17] ^= 0x40;

    let refused = registry.verify_proof(ALICE, 20, 0, 7, PROOF, SIGNALS, accepting(other_signals));

    assert_eq!(refused, Err(RegistryError::MalformedPublicInput));
    assert_eq!(registry.get_latest_verification(ALICE, 0), None);
    assert_eq!(registry.get_user_orgs(ALICE), Vec::<u32>::new());
}

#[test]
fn the_first_failing_check_names_the_error() {
    let mut registry = OrgRegistry::new();
    registry.update_org_root(0, [2; 32]).unwrap();
    let all_wrong = VerifierReport { bound_signals_hash: [0; 32], proof_valid: false };

    assert_eq!(
        registry.verify_proof(ALICE, 20, 5, 7, PROOF, SIGNALS, all_wrong),
        Err(RegistryError::UnknownOrganization)
    );
    assert_eq!(
        registry.verify_proof(ALICE, 20, 0, 7, PROOF, SIGNALS, all_wrong),
        Err(RegistryError::MalformedPublicInput)
    );
}

#[test]
fn a_later_proof_moves_the_time_and_keeps_the_orgs() {
    let mut registry = OrgRegistry::new();
    registry.update_org_root(0, [2; 32]).unwrap();
    registry.verify_proof(ALICE, 100, 0, 7, PROOF, SIGNALS, accepting(SIGNALS)).unwrap();
    assert_eq!(registry.get_latest_verification(ALICE, 0), Some(100));

    let again = registry.verify_proof(ALICE, 250, 0, 8, PROOF, SIGNALS, accepting(SIGNALS));

    assert_eq!(again, Ok(ProofVerified { user: ALICE, org_id: 0, file_id: 8, timestamp: 250 }));
    assert_eq!(registry.get_latest_verification(ALICE, 0), Some(250));
    assert_eq!(registry.get_user_orgs(ALICE), vec![0]);
}

#[test]
fn an_earlier_timestamp_still_overwrites() {
    let mut registry = OrgRegistry::new();
    registry.update_org_root(0, [2; 32]).unwrap();
    registry.verify_proof(ALICE, 250, 0, 7, PROOF, SIGNALS, accepting(SIGNALS)).unwrap();
    registry.verify_proof(ALICE, 100, 0, 7, PROOF, SIGNALS, accepting(SIGNALS)).unwrap();
    assert_eq!(registry.get_latest_verification(ALICE, 0), Some(100));
}

#[test]
fn orgs_are_listed_in_the_order_of_first_verification() {
    let mut registry = OrgRegistry::new();
    for org_id in 0..3u32 {
        registry.update_org_root(org_id, [org_id as u8; 32]).unwrap();
    }
    registry.verify_proof(ALICE, 1, 2, 7, PROOF, SIGNALS, accepting(SIGNALS)).unwrap();
    registry.verify_proof(BOB, 2, 1, 7, PROOF, SIGNALS, accepting(SIGNALS)).unwrap();
    registry.verify_proof(ALICE, 3, 0, 7, PROOF, SIGNALS, accepting(SIGNALS)).unwrap();
    registry.verify_proof(ALICE, 4, 2, 7, PROOF, SIGNALS, accepting(SIGNALS)).unwrap();

    assert_eq!(registry.get_user_orgs(ALICE), vec![2, 0]);
    assert_eq!(registry.get_user_orgs(BOB), vec![1]);
    assert_eq!(registry.get_latest_verification(ALICE, 2), Some(4));
    assert_eq!(registry.get_latest_verification(ALICE, 0), Some(3));
    assert_eq!(registry.get_latest_verification(ALICE, 1), None);
    assert_eq!(registry.get_latest_verification(BOB, 1), Some(2));
}

#[test]
fn a_proof_is_judged_against_the_root_of_the_moment() {
    let mut registry = OrgRegistry::new();
    assert_eq!(
        registry.verify_proof(ALICE, 1, 0, 7, PROOF, SIGNALS, accepting(SIGNALS)),
        Err(RegistryError::UnknownOrganization)
    );
    registry.update_org_root(0, [2; 32]).unwrap();
    assert!(registry.verify_proof(ALICE, 2, 0, 7, PROOF, SIGNALS, accepting(SIGNALS)).is_ok());
    assert_eq!(registry.get_latest_verification(ALICE, 0), Some(2));
}

#[test]
fn verification_does_not_touch_commitments_or_roots() {
    let mut registry = OrgRegistry::new();
    registry.register_identity(ALICE, [1; 32]).unwrap();
    registry.update_org_root(0, [2; 32]).unwrap();
    registry.verify_proof(ALICE, 5, 0, 7, PROOF, SIGNALS, accepting(SIGNALS)).unwrap();
    assert_eq!(registry.get_identity_commitments(ALICE), vec![[1u8; 32]]);
    assert_eq!(registry.get_org_root(0), Some([2; 32]));
    assert_eq!(registry.create_org(), Ok(0));
}
