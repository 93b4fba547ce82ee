//! The verification ledger: for each principal and organization the time of
//! the latest accepted proof, and for each principal the organizations it has
//! proved membership in, in the order in which it first did.

use vstd::prelude::*;
use crate::table::{duplicate, lemma_list_views_empty, lemma_list_views_insert, list_views, Table};
use crate::types::{AccountId, OrgId};

verus! {

/// What the ledger records, as mathematical maps.
pub struct LedgerView {
    /// The time of the latest accepted proof of each principal for each
    /// organization.
    pub records: Map<(AccountId, OrgId), u64>,
    /// The membership index: the organizations of each principal.
    pub index: Map<AccountId, Seq<OrgId>>,
}

impl LedgerView {
    /// The ledger that records nothing.
    pub open spec fn empty() -> Self {
        LedgerView { records: Map::empty(), index: Map::empty() }
    }

    /// The organizations `principal` has proved membership in, oldest first;
    /// the empty sequence for a principal the index does not know.
    pub open spec fn orgs_of(self, principal: AccountId) -> Seq<OrgId> {
        if self.index.dom().contains(principal) {
            self.index[principal]
        } else {
            Seq::empty()
        }
    }

    /// The time of the latest accepted proof of `principal` for `org_id`.
    pub open spec fn latest(self, principal: AccountId, org_id: OrgId) -> Option<u64> {
        if self.records.dom().contains((principal, org_id)) {
            Some(self.records[(principal, org_id)])
        } else {
            None
        }
    }

    /// The ledger after an accepted proof: the record of the pair is set to
    /// `timestamp`, whatever it was, and the organization joins the
    /// principal's list unless it is in it already.
    pub open spec fn record(self, principal: AccountId, org_id: OrgId, timestamp: u64) -> Self {
        LedgerView {
            records: self.records.insert((principal, org_id), timestamp),
            index: if self.orgs_of(principal).contains(org_id) {
                self.index
            } else {
                self.index.insert(principal, self.orgs_of(principal).push(org_id))
            },
        }
    }

    /// The index agrees with the records: no list names an organization
    /// twice, and a list names an organization exactly when the pair has a
    /// record.
    pub open spec fn consistent(self) -> bool {
        &&& forall|principal: AccountId| #[trigger] self.orgs_of(principal).no_duplicates()
        &&& forall|principal: AccountId, org_id: OrgId|
            #![trigger self.orgs_of(principal).contains(org_id)]
            #![trigger self.records.dom().contains((principal, org_id))]
            self.orgs_of(principal).contains(org_id) <==> self.records.dom().contains(
                (principal, org_id),
            )
    }

    /// The empty ledger is consistent.
    pub proof fn lemma_empty_consistent()
        ensures
            Self::empty().consistent(),
    {
        assert forall|principal: AccountId, org_id: OrgId|
            !Self::empty().orgs_of(principal).contains(org_id) by {
            assert(Self::empty().orgs_of(principal) =~= Seq::<OrgId>::empty());
        }
    }

    /// Recording an accepted proof keeps a consistent ledger consistent.
    pub proof fn lemma_record_consistent(self, principal: AccountId, org_id: OrgId, timestamp: u64)
        requires
            self.consistent(),
        ensures
            self.record(principal, org_id, timestamp).consistent(),
    {
        let after = self.record(principal, org_id, timestamp);
        let before_orgs = self.orgs_of(principal);
        if before_orgs.contains(org_id) {
            assert(self.records.dom().contains((principal, org_id)));
            assert(after.records.dom() =~= self.records.dom());
            assert forall|p: AccountId| after.orgs_of(p) == self.orgs_of(p) by {}
        } else {
            let after_orgs = before_orgs.push(org_id);
            assert(before_orgs.no_duplicates());
            assert(after.orgs_of(principal) == after_orgs);
            assert(after_orgs.no_duplicates()) by {
                assert forall|i: int, j: int|
                    0 <= i < after_orgs.len() && 0 <= j < after_orgs.len() && i != j implies after_orgs[i]
                    != after_orgs[j] by {
                    if i < before_orgs.len() && j < before_orgs.len() {
                        assert(before_orgs[i] != before_orgs[j]);
                    } else if i < before_orgs.len() {
                        assert(before_orgs.contains(before_orgs[i]));
                    } else {
                        assert(before_orgs.contains(before_orgs[j]));
                    }
                }
            }
            assert forall|p: AccountId| #[trigger] after.orgs_of(p).no_duplicates() by {
                if p != principal {
                    assert(after.orgs_of(p) == self.orgs_of(p));
                }
            }
            assert forall|p: AccountId, o: OrgId|
                after.orgs_of(p).contains(o) <==> after.records.dom().contains((p, o)) by {
                if p == principal {
                    if before_orgs.contains(o) {
                        let i = choose|i: int| 0 <= i < before_orgs.len() && before_orgs[i] == o;
                        assert(after_orgs[i] == o);
                    }
                    if o == org_id {
                        assert(after_orgs[before_orgs.len() as int] == o);
                    }
                    if after_orgs.contains(o) {
                        let i = choose|i: int| 0 <= i < after_orgs.len() && after_orgs[i] == o;
                        if i < before_orgs.len() {
                            assert(before_orgs[i] == o);
                        }
                    }
                    assert(self.orgs_of(p).contains(o) <==> self.records.dom().contains((p, o)));
                } else {
                    assert(after.orgs_of(p) == self.orgs_of(p));
                    assert(self.orgs_of(p).contains(o) <==> self.records.dom().contains((p, o)));
                }
            }
        }
    }
}

/// Whether `orgs` names `org_id`.
pub fn names_org(orgs: &Vec<OrgId>, org_id: OrgId) -> (named: bool)
    ensures
        named == orgs@.contains(org_id),
{
    let mut i: usize = 0;
    while i < orgs.len()
        invariant
            i <= orgs@.len(),
            forall|j: int| 0 <= j < i ==> orgs@[j] != org_id,
        decreases orgs@.len() - i,
    {
        if orgs[i] == org_id {
            return true;
        }
        i += 1;
    }
    false
}

/// Adds `org_id` to a principal's list of organizations unless the list names
/// it already, and says whether it was added.
pub fn note_membership(orgs: &mut Vec<OrgId>, org_id: OrgId) -> (added: bool)
    ensures
        added == !old(orgs)@.contains(org_id),
        final(orgs)@ == if added {
            old(orgs)@.push(org_id)
        } else {
            old(orgs)@
        },
{
    if names_org(orgs, org_id) {
        false
    } else {
        orgs.push(org_id);
        true
    }
}

/// The verification ledger.
pub struct VerificationLedger {
    records: Table<(AccountId, OrgId), u64>,
    index: Table<AccountId, Vec<OrgId>>,
}

impl View for VerificationLedger {
    type V = LedgerView;

    open spec fn view(&self) -> LedgerView {
        self.as_view()
    }
}

impl VerificationLedger {
    /// Every ledger is consistent.
    #[verifier::type_invariant]
    pub open spec fn well_formed(self) -> bool {
        self@.consistent()
    }

    /// What the ledger records.
    pub closed spec fn as_view(self) -> LedgerView {
        LedgerView { records: self.records@, index: list_views(self.index@) }
    }

    /// The ledger that records nothing.
    pub fn new() -> (ledger: Self)
        ensures
            ledger@ == LedgerView::empty(),
    {
        let records: Table<(AccountId, OrgId), u64> = Table::new();
        let index: Table<AccountId, Vec<OrgId>> = Table::new();
        proof {
            LedgerView::lemma_empty_consistent();
            lemma_list_views_empty::<AccountId, OrgId>();
        }
        VerificationLedger { records, index }
    }

    /// The time of the latest accepted proof of `principal` for `org_id`, if
    /// there has been one.
    pub fn latest_verification(&self, principal: AccountId, org_id: OrgId) -> (latest: Option<u64>)
        ensures
            latest == self@.latest(principal, org_id),
    {
        match self.records.get(&(principal, org_id)) {
            Some(timestamp) => Some(*timestamp),
            None => None,
        }
    }

    /// The organizations `principal` has proved membership in, oldest first.
    /// No organization occurs twice, and each has a record in the ledger.
    pub fn orgs_for(&self, principal: AccountId) -> (orgs: Vec<OrgId>)
        ensures
            orgs@ == self@.orgs_of(principal),
            self@.consistent(),
    {
        proof {
            use_type_invariant(self);
        }
        match self.index.get(&principal) {
            Some(orgs) => duplicate(orgs),
            None => Vec::new(),
        }
    }

    /// Records an accepted proof of `principal` for `org_id` at `timestamp`,
    /// and says whether it is the principal's first for that organization.
    pub fn record(&mut self, principal: AccountId, org_id: OrgId, timestamp: u64) -> (first: bool)
        ensures
            final(self)@ == old(self)@.record(principal, org_id, timestamp),
            first == !old(self)@.orgs_of(principal).contains(org_id),
            final(self)@.consistent(),
    {
        proof {
            use_type_invariant(&*self);
            old(self)@.lemma_record_consistent(principal, org_id, timestamp);
        }
        let mut taken = VerificationLedger::new();
        std::mem::swap(self, &mut taken);
        let VerificationLedger { mut records, mut index } = taken;
        records.insert((principal, org_id), timestamp);
        let mut orgs = match index.get(&principal) {
            Some(orgs) => duplicate(orgs),
            None => Vec::new(),
        };
        let first = note_membership(&mut orgs, org_id);
        if first {
            proof {
                lemma_list_views_insert(index@, principal, orgs);
            }
            index.insert(principal, orgs);
        }
        *self = VerificationLedger { records, index };
        first
    }
}

} // verus!
