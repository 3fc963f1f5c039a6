use std::collections::HashMap;

use vstd::prelude::*;

use crate::address::Address;
use crate::confirmation::types::{ConfirmationThreshold, EscrowConfirmationStatus, PartyConfirmation};

verus! {

broadcast use vstd::std_specs::hash::group_hash_axioms;

/// The kinds of record the confirmation ledger keeps for each escrow.
#[derive(Clone, Copy, PartialEq, Eq, Debug, Hash, Structural)]
pub enum RecordKind {
    PartyConfirmations,
    ConfirmationStatus,
    ThresholdConfig,
    PartiesList,
    ConfirmationCount,
}

/// The address of one record in the durable store: its kind and its escrow.
#[derive(Clone, Copy, PartialEq, Eq, Debug, Hash, Structural)]
pub struct StorageKey {
    pub kind: RecordKind,
    pub escrow_id: u64,
}

/// The keys under which an escrow's confirmation records are stored.
pub struct ConfirmationStorageKeys;

impl ConfirmationStorageKeys {
    pub fn party_confirmations(escrow_id: u64) -> (r: StorageKey)
        ensures
            r == (StorageKey { kind: RecordKind::PartyConfirmations, escrow_id }),
    {
        StorageKey { kind: RecordKind::PartyConfirmations, escrow_id }
    }

    pub fn escrow_status(escrow_id: u64) -> (r: StorageKey)
        ensures
            r == (StorageKey { kind: RecordKind::ConfirmationStatus, escrow_id }),
    {
        StorageKey { kind: RecordKind::ConfirmationStatus, escrow_id }
    }

    pub fn threshold_config(escrow_id: u64) -> (r: StorageKey)
        ensures
            r == (StorageKey { kind: RecordKind::ThresholdConfig, escrow_id }),
    {
        StorageKey { kind: RecordKind::ThresholdConfig, escrow_id }
    }

    pub fn parties_list(escrow_id: u64) -> (r: StorageKey)
        ensures
            r == (StorageKey { kind: RecordKind::PartiesList, escrow_id }),
    {
        StorageKey { kind: RecordKind::PartiesList, escrow_id }
    }

    pub fn confirmation_count(escrow_id: u64) -> (r: StorageKey)
        ensures
            r == (StorageKey { kind: RecordKind::ConfirmationCount, escrow_id }),
    {
        StorageKey { kind: RecordKind::ConfirmationCount, escrow_id }
    }
}

/// The code under which an overlay status is stored.
pub open spec fn status_code(status: EscrowConfirmationStatus) -> u32 {
    match status {
        EscrowConfirmationStatus::Pending => 0,
        EscrowConfirmationStatus::Confirmed => 1,
        EscrowConfirmationStatus::Failed => 2,
        EscrowConfirmationStatus::Locked => 3,
    }
}

/// The overlay status a stored code stands for; an unknown code reads as pending.
pub open spec fn status_from_code(code: u32) -> EscrowConfirmationStatus {
    if code == 1 {
        EscrowConfirmationStatus::Confirmed
    } else if code == 2 {
        EscrowConfirmationStatus::Failed
    } else if code == 3 {
        EscrowConfirmationStatus::Locked
    } else {
        EscrowConfirmationStatus::Pending
    }
}

/// No two entries are kept for the same party.
pub open spec fn parties_unique(entries: Seq<(Address, PartyConfirmation)>) -> bool {
    forall|i: int, j: int|
        0 <= i < entries.len() && 0 <= j < entries.len() && i != j ==> #[trigger] entries[i].0@
            != #[trigger] entries[j].0@
}

pub open spec fn has_entry(entries: Seq<(Address, PartyConfirmation)>, party: Seq<char>, i: int) -> bool {
    0 <= i < entries.len() && entries[i].0@ == party
}

/// The record kept for `party` among `entries`, if any.
pub open spec fn entry_for(entries: Seq<(Address, PartyConfirmation)>, party: Seq<char>) -> Option<
    PartyConfirmation,
> {
    if exists|i: int| #[trigger] has_entry(entries, party, i) {
        Some(entries[choose|i: int| #[trigger] has_entry(entries, party, i)].1)
    } else {
        None
    }
}

pub proof fn lemma_entry_at(entries: Seq<(Address, PartyConfirmation)>, party: Seq<char>, i: int)
    requires
        parties_unique(entries),
        has_entry(entries, party, i),
    ensures
        entry_for(entries, party) == Some(entries[i].1),
{
    let j = choose|j: int| #[trigger] has_entry(entries, party, j);
    assert(has_entry(entries, party, j));
    if i != j {
        assert(entries[i].0@ != entries[j].0@);
    }
}

/// Putting an entry for `party` in place of its old one, or after the others
/// where it had none, gives `party` that record and leaves the others' alone.
pub proof fn lemma_entry_replaced(
    entries: Seq<(Address, PartyConfirmation)>,
    next: Seq<(Address, PartyConfirmation)>,
    k: int,
    party: Address,
    record: PartyConfirmation,
)
    requires
        parties_unique(entries),
        0 <= k <= entries.len(),
        k < entries.len() ==> entries[k].0@ == party@ && next == entries.update(k, (party, record)),
        k == entries.len() ==> (forall|i: int| 0 <= i < entries.len() ==> #[trigger] entries[i].0@
            != party@) && next == entries.push((party, record)),
    ensures
        parties_unique(next),
        forall|p: Seq<char>| #[trigger]
            entry_for(next, p) == if p == party@ {
                Some(record)
            } else {
                entry_for(entries, p)
            },
{
    assert(next[k] == (party, record));
    assert forall|i: int| 0 <= i < next.len() && i != k implies #[trigger] next[i] == entries[i] by {}
    assert(parties_unique(next)) by {
        assert forall|i: int, j: int|
            0 <= i < next.len() && 0 <= j < next.len() && i != j implies #[trigger] next[i].0@
            != #[trigger] next[j].0@ by {
            if i != k && j != k {
                assert(entries[i].0@ != entries[j].0@);
            } else if i == k && k < entries.len() {
                assert(entries[j].0@ != entries[k].0@);
            } else if j == k && k < entries.len() {
                assert(entries[i].0@ != entries[k].0@);
            }
        }
    }
    assert forall|p: Seq<char>| #[trigger]
        entry_for(next, p) == if p == party@ {
            Some(record)
        } else {
            entry_for(entries, p)
        } by {
        if p == party@ {
            assert(has_entry(next, p, k));
            lemma_entry_at(next, p, k);
        } else if exists|i: int| #[trigger] has_entry(entries, p, i) {
            let i = choose|i: int| #[trigger] has_entry(entries, p, i);
            lemma_entry_at(entries, p, i);
            assert(i != k);
            assert(has_entry(next, p, i));
            lemma_entry_at(next, p, i);
        } else {
            assert forall|i: int| !#[trigger] has_entry(next, p, i) by {
                if 0 <= i < next.len() && i != k {
                    assert(!has_entry(entries, p, i));
                }
            }
        }
    }
}

/// The text of each party's address, in order.
pub open spec fn party_keys(parties: Seq<Address>) -> Seq<Seq<char>> {
    parties.map_values(|a: Address| a@)
}

/// Whether two party lists name the same parties in the same order.
pub fn same_parties(a: &Vec<Address>, b: &Vec<Address>) -> (r: bool)
    ensures
        r == (party_keys(a@) == party_keys(b@)),
{
    if a.len() != b.len() {
        assert(party_keys(a@).len() != party_keys(b@).len());
        return false;
    }
    let mut i: usize = 0;
    while i < a.len()
        invariant
            i <= a@.len(),
            a@.len() == b@.len(),
            forall|j: int| 0 <= j < i ==> #[trigger] a@[j]@ == b@[j]@,
        decreases a@.len() - i,
    {
        if !(a[i] == b[i]) {
            assert(party_keys(a@)[i as int] != party_keys(b@)[i as int]);
            return false;
        }
        i = i + 1;
    }
    assert(party_keys(a@) =~= party_keys(b@));
    true
}

/// The durable records of the confirmation ledger: for each escrow, the
/// parties' confirmation records, the overlay status code, the counter, and
/// the threshold and party list its confirmations are held to.
pub struct ConfirmationStorage {
    party_confirmations: HashMap<u64, Vec<(Address, PartyConfirmation)>>,
    statuses: HashMap<u64, u32>,
    counts: HashMap<u64, u32>,
    thresholds: HashMap<u64, ConfirmationThreshold>,
    party_lists: HashMap<u64, Vec<Address>>,
}

impl ConfirmationStorage {
    /// The overlay status of an escrow; pending where none is stored.
    pub closed spec fn status_of(&self, escrow_id: u64) -> EscrowConfirmationStatus {
        if self.statuses@.contains_key(escrow_id) {
            status_from_code(self.statuses@[escrow_id])
        } else {
            EscrowConfirmationStatus::Pending
        }
    }

    /// The confirmation counter of an escrow; zero where none is stored.
    pub closed spec fn count_of(&self, escrow_id: u64) -> u32 {
        if self.counts@.contains_key(escrow_id) {
            self.counts@[escrow_id]
        } else {
            0
        }
    }

    /// The record kept for `party` in an escrow, if any.
    pub closed spec fn record_of(&self, escrow_id: u64, party: Seq<char>) -> Option<
        PartyConfirmation,
    > {
        if self.party_confirmations@.contains_key(escrow_id) {
            entry_for(self.party_confirmations@[escrow_id]@, party)
        } else {
            None
        }
    }

    /// The threshold stored for an escrow, if any.
    pub closed spec fn threshold_of(&self, escrow_id: u64) -> Option<ConfirmationThreshold> {
        if self.thresholds@.contains_key(escrow_id) {
            Some(self.thresholds@[escrow_id])
        } else {
            None
        }
    }

    /// The party list stored for an escrow, as address texts, if any.
    pub closed spec fn parties_of(&self, escrow_id: u64) -> Option<Seq<Seq<char>>> {
        if self.party_lists@.contains_key(escrow_id) {
            Some(party_keys(self.party_lists@[escrow_id]@))
        } else {
            None
        }
    }

    /// `next` keeps every stored threshold and party list of `self`.
    pub open spec fn same_config(&self, next: &ConfirmationStorage) -> bool {
        &&& forall|id: u64| #[trigger] next.threshold_of(id) == self.threshold_of(id)
        &&& forall|id: u64| #[trigger] next.parties_of(id) == self.parties_of(id)
    }

    /// One record per party in each escrow.
    pub closed spec fn wf(&self) -> bool {
        forall|id: u64| #[trigger]
            self.party_confirmations@.contains_key(id) ==> parties_unique(
                self.party_confirmations@[id]@,
            )
    }

    /// No escrow's counter is lower in `next` than in `self`.
    pub open spec fn counts_grow(&self, next: &ConfirmationStorage) -> bool {
        forall|id: u64| #[trigger] next.count_of(id) >= self.count_of(id)
    }

    /// `next` keeps the records of `self` except the overlay statuses.
    pub open spec fn same_records(&self, next: &ConfirmationStorage) -> bool {
        &&& self.same_config(next)
        &&& forall|id: u64, p: Seq<char>| #[trigger]
            next.record_of(id, p) == self.record_of(id, p)
        &&& forall|id: u64| #[trigger] next.count_of(id) == self.count_of(id)
    }

    pub fn new() -> (r: ConfirmationStorage)
        ensures
            r.wf(),
            forall|id: u64| #[trigger] r.status_of(id) == EscrowConfirmationStatus::Pending,
            forall|id: u64| #[trigger] r.count_of(id) == 0,
            forall|id: u64, p: Seq<char>| #[trigger] r.record_of(id, p) is None,
            forall|id: u64| #[trigger] r.threshold_of(id) is None,
            forall|id: u64| #[trigger] r.parties_of(id) is None,
    {
        ConfirmationStorage {
            party_confirmations: HashMap::new(),
            statuses: HashMap::new(),
            counts: HashMap::new(),
            thresholds: HashMap::new(),
            party_lists: HashMap::new(),
        }
    }

    /// The record kept for `party` in an escrow.
    pub fn get_party_confirmation(&self, escrow_id: u64, party: &Address) -> (r: Option<
        PartyConfirmation,
    >)
        requires
            self.wf(),
        ensures
            r == self.record_of(escrow_id, party@),
    {
        match self.party_confirmations.get(&escrow_id) {
            None => None,
            Some(entries) => {
                assert(parties_unique(entries@));
                let mut i: usize = 0;
                while i < entries.len()
                    invariant
                        i <= entries@.len(),
                        parties_unique(entries@),
                        self.party_confirmations@.contains_key(escrow_id),
                        entries@ == self.party_confirmations@[escrow_id]@,
                        forall|j: int| 0 <= j < i ==> !#[trigger] has_entry(entries@, party@, j),
                    decreases entries@.len() - i,
                {
                    if entries[i].0 == *party {
                        proof {
                            assert(has_entry(entries@, party@, i as int));
                            lemma_entry_at(entries@, party@, i as int);
                        }
                        return Some(entries[i].1.duplicate());
                    }
                    i = i + 1;
                }
                None
            },
        }
    }

    /// Stores `confirmation` as the record of `party` in an escrow, in place of
    /// any earlier one.
    pub fn set_party_confirmation(
        &mut self,
        escrow_id: u64,
        party: &Address,
        confirmation: PartyConfirmation,
    )
        requires
            old(self).wf(),
        ensures
            final(self).wf(),
            forall|id: u64, p: Seq<char>| #[trigger]
                final(self).record_of(id, p) == if id == escrow_id && p == party@ {
                    Some(confirmation)
                } else {
                    old(self).record_of(id, p)
                },
            forall|id: u64| #[trigger] final(self).status_of(id) == old(self).status_of(id),
            forall|id: u64| #[trigger] final(self).count_of(id) == old(self).count_of(id),
            old(self).same_config(&*final(self)),
    {
        let mut entries = match self.party_confirmations.remove(&escrow_id) {
            Some(v) => v,
            None => Vec::new(),
        };
        let ghost before = entries@;
        assert(parties_unique(before));
        let mut k: usize = entries.len();
        let mut i: usize = 0;
        while i < entries.len()
            invariant
                entries@ == before,
                i <= before.len(),
                k == before.len() ==> forall|j: int| 0 <= j < i ==> #[trigger] before[j].0@
                    != party@,
                k < before.len() ==> before[k as int].0@ == party@,
                k <= before.len(),
            decreases before.len() - i,
        {
            if k == entries.len() && entries[i].0 == *party {
                k = i;
            }
            i = i + 1;
        }
        if k < entries.len() {
            entries.set(k, (party.duplicate(), confirmation));
        } else {
            entries.push((party.duplicate(), confirmation));
        }
        proof {
            lemma_entry_replaced(before, entries@, k as int, *party, confirmation);
        }
        self.party_confirmations.insert(escrow_id, entries);
    }

    /// The overlay status of an escrow.
    pub fn get_status(&self, escrow_id: u64) -> (r: EscrowConfirmationStatus)
        ensures
            r == self.status_of(escrow_id),
    {
        match self.statuses.get(&escrow_id) {
            Some(code) => {
                if *code == 1 {
                    EscrowConfirmationStatus::Confirmed
                } else if *code == 2 {
                    EscrowConfirmationStatus::Failed
                } else if *code == 3 {
                    EscrowConfirmationStatus::Locked
                } else {
                    EscrowConfirmationStatus::Pending
                }
            },
            None => EscrowConfirmationStatus::Pending,
        }
    }

    /// Stores the overlay status of an escrow.
    pub fn set_status(&mut self, escrow_id: u64, status: EscrowConfirmationStatus)
        requires
            old(self).wf(),
        ensures
            final(self).wf(),
            old(self).same_records(&*final(self)),
            forall|id: u64| #[trigger]
                final(self).status_of(id) == if id == escrow_id {
                    status
                } else {
                    old(self).status_of(id)
                },
    {
        let code: u32 = match status {
            EscrowConfirmationStatus::Pending => 0,
            EscrowConfirmationStatus::Confirmed => 1,
            EscrowConfirmationStatus::Failed => 2,
            EscrowConfirmationStatus::Locked => 3,
        };
        assert(code == status_code(status));
        self.statuses.insert(escrow_id, code);
    }

    /// The confirmation counter of an escrow.
    pub fn get_confirmation_count(&self, escrow_id: u64) -> (r: u32)
        ensures
            r == self.count_of(escrow_id),
    {
        match self.counts.get(&escrow_id) {
            Some(count) => *count,
            None => 0,
        }
    }

    /// Adds one to the confirmation counter of an escrow.
    pub fn increment_confirmation_count(&mut self, escrow_id: u64)
        requires
            old(self).wf(),
            old(self).count_of(escrow_id) < u32::MAX,
        ensures
            final(self).wf(),
            forall|id: u64| #[trigger]
                final(self).count_of(id) == if id == escrow_id {
                    (old(self).count_of(id) + 1) as u32
                } else {
                    old(self).count_of(id)
                },
            forall|id: u64| #[trigger] final(self).status_of(id) == old(self).status_of(id),
            forall|id: u64, p: Seq<char>| #[trigger]
                final(self).record_of(id, p) == old(self).record_of(id, p),
            old(self).same_config(&*final(self)),
    {
        let count = self.get_confirmation_count(escrow_id);
        self.counts.insert(escrow_id, count + 1);
    }

    /// The threshold stored for an escrow.
    pub fn get_threshold_config(&self, escrow_id: u64) -> (r: Option<ConfirmationThreshold>)
        ensures
            r == self.threshold_of(escrow_id),
    {
        match self.thresholds.get(&escrow_id) {
            Some(t) => Some(*t),
            None => None,
        }
    }

    /// Stores the threshold of an escrow.
    pub fn set_threshold_config(&mut self, escrow_id: u64, threshold: ConfirmationThreshold)
        requires
            old(self).wf(),
        ensures
            final(self).wf(),
            forall|id: u64| #[trigger]
                final(self).threshold_of(id) == if id == escrow_id {
                    Some(threshold)
                } else {
                    old(self).threshold_of(id)
                },
            forall|id: u64| #[trigger] final(self).parties_of(id) == old(self).parties_of(id),
            forall|id: u64| #[trigger] final(self).status_of(id) == old(self).status_of(id),
            forall|id: u64| #[trigger] final(self).count_of(id) == old(self).count_of(id),
            forall|id: u64, p: Seq<char>| #[trigger]
                final(self).record_of(id, p) == old(self).record_of(id, p),
    {
        self.thresholds.insert(escrow_id, threshold);
    }

    /// The party list stored for an escrow.
    pub fn get_parties_list(&self, escrow_id: u64) -> (r: Option<&Vec<Address>>)
        ensures
            match r {
                Some(v) => self.parties_of(escrow_id) == Some(party_keys(v@)),
                None => self.parties_of(escrow_id) is None,
            },
    {
        self.party_lists.get(&escrow_id)
    }

    /// Stores the party list of an escrow.
    pub fn set_parties_list(&mut self, escrow_id: u64, parties: Vec<Address>)
        requires
            old(self).wf(),
        ensures
            final(self).wf(),
            forall|id: u64| #[trigger]
                final(self).parties_of(id) == if id == escrow_id {
                    Some(party_keys(parties@))
                } else {
                    old(self).parties_of(id)
                },
            forall|id: u64| #[trigger] final(self).threshold_of(id) == old(self).threshold_of(id),
            forall|id: u64| #[trigger] final(self).status_of(id) == old(self).status_of(id),
            forall|id: u64| #[trigger] final(self).count_of(id) == old(self).count_of(id),
            forall|id: u64, p: Seq<char>| #[trigger]
                final(self).record_of(id, p) == old(self).record_of(id, p),
    {
        self.party_lists.insert(escrow_id, parties);
    }
}

} // verus!
