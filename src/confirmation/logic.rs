use vstd::prelude::*;

use crate::address::Address;
use crate::confirmation::storage::{party_keys, same_parties, ConfirmationStorage};
use crate::confirmation::threshold::{remaining_confirmations, threshold_met, ThresholdLogic};
use crate::confirmation::types::{
    ConfirmationEvent, ConfirmationState, ConfirmationThreshold, EscrowConfirmationStatus,
    PartyConfirmation,
};

verus! {

#[derive(Clone, Copy, PartialEq, Eq, Debug, Structural)]
pub enum ConfirmationError {
    /// The caller is not among the authorized parties.
    UnauthorizedParty,
    /// The caller has already confirmed.
    DuplicateConfirmation,
    /// The escrow takes no more confirmations.
    EscrowLocked,
    /// No parties were given.
    EmptyPartyList,
    /// The threshold or the party list differs from the one that the escrow's
    /// first confirmation fixed.
    InvalidThreshold,
}

/// Whether `party` is one of `parties`.
pub open spec fn is_listed(parties: Seq<Address>, party: Seq<char>) -> bool {
    exists|i: int| 0 <= i < parties.len() && #[trigger] parties[i]@ == party
}

/// Whether the record kept for `party` says it has confirmed.
pub open spec fn has_confirmed(store: ConfirmationStorage, escrow_id: u64, party: Seq<char>) -> bool {
    match store.record_of(escrow_id, party) {
        Some(c) => c.state == ConfirmationState::Confirmed,
        None => false,
    }
}

/// Whether the threshold or the party list differs from what is stored for
/// the escrow.
pub open spec fn config_conflicts(
    store: ConfirmationStorage,
    escrow_id: u64,
    parties: Seq<Address>,
    threshold: ConfirmationThreshold,
) -> bool {
    ||| store.threshold_of(escrow_id) matches Some(t) && t != threshold
    ||| store.parties_of(escrow_id) matches Some(ps) && ps != party_keys(parties)
}

/// What `confirm` fails with, if anything; the checks run in this order.
pub open spec fn confirm_error(
    store: ConfirmationStorage,
    escrow_id: u64,
    caller: Seq<char>,
    parties: Seq<Address>,
    threshold: ConfirmationThreshold,
) -> Option<ConfirmationError> {
    if store.status_of(escrow_id) == EscrowConfirmationStatus::Locked {
        Some(ConfirmationError::EscrowLocked)
    } else if parties.len() == 0 {
        Some(ConfirmationError::EmptyPartyList)
    } else if !is_listed(parties, caller) {
        Some(ConfirmationError::UnauthorizedParty)
    } else if has_confirmed(store, escrow_id, caller) {
        Some(ConfirmationError::DuplicateConfirmation)
    } else if config_conflicts(store, escrow_id, parties, threshold) {
        Some(ConfirmationError::InvalidThreshold)
    } else {
        None
    }
}

/// A confirmation on a locked escrow is always refused, whoever asks and
/// whatever the parties.
pub proof fn lemma_locked_refuses(
    store: ConfirmationStorage,
    escrow_id: u64,
    caller: Seq<char>,
    parties: Seq<Address>,
    threshold: ConfirmationThreshold,
)
    requires
        store.status_of(escrow_id) == EscrowConfirmationStatus::Locked,
    ensures
        confirm_error(store, escrow_id, caller, parties, threshold) == Some(
            ConfirmationError::EscrowLocked,
        ),
{
}

/// Counters that never shrink from one state to the next never shrink over a
/// run of states.
pub proof fn lemma_counts_grow_transitive(
    a: ConfirmationStorage,
    b: ConfirmationStorage,
    c: ConfirmationStorage,
)
    requires
        a.counts_grow(&b),
        b.counts_grow(&c),
    ensures
        a.counts_grow(&c),
{
    assert forall|id: u64| #[trigger] c.count_of(id) >= a.count_of(id) by {
        assert(b.count_of(id) >= a.count_of(id));
        assert(c.count_of(id) >= b.count_of(id));
    }
}

/// How a successful confirmation of `caller` at time `now` changes the store:
/// the caller's record says it confirmed, with the counter's new value; the
/// counter goes up by one; the overlay becomes `Confirmed` if the threshold is
/// met; the threshold and the party list are stored; nothing else changes.
pub open spec fn confirmation_recorded(
    before: ConfirmationStorage,
    after: ConfirmationStorage,
    escrow_id: u64,
    caller: Address,
    parties: Seq<Address>,
    threshold: ConfirmationThreshold,
    now: u64,
) -> bool {
    let count = (before.count_of(escrow_id) + 1) as u32;
    let met = threshold_met(threshold, count as int, parties.len() as int);
    &&& forall|id: u64, p: Seq<char>| #[trigger]
        after.record_of(id, p) == if id == escrow_id && p == caller@ {
            Some(
                PartyConfirmation {
                    address: caller,
                    state: ConfirmationState::Confirmed,
                    confirmed_at: now,
                    confirmation_count: count,
                },
            )
        } else {
            before.record_of(id, p)
        }
    &&& forall|id: u64| #[trigger]
        after.count_of(id) == if id == escrow_id {
            count
        } else {
            before.count_of(id)
        }
    &&& forall|id: u64| #[trigger]
        after.status_of(id) == if id == escrow_id && met {
            EscrowConfirmationStatus::Confirmed
        } else {
            before.status_of(id)
        }
    &&& forall|id: u64| #[trigger]
        after.threshold_of(id) == if id == escrow_id {
            Some(threshold)
        } else {
            before.threshold_of(id)
        }
    &&& forall|id: u64| #[trigger]
        after.parties_of(id) == if id == escrow_id {
            Some(party_keys(parties))
        } else {
            before.parties_of(id)
        }
}

/// How many entries of `parties` have confirmed the escrow.
pub open spec fn confirmed_among(store: ConfirmationStorage, escrow_id: u64, parties: Seq<Seq<char>>) -> nat
    decreases parties.len(),
{
    if parties.len() == 0 {
        0
    } else {
        confirmed_among(store, escrow_id, parties.drop_last()) + if has_confirmed(
            store,
            escrow_id,
            parties.last(),
        ) {
            1nat
        } else {
            0nat
        }
    }
}

/// The counter of an escrow is covered by its stored party list: it is zero
/// while no list is stored, and otherwise at most the number of listed
/// entries that have confirmed.
pub open spec fn count_within_parties(store: ConfirmationStorage, escrow_id: u64) -> bool {
    match store.parties_of(escrow_id) {
        None => store.count_of(escrow_id) == 0,
        Some(ps) => store.count_of(escrow_id) <= confirmed_among(store, escrow_id, ps),
    }
}

pub proof fn lemma_confirmed_among_bounded(store: ConfirmationStorage, escrow_id: u64, ps: Seq<Seq<char>>)
    ensures
        confirmed_among(store, escrow_id, ps) <= ps.len(),
    decreases ps.len(),
{
    if ps.len() > 0 {
        lemma_confirmed_among_bounded(store, escrow_id, ps.drop_last());
    }
}

/// Where no party stops having confirmed, the count among `ps` does not drop,
/// and it rises by at least one where a listed party `c` newly confirmed.
pub proof fn lemma_confirmed_among_grows(
    before: ConfirmationStorage,
    after: ConfirmationStorage,
    escrow_id: u64,
    ps: Seq<Seq<char>>,
    c: Seq<char>,
)
    requires
        forall|p: Seq<char>| #[trigger]
            has_confirmed(before, escrow_id, p) ==> has_confirmed(after, escrow_id, p),
        has_confirmed(after, escrow_id, c),
        !has_confirmed(before, escrow_id, c),
    ensures
        confirmed_among(after, escrow_id, ps) >= confirmed_among(before, escrow_id, ps),
        ps.contains(c) ==> confirmed_among(after, escrow_id, ps) >= confirmed_among(
            before,
            escrow_id,
            ps,
        ) + 1,
    decreases ps.len(),
{
    if ps.len() > 0 {
        let q = ps.drop_last();
        lemma_confirmed_among_grows(before, after, escrow_id, q, c);
        assert(has_confirmed(before, escrow_id, ps.last()) ==> has_confirmed(after, escrow_id, ps.last()));
        if ps.contains(c) && ps.last() != c {
            let i = choose|i: int| 0 <= i < ps.len() && ps[i] == c;
            assert(i != ps.len() - 1);
            assert(q[i] == c);
            assert(q.contains(c));
        }
    }
}

/// Over any run of successful confirmations of one escrow, all with the same
/// parties (as the stored list enforces), the counter stays within the number
/// of listed parties that have confirmed, hence within the number of parties;
/// so a custom requirement above the number of parties is never met.
pub proof fn lemma_confirm_count_within_parties(
    before: ConfirmationStorage,
    after: ConfirmationStorage,
    escrow_id: u64,
    caller: Address,
    parties: Seq<Address>,
    threshold: ConfirmationThreshold,
    now: u64,
)
    requires
        count_within_parties(before, escrow_id),
        confirm_error(before, escrow_id, caller@, parties, threshold) is None,
        confirmation_recorded(before, after, escrow_id, caller, parties, threshold, now),
        before.count_of(escrow_id) < u32::MAX,
    ensures
        count_within_parties(after, escrow_id),
        after.count_of(escrow_id) <= parties.len(),
        threshold matches ConfirmationThreshold::Custom(k) && k > parties.len() ==> !threshold_met(
            threshold,
            after.count_of(escrow_id) as int,
            parties.len() as int,
        ),
{
    let ps = party_keys(parties);
    assert(after.parties_of(escrow_id) == Some(ps));
    assert forall|p: Seq<char>| #[trigger]
        has_confirmed(before, escrow_id, p) implies has_confirmed(after, escrow_id, p) by {
        assert(after.record_of(escrow_id, p) == before.record_of(escrow_id, p) || p == caller@);
    }
    assert(after.record_of(escrow_id, caller@) is Some);
    assert(has_confirmed(after, escrow_id, caller@));
    let i = choose|i: int| 0 <= i < parties.len() && #[trigger] parties[i]@ == caller@;
    assert(ps[i] == caller@);
    assert(ps.contains(caller@));
    lemma_confirmed_among_grows(before, after, escrow_id, ps, caller@);
    lemma_confirmed_among_bounded(after, escrow_id, ps);
    assert(after.count_of(escrow_id) == before.count_of(escrow_id) + 1);
    if before.parties_of(escrow_id) is None {
        assert(before.count_of(escrow_id) == 0);
        assert(confirmed_among(after, escrow_id, ps) >= 1);
    } else {
        assert(before.parties_of(escrow_id) == Some(ps));
    }
}

/// One call of `confirm` on an escrow: a refused call leaves the store as it
/// was; an accepted one, made with the counter below its limit as `confirm`
/// requires, records the confirmation.
pub open spec fn confirm_step(
    before: ConfirmationStorage,
    after: ConfirmationStorage,
    escrow_id: u64,
    caller: Address,
    parties: Seq<Address>,
    threshold: ConfirmationThreshold,
    now: u64,
) -> bool {
    match confirm_error(before, escrow_id, caller@, parties, threshold) {
        Some(_) => after == before,
        None => before.count_of(escrow_id) < u32::MAX && confirmation_recorded(
            before,
            after,
            escrow_id,
            caller,
            parties,
            threshold,
            now,
        ),
    }
}

/// What holds after the first `n` calls of a run of `confirm` calls, as in
/// `lemma_confirm_run_within_parties`.
pub proof fn lemma_confirm_run_prefix(
    states: Seq<ConfirmationStorage>,
    escrow_id: u64,
    callers: Seq<Address>,
    times: Seq<u64>,
    parties: Seq<Address>,
    threshold: ConfirmationThreshold,
    n: int,
)
    requires
        states.len() == callers.len() + 1,
        times.len() == callers.len(),
        0 <= n < states.len(),
        states[0].parties_of(escrow_id) is None,
        states[0].count_of(escrow_id) == 0,
        forall|i: int|
            0 <= i < callers.len() ==> #[trigger] confirm_step(
                states[i],
                states[i + 1],
                escrow_id,
                callers[i],
                parties,
                threshold,
                times[i],
            ),
    ensures
        count_within_parties(states[n], escrow_id),
        states[n].parties_of(escrow_id) is None || states[n].parties_of(escrow_id) == Some(
            party_keys(parties),
        ),
        states[n].count_of(escrow_id) <= parties.len(),
        threshold matches ConfirmationThreshold::Custom(k) && k > parties.len()
            && states[0].status_of(escrow_id) != EscrowConfirmationStatus::Confirmed
            ==> states[n].status_of(escrow_id) != EscrowConfirmationStatus::Confirmed,
    decreases n,
{
    if n > 0 {
        lemma_confirm_run_prefix(states, escrow_id, callers, times, parties, threshold, n - 1);
        let i = n - 1;
        assert(confirm_step(states[i], states[i + 1], escrow_id, callers[i], parties, threshold, times[i]));
        let (before, after) = (states[i], states[n]);
        if confirm_error(before, escrow_id, callers[n - 1]@, parties, threshold) is None {
            lemma_confirm_count_within_parties(
                before,
                after,
                escrow_id,
                callers[n - 1],
                parties,
                threshold,
                times[n - 1],
            );
            assert(after.parties_of(escrow_id) == Some(party_keys(parties)));
        }
    }
    if let Some(ps) = states[n].parties_of(escrow_id) {
        lemma_confirmed_among_bounded(states[n], escrow_id, ps);
        assert(ps.len() == parties.len());
    }
}

/// Over any run of `confirm` calls on an escrow that starts with no
/// confirmation state, all made with the same parties and threshold, the
/// counter never exceeds the number of parties; so a custom requirement above
/// that number is never met, and the overlay never becomes `Confirmed`.
pub proof fn lemma_confirm_run_within_parties(
    states: Seq<ConfirmationStorage>,
    escrow_id: u64,
    callers: Seq<Address>,
    times: Seq<u64>,
    parties: Seq<Address>,
    threshold: ConfirmationThreshold,
)
    requires
        states.len() == callers.len() + 1,
        times.len() == callers.len(),
        states[0].parties_of(escrow_id) is None,
        states[0].count_of(escrow_id) == 0,
        forall|i: int|
            0 <= i < callers.len() ==> #[trigger] confirm_step(
                states[i],
                states[i + 1],
                escrow_id,
                callers[i],
                parties,
                threshold,
                times[i],
            ),
    ensures
        forall|i: int| 0 <= i < states.len() ==> #[trigger] states[i].count_of(escrow_id) <= parties.len(),
        threshold matches ConfirmationThreshold::Custom(k) && k > parties.len()
            && states[0].status_of(escrow_id) != EscrowConfirmationStatus::Confirmed
            ==> forall|i: int|
            0 <= i < states.len() ==> #[trigger] states[i].status_of(escrow_id)
                != EscrowConfirmationStatus::Confirmed,
{
    assert forall|i: int| 0 <= i < states.len() implies #[trigger] states[i].count_of(escrow_id)
        <= parties.len() by {
        lemma_confirm_run_prefix(states, escrow_id, callers, times, parties, threshold, i);
    }
    if threshold matches ConfirmationThreshold::Custom(k) && k > parties.len()
        && states[0].status_of(escrow_id) != EscrowConfirmationStatus::Confirmed {
        assert forall|i: int| 0 <= i < states.len() implies #[trigger] states[i].status_of(escrow_id)
            != EscrowConfirmationStatus::Confirmed by {
            lemma_confirm_run_prefix(states, escrow_id, callers, times, parties, threshold, i);
        }
    }
}

/// The confirmation ledger's operations, over the durable records.
pub struct ConfirmationLogic;

impl ConfirmationLogic {
    /// Records that `caller` confirms the escrow at time `now`, and reports
    /// whether the threshold is met with this confirmation; if it is, the
    /// overlay becomes `Confirmed`. The first confirmation of an escrow fixes
    /// its threshold and party list; a later call with others is refused.
    pub fn confirm(
        store: &mut ConfirmationStorage,
        now: u64,
        escrow_id: u64,
        caller: &Address,
        parties: Vec<Address>,
        threshold: ConfirmationThreshold,
    ) -> (r: Result<ConfirmationEvent, ConfirmationError>)
        requires
            old(store).wf(),
            parties@.len() <= u32::MAX,
            confirm_error(*old(store), escrow_id, caller@, parties@, threshold) is None
                ==> old(store).count_of(escrow_id) < u32::MAX,
        ensures
            final(store).wf(),
            old(store).counts_grow(&*final(store)),
            confirm_step(*old(store), *final(store), escrow_id, *caller, parties@, threshold, now),
            match confirm_error(*old(store), escrow_id, caller@, parties@, threshold) {
                Some(e) => r == Err::<ConfirmationEvent, ConfirmationError>(e) && *final(store)
                    == *old(store),
                None => {
                    let count = (old(store).count_of(escrow_id) + 1) as u32;
                    let met = threshold_met(threshold, count as int, parties@.len() as int);
                    &&& r == Ok::<ConfirmationEvent, ConfirmationError>(
                        ConfirmationEvent {
                            escrow_id,
                            party: *caller,
                            confirmed_at: now,
                            confirmations_count: count,
                            threshold_met: met,
                        },
                    )
                    &&& confirmation_recorded(
                        *old(store),
                        *final(store),
                        escrow_id,
                        *caller,
                        parties@,
                        threshold,
                        now,
                    )
                },
            },
    {
        let status = store.get_status(escrow_id);
        if status == EscrowConfirmationStatus::Locked {
            return Err(ConfirmationError::EscrowLocked);
        }
        if parties.len() == 0 {
            return Err(ConfirmationError::EmptyPartyList);
        }
        if !Self::is_authorized_party(caller, &parties) {
            return Err(ConfirmationError::UnauthorizedParty);
        }
        if let Some(existing) = store.get_party_confirmation(escrow_id, caller) {
            if existing.state == ConfirmationState::Confirmed {
                return Err(ConfirmationError::DuplicateConfirmation);
            }
        }
        if let Some(stored) = store.get_threshold_config(escrow_id) {
            if stored != threshold {
                return Err(ConfirmationError::InvalidThreshold);
            }
        }
        if let Some(stored) = store.get_parties_list(escrow_id) {
            if !same_parties(stored, &parties) {
                return Err(ConfirmationError::InvalidThreshold);
            }
        }
        let confirmation_count = store.get_confirmation_count(escrow_id) + 1;
        let confirmation = PartyConfirmation {
            address: caller.duplicate(),
            state: ConfirmationState::Confirmed,
            confirmed_at: now,
            confirmation_count,
        };
        store.set_party_confirmation(escrow_id, caller, confirmation);
        store.increment_confirmation_count(escrow_id);
        let total_parties = parties.len() as u32;
        store.set_threshold_config(escrow_id, threshold);
        store.set_parties_list(escrow_id, parties);
        let threshold_met = ThresholdLogic::is_threshold_met(
            threshold,
            confirmation_count,
            total_parties,
        );
        if threshold_met {
            store.set_status(escrow_id, EscrowConfirmationStatus::Confirmed);
        }
        Ok(
            ConfirmationEvent {
                escrow_id,
                party: caller.duplicate(),
                confirmed_at: now,
                confirmations_count: confirmation_count,
                threshold_met,
            },
        )
    }

    /// Whether `address` is one of `parties`.
    fn is_authorized_party(address: &Address, parties: &Vec<Address>) -> (r: bool)
        ensures
            r == is_listed(parties@, address@),
    {
        let mut i: usize = 0;
        while i < parties.len()
            invariant
                i <= parties@.len(),
                forall|j: int| 0 <= j < i ==> #[trigger] parties@[j]@ != address@,
            decreases parties@.len() - i,
        {
            if parties[i] == *address {
                return true;
            }
            i = i + 1;
        }
        false
    }

    /// The overlay status of an escrow.
    pub fn get_escrow_status(store: &ConfirmationStorage, escrow_id: u64) -> (r:
        EscrowConfirmationStatus)
        ensures
            r == store.status_of(escrow_id),
    {
        store.get_status(escrow_id)
    }

    /// How many confirmations an escrow has had.
    pub fn get_confirmation_count(store: &ConfirmationStorage, escrow_id: u64) -> (r: u32)
        ensures
            r == store.count_of(escrow_id),
    {
        store.get_confirmation_count(escrow_id)
    }

    /// Where `party` stands, if it has a record.
    pub fn get_party_state(store: &ConfirmationStorage, escrow_id: u64, party: &Address) -> (r:
        Option<ConfirmationState>)
        requires
            store.wf(),
        ensures
            r == match store.record_of(escrow_id, party@) {
                Some(c) => Some(c.state),
                None => None::<ConfirmationState>,
            },
    {
        match store.get_party_confirmation(escrow_id, party) {
            Some(conf) => Some(conf.state),
            None => None,
        }
    }

    /// Closes an escrow to further confirmations, as is done once it is
    /// completed or cancelled.
    pub fn lock_escrow(store: &mut ConfirmationStorage, escrow_id: u64)
        requires
            old(store).wf(),
        ensures
            final(store).wf(),
            old(store).same_records(&*final(store)),
            old(store).counts_grow(&*final(store)),
            forall|id: u64| #[trigger]
                final(store).status_of(id) == if id == escrow_id {
                    EscrowConfirmationStatus::Locked
                } else {
                    old(store).status_of(id)
                },
    {
        store.set_status(escrow_id, EscrowConfirmationStatus::Locked);
    }

    /// How many more confirmations the policy asks for, with a custom
    /// requirement capped at `total_parties`.
    pub fn get_remaining_confirmations(
        store: &ConfirmationStorage,
        escrow_id: u64,
        total_parties: u32,
        threshold: ConfirmationThreshold,
    ) -> (r: u32)
        ensures
            r == remaining_confirmations(
                threshold,
                store.count_of(escrow_id) as int,
                total_parties as int,
            ),
    {
        let confirmations = store.get_confirmation_count(escrow_id);
        ThresholdLogic::get_remaining_confirmations(threshold, confirmations, total_parties)
    }

    /// Whether `party` may still confirm: the escrow is not locked and the
    /// party has not confirmed.
    pub fn can_confirm(store: &ConfirmationStorage, escrow_id: u64, party: &Address) -> (r: bool)
        requires
            store.wf(),
        ensures
            r == (store.status_of(escrow_id) != EscrowConfirmationStatus::Locked && !has_confirmed(
                *store,
                escrow_id,
                party@,
            )),
    {
        let status = store.get_status(escrow_id);
        if status == EscrowConfirmationStatus::Locked {
            return false;
        }
        match store.get_party_confirmation(escrow_id, party) {
            Some(conf) => conf.state != ConfirmationState::Confirmed,
            None => true,
        }
    }
}

} // verus!
