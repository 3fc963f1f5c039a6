use std::collections::HashMap;

use vstd::prelude::*;

use crate::address::Address;
use crate::types::DataKey;

verus! {

broadcast use vstd::std_specs::hash::group_hash_axioms;

/// The most milestones one escrow may hold.
pub const MAX_MILESTONES: usize = 20;

#[derive(Clone, Copy, PartialEq, Eq, Debug, Structural)]
pub enum MilestoneStatus {
    Pending,
    Released,
    /// Declared for later use; no operation produces it.
    Disputed,
}

/// One tranche of an escrow, paid out on its own.
#[derive(Clone, Debug)]
pub struct Milestone {
    pub amount: i128,
    pub status: MilestoneStatus,
    pub description: String,
}

#[derive(Clone, Copy, PartialEq, Eq, Debug, Structural)]
pub enum EscrowStatus {
    /// Created, not yet funded.
    Created,
    /// Funded and held in custody.
    Active,
    /// Every milestone paid out.
    Completed,
    /// Called off; any funds went back to the depositor.
    Cancelled,
}

#[derive(Clone, Copy, PartialEq, Eq, Debug, Structural)]
pub enum Error {
    EscrowNotFound,
    EscrowAlreadyExists,
    MilestoneNotFound,
    MilestoneAlreadyReleased,
    UnauthorizedAccess,
    InvalidMilestoneAmount,
    TotalAmountMismatch,
    InsufficientBalance,
    EscrowNotActive,
    VectorTooLarge,
    ZeroAmount,
    InvalidDeadline,
    SelfDealing,
    EscrowAlreadyFunded,
    TokenTransferFailed,
}

/// The sum of the milestones' amounts.
pub open spec fn sum_amounts(ms: Seq<Milestone>) -> int
    decreases ms.len(),
{
    if ms.len() == 0 {
        0
    } else {
        sum_amounts(ms.drop_last()) + ms.last().amount
    }
}

/// The amount a milestone has paid out: all of it once released, else nothing.
pub open spec fn paid(m: Milestone) -> int {
    if m.status == MilestoneStatus::Released {
        m.amount as int
    } else {
        0
    }
}

/// The sum of the released milestones' amounts.
pub open spec fn released_amounts(ms: Seq<Milestone>) -> int
    decreases ms.len(),
{
    if ms.len() == 0 {
        0
    } else {
        released_amounts(ms.drop_last()) + paid(ms.last())
    }
}

pub open spec fn amounts_positive(ms: Seq<Milestone>) -> bool {
    forall|i: int| 0 <= i < ms.len() ==> #[trigger] ms[i].amount > 0
}

pub open spec fn all_released(ms: Seq<Milestone>) -> bool {
    forall|i: int| 0 <= i < ms.len() ==> #[trigger] ms[i].status == MilestoneStatus::Released
}

pub open spec fn none_released(ms: Seq<Milestone>) -> bool {
    forall|i: int| 0 <= i < ms.len() ==> #[trigger] ms[i].status != MilestoneStatus::Released
}

/// Adding up the amounts in order: the first amount that is not positive stops
/// the scan with `ZeroAmount`, the first that takes the running total past the
/// largest `i128` stops it with `InvalidMilestoneAmount`.
pub open spec fn scan_amounts(ms: Seq<Milestone>) -> Result<int, Error>
    decreases ms.len(),
{
    if ms.len() == 0 {
        Ok(0)
    } else {
        match scan_amounts(ms.drop_last()) {
            Ok(total) => if ms.last().amount <= 0 {
                Err(Error::ZeroAmount)
            } else if total + ms.last().amount > i128::MAX {
                Err(Error::InvalidMilestoneAmount)
            } else {
                Ok(total + ms.last().amount)
            },
            Err(e) => Err(e),
        }
    }
}

/// What validating a milestone list yields: its total, or the first fault.
/// An empty list is refused with `ZeroAmount`: its total would be zero.
pub open spec fn milestones_outcome(ms: Seq<Milestone>) -> Result<int, Error> {
    if ms.len() > MAX_MILESTONES {
        Err(Error::VectorTooLarge)
    } else if ms.len() == 0 {
        Err(Error::ZeroAmount)
    } else {
        scan_amounts(ms)
    }
}

pub proof fn lemma_scan_ok(ms: Seq<Milestone>)
    requires
        scan_amounts(ms) is Ok,
    ensures
        scan_amounts(ms) == Ok::<int, Error>(sum_amounts(ms)),
        amounts_positive(ms),
        0 <= sum_amounts(ms) <= i128::MAX,
    decreases ms.len(),
{
    if ms.len() > 0 {
        lemma_scan_ok(ms.drop_last());
        assert forall|i: int| 0 <= i < ms.len() implies #[trigger] ms[i].amount > 0 by {
            if i < ms.len() - 1 {
                assert(ms.drop_last()[i] == ms[i]);
            }
        }
    }
}

pub proof fn lemma_scan_err_extends(ms: Seq<Milestone>, n: int)
    requires
        0 <= n <= ms.len(),
        scan_amounts(ms.subrange(0, n)) is Err,
    ensures
        scan_amounts(ms) == scan_amounts(ms.subrange(0, n)),
    decreases ms.len() - n,
{
    if n < ms.len() {
        assert(ms.subrange(0, n + 1).drop_last() =~= ms.subrange(0, n));
        lemma_scan_err_extends(ms, n + 1);
    } else {
        assert(ms.subrange(0, n) =~= ms);
    }
}

/// Checks the milestone list and returns the sum of its amounts.
pub fn validate_milestones(milestones: &Vec<Milestone>) -> (r: Result<i128, Error>)
    ensures
        match r {
            Ok(total) => milestones_outcome(milestones@) == Ok::<int, Error>(total as int),
            Err(e) => milestones_outcome(milestones@) == Err::<int, Error>(e),
        },
{
    if milestones.len() > MAX_MILESTONES {
        return Err(Error::VectorTooLarge);
    }
    if milestones.len() == 0 {
        return Err(Error::ZeroAmount);
    }
    let mut total: i128 = 0;
    let mut i: usize = 0;
    while i < milestones.len()
        invariant
            i <= milestones@.len() <= MAX_MILESTONES,
            scan_amounts(milestones@.subrange(0, i as int)) == Ok::<int, Error>(total as int),
        decreases milestones@.len() - i,
    {
        let amount = milestones[i].amount;
        assert(milestones@.subrange(0, i + 1).drop_last() =~= milestones@.subrange(0, i as int));
        if amount <= 0 {
            proof {
                lemma_scan_err_extends(milestones@, i + 1);
            }
            return Err(Error::ZeroAmount);
        }
        match total.checked_add(amount) {
            Some(t) => {
                total = t;
            },
            None => {
                proof {
                    lemma_scan_err_extends(milestones@, i + 1);
                }
                return Err(Error::InvalidMilestoneAmount);
            },
        }
        i = i + 1;
    }
    assert(milestones@.subrange(0, i as int) =~= milestones@);
    Ok(total)
}

pub proof fn lemma_same_amounts(a: Seq<Milestone>, b: Seq<Milestone>)
    requires
        a.len() == b.len(),
        forall|i: int| 0 <= i < a.len() ==> #[trigger] a[i].amount == b[i].amount,
    ensures
        sum_amounts(a) == sum_amounts(b),
    decreases a.len(),
{
    if a.len() > 0 {
        assert forall|i: int| 0 <= i < a.len() - 1 implies #[trigger] a.drop_last()[i].amount
            == b.drop_last()[i].amount by {
            assert(a[i].amount == b[i].amount);
        }
        lemma_same_amounts(a.drop_last(), b.drop_last());
    }
}

/// Replacing one milestone by another of the same amount keeps the sum, and
/// changes what was paid by the difference of the two.
pub proof fn lemma_update_sums(ms: Seq<Milestone>, i: int, m: Milestone)
    requires
        0 <= i < ms.len(),
        m.amount == ms[i].amount,
    ensures
        sum_amounts(ms.update(i, m)) == sum_amounts(ms),
        released_amounts(ms.update(i, m)) == released_amounts(ms) - paid(ms[i]) + paid(m),
    decreases ms.len(),
{
    let u = ms.update(i, m);
    if i == ms.len() - 1 {
        assert(u.drop_last() =~= ms.drop_last());
    } else {
        assert(u.drop_last() =~= ms.drop_last().update(i, m));
        lemma_update_sums(ms.drop_last(), i, m);
    }
}

/// With positive amounts, what was paid lies between nothing and the total,
/// is nothing exactly when no milestone is released, is the total when all
/// are, and covers each released milestone.
pub proof fn lemma_released_bounds(ms: Seq<Milestone>)
    requires
        amounts_positive(ms),
    ensures
        0 <= released_amounts(ms) <= sum_amounts(ms),
        none_released(ms) <==> released_amounts(ms) == 0,
        all_released(ms) ==> released_amounts(ms) == sum_amounts(ms),
        forall|i: int|
            0 <= i < ms.len() && #[trigger] ms[i].status == MilestoneStatus::Released
                ==> released_amounts(ms) >= ms[i].amount,
    decreases ms.len(),
{
    if ms.len() > 0 {
        let p = ms.drop_last();
        assert forall|i: int| 0 <= i < p.len() implies #[trigger] p[i].amount > 0 by {
            assert(p[i] == ms[i]);
        }
        lemma_released_bounds(p);
        assert(ms.last() == ms[ms.len() - 1]);
        if none_released(ms) {
            assert forall|i: int| 0 <= i < p.len() implies #[trigger] p[i].status
                != MilestoneStatus::Released by {
                assert(p[i] == ms[i]);
            }
        }
        if released_amounts(ms) == 0 {
            assert forall|i: int| 0 <= i < ms.len() implies #[trigger] ms[i].status
                != MilestoneStatus::Released by {
                if i < p.len() {
                    assert(p[i] == ms[i]);
                }
            }
        }
        if all_released(ms) {
            assert forall|i: int| 0 <= i < p.len() implies #[trigger] p[i].status
                == MilestoneStatus::Released by {
                assert(p[i] == ms[i]);
            }
        }
        assert forall|i: int|
            0 <= i < ms.len() && #[trigger] ms[i].status == MilestoneStatus::Released
                implies released_amounts(ms) >= ms[i].amount by {
            if i < p.len() {
                assert(p[i] == ms[i]);
            }
        }
    }
}

/// A milestone as an escrow stores it on creation: same amount and label, pending.
pub open spec fn as_pending(m: Milestone) -> Milestone {
    Milestone { amount: m.amount, status: MilestoneStatus::Pending, description: m.description }
}

/// A milestone once paid out.
pub open spec fn as_released(m: Milestone) -> Milestone {
    Milestone { amount: m.amount, status: MilestoneStatus::Released, description: m.description }
}

/// An escrow record: its milestones, the funded and paid-out amounts, and its
/// parties.
#[derive(Clone, Debug)]
pub struct Escrow {
    pub depositor: Address,
    pub recipient: Address,
    pub token_address: Address,
    pub total_amount: i128,
    pub total_released: i128,
    pub milestones: Vec<Milestone>,
    pub status: EscrowStatus,
    /// Advisory; no operation checks it.
    pub deadline: u64,
}

impl Escrow {
    /// The record's accounting: between one and `MAX_MILESTONES` milestones,
    /// each of a positive amount, so the total is positive; the total is their sum and the released amount the sum
    /// of those paid out; nothing is paid out before funding or in a cancelled
    /// escrow, and everything is in a completed one.
    pub open spec fn wf(&self) -> bool {
        let ms = self.milestones@;
        &&& 0 < ms.len() <= MAX_MILESTONES
        &&& amounts_positive(ms)
        &&& self.total_amount == sum_amounts(ms)
        &&& self.total_released == released_amounts(ms)
        &&& (self.status == EscrowStatus::Created || self.status == EscrowStatus::Cancelled)
            ==> none_released(ms)
        &&& self.status == EscrowStatus::Completed ==> all_released(ms)
    }

    /// The fields that no operation changes after creation.
    pub open spec fn same_terms(&self, other: &Escrow) -> bool {
        &&& other.depositor == self.depositor
        &&& other.recipient == self.recipient
        &&& other.token_address == self.token_address
        &&& other.total_amount == self.total_amount
        &&& other.deadline == self.deadline
    }

    /// What every change keeps: the terms stay, the milestones keep position
    /// and amount, a released milestone stays released, and the released total
    /// does not shrink.
    pub open spec fn keeps_payouts(&self, next: &Escrow) -> bool {
        let a = self.milestones@;
        let b = next.milestones@;
        &&& self.same_terms(next)
        &&& b.len() == a.len()
        &&& forall|i: int|
            0 <= i < a.len() ==> #[trigger] b[i].amount == a[i].amount && (a[i].status
                == MilestoneStatus::Released ==> b[i].status == MilestoneStatus::Released)
        &&& self.total_released <= next.total_released
    }

    /// How one operation may change a record: it keeps the payouts and its
    /// status takes one allowed step.
    pub open spec fn evolves_to(&self, next: &Escrow) -> bool {
        &&& self.keeps_payouts(next)
        &&& status_step(self.status, next.status)
    }

    /// How any run of operations may change a record: it keeps the payouts and
    /// its status only moves forward.
    pub open spec fn reaches(&self, next: &Escrow) -> bool {
        &&& self.keeps_payouts(next)
        &&& status_advances(self.status, next.status)
    }
}

/// One operation's move of the status: `Created` to `Active` or `Cancelled`,
/// `Active` to `Completed` or `Cancelled`, or no move; `Completed` and
/// `Cancelled` stay where they are.
pub open spec fn status_step(from: EscrowStatus, to: EscrowStatus) -> bool {
    ||| from == to
    ||| from == EscrowStatus::Created && (to == EscrowStatus::Active || to
        == EscrowStatus::Cancelled)
    ||| from == EscrowStatus::Active && (to == EscrowStatus::Completed || to
        == EscrowStatus::Cancelled)
}

/// The status has moved forward along `Created -> Active -> Completed`, or to
/// `Cancelled` from `Created` or `Active`, over any number of steps, or stayed.
pub open spec fn status_advances(from: EscrowStatus, to: EscrowStatus) -> bool {
    ||| status_step(from, to)
    ||| from == EscrowStatus::Created && to == EscrowStatus::Completed
}

/// The position of a status along the lifecycle.
pub open spec fn status_rank(s: EscrowStatus) -> int {
    match s {
        EscrowStatus::Created => 0,
        EscrowStatus::Active => 1,
        EscrowStatus::Completed => 2,
        EscrowStatus::Cancelled => 2,
    }
}

/// The status never goes back: it stays or moves to a later stage of the
/// lifecycle, and Completed and Cancelled are never left.
pub proof fn lemma_status_never_goes_back(from: EscrowStatus, to: EscrowStatus)
    requires
        status_advances(from, to),
    ensures
        status_rank(from) <= status_rank(to),
        from != to ==> status_rank(from) < status_rank(to),
        (from == EscrowStatus::Completed || from == EscrowStatus::Cancelled) ==> to == from,
{
}

/// In every well-formed record the released amount lies between zero and the
/// total, and the total is the sum of the milestone amounts.
pub proof fn lemma_escrow_accounting(e: Escrow)
    requires
        e.wf(),
    ensures
        0 <= e.total_released <= e.total_amount,
        e.total_amount == sum_amounts(e.milestones@),
{
    lemma_released_bounds(e.milestones@);
}

/// A change made by one operation is a change that a run may make.
pub proof fn lemma_step_reaches(a: &VaultixEscrow, b: &VaultixEscrow)
    requires
        a.evolves_to(b),
    ensures
        a.reaches(b),
{
    assert forall|id: u64| #[trigger] a@.contains_key(id) implies b@.contains_key(id)
        && a@[id].reaches(&b@[id]) by {
        assert(a@[id].evolves_to(&b@[id]));
    }
}

/// Runs add up: over any run of operations a released milestone stays
/// released and a status never returns to an earlier stage.
pub proof fn lemma_reaches_transitive(a: &VaultixEscrow, b: &VaultixEscrow, c: &VaultixEscrow)
    requires
        a.reaches(b),
        b.reaches(c),
    ensures
        a.reaches(c),
{
    assert forall|id: u64| #[trigger] a@.contains_key(id) implies c@.contains_key(id)
        && a@[id].reaches(&c@[id]) by {
        assert(b@.contains_key(id));
        let (x, y, z) = (a@[id], b@[id], c@[id]);
        assert(x.reaches(&y));
        assert(y.reaches(&z));
        assert forall|i: int| 0 <= i < x.milestones@.len() implies #[trigger] z.milestones@[i].amount
            == x.milestones@[i].amount && (x.milestones@[i].status == MilestoneStatus::Released
            ==> z.milestones@[i].status == MilestoneStatus::Released) by {
            assert(y.milestones@[i].amount == x.milestones@[i].amount);
            assert(z.milestones@[i].amount == y.milestones@[i].amount);
        }
        assert(c@.contains_key(id));
        assert(x.same_terms(&z));
        assert(z.milestones@.len() == x.milestones@.len());
        assert(x.total_released <= z.total_released);
        assert(x.keeps_payouts(&z));
        assert(status_advances(x.status, z.status));
    }
}

/// Releasing a milestone that was already released never succeeds, and once
/// the escrow is found, the caller is its depositor and it is active, the
/// refusal is `MilestoneAlreadyReleased`.
pub proof fn lemma_released_milestone_refused(
    ledger: Map<u64, Escrow>,
    caller: Seq<char>,
    escrow_id: u64,
    index: u32,
)
    requires
        ledger.contains_key(escrow_id),
        index < ledger[escrow_id].milestones@.len(),
        ledger[escrow_id].milestones@[index as int].status == MilestoneStatus::Released,
    ensures
        release_error(ledger, caller, escrow_id, index) is Some,
        caller == ledger[escrow_id].depositor@ && ledger[escrow_id].status == EscrowStatus::Active
            ==> release_error(ledger, caller, escrow_id, index) == Some(
            Error::MilestoneAlreadyReleased,
        ),
{
}

pub proof fn lemma_prefix_sum_bounded(ms: Seq<Milestone>, n: int)
    requires
        amounts_positive(ms),
        0 <= n <= ms.len(),
    ensures
        sum_amounts(ms.subrange(0, n)) <= sum_amounts(ms),
    decreases ms.len() - n,
{
    if n < ms.len() {
        assert(ms.subrange(0, n + 1).drop_last() =~= ms.subrange(0, n));
        assert(ms.subrange(0, n + 1).last() == ms[n]);
        lemma_prefix_sum_bounded(ms, n + 1);
    } else {
        assert(ms.subrange(0, n) =~= ms);
    }
}

impl Escrow {
    /// Whether the record's accounting holds, as `wf` states it.
    pub fn is_consistent(&self) -> (r: bool)
        ensures
            r == self.wf(),
    {
        let ms = &self.milestones;
        if ms.len() == 0 || ms.len() > MAX_MILESTONES {
            return false;
        }
        let mut total: i128 = 0;
        let mut released: i128 = 0;
        let mut any_released = false;
        let mut every_released = true;
        let mut i: usize = 0;
        while i < ms.len()
            invariant
                i <= ms@.len(),
                ms@ == self.milestones@,
                amounts_positive(ms@.subrange(0, i as int)),
                total == sum_amounts(ms@.subrange(0, i as int)),
                released == released_amounts(ms@.subrange(0, i as int)),
                any_released == !none_released(ms@.subrange(0, i as int)),
                every_released == all_released(ms@.subrange(0, i as int)),
            decreases ms@.len() - i,
        {
            let ghost prefix = ms@.subrange(0, i as int);
            let ghost next = ms@.subrange(0, i + 1);
            assert(next.drop_last() =~= prefix);
            assert(next.last() == ms@[i as int]);
            let m = &ms[i];
            if m.amount <= 0 {
                assert(ms@[i as int].amount <= 0);
                return false;
            }
            assert(amounts_positive(next)) by {
                assert forall|j: int| 0 <= j < next.len() implies #[trigger] next[j].amount > 0 by {
                    if j < i {
                        assert(next[j] == prefix[j]);
                    }
                }
            }
            proof {
                lemma_released_bounds(next);
            }
            total = match total.checked_add(m.amount) {
                Some(t) => t,
                None => {
                    proof {
                        if amounts_positive(ms@) {
                            lemma_prefix_sum_bounded(ms@, i + 1);
                        }
                    }
                    return false;
                },
            };
            if m.status == MilestoneStatus::Released {
                released = released + m.amount;
                any_released = true;
            } else {
                every_released = false;
            }
            assert(any_released == !none_released(next)) by {
                if !none_released(prefix) {
                    let j = choose|j: int| 0 <= j < prefix.len() && #[trigger] prefix[j].status
                        == MilestoneStatus::Released;
                    assert(next[j] == prefix[j]);
                }
                if !none_released(next) {
                    let j = choose|j: int| 0 <= j < next.len() && #[trigger] next[j].status
                        == MilestoneStatus::Released;
                    if j < i {
                        assert(next[j] == prefix[j]);
                    }
                }
            }
            assert(every_released == all_released(next)) by {
                if all_released(next) {
                    assert forall|j: int| 0 <= j < prefix.len() implies #[trigger] prefix[j].status
                        == MilestoneStatus::Released by {
                        assert(next[j] == prefix[j]);
                    }
                }
                if every_released {
                    assert forall|j: int| 0 <= j < next.len() implies #[trigger] next[j].status
                        == MilestoneStatus::Released by {
                        if j < i {
                            assert(next[j] == prefix[j]);
                        }
                    }
                }
                if !every_released && !all_released(prefix) {
                    let j = choose|j: int| 0 <= j < prefix.len() && #[trigger] prefix[j].status
                        != MilestoneStatus::Released;
                    assert(next[j] == prefix[j]);
                }
            }
            i = i + 1;
        }
        assert(ms@.subrange(0, i as int) =~= ms@);
        let resting = self.status == EscrowStatus::Created || self.status == EscrowStatus::Cancelled;
        let completed = self.status == EscrowStatus::Completed;
        total == self.total_amount && released == self.total_released && (!resting || !any_released)
            && (!completed || every_released)
    }
}

/// The escrow ledger: one record per escrow id.
pub struct VaultixEscrow {
    escrows: HashMap<u64, Escrow>,
}

impl View for VaultixEscrow {
    type V = Map<u64, Escrow>;

    closed spec fn view(&self) -> Map<u64, Escrow> {
        self.escrows@
    }
}

/// What `create_escrow` fails with, if anything.
pub open spec fn create_error(
    ledger: Map<u64, Escrow>,
    caller: Seq<char>,
    escrow_id: u64,
    depositor: Seq<char>,
    recipient: Seq<char>,
    milestones: Seq<Milestone>,
) -> Option<Error> {
    if caller != depositor {
        Some(Error::UnauthorizedAccess)
    } else if depositor == recipient {
        Some(Error::SelfDealing)
    } else if ledger.contains_key(escrow_id) {
        Some(Error::EscrowAlreadyExists)
    } else {
        match milestones_outcome(milestones) {
            Ok(_) => None,
            Err(e) => Some(e),
        }
    }
}

/// A movement of value that the host carries out for an operation. The
/// operation's new state is to be committed only together with it.
#[derive(Clone, Debug, PartialEq)]
pub enum Transfer {
    /// Pull `amount` of `token` from `from` into custody; `from` must have
    /// granted the allowance.
    IntoCustody { token: Address, from: Address, amount: i128 },
    /// Push `amount` of `token` out of custody to `to`.
    OutOfCustody { token: Address, to: Address, amount: i128 },
}

/// What `deposit_funds` fails with, if anything.
pub open spec fn deposit_error(ledger: Map<u64, Escrow>, caller: Seq<char>, escrow_id: u64) -> Option<
    Error,
> {
    if !ledger.contains_key(escrow_id) {
        Some(Error::EscrowNotFound)
    } else if caller != ledger[escrow_id].depositor@ {
        Some(Error::UnauthorizedAccess)
    } else if ledger[escrow_id].status != EscrowStatus::Created {
        Some(Error::EscrowAlreadyFunded)
    } else {
        None
    }
}

/// What `release_milestone` fails with, if anything.
pub open spec fn release_error(
    ledger: Map<u64, Escrow>,
    caller: Seq<char>,
    escrow_id: u64,
    index: u32,
) -> Option<Error> {
    if !ledger.contains_key(escrow_id) {
        Some(Error::EscrowNotFound)
    } else if caller != ledger[escrow_id].depositor@ {
        Some(Error::UnauthorizedAccess)
    } else if ledger[escrow_id].status != EscrowStatus::Active {
        Some(Error::EscrowNotActive)
    } else if index >= ledger[escrow_id].milestones@.len() {
        Some(Error::MilestoneNotFound)
    } else if ledger[escrow_id].milestones@[index as int].status == MilestoneStatus::Released {
        Some(Error::MilestoneAlreadyReleased)
    } else if ledger[escrow_id].total_released + ledger[escrow_id].milestones@[index as int].amount
        > i128::MAX {
        Some(Error::InvalidMilestoneAmount)
    } else {
        None
    }
}

/// What `cancel_escrow` fails with, if anything.
pub open spec fn cancel_error(ledger: Map<u64, Escrow>, caller: Seq<char>, escrow_id: u64) -> Option<
    Error,
> {
    if !ledger.contains_key(escrow_id) {
        Some(Error::EscrowNotFound)
    } else if caller != ledger[escrow_id].depositor@ {
        Some(Error::UnauthorizedAccess)
    } else if ledger[escrow_id].total_released > 0 {
        Some(Error::MilestoneAlreadyReleased)
    } else if ledger[escrow_id].status != EscrowStatus::Created && ledger[escrow_id].status
        != EscrowStatus::Active {
        Some(Error::EscrowNotActive)
    } else {
        None
    }
}

/// What `complete_escrow` fails with, if anything.
pub open spec fn complete_error(ledger: Map<u64, Escrow>, caller: Seq<char>, escrow_id: u64) -> Option<
    Error,
> {
    if !ledger.contains_key(escrow_id) {
        Some(Error::EscrowNotFound)
    } else if caller != ledger[escrow_id].depositor@ {
        Some(Error::UnauthorizedAccess)
    } else if ledger[escrow_id].status != EscrowStatus::Active || !all_released(
        ledger[escrow_id].milestones@,
    ) {
        Some(Error::EscrowNotActive)
    } else {
        None
    }
}

/// `after` is `before` with its status set to `status` and nothing else changed.
pub open spec fn with_status(before: Escrow, after: Escrow, status: EscrowStatus) -> bool {
    &&& before.same_terms(&after)
    &&& after.total_released == before.total_released
    &&& after.milestones@ == before.milestones@
    &&& after.status == status
}

/// The key under which an escrow's record is stored.
pub fn get_storage_key(escrow_id: u64) -> (r: DataKey)
    ensures
        r == DataKey::Escrow(escrow_id),
{
    DataKey::Escrow(escrow_id)
}

/// Whether every milestone has been released.
pub fn verify_all_released(milestones: &Vec<Milestone>) -> (r: bool)
    ensures
        r == all_released(milestones@),
{
    let mut i: usize = 0;
    while i < milestones.len()
        invariant
            i <= milestones@.len(),
            forall|j: int| 0 <= j < i ==> #[trigger] milestones@[j].status
                == MilestoneStatus::Released,
        decreases milestones@.len() - i,
    {
        if milestones[i].status != MilestoneStatus::Released {
            return false;
        }
        i = i + 1;
    }
    true
}

impl VaultixEscrow {
    /// Every record is well formed.
    pub open spec fn wf(&self) -> bool {
        forall|id: u64| #[trigger] self@.contains_key(id) ==> self@[id].wf()
    }

    /// Each record of `self` is still there in `next`, changed only as
    /// `Escrow::evolves_to` allows.
    pub open spec fn evolves_to(&self, next: &VaultixEscrow) -> bool {
        forall|id: u64| #[trigger]
            self@.contains_key(id) ==> next@.contains_key(id) && self@[id].evolves_to(
                &next@[id],
            )
    }

    /// Each record of `self` is still there in `next`, changed only as
    /// `Escrow::reaches` allows.
    pub open spec fn reaches(&self, next: &VaultixEscrow) -> bool {
        forall|id: u64| #[trigger]
            self@.contains_key(id) ==> next@.contains_key(id) && self@[id].reaches(&next@[id])
    }

    pub fn new() -> (r: VaultixEscrow)
        ensures
            r@ == Map::<u64, Escrow>::empty(),
            r.wf(),
    {
        VaultixEscrow { escrows: HashMap::new() }
    }

    /// Opens a new escrow in `Created` with all milestones pending, on behalf
    /// of `caller`, who must be the depositor. Nothing is transferred yet.
    pub fn create_escrow(
        &mut self,
        caller: &Address,
        escrow_id: u64,
        depositor: Address,
        recipient: Address,
        token_address: Address,
        milestones: Vec<Milestone>,
        deadline: u64,
    ) -> (r: Result<(), Error>)
        requires
            old(self).wf(),
        ensures
            final(self).wf(),
            old(self).evolves_to(&*final(self)),
            match create_error(
                old(self)@,
                caller@,
                escrow_id,
                depositor@,
                recipient@,
                milestones@,
            ) {
                Some(e) => r == Err::<(), Error>(e) && final(self)@ == old(self)@,
                None => {
                    let e = final(self)@[escrow_id];
                    &&& r is Ok
                    &&& final(self)@ == old(self)@.insert(escrow_id, e)
                    &&& e.depositor == depositor
                    &&& e.recipient == recipient
                    &&& e.token_address == token_address
                    &&& e.total_amount == sum_amounts(milestones@)
                    &&& e.total_released == 0
                    &&& e.milestones@ == milestones@.map_values(|m: Milestone| as_pending(m))
                    &&& e.status == EscrowStatus::Created
                    &&& e.deadline == deadline
                },
            },
    {
        if !(*caller == depositor) {
            return Err(Error::UnauthorizedAccess);
        }
        if depositor == recipient {
            return Err(Error::SelfDealing);
        }
        if self.escrows.contains_key(&escrow_id) {
            return Err(Error::EscrowAlreadyExists);
        }
        let total_amount = match validate_milestones(&milestones) {
            Ok(t) => t,
            Err(e) => {
                return Err(e);
            },
        };
        proof {
            lemma_scan_ok(milestones@);
        }
        let ghost pending = milestones@.map_values(|m: Milestone| as_pending(m));
        let mut initialized: Vec<Milestone> = Vec::new();
        let mut i: usize = 0;
        while i < milestones.len()
            invariant
                i <= milestones@.len(),
                pending == milestones@.map_values(|m: Milestone| as_pending(m)),
                initialized@ =~= pending.subrange(0, i as int),
            decreases milestones@.len() - i,
        {
            let m = &milestones[i];
            initialized.push(
                Milestone {
                    amount: m.amount,
                    status: MilestoneStatus::Pending,
                    description: m.description.clone(),
                },
            );
            i = i + 1;
        }
        proof {
            assert(initialized@ =~= pending);
            lemma_same_amounts(pending, milestones@);
            assert(none_released(pending));
            lemma_released_bounds(pending);
        }
        let escrow = Escrow {
            depositor,
            recipient,
            token_address,
            total_amount,
            total_released: 0,
            milestones: initialized,
            status: EscrowStatus::Created,
            deadline,
        };
        self.escrows.insert(escrow_id, escrow);
        Ok(())
    }

    /// Funds a created escrow: it becomes `Active`, and the returned transfer
    /// pulls its total from the depositor into custody.
    pub fn deposit_funds(&mut self, caller: &Address, escrow_id: u64) -> (r: Result<Transfer, Error>)
        requires
            old(self).wf(),
        ensures
            final(self).wf(),
            old(self).evolves_to(&*final(self)),
            match deposit_error(old(self)@, caller@, escrow_id) {
                Some(e) => r == Err::<Transfer, Error>(e) && final(self)@ == old(self)@,
                None => {
                    let e = old(self)@[escrow_id];
                    let f = final(self)@[escrow_id];
                    &&& final(self)@ == old(self)@.insert(escrow_id, f)
                    &&& with_status(e, f, EscrowStatus::Active)
                    &&& r == Ok::<Transfer, Error>(
                        Transfer::IntoCustody {
                            token: e.token_address,
                            from: e.depositor,
                            amount: e.total_amount,
                        },
                    )
                },
            },
    {
        let transfer = match self.escrows.get(&escrow_id) {
            None => {
                return Err(Error::EscrowNotFound);
            },
            Some(e) => {
                if !(*caller == e.depositor) {
                    return Err(Error::UnauthorizedAccess);
                }
                if e.status != EscrowStatus::Created {
                    return Err(Error::EscrowAlreadyFunded);
                }
                Transfer::IntoCustody {
                    token: e.token_address.duplicate(),
                    from: e.depositor.duplicate(),
                    amount: e.total_amount,
                }
            },
        };
        if let Some(mut escrow) = self.escrows.remove(&escrow_id) {
            escrow.status = EscrowStatus::Active;
            self.escrows.insert(escrow_id, escrow);
        }
        Ok(transfer)
    }

    /// Pays out one milestone of an active escrow: it becomes released, its
    /// amount is added to the released total, and the returned transfer pushes
    /// that amount from custody to the recipient.
    pub fn release_milestone(&mut self, caller: &Address, escrow_id: u64, milestone_index: u32) -> (r:
        Result<Transfer, Error>)
        requires
            old(self).wf(),
        ensures
            final(self).wf(),
            old(self).evolves_to(&*final(self)),
            match release_error(old(self)@, caller@, escrow_id, milestone_index) {
                Some(e) => r == Err::<Transfer, Error>(e) && final(self)@ == old(self)@,
                None => {
                    let e = old(self)@[escrow_id];
                    let f = final(self)@[escrow_id];
                    let m = e.milestones@[milestone_index as int];
                    &&& final(self)@ == old(self)@.insert(escrow_id, f)
                    &&& e.same_terms(&f)
                    &&& f.status == e.status
                    &&& f.milestones@ == e.milestones@.update(milestone_index as int, as_released(m))
                    &&& f.total_released == e.total_released + m.amount
                    &&& r == Ok::<Transfer, Error>(
                        Transfer::OutOfCustody { token: e.token_address, to: e.recipient, amount: m.amount },
                    )
                },
            },
    {
        let index = milestone_index as usize;
        let (transfer, released) = match self.escrows.get(&escrow_id) {
            None => {
                return Err(Error::EscrowNotFound);
            },
            Some(e) => {
                if !(*caller == e.depositor) {
                    return Err(Error::UnauthorizedAccess);
                }
                if e.status != EscrowStatus::Active {
                    return Err(Error::EscrowNotActive);
                }
                if index >= e.milestones.len() {
                    return Err(Error::MilestoneNotFound);
                }
                let m = &e.milestones[index];
                if m.status == MilestoneStatus::Released {
                    return Err(Error::MilestoneAlreadyReleased);
                }
                let released = match e.total_released.checked_add(m.amount) {
                    Some(t) => t,
                    None => {
                        return Err(Error::InvalidMilestoneAmount);
                    },
                };
                (
                    Transfer::OutOfCustody {
                        token: e.token_address.duplicate(),
                        to: e.recipient.duplicate(),
                        amount: m.amount,
                    },
                    released,
                )
            },
        };
        if let Some(mut escrow) = self.escrows.remove(&escrow_id) {
            let ghost before = escrow.milestones@;
            let paid_out = Milestone {
                amount: escrow.milestones[index].amount,
                status: MilestoneStatus::Released,
                description: escrow.milestones[index].description.clone(),
            };
            escrow.milestones.set(index, paid_out);
            escrow.total_released = released;
            proof {
                lemma_update_sums(before, index as int, paid_out);
            }
            self.escrows.insert(escrow_id, escrow);
        }
        Ok(transfer)
    }

    /// Cancels a created or active escrow from which nothing has been paid
    /// out; a cancelled one is refused with `EscrowNotActive`. An active
    /// escrow's total goes back to the depositor through the returned transfer;
    /// an unfunded one needs none.
    pub fn cancel_escrow(&mut self, caller: &Address, escrow_id: u64) -> (r: Result<
        Option<Transfer>,
        Error,
    >)
        requires
            old(self).wf(),
        ensures
            final(self).wf(),
            old(self).evolves_to(&*final(self)),
            match cancel_error(old(self)@, caller@, escrow_id) {
                Some(e) => r == Err::<Option<Transfer>, Error>(e) && final(self)@ == old(self)@,
                None => {
                    let e = old(self)@[escrow_id];
                    let f = final(self)@[escrow_id];
                    &&& final(self)@ == old(self)@.insert(escrow_id, f)
                    &&& with_status(e, f, EscrowStatus::Cancelled)
                    &&& r == Ok::<Option<Transfer>, Error>(
                        if e.status == EscrowStatus::Active {
                            Some(
                                Transfer::OutOfCustody {
                                    token: e.token_address,
                                    to: e.depositor,
                                    amount: e.total_amount,
                                },
                            )
                        } else {
                            None
                        },
                    )
                },
            },
    {
        let refund = match self.escrows.get(&escrow_id) {
            None => {
                return Err(Error::EscrowNotFound);
            },
            Some(e) => {
                if !(*caller == e.depositor) {
                    return Err(Error::UnauthorizedAccess);
                }
                if e.total_released > 0 {
                    return Err(Error::MilestoneAlreadyReleased);
                }
                if e.status != EscrowStatus::Created && e.status != EscrowStatus::Active {
                    return Err(Error::EscrowNotActive);
                }
                proof {
                    lemma_released_bounds(e.milestones@);
                    if e.milestones@.len() > 0 {
                        assert(e.milestones@[0].amount > 0);
                    }
                }
                if e.status == EscrowStatus::Active {
                    Some(
                        Transfer::OutOfCustody {
                            token: e.token_address.duplicate(),
                            to: e.depositor.duplicate(),
                            amount: e.total_amount,
                        },
                    )
                } else {
                    None
                }
            },
        };
        if let Some(mut escrow) = self.escrows.remove(&escrow_id) {
            escrow.status = EscrowStatus::Cancelled;
            self.escrows.insert(escrow_id, escrow);
        }
        Ok(refund)
    }

    /// Closes an active escrow whose milestones have all been released.
    pub fn complete_escrow(&mut self, caller: &Address, escrow_id: u64) -> (r: Result<(), Error>)
        requires
            old(self).wf(),
        ensures
            final(self).wf(),
            old(self).evolves_to(&*final(self)),
            match complete_error(old(self)@, caller@, escrow_id) {
                Some(e) => r == Err::<(), Error>(e) && final(self)@ == old(self)@,
                None => {
                    let f = final(self)@[escrow_id];
                    &&& r is Ok
                    &&& final(self)@ == old(self)@.insert(escrow_id, f)
                    &&& with_status(old(self)@[escrow_id], f, EscrowStatus::Completed)
                },
            },
    {
        match self.escrows.get(&escrow_id) {
            None => {
                return Err(Error::EscrowNotFound);
            },
            Some(e) => {
                if !(*caller == e.depositor) {
                    return Err(Error::UnauthorizedAccess);
                }
                if e.status != EscrowStatus::Active || !verify_all_released(&e.milestones) {
                    return Err(Error::EscrowNotActive);
                }
                proof {
                    if e.milestones@.len() > 0 {
                        assert(e.milestones@[0].status == MilestoneStatus::Released);
                    }
                }
            },
        }
        if let Some(mut escrow) = self.escrows.remove(&escrow_id) {
            escrow.status = EscrowStatus::Completed;
            self.escrows.insert(escrow_id, escrow);
        }
        Ok(())
    }

    /// Puts a stored record back into the ledger, as the host does when it
    /// loads the records a request touches. A record whose accounting does not
    /// hold is refused with `TotalAmountMismatch`.
    pub fn restore(&mut self, escrow_id: u64, escrow: Escrow) -> (r: Result<(), Error>)
        requires
            old(self).wf(),
        ensures
            final(self).wf(),
            old(self).evolves_to(&*final(self)),
            if old(self)@.contains_key(escrow_id) {
                r == Err::<(), Error>(Error::EscrowAlreadyExists) && final(self)@ == old(self)@
            } else if !escrow.wf() {
                r == Err::<(), Error>(Error::TotalAmountMismatch) && final(self)@ == old(self)@
            } else {
                r is Ok && final(self)@ == old(self)@.insert(escrow_id, escrow)
            },
    {
        if self.escrows.contains_key(&escrow_id) {
            return Err(Error::EscrowAlreadyExists);
        }
        if !escrow.is_consistent() {
            return Err(Error::TotalAmountMismatch);
        }
        self.escrows.insert(escrow_id, escrow);
        Ok(())
    }

    /// The record of an escrow.
    pub fn get_escrow(&self, escrow_id: u64) -> (r: Result<&Escrow, Error>)
        ensures
            match r {
                Ok(e) => self@.contains_key(escrow_id) && *e == self@[escrow_id],
                Err(err) => !self@.contains_key(escrow_id) && err == Error::EscrowNotFound,
            },
    {
        match self.escrows.get(&escrow_id) {
            Some(e) => Ok(e),
            None => Err(Error::EscrowNotFound),
        }
    }

    /// The status of an escrow.
    pub fn get_state(&self, escrow_id: u64) -> (r: Result<EscrowStatus, Error>)
        ensures
            match r {
                Ok(s) => self@.contains_key(escrow_id) && s == self@[escrow_id].status,
                Err(err) => !self@.contains_key(escrow_id) && err == Error::EscrowNotFound,
            },
    {
        let escrow = self.get_escrow(escrow_id)?;
        Ok(escrow.status)
    }
}

} // verus!
