use vstd::prelude::*;

use crate::address::Address;

verus! {

/// How many of the authorized parties must confirm.
#[derive(Clone, Copy, PartialEq, Eq, Debug, Structural)]
pub enum ConfirmationThreshold {
    /// Every party.
    All,
    /// At least half of the parties, rounded up.
    Majority,
    /// A fixed number of parties.
    Custom(u32),
}

/// Where one party stands.
#[derive(Clone, Copy, PartialEq, Eq, Debug, Structural)]
pub enum ConfirmationState {
    Pending,
    Confirmed,
    /// Declared for later use; no operation produces it.
    Rejected,
}

/// The record kept for one party of one escrow.
#[derive(Clone, Debug)]
pub struct PartyConfirmation {
    pub address: Address,
    pub state: ConfirmationState,
    pub confirmed_at: u64,
    /// The escrow's confirmation counter as it stood after this party confirmed.
    pub confirmation_count: u32,
}

impl PartyConfirmation {
    /// A copy of this record, equal to it.
    pub fn duplicate(&self) -> (r: PartyConfirmation)
        ensures
            r == *self,
    {
        PartyConfirmation {
            address: self.address.duplicate(),
            state: self.state,
            confirmed_at: self.confirmed_at,
            confirmation_count: self.confirmation_count,
        }
    }
}

/// The confirmation overlay of an escrow, kept apart from the escrow's own status.
#[derive(Clone, Copy, PartialEq, Eq, Debug, Structural)]
pub enum EscrowConfirmationStatus {
    /// Awaiting confirmations; also what an escrow without a stored status has.
    Pending,
    /// The threshold was met.
    Confirmed,
    /// Declared for later use; no operation produces it.
    Failed,
    /// No further confirmation is accepted.
    Locked,
}

/// What one successful confirmation reports.
#[derive(Clone, Debug)]
pub struct ConfirmationEvent {
    pub escrow_id: u64,
    pub party: Address,
    pub confirmed_at: u64,
    pub confirmations_count: u32,
    pub threshold_met: bool,
}

} // verus!
