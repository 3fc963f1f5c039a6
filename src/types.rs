//! A single-payment escrow deal between a buyer and a seller, and the keys
//! under which escrow records are stored.

use vstd::prelude::*;

use crate::address::Address;

verus! {

/// Where a single-payment deal stands.
#[derive(Clone, Copy, PartialEq, Eq, Debug, Structural)]
pub enum EscrowStatus {
    /// Created, not yet funded.
    Created,
    /// The buyer's funds are held.
    Funded,
    /// The funds went to the seller.
    Completed,
    /// A dispute awaits resolution.
    Disputed,
}

/// A single-payment deal: the buyer's amount of a token, held for the seller.
#[derive(Clone, Debug)]
pub struct Escrow {
    pub buyer: Address,
    pub seller: Address,
    pub amount: i128,
    pub token_address: Address,
    pub status: EscrowStatus,
    /// After this time the funds may be refundable.
    pub deadline: u64,
}

impl Escrow {
    /// A new deal, in `Created`.
    pub fn new(buyer: Address, seller: Address, token_address: Address, amount: i128, deadline: u64) -> (r:
        Escrow)
        ensures
            r == (Escrow {
                buyer,
                seller,
                amount,
                token_address,
                status: EscrowStatus::Created,
                deadline,
            }),
    {
        Escrow { buyer, seller, amount, token_address, status: EscrowStatus::Created, deadline }
    }
}

/// Keys of the durable store.
#[derive(Clone, Copy, PartialEq, Eq, Debug, Hash, Structural)]
pub enum DataKey {
    /// The counter from which escrow ids are drawn.
    EscrowCounter,
    /// The record of one escrow.
    Escrow(u64),
}

} // verus!
