//! The notifications a mutating operation hands back on success.  Delivery
//! is the hosting environment's business: the ledger only says, exactly,
//! which event each operation produces.

use vstd::prelude::*;
use crate::Principal;

verus! {

/// Credits were minted to an account.
#[derive(Clone, Copy, Debug, PartialEq, Eq, Structural)]
pub struct MintEvent {
    pub to: Principal,
    pub amount: i128,
}

/// Credits moved between two accounts.
#[derive(Clone, Copy, Debug, PartialEq, Eq, Structural)]
pub struct TransferEvent {
    pub from: Principal,
    pub to: Principal,
    pub amount: i128,
}

/// Credits were removed from circulation without an offset claim.
#[derive(Clone, Copy, Debug, PartialEq, Eq, Structural)]
pub struct BurnEvent {
    pub from: Principal,
    pub amount: i128,
}

/// A delegated-spending grant was written.
#[derive(Clone, Copy, Debug, PartialEq, Eq, Structural)]
pub struct ApproveEvent {
    pub from: Principal,
    pub spender: Principal,
    pub amount: i128,
    pub expiration_ledger: u32,
}

/// The payload a retirement notification carries: how much was retired and
/// when.
#[derive(Clone, Copy, Debug, PartialEq, Eq, Structural)]
pub struct RetirementData {
    pub amount: i128,
    pub timestamp: u64,
}

/// Credits were permanently retired as a claimed offset.
#[derive(Clone, Copy, Debug, PartialEq, Eq, Structural)]
pub struct RetirementEvent {
    pub from: Principal,
    pub amount: i128,
    pub timestamp: u64,
}

impl RetirementEvent {
    /// The payload this event publishes.
    pub fn data(&self) -> (d: RetirementData)
        ensures
            d.amount == self.amount,
            d.timestamp == self.timestamp,
    {
        RetirementData { amount: self.amount, timestamp: self.timestamp }
    }
}

} // verus!
