//! The stored shape of the ledger: the per-account balance entries, the
//! per-(owner, spender) allowance entries, and the two global counters,
//! together with the thin readers and writers for the counters and the
//! one-time initialization flag.
//!
//! The counter writers are deliberately unvalidated overwrites: the facade
//! computes the new value and owes its callers the invariants.

use vstd::prelude::*;
use crate::{same_metadata, CarbonCreditToken};

verus! {

/// One account's recorded balance.  An absent entry means a balance of zero.
#[derive(Clone, Copy, Debug, PartialEq, Eq, Structural)]
pub struct BalanceEntry {
    pub principal: crate::Principal,
    pub amount: i128,
}

/// The (owner, spender) pair an allowance is keyed by.
#[derive(Clone, Copy, Debug, PartialEq, Eq, Structural)]
pub struct AllowanceDataKey {
    pub from: crate::Principal,
    pub spender: crate::Principal,
}

/// A stored allowance: the granted amount and the last ledger ordinal at
/// which it may still be spent.
#[derive(Clone, Copy, Debug, PartialEq, Eq, Structural)]
pub struct AllowanceValue {
    pub amount: i128,
    pub expiration_ledger: u32,
}

/// One recorded allowance grant.  An absent entry means no grant.
#[derive(Clone, Copy, Debug, PartialEq, Eq, Structural)]
pub struct AllowanceEntry {
    pub key: AllowanceDataKey,
    pub value: AllowanceValue,
}

/// Whether one-time initialization has been performed.
pub fn is_initialized(token: &CarbonCreditToken) -> (r: bool)
    ensures
        r == token.initialized,
{
    token.initialized
}

/// Marks the ledger as initialized; everything else is untouched.
pub fn set_initialized(token: &mut CarbonCreditToken)
    ensures
        final(token).initialized,
        final(token).admin == old(token).admin,
        final(token).name == old(token).name,
        final(token).symbol == old(token).symbol,
        final(token).decimals == old(token).decimals,
        final(token).total_supply == old(token).total_supply,
        final(token).total_retired == old(token).total_retired,
        final(token).balances@ == old(token).balances@,
        final(token).allowances@ == old(token).allowances@,
{
    token.initialized = true;
}

/// The circulating supply counter, zero until first written.
pub fn read_total_supply(token: &CarbonCreditToken) -> (r: i128)
    ensures
        r == token.total_supply,
{
    token.total_supply
}

/// Overwrites the circulating supply counter; everything else is untouched.
pub fn write_total_supply(token: &mut CarbonCreditToken, amount: i128)
    ensures
        final(token).total_supply == amount,
        final(token).total_retired == old(token).total_retired,
        same_metadata(*old(token), *final(token)),
        final(token).balances@ == old(token).balances@,
        final(token).allowances@ == old(token).allowances@,
{
    token.total_supply = amount;
}

/// The cumulative retired counter, zero until first written.
pub fn read_total_retired(token: &CarbonCreditToken) -> (r: i128)
    ensures
        r == token.total_retired,
{
    token.total_retired
}

/// Overwrites the cumulative retired counter; everything else is untouched.
pub fn write_total_retired(token: &mut CarbonCreditToken, amount: i128)
    ensures
        final(token).total_retired == amount,
        final(token).total_supply == old(token).total_supply,
        same_metadata(*old(token), *final(token)),
        final(token).balances@ == old(token).balances@,
        final(token).allowances@ == old(token).allowances@,
{
    token.total_retired = amount;
}

} // verus!
