//! A verified ledger for a fungible carbon-credit unit.
//!
//! Credits are minted by an issuing admin, moved by `transfer` and
//! `transfer_from`, destroyed by `burn` and `burn_from`, and permanently
//! consumed by `retire`, which alone adds to the audited `total_retired`
//! counter.  The ledger state is an explicit value passed to every
//! operation; authorization, persistent storage, clock and event delivery
//! are left to the hosting environment, which hands each operation the
//! caller it authenticated and the current ledger ordinal.

use vstd::prelude::*;

pub mod admin;
pub mod allowance;
pub mod balance;
pub mod events;
pub mod metadata;
pub mod storage;

use crate::admin::{read_administrator, write_administrator};
use crate::allowance::{
    allowance_in, distinct_allowance_keys, effective_amount, nonneg_allowance_amounts,
    read_allowance, spend_allowance, write_allowance,
};
use crate::balance::{
    balance_in, distinct_balance_principals, lemma_balance_in_nonneg, lemma_balance_le_sum,
    nonneg_balance_amounts, read_balance, receive_balance, spend_balance, sum_balances,
};
use crate::events::{ApproveEvent, BurnEvent, MintEvent, RetirementEvent, TransferEvent};
use crate::metadata::{read_decimals, read_name, read_symbol, write_metadata};
use crate::storage::{
    is_initialized, read_total_retired, read_total_supply, set_initialized, write_total_retired,
    write_total_supply, AllowanceValue,
};

verus! {

/// Opaque identity of an account: the host environment guarantees that two
/// distinct accounts never share an id.
#[derive(Clone, Copy, Debug, PartialEq, Eq, Structural)]
pub struct Principal {
    pub id: u64,
}

/// Why an operation was refused.  Every refusal leaves the ledger unchanged.
#[derive(Clone, Copy, Debug, PartialEq, Eq, Structural)]
pub enum Error {
    /// The authenticated caller is not the principal the operation demands.
    Unauthorized,
    /// `initialize` was called on a ledger that is already initialized.
    AlreadyInitialized,
    /// A negative amount was passed where only nonnegative amounts are allowed.
    NegativeAmount,
    /// `retire` was asked to retire nothing.
    ZeroAmountDisallowed,
    /// The debited account holds less than the requested amount.
    InsufficientBalance,
    /// The effective allowance is less than the requested amount.
    InsufficientAllowance,
    /// A positive allowance was approved with an expiration already in the past.
    InvalidExpiration,
    /// A counter or balance would leave the representable range.
    ArithmeticOverflow,
}

/// The whole ledger state: metadata, balances, allowances and the two
/// global counters.  The hosting environment owns one value of this type
/// and runs every operation as one atomic transaction against it.
pub struct CarbonCreditToken {
    /// Whether one-time setup has been performed.
    pub initialized: bool,
    /// The principal with exclusive mint authority; meaningful once initialized.
    pub admin: Principal,
    /// Human-readable token name, set once at initialization.
    pub name: String,
    /// Human-readable token symbol, set once at initialization.
    pub symbol: String,
    /// Display decimals, set once at initialization.
    pub decimals: u32,
    /// Per-account balances; an absent entry is a balance of zero.
    pub balances: Vec<storage::BalanceEntry>,
    /// Per-(owner, spender) grants; an absent entry is no grant.
    pub allowances: Vec<storage::AllowanceEntry>,
    /// Units currently in circulation.
    pub total_supply: i128,
    /// Units ever retired; never decreases.
    pub total_retired: i128,
}

impl CarbonCreditToken {
    /// The balance recorded for `p`; zero if never written.
    pub open spec fn balance_of(&self, p: Principal) -> int {
        balance_in(self.balances@, p)
    }

    /// The stored allowance for the pair, expired or not.
    pub open spec fn allowance_record(&self, from: Principal, spender: Principal) -> Option<
        AllowanceValue,
    > {
        allowance_in(self.allowances@, from, spender)
    }

    /// The allowance a read at ordinal `now` reports: the stored amount if
    /// still valid, zero if absent or expired.
    pub open spec fn effective_allowance(&self, from: Principal, spender: Principal, now: u32) -> int {
        effective_amount(self.allowance_record(from, spender), now)
    }

    /// The balance entries are one per principal and nonnegative.
    pub open spec fn balances_ok(&self) -> bool {
        distinct_balance_principals(self.balances@) && nonneg_balance_amounts(self.balances@)
    }

    /// The allowance entries are one per (owner, spender) pair and nonnegative.
    pub open spec fn allowances_ok(&self) -> bool {
        distinct_allowance_keys(self.allowances@) && nonneg_allowance_amounts(self.allowances@)
    }

    /// Well-formedness of the whole ledger: valid entry tables, the supply
    /// counter equal to the sum of all balances, and a nonnegative retired
    /// counter.  Established by `new` and preserved by every operation.
    pub open spec fn wf(&self) -> bool {
        &&& self.balances_ok()
        &&& self.allowances_ok()
        &&& self.total_supply as int == sum_balances(self.balances@)
        &&& self.total_retired >= 0
    }
}

/// The two ledgers agree on initialization flag, admin and metadata.
pub open spec fn same_metadata(a: CarbonCreditToken, b: CarbonCreditToken) -> bool {
    &&& b.initialized == a.initialized
    &&& b.admin == a.admin
    &&& b.name == a.name
    &&& b.symbol == a.symbol
    &&& b.decimals == a.decimals
}

/// The two ledgers agree on both global counters.
pub open spec fn same_counters(a: CarbonCreditToken, b: CarbonCreditToken) -> bool {
    b.total_supply == a.total_supply && b.total_retired == a.total_retired
}

/// The two ledgers agree on every balance entry.
pub open spec fn same_balances(a: CarbonCreditToken, b: CarbonCreditToken) -> bool {
    b.balances@ == a.balances@
}

/// The two ledgers agree on every allowance entry.
pub open spec fn same_allowances(a: CarbonCreditToken, b: CarbonCreditToken) -> bool {
    b.allowances@ == a.allowances@
}

/// Rejects a negative amount, the common validation step of every
/// amount-taking operation.
pub fn check_nonnegative_amount(amount: i128) -> (r: Result<(), Error>)
    ensures
        r is Ok <==> amount >= 0,
        r is Err ==> r == Err::<(), Error>(Error::NegativeAmount),
{
    if amount < 0 {
        Err(Error::NegativeAmount)
    } else {
        Ok(())
    }
}

impl CarbonCreditToken {
    /// A fresh, uninitialized ledger: empty tables and zero counters.
    pub fn new() -> (token: Self)
        ensures
            !token.initialized,
            token.name@.len() == 0,
            token.symbol@.len() == 0,
            token.decimals == 0,
            token.balances@.len() == 0,
            token.allowances@.len() == 0,
            token.total_supply == 0,
            token.total_retired == 0,
            token.wf(),
    {
        CarbonCreditToken {
            initialized: false,
            admin: Principal { id: 0 },
            name: String::new(),
            symbol: String::new(),
            decimals: 0,
            balances: Vec::new(),
            allowances: Vec::new(),
            total_supply: 0,
            total_retired: 0,
        }
    }

    /// One-time setup: records admin and metadata and zeroes both counters.
    /// Refused once performed; nothing is changed on refusal.
    pub fn initialize(
        &mut self,
        admin: Principal,
        name: String,
        symbol: String,
        decimals: u32,
    ) -> (r: Result<(), Error>)
        ensures
            old(self).initialized ==> r == Err::<(), Error>(Error::AlreadyInitialized) && *final(self) == *old(self),
            !old(self).initialized ==> {
                &&& r is Ok
                &&& final(self).initialized
                &&& final(self).admin == admin
                &&& final(self).name@ == name@
                &&& final(self).symbol@ == symbol@
                &&& final(self).decimals == decimals
                &&& final(self).total_supply == 0
                &&& final(self).total_retired == 0
                &&& final(self).balances@ == old(self).balances@
                &&& final(self).allowances@ == old(self).allowances@
            },
            old(self).wf() && old(self).total_supply == 0 ==> final(self).wf(),
    {
        if is_initialized(self) {
            return Err(Error::AlreadyInitialized);
        }
        set_initialized(self);
        write_administrator(self, admin);
        write_metadata(self, name, symbol, decimals);
        write_total_supply(self, 0);
        write_total_retired(self, 0);
        Ok(())
    }

    /// Credits freshly issued units to `to` and grows the supply by the same
    /// amount.  Only the admin may mint.
    pub fn mint(&mut self, caller: Principal, to: Principal, amount: i128) -> (r: Result<
        MintEvent,
        Error,
    >)
        requires
            old(self).wf(),
            old(self).initialized,
        ensures
            final(self).wf(),
            r is Err ==> *final(self) == *old(self),
            amount < 0 ==> r == Err::<MintEvent, Error>(Error::NegativeAmount),
            amount >= 0 && caller != old(self).admin ==> r == Err::<MintEvent, Error>(
                Error::Unauthorized,
            ),
            amount >= 0 && caller == old(self).admin && old(self).total_supply + amount
                > i128::MAX ==> r == Err::<MintEvent, Error>(Error::ArithmeticOverflow),
            amount >= 0 && caller == old(self).admin && old(self).total_supply + amount
                <= i128::MAX ==> {
                &&& r == Ok::<MintEvent, Error>((MintEvent { to, amount }))
                &&& final(self).balance_of(to) == old(self).balance_of(to) + amount
                &&& forall|q: Principal|
                    q != to ==> #[trigger] balance_in(final(self).balances@, q) == balance_in(
                        old(self).balances@,
                        q,
                    )
                &&& final(self).total_supply == old(self).total_supply + amount
                &&& final(self).total_retired == old(self).total_retired
                &&& same_metadata(*old(self), *final(self))
                &&& same_allowances(*old(self), *final(self))
            },
    {
        if let Err(e) = check_nonnegative_amount(amount) {
            return Err(e);
        }
        let admin = read_administrator(self);
        if caller != admin {
            return Err(Error::Unauthorized);
        }
        if self.total_supply > i128::MAX - amount {
            return Err(Error::ArithmeticOverflow);
        }
        proof {
            lemma_balance_le_sum(self.balances@, to);
        }
        match receive_balance(self, to, amount) {
            Err(_) => {
                // unreachable: the balance is bounded by the supply, which
                // was just checked against the representable range
                proof {
                    assert(false);
                }
                Err(Error::ArithmeticOverflow)
            }
            Ok(()) => {
                let new_supply = read_total_supply(self) + amount;
                write_total_supply(self, new_supply);
                Ok(MintEvent { to, amount })
            }
        }
    }

    /// Moves `amount` from `from` to `to`.  Only `from` itself may move its
    /// credits; the supply is untouched.
    pub fn transfer(&mut self, caller: Principal, from: Principal, to: Principal, amount: i128) -> (r:
        Result<TransferEvent, Error>)
        requires
            old(self).wf(),
        ensures
            final(self).wf(),
            r is Err ==> *final(self) == *old(self),
            caller != from ==> r == Err::<TransferEvent, Error>(Error::Unauthorized),
            caller == from && amount < 0 ==> r == Err::<TransferEvent, Error>(
                Error::NegativeAmount,
            ),
            caller == from && amount >= 0 && old(self).balance_of(from) < amount ==> r == Err::<
                TransferEvent,
                Error,
            >(Error::InsufficientBalance),
            caller == from && amount >= 0 && old(self).balance_of(from) >= amount ==> {
                &&& r == Ok::<TransferEvent, Error>((TransferEvent { from, to, amount }))
                &&& (from != to ==> final(self).balance_of(from) == old(self).balance_of(from)
                    - amount && final(self).balance_of(to) == old(self).balance_of(to) + amount)
                &&& (from == to ==> final(self).balance_of(from) == old(self).balance_of(from))
                &&& forall|q: Principal|
                    q != from && q != to ==> #[trigger] balance_in(final(self).balances@, q)
                        == balance_in(old(self).balances@, q)
                &&& same_counters(*old(self), *final(self))
                &&& same_metadata(*old(self), *final(self))
                &&& same_allowances(*old(self), *final(self))
            },
    {
        if caller != from {
            return Err(Error::Unauthorized);
        }
        if let Err(e) = check_nonnegative_amount(amount) {
            return Err(e);
        }
        match spend_balance(self, from, amount) {
            Err(e) => Err(e),
            Ok(()) => {
                match receive_balance(self, to, amount) {
                    Err(_) => {
                        // unreachable: after the debit the credited balance
                        // is bounded by the unchanged supply
                        proof {
                            lemma_balance_le_sum(self.balances@, to);
                            assert(false);
                        }
                        Err(Error::ArithmeticOverflow)
                    }
                    Ok(()) => Ok(TransferEvent { from, to, amount }),
                }
            }
        }
    }

    /// Moves `amount` from `from` to `to` on the strength of `from`'s grant
    /// to the caller, consuming that much of the grant.
    pub fn transfer_from(
        &mut self,
        caller: Principal,
        spender: Principal,
        from: Principal,
        to: Principal,
        amount: i128,
        now: u32,
    ) -> (r: Result<TransferEvent, Error>)
        requires
            old(self).wf(),
        ensures
            final(self).wf(),
            r is Err ==> *final(self) == *old(self),
            caller != spender ==> r == Err::<TransferEvent, Error>(Error::Unauthorized),
            caller == spender && amount < 0 ==> r == Err::<TransferEvent, Error>(
                Error::NegativeAmount,
            ),
            caller == spender && amount >= 0 && old(self).effective_allowance(from, spender, now)
                < amount ==> r == Err::<TransferEvent, Error>(Error::InsufficientAllowance),
            caller == spender && amount >= 0 && old(self).effective_allowance(from, spender, now)
                >= amount && old(self).balance_of(from) < amount ==> r == Err::<
                TransferEvent,
                Error,
            >(Error::InsufficientBalance),
            caller == spender && amount >= 0 && old(self).effective_allowance(from, spender, now)
                >= amount && old(self).balance_of(from) >= amount ==> {
                &&& r == Ok::<TransferEvent, Error>((TransferEvent { from, to, amount }))
                &&& (from != to ==> final(self).balance_of(from) == old(self).balance_of(from)
                    - amount && final(self).balance_of(to) == old(self).balance_of(to) + amount)
                &&& (from == to ==> final(self).balance_of(from) == old(self).balance_of(from))
                &&& forall|q: Principal|
                    q != from && q != to ==> #[trigger] balance_in(final(self).balances@, q)
                        == balance_in(old(self).balances@, q)
                &&& (amount > 0 ==> (old(self).allowance_record(from, spender) matches Some(v)
                    && final(self).allowance_record(from, spender) == Some(
                    (AllowanceValue {
                        amount: (old(self).effective_allowance(from, spender, now) - amount) as i128,
                        expiration_ledger: v.expiration_ledger,
                    }),
                )))
                &&& (amount == 0 ==> same_allowances(*old(self), *final(self)))
                &&& forall|o: Principal, s: Principal|
                    !(o == from && s == spender) ==> #[trigger] allowance_in(
                        final(self).allowances@,
                        o,
                        s,
                    ) == allowance_in(old(self).allowances@, o, s)
                &&& same_counters(*old(self), *final(self))
                &&& same_metadata(*old(self), *final(self))
            },
    {
        if caller != spender {
            return Err(Error::Unauthorized);
        }
        if let Err(e) = check_nonnegative_amount(amount) {
            return Err(e);
        }
        // validate both ledgers before touching either, so a refusal can
        // never leave a half-applied transfer
        let granted = read_allowance(self, from, spender, now);
        if granted < amount {
            return Err(Error::InsufficientAllowance);
        }
        let bal = read_balance(self, from);
        if bal < amount {
            return Err(Error::InsufficientBalance);
        }
        match spend_allowance(self, from, spender, amount, now) {
            Err(_) => {
                // unreachable: the effective allowance was checked above
                proof {
                    assert(false);
                }
                Err(Error::InsufficientAllowance)
            }
            Ok(()) => {
                match spend_balance(self, from, amount) {
                    Err(_) => {
                        // unreachable: the balance was checked above
                        proof {
                            assert(false);
                        }
                        Err(Error::InsufficientBalance)
                    }
                    Ok(()) => {
                        match receive_balance(self, to, amount) {
                            Err(_) => {
                                // unreachable: after the debit the credited
                                // balance is bounded by the unchanged supply
                                proof {
                                    lemma_balance_le_sum(self.balances@, to);
                                    assert(false);
                                }
                                Err(Error::ArithmeticOverflow)
                            }
                            Ok(()) => Ok(TransferEvent { from, to, amount }),
                        }
                    }
                }
            }
        }
    }

    /// Permanently retires `amount` of `from`'s credits as a claimed offset:
    /// the supply shrinks and the audited retired counter grows by exactly
    /// that amount.  Retiring nothing is refused.
    pub fn retire(&mut self, caller: Principal, from: Principal, amount: i128, timestamp: u64) -> (r:
        Result<(RetirementEvent, BurnEvent), Error>)
        requires
            old(self).wf(),
        ensures
            final(self).wf(),
            r is Err ==> *final(self) == *old(self),
            caller != from ==> r == Err::<(RetirementEvent, BurnEvent), Error>(Error::Unauthorized),
            caller == from && amount < 0 ==> r == Err::<(RetirementEvent, BurnEvent), Error>(
                Error::NegativeAmount,
            ),
            caller == from && amount == 0 ==> r == Err::<(RetirementEvent, BurnEvent), Error>(
                Error::ZeroAmountDisallowed,
            ),
            caller == from && amount > 0 && old(self).balance_of(from) < amount ==> r == Err::<
                (RetirementEvent, BurnEvent),
                Error,
            >(Error::InsufficientBalance),
            caller == from && amount > 0 && old(self).balance_of(from) >= amount && old(self).total_retired + amount > i128::MAX ==> r == Err::<
                (RetirementEvent, BurnEvent),
                Error,
            >(Error::ArithmeticOverflow),
            caller == from && amount > 0 && old(self).balance_of(from) >= amount && old(self).total_retired + amount <= i128::MAX ==> {
                &&& r == Ok::<(RetirementEvent, BurnEvent), Error>(
                    ((RetirementEvent { from, amount, timestamp }, BurnEvent { from, amount })),
                )
                &&& final(self).balance_of(from) == old(self).balance_of(from) - amount
                &&& forall|q: Principal|
                    q != from ==> #[trigger] balance_in(final(self).balances@, q) == balance_in(
                        old(self).balances@,
                        q,
                    )
                &&& final(self).total_supply == old(self).total_supply - amount
                &&& final(self).total_retired == old(self).total_retired + amount
                &&& same_metadata(*old(self), *final(self))
                &&& same_allowances(*old(self), *final(self))
            },
    {
        if caller != from {
            return Err(Error::Unauthorized);
        }
        if let Err(e) = check_nonnegative_amount(amount) {
            return Err(e);
        }
        if amount == 0 {
            return Err(Error::ZeroAmountDisallowed);
        }
        // validate the debit and the counter before touching either
        let bal = read_balance(self, from);
        if bal < amount {
            return Err(Error::InsufficientBalance);
        }
        if self.total_retired > i128::MAX - amount {
            return Err(Error::ArithmeticOverflow);
        }
        proof {
            lemma_balance_le_sum(self.balances@, from);
        }
        match spend_balance(self, from, amount) {
            Err(_) => {
                // unreachable: the balance was checked above
                proof {
                    assert(false);
                }
                Err(Error::InsufficientBalance)
            }
            Ok(()) => {
                let new_supply = read_total_supply(self) - amount;
                write_total_supply(self, new_supply);
                let new_retired = read_total_retired(self) + amount;
                write_total_retired(self, new_retired);
                Ok((RetirementEvent { from, amount, timestamp }, BurnEvent { from, amount }))
            }
        }
    }

    /// Removes `amount` of `from`'s credits from circulation without an
    /// offset claim: the supply shrinks, the retired counter is untouched.
    pub fn burn(&mut self, caller: Principal, from: Principal, amount: i128) -> (r: Result<
        BurnEvent,
        Error,
    >)
        requires
            old(self).wf(),
        ensures
            final(self).wf(),
            r is Err ==> *final(self) == *old(self),
            caller != from ==> r == Err::<BurnEvent, Error>(Error::Unauthorized),
            caller == from && amount < 0 ==> r == Err::<BurnEvent, Error>(Error::NegativeAmount),
            caller == from && amount >= 0 && old(self).balance_of(from) < amount ==> r == Err::<
                BurnEvent,
                Error,
            >(Error::InsufficientBalance),
            caller == from && amount >= 0 && old(self).balance_of(from) >= amount ==> {
                &&& r == Ok::<BurnEvent, Error>((BurnEvent { from, amount }))
                &&& final(self).balance_of(from) == old(self).balance_of(from) - amount
                &&& forall|q: Principal|
                    q != from ==> #[trigger] balance_in(final(self).balances@, q) == balance_in(
                        old(self).balances@,
                        q,
                    )
                &&& final(self).total_supply == old(self).total_supply - amount
                &&& final(self).total_retired == old(self).total_retired
                &&& same_metadata(*old(self), *final(self))
                &&& same_allowances(*old(self), *final(self))
            },
    {
        if caller != from {
            return Err(Error::Unauthorized);
        }
        if let Err(e) = check_nonnegative_amount(amount) {
            return Err(e);
        }
        proof {
            lemma_balance_le_sum(self.balances@, from);
        }
        match spend_balance(self, from, amount) {
            Err(e) => Err(e),
            Ok(()) => {
                let new_supply = read_total_supply(self) - amount;
                write_total_supply(self, new_supply);
                Ok(BurnEvent { from, amount })
            }
        }
    }

    /// Removes `amount` of `from`'s credits from circulation on the strength
    /// of `from`'s grant to the caller, consuming that much of the grant.
    pub fn burn_from(
        &mut self,
        caller: Principal,
        spender: Principal,
        from: Principal,
        amount: i128,
        now: u32,
    ) -> (r: Result<BurnEvent, Error>)
        requires
            old(self).wf(),
        ensures
            final(self).wf(),
            r is Err ==> *final(self) == *old(self),
            caller != spender ==> r == Err::<BurnEvent, Error>(Error::Unauthorized),
            caller == spender && amount < 0 ==> r == Err::<BurnEvent, Error>(
                Error::NegativeAmount,
            ),
            caller == spender && amount >= 0 && old(self).effective_allowance(from, spender, now)
                < amount ==> r == Err::<BurnEvent, Error>(Error::InsufficientAllowance),
            caller == spender && amount >= 0 && old(self).effective_allowance(from, spender, now)
                >= amount && old(self).balance_of(from) < amount ==> r == Err::<BurnEvent, Error>(
                Error::InsufficientBalance,
            ),
            caller == spender && amount >= 0 && old(self).effective_allowance(from, spender, now)
                >= amount && old(self).balance_of(from) >= amount ==> {
                &&& r == Ok::<BurnEvent, Error>((BurnEvent { from, amount }))
                &&& final(self).balance_of(from) == old(self).balance_of(from) - amount
                &&& forall|q: Principal|
                    q != from ==> #[trigger] balance_in(final(self).balances@, q) == balance_in(
                        old(self).balances@,
                        q,
                    )
                &&& final(self).total_supply == old(self).total_supply - amount
                &&& final(self).total_retired == old(self).total_retired
                &&& (amount > 0 ==> (old(self).allowance_record(from, spender) matches Some(v)
                    && final(self).allowance_record(from, spender) == Some(
                    (AllowanceValue {
                        amount: (old(self).effective_allowance(from, spender, now) - amount) as i128,
                        expiration_ledger: v.expiration_ledger,
                    }),
                )))
                &&& (amount == 0 ==> same_allowances(*old(self), *final(self)))
                &&& forall|o: Principal, s: Principal|
                    !(o == from && s == spender) ==> #[trigger] allowance_in(
                        final(self).allowances@,
                        o,
                        s,
                    ) == allowance_in(old(self).allowances@, o, s)
                &&& same_metadata(*old(self), *final(self))
            },
    {
        if caller != spender {
            return Err(Error::Unauthorized);
        }
        if let Err(e) = check_nonnegative_amount(amount) {
            return Err(e);
        }
        // validate both ledgers before touching either
        let granted = read_allowance(self, from, spender, now);
        if granted < amount {
            return Err(Error::InsufficientAllowance);
        }
        let bal = read_balance(self, from);
        if bal < amount {
            return Err(Error::InsufficientBalance);
        }
        proof {
            lemma_balance_le_sum(self.balances@, from);
        }
        match spend_allowance(self, from, spender, amount, now) {
            Err(_) => {
                // unreachable: the effective allowance was checked above
                proof {
                    assert(false);
                }
                Err(Error::InsufficientAllowance)
            }
            Ok(()) => {
                match spend_balance(self, from, amount) {
                    Err(_) => {
                        // unreachable: the balance was checked above
                        proof {
                            assert(false);
                        }
                        Err(Error::InsufficientBalance)
                    }
                    Ok(()) => {
                        let new_supply = read_total_supply(self) - amount;
                        write_total_supply(self, new_supply);
                        Ok(BurnEvent { from, amount })
                    }
                }
            }
        }
    }

    /// Replaces the grant `from` gives `spender` with `(amount,
    /// expiration_ledger)`.  A positive grant that is already expired is
    /// refused; approving zero clears the grant.
    pub fn approve(
        &mut self,
        caller: Principal,
        from: Principal,
        spender: Principal,
        amount: i128,
        expiration_ledger: u32,
        now: u32,
    ) -> (r: Result<ApproveEvent, Error>)
        requires
            old(self).wf(),
        ensures
            final(self).wf(),
            r is Err ==> *final(self) == *old(self),
            caller != from ==> r == Err::<ApproveEvent, Error>(Error::Unauthorized),
            caller == from && amount < 0 ==> r == Err::<ApproveEvent, Error>(
                Error::NegativeAmount,
            ),
            caller == from && amount > 0 && expiration_ledger < now ==> r == Err::<
                ApproveEvent,
                Error,
            >(Error::InvalidExpiration),
            caller == from && amount >= 0 && !(amount > 0 && expiration_ledger < now) ==> {
                &&& r == Ok::<ApproveEvent, Error>(
                    (ApproveEvent { from, spender, amount, expiration_ledger }),
                )
                &&& final(self).allowance_record(from, spender) == Some(
                    (AllowanceValue { amount, expiration_ledger }),
                )
                &&& forall|o: Principal, s: Principal|
                    !(o == from && s == spender) ==> #[trigger] allowance_in(
                        final(self).allowances@,
                        o,
                        s,
                    ) == allowance_in(old(self).allowances@, o, s)
                &&& same_balances(*old(self), *final(self))
                &&& same_counters(*old(self), *final(self))
                &&& same_metadata(*old(self), *final(self))
            },
    {
        if caller != from {
            return Err(Error::Unauthorized);
        }
        if let Err(e) = check_nonnegative_amount(amount) {
            return Err(e);
        }
        match write_allowance(self, from, spender, amount, expiration_ledger, now) {
            Err(e) => Err(e),
            Ok(()) => Ok(ApproveEvent { from, spender, amount, expiration_ledger }),
        }
    }

    /// The balance of `id`; zero for an account never written.
    pub fn balance(&self, id: Principal) -> (r: i128)
        requires
            self.balances_ok(),
        ensures
            r as int == self.balance_of(id),
            r >= 0,
    {
        read_balance(self, id)
    }

    /// The allowance `spender` may still spend from `from` at ordinal `now`.
    pub fn allowance(&self, from: Principal, spender: Principal, now: u32) -> (r: i128)
        requires
            self.allowances_ok(),
        ensures
            r as int == self.effective_allowance(from, spender, now),
            r >= 0,
    {
        read_allowance(self, from, spender, now)
    }

    /// The units currently in circulation.
    pub fn total_supply(&self) -> (r: i128)
        ensures
            r == self.total_supply,
    {
        read_total_supply(self)
    }

    /// The units ever retired as claimed offsets.
    pub fn total_retired(&self) -> (r: i128)
        ensures
            r == self.total_retired,
    {
        read_total_retired(self)
    }

    /// The token name; set at initialization.
    pub fn name(&self) -> (r: String)
        requires
            self.initialized,
        ensures
            r@ == self.name@,
    {
        read_name(self)
    }

    /// The token symbol; set at initialization.
    pub fn symbol(&self) -> (r: String)
        requires
            self.initialized,
        ensures
            r@ == self.symbol@,
    {
        read_symbol(self)
    }

    /// The display decimals; set at initialization.
    pub fn decimals(&self) -> (r: u32)
        requires
            self.initialized,
        ensures
            r == self.decimals,
    {
        read_decimals(self)
    }
}

/// Law: every account of a well-formed ledger has a nonnegative balance.
/// Every operation keeps the ledger well-formed, so this holds after any
/// sequence of operations.
pub proof fn lemma_balance_nonnegative(token: CarbonCreditToken, p: Principal)
    requires
        token.wf(),
    ensures
        token.balance_of(p) >= 0,
{
    lemma_balance_in_nonneg(token.balances@, p);
}

/// Law: the supply counter of a well-formed ledger equals the sum of all
/// recorded balances, so the counter can be read in place of the sum.
pub proof fn lemma_supply_is_sum_of_balances(token: CarbonCreditToken)
    requires
        token.wf(),
    ensures
        token.total_supply as int == sum_balances(token.balances@),
{
}

/// Law: no single balance of a well-formed ledger exceeds the circulating
/// supply.
pub proof fn lemma_balance_le_supply(token: CarbonCreditToken, p: Principal)
    requires
        token.wf(),
    ensures
        token.balance_of(p) <= token.total_supply,
{
    lemma_balance_le_sum(token.balances@, p);
}

/// Law: a grant read at an ordinal no later than its expiration yields the
/// granted amount.  With `approve`'s postcondition this is the round trip:
/// approving `(amount, expiration_ledger)` and reading at `now <=
/// expiration_ledger` returns `amount`.
pub proof fn lemma_allowance_roundtrip(
    token: CarbonCreditToken,
    from: Principal,
    spender: Principal,
    amount: i128,
    expiration_ledger: u32,
    now: u32,
)
    requires
        token.allowance_record(from, spender) == Some(
            (AllowanceValue { amount, expiration_ledger }),
        ),
        now <= expiration_ledger,
    ensures
        token.effective_allowance(from, spender, now) == amount,
{
}

/// Law: a grant read at any ordinal past its expiration yields zero,
/// whatever amount is still stored.
pub proof fn lemma_allowance_expired(
    token: CarbonCreditToken,
    from: Principal,
    spender: Principal,
    now: u32,
)
    requires
        token.allowance_record(from, spender) matches Some(v) && v.expiration_ledger < now,
    ensures
        token.effective_allowance(from, spender, now) == 0,
{
}

} // verus!
