//! The balance ledger: per-account amounts with a lazy zero default, so any
//! principal can receive credits without prior setup.
//!
//! The recorded entries are modelled by two spec functions over the entry
//! sequence: `balance_in`, the amount recorded for one principal, and
//! `sum_balances`, the total of all recorded amounts.  The lemmas here say
//! how both move under a push or a single-entry update; the facade leans on
//! them to keep `total_supply` equal to the sum of all balances.

use vstd::prelude::*;
use crate::storage::BalanceEntry;
use crate::{same_allowances, same_counters, same_metadata, CarbonCreditToken, Error, Principal};

verus! {

/// The total of all recorded balance amounts.
pub open spec fn sum_balances(s: Seq<BalanceEntry>) -> int
    decreases s.len(),
{
    if s.len() == 0 {
        0
    } else {
        sum_balances(s.drop_last()) + s.last().amount
    }
}

/// The amount recorded for `p`, or zero if no entry carries `p`.
pub open spec fn balance_in(s: Seq<BalanceEntry>, p: Principal) -> int
    decreases s.len(),
{
    if s.len() == 0 {
        0
    } else if s.last().principal == p {
        s.last().amount as int
    } else {
        balance_in(s.drop_last(), p)
    }
}

/// No two entries record the same principal.
pub open spec fn distinct_balance_principals(s: Seq<BalanceEntry>) -> bool {
    forall|i: int, j: int|
        0 <= i < j < s.len() ==> (#[trigger] s[i]).principal != (#[trigger] s[j]).principal
}

/// Every recorded amount is nonnegative.
pub open spec fn nonneg_balance_amounts(s: Seq<BalanceEntry>) -> bool {
    forall|i: int| 0 <= i < s.len() ==> (#[trigger] s[i]).amount >= 0
}

pub proof fn lemma_sum_push(s: Seq<BalanceEntry>, e: BalanceEntry)
    ensures
        sum_balances(s.push(e)) == sum_balances(s) + e.amount,
{
    assert(s.push(e).drop_last() =~= s);
}

pub proof fn lemma_balance_in_push(s: Seq<BalanceEntry>, e: BalanceEntry, p: Principal)
    ensures
        balance_in(s.push(e), p) == if e.principal == p {
            e.amount as int
        } else {
            balance_in(s, p)
        },
{
    assert(s.push(e).drop_last() =~= s);
}

pub proof fn lemma_sum_update(s: Seq<BalanceEntry>, i: int, e: BalanceEntry)
    requires
        0 <= i < s.len(),
    ensures
        sum_balances(s.update(i, e)) == sum_balances(s) - s[i].amount + e.amount,
    decreases s.len(),
{
    if i == s.len() - 1 {
        assert(s.update(i, e).drop_last() =~= s.drop_last());
    } else {
        assert(s.update(i, e).drop_last() =~= s.drop_last().update(i, e));
        lemma_sum_update(s.drop_last(), i, e);
    }
}

pub proof fn lemma_balance_in_update(s: Seq<BalanceEntry>, i: int, e: BalanceEntry, p: Principal)
    requires
        0 <= i < s.len(),
        s[i].principal == e.principal,
        distinct_balance_principals(s),
    ensures
        balance_in(s.update(i, e), p) == if e.principal == p {
            e.amount as int
        } else {
            balance_in(s, p)
        },
    decreases s.len(),
{
    if i == s.len() - 1 {
        assert(s.update(i, e).drop_last() =~= s.drop_last());
    } else {
        assert(s.update(i, e).drop_last() =~= s.drop_last().update(i, e));
        assert(s.last().principal != e.principal);
        lemma_balance_in_update(s.drop_last(), i, e, p);
    }
}

pub proof fn lemma_balance_in_absent(s: Seq<BalanceEntry>, p: Principal)
    requires
        forall|k: int| 0 <= k < s.len() ==> (#[trigger] s[k]).principal != p,
    ensures
        balance_in(s, p) == 0,
    decreases s.len(),
{
    if s.len() > 0 {
        lemma_balance_in_absent(s.drop_last(), p);
    }
}

pub proof fn lemma_balance_in_at(s: Seq<BalanceEntry>, i: int, p: Principal)
    requires
        distinct_balance_principals(s),
        0 <= i < s.len(),
        s[i].principal == p,
    ensures
        balance_in(s, p) == s[i].amount as int,
    decreases s.len(),
{
    if i < s.len() - 1 {
        assert(s.last().principal != p);
        lemma_balance_in_at(s.drop_last(), i, p);
    }
}

pub proof fn lemma_balance_in_nonneg(s: Seq<BalanceEntry>, p: Principal)
    requires
        nonneg_balance_amounts(s),
    ensures
        balance_in(s, p) >= 0,
    decreases s.len(),
{
    if s.len() > 0 && s.last().principal != p {
        lemma_balance_in_nonneg(s.drop_last(), p);
    }
}

pub proof fn lemma_sum_nonneg(s: Seq<BalanceEntry>)
    requires
        nonneg_balance_amounts(s),
    ensures
        sum_balances(s) >= 0,
    decreases s.len(),
{
    if s.len() > 0 {
        lemma_sum_nonneg(s.drop_last());
    }
}

/// One recorded balance never exceeds the total of all recorded balances.
pub proof fn lemma_balance_le_sum(s: Seq<BalanceEntry>, p: Principal)
    requires
        nonneg_balance_amounts(s),
    ensures
        balance_in(s, p) <= sum_balances(s),
    decreases s.len(),
{
    if s.len() > 0 {
        if s.last().principal == p {
            lemma_sum_nonneg(s.drop_last());
        } else {
            lemma_balance_le_sum(s.drop_last(), p);
        }
    }
}

/// The index of the entry recording `p`, if one exists.
fn find_balance(token: &CarbonCreditToken, p: Principal) -> (found: Option<usize>)
    ensures
        match found {
            Some(i) => i < token.balances@.len() && token.balances@[i as int].principal == p,
            None => forall|k: int|
                0 <= k < token.balances@.len() ==> (#[trigger] token.balances@[k]).principal != p,
        },
{
    let n = token.balances.len();
    let mut i: usize = 0;
    while i < n
        invariant
            n == token.balances@.len(),
            i <= n,
            forall|k: int| 0 <= k < i ==> (#[trigger] token.balances@[k]).principal != p,
        decreases n - i,
    {
        if token.balances[i].principal == p {
            return Some(i);
        }
        i = i + 1;
    }
    None
}

/// The current recorded balance of `p`, or zero if never written.
pub fn read_balance(token: &CarbonCreditToken, p: Principal) -> (amount: i128)
    requires
        token.balances_ok(),
    ensures
        amount as int == token.balance_of(p),
        amount >= 0,
{
    match find_balance(token, p) {
        Some(i) => {
            proof {
                lemma_balance_in_at(token.balances@, i as int, p);
            }
            token.balances[i].amount
        }
        None => {
            proof {
                lemma_balance_in_absent(token.balances@, p);
            }
            0
        }
    }
}

/// Credits `amount` to `p`, creating the entry if absent.  Refuses only an
/// amount that would push the balance past the representable range.
pub fn receive_balance(token: &mut CarbonCreditToken, p: Principal, amount: i128) -> (r: Result<
    (),
    Error,
>)
    requires
        old(token).balances_ok(),
        amount >= 0,
    ensures
        final(token).balances_ok(),
        same_metadata(*old(token), *final(token)),
        same_counters(*old(token), *final(token)),
        same_allowances(*old(token), *final(token)),
        match r {
            Ok(()) => {
                &&& old(token).balance_of(p) + amount <= i128::MAX
                &&& final(token).balance_of(p) == old(token).balance_of(p) + amount
                &&& forall|q: Principal|
                    q != p ==> #[trigger] balance_in(final(token).balances@, q) == balance_in(
                        old(token).balances@,
                        q,
                    )
                &&& sum_balances(final(token).balances@) == sum_balances(old(token).balances@)
                    + amount
            },
            Err(e) => {
                &&& e == Error::ArithmeticOverflow
                &&& old(token).balance_of(p) + amount > i128::MAX
                &&& *final(token) == *old(token)
            },
        },
{
    match find_balance(token, p) {
        Some(i) => {
            let bal = token.balances[i].amount;
            proof {
                lemma_balance_in_at(token.balances@, i as int, p);
            }
            if bal > i128::MAX - amount {
                Err(Error::ArithmeticOverflow)
            } else {
                let entry = BalanceEntry { principal: p, amount: bal + amount };
                proof {
                    lemma_sum_update(token.balances@, i as int, entry);
                    assert forall|q: Principal| #[trigger]
                        balance_in(token.balances@.update(i as int, entry), q) == if q == p {
                        entry.amount as int
                    } else {
                        balance_in(token.balances@, q)
                    } by {
                        lemma_balance_in_update(token.balances@, i as int, entry, q);
                    }
                }
                token.balances.set(i, entry);
                Ok(())
            }
        }
        None => {
            proof {
                lemma_balance_in_absent(token.balances@, p);
            }
            let entry = BalanceEntry { principal: p, amount };
            proof {
                lemma_sum_push(token.balances@, entry);
                assert forall|q: Principal| #[trigger]
                    balance_in(token.balances@.push(entry), q) == if q == p {
                    amount as int
                } else {
                    balance_in(token.balances@, q)
                } by {
                    lemma_balance_in_push(token.balances@, entry, q);
                }
            }
            token.balances.push(entry);
            Ok(())
        }
    }
}

/// Debits `amount` from `p`.  Refuses the debit if `p` holds less than
/// `amount`; nothing is changed on refusal.
pub fn spend_balance(token: &mut CarbonCreditToken, p: Principal, amount: i128) -> (r: Result<
    (),
    Error,
>)
    requires
        old(token).balances_ok(),
        amount >= 0,
    ensures
        final(token).balances_ok(),
        same_metadata(*old(token), *final(token)),
        same_counters(*old(token), *final(token)),
        same_allowances(*old(token), *final(token)),
        match r {
            Ok(()) => {
                &&& old(token).balance_of(p) >= amount
                &&& final(token).balance_of(p) == old(token).balance_of(p) - amount
                &&& forall|q: Principal|
                    q != p ==> #[trigger] balance_in(final(token).balances@, q) == balance_in(
                        old(token).balances@,
                        q,
                    )
                &&& sum_balances(final(token).balances@) == sum_balances(old(token).balances@)
                    - amount
            },
            Err(e) => {
                &&& e == Error::InsufficientBalance
                &&& old(token).balance_of(p) < amount
                &&& *final(token) == *old(token)
            },
        },
{
    match find_balance(token, p) {
        Some(i) => {
            let bal = token.balances[i].amount;
            proof {
                lemma_balance_in_at(token.balances@, i as int, p);
            }
            if bal < amount {
                Err(Error::InsufficientBalance)
            } else {
                let entry = BalanceEntry { principal: p, amount: bal - amount };
                proof {
                    lemma_sum_update(token.balances@, i as int, entry);
                    assert forall|q: Principal| #[trigger]
                        balance_in(token.balances@.update(i as int, entry), q) == if q == p {
                        entry.amount as int
                    } else {
                        balance_in(token.balances@, q)
                    } by {
                        lemma_balance_in_update(token.balances@, i as int, entry, q);
                    }
                }
                token.balances.set(i, entry);
                Ok(())
            }
        }
        None => {
            proof {
                lemma_balance_in_absent(token.balances@, p);
            }
            if amount > 0 {
                Err(Error::InsufficientBalance)
            } else {
                Ok(())
            }
        }
    }
}

} // verus!
