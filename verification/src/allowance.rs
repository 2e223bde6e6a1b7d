//! The allowance ledger: time-boxed delegated-spending grants, one per
//! (owner, spender) pair.
//!
//! Expiry is enforced at read time: a stored grant whose expiration ordinal
//! lies before the current ordinal reads as zero, so no background sweep is
//! needed, and the hosting storage layer is free to evict such entries as a
//! cost optimization without changing any observable behaviour.

use vstd::prelude::*;
use crate::storage::{AllowanceDataKey, AllowanceEntry, AllowanceValue};
use crate::{same_balances, same_counters, same_metadata, CarbonCreditToken, Error, Principal};

verus! {

/// The stored value for the pair, or `None` if no entry carries it.
pub open spec fn allowance_in(
    s: Seq<AllowanceEntry>,
    from: Principal,
    spender: Principal,
) -> Option<AllowanceValue>
    decreases s.len(),
{
    if s.len() == 0 {
        None
    } else if s.last().key.from == from && s.last().key.spender == spender {
        Some(s.last().value)
    } else {
        allowance_in(s.drop_last(), from, spender)
    }
}

/// What a read at ordinal `now` reports of a stored record: the stored
/// amount while the record is unexpired, zero otherwise.
pub open spec fn effective_amount(record: Option<AllowanceValue>, now: u32) -> int {
    match record {
        None => 0,
        Some(v) => if v.expiration_ledger >= now {
            v.amount as int
        } else {
            0
        },
    }
}

/// No two entries carry the same (owner, spender) pair.
pub open spec fn distinct_allowance_keys(s: Seq<AllowanceEntry>) -> bool {
    forall|i: int, j: int| 0 <= i < j < s.len() ==> (#[trigger] s[i]).key != (#[trigger] s[j]).key
}

/// Every stored allowance amount is nonnegative.
pub open spec fn nonneg_allowance_amounts(s: Seq<AllowanceEntry>) -> bool {
    forall|i: int| 0 <= i < s.len() ==> (#[trigger] s[i]).value.amount >= 0
}

pub proof fn lemma_allowance_in_push(
    s: Seq<AllowanceEntry>,
    e: AllowanceEntry,
    from: Principal,
    spender: Principal,
)
    ensures
        allowance_in(s.push(e), from, spender) == if e.key.from == from && e.key.spender
            == spender {
            Some(e.value)
        } else {
            allowance_in(s, from, spender)
        },
{
    assert(s.push(e).drop_last() =~= s);
}

pub proof fn lemma_allowance_in_update(
    s: Seq<AllowanceEntry>,
    i: int,
    e: AllowanceEntry,
    from: Principal,
    spender: Principal,
)
    requires
        0 <= i < s.len(),
        s[i].key == e.key,
        distinct_allowance_keys(s),
    ensures
        allowance_in(s.update(i, e), from, spender) == if e.key.from == from && e.key.spender
            == spender {
            Some(e.value)
        } else {
            allowance_in(s, from, spender)
        },
    decreases s.len(),
{
    if i == s.len() - 1 {
        assert(s.update(i, e).drop_last() =~= s.drop_last());
    } else {
        assert(s.update(i, e).drop_last() =~= s.drop_last().update(i, e));
        assert(s.last().key != e.key);
        lemma_allowance_in_update(s.drop_last(), i, e, from, spender);
    }
}

pub proof fn lemma_allowance_in_absent(s: Seq<AllowanceEntry>, from: Principal, spender: Principal)
    requires
        forall|k: int|
            0 <= k < s.len() ==> (#[trigger] s[k]).key != (AllowanceDataKey { from, spender }),
    ensures
        allowance_in(s, from, spender) == None::<AllowanceValue>,
    decreases s.len(),
{
    if s.len() > 0 {
        lemma_allowance_in_absent(s.drop_last(), from, spender);
    }
}

pub proof fn lemma_allowance_in_at(
    s: Seq<AllowanceEntry>,
    i: int,
    from: Principal,
    spender: Principal,
)
    requires
        distinct_allowance_keys(s),
        0 <= i < s.len(),
        s[i].key == (AllowanceDataKey { from, spender }),
    ensures
        allowance_in(s, from, spender) == Some(s[i].value),
    decreases s.len(),
{
    if i < s.len() - 1 {
        assert(s.last().key != s[i].key);
        lemma_allowance_in_at(s.drop_last(), i, from, spender);
    }
}

/// The index of the entry carrying the pair, if one exists.
fn find_allowance(token: &CarbonCreditToken, from: Principal, spender: Principal) -> (found: Option<
    usize,
>)
    ensures
        match found {
            Some(i) => i < token.allowances@.len() && token.allowances@[i as int].key
                == (AllowanceDataKey { from, spender }),
            None => forall|k: int|
                0 <= k < token.allowances@.len() ==> (#[trigger] token.allowances@[k]).key != (
                AllowanceDataKey { from, spender }),
        },
{
    let n = token.allowances.len();
    let mut i: usize = 0;
    while i < n
        invariant
            n == token.allowances@.len(),
            i <= n,
            forall|k: int|
                0 <= k < i ==> (#[trigger] token.allowances@[k]).key != (AllowanceDataKey {
                    from,
                    spender,
                }),
        decreases n - i,
    {
        let key = token.allowances[i].key;
        if key.from == from && key.spender == spender {
            return Some(i);
        }
        i = i + 1;
    }
    None
}

/// The allowance the pair may still spend at ordinal `now`: the stored
/// amount if its expiration has not passed, zero otherwise.  Never fails
/// and never mutates.
pub fn read_allowance(
    token: &CarbonCreditToken,
    from: Principal,
    spender: Principal,
    now: u32,
) -> (amount: i128)
    requires
        token.allowances_ok(),
    ensures
        amount as int == token.effective_allowance(from, spender, now),
        amount >= 0,
{
    match find_allowance(token, from, spender) {
        Some(i) => {
            proof {
                lemma_allowance_in_at(token.allowances@, i as int, from, spender);
            }
            let value = token.allowances[i].value;
            if value.expiration_ledger < now {
                0
            } else {
                value.amount
            }
        }
        None => {
            proof {
                lemma_allowance_in_absent(token.allowances@, from, spender);
            }
            0
        }
    }
}

/// Replaces the pair's grant with `(amount, expiration_ledger)`.  A positive
/// amount whose expiration already lies in the past can never be spent, so
/// it is refused as a caller error; nothing is changed on refusal.
pub fn write_allowance(
    token: &mut CarbonCreditToken,
    from: Principal,
    spender: Principal,
    amount: i128,
    expiration_ledger: u32,
    now: u32,
) -> (r: Result<(), Error>)
    requires
        old(token).allowances_ok(),
        amount >= 0,
    ensures
        final(token).allowances_ok(),
        same_metadata(*old(token), *final(token)),
        same_counters(*old(token), *final(token)),
        same_balances(*old(token), *final(token)),
        match r {
            Ok(()) => {
                &&& !(amount > 0 && expiration_ledger < now)
                &&& final(token).allowance_record(from, spender) == Some(
                    (AllowanceValue { amount, expiration_ledger }),
                )
                &&& forall|o: Principal, s: Principal|
                    !(o == from && s == spender) ==> #[trigger] allowance_in(
                        final(token).allowances@,
                        o,
                        s,
                    ) == allowance_in(old(token).allowances@, o, s)
            },
            Err(e) => {
                &&& e == Error::InvalidExpiration
                &&& amount > 0 && expiration_ledger < now
                &&& *final(token) == *old(token)
            },
        },
{
    if amount > 0 && expiration_ledger < now {
        return Err(Error::InvalidExpiration);
    }
    let entry = AllowanceEntry {
        key: AllowanceDataKey { from, spender },
        value: AllowanceValue { amount, expiration_ledger },
    };
    match find_allowance(token, from, spender) {
        Some(i) => {
            proof {
                assert forall|o: Principal, s: Principal| #[trigger]
                    allowance_in(token.allowances@.update(i as int, entry), o, s) == if o == from
                    && s == spender {
                    Some(entry.value)
                } else {
                    allowance_in(token.allowances@, o, s)
                } by {
                    lemma_allowance_in_update(token.allowances@, i as int, entry, o, s);
                }
            }
            token.allowances.set(i, entry);
        }
        None => {
            proof {
                assert forall|o: Principal, s: Principal| #[trigger]
                    allowance_in(token.allowances@.push(entry), o, s) == if o == from && s
                    == spender {
                    Some(entry.value)
                } else {
                    allowance_in(token.allowances@, o, s)
                } by {
                    lemma_allowance_in_push(token.allowances@, entry, o, s);
                }
            }
            token.allowances.push(entry);
        }
    }
    Ok(())
}

/// Consumes `amount` of the pair's effective allowance, keeping the grant's
/// original expiration window.  Refuses the spend if the effective
/// allowance is smaller; nothing is changed on refusal.
pub fn spend_allowance(
    token: &mut CarbonCreditToken,
    from: Principal,
    spender: Principal,
    amount: i128,
    now: u32,
) -> (r: Result<(), Error>)
    requires
        old(token).allowances_ok(),
        amount >= 0,
    ensures
        final(token).allowances_ok(),
        same_metadata(*old(token), *final(token)),
        same_counters(*old(token), *final(token)),
        same_balances(*old(token), *final(token)),
        match r {
            Ok(()) => {
                &&& old(token).effective_allowance(from, spender, now) >= amount
                &&& amount > 0 ==> (old(token).allowance_record(from, spender) matches Some(v)
                    && final(token).allowance_record(from, spender) == Some(
                    (AllowanceValue {
                        amount: (old(token).effective_allowance(from, spender, now) - amount) as i128,
                        expiration_ledger: v.expiration_ledger,
                    }),
                ))
                &&& amount == 0 ==> *final(token) == *old(token)
                &&& forall|o: Principal, s: Principal|
                    !(o == from && s == spender) ==> #[trigger] allowance_in(
                        final(token).allowances@,
                        o,
                        s,
                    ) == allowance_in(old(token).allowances@, o, s)
            },
            Err(e) => {
                &&& e == Error::InsufficientAllowance
                &&& old(token).effective_allowance(from, spender, now) < amount
                &&& *final(token) == *old(token)
            },
        },
{
    let current = read_allowance(token, from, spender, now);
    if current < amount {
        return Err(Error::InsufficientAllowance);
    }
    if amount > 0 {
        let i = match find_allowance(token, from, spender) {
            Some(i) => i,
            None => {
                proof {
                    lemma_allowance_in_absent(token.allowances@, from, spender);
                }
                // an effective allowance of at least `amount > 0` implies a
                // stored record, so this arm is unreachable
                return Err(Error::InsufficientAllowance);
            }
        };
        proof {
            lemma_allowance_in_at(token.allowances@, i as int, from, spender);
        }
        let expiration_ledger = token.allowances[i].value.expiration_ledger;
        match write_allowance(token, from, spender, current - amount, expiration_ledger, now) {
            Ok(()) => Ok(()),
            Err(e) => Err(e),
        }
    } else {
        Ok(())
    }
}

} // verus!
