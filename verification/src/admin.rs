//! The administrator record: the one principal with mint authority, set at
//! initialization.

use vstd::prelude::*;
use crate::{CarbonCreditToken, Principal};

verus! {

/// The principal holding mint authority.  Meaningful only once the ledger
/// is initialized, which is why an initialized ledger is required.
pub fn read_administrator(token: &CarbonCreditToken) -> (r: Principal)
    requires
        token.initialized,
    ensures
        r == token.admin,
{
    token.admin
}

/// Records `admin` as the principal with mint authority; everything else is
/// untouched.
pub fn write_administrator(token: &mut CarbonCreditToken, admin: Principal)
    ensures
        final(token).admin == admin,
        final(token).initialized == old(token).initialized,
        final(token).name == old(token).name,
        final(token).symbol == old(token).symbol,
        final(token).decimals == old(token).decimals,
        final(token).total_supply == old(token).total_supply,
        final(token).total_retired == old(token).total_retired,
        final(token).balances@ == old(token).balances@,
        final(token).allowances@ == old(token).allowances@,
{
    token.admin = admin;
}

} // verus!
