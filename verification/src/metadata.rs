//! The immutable token metadata: name, symbol and decimals, written once at
//! initialization and read-only afterwards.

use vstd::prelude::*;
use crate::{CarbonCreditToken, Principal};

verus! {

/// The token name.  Metadata exists only once the ledger is initialized.
pub fn read_name(token: &CarbonCreditToken) -> (r: String)
    requires
        token.initialized,
    ensures
        r@ == token.name@,
{
    token.name.clone()
}

/// The token symbol.  Metadata exists only once the ledger is initialized.
pub fn read_symbol(token: &CarbonCreditToken) -> (r: String)
    requires
        token.initialized,
    ensures
        r@ == token.symbol@,
{
    token.symbol.clone()
}

/// The display decimals.  Metadata exists only once the ledger is initialized.
pub fn read_decimals(token: &CarbonCreditToken) -> (r: u32)
    requires
        token.initialized,
    ensures
        r == token.decimals,
{
    token.decimals
}

/// Records name, symbol and decimals; everything else is untouched.
pub fn write_metadata(
    token: &mut CarbonCreditToken,
    name: String,
    symbol: String,
    decimals: u32,
)
    ensures
        final(token).name@ == name@,
        final(token).symbol@ == symbol@,
        final(token).decimals == decimals,
        final(token).initialized == old(token).initialized,
        final(token).admin == old(token).admin,
        final(token).total_supply == old(token).total_supply,
        final(token).total_retired == old(token).total_retired,
        final(token).balances@ == old(token).balances@,
        final(token).allowances@ == old(token).allowances@,
{
    token.name = name;
    token.symbol = symbol;
    token.decimals = decimals;
}

} // verus!
