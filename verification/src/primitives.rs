use crate::arith::{fixed_u128_saturating_from_rational, spec_fixed_u128_from_rational};
use vstd::prelude::*;

verus! {

/// Identifies a currency.
pub type CurrencyId = u32;

/// An account.
pub type AccountId = u64;

/// An amount of a currency.
pub type Balance = u128;

/// A mint rate, held as the inner value of a `FixedU128`: parts per `10^18`.
pub type MintRate = u128;

/// The native currency, which is staked.
pub const STAKING_CURRENCY_ID: CurrencyId = 1;

/// The liquid currency handed out for staked funds.
pub const LIQUID_CURRENCY_ID: CurrencyId = 2;

/// The existential deposit the mock configures by default; genesis takes it as the
/// minimum nominator and validator bond.
pub const EXISTENTIAL_DEPOSIT: Balance = 1;

/// The mint rate the pallet starts with: ten liquid units per staked unit.
pub fn default_mint_rate() -> (rate: MintRate)
    ensures
        rate == spec_fixed_u128_from_rational(10, 1),
        rate == 10_000_000_000_000_000_000u128,
{
    fixed_u128_saturating_from_rational(10, 1)
}

} // verus!
