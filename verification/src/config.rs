//! Pool parameters: fixed-point scale, rate-model coefficients, caps.

use vstd::prelude::*;

verus! {

/// Immutable-until-changed parameter set of the lending pool.
///
/// Every monetary value in the pool is expressed in a fixed-point
/// representation with `decimals_factor` as the denominator. `vara_price`
/// is the oracle price of one native unit (`one_tvara`) of collateral; it
/// is authoritative only after an administrator pushes it, and everything
/// derived from it is recomputed for all accounts when it changes.
#[derive(Clone, Copy, PartialEq, Eq, Structural, Debug)]
pub struct Config {
    /// Fixed-point denominator for scaled amounts.
    pub decimals_factor: u128,
    /// Seconds per year, the denominator of time-prorated interest.
    pub year_in_seconds: u128,
    /// Base interest rate, in `decimals_factor` fixed point.
    pub base_rate: u128,
    /// Slope of the interest rate in the utilization factor.
    pub risk_multiplier: u128,
    /// Value of one whole native collateral unit.
    pub one_tvara: u128,
    /// Oracle price of one native collateral unit.
    pub vara_price: u128,
    /// Fee taken on top of the lender rate, in `decimals_factor` fixed point.
    pub dev_fee: u128,
    /// Cap on a single loan request, in asset units.
    pub max_loan_amount: u128,
    /// Cap on a single collateral withdrawal, in native value.
    pub max_collateral_withdraw: u128,
    /// Cap on a single liquidity deposit, in asset units.
    pub max_liquidity_deposit: u128,
    /// Cap on a single liquidity withdrawal, in asset units.
    pub max_liquidity_withdraw: u128,
    /// Smallest reward amount that may be withdrawn, in scaled units.
    pub min_rewards_withdraw: u128,
}

impl Config {
    /// The divisors the engine relies on are positive.
    pub open spec fn wf(self) -> bool {
        &&& self.decimals_factor >= 1
        &&& self.year_in_seconds >= 1
        &&& self.one_tvara >= 1
    }
}

impl Default for Config {
    /// The stock parameter set: an 18-decimal asset, a 1% base rate and 4%
    /// risk multiplier in that scale, a 1.5% dev fee, and wide caps.
    fn default() -> (c: Config)
        ensures
            c.wf(),
            c.decimals_factor == 1_000_000_000_000_000_000u128,
            c.year_in_seconds == 31_536_000u128,
            c.base_rate == 10_000u128,
            c.risk_multiplier == 40_000u128,
            c.one_tvara == 1_000_000_000_000u128,
            c.vara_price == 1_000_000u128,
            c.dev_fee == 15_000u128,
            c.max_loan_amount == 100_000_000_000_000_000_000u128,
            c.max_collateral_withdraw == 100_000_000_000_000_000_000u128,
            c.max_liquidity_deposit == 100_000_000_000_000_000_000u128,
            c.max_liquidity_withdraw == 100_000_000_000_000_000_000u128,
            c.min_rewards_withdraw == 100_000u128,
    {
        Config {
            decimals_factor: 1_000_000_000_000_000_000,
            year_in_seconds: 31_536_000,
            base_rate: 10_000,
            risk_multiplier: 40_000,
            one_tvara: 1_000_000_000_000,
            vara_price: 1_000_000,
            dev_fee: 15_000,
            max_loan_amount: 100_000_000_000_000_000_000,
            max_collateral_withdraw: 100_000_000_000_000_000_000,
            max_liquidity_deposit: 100_000_000_000_000_000_000,
            max_liquidity_withdraw: 100_000_000_000_000_000_000,
            min_rewards_withdraw: 100_000,
        }
    }
}

} // verus!
