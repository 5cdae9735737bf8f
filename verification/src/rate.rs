//! The rate model: utilization and interest rate from pool totals.

use vstd::prelude::*;

use crate::config::Config;
use crate::{sat_add, sat_mul};

verus! {

/// Utilization factor of the pool in `scale` fixed point: the borrowed
/// share of supplied liquidity, `total_borrowed * scale / total_deposited`,
/// and zero when either total is zero.
pub open spec fn utilization_of(total_borrowed: u128, total_deposited: u128, scale: u128) -> u128 {
    if total_deposited == 0 || total_borrowed == 0 {
        0
    } else {
        sat_mul(total_borrowed, scale) / total_deposited
    }
}

/// Lender interest rate: `base_rate + utilization * risk_multiplier / scale`,
/// saturating. The `scale` division matches the fixed-point resolution of
/// the utilization factor.
pub open spec fn interest_rate_of(base_rate: u128, risk_multiplier: u128, utilization: u128, scale: u128) -> u128 {
    if scale == 0 {
        base_rate
    } else {
        sat_add(base_rate, sat_mul(utilization, risk_multiplier) / scale)
    }
}

/// Borrower rate: the lender rate plus the dev fee taken on it,
/// `rate + rate * dev_fee / scale`, saturating.
pub open spec fn apr_of(interest_rate: u128, dev_fee: u128, scale: u128) -> u128 {
    if scale == 0 {
        interest_rate
    } else {
        sat_add(interest_rate, sat_mul(interest_rate, dev_fee) / scale)
    }
}

/// Computes the utilization factor of the given totals.
pub fn utilization_factor(total_borrowed: u128, total_deposited: u128, scale: u128) -> (r: u128)
    ensures
        r == utilization_of(total_borrowed, total_deposited, scale),
{
    if total_deposited == 0 || total_borrowed == 0 {
        0
    } else {
        crate::saturating_mul(total_borrowed, scale) / total_deposited
    }
}

/// Computes the lender interest rate for the given utilization.
pub fn interest_rate(base_rate: u128, risk_multiplier: u128, utilization: u128, scale: u128) -> (r: u128)
    ensures
        r == interest_rate_of(base_rate, risk_multiplier, utilization, scale),
{
    if scale == 0 {
        base_rate
    } else {
        base_rate.saturating_add(crate::saturating_mul(utilization, risk_multiplier) / scale)
    }
}

/// Computes the borrower rate for the given lender rate.
pub fn apr(interest_rate: u128, dev_fee: u128, scale: u128) -> (r: u128)
    ensures
        r == apr_of(interest_rate, dev_fee, scale),
{
    if scale == 0 {
        interest_rate
    } else {
        interest_rate.saturating_add(crate::saturating_mul(interest_rate, dev_fee) / scale)
    }
}

/// The utilization factor never leaves `[0, scale]` while the pool has
/// lent out no more than it holds.
pub proof fn lemma_utilization_bounds(total_borrowed: u128, total_deposited: u128, scale: u128)
    requires
        total_borrowed <= total_deposited,
    ensures
        utilization_of(total_borrowed, total_deposited, scale) <= scale,
{
    if total_deposited != 0 && total_borrowed != 0 {
        assert(total_borrowed * scale <= total_deposited * scale) by (nonlinear_arith)
            requires total_borrowed <= total_deposited,
        ;
        if total_borrowed * scale <= u128::MAX {
            assert(total_borrowed * scale / (total_deposited as int) <= scale) by (nonlinear_arith)
                requires
                    total_borrowed * scale <= total_deposited * scale,
                    total_deposited > 0,
            ;
        } else {
            assert((u128::MAX as int) / (total_deposited as int) <= scale) by (nonlinear_arith)
                requires
                    u128::MAX <= total_deposited * scale,
                    total_deposited > 0,
            ;
        }
    }
}

/// After re-pricing, the stored utilization factor of a pool that has lent
/// out no more than it holds is within `[0, scale]`.
pub proof fn lemma_repriced_utilization_in_range(m: crate::pool::PoolView)
    requires
        m.total_borrowed <= m.total_deposited,
    ensures
        crate::pool::reprice_spec(m).utilization_factor <= m.config.decimals_factor,
{
    lemma_utilization_bounds(m.total_borrowed, m.total_deposited, m.config.decimals_factor);
}

/// For a fixed configuration, the interest rate is non-decreasing in the
/// utilization factor.
pub proof fn lemma_interest_rate_monotone(cfg: Config, u1: u128, u2: u128)
    requires
        u1 <= u2,
    ensures
        interest_rate_of(cfg.base_rate, cfg.risk_multiplier, u1, cfg.decimals_factor)
            <= interest_rate_of(cfg.base_rate, cfg.risk_multiplier, u2, cfg.decimals_factor),
{
    if cfg.decimals_factor != 0 {
        assert(u1 * cfg.risk_multiplier <= u2 * cfg.risk_multiplier) by (nonlinear_arith)
            requires u1 <= u2,
        ;
        let s1 = sat_mul(u1, cfg.risk_multiplier);
        let s2 = sat_mul(u2, cfg.risk_multiplier);
        assert(s1 <= s2);
        assert(s1 / cfg.decimals_factor <= s2 / cfg.decimals_factor) by (nonlinear_arith)
            requires s1 <= s2, cfg.decimals_factor > 0,
        ;
    }
}

} // verus!
