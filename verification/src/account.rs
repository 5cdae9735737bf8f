//! Per-user ledger rows: supplied balance, rewards, collateral, loan.

use vstd::prelude::*;

use crate::{sat_add, sat_mul, sat_sub};

verus! {

/// One participant's row in the account directory.
///
/// `balance`, `rewards`, `rewards_withdrawn` and `loan_amount` are in the
/// pool's fixed-point scale; `balance_vara` and
/// `available_to_withdraw_vara` are in native value; `cv` and `mla` are in
/// price-denominated value units. The two checkpoints are in milliseconds
/// and are independent: one for supply-side interest, one for loan-side
/// interest.
#[derive(Clone, Copy, PartialEq, Eq, Structural, Debug)]
pub struct UserInfo {
    /// Supplied liquidity, scaled.
    pub balance: u128,
    /// Rewards accrued over the account's lifetime, scaled.
    pub rewards: u128,
    /// Rewards paid out over the account's lifetime, scaled.
    pub rewards_withdrawn: u128,
    /// Supply-side accrual checkpoint, in milliseconds.
    pub liquidity_last_updated: u128,
    /// Loan-side accrual checkpoint, in milliseconds.
    pub borrow_last_updated: u128,
    /// Locked native collateral.
    pub balance_vara: u128,
    /// Collateral value at the last valuation.
    pub cv: u128,
    /// Maximum loan amount at the last valuation.
    pub mla: u128,
    /// Collateral the user may withdraw without breaching the loan.
    pub available_to_withdraw_vara: u128,
    /// Outstanding loan, scaled.
    pub loan_amount: u128,
    /// Whether a loan is outstanding.
    pub is_loan_active: bool,
    /// Loan-to-value percentage at the last revaluation.
    pub ltv: u128,
}

/// Collateral value: whole native units held, times the oracle price.
/// Sub-unit collateral is floored away on purpose.
pub open spec fn cv_of(balance_vara: u128, one_tvara: u128, vara_price: u128) -> u128 {
    if one_tvara == 0 {
        0
    } else {
        sat_mul(balance_vara / one_tvara, vara_price)
    }
}

/// Maximum loan amount: the collateral value times the global
/// loan-to-value ceiling, a percentage.
pub open spec fn mla_of(cv: u128, global_ltv: u128) -> u128 {
    sat_mul(cv, global_ltv) / 100
}

/// Per-user loan-to-value percentage, `loan * 100 / cv`, guarded to zero
/// when the collateral value is zero.
pub open spec fn ltv_of(loan_amount: u128, cv: u128) -> u128 {
    if cv == 0 {
        0
    } else {
        sat_mul(loan_amount, 100) / cv
    }
}

/// Collateral available to withdraw: all of it without an active loan,
/// otherwise the balance less the locked share `balance * ltv / 100`.
pub open spec fn available_of(balance_vara: u128, ltv: u128, is_loan_active: bool) -> u128 {
    if !is_loan_active {
        balance_vara
    } else {
        sat_sub(balance_vara, sat_mul(balance_vara, ltv) / 100)
    }
}

/// Whole seconds elapsed between a millisecond checkpoint and a
/// millisecond clock reading; zero when the clock has not advanced.
pub open spec fn elapsed_seconds(last_updated: u128, now: u128) -> u128 {
    if now >= last_updated {
        ((now - last_updated) / 1000) as u128
    } else {
        0
    }
}

/// Interest earned by `balance` at `rate` over `elapsed` seconds:
/// `balance * rate * elapsed / (year_in_seconds * scale)`, each product
/// saturating.
pub open spec fn reward_delta(balance: u128, rate: u128, elapsed: u128, year_in_seconds: u128, scale: u128) -> u128 {
    let denom = sat_mul(year_in_seconds, scale);
    if denom == 0 {
        0
    } else {
        sat_mul(sat_mul(balance, rate), elapsed) / denom
    }
}

/// Supply-side accrual of one account at `now`: if at least one whole
/// second has elapsed since the supply checkpoint, the reward delta is
/// added (saturating) and the checkpoint advances; otherwise the account
/// is untouched.
pub open spec fn accrue_user_spec(u: UserInfo, rate: u128, scale: u128, year_in_seconds: u128, now: u128) -> UserInfo {
    let e = elapsed_seconds(u.liquidity_last_updated, now);
    if e > 0 {
        UserInfo {
            rewards: sat_add(u.rewards, reward_delta(u.balance, rate, e, year_in_seconds, scale)),
            liquidity_last_updated: now,
            ..u
        }
    } else {
        u
    }
}

/// A fresh account: everything zero, both checkpoints at the creation
/// time.
pub fn create_new_user(timestamp: u128) -> (u: UserInfo)
    ensures
        u == new_user_spec(timestamp),
{
    UserInfo {
        balance: 0,
        rewards: 0,
        rewards_withdrawn: 0,
        liquidity_last_updated: timestamp,
        borrow_last_updated: timestamp,
        balance_vara: 0,
        cv: 0,
        mla: 0,
        available_to_withdraw_vara: 0,
        loan_amount: 0,
        is_loan_active: false,
        ltv: 0,
    }
}

/// The value `create_new_user` returns.
pub open spec fn new_user_spec(timestamp: u128) -> UserInfo {
    UserInfo {
        balance: 0,
        rewards: 0,
        rewards_withdrawn: 0,
        liquidity_last_updated: timestamp,
        borrow_last_updated: timestamp,
        balance_vara: 0,
        cv: 0,
        mla: 0,
        available_to_withdraw_vara: 0,
        loan_amount: 0,
        is_loan_active: false,
        ltv: 0,
    }
}

/// Accrues supply-side rewards for one account at the given clock reading.
pub fn update_user_rewards(user_info: &mut UserInfo, interest_rate: u128, decimals_factor: u128, year_in_seconds: u128, now: u128)
    ensures
        *final(user_info) == accrue_user_spec(*old(user_info), interest_rate, decimals_factor, year_in_seconds, now),
{
    if now >= user_info.liquidity_last_updated {
        let time_elapsed = (now - user_info.liquidity_last_updated) / 1000;
        if time_elapsed > 0 {
            let gross = crate::saturating_mul(
                crate::saturating_mul(user_info.balance, interest_rate),
                time_elapsed,
            );
            let denom = crate::saturating_mul(year_in_seconds, decimals_factor);
            if denom > 0 {
                user_info.rewards = user_info.rewards.saturating_add(gross / denom);
            }
            user_info.liquidity_last_updated = now;
        }
    }
}

/// Recomputes the collateral a user may withdraw from the current balance,
/// loan-to-value and loan flag.
pub fn update_user_available_to_withdraw_vara(user_info: &mut UserInfo)
    ensures
        *final(user_info) == (UserInfo {
            available_to_withdraw_vara: available_of(
                old(user_info).balance_vara,
                old(user_info).ltv,
                old(user_info).is_loan_active,
            ),
            ..*old(user_info)
        }),
{
    if !user_info.is_loan_active {
        user_info.available_to_withdraw_vara = user_info.balance_vara;
    } else {
        let locked = crate::saturating_mul(user_info.balance_vara, user_info.ltv) / 100;
        let available = user_info.balance_vara.saturating_sub(locked);
        user_info.available_to_withdraw_vara = available;
    }
}

/// Accruing twice at the same clock reading changes nothing beyond the
/// first accrual: after the first, either the checkpoint sits at `now` or
/// less than a second has elapsed, and both leave the row untouched.
pub proof fn lemma_accrue_idempotent(u: UserInfo, rate: u128, scale: u128, year_in_seconds: u128, now: u128)
    ensures
        accrue_user_spec(accrue_user_spec(u, rate, scale, year_in_seconds, now), rate, scale, year_in_seconds, now)
            == accrue_user_spec(u, rate, scale, year_in_seconds, now),
{
}

} // verus!
