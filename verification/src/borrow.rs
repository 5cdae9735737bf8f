//! Borrow side: collateral, loans, liquidation, and the oracle price.
//!
//! The same two-phase discipline as the supply side applies to every
//! operation that owes an external transfer: the `*_check` function
//! validates and names the amount owed, the host transfers, and only a
//! confirmed success is followed by the operation itself, which commits.
//! Collateral deposits arrive with the host message itself, so they commit
//! in one step.
//!
//! Loan-side interest accrues only through the explicit
//! `calculate_all_loan_interest_rate_amounts` sweep, at the borrower rate,
//! against each account's own loan checkpoint.

use vstd::prelude::*;

use crate::account::{
    available_of, cv_of, elapsed_seconds, ltv_of, mla_of, new_user_spec, reward_delta, UserInfo,
};
use crate::config::Config;
use crate::errors::Error;
use crate::events::LiquidityEvent;
use crate::pool::{
    contains_user, idx_of, lemma_sum_pointwise, lemma_sum_push, lemma_sum_update,
    lemma_sweep_directory, reprice_spec, sweep_spec, user_of, LiquidityPool, PoolView,
};
use crate::{sat_add, sat_mul, sat_sub};

verus! {

/// One row revalued against the current oracle price and global ceiling:
/// collateral value, maximum loan amount, loan-to-value and withdrawable
/// collateral are all re-derived. Runs for every account whenever the
/// price changes, and for the acting account whenever its collateral
/// changes.
pub open spec fn revalue_user_spec(u: UserInfo, one_tvara: u128, vara_price: u128, global_ltv: u128) -> UserInfo {
    let cv = cv_of(u.balance_vara, one_tvara, vara_price);
    let ltv = ltv_of(u.loan_amount, cv);
    UserInfo {
        cv: cv,
        mla: mla_of(cv, global_ltv),
        ltv: ltv,
        available_to_withdraw_vara: available_of(u.balance_vara, ltv, u.is_loan_active),
        ..u
    }
}

/// One row liquidated: the locked share `balance_vara * ltv / 100` is
/// seized, the loan is cleared, the position returns to the no-loan state,
/// and the valuation is re-derived from what collateral is left.
pub open spec fn liquidate_user_spec(u: UserInfo, one_tvara: u128, vara_price: u128, global_ltv: u128) -> UserInfo {
    let locked = sat_mul(u.balance_vara, u.ltv) / 100;
    let bv = sat_sub(u.balance_vara, locked);
    let cv = cv_of(bv, one_tvara, vara_price);
    UserInfo {
        balance_vara: bv,
        is_loan_active: false,
        loan_amount: 0,
        ltv: 0,
        cv: cv,
        mla: mla_of(cv, global_ltv),
        available_to_withdraw_vara: bv,
        ..u
    }
}

/// Whether the liquidation trigger holds for a row: its loan-to-value has
/// reached the global ceiling.
pub open spec fn should_liquidate(u: UserInfo, ceiling: u128) -> bool {
    u.ltv >= ceiling
}

/// Every row revalued at the given price and ceiling.
pub open spec fn revalue_users_spec(
    users: Seq<(u128, UserInfo)>,
    one_tvara: u128,
    vara_price: u128,
    global_ltv: u128,
) -> Seq<(u128, UserInfo)> {
    users.map(|i: int, p: (u128, UserInfo)| (p.0, revalue_user_spec(p.1, one_tvara, vara_price, global_ltv)))
}

/// The liquidation sweep over the directory: every row with an active loan
/// at or above the ceiling is liquidated, the others are untouched.
pub open spec fn liq_users_spec(
    users: Seq<(u128, UserInfo)>,
    one_tvara: u128,
    vara_price: u128,
    global_ltv: u128,
    ceiling: u128,
) -> Seq<(u128, UserInfo)> {
    users.map(
        |i: int, p: (u128, UserInfo)|
            if p.1.is_loan_active && should_liquidate(p.1, ceiling) {
                (p.0, liquidate_user_spec(p.1, one_tvara, vara_price, global_ltv))
            } else {
                p
            },
    )
}

/// The total borrowed after the liquidation sweep: each liquidated row
/// takes its pre-seizure loan amount out of the total, saturating.
pub open spec fn liq_total_borrowed_spec(users: Seq<(u128, UserInfo)>, total_borrowed: u128, ceiling: u128) -> u128
    decreases users.len(),
{
    if users.len() == 0 {
        total_borrowed
    } else {
        let tb = liq_total_borrowed_spec(users.drop_last(), total_borrowed, ceiling);
        let p = users.last();
        if p.1.is_loan_active && should_liquidate(p.1, ceiling) {
            sat_sub(tb, p.1.loan_amount)
        } else {
            tb
        }
    }
}

/// Loan-side accrual of one row at the borrower rate `rate`: the interest
/// on the outstanding loan since the loan checkpoint joins the loan, the
/// checkpoint advances, and loan-to-value and withdrawable collateral are
/// re-derived. Rows without an active loan are untouched.
pub open spec fn accrue_loan_spec(u: UserInfo, rate: u128, scale: u128, year_in_seconds: u128, now: u128) -> UserInfo {
    if !u.is_loan_active {
        u
    } else {
        let e = elapsed_seconds(u.borrow_last_updated, now);
        let loan2 = sat_add(u.loan_amount, reward_delta(u.loan_amount, rate, e, year_in_seconds, scale));
        let ltv2 = ltv_of(loan2, u.cv);
        UserInfo {
            loan_amount: loan2,
            borrow_last_updated: now,
            ltv: ltv2,
            available_to_withdraw_vara: available_of(u.balance_vara, ltv2, true),
            ..u
        }
    }
}

/// Validation of a loan of `amount` asset units: the row exists, the
/// amount is positive and within the loan cap, the scaled amount and the
/// grown loan and total fit, and the grown loan stays within the row's
/// maximum loan amount. On success the host owes the user a transfer of
/// `amount` out of the pool.
pub open spec fn take_loan_check_spec(m: PoolView, user: u128, amount: u128) -> Result<u128, Error> {
    let scale = m.config.decimals_factor;
    if !contains_user(m.users, user) {
        Err(Error::UserNotFound)
    } else if amount == 0 {
        Err(Error::ZeroAmount)
    } else if amount > m.config.max_loan_amount {
        Err(Error::InvalidAmount)
    } else if amount * scale > u128::MAX {
        Err(Error::ArithmeticOverflow)
    } else if user_of(m.users, user).loan_amount + amount * scale > u128::MAX {
        Err(Error::ArithmeticOverflow)
    } else if user_of(m.users, user).loan_amount + amount * scale > user_of(m.users, user).mla {
        Err(Error::InvalidAmount)
    } else if m.total_borrowed + amount * scale > u128::MAX {
        Err(Error::ArithmeticOverflow)
    } else {
        Ok(amount)
    }
}

/// The state after a committed loan: the row's loan grows by the scaled
/// amount and turns active, its loan-to-value and withdrawable collateral
/// are re-derived, the borrowed total grows, and the rates are re-derived.
pub open spec fn take_loan_apply_spec(m: PoolView, user: u128, amount: u128) -> PoolView {
    let scaled = sat_mul(amount, m.config.decimals_factor);
    let i = idx_of(m.users, user);
    let u = m.users[i].1;
    let loan2 = sat_add(u.loan_amount, scaled);
    let ltv2 = ltv_of(loan2, u.cv);
    let u2 = UserInfo {
        is_loan_active: true,
        loan_amount: loan2,
        ltv: ltv2,
        available_to_withdraw_vara: available_of(u.balance_vara, ltv2, true),
        ..u
    };
    reprice_spec(
        PoolView {
            users: m.users.update(i, (user, u2)),
            total_borrowed: sat_add(m.total_borrowed, scaled),
            ..m
        },
    )
}

/// Validation of a repayment of `amount` asset units: the row exists, the
/// amount is positive, within the loan cap, scales without overflow, and
/// the scaled amount is covered both by the row's loan and by the borrowed
/// total. On success the host owes the pool a transfer of `amount` from
/// the user.
pub open spec fn pay_loan_check_spec(m: PoolView, user: u128, amount: u128) -> Result<u128, Error> {
    let scale = m.config.decimals_factor;
    if !contains_user(m.users, user) {
        Err(Error::UserNotFound)
    } else if amount == 0 {
        Err(Error::ZeroAmount)
    } else if amount > m.config.max_loan_amount {
        Err(Error::InvalidAmount)
    } else if amount * scale > u128::MAX {
        Err(Error::ArithmeticOverflow)
    } else if amount * scale > user_of(m.users, user).loan_amount {
        Err(Error::InvalidAmount)
    } else if amount * scale > m.total_borrowed {
        Err(Error::InvalidAmount)
    } else {
        Ok(amount)
    }
}

/// The state after a committed repayment: the row's loan and the borrowed
/// total shrink by the scaled amount, a loan repaid in full returns to the
/// no-loan state, the row's loan-to-value and withdrawable collateral are
/// re-derived, and so are the rates.
pub open spec fn pay_loan_apply_spec(m: PoolView, user: u128, amount: u128) -> PoolView {
    let scaled = sat_mul(amount, m.config.decimals_factor);
    let i = idx_of(m.users, user);
    let u = m.users[i].1;
    let loan2 = sat_sub(u.loan_amount, scaled);
    let active2 = loan2 > 0;
    let ltv2 = ltv_of(loan2, u.cv);
    let u2 = UserInfo {
        is_loan_active: active2,
        loan_amount: loan2,
        ltv: ltv2,
        available_to_withdraw_vara: available_of(u.balance_vara, ltv2, active2),
        ..u
    };
    reprice_spec(
        PoolView {
            users: m.users.update(i, (user, u2)),
            total_borrowed: sat_sub(m.total_borrowed, scaled),
            ..m
        },
    )
}

/// Validation of a full repayment: the row exists and the loan, floored to
/// asset units, is positive. On success the host owes the pool that many
/// asset units from the user.
pub open spec fn pay_all_loan_check_spec(m: PoolView, user: u128) -> Result<u128, Error> {
    if !contains_user(m.users, user) {
        Err(Error::UserNotFound)
    } else if user_of(m.users, user).loan_amount / m.config.decimals_factor == 0 {
        Err(Error::InvalidAmount)
    } else {
        Ok(user_of(m.users, user).loan_amount / m.config.decimals_factor)
    }
}

/// The state after a committed full repayment: the row's whole pre-payment
/// loan leaves the borrowed total, the row returns to the no-loan state
/// with all collateral withdrawable, and the rates are re-derived.
pub open spec fn pay_all_loan_apply_spec(m: PoolView, user: u128) -> PoolView {
    let i = idx_of(m.users, user);
    let u = m.users[i].1;
    let u2 = UserInfo {
        is_loan_active: false,
        loan_amount: 0,
        ltv: 0,
        available_to_withdraw_vara: u.balance_vara,
        ..u
    };
    reprice_spec(
        PoolView {
            users: m.users.update(i, (user, u2)),
            total_borrowed: sat_sub(m.total_borrowed, u.loan_amount),
            ..m
        },
    )
}

/// The state after one user's liquidation check: when the row's
/// loan-to-value has reached the ceiling, the row is liquidated, its
/// pre-seizure loan leaves the borrowed total and the rates are
/// re-derived; otherwise nothing changes.
pub open spec fn liquidate_user_apply_spec(m: PoolView, user: u128) -> PoolView {
    let i = idx_of(m.users, user);
    let u = m.users[i].1;
    if should_liquidate(u, m.ltv) {
        reprice_spec(
            PoolView {
                users: m.users.update(
                    i,
                    (user, liquidate_user_spec(u, m.config.one_tvara, m.config.vara_price, m.ltv)),
                ),
                total_borrowed: sat_sub(m.total_borrowed, u.loan_amount),
                ..m
            },
        )
    } else {
        m
    }
}

/// The state after the liquidation sweep over every account.
pub open spec fn liquidate_all_spec(m: PoolView, now: u128) -> PoolView {
    let m1 = sweep_spec(m, now);
    reprice_spec(
        PoolView {
            users: liq_users_spec(m1.users, m1.config.one_tvara, m1.config.vara_price, m1.ltv, m1.ltv),
            total_borrowed: liq_total_borrowed_spec(m1.users, m1.total_borrowed, m1.ltv),
            ..m1
        },
    )
}

/// The state after an admin pushes a new oracle price: rewards accrue at
/// the pre-change rate, every row is revalued at the new price, every row
/// whose revalued loan-to-value reaches the ceiling is liquidated, and the
/// rates are re-derived.
pub open spec fn set_price_spec(m: PoolView, price: u128, now: u128) -> PoolView {
    let m1 = sweep_spec(m, now);
    let m2 = PoolView { config: Config { vara_price: price, ..m1.config }, ..m1 };
    let users2 = revalue_users_spec(m2.users, m2.config.one_tvara, price, m2.ltv);
    reprice_spec(
        PoolView {
            users: liq_users_spec(users2, m2.config.one_tvara, price, m2.ltv, m2.ltv),
            total_borrowed: liq_total_borrowed_spec(users2, m2.total_borrowed, m2.ltv),
            ..m2
        },
    )
}

/// The state after the loan-side interest sweep: the usual re-pricing
/// sweep, then every active loan accrues interest at the borrower rate
/// against its own checkpoint.
pub open spec fn loan_interest_spec(m: PoolView, now: u128) -> PoolView {
    let m1 = sweep_spec(m, now);
    PoolView {
        users: m1.users.map(
            |i: int, p: (u128, UserInfo)|
                (
                    p.0,
                    accrue_loan_spec(p.1, m1.apr, m1.config.decimals_factor, m1.config.year_in_seconds, now),
                ),
        ),
        ..m1
    }
}

/// Validation of a collateral deposit of `value` native units.
pub open spec fn deposit_collateral_check_spec(m: PoolView, user: u128, value: u128) -> Result<u128, Error> {
    if value == 0 {
        Err(Error::ZeroAmount)
    } else if crate::pool::vara_balance_of(m.users, user) + value > u128::MAX {
        Err(Error::ArithmeticOverflow)
    } else {
        Ok(value)
    }
}

/// The state after a committed collateral deposit: the row (created at
/// `now` if absent) holds the extra native value, is revalued, and the
/// rates are re-derived.
pub open spec fn deposit_collateral_apply_spec(m: PoolView, user: u128, value: u128, now: u128) -> PoolView {
    let users1 = if contains_user(m.users, user) {
        m.users
    } else {
        m.users.push((user, new_user_spec(now)))
    };
    let i = idx_of(users1, user);
    let u = users1[i].1;
    let u2 = revalue_user_spec(
        UserInfo { balance_vara: sat_add(u.balance_vara, value), ..u },
        m.config.one_tvara,
        m.config.vara_price,
        m.ltv,
    );
    reprice_spec(PoolView { users: users1.update(i, (user, u2)), ..m })
}

/// Validation of a collateral withdrawal of `amount` whole native units:
/// the row exists, the native value is positive, within the cap, and
/// covered by the withdrawable collateral. On success the host owes the
/// user the native value `amount * one_tvara`.
pub open spec fn withdraw_collateral_check_spec(m: PoolView, user: u128, amount: u128) -> Result<u128, Error> {
    if !contains_user(m.users, user) {
        Err(Error::UserNotFound)
    } else if amount * m.config.one_tvara > u128::MAX {
        Err(Error::ArithmeticOverflow)
    } else if amount == 0 {
        Err(Error::ZeroAmount)
    } else if amount * m.config.one_tvara > m.config.max_collateral_withdraw {
        Err(Error::InvalidAmount)
    } else if amount * m.config.one_tvara > user_of(m.users, user).available_to_withdraw_vara {
        Err(Error::InvalidAmount)
    } else {
        Ok((amount * m.config.one_tvara) as u128)
    }
}

/// The state after a committed collateral withdrawal: the row loses the
/// native value, is revalued, is liquidated on the spot if the new
/// loan-to-value reaches the ceiling, and the rates are re-derived.
pub open spec fn withdraw_collateral_apply_spec(m: PoolView, user: u128, amount: u128) -> PoolView {
    let amount_vara = sat_mul(amount, m.config.one_tvara);
    let i = idx_of(m.users, user);
    let u = m.users[i].1;
    let u2 = revalue_user_spec(
        UserInfo { balance_vara: sat_sub(u.balance_vara, amount_vara), ..u },
        m.config.one_tvara,
        m.config.vara_price,
        m.ltv,
    );
    let liquidate = u2.is_loan_active && should_liquidate(u2, m.ltv);
    let u3 = if liquidate {
        liquidate_user_spec(u2, m.config.one_tvara, m.config.vara_price, m.ltv)
    } else {
        u2
    };
    let tb = if liquidate {
        sat_sub(m.total_borrowed, u2.loan_amount)
    } else {
        m.total_borrowed
    };
    reprice_spec(PoolView { users: m.users.update(i, (user, u3)), total_borrowed: tb, ..m })
}

impl LiquidityPool {
    /// The collateral value of `user`'s current native balance at the
    /// current oracle price.
    pub fn calculate_cv(&self, user: u128) -> (r: Result<u128, Error>)
        requires
            self.wf(),
        ensures
            match r {
                Ok(v) => contains_user(self@.users, user)
                    && v == cv_of(
                        user_of(self@.users, user).balance_vara,
                        self@.config.one_tvara,
                        self@.config.vara_price,
                    ),
                Err(e) => !contains_user(self@.users, user) && e == Error::UserNotFound,
            },
    {
        match self.locate(user) {
            Some(i) => {
                let tvaras = self.users[i].1.balance_vara / self.config.one_tvara;
                Ok(crate::saturating_mul(tvaras, self.config.vara_price))
            },
            None => Err(Error::UserNotFound),
        }
    }

    /// The maximum loan amount of `user`'s stored collateral value under
    /// the global ceiling.
    pub fn calculate_mla(&self, user: u128) -> (r: Result<u128, Error>)
        requires
            self.wf(),
        ensures
            match r {
                Ok(v) => contains_user(self@.users, user)
                    && v == mla_of(user_of(self@.users, user).cv, self@.ltv),
                Err(e) => !contains_user(self@.users, user) && e == Error::UserNotFound,
            },
    {
        match self.locate(user) {
            Some(i) => Ok(crate::saturating_mul(self.users[i].1.cv, self.ltv) / 100),
            None => Err(Error::UserNotFound),
        }
    }

    /// Re-derives and stores `user`'s loan-to-value from the stored loan
    /// and collateral value. A well-formed pool already satisfies the
    /// equation, so there it returns the stored value unchanged.
    pub fn update_user_ltv(&mut self, user: u128) -> (r: Result<u128, Error>)
        requires
            crate::pool::unique_ids(old(self)@.users),
        ensures
            old(self).wf() ==> final(self)@ == old(self)@,
            match r {
                Ok(v) => contains_user(old(self)@.users, user)
                    && ({
                        let i = idx_of(old(self)@.users, user);
                        let u = old(self)@.users[i].1;
                        &&& v == ltv_of(u.loan_amount, u.cv)
                        &&& final(self)@ == (PoolView {
                            users: old(self)@.users.update(i, (user, UserInfo { ltv: v, ..u })),
                            ..old(self)@
                        })
                    }),
                Err(e) => !contains_user(old(self)@.users, user) && e == Error::UserNotFound
                    && final(self)@ == old(self)@,
            },
    {
        let i = match self.locate(user) {
            Some(i) => i,
            None => {
                return Err(Error::UserNotFound);
            },
        };
        let (id, u) = self.users[i];
        let v = if u.cv == 0 {
            0
        } else {
            crate::saturating_mul(u.loan_amount, 100) / u.cv
        };
        let u2 = UserInfo { ltv: v, ..u };
        self.users[i] = (id, u2);
        proof {
            lemma_sum_update(old(self)@.users, i as int, (user, u2));
            if old(self).wf() {
                assert(u2 == u);
                assert(self@.users =~= old(self)@.users);
                assert(self@ =~= old(self)@);
            }
        }
        Ok(v)
    }

    /// Commits a collateral deposit of `value` native units sent along with
    /// the host message: credits the collateral, revalues the row, and
    /// re-derives the rates.
    pub fn deposit_collateral(&mut self, user: u128, value: u128, now: u128) -> (r: Result<LiquidityEvent, Error>)
        requires
            old(self).wf(),
        ensures
            final(self).wf(),
            ({
                let m1 = sweep_spec(old(self)@, now);
                match r {
                    Ok(ev) => deposit_collateral_check_spec(m1, user, value) == Ok::<u128, Error>(value)
                        && ev == LiquidityEvent::DepositedVara(value)
                        && final(self)@ == deposit_collateral_apply_spec(m1, user, value, now),
                    Err(e) => deposit_collateral_check_spec(m1, user, value) == Err::<u128, Error>(e)
                        && final(self)@ == m1,
                }
            }),
    {
        self.update_all_rewards(now);
        let ghost m1 = self@;
        if value == 0 {
            return Err(Error::ZeroAmount);
        }
        let balance_vara = match self.locate(user) {
            Some(i) => self.users[i].1.balance_vara,
            None => 0,
        };
        let new_balance_vara = match balance_vara.checked_add(value) {
            Some(b) => b,
            None => {
                return Err(Error::ArithmeticOverflow);
            },
        };
        let i = self.ensure_user(user, now);
        let ghost m2 = self@;
        let (id, u) = self.users[i];
        proof {
            if !contains_user(m1.users, user) {
                lemma_sum_push(m1.users, (user, new_user_spec(now)));
            }
            assert(u.balance_vara == balance_vara);
        }
        let mut u2 = UserInfo { balance_vara: new_balance_vara, ..u };
        u2 = self.revalued(u2);
        self.users[i] = (id, u2);
        proof {
            lemma_sum_update(m2.users, i as int, (user, u2));
        }
        let _ = self.calculate_apr();
        proof {
            assert(self@ =~= deposit_collateral_apply_spec(m1, user, value, now));
        }
        Ok(LiquidityEvent::DepositedVara(value))
    }

    /// Revalues one row against the current oracle price and ceiling.
    fn revalued(&self, u: UserInfo) -> (r: UserInfo)
        ensures
            r == revalue_user_spec(u, self@.config.one_tvara, self@.config.vara_price, self@.ltv),
    {
        if self.config.one_tvara == 0 {
            let mut u2 = UserInfo { cv: 0, mla: 0, ltv: 0, ..u };
            crate::account::update_user_available_to_withdraw_vara(&mut u2);
            u2
        } else {
            let cv = crate::saturating_mul(u.balance_vara / self.config.one_tvara, self.config.vara_price);
            let mla = crate::saturating_mul(cv, self.ltv) / 100;
            let ltv = if cv == 0 {
                0
            } else {
                crate::saturating_mul(u.loan_amount, 100) / cv
            };
            let mut u2 = UserInfo { cv: cv, mla: mla, ltv: ltv, ..u };
            crate::account::update_user_available_to_withdraw_vara(&mut u2);
            u2
        }
    }

    /// Validates a collateral withdrawal against the state the opening
    /// sweep will produce, and names the native value the host owes the
    /// user after committing.
    pub fn withdraw_collateral_check(&self, user: u128, amount: u128, now: u128) -> (r: Result<u128, Error>)
        requires
            self.wf(),
        ensures
            r == withdraw_collateral_check_spec(sweep_spec(self@, now), user, amount),
    {
        proof {
            lemma_sweep_directory(self@, now);
        }
        let i = match self.locate(user) {
            Some(i) => i,
            None => {
                return Err(Error::UserNotFound);
            },
        };
        let amount_vara = match amount.checked_mul(self.config.one_tvara) {
            Some(v) => v,
            None => {
                return Err(Error::ArithmeticOverflow);
            },
        };
        if amount == 0 {
            return Err(Error::ZeroAmount);
        }
        if amount_vara > self.config.max_collateral_withdraw {
            return Err(Error::InvalidAmount);
        }
        if amount_vara > self.users[i].1.available_to_withdraw_vara {
            return Err(Error::InvalidAmount);
        }
        Ok(amount_vara)
    }

    /// Commits a collateral withdrawal of `amount` whole native units by
    /// `user`, after the host confirmed the native value was sent: debits
    /// the collateral, revalues the row, liquidates it on the spot if the
    /// new loan-to-value reaches the ceiling, and re-derives the rates.
    pub fn withdraw_collateral(&mut self, user: u128, amount: u128, now: u128) -> (r: Result<LiquidityEvent, Error>)
        requires
            old(self).wf(),
        ensures
            final(self).wf(),
            ({
                let m1 = sweep_spec(old(self)@, now);
                match r {
                    Ok(ev) => withdraw_collateral_check_spec(m1, user, amount)
                        == Ok::<u128, Error>(sat_mul(amount, m1.config.one_tvara))
                        && ev == LiquidityEvent::WithdrawnVara(amount)
                        && final(self)@ == withdraw_collateral_apply_spec(m1, user, amount),
                    Err(e) => withdraw_collateral_check_spec(m1, user, amount) == Err::<u128, Error>(e)
                        && final(self)@ == m1,
                }
            }),
    {
        self.update_all_rewards(now);
        let ghost m1 = self@;
        let i = match self.locate(user) {
            Some(i) => i,
            None => {
                return Err(Error::UserNotFound);
            },
        };
        let amount_vara = match amount.checked_mul(self.config.one_tvara) {
            Some(v) => v,
            None => {
                return Err(Error::ArithmeticOverflow);
            },
        };
        if amount == 0 {
            return Err(Error::ZeroAmount);
        }
        if amount_vara > self.config.max_collateral_withdraw {
            return Err(Error::InvalidAmount);
        }
        let (id, u) = self.users[i];
        if amount_vara > u.available_to_withdraw_vara {
            return Err(Error::InvalidAmount);
        }
        let mut u2 = UserInfo { balance_vara: u.balance_vara - amount_vara, ..u };
        u2 = self.revalued(u2);
        let liquidate = u2.is_loan_active && u2.ltv >= self.ltv;
        let u3 = if liquidate {
            self.liquidated(u2)
        } else {
            u2
        };
        if liquidate {
            self.total_borrowed = self.total_borrowed.saturating_sub(u2.loan_amount);
        }
        self.users[i] = (id, u3);
        proof {
            lemma_sum_update(m1.users, i as int, (user, u3));
        }
        let _ = self.calculate_apr();
        proof {
            assert(self@ =~= withdraw_collateral_apply_spec(m1, user, amount));
        }
        Ok(LiquidityEvent::WithdrawnVara(amount))
    }

    /// Validates a loan request against the state the opening sweep will
    /// produce, and names the asset amount the host owes the user after
    /// committing.
    pub fn take_loan_check(&self, user: u128, amount: u128, now: u128) -> (r: Result<u128, Error>)
        requires
            self.wf(),
        ensures
            r == take_loan_check_spec(sweep_spec(self@, now), user, amount),
    {
        proof {
            lemma_sweep_directory(self@, now);
        }
        let i = match self.locate(user) {
            Some(i) => i,
            None => {
                return Err(Error::UserNotFound);
            },
        };
        if amount == 0 {
            return Err(Error::ZeroAmount);
        }
        if amount > self.config.max_loan_amount {
            return Err(Error::InvalidAmount);
        }
        let scaled = match amount.checked_mul(self.config.decimals_factor) {
            Some(s) => s,
            None => {
                return Err(Error::ArithmeticOverflow);
            },
        };
        let u = self.users[i].1;
        let future = match u.loan_amount.checked_add(scaled) {
            Some(f) => f,
            None => {
                return Err(Error::ArithmeticOverflow);
            },
        };
        if future > u.mla {
            return Err(Error::InvalidAmount);
        }
        if self.total_borrowed.checked_add(scaled).is_none() {
            return Err(Error::ArithmeticOverflow);
        }
        Ok(amount)
    }

    /// Commits a loan of `amount` asset units to `user`, after the host
    /// confirmed the transfer out of the pool: sweeps, re-validates, grows
    /// the loan and the borrowed total, re-derives the row's loan-to-value
    /// and withdrawable collateral, and re-derives the rates.
    pub fn take_loan(&mut self, user: u128, amount: u128, now: u128) -> (r: Result<LiquidityEvent, Error>)
        requires
            old(self).wf(),
        ensures
            final(self).wf(),
            ({
                let m1 = sweep_spec(old(self)@, now);
                match r {
                    Ok(ev) => take_loan_check_spec(m1, user, amount) == Ok::<u128, Error>(amount)
                        && ev == LiquidityEvent::LoanTaken(amount)
                        && final(self)@ == take_loan_apply_spec(m1, user, amount),
                    Err(e) => take_loan_check_spec(m1, user, amount) == Err::<u128, Error>(e)
                        && final(self)@ == m1,
                }
            }),
    {
        self.update_all_rewards(now);
        let ghost m1 = self@;
        let i = match self.locate(user) {
            Some(i) => i,
            None => {
                return Err(Error::UserNotFound);
            },
        };
        if amount == 0 {
            return Err(Error::ZeroAmount);
        }
        if amount > self.config.max_loan_amount {
            return Err(Error::InvalidAmount);
        }
        let scaled = match amount.checked_mul(self.config.decimals_factor) {
            Some(s) => s,
            None => {
                return Err(Error::ArithmeticOverflow);
            },
        };
        let (id, u) = self.users[i];
        let future = match u.loan_amount.checked_add(scaled) {
            Some(f) => f,
            None => {
                return Err(Error::ArithmeticOverflow);
            },
        };
        if future > u.mla {
            return Err(Error::InvalidAmount);
        }
        let new_total = match self.total_borrowed.checked_add(scaled) {
            Some(t) => t,
            None => {
                return Err(Error::ArithmeticOverflow);
            },
        };
        proof {
            assert(scaled >= 1) by (nonlinear_arith)
                requires
                    scaled == amount * m1.config.decimals_factor,
                    amount >= 1,
                    m1.config.decimals_factor >= 1,
            ;
        }
        let ltv2 = if u.cv == 0 {
            0
        } else {
            crate::saturating_mul(future, 100) / u.cv
        };
        let mut u2 = UserInfo { is_loan_active: true, loan_amount: future, ltv: ltv2, ..u };
        crate::account::update_user_available_to_withdraw_vara(&mut u2);
        self.users[i] = (id, u2);
        self.total_borrowed = new_total;
        proof {
            lemma_sum_update(m1.users, i as int, (user, u2));
        }
        let _ = self.calculate_apr();
        proof {
            assert(self@ =~= take_loan_apply_spec(m1, user, amount));
        }
        Ok(LiquidityEvent::LoanTaken(amount))
    }

    /// Validates a repayment against the state the opening sweep will
    /// produce, and names the asset amount the host owes the pool before
    /// committing.
    pub fn pay_loan_check(&self, user: u128, amount: u128, now: u128) -> (r: Result<u128, Error>)
        requires
            self.wf(),
        ensures
            r == pay_loan_check_spec(sweep_spec(self@, now), user, amount),
    {
        proof {
            lemma_sweep_directory(self@, now);
        }
        let i = match self.locate(user) {
            Some(i) => i,
            None => {
                return Err(Error::UserNotFound);
            },
        };
        if amount == 0 {
            return Err(Error::ZeroAmount);
        }
        if amount > self.config.max_loan_amount {
            return Err(Error::InvalidAmount);
        }
        let scaled = match amount.checked_mul(self.config.decimals_factor) {
            Some(s) => s,
            None => {
                return Err(Error::ArithmeticOverflow);
            },
        };
        if scaled > self.users[i].1.loan_amount {
            return Err(Error::InvalidAmount);
        }
        if scaled > self.total_borrowed {
            return Err(Error::InvalidAmount);
        }
        Ok(amount)
    }

    /// Commits a repayment of `amount` asset units by `user`, after the
    /// host confirmed the transfer into the pool: sweeps, re-validates,
    /// shrinks the loan and the borrowed total, returns a fully repaid loan
    /// to the no-loan state, and re-derives the row and the rates.
    pub fn pay_loan(&mut self, user: u128, amount: u128, now: u128) -> (r: Result<LiquidityEvent, Error>)
        requires
            old(self).wf(),
        ensures
            final(self).wf(),
            ({
                let m1 = sweep_spec(old(self)@, now);
                match r {
                    Ok(ev) => pay_loan_check_spec(m1, user, amount) == Ok::<u128, Error>(amount)
                        && ev == LiquidityEvent::LoanPayed(amount)
                        && final(self)@ == pay_loan_apply_spec(m1, user, amount),
                    Err(e) => pay_loan_check_spec(m1, user, amount) == Err::<u128, Error>(e)
                        && final(self)@ == m1,
                }
            }),
    {
        self.update_all_rewards(now);
        let ghost m1 = self@;
        let i = match self.locate(user) {
            Some(i) => i,
            None => {
                return Err(Error::UserNotFound);
            },
        };
        if amount == 0 {
            return Err(Error::ZeroAmount);
        }
        if amount > self.config.max_loan_amount {
            return Err(Error::InvalidAmount);
        }
        let scaled = match amount.checked_mul(self.config.decimals_factor) {
            Some(s) => s,
            None => {
                return Err(Error::ArithmeticOverflow);
            },
        };
        let (id, u) = self.users[i];
        if scaled > u.loan_amount {
            return Err(Error::InvalidAmount);
        }
        if scaled > self.total_borrowed {
            return Err(Error::InvalidAmount);
        }
        let loan2 = u.loan_amount - scaled;
        let active2 = loan2 > 0;
        let ltv2 = if u.cv == 0 {
            0
        } else {
            crate::saturating_mul(loan2, 100) / u.cv
        };
        let mut u2 = UserInfo { is_loan_active: active2, loan_amount: loan2, ltv: ltv2, ..u };
        crate::account::update_user_available_to_withdraw_vara(&mut u2);
        self.users[i] = (id, u2);
        self.total_borrowed = self.total_borrowed - scaled;
        proof {
            lemma_sum_update(m1.users, i as int, (user, u2));
        }
        let _ = self.calculate_apr();
        proof {
            assert(self@ =~= pay_loan_apply_spec(m1, user, amount));
        }
        Ok(LiquidityEvent::LoanPayed(amount))
    }

    /// Validates a full repayment against the state the opening sweep will
    /// produce, and names the asset amount the host owes the pool before
    /// committing.
    pub fn pay_all_loan_check(&self, user: u128, now: u128) -> (r: Result<u128, Error>)
        requires
            self.wf(),
        ensures
            r == pay_all_loan_check_spec(sweep_spec(self@, now), user),
    {
        proof {
            lemma_sweep_directory(self@, now);
        }
        let i = match self.locate(user) {
            Some(i) => i,
            None => {
                return Err(Error::UserNotFound);
            },
        };
        let units = self.users[i].1.loan_amount / self.config.decimals_factor;
        if units == 0 {
            return Err(Error::InvalidAmount);
        }
        Ok(units)
    }

    /// Commits a full repayment by `user`, after the host confirmed the
    /// transfer of the floored loan into the pool: sweeps, re-validates,
    /// takes the whole pre-payment loan out of the borrowed total, returns
    /// the row to the no-loan state, and re-derives the rates.
    pub fn pay_all_loan(&mut self, user: u128, now: u128) -> (r: Result<LiquidityEvent, Error>)
        requires
            old(self).wf(),
        ensures
            final(self).wf(),
            ({
                let m1 = sweep_spec(old(self)@, now);
                match r {
                    Ok(ev) => {
                        let units = user_of(m1.users, user).loan_amount / m1.config.decimals_factor;
                        &&& pay_all_loan_check_spec(m1, user) == Ok::<u128, Error>(units)
                        &&& ev == LiquidityEvent::LoanPayed(units)
                        &&& final(self)@ == pay_all_loan_apply_spec(m1, user)
                    },
                    Err(e) => pay_all_loan_check_spec(m1, user) == Err::<u128, Error>(e)
                        && final(self)@ == m1,
                }
            }),
    {
        self.update_all_rewards(now);
        let ghost m1 = self@;
        let i = match self.locate(user) {
            Some(i) => i,
            None => {
                return Err(Error::UserNotFound);
            },
        };
        let (id, u) = self.users[i];
        let units = u.loan_amount / self.config.decimals_factor;
        if units == 0 {
            return Err(Error::InvalidAmount);
        }
        let u2 = UserInfo {
            is_loan_active: false,
            loan_amount: 0,
            ltv: 0,
            available_to_withdraw_vara: u.balance_vara,
            ..u
        };
        self.users[i] = (id, u2);
        self.total_borrowed = self.total_borrowed.saturating_sub(u.loan_amount);
        proof {
            lemma_sum_update(m1.users, i as int, (user, u2));
        }
        let _ = self.calculate_apr();
        proof {
            assert(self@ =~= pay_all_loan_apply_spec(m1, user));
        }
        Ok(LiquidityEvent::LoanPayed(units))
    }

    /// Liquidates one row: seizes the locked collateral share and clears
    /// the loan.
    fn liquidated(&self, u: UserInfo) -> (r: UserInfo)
        ensures
            r == liquidate_user_spec(u, self@.config.one_tvara, self@.config.vara_price, self@.ltv),
    {
        let locked = crate::saturating_mul(u.balance_vara, u.ltv) / 100;
        let bv = u.balance_vara.saturating_sub(locked);
        let cv = if self.config.one_tvara == 0 {
            0
        } else {
            crate::saturating_mul(bv / self.config.one_tvara, self.config.vara_price)
        };
        UserInfo {
            balance_vara: bv,
            is_loan_active: false,
            loan_amount: 0,
            ltv: 0,
            cv: cv,
            mla: crate::saturating_mul(cv, self.ltv) / 100,
            available_to_withdraw_vara: bv,
            ..u
        }
    }

    /// Revalues every row against the current oracle price and ceiling.
    fn revalue_all(&mut self)
        ensures
            final(self)@ == (PoolView {
                users: revalue_users_spec(
                    old(self)@.users,
                    old(self)@.config.one_tvara,
                    old(self)@.config.vara_price,
                    old(self)@.ltv,
                ),
                ..old(self)@
            }),
            old(self).wf() ==> final(self).wf(),
    {
        let ghost m0 = self@;
        let n = self.users.len();
        let mut i: usize = 0;
        while i < n
            invariant
                i <= n,
                n == self.users@.len(),
                self@ == (PoolView { users: self@.users, ..m0 }),
                forall|j: int| 0 <= j < i ==> self.users@[j] == (
                    (#[trigger] m0.users[j]).0,
                    revalue_user_spec(m0.users[j].1, m0.config.one_tvara, m0.config.vara_price, m0.ltv),
                ),
                forall|j: int| i <= j < n ==> self.users@[j] == #[trigger] m0.users[j],
            decreases n - i,
        {
            let (id, u) = self.users[i];
            let u2 = self.revalued(u);
            self.users[i] = (id, u2);
            i += 1;
        }
        proof {
            assert(self@.users =~= revalue_users_spec(m0.users, m0.config.one_tvara, m0.config.vara_price, m0.ltv));
            assert(self@ =~= (PoolView { users: self@.users, ..m0 }));
            lemma_sum_pointwise(self@.users, m0.users);
        }
    }

    /// Liquidates every row with an active loan at or above the ceiling,
    /// taking each pre-seizure loan out of the borrowed total.
    fn liquidate_eligible(&mut self)
        ensures
            final(self)@ == (PoolView {
                users: liq_users_spec(
                    old(self)@.users,
                    old(self)@.config.one_tvara,
                    old(self)@.config.vara_price,
                    old(self)@.ltv,
                    old(self)@.ltv,
                ),
                total_borrowed: liq_total_borrowed_spec(
                    old(self)@.users,
                    old(self)@.total_borrowed,
                    old(self)@.ltv,
                ),
                ..old(self)@
            }),
            old(self).wf() ==> final(self).wf(),
    {
        let ghost m0 = self@;
        let n = self.users.len();
        let mut i: usize = 0;
        while i < n
            invariant
                i <= n,
                n == self.users@.len(),
                n == m0.users.len(),
                self@ == (PoolView {
                    users: self@.users,
                    total_borrowed: self@.total_borrowed,
                    ..m0
                }),
                self@.total_borrowed == liq_total_borrowed_spec(m0.users.take(i as int), m0.total_borrowed, m0.ltv),
                forall|j: int| 0 <= j < i ==> self.users@[j] == (
                    if (#[trigger] m0.users[j]).1.is_loan_active && should_liquidate(m0.users[j].1, m0.ltv) {
                        (m0.users[j].0, liquidate_user_spec(
                            m0.users[j].1,
                            m0.config.one_tvara,
                            m0.config.vara_price,
                            m0.ltv,
                        ))
                    } else {
                        m0.users[j]
                    }
                ),
                forall|j: int| i <= j < n ==> self.users@[j] == #[trigger] m0.users[j],
            decreases n - i,
        {
            proof {
                assert(m0.users.take(i + 1).drop_last() =~= m0.users.take(i as int));
                assert(m0.users.take(i + 1).last() == m0.users[i as int]);
            }
            let (id, u) = self.users[i];
            if u.is_loan_active && u.ltv >= self.ltv {
                let u2 = self.liquidated(u);
                self.users[i] = (id, u2);
                self.total_borrowed = self.total_borrowed.saturating_sub(u.loan_amount);
            }
            i += 1;
        }
        proof {
            assert(m0.users.take(n as int) =~= m0.users);
            assert(self@.users =~= liq_users_spec(
                m0.users,
                m0.config.one_tvara,
                m0.config.vara_price,
                m0.ltv,
                m0.ltv,
            ));
            assert(self@ =~= (PoolView {
                users: self@.users,
                total_borrowed: self@.total_borrowed,
                ..m0
            }));
            lemma_sum_pointwise(self@.users, m0.users);
        }
    }

    /// Runs the liquidation check on one row: if its loan-to-value has
    /// reached the global ceiling, the locked collateral share is seized,
    /// the loan is cleared from the row and the borrowed total, and the
    /// rates are re-derived. A row below the ceiling is left alone.
    pub fn liquidate_user_loan(&mut self, user: u128, now: u128) -> (r: Result<(), Error>)
        requires
            old(self).wf(),
        ensures
            final(self).wf(),
            ({
                let m1 = sweep_spec(old(self)@, now);
                match r {
                    Ok(()) => contains_user(m1.users, user) && final(self)@ == liquidate_user_apply_spec(m1, user),
                    Err(e) => !contains_user(m1.users, user) && e == Error::UserNotFound && final(self)@ == m1,
                }
            }),
    {
        self.update_all_rewards(now);
        let ghost m1 = self@;
        let i = match self.locate(user) {
            Some(i) => i,
            None => {
                return Err(Error::UserNotFound);
            },
        };
        let (id, u) = self.users[i];
        if u.ltv >= self.ltv {
            let u2 = self.liquidated(u);
            self.users[i] = (id, u2);
            self.total_borrowed = self.total_borrowed.saturating_sub(u.loan_amount);
            proof {
                lemma_sum_update(m1.users, i as int, (user, u2));
            }
            let _ = self.calculate_apr();
            proof {
                assert(self@ =~= liquidate_user_apply_spec(m1, user));
            }
        }
        Ok(())
    }

    /// The liquidation sweep: liquidates every account with an active loan
    /// at or above the ceiling, then re-derives the rates.
    pub fn liquidate_all_loans(&mut self, now: u128) -> (r: Result<(), Error>)
        requires
            old(self).wf(),
        ensures
            final(self).wf(),
            r == Ok::<(), Error>(()),
            final(self)@ == liquidate_all_spec(old(self)@, now),
    {
        self.update_all_rewards(now);
        self.liquidate_eligible();
        let _ = self.calculate_apr();
        Ok(())
    }

    /// Pushes a new oracle price. Administrators only. Rewards accrue at
    /// the pre-change rate, every account is revalued at the new price,
    /// accounts whose revalued loan-to-value reaches the ceiling are
    /// liquidated, and the rates are re-derived.
    pub fn set_vara_price(&mut self, caller: u128, vara_price: u128, now: u128) -> (r: Result<(), Error>)
        requires
            old(self).wf(),
        ensures
            final(self).wf(),
            match r {
                Ok(()) => old(self)@.admins.contains(caller)
                    && final(self)@ == set_price_spec(old(self)@, vara_price, now),
                Err(e) => !old(self)@.admins.contains(caller) && e == Error::InsufficientAdminPrivileges
                    && final(self)@ == old(self)@,
            },
    {
        if !self.is_admin(caller) {
            return Err(Error::InsufficientAdminPrivileges);
        }
        self.update_all_rewards(now);
        self.config.vara_price = vara_price;
        self.revalue_all();
        self.liquidate_eligible();
        let _ = self.calculate_apr();
        proof {
            assert(self@ =~= set_price_spec(old(self)@, vara_price, now));
        }
        Ok(())
    }

    /// The loan-side interest sweep: after the usual re-pricing sweep,
    /// every active loan accrues interest at the borrower rate against its
    /// own checkpoint, and loan-to-value and withdrawable collateral are
    /// re-derived per row. The borrowed total is not grown by accrued
    /// interest; it changes only through loans, repayments and
    /// liquidations.
    pub fn calculate_all_loan_interest_rate_amounts(&mut self, now: u128) -> (r: Result<(), Error>)
        requires
            old(self).wf(),
        ensures
            final(self).wf(),
            r == Ok::<(), Error>(()),
            final(self)@ == loan_interest_spec(old(self)@, now),
    {
        self.update_all_rewards(now);
        let ghost m1 = self@;
        let rate = self.apr;
        let scale = self.config.decimals_factor;
        let year = self.config.year_in_seconds;
        let n = self.users.len();
        let mut i: usize = 0;
        while i < n
            invariant
                i <= n,
                n == self.users@.len(),
                self@ == (PoolView { users: self@.users, ..m1 }),
                rate == m1.apr,
                scale == m1.config.decimals_factor,
                year == m1.config.year_in_seconds,
                forall|j: int| 0 <= j < i ==> self.users@[j] == (
                    (#[trigger] m1.users[j]).0,
                    accrue_loan_spec(m1.users[j].1, rate, scale, year, now),
                ),
                forall|j: int| i <= j < n ==> self.users@[j] == #[trigger] m1.users[j],
            decreases n - i,
        {
            let (id, u) = self.users[i];
            if u.is_loan_active {
                let elapsed = if now >= u.borrow_last_updated {
                    (now - u.borrow_last_updated) / 1000
                } else {
                    0
                };
                let denom = crate::saturating_mul(year, scale);
                let delta = if denom == 0 {
                    0
                } else {
                    crate::saturating_mul(crate::saturating_mul(u.loan_amount, rate), elapsed) / denom
                };
                let loan2 = u.loan_amount.saturating_add(delta);
                let ltv2 = if u.cv == 0 {
                    0
                } else {
                    crate::saturating_mul(loan2, 100) / u.cv
                };
                let mut u2 = UserInfo {
                    loan_amount: loan2,
                    borrow_last_updated: now,
                    ltv: ltv2,
                    ..u
                };
                crate::account::update_user_available_to_withdraw_vara(&mut u2);
                self.users[i] = (id, u2);
            }
            i += 1;
        }
        proof {
            assert(self@.users =~= loan_interest_spec(old(self)@, now).users);
            assert(self@ =~= loan_interest_spec(old(self)@, now));
            lemma_sum_pointwise(self@.users, m1.users);
        }
        Ok(())
    }
}

/// Loans taken from rows with an active loan at or above the ceiling.
pub open spec fn sum_liq_loans(users: Seq<(u128, UserInfo)>, ceiling: u128) -> int
    decreases users.len(),
{
    if users.len() == 0 {
        0
    } else {
        sum_liq_loans(users.drop_last(), ceiling) + if users.last().1.is_loan_active
            && should_liquidate(users.last().1, ceiling) {
            users.last().1.loan_amount as int
        } else {
            0
        }
    }
}

/// The liquidated loans are covered by all the loans.
pub proof fn lemma_sum_liq_loans_le(users: Seq<(u128, UserInfo)>, ceiling: u128)
    ensures
        0 <= sum_liq_loans(users, ceiling),
        sum_liq_loans(users, ceiling) <= crate::pool::sum_loans(users),
    decreases users.len(),
{
    if users.len() > 0 {
        lemma_sum_liq_loans_le(users.drop_last(), ceiling);
    }
}

/// With enough borrowed total to cover the liquidated loans, the
/// liquidation sweep subtracts exactly their sum.
pub proof fn lemma_liq_total_exact(users: Seq<(u128, UserInfo)>, total_borrowed: u128, ceiling: u128)
    requires
        total_borrowed >= sum_liq_loans(users, ceiling),
    ensures
        liq_total_borrowed_spec(users, total_borrowed, ceiling) as int
            == total_borrowed - sum_liq_loans(users, ceiling),
    decreases users.len(),
{
    if users.len() > 0 {
        lemma_sum_liq_loans_le(users.drop_last(), ceiling);
        lemma_liq_total_exact(users.drop_last(), total_borrowed, ceiling);
    }
}

/// The liquidation sweep clears exactly the liquidated loans from the
/// directory.
pub proof fn lemma_sum_loans_after_liq(
    users: Seq<(u128, UserInfo)>,
    one_tvara: u128,
    vara_price: u128,
    global_ltv: u128,
    ceiling: u128,
)
    ensures
        crate::pool::sum_loans(liq_users_spec(users, one_tvara, vara_price, global_ltv, ceiling))
            == crate::pool::sum_loans(users) - sum_liq_loans(users, ceiling),
    decreases users.len(),
{
    if users.len() > 0 {
        let s2 = liq_users_spec(users, one_tvara, vara_price, global_ltv, ceiling);
        assert(s2.drop_last() =~= liq_users_spec(users.drop_last(), one_tvara, vara_price, global_ltv, ceiling));
        lemma_sum_loans_after_liq(users.drop_last(), one_tvara, vara_price, global_ltv, ceiling);
    }
}

/// Revaluation keeps every loan, so it keeps the loan sum.
pub proof fn lemma_sum_loans_after_revalue(
    users: Seq<(u128, UserInfo)>,
    one_tvara: u128,
    vara_price: u128,
    global_ltv: u128,
)
    ensures
        crate::pool::sum_loans(revalue_users_spec(users, one_tvara, vara_price, global_ltv))
            == crate::pool::sum_loans(users),
{
    crate::pool::lemma_sum_loans_pointwise(
        revalue_users_spec(users, one_tvara, vara_price, global_ltv),
        users,
    );
}

/// A committed loan preserves the borrow accounting: the loan and the
/// borrowed total grow by the same scaled amount.
pub proof fn lemma_take_loan_preserves_borrows(m: PoolView, user: u128, amount: u128)
    requires
        crate::pool::borrows_covered(m),
        take_loan_check_spec(m, user, amount) matches Ok(_),
    ensures
        crate::pool::borrows_covered(take_loan_apply_spec(m, user, amount)),
{
    let i = idx_of(m.users, user);
    let mf = take_loan_apply_spec(m, user, amount);
    lemma_sum_update_for(m, user, mf.users[i].1);
}

/// A committed repayment preserves the borrow accounting.
pub proof fn lemma_pay_loan_preserves_borrows(m: PoolView, user: u128, amount: u128)
    requires
        crate::pool::borrows_covered(m),
        pay_loan_check_spec(m, user, amount) matches Ok(_),
    ensures
        crate::pool::borrows_covered(pay_loan_apply_spec(m, user, amount)),
{
    let i = idx_of(m.users, user);
    let mf = pay_loan_apply_spec(m, user, amount);
    lemma_sum_update_for(m, user, mf.users[i].1);
}

/// A committed full repayment preserves the borrow accounting: the whole
/// loan leaves both the row and the total, and the total covers it.
pub proof fn lemma_pay_all_loan_preserves_borrows(m: PoolView, user: u128)
    requires
        crate::pool::borrows_covered(m),
        contains_user(m.users, user),
    ensures
        crate::pool::borrows_covered(pay_all_loan_apply_spec(m, user)),
{
    let i = idx_of(m.users, user);
    crate::pool::lemma_sum_loans_element(m.users, i);
    let mf = pay_all_loan_apply_spec(m, user);
    lemma_sum_update_for(m, user, mf.users[i].1);
}

/// A single liquidation preserves the borrow accounting.
pub proof fn lemma_liquidate_user_preserves_borrows(m: PoolView, user: u128)
    requires
        crate::pool::borrows_covered(m),
        contains_user(m.users, user),
    ensures
        crate::pool::borrows_covered(liquidate_user_apply_spec(m, user)),
{
    let i = idx_of(m.users, user);
    if should_liquidate(m.users[i].1, m.ltv) {
        crate::pool::lemma_sum_loans_element(m.users, i);
        let mf = liquidate_user_apply_spec(m, user);
        lemma_sum_update_for(m, user, mf.users[i].1);
    }
}

/// A committed collateral deposit revalues a row but keeps its loan, so it
/// preserves the borrow accounting.
pub proof fn lemma_deposit_collateral_preserves_borrows(m: PoolView, user: u128, value: u128, now: u128)
    requires
        crate::pool::borrows_covered(m),
    ensures
        crate::pool::borrows_covered(deposit_collateral_apply_spec(m, user, value, now)),
{
    let users1 = if contains_user(m.users, user) {
        m.users
    } else {
        m.users.push((user, new_user_spec(now)))
    };
    if !contains_user(m.users, user) {
        crate::pool::lemma_sum_loans_push(m.users, (user, new_user_spec(now)));
        assert(users1[users1.len() - 1].0 == user);
    }
    assert(contains_user(users1, user));
    let j = idx_of(users1, user);
    crate::pool::lemma_sum_loans_update(
        users1,
        j,
        deposit_collateral_apply_spec(m, user, value, now).users[j],
    );
}

/// A committed collateral withdrawal preserves the borrow accounting,
/// whether or not it ends in a liquidation.
pub proof fn lemma_withdraw_collateral_preserves_borrows(m: PoolView, user: u128, amount: u128)
    requires
        crate::pool::borrows_covered(m),
        contains_user(m.users, user),
    ensures
        crate::pool::borrows_covered(withdraw_collateral_apply_spec(m, user, amount)),
{
    let i = idx_of(m.users, user);
    crate::pool::lemma_sum_loans_element(m.users, i);
    let mf = withdraw_collateral_apply_spec(m, user, amount);
    lemma_sum_update_for(m, user, mf.users[i].1);
}

/// A price update preserves the borrow accounting: the sweep and the
/// revaluation keep every loan, and the liquidation sweep clears from the
/// total exactly the loans it clears from the rows.
pub proof fn lemma_set_price_preserves_borrows(m: PoolView, price: u128, now: u128)
    requires
        crate::pool::borrows_covered(m),
    ensures
        crate::pool::borrows_covered(set_price_spec(m, price, now)),
{
    crate::pool::lemma_sweep_preserves_borrows(m, now);
    let m1 = sweep_spec(m, now);
    let m2 = PoolView { config: Config { vara_price: price, ..m1.config }, ..m1 };
    let users2 = revalue_users_spec(m2.users, m2.config.one_tvara, price, m2.ltv);
    lemma_sum_loans_after_revalue(m2.users, m2.config.one_tvara, price, m2.ltv);
    lemma_sum_liq_loans_le(users2, m2.ltv);
    lemma_liq_total_exact(users2, m2.total_borrowed, m2.ltv);
    lemma_sum_loans_after_liq(users2, m2.config.one_tvara, price, m2.ltv, m2.ltv);
}

/// The whole liquidation sweep preserves the borrow accounting.
pub proof fn lemma_liquidate_all_preserves_borrows(m: PoolView, now: u128)
    requires
        crate::pool::borrows_covered(m),
    ensures
        crate::pool::borrows_covered(liquidate_all_spec(m, now)),
{
    crate::pool::lemma_sweep_preserves_borrows(m, now);
    let m1 = sweep_spec(m, now);
    lemma_sum_liq_loans_le(m1.users, m1.ltv);
    lemma_liq_total_exact(m1.users, m1.total_borrowed, m1.ltv);
    lemma_sum_loans_after_liq(m1.users, m1.config.one_tvara, m1.config.vara_price, m1.ltv, m1.ltv);
}

/// Shorthand for the one-row update step of the loan-sum lemmas.
proof fn lemma_sum_update_for(m: PoolView, user: u128, row: UserInfo)
    requires
        contains_user(m.users, user),
    ensures
        crate::pool::sum_loans(m.users.update(idx_of(m.users, user), (user, row)))
            == crate::pool::sum_loans(m.users) - m.users[idx_of(m.users, user)].1.loan_amount
                + row.loan_amount,
{
    crate::pool::lemma_sum_loans_update(m.users, idx_of(m.users, user), (user, row));
}

/// Liquidation trigger: after a price update, any account whose revalued
/// loan-to-value reaches the global ceiling ends the sweep with no loan:
/// `loan_amount` is zero and the loan flag is down.
pub proof fn lemma_liquidation_trigger(m: PoolView, price: u128, now: u128, i: int)
    requires
        m.wf(),
        0 <= i < m.users.len(),
        ({
            let m1 = sweep_spec(m, now);
            let u2 = revalue_user_spec(m1.users[i].1, m.config.one_tvara, price, m.ltv);
            u2.is_loan_active && u2.ltv >= m.ltv
        }),
    ensures
        ({
            let mf = set_price_spec(m, price, now);
            &&& mf.users[i].1.loan_amount == 0
            &&& !mf.users[i].1.is_loan_active
        }),
{
}

/// Liquidation trigger at collateral withdrawal: when the row, revalued
/// after the debit, still has an active loan at or above the ceiling, the
/// committed withdrawal leaves it with no loan.
pub proof fn lemma_withdraw_collateral_liquidates(m: PoolView, user: u128, amount: u128)
    requires
        m.wf(),
        contains_user(m.users, user),
        ({
            let amount_vara = sat_mul(amount, m.config.one_tvara);
            let u = m.users[idx_of(m.users, user)].1;
            let u2 = revalue_user_spec(
                UserInfo { balance_vara: sat_sub(u.balance_vara, amount_vara), ..u },
                m.config.one_tvara,
                m.config.vara_price,
                m.ltv,
            );
            u2.is_loan_active && u2.ltv >= m.ltv
        }),
    ensures
        ({
            let mf = withdraw_collateral_apply_spec(m, user, amount);
            let i = idx_of(m.users, user);
            &&& mf.users[i].1.loan_amount == 0
            &&& !mf.users[i].1.is_loan_active
        }),
{
}

} // verus!
