//! Supply side: deposit and withdraw liquidity, withdraw rewards.
//!
//! Each operation that owes an external token transfer comes in two
//! phases. The `*_check` function validates against the state as the
//! opening re-pricing sweep will leave it and names the amount owed, in
//! asset units; the host then performs the transfer and, only on a
//! confirmed success, calls the operation itself, which runs the sweep,
//! re-validates and commits the mutation. A failed transfer therefore
//! leaves the ledger untouched.

use vstd::prelude::*;

use crate::account::{new_user_spec, UserInfo};
use crate::errors::Error;
use crate::events::{LiquidityAction, LiquidityEvent};
use crate::pool::{
    balance_of, contains_user, idx_of, lemma_sum_element, lemma_sum_push, lemma_sum_update,
    lemma_sweep_directory, reprice_spec, sweep_spec, user_of, LiquidityPool, PoolView,
};
use crate::{sat_add, sat_mul, sat_sub};

verus! {

/// Validation of a liquidity deposit of `amount` asset units by `user`:
/// the amount is positive, within the deposit cap, and neither the scaled
/// amount, the user balance, nor the pool total overflows. On success the
/// host owes a transfer of `amount` from the user to the pool.
pub open spec fn deposit_check_spec(m: PoolView, user: u128, amount: u128) -> Result<u128, Error> {
    let scale = m.config.decimals_factor;
    if amount == 0 {
        Err(Error::ZeroAmount)
    } else if amount > m.config.max_liquidity_deposit {
        Err(Error::InvalidAmount)
    } else if amount * scale > u128::MAX {
        Err(Error::ArithmeticOverflow)
    } else if balance_of(m.users, user) + amount * scale > u128::MAX {
        Err(Error::ArithmeticOverflow)
    } else if m.total_deposited + amount * scale > u128::MAX {
        Err(Error::ArithmeticOverflow)
    } else {
        Ok(amount)
    }
}

/// The state after a committed deposit: the user's row (created at `now`
/// if absent) and the supplied total both grow by the scaled amount, and
/// the rates are re-derived.
pub open spec fn deposit_apply_spec(m: PoolView, user: u128, amount: u128, now: u128) -> PoolView {
    let scaled = sat_mul(amount, m.config.decimals_factor);
    let users1 = if contains_user(m.users, user) {
        m.users
    } else {
        m.users.push((user, new_user_spec(now)))
    };
    let i = idx_of(users1, user);
    let u = users1[i].1;
    let u2 = UserInfo { balance: sat_add(u.balance, scaled), ..u };
    reprice_spec(
        PoolView {
            users: users1.update(i, (user, u2)),
            total_deposited: sat_add(m.total_deposited, scaled),
            ..m
        },
    )
}

/// Validation of a liquidity withdrawal of `amount` asset units: the row
/// exists, the amount is positive, within the withdrawal cap, scales
/// without overflow, and the scaled amount is covered by the user balance.
/// On success the host owes a transfer of `amount` from the pool to the
/// user.
pub open spec fn withdraw_check_spec(m: PoolView, user: u128, amount: u128) -> Result<u128, Error> {
    let scale = m.config.decimals_factor;
    if !contains_user(m.users, user) {
        Err(Error::UserNotFound)
    } else if amount == 0 {
        Err(Error::ZeroAmount)
    } else if amount > m.config.max_liquidity_withdraw {
        Err(Error::InvalidAmount)
    } else if amount * scale > u128::MAX {
        Err(Error::ArithmeticOverflow)
    } else if amount * scale > user_of(m.users, user).balance {
        Err(Error::InvalidAmount)
    } else {
        Ok(amount)
    }
}

/// The state after a committed withdrawal: the user's balance and the
/// supplied total both shrink by the scaled amount, and the rates are
/// re-derived.
pub open spec fn withdraw_apply_spec(m: PoolView, user: u128, amount: u128) -> PoolView {
    let scaled = sat_mul(amount, m.config.decimals_factor);
    let i = idx_of(m.users, user);
    let u = m.users[i].1;
    let u2 = UserInfo { balance: sat_sub(u.balance, scaled), ..u };
    reprice_spec(
        PoolView {
            users: m.users.update(i, (user, u2)),
            total_deposited: sat_sub(m.total_deposited, scaled),
            ..m
        },
    )
}

/// Validation of a rewards withdrawal on the swept state: the row exists,
/// the withdrawable amount `rewards - rewards_withdrawn` is well defined,
/// at least the configured minimum, covered by the rewards pool, and the
/// lifetime-distributed counter does not overflow. On success the host
/// owes a transfer of the withdrawable amount, floored to asset units.
pub open spec fn rewards_check_spec(m: PoolView, user: u128) -> Result<u128, Error> {
    if !contains_user(m.users, user) {
        Err(Error::UserNotFound)
    } else {
        let u = user_of(m.users, user);
        if u.rewards < u.rewards_withdrawn {
            Err(Error::InvalidAmount)
        } else {
            let w = (u.rewards - u.rewards_withdrawn) as u128;
            if w < m.config.min_rewards_withdraw {
                Err(Error::InsufficientUserRewards)
            } else if w > m.available_rewards_pool {
                Err(Error::InsufficientRewardsPool)
            } else if m.total_rewards_distributed + w > u128::MAX {
                Err(Error::ArithmeticOverflow)
            } else {
                Ok(w / m.config.decimals_factor)
            }
        }
    }
}

/// The state after a committed rewards withdrawal: the withdrawable amount
/// moves from `rewards` into `rewards_withdrawn` and is added to the
/// lifetime-distributed total. The rewards pool itself bounds each
/// withdrawal but is not drawn down by the ledger.
pub open spec fn rewards_apply_spec(m: PoolView, user: u128) -> PoolView {
    let i = idx_of(m.users, user);
    let u = m.users[i].1;
    let w = sat_sub(u.rewards, u.rewards_withdrawn);
    let u2 = UserInfo {
        rewards: sat_sub(u.rewards, w),
        rewards_withdrawn: sat_add(u.rewards_withdrawn, w),
        ..u
    };
    PoolView {
        users: m.users.update(i, (user, u2)),
        total_rewards_distributed: sat_add(m.total_rewards_distributed, w),
        ..m
    }
}

/// What a deposit commit guarantees: the result matches the validation of
/// the swept state exactly, and the state moved to the swept state
/// (on failure) or the applied deposit (on success).
pub open spec fn deposit_post(
    m0: PoolView,
    mf: PoolView,
    r: Result<LiquidityEvent, Error>,
    user: u128,
    amount: u128,
    now: u128,
) -> bool {
    let m1 = sweep_spec(m0, now);
    match r {
        Ok(ev) => deposit_check_spec(m1, user, amount) == Ok::<u128, Error>(amount)
            && ev == LiquidityEvent::Deposited(amount)
            && mf == deposit_apply_spec(m1, user, amount, now),
        Err(e) => deposit_check_spec(m1, user, amount) == Err::<u128, Error>(e)
            && mf == m1,
    }
}

/// What a withdrawal commit guarantees, in the same shape.
pub open spec fn withdraw_post(
    m0: PoolView,
    mf: PoolView,
    r: Result<LiquidityEvent, Error>,
    user: u128,
    amount: u128,
    now: u128,
) -> bool {
    let m1 = sweep_spec(m0, now);
    match r {
        Ok(ev) => withdraw_check_spec(m1, user, amount) == Ok::<u128, Error>(amount)
            && ev == LiquidityEvent::LiquidityWithdrawn(amount)
            && mf == withdraw_apply_spec(m1, user, amount),
        Err(e) => withdraw_check_spec(m1, user, amount) == Err::<u128, Error>(e)
            && mf == m1,
    }
}

/// What a rewards-withdrawal commit guarantees, in the same shape; the
/// event carries the paid amount in asset units.
pub open spec fn rewards_post(
    m0: PoolView,
    mf: PoolView,
    r: Result<LiquidityEvent, Error>,
    user: u128,
    now: u128,
) -> bool {
    let m1 = sweep_spec(m0, now);
    match r {
        Ok(ev) => {
            let u = user_of(m1.users, user);
            let w = sat_sub(u.rewards, u.rewards_withdrawn);
            &&& rewards_check_spec(m1, user) == Ok::<u128, Error>(w / m1.config.decimals_factor)
            &&& ev == LiquidityEvent::RewardsWithdrawn(w / m1.config.decimals_factor)
            &&& mf == rewards_apply_spec(m1, user)
        },
        Err(e) => rewards_check_spec(m1, user) == Err::<u128, Error>(e)
            && mf == m1,
    }
}

impl LiquidityPool {
    /// Validates a deposit against the state the opening sweep will
    /// produce, and names the asset amount the host owes the pool before
    /// committing.
    pub fn deposit_liquidity_check(&self, user: u128, amount: u128, now: u128) -> (r: Result<u128, Error>)
        requires
            self.wf(),
        ensures
            r == deposit_check_spec(sweep_spec(self@, now), user, amount),
    {
        proof {
            lemma_sweep_directory(self@, now);
        }
        let scale = self.config.decimals_factor;
        if amount == 0 {
            return Err(Error::ZeroAmount);
        }
        if amount > self.config.max_liquidity_deposit {
            return Err(Error::InvalidAmount);
        }
        let scaled = match amount.checked_mul(scale) {
            Some(s) => s,
            None => {
                return Err(Error::ArithmeticOverflow);
            },
        };
        let balance = match self.find_user(user) {
            Some(i) => {
                proof {
                    let k = idx_of(self@.users, user);
                    assert(self@.users[k].0 == user);
                    assert(k == i as int);
                }
                self.users[i].1.balance
            },
            None => 0,
        };
        if balance.checked_add(scaled).is_none() {
            return Err(Error::ArithmeticOverflow);
        }
        if self.total_deposited.checked_add(scaled).is_none() {
            return Err(Error::ArithmeticOverflow);
        }
        Ok(amount)
    }

    /// Commits a deposit of `amount` asset units by `user`, after the host
    /// confirmed the matching transfer into the pool: sweeps, re-validates,
    /// credits the scaled amount to the row and the supplied total, and
    /// re-derives the rates.
    pub fn deposit_liquidity(&mut self, user: u128, amount: u128, now: u128) -> (r: Result<LiquidityEvent, Error>)
        requires
            old(self).wf(),
        ensures
            final(self).wf(),
            deposit_post(old(self)@, final(self)@, r, user, amount, now),
    {
        self.update_all_rewards(now);
        let ghost m1 = self@;
        let scale = self.config.decimals_factor;
        if amount == 0 {
            return Err(Error::ZeroAmount);
        }
        if amount > self.config.max_liquidity_deposit {
            return Err(Error::InvalidAmount);
        }
        let scaled = match amount.checked_mul(scale) {
            Some(s) => s,
            None => {
                return Err(Error::ArithmeticOverflow);
            },
        };
        let balance = match self.find_user(user) {
            Some(i) => {
                proof {
                    let k = idx_of(self@.users, user);
                    assert(self@.users[k].0 == user);
                    assert(k == i as int);
                }
                self.users[i].1.balance
            },
            None => 0,
        };
        let new_balance = match balance.checked_add(scaled) {
            Some(b) => b,
            None => {
                return Err(Error::ArithmeticOverflow);
            },
        };
        let new_total = match self.total_deposited.checked_add(scaled) {
            Some(t) => t,
            None => {
                return Err(Error::ArithmeticOverflow);
            },
        };
        let i = self.ensure_user(user, now);
        let ghost m2 = self@;
        let (id, u) = self.users[i];
        proof {
            if !contains_user(m1.users, user) {
                lemma_sum_push(m1.users, (user, new_user_spec(now)));
            }
            assert(u.balance == balance);
        }
        let u2 = UserInfo { balance: new_balance, ..u };
        self.users[i] = (id, u2);
        self.total_deposited = new_total;
        proof {
            lemma_sum_update(m2.users, i as int, (user, u2));
        }
        let _ = self.calculate_apr();
        proof {
            assert(self@ =~= deposit_apply_spec(m1, user, amount, now));
        }
        Ok(LiquidityEvent::Deposited(amount))
    }

    /// Validates a withdrawal against the state the opening sweep will
    /// produce, and names the asset amount the host owes the user after
    /// committing.
    pub fn withdraw_liquidity_check(&self, user: u128, amount: u128, now: u128) -> (r: Result<u128, Error>)
        requires
            self.wf(),
        ensures
            r == withdraw_check_spec(sweep_spec(self@, now), user, amount),
    {
        proof {
            lemma_sweep_directory(self@, now);
        }
        let scale = self.config.decimals_factor;
        let i = match self.find_user(user) {
            Some(i) => i,
            None => {
                return Err(Error::UserNotFound);
            },
        };
        proof {
            let k = idx_of(self@.users, user);
            assert(self@.users[k].0 == user);
            assert(k == i as int);
        }
        if amount == 0 {
            return Err(Error::ZeroAmount);
        }
        if amount > self.config.max_liquidity_withdraw {
            return Err(Error::InvalidAmount);
        }
        let scaled = match amount.checked_mul(scale) {
            Some(s) => s,
            None => {
                return Err(Error::ArithmeticOverflow);
            },
        };
        if scaled > self.users[i].1.balance {
            return Err(Error::InvalidAmount);
        }
        Ok(amount)
    }

    /// Commits a withdrawal of `amount` asset units by `user`, after the
    /// host confirmed the matching transfer to the user: sweeps,
    /// re-validates, debits the scaled amount from the row and the supplied
    /// total, and re-derives the rates.
    pub fn withdraw_liquidity(&mut self, user: u128, amount: u128, now: u128) -> (r: Result<LiquidityEvent, Error>)
        requires
            old(self).wf(),
        ensures
            final(self).wf(),
            withdraw_post(old(self)@, final(self)@, r, user, amount, now),
    {
        self.update_all_rewards(now);
        let ghost m1 = self@;
        let scale = self.config.decimals_factor;
        let i = match self.find_user(user) {
            Some(i) => i,
            None => {
                return Err(Error::UserNotFound);
            },
        };
        proof {
            let k = idx_of(self@.users, user);
            assert(self@.users[k].0 == user);
            assert(k == i as int);
        }
        if amount == 0 {
            return Err(Error::ZeroAmount);
        }
        if amount > self.config.max_liquidity_withdraw {
            return Err(Error::InvalidAmount);
        }
        let scaled = match amount.checked_mul(scale) {
            Some(s) => s,
            None => {
                return Err(Error::ArithmeticOverflow);
            },
        };
        let (id, u) = self.users[i];
        if scaled > u.balance {
            return Err(Error::InvalidAmount);
        }
        proof {
            lemma_sum_element(m1.users, i as int);
        }
        let u2 = UserInfo { balance: u.balance - scaled, ..u };
        self.users[i] = (id, u2);
        self.total_deposited = self.total_deposited - scaled;
        proof {
            lemma_sum_update(m1.users, i as int, (user, u2));
        }
        let _ = self.calculate_apr();
        proof {
            assert(self@ =~= withdraw_apply_spec(m1, user, amount));
        }
        Ok(LiquidityEvent::LiquidityWithdrawn(amount))
    }

    /// Validates a rewards withdrawal against the state the opening sweep
    /// will produce, and names the asset amount the host owes the user
    /// after committing.
    pub fn withdraw_rewards_check(&self, user: u128, now: u128) -> (r: Result<u128, Error>)
        requires
            self.wf(),
        ensures
            r == rewards_check_spec(sweep_spec(self@, now), user),
    {
        proof {
            lemma_sweep_directory(self@, now);
        }
        let util = crate::rate::utilization_factor(
            self.total_borrowed,
            self.total_deposited,
            self.config.decimals_factor,
        );
        let rate = crate::rate::interest_rate(
            self.config.base_rate,
            self.config.risk_multiplier,
            util,
            self.config.decimals_factor,
        );
        let i = match self.find_user(user) {
            Some(i) => i,
            None => {
                return Err(Error::UserNotFound);
            },
        };
        proof {
            let k = idx_of(self@.users, user);
            assert(self@.users[k].0 == user);
            assert(k == i as int);
        }
        let (_, mut u) = self.users[i];
        crate::account::update_user_rewards(
            &mut u,
            rate,
            self.config.decimals_factor,
            self.config.year_in_seconds,
            now,
        );
        if u.rewards < u.rewards_withdrawn {
            return Err(Error::InvalidAmount);
        }
        let w = u.rewards - u.rewards_withdrawn;
        if w < self.config.min_rewards_withdraw {
            return Err(Error::InsufficientUserRewards);
        }
        if w > self.available_rewards_pool {
            return Err(Error::InsufficientRewardsPool);
        }
        if self.total_rewards_distributed.checked_add(w).is_none() {
            return Err(Error::ArithmeticOverflow);
        }
        Ok(w / self.config.decimals_factor)
    }

    /// Commits a rewards withdrawal by `user`, after the host confirmed the
    /// transfer of the withdrawable amount to the user: sweeps,
    /// re-validates, books the withdrawable amount as withdrawn and adds it
    /// to the lifetime-distributed total.
    pub fn withdraw_rewards(&mut self, user: u128, now: u128) -> (r: Result<LiquidityEvent, Error>)
        requires
            old(self).wf(),
        ensures
            final(self).wf(),
            rewards_post(old(self)@, final(self)@, r, user, now),
    {
        self.update_all_rewards(now);
        let ghost m1 = self@;
        let i = match self.find_user(user) {
            Some(i) => i,
            None => {
                return Err(Error::UserNotFound);
            },
        };
        proof {
            let k = idx_of(self@.users, user);
            assert(self@.users[k].0 == user);
            assert(k == i as int);
        }
        let (id, u) = self.users[i];
        if u.rewards < u.rewards_withdrawn {
            return Err(Error::InvalidAmount);
        }
        let w = u.rewards - u.rewards_withdrawn;
        if w < self.config.min_rewards_withdraw {
            return Err(Error::InsufficientUserRewards);
        }
        if w > self.available_rewards_pool {
            return Err(Error::InsufficientRewardsPool);
        }
        let new_distributed = match self.total_rewards_distributed.checked_add(w) {
            Some(t) => t,
            None => {
                return Err(Error::ArithmeticOverflow);
            },
        };
        let u2 = UserInfo {
            rewards: u.rewards - w,
            rewards_withdrawn: u.rewards_withdrawn + w,
            ..u
        };
        self.users[i] = (id, u2);
        self.total_rewards_distributed = new_distributed;
        proof {
            lemma_sum_update(m1.users, i as int, (user, u2));
            assert(self@ =~= rewards_apply_spec(m1, user));
        }
        Ok(LiquidityEvent::RewardsWithdrawn(w / self.config.decimals_factor))
    }

    /// Dispatches one host message to the commit stage of the matching
    /// operation, acting for `user` at time `now`.
    pub fn handle_action(&mut self, action: LiquidityAction, user: u128, now: u128) -> (r: Result<
        LiquidityEvent,
        Error,
    >)
        requires
            old(self).wf(),
        ensures
            final(self).wf(),
            match action {
                LiquidityAction::Deposit(amount) => deposit_post(old(self)@, final(self)@, r, user, amount, now),
                LiquidityAction::WithdrawLiquidity(amount) => withdraw_post(
                    old(self)@,
                    final(self)@,
                    r,
                    user,
                    amount,
                    now,
                ),
                LiquidityAction::WithdrawRewards => rewards_post(old(self)@, final(self)@, r, user, now),
                LiquidityAction::ModifyTotalBorrowed(amount) => match r {
                    Ok(ev) => amount * old(self)@.config.decimals_factor <= u128::MAX
                        && ev == LiquidityEvent::TotalBorrowedModified(amount)
                        && final(self)@ == reprice_spec(
                            PoolView {
                                total_borrowed: (amount * old(self)@.config.decimals_factor) as u128,
                                ..sweep_spec(old(self)@, now)
                            },
                        ),
                    Err(e) => amount * old(self)@.config.decimals_factor > u128::MAX
                        && e == Error::ArithmeticOverflow
                        && final(self)@ == sweep_spec(old(self)@, now),
                },
                LiquidityAction::ModifyAvailableRewardsPool(amount) => match r {
                    Ok(ev) => old(self)@.admins.contains(user)
                        && amount * old(self)@.config.decimals_factor <= u128::MAX
                        && ev == LiquidityEvent::AvailableRewardsPoolModified(amount)
                        && final(self)@ == (PoolView {
                            available_rewards_pool: (amount * old(self)@.config.decimals_factor) as u128,
                            ..sweep_spec(old(self)@, now)
                        }),
                    Err(e) => if !old(self)@.admins.contains(user) {
                        e == Error::InsufficientAdminPrivileges && final(self)@ == old(self)@
                    } else {
                        amount * old(self)@.config.decimals_factor > u128::MAX
                            && e == Error::ArithmeticOverflow
                            && final(self)@ == sweep_spec(old(self)@, now)
                    },
                },
            },
    {
        match action {
            LiquidityAction::Deposit(amount) => self.deposit_liquidity(user, amount, now),
            LiquidityAction::WithdrawLiquidity(amount) => self.withdraw_liquidity(user, amount, now),
            LiquidityAction::WithdrawRewards => self.withdraw_rewards(user, now),
            LiquidityAction::ModifyTotalBorrowed(amount) => self.modify_total_borrowed(amount, now),
            LiquidityAction::ModifyAvailableRewardsPool(amount) => self.modify_available_rewards_pool(
                user,
                amount,
                now,
            ),
        }
    }
}

/// The supply-side transitions touch no loans: a committed deposit,
/// withdrawal or rewards withdrawal preserves the borrow accounting.
pub proof fn lemma_supply_ops_preserve_borrows(m: PoolView, user: u128, amount: u128, now: u128)
    requires
        crate::pool::borrows_covered(m),
    ensures
        contains_user(m.users, user) ==> crate::pool::borrows_covered(withdraw_apply_spec(m, user, amount)),
        contains_user(m.users, user) ==> crate::pool::borrows_covered(rewards_apply_spec(m, user)),
        crate::pool::borrows_covered(deposit_apply_spec(m, user, amount, now)),
{
    if contains_user(m.users, user) {
        let i = idx_of(m.users, user);
        crate::pool::lemma_sum_loans_update(m.users, i, withdraw_apply_spec(m, user, amount).users[i]);
        crate::pool::lemma_sum_loans_update(m.users, i, rewards_apply_spec(m, user).users[i]);
    }
    let users1 = if contains_user(m.users, user) {
        m.users
    } else {
        m.users.push((user, new_user_spec(now)))
    };
    if !contains_user(m.users, user) {
        crate::pool::lemma_sum_loans_push(m.users, (user, new_user_spec(now)));
        assert(users1[users1.len() - 1].0 == user);
    }
    assert(contains_user(users1, user));
    let j = idx_of(users1, user);
    crate::pool::lemma_sum_loans_update(users1, j, deposit_apply_spec(m, user, amount, now).users[j]);
}

/// Round trip: a deposit of `amount` that passes validation, followed at
/// the same clock reading by a withdrawal of the same amount within the
/// withdrawal cap, is accepted and restores both the user's balance and
/// the supplied total to their pre-deposit values.
pub proof fn lemma_deposit_withdraw_roundtrip(m0: PoolView, user: u128, amount: u128, now: u128)
    requires
        m0.wf(),
        deposit_check_spec(sweep_spec(m0, now), user, amount) == Ok::<u128, Error>(amount),
        amount <= m0.config.max_liquidity_withdraw,
    ensures
        ({
            let ma = deposit_apply_spec(sweep_spec(m0, now), user, amount, now);
            let mb = withdraw_apply_spec(sweep_spec(ma, now), user, amount);
            &&& withdraw_check_spec(sweep_spec(ma, now), user, amount) == Ok::<u128, Error>(amount)
            &&& mb.total_deposited == m0.total_deposited
            &&& balance_of(mb.users, user) == balance_of(m0.users, user)
        }),
{
    lemma_sweep_directory(m0, now);
    let m1 = sweep_spec(m0, now);
    let scaled = sat_mul(amount, m0.config.decimals_factor);
    let ma = deposit_apply_spec(m1, user, amount, now);
    let users1 = if contains_user(m1.users, user) {
        m1.users
    } else {
        m1.users.push((user, new_user_spec(now)))
    };
    if !contains_user(m1.users, user) {
        assert(users1[users1.len() - 1].0 == user);
    }
    assert(contains_user(users1, user));
    let i = idx_of(users1, user);
    assert(users1[i].0 == user);
    assert(0 <= i < users1.len());
    assert(contains_user(ma.users, user)) by {
        assert(ma.users[i].0 == user);
    }
    assert(idx_of(ma.users, user) == i) by {
        let k = idx_of(ma.users, user);
        assert(0 <= k < ma.users.len() && ma.users[k].0 == user);
        if k != i {
            assert(users1[k].0 == user);
        }
    }
    assert(user_of(ma.users, user).balance == balance_of(m1.users, user) + scaled);
    lemma_sweep_directory(ma, now);
    let m2 = sweep_spec(ma, now);
    assert(balance_of(m2.users, user) == balance_of(ma.users, user));
    assert(user_of(m2.users, user).balance == balance_of(m1.users, user) + scaled);
    let mb = withdraw_apply_spec(m2, user, amount);
    let j = idx_of(m2.users, user);
    assert(m2.users[j].0 == user);
    assert(contains_user(mb.users, user)) by {
        assert(mb.users[j].0 == user);
    }
    assert(idx_of(mb.users, user) == j) by {
        let k = idx_of(mb.users, user);
        assert(0 <= k < mb.users.len() && mb.users[k].0 == user);
        if k != j {
            assert(m2.users[k].0 == user);
        }
    }
    assert(balance_of(mb.users, user) == balance_of(m1.users, user));
    assert(mb.total_deposited == m0.total_deposited);
}

} // verus!
