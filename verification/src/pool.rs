//! The lending pool: account directory, totals, rates, admin operations.

use vstd::prelude::*;

use crate::account::{
    accrue_user_spec, available_of, ltv_of, new_user_spec, update_user_rewards, UserInfo,
};
use crate::config::Config;
use crate::errors::Error;
use crate::events::LiquidityEvent;
use crate::rate::{apr_of, interest_rate_of, utilization_of};

verus! {

/// Mathematical image of a `LiquidityPool`.
#[verifier::ext_equal]
pub struct PoolView {
    pub owner: u128,
    pub admins: Seq<u128>,
    pub vft_contract_id: Option<u128>,
    pub total_deposited: u128,
    pub total_borrowed: u128,
    pub available_rewards_pool: u128,
    pub total_rewards_distributed: u128,
    pub users: Seq<(u128, UserInfo)>,
    pub utilization_factor: u128,
    pub interest_rate: u128,
    pub apr: u128,
    pub ltv: u128,
    pub config: Config,
}

/// The shared pool and its account directory.
///
/// `users` is an insertion-ordered directory keyed by account id; rows are
/// created lazily on a user's first deposit or collateral event and never
/// removed. `ltv` is the global loan-to-value ceiling, a percentage.
pub struct LiquidityPool {
    pub owner: u128,
    pub admins: Vec<u128>,
    pub vft_contract_id: Option<u128>,
    pub total_deposited: u128,
    pub total_borrowed: u128,
    pub available_rewards_pool: u128,
    pub total_rewards_distributed: u128,
    pub users: Vec<(u128, UserInfo)>,
    pub utilization_factor: u128,
    pub interest_rate: u128,
    pub apr: u128,
    pub ltv: u128,
    pub config: Config,
}

impl View for LiquidityPool {
    type V = PoolView;

    open spec fn view(&self) -> PoolView {
        PoolView {
            owner: self.owner,
            admins: self.admins@,
            vft_contract_id: self.vft_contract_id,
            total_deposited: self.total_deposited,
            total_borrowed: self.total_borrowed,
            available_rewards_pool: self.available_rewards_pool,
            total_rewards_distributed: self.total_rewards_distributed,
            users: self.users@,
            utilization_factor: self.utilization_factor,
            interest_rate: self.interest_rate,
            apr: self.apr,
            ltv: self.ltv,
            config: self.config,
        }
    }
}

/// No two directory rows share an account id.
pub open spec fn unique_ids(users: Seq<(u128, UserInfo)>) -> bool {
    forall|i: int, j: int|
        0 <= i < j < users.len() ==> (#[trigger] users[i]).0 != (#[trigger] users[j]).0
}

/// Whether the directory has a row for `user`.
pub open spec fn contains_user(users: Seq<(u128, UserInfo)>, user: u128) -> bool {
    exists|i: int| 0 <= i < users.len() && (#[trigger] users[i]).0 == user
}

/// The index of `user`'s row; meaningful only when `contains_user` holds
/// and the ids are unique.
pub open spec fn idx_of(users: Seq<(u128, UserInfo)>, user: u128) -> int {
    choose|i: int| 0 <= i < users.len() && (#[trigger] users[i]).0 == user
}

/// The row stored for `user`.
pub open spec fn user_of(users: Seq<(u128, UserInfo)>, user: u128) -> UserInfo {
    users[idx_of(users, user)].1
}

/// Sum of the supplied balances over the directory.
pub open spec fn sum_balances(users: Seq<(u128, UserInfo)>) -> int
    decreases users.len(),
{
    if users.len() == 0 {
        0
    } else {
        sum_balances(users.drop_last()) + users.last().1.balance
    }
}

/// Sum of the outstanding loans over the directory.
pub open spec fn sum_loans(users: Seq<(u128, UserInfo)>) -> int
    decreases users.len(),
{
    if users.len() == 0 {
        0
    } else {
        sum_loans(users.drop_last()) + users.last().1.loan_amount
    }
}

/// The borrowed total exactly covers the outstanding loans. It holds of a
/// fresh pool and survives every loan, repayment and liquidation; the
/// administrative total override and the loan-side interest sweep step
/// outside it on purpose.
pub open spec fn borrows_covered(m: PoolView) -> bool {
    m.total_borrowed as int == sum_loans(m.users)
}

/// Consistency of a single row: the loan flag is up exactly while a loan
/// is outstanding, and the stored per-user loan-to-value and withdrawable
/// collateral agree with the rest of the row.
pub open spec fn user_wf(u: UserInfo) -> bool {
    &&& u.is_loan_active == (u.loan_amount > 0)
    &&& u.ltv == ltv_of(u.loan_amount, u.cv)
    &&& u.available_to_withdraw_vara == available_of(u.balance_vara, u.ltv, u.is_loan_active)
}

impl PoolView {
    /// Pool well-formedness: valid configuration, unique account ids, the
    /// supplied total exactly covering the account balances, and every row
    /// internally consistent. Every operation preserves it.
    pub open spec fn wf(self) -> bool {
        &&& self.config.wf()
        &&& unique_ids(self.users)
        &&& self.total_deposited as int == sum_balances(self.users)
        &&& forall|i: int| 0 <= i < self.users.len() ==> user_wf((#[trigger] self.users[i]).1)
    }
}

/// Recomputation of the derived rate fields from the current totals.
pub open spec fn reprice_spec(m: PoolView) -> PoolView {
    let util = utilization_of(m.total_borrowed, m.total_deposited, m.config.decimals_factor);
    let ir = interest_rate_of(m.config.base_rate, m.config.risk_multiplier, util, m.config.decimals_factor);
    PoolView {
        utilization_factor: util,
        interest_rate: ir,
        apr: apr_of(ir, m.config.dev_fee, m.config.decimals_factor),
        ..m
    }
}

/// Supply-side accrual of every row at rate `rate` and time `now`.
pub open spec fn accrue_users_spec(
    users: Seq<(u128, UserInfo)>,
    rate: u128,
    scale: u128,
    year_in_seconds: u128,
    now: u128,
) -> Seq<(u128, UserInfo)> {
    users.map(|i: int, p: (u128, UserInfo)| (p.0, accrue_user_spec(p.1, rate, scale, year_in_seconds, now)))
}

/// The re-pricing sweep that opens every operation: derived rates are
/// recomputed from the totals, then every account accrues its supply-side
/// rewards at the new rate up to `now`.
pub open spec fn sweep_spec(m: PoolView, now: u128) -> PoolView {
    let m1 = reprice_spec(m);
    PoolView {
        users: accrue_users_spec(
            m1.users,
            m1.interest_rate,
            m1.config.decimals_factor,
            m1.config.year_in_seconds,
            now,
        ),
        ..m1
    }
}

/// Every row with its withdrawable collateral recomputed.
pub open spec fn avail_users_spec(users: Seq<(u128, UserInfo)>) -> Seq<(u128, UserInfo)> {
    users.map(
        |i: int, p: (u128, UserInfo)|
            (
                p.0,
                UserInfo {
                    available_to_withdraw_vara: available_of(p.1.balance_vara, p.1.ltv, p.1.is_loan_active),
                    ..p.1
                },
            ),
    )
}

/// The position of the first occurrence of `x`, or `-1` when absent.
pub open spec fn first_index_of(s: Seq<u128>, x: u128) -> int
    decreases s.len(),
{
    if s.len() == 0 {
        -1
    } else if s[0] == x {
        0
    } else {
        let r = first_index_of(s.drop_first(), x);
        if r < 0 {
            -1
        } else {
            r + 1
        }
    }
}

/// A position that holds `x` with nothing equal before it is the first
/// occurrence.
pub proof fn lemma_first_index(s: Seq<u128>, x: u128, i: int)
    requires
        0 <= i < s.len(),
        s[i] == x,
        forall|j: int| 0 <= j < i ==> s[j] != x,
    ensures
        first_index_of(s, x) == i,
    decreases s.len(),
{
    if i > 0 {
        lemma_first_index(s.drop_first(), x, i - 1);
    }
}

/// Sum of balances is never negative.
pub proof fn lemma_sum_nonneg(users: Seq<(u128, UserInfo)>)
    ensures
        sum_balances(users) >= 0,
    decreases users.len(),
{
    if users.len() > 0 {
        lemma_sum_nonneg(users.drop_last());
    }
}

/// Appending a row adds its balance to the sum.
pub proof fn lemma_sum_push(users: Seq<(u128, UserInfo)>, p: (u128, UserInfo))
    ensures
        sum_balances(users.push(p)) == sum_balances(users) + p.1.balance,
{
    assert(users.push(p).drop_last() =~= users);
}

/// Replacing one row shifts the sum by the balance difference.
pub proof fn lemma_sum_update(users: Seq<(u128, UserInfo)>, i: int, p: (u128, UserInfo))
    requires
        0 <= i < users.len(),
    ensures
        sum_balances(users.update(i, p)) == sum_balances(users) - users[i].1.balance + p.1.balance,
    decreases users.len(),
{
    let s2 = users.update(i, p);
    if i == users.len() - 1 {
        assert(s2.drop_last() =~= users.drop_last());
    } else {
        assert(s2.drop_last() =~= users.drop_last().update(i, p));
        lemma_sum_update(users.drop_last(), i, p);
    }
}

/// Two directories with pointwise equal balances have equal sums.
pub proof fn lemma_sum_pointwise(s1: Seq<(u128, UserInfo)>, s2: Seq<(u128, UserInfo)>)
    requires
        s1.len() == s2.len(),
        forall|i: int| 0 <= i < s1.len() ==> (#[trigger] s1[i]).1.balance == (#[trigger] s2[i]).1.balance,
    ensures
        sum_balances(s1) == sum_balances(s2),
    decreases s1.len(),
{
    if s1.len() > 0 {
        lemma_sum_pointwise(s1.drop_last(), s2.drop_last());
    }
}

/// The sum covers each single balance.
pub proof fn lemma_sum_element(users: Seq<(u128, UserInfo)>, i: int)
    requires
        0 <= i < users.len(),
    ensures
        sum_balances(users) >= users[i].1.balance,
    decreases users.len(),
{
    if i == users.len() - 1 {
        lemma_sum_nonneg(users.drop_last());
    } else {
        lemma_sum_element(users.drop_last(), i);
    }
}

/// A pool can cover every account: the supplied total is at least the sum
/// of the user balances, and at least each single balance.
pub proof fn lemma_supply_covers_balances(m: PoolView, i: int)
    requires
        m.wf(),
        0 <= i < m.users.len(),
    ensures
        m.total_deposited as int >= sum_balances(m.users),
        m.total_deposited >= m.users[i].1.balance,
{
    lemma_sum_element(m.users, i);
}

/// Sum of loans is never negative.
pub proof fn lemma_sum_loans_nonneg(users: Seq<(u128, UserInfo)>)
    ensures
        sum_loans(users) >= 0,
    decreases users.len(),
{
    if users.len() > 0 {
        lemma_sum_loans_nonneg(users.drop_last());
    }
}

/// Appending a row adds its loan to the sum.
pub proof fn lemma_sum_loans_push(users: Seq<(u128, UserInfo)>, p: (u128, UserInfo))
    ensures
        sum_loans(users.push(p)) == sum_loans(users) + p.1.loan_amount,
{
    assert(users.push(p).drop_last() =~= users);
}

/// Replacing one row shifts the sum by the loan difference.
pub proof fn lemma_sum_loans_update(users: Seq<(u128, UserInfo)>, i: int, p: (u128, UserInfo))
    requires
        0 <= i < users.len(),
    ensures
        sum_loans(users.update(i, p)) == sum_loans(users) - users[i].1.loan_amount + p.1.loan_amount,
    decreases users.len(),
{
    let s2 = users.update(i, p);
    if i == users.len() - 1 {
        assert(s2.drop_last() =~= users.drop_last());
    } else {
        assert(s2.drop_last() =~= users.drop_last().update(i, p));
        lemma_sum_loans_update(users.drop_last(), i, p);
    }
}

/// Two directories with pointwise equal loans have equal loan sums.
pub proof fn lemma_sum_loans_pointwise(s1: Seq<(u128, UserInfo)>, s2: Seq<(u128, UserInfo)>)
    requires
        s1.len() == s2.len(),
        forall|i: int| 0 <= i < s1.len() ==> (#[trigger] s1[i]).1.loan_amount == (#[trigger] s2[i]).1.loan_amount,
    ensures
        sum_loans(s1) == sum_loans(s2),
    decreases s1.len(),
{
    if s1.len() > 0 {
        lemma_sum_loans_pointwise(s1.drop_last(), s2.drop_last());
    }
}

/// The loan sum covers each single loan.
pub proof fn lemma_sum_loans_element(users: Seq<(u128, UserInfo)>, i: int)
    requires
        0 <= i < users.len(),
    ensures
        sum_loans(users) >= users[i].1.loan_amount,
    decreases users.len(),
{
    if i == users.len() - 1 {
        lemma_sum_loans_nonneg(users.drop_last());
    } else {
        lemma_sum_loans_element(users.drop_last(), i);
    }
}

/// The re-pricing sweep touches neither the loans nor the borrowed total.
pub proof fn lemma_sweep_preserves_borrows(m: PoolView, now: u128)
    requires
        borrows_covered(m),
    ensures
        borrows_covered(sweep_spec(m, now)),
{
    lemma_sum_loans_pointwise(sweep_spec(m, now).users, m.users);
}

/// The balance held for `user`, zero when no row exists.
pub open spec fn balance_of(users: Seq<(u128, UserInfo)>, user: u128) -> u128 {
    if contains_user(users, user) {
        user_of(users, user).balance
    } else {
        0
    }
}

/// The native collateral held for `user`, zero when no row exists.
pub open spec fn vara_balance_of(users: Seq<(u128, UserInfo)>, user: u128) -> u128 {
    if contains_user(users, user) {
        user_of(users, user).balance_vara
    } else {
        0
    }
}

/// The re-pricing sweep only touches rewards and checkpoints: row ids,
/// order, balances, collateral and loans survive it, and so does every
/// directory lookup.
pub proof fn lemma_sweep_directory(m: PoolView, now: u128)
    requires
        unique_ids(m.users),
    ensures
        ({
            let m1 = sweep_spec(m, now);
            &&& m1.users.len() == m.users.len()
            &&& forall|i: int| 0 <= i < m.users.len() ==> (#[trigger] m1.users[i]).0 == m.users[i].0
            &&& unique_ids(m1.users)
            &&& forall|user: u128| #[trigger] contains_user(m1.users, user) == contains_user(m.users, user)
            &&& forall|user: u128| contains_user(m.users, user)
                ==> #[trigger] idx_of(m1.users, user) == idx_of(m.users, user)
            &&& forall|user: u128| contains_user(m.users, user)
                ==> #[trigger] user_of(m1.users, user) == accrue_user_spec(
                    user_of(m.users, user),
                    m1.interest_rate,
                    m.config.decimals_factor,
                    m.config.year_in_seconds,
                    now,
                )
            &&& forall|user: u128| #[trigger] balance_of(m1.users, user) == balance_of(m.users, user)
        }),
{
    let m1 = sweep_spec(m, now);
    assert forall|user: u128| #[trigger] contains_user(m1.users, user) == contains_user(m.users, user) by {
        if contains_user(m.users, user) {
            let i = idx_of(m.users, user);
            assert(m1.users[i].0 == user);
        }
        if contains_user(m1.users, user) {
            let i = idx_of(m1.users, user);
            assert(m.users[i].0 == user);
        }
    }
    assert forall|user: u128| contains_user(m.users, user)
        implies #[trigger] idx_of(m1.users, user) == idx_of(m.users, user) by {
        let i = idx_of(m.users, user);
        assert(m1.users[i].0 == user);
        let k = idx_of(m1.users, user);
        assert(0 <= k < m1.users.len() && m1.users[k].0 == user);
        assert(m.users[k].0 == user);
    }
    assert forall|user: u128| #[trigger] balance_of(m1.users, user) == balance_of(m.users, user) by {
        if contains_user(m.users, user) {
            let i = idx_of(m.users, user);
            assert(user_of(m1.users, user) == m1.users[i].1);
        }
    }
}

/// Running the re-pricing sweep twice at one clock reading is the same as
/// running it once: the totals that drive the rates are untouched by
/// accrual, and accrual itself is idempotent at a fixed time.
pub proof fn lemma_sweep_idempotent(m: PoolView, now: u128)
    ensures
        sweep_spec(sweep_spec(m, now), now) == sweep_spec(m, now),
{
    let m1 = sweep_spec(m, now);
    let m2 = sweep_spec(m1, now);
    assert forall|i: int| 0 <= i < m2.users.len() implies m2.users[i] == m1.users[i] by {
        crate::account::lemma_accrue_idempotent(
            m.users[i].1,
            m1.interest_rate,
            m.config.decimals_factor,
            m.config.year_in_seconds,
            now,
        );
    }
    assert(m2.users =~= m1.users);
    assert(m2 =~= m1);
}

impl LiquidityPool {
    /// Pool well-formedness, stated on the executable value.
    pub open spec fn wf(&self) -> bool {
        self@.wf()
    }

    /// Sets up a fresh pool: no accounts, zero totals, derived rates
    /// computed from the zero totals.
    pub fn seed(
        owner: u128,
        admins: Vec<u128>,
        vft_contract_id: Option<u128>,
        ltv: u128,
        config: Config,
    ) -> (p: LiquidityPool)
        requires
            config.wf(),
        ensures
            p.wf(),
            p@.owner == owner,
            p@.admins == admins@,
            p@.vft_contract_id == vft_contract_id,
            p@.ltv == ltv,
            p@.config == config,
            p@.users =~= Seq::<(u128, UserInfo)>::empty(),
            p@.total_deposited == 0,
            p@.total_borrowed == 0,
            p@.available_rewards_pool == 0,
            p@.total_rewards_distributed == 0,
            p@ == reprice_spec(p@),
            borrows_covered(p@),
    {
        let utilization_factor = crate::rate::utilization_factor(0, 0, config.decimals_factor);
        let ir = crate::rate::interest_rate(
            config.base_rate,
            config.risk_multiplier,
            utilization_factor,
            config.decimals_factor,
        );
        let apr = crate::rate::apr(ir, config.dev_fee, config.decimals_factor);
        LiquidityPool {
            owner,
            admins,
            vft_contract_id,
            total_deposited: 0,
            total_borrowed: 0,
            available_rewards_pool: 0,
            total_rewards_distributed: 0,
            users: Vec::new(),
            utilization_factor,
            interest_rate: ir,
            apr,
            ltv,
            config,
        }
    }

    /// Looks up the directory index of `user`'s row.
    pub fn find_user(&self, user: u128) -> (r: Option<usize>)
        ensures
            match r {
                Some(i) => i < self.users@.len() && self.users@[i as int].0 == user
                    && contains_user(self@.users, user),
                None => !contains_user(self@.users, user),
            },
    {
        let n = self.users.len();
        let mut i: usize = 0;
        while i < n
            invariant
                i <= n,
                n == self.users@.len(),
                forall|j: int| 0 <= j < i ==> (#[trigger] self.users@[j]).0 != user,
            decreases n - i,
        {
            if self.users[i].0 == user {
                return Some(i);
            }
            i += 1;
        }
        None
    }

    /// Looks up `user`'s row and identifies its index with the
    /// specification-level lookup.
    pub fn locate(&self, user: u128) -> (r: Option<usize>)
        requires
            unique_ids(self@.users),
        ensures
            match r {
                Some(i) => contains_user(self@.users, user) && i < self@.users.len()
                    && self@.users[i as int].0 == user && i as int == idx_of(self@.users, user),
                None => !contains_user(self@.users, user),
            },
    {
        match self.find_user(user) {
            Some(i) => {
                proof {
                    let k = idx_of(self@.users, user);
                    assert(self@.users[k].0 == user);
                    assert(k == i as int);
                }
                Some(i)
            },
            None => None,
        }
    }

    /// Whether `who` is an administrator.
    pub fn is_admin(&self, who: u128) -> (r: bool)
        ensures
            r == self@.admins.contains(who),
    {
        let n = self.admins.len();
        let mut i: usize = 0;
        while i < n
            invariant
                i <= n,
                n == self.admins@.len(),
                forall|j: int| 0 <= j < i ==> self.admins@[j] != who,
            decreases n - i,
        {
            if self.admins[i] == who {
                return true;
            }
            i += 1;
        }
        false
    }

    /// Recomputes and stores the utilization factor of the current totals.
    pub fn calculate_utilization_factor(&mut self) -> (r: u128)
        ensures
            r == utilization_of(
                old(self)@.total_borrowed,
                old(self)@.total_deposited,
                old(self)@.config.decimals_factor,
            ),
            final(self)@ == (PoolView { utilization_factor: r, ..old(self)@ }),
    {
        let r = crate::rate::utilization_factor(
            self.total_borrowed,
            self.total_deposited,
            self.config.decimals_factor,
        );
        self.utilization_factor = r;
        r
    }

    /// Recomputes utilization, the lender interest rate and the borrower
    /// rate from the current totals, stores them, and returns the borrower
    /// rate.
    pub fn calculate_apr(&mut self) -> (r: u128)
        ensures
            final(self)@ == reprice_spec(old(self)@),
            r == final(self)@.apr,
            final(self)@.wf() == old(self)@.wf(),
    {
        let _ = self.calculate_utilization_factor();
        self.interest_rate = crate::rate::interest_rate(
            self.config.base_rate,
            self.config.risk_multiplier,
            self.utilization_factor,
            self.config.decimals_factor,
        );
        self.apr = crate::rate::apr(self.interest_rate, self.config.dev_fee, self.config.decimals_factor);
        self.apr
    }

    /// The re-pricing sweep: recomputes the derived rates, then accrues
    /// supply-side rewards for every account at `now`. Every state-mutating
    /// operation runs this first, so no rate change applies retroactively
    /// to a period it did not cover. Sweeping twice at one clock reading
    /// equals sweeping once (`lemma_sweep_idempotent`).
    pub fn update_all_rewards(&mut self, now: u128)
        requires
            old(self).wf(),
        ensures
            final(self)@ == sweep_spec(old(self)@, now),
            final(self).wf(),
    {
        let _ = self.calculate_apr();
        let ghost m1 = self@;
        let rate = self.interest_rate;
        let scale = self.config.decimals_factor;
        let year = self.config.year_in_seconds;
        let n = self.users.len();
        let mut i: usize = 0;
        while i < n
            invariant
                i <= n,
                n == self.users@.len(),
                self@ == (PoolView { users: self@.users, ..m1 }),
                rate == m1.interest_rate,
                scale == m1.config.decimals_factor,
                year == m1.config.year_in_seconds,
                forall|j: int| 0 <= j < i ==> self.users@[j]
                    == ((#[trigger] m1.users[j]).0, accrue_user_spec(m1.users[j].1, rate, scale, year, now)),
                forall|j: int| i <= j < n ==> self.users@[j] == #[trigger] m1.users[j],
            decreases n - i,
        {
            let (id, mut u) = self.users[i];
            update_user_rewards(&mut u, rate, scale, year, now);
            self.users[i] = (id, u);
            i += 1;
        }
        proof {
            assert(self@.users =~= accrue_users_spec(m1.users, rate, scale, year, now));
            assert(self@ =~= sweep_spec(old(self)@, now));
            lemma_sum_pointwise(self@.users, old(self)@.users);
        }
    }

    /// Recomputes the withdrawable collateral of every row. A well-formed
    /// pool already satisfies the recomputation, so this leaves it
    /// unchanged.
    pub fn update_all_collateral_available_to_withdraw(&mut self)
        ensures
            final(self)@ == (PoolView { users: avail_users_spec(old(self)@.users), ..old(self)@ }),
            old(self).wf() ==> final(self)@ == old(self)@,
    {
        let ghost m0 = self@;
        let n = self.users.len();
        let mut i: usize = 0;
        while i < n
            invariant
                i <= n,
                n == self.users@.len(),
                self@ == (PoolView { users: self@.users, ..m0 }),
                forall|j: int| 0 <= j < i ==> self.users@[j] == (
                    (#[trigger] m0.users[j]).0,
                    UserInfo {
                        available_to_withdraw_vara: available_of(
                            m0.users[j].1.balance_vara,
                            m0.users[j].1.ltv,
                            m0.users[j].1.is_loan_active,
                        ),
                        ..m0.users[j].1
                    },
                ),
                forall|j: int| i <= j < n ==> self.users@[j] == #[trigger] m0.users[j],
            decreases n - i,
        {
            let (id, mut u) = self.users[i];
            crate::account::update_user_available_to_withdraw_vara(&mut u);
            self.users[i] = (id, u);
            i += 1;
        }
        proof {
            assert(self@.users =~= avail_users_spec(m0.users));
            assert(self@ =~= (PoolView { users: avail_users_spec(m0.users), ..m0 }));
            if old(self).wf() {
                assert(self@.users =~= m0.users);
                assert(self@ =~= m0);
            }
        }
    }

    /// Returns the index of `user`'s row, creating a fresh zeroed row with
    /// both checkpoints at `now` when none exists.
    pub fn ensure_user(&mut self, user: u128, now: u128) -> (i: usize)
        requires
            old(self).wf(),
        ensures
            final(self).wf(),
            i < final(self)@.users.len(),
            final(self)@.users[i as int].0 == user,
            contains_user(final(self)@.users, user),
            i as int == idx_of(final(self)@.users, user),
            contains_user(old(self)@.users, user) ==> final(self)@ == old(self)@,
            !contains_user(old(self)@.users, user) ==> final(self)@ == (PoolView {
                users: old(self)@.users.push((user, new_user_spec(now))),
                ..old(self)@
            }),
    {
        let r = self.find_user(user);
        match r {
            Some(i) => {
                proof {
                    let k = idx_of(self@.users, user);
                    assert(0 <= k < self@.users.len() && self@.users[k].0 == user);
                    assert(k == i as int);
                }
                i
            },
            None => {
                let i = self.users.len();
                self.users.push((user, crate::account::create_new_user(now)));
                proof {
                    lemma_sum_push(old(self)@.users, (user, new_user_spec(now)));
                    let k = idx_of(self@.users, user);
                    assert(self@.users[i as int].0 == user);
                    assert(0 <= k < self@.users.len() && self@.users[k].0 == user);
                    assert(k == i as int);
                }
                i
            },
        }
    }

    /// The account that owns the pool.
    pub fn contract_owner(&self) -> (r: u128)
        ensures
            r == self@.owner,
    {
        self.owner
    }

    /// The configured token contract, when one has been wired up.
    pub fn vft_contract_id(&self) -> (r: Option<u128>)
        ensures
            r == self@.vft_contract_id,
    {
        self.vft_contract_id
    }

    /// The total supplied liquidity, scaled.
    pub fn total_deposited(&self) -> (r: u128)
        ensures
            r == self@.total_deposited,
    {
        self.total_deposited
    }

    /// A user's supplied balance in whole asset units.
    pub fn user_balance(&self, user: u128) -> (r: Result<u128, Error>)
        requires
            self.wf(),
        ensures
            match r {
                Ok(b) => contains_user(self@.users, user)
                    && b == user_of(self@.users, user).balance / self@.config.decimals_factor,
                Err(e) => !contains_user(self@.users, user) && e == Error::UserNotFound,
            },
    {
        match self.find_user(user) {
            Some(i) => {
                proof {
                    let k = idx_of(self@.users, user);
                    assert(self@.users[k].0 == user);
                    assert(k == i as int);
                }
                Ok(self.users[i].1.balance / self.config.decimals_factor)
            },
            None => Err(Error::UserNotFound),
        }
    }

    /// A user's accrued rewards in whole asset units.
    pub fn user_rewards(&self, user: u128) -> (r: Result<u128, Error>)
        requires
            self.wf(),
        ensures
            match r {
                Ok(b) => contains_user(self@.users, user)
                    && b == user_of(self@.users, user).rewards / self@.config.decimals_factor,
                Err(e) => !contains_user(self@.users, user) && e == Error::UserNotFound,
            },
    {
        match self.find_user(user) {
            Some(i) => {
                proof {
                    let k = idx_of(self@.users, user);
                    assert(self@.users[k].0 == user);
                    assert(k == i as int);
                }
                Ok(self.users[i].1.rewards / self.config.decimals_factor)
            },
            None => Err(Error::UserNotFound),
        }
    }

    /// A copy of a user's whole ledger row.
    pub fn user_info(&self, user: u128) -> (r: Result<UserInfo, Error>)
        requires
            unique_ids(self@.users),
        ensures
            match r {
                Ok(u) => contains_user(self@.users, user) && u == user_of(self@.users, user),
                Err(e) => !contains_user(self@.users, user) && e == Error::UserNotFound,
            },
    {
        match self.find_user(user) {
            Some(i) => {
                proof {
                    let k = idx_of(self@.users, user);
                    assert(self@.users[k].0 == user);
                    assert(k == i as int);
                }
                Ok(self.users[i].1)
            },
            None => Err(Error::UserNotFound),
        }
    }

    /// The account ids of every row, in directory order.
    pub fn all_users(&self) -> (r: Vec<u128>)
        ensures
            r@.len() == self@.users.len(),
            forall|i: int| 0 <= i < r@.len() ==> r@[i] == (#[trigger] self@.users[i]).0,
    {
        let n = self.users.len();
        let mut r: Vec<u128> = Vec::new();
        let mut i: usize = 0;
        while i < n
            invariant
                i <= n,
                n == self.users@.len(),
                r@.len() == i,
                forall|j: int| 0 <= j < i ==> r@[j] == (#[trigger] self.users@[j]).0,
            decreases n - i,
        {
            r.push(self.users[i].0);
            i += 1;
        }
        r
    }

    /// Grants administrator rights. Only an administrator may do so, and
    /// only to an account that has none yet.
    pub fn add_admin(&mut self, caller: u128, new_admin: u128) -> (r: Result<(), Error>)
        ensures
            final(self).wf() == old(self).wf(),
            match r {
                Ok(()) => old(self)@.admins.contains(caller)
                    && !old(self)@.admins.contains(new_admin)
                    && final(self)@ == (PoolView { admins: old(self)@.admins.push(new_admin), ..old(self)@ }),
                Err(e) => final(self)@ == old(self)@ && if !old(self)@.admins.contains(caller) {
                    e == Error::InsufficientAdminPrivileges
                } else {
                    old(self)@.admins.contains(new_admin) && e == Error::AdminAlreadyExists
                },
            },
    {
        if !self.is_admin(caller) {
            return Err(Error::InsufficientAdminPrivileges);
        }
        if self.is_admin(new_admin) {
            return Err(Error::AdminAlreadyExists);
        }
        self.admins.push(new_admin);
        Ok(())
    }

    /// Revokes administrator rights: removes the first directory entry for
    /// `admin` from the administrator list.
    pub fn remove_admin(&mut self, caller: u128, admin: u128) -> (r: Result<(), Error>)
        ensures
            final(self).wf() == old(self).wf(),
            match r {
                Ok(()) => old(self)@.admins.contains(caller)
                    && old(self)@.admins.contains(admin)
                    && final(self)@ == (PoolView {
                        admins: old(self)@.admins.remove(first_index_of(old(self)@.admins, admin)),
                        ..old(self)@
                    }),
                Err(e) => final(self)@ == old(self)@ && if !old(self)@.admins.contains(caller) {
                    e == Error::InsufficientAdminPrivileges
                } else {
                    !old(self)@.admins.contains(admin) && e == Error::AdminDoesNotExist
                },
            },
    {
        if !self.is_admin(caller) {
            return Err(Error::InsufficientAdminPrivileges);
        }
        let n = self.admins.len();
        let mut i: usize = 0;
        while i < n
            invariant
                i <= n,
                n == self.admins@.len(),
                self@ == old(self)@,
                old(self)@.admins.contains(caller),
                forall|j: int| 0 <= j < i ==> self.admins@[j] != admin,
            decreases n - i,
        {
            if self.admins[i] == admin {
                proof {
                    lemma_first_index(self@.admins, admin, i as int);
                    assert(old(self)@.admins[i as int] == admin);
                }
                self.admins.remove(i);
                proof {
                    assert(self@ =~= (PoolView {
                        admins: old(self)@.admins.remove(first_index_of(old(self)@.admins, admin)),
                        ..old(self)@
                    }));
                }
                return Ok(());
            }
            i += 1;
        }
        Err(Error::AdminDoesNotExist)
    }

    /// Wires up the token contract the pool settles through. Administrators
    /// only.
    pub fn set_vft_contract_id(&mut self, caller: u128, vft_contract_id: u128) -> (r: Result<
        LiquidityEvent,
        Error,
    >)
        ensures
            final(self).wf() == old(self).wf(),
            match r {
                Ok(ev) => old(self)@.admins.contains(caller)
                    && ev == LiquidityEvent::VFTseted(vft_contract_id)
                    && final(self)@ == (PoolView { vft_contract_id: Some(vft_contract_id), ..old(self)@ }),
                Err(e) => final(self)@ == old(self)@ && !old(self)@.admins.contains(caller)
                    && e == Error::InsufficientAdminPrivileges,
            },
    {
        if !self.is_admin(caller) {
            return Err(Error::InsufficientAdminPrivileges);
        }
        self.vft_contract_id = Some(vft_contract_id);
        Ok(LiquidityEvent::VFTseted(vft_contract_id))
    }

    /// Sets the global loan-to-value ceiling, a percentage. Administrators
    /// only. Stored valuations are refreshed by the next valuation event.
    pub fn set_ltv(&mut self, caller: u128, ltv: u128) -> (r: Result<(), Error>)
        ensures
            final(self).wf() == old(self).wf(),
            match r {
                Ok(()) => old(self)@.admins.contains(caller)
                    && final(self)@ == (PoolView { ltv: ltv, ..old(self)@ }),
                Err(e) => final(self)@ == old(self)@ && !old(self)@.admins.contains(caller)
                    && e == Error::InsufficientAdminPrivileges,
            },
    {
        if !self.is_admin(caller) {
            return Err(Error::InsufficientAdminPrivileges);
        }
        self.ltv = ltv;
        Ok(())
    }

    /// Overrides the total borrowed with `amount` asset units, after the
    /// usual re-pricing sweep, and re-derives the rates. The host restricts
    /// who may send this action.
    pub fn modify_total_borrowed(&mut self, amount: u128, now: u128) -> (r: Result<LiquidityEvent, Error>)
        requires
            old(self).wf(),
        ensures
            final(self).wf(),
            match r {
                Ok(ev) => amount * old(self)@.config.decimals_factor <= u128::MAX
                    && ev == LiquidityEvent::TotalBorrowedModified(amount)
                    && final(self)@ == reprice_spec(
                        PoolView {
                            total_borrowed: (amount * old(self)@.config.decimals_factor) as u128,
                            ..sweep_spec(old(self)@, now)
                        },
                    ),
                Err(e) => amount * old(self)@.config.decimals_factor > u128::MAX
                    && e == Error::ArithmeticOverflow
                    && final(self)@ == sweep_spec(old(self)@, now),
            },
    {
        self.update_all_rewards(now);
        let scaled = match amount.checked_mul(self.config.decimals_factor) {
            Some(s) => s,
            None => {
                return Err(Error::ArithmeticOverflow);
            },
        };
        self.total_borrowed = scaled;
        let _ = self.calculate_apr();
        Ok(LiquidityEvent::TotalBorrowedModified(amount))
    }

    /// Replenishes (or drains) the rewards pool to `amount` asset units.
    /// Administrators only; rewards are accrued for every account first so
    /// the change is not retroactive.
    pub fn modify_available_rewards_pool(&mut self, caller: u128, amount: u128, now: u128) -> (r: Result<
        LiquidityEvent,
        Error,
    >)
        requires
            old(self).wf(),
        ensures
            final(self).wf(),
            match r {
                Ok(ev) => old(self)@.admins.contains(caller)
                    && amount * old(self)@.config.decimals_factor <= u128::MAX
                    && ev == LiquidityEvent::AvailableRewardsPoolModified(amount)
                    && final(self)@ == (PoolView {
                        available_rewards_pool: (amount * old(self)@.config.decimals_factor) as u128,
                        ..sweep_spec(old(self)@, now)
                    }),
                Err(e) => if !old(self)@.admins.contains(caller) {
                    e == Error::InsufficientAdminPrivileges && final(self)@ == old(self)@
                } else {
                    amount * old(self)@.config.decimals_factor > u128::MAX
                        && e == Error::ArithmeticOverflow
                        && final(self)@ == sweep_spec(old(self)@, now)
                },
            },
    {
        if !self.is_admin(caller) {
            return Err(Error::InsufficientAdminPrivileges);
        }
        self.update_all_rewards(now);
        self.update_all_collateral_available_to_withdraw();
        let scaled = match amount.checked_mul(self.config.decimals_factor) {
            Some(s) => s,
            None => {
                return Err(Error::ArithmeticOverflow);
            },
        };
        self.available_rewards_pool = scaled;
        Ok(LiquidityEvent::AvailableRewardsPoolModified(amount))
    }
}

} // verus!
