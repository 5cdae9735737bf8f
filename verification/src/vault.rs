//! The staking vault: time-locked positions with conviction multipliers.
//!
//! The vault is independent of the lending pool; both settle through the
//! same external token-transfer collaborator, so the two-phase check /
//! commit discipline applies here too. A position is created on stake,
//! flips exactly once to claimed after it matures, and is never removed.
//!
//! Conviction durations are in seconds; timestamps, as everywhere in this
//! crate, in milliseconds.

use vstd::prelude::*;

use crate::errors::Error;
use crate::{sat_add, sat_sub};

verus! {

/// The closed set of lock durations and their power multipliers
/// (hundredths: a multiplier of 150 gives power `amount * 150 / 100`).
#[derive(Clone, Copy, PartialEq, Eq, Structural, Debug)]
pub enum ConvictionLevel {
    /// One day, multiplier 100.
    OneDay,
    /// Seven days, multiplier 150.
    SevenDays,
    /// Fourteen days, multiplier 200.
    FourteenDays,
    /// Twenty-eight days, multiplier 300.
    TwentyEightDays,
    /// Ninety days, multiplier 400.
    NinetyDays,
}

impl ConvictionLevel {
    /// The power multiplier, in hundredths.
    pub open spec fn multiplier_spec(self) -> u128 {
        match self {
            ConvictionLevel::OneDay => 100,
            ConvictionLevel::SevenDays => 150,
            ConvictionLevel::FourteenDays => 200,
            ConvictionLevel::TwentyEightDays => 300,
            ConvictionLevel::NinetyDays => 400,
        }
    }

    /// The lock duration, in seconds.
    pub open spec fn duration_seconds_spec(self) -> u128 {
        match self {
            ConvictionLevel::OneDay => 86_400,
            ConvictionLevel::SevenDays => 604_800,
            ConvictionLevel::FourteenDays => 1_209_600,
            ConvictionLevel::TwentyEightDays => 2_419_200,
            ConvictionLevel::NinetyDays => 7_776_000,
        }
    }

    /// The power multiplier, in hundredths.
    pub fn multiplier(&self) -> (r: u128)
        ensures
            r == self.multiplier_spec(),
    {
        match self {
            ConvictionLevel::OneDay => 100,
            ConvictionLevel::SevenDays => 150,
            ConvictionLevel::FourteenDays => 200,
            ConvictionLevel::TwentyEightDays => 300,
            ConvictionLevel::NinetyDays => 400,
        }
    }

    /// The lock duration, in seconds.
    pub fn duration_seconds(&self) -> (r: u128)
        ensures
            r == self.duration_seconds_spec(),
    {
        match self {
            ConvictionLevel::OneDay => 86_400,
            ConvictionLevel::SevenDays => 604_800,
            ConvictionLevel::FourteenDays => 1_209_600,
            ConvictionLevel::TwentyEightDays => 2_419_200,
            ConvictionLevel::NinetyDays => 7_776_000,
        }
    }
}

/// One staked position. Ids start at 1 and grow by one per stake, so the
/// position with id `k` sits at index `k - 1`.
#[derive(Clone, Copy, PartialEq, Eq, Structural, Debug)]
pub struct VaultPosition {
    /// Position id, `index + 1`.
    pub id: u128,
    /// The staking account.
    pub user: u128,
    /// Staked token amount.
    pub amount: u128,
    /// Chosen conviction level.
    pub conviction_level: ConvictionLevel,
    /// The level's multiplier, denormalized into the position.
    pub multiplier: u128,
    /// Voting power, `amount * multiplier / 100`.
    pub power: u128,
    /// Stake time, in milliseconds.
    pub start_timestamp: u128,
    /// Earliest claim time, in milliseconds.
    pub unlock_timestamp: u128,
    /// Whether the stake is still locked in the vault.
    pub is_active: bool,
    /// Whether the stake was paid back out.
    pub claimed: bool,
}

/// A user's aggregate view: totals over the still-locked positions and the
/// id lists, all recomputed from the position table at query time.
#[derive(Debug)]
pub struct UserVaultInfo {
    /// Total still-locked stake.
    pub total_staked_vst: u128,
    /// Total power of the still-locked stake.
    pub total_power: u128,
    /// Ids of locked positions that have not matured yet.
    pub active_positions: Vec<u128>,
    /// Ids of locked positions past their unlock time.
    pub matured_positions: Vec<u128>,
    /// Ids of all the user's positions, claimed ones included.
    pub position_history: Vec<u128>,
}

/// Vault-wide totals.
#[derive(Clone, Copy, PartialEq, Eq, Structural, Debug)]
pub struct GlobalVaultStats {
    /// Total still-locked stake.
    pub total_vst_locked: u128,
    /// Total power of the still-locked stake.
    pub total_power: u128,
    /// Number of still-locked positions.
    pub active_positions_count: u128,
}

/// Mathematical image of a `VaultState`.
#[verifier::ext_equal]
pub struct VaultView {
    pub owner: u128,
    pub admins: Seq<u128>,
    pub vst_token_id: Option<u128>,
    pub total_vst_locked: u128,
    pub total_power: u128,
    pub positions: Seq<VaultPosition>,
}

/// The staking vault.
pub struct VaultState {
    pub owner: u128,
    pub admins: Vec<u128>,
    pub vst_token_id: Option<u128>,
    pub total_vst_locked: u128,
    pub total_power: u128,
    pub positions: Vec<VaultPosition>,
}

impl View for VaultState {
    type V = VaultView;

    open spec fn view(&self) -> VaultView {
        VaultView {
            owner: self.owner,
            admins: self.admins@,
            vst_token_id: self.vst_token_id,
            total_vst_locked: self.total_vst_locked,
            total_power: self.total_power,
            positions: self.positions@,
        }
    }
}

/// Whether a position still holds its stake.
pub open spec fn locked(p: VaultPosition) -> bool {
    p.is_active && !p.claimed
}

/// Sum of the staked amounts over the still-locked positions.
pub open spec fn sum_locked(s: Seq<VaultPosition>) -> int
    decreases s.len(),
{
    if s.len() == 0 {
        0
    } else {
        sum_locked(s.drop_last()) + if locked(s.last()) {
            s.last().amount as int
        } else {
            0
        }
    }
}

/// Sum of the powers over the still-locked positions.
pub open spec fn sum_power(s: Seq<VaultPosition>) -> int
    decreases s.len(),
{
    if s.len() == 0 {
        0
    } else {
        sum_power(s.drop_last()) + if locked(s.last()) {
            s.last().power as int
        } else {
            0
        }
    }
}

/// Number of still-locked positions.
pub open spec fn count_locked(s: Seq<VaultPosition>) -> int
    decreases s.len(),
{
    if s.len() == 0 {
        0
    } else {
        count_locked(s.drop_last()) + if locked(s.last()) {
            1int
        } else {
            0
        }
    }
}

/// Internal consistency of one position: the denormalized multiplier,
/// power and unlock time agree with the conviction level, the stake is
/// positive, and locked and claimed are each other's negation.
pub open spec fn position_wf(p: VaultPosition) -> bool {
    &&& p.amount > 0
    &&& p.multiplier == p.conviction_level.multiplier_spec()
    &&& p.amount * p.multiplier <= u128::MAX
    &&& p.power == p.amount * p.multiplier / 100
    &&& p.unlock_timestamp == p.start_timestamp + p.conviction_level.duration_seconds_spec() * 1000
    &&& p.is_active == !p.claimed
}

impl VaultView {
    /// Vault well-formedness: ids are the index plus one, every position is
    /// internally consistent, and the stored totals are exactly the sums
    /// over the still-locked positions.
    pub open spec fn wf(self) -> bool {
        &&& forall|i: int| 0 <= i < self.positions.len() ==> (#[trigger] self.positions[i]).id == i + 1
        &&& forall|i: int| 0 <= i < self.positions.len() ==> position_wf(#[trigger] self.positions[i])
        &&& self.total_vst_locked as int == sum_locked(self.positions)
        &&& self.total_power as int == sum_power(self.positions)
    }
}

/// Sums over the locked positions are never negative.
pub proof fn lemma_vault_sums_nonneg(s: Seq<VaultPosition>)
    ensures
        sum_locked(s) >= 0,
        sum_power(s) >= 0,
    decreases s.len(),
{
    if s.len() > 0 {
        lemma_vault_sums_nonneg(s.drop_last());
    }
}

/// Appending a position adds its stake and power to the sums when it is
/// locked, and nothing otherwise.
pub proof fn lemma_vault_sums_push(s: Seq<VaultPosition>, p: VaultPosition)
    ensures
        sum_locked(s.push(p)) == sum_locked(s) + if locked(p) {
            p.amount as int
        } else {
            0
        },
        sum_power(s.push(p)) == sum_power(s) + if locked(p) {
            p.power as int
        } else {
            0
        },
{
    assert(s.push(p).drop_last() =~= s);
}

/// Replacing one position shifts the sums by the difference of the locked
/// contributions.
pub proof fn lemma_vault_sums_update(s: Seq<VaultPosition>, i: int, p: VaultPosition)
    requires
        0 <= i < s.len(),
    ensures
        sum_locked(s.update(i, p)) == sum_locked(s) - (if locked(s[i]) {
            s[i].amount as int
        } else {
            0
        }) + (if locked(p) {
            p.amount as int
        } else {
            0
        }),
        sum_power(s.update(i, p)) == sum_power(s) - (if locked(s[i]) {
            s[i].power as int
        } else {
            0
        }) + (if locked(p) {
            p.power as int
        } else {
            0
        }),
    decreases s.len(),
{
    let s2 = s.update(i, p);
    if i == s.len() - 1 {
        assert(s2.drop_last() =~= s.drop_last());
    } else {
        assert(s2.drop_last() =~= s.drop_last().update(i, p));
        lemma_vault_sums_update(s.drop_last(), i, p);
    }
}

/// The sums cover each single locked position.
pub proof fn lemma_vault_sums_element(s: Seq<VaultPosition>, i: int)
    requires
        0 <= i < s.len(),
        locked(s[i]),
    ensures
        sum_locked(s) >= s[i].amount,
        sum_power(s) >= s[i].power,
    decreases s.len(),
{
    if i == s.len() - 1 {
        lemma_vault_sums_nonneg(s.drop_last());
    } else {
        lemma_vault_sums_element(s.drop_last(), i);
        lemma_vault_sums_nonneg(s);
    }
}

/// Validation of a stake of `amount` at `level`: the amount is positive,
/// the token contract is wired up, and neither the power, the unlock time
/// nor the vault totals overflow. On success the host owes the vault a
/// transfer of `amount` from the user.
pub open spec fn stake_check_spec(m: VaultView, amount: u128, level: ConvictionLevel, now: u128) -> Result<
    u128,
    Error,
> {
    if amount == 0 {
        Err(Error::ZeroAmount)
    } else if m.vst_token_id is None {
        Err(Error::TokenNotConfigured)
    } else if amount * level.multiplier_spec() > u128::MAX {
        Err(Error::ArithmeticOverflow)
    } else if now + level.duration_seconds_spec() * 1000 > u128::MAX {
        Err(Error::ArithmeticOverflow)
    } else if m.total_vst_locked + amount > u128::MAX {
        Err(Error::ArithmeticOverflow)
    } else if m.total_power + amount * level.multiplier_spec() / 100 > u128::MAX {
        Err(Error::ArithmeticOverflow)
    } else {
        Ok(amount)
    }
}

/// The position a committed stake creates.
pub open spec fn new_position_spec(m: VaultView, user: u128, amount: u128, level: ConvictionLevel, now: u128) -> VaultPosition {
    VaultPosition {
        id: (m.positions.len() + 1) as u128,
        user: user,
        amount: amount,
        conviction_level: level,
        multiplier: level.multiplier_spec(),
        power: (amount * level.multiplier_spec() / 100) as u128,
        start_timestamp: now,
        unlock_timestamp: (now + level.duration_seconds_spec() * 1000) as u128,
        is_active: true,
        claimed: false,
    }
}

/// The state after a committed stake: the new position joins the table and
/// its stake and power join the totals.
pub open spec fn stake_apply_spec(m: VaultView, user: u128, amount: u128, level: ConvictionLevel, now: u128) -> VaultView {
    let p = new_position_spec(m, user, amount, level, now);
    VaultView {
        positions: m.positions.push(p),
        total_vst_locked: sat_add(m.total_vst_locked, amount),
        total_power: sat_add(m.total_power, p.power),
        ..m
    }
}

/// Validation of a claim of position `position_id` by `caller` at `now`:
/// the position exists, belongs to the caller, was not claimed, is still
/// active, has matured, and the token contract is wired up. On success the
/// host owes the caller a transfer of the staked amount back out of the
/// vault.
pub open spec fn unlock_check_spec(m: VaultView, caller: u128, position_id: u128, now: u128) -> Result<
    u128,
    Error,
> {
    if position_id == 0 || position_id > m.positions.len() {
        Err(Error::PositionNotFound)
    } else {
        let p = m.positions[position_id - 1];
        if p.user != caller {
            Err(Error::NotPositionOwner)
        } else if p.claimed {
            Err(Error::PositionAlreadyClaimed)
        } else if !p.is_active {
            Err(Error::PositionInactive)
        } else if now < p.unlock_timestamp {
            Err(Error::PositionNotMatured)
        } else if m.vst_token_id is None {
            Err(Error::TokenNotConfigured)
        } else {
            Ok(p.amount)
        }
    }
}

/// The state after a committed claim: the position flips to claimed and
/// inactive, and its stake and power leave the totals.
pub open spec fn unlock_apply_spec(m: VaultView, position_id: u128) -> VaultView {
    let i = position_id - 1;
    let p = m.positions[i];
    let p2 = VaultPosition { is_active: false, claimed: true, ..p };
    VaultView {
        positions: m.positions.update(i, p2),
        total_vst_locked: sat_sub(m.total_vst_locked, p.amount),
        total_power: sat_sub(m.total_power, p.power),
        ..m
    }
}

/// Ids of all of `user`'s positions, in creation order.
pub open spec fn user_history_spec(s: Seq<VaultPosition>, user: u128) -> Seq<u128>
    decreases s.len(),
{
    if s.len() == 0 {
        Seq::empty()
    } else {
        let r = user_history_spec(s.drop_last(), user);
        if s.last().user == user {
            r.push(s.last().id)
        } else {
            r
        }
    }
}

/// Ids of `user`'s locked positions that have not matured by `now`.
pub open spec fn user_active_ids_spec(s: Seq<VaultPosition>, user: u128, now: u128) -> Seq<u128>
    decreases s.len(),
{
    if s.len() == 0 {
        Seq::empty()
    } else {
        let r = user_active_ids_spec(s.drop_last(), user, now);
        let p = s.last();
        if p.user == user && locked(p) && now < p.unlock_timestamp {
            r.push(p.id)
        } else {
            r
        }
    }
}

/// Ids of `user`'s locked positions already past their unlock time.
pub open spec fn user_matured_ids_spec(s: Seq<VaultPosition>, user: u128, now: u128) -> Seq<u128>
    decreases s.len(),
{
    if s.len() == 0 {
        Seq::empty()
    } else {
        let r = user_matured_ids_spec(s.drop_last(), user, now);
        let p = s.last();
        if p.user == user && locked(p) && now >= p.unlock_timestamp {
            r.push(p.id)
        } else {
            r
        }
    }
}

/// All of `user`'s positions, as values, in creation order.
pub open spec fn user_positions_spec(s: Seq<VaultPosition>, user: u128) -> Seq<VaultPosition>
    decreases s.len(),
{
    if s.len() == 0 {
        Seq::empty()
    } else {
        let r = user_positions_spec(s.drop_last(), user);
        if s.last().user == user {
            r.push(s.last())
        } else {
            r
        }
    }
}

/// `user`'s locked, not yet matured positions, as values.
pub open spec fn user_active_positions_spec(s: Seq<VaultPosition>, user: u128, now: u128) -> Seq<VaultPosition>
    decreases s.len(),
{
    if s.len() == 0 {
        Seq::empty()
    } else {
        let r = user_active_positions_spec(s.drop_last(), user, now);
        let p = s.last();
        if p.user == user && locked(p) && now < p.unlock_timestamp {
            r.push(p)
        } else {
            r
        }
    }
}

/// `user`'s locked, matured positions, as values.
pub open spec fn user_matured_positions_spec(s: Seq<VaultPosition>, user: u128, now: u128) -> Seq<VaultPosition>
    decreases s.len(),
{
    if s.len() == 0 {
        Seq::empty()
    } else {
        let r = user_matured_positions_spec(s.drop_last(), user, now);
        let p = s.last();
        if p.user == user && locked(p) && now >= p.unlock_timestamp {
            r.push(p)
        } else {
            r
        }
    }
}

/// Total stake still locked for `user`.
pub open spec fn user_staked_spec(s: Seq<VaultPosition>, user: u128) -> int
    decreases s.len(),
{
    if s.len() == 0 {
        0
    } else {
        user_staked_spec(s.drop_last(), user) + if s.last().user == user && locked(s.last()) {
            s.last().amount as int
        } else {
            0
        }
    }
}

/// Total power still locked for `user`.
pub open spec fn user_power_spec(s: Seq<VaultPosition>, user: u128) -> int
    decreases s.len(),
{
    if s.len() == 0 {
        0
    } else {
        user_power_spec(s.drop_last(), user) + if s.last().user == user && locked(s.last()) {
            s.last().power as int
        } else {
            0
        }
    }
}

/// One user's locked sums are covered by the vault-wide sums.
pub proof fn lemma_user_sums_le(s: Seq<VaultPosition>, user: u128)
    ensures
        user_staked_spec(s, user) <= sum_locked(s),
        user_power_spec(s, user) <= sum_power(s),
        user_staked_spec(s, user) >= 0,
        user_power_spec(s, user) >= 0,
    decreases s.len(),
{
    if s.len() > 0 {
        lemma_user_sums_le(s.drop_last(), user);
    }
}

/// The locked sums of a prefix are covered by the sums of the whole table.
pub proof fn lemma_vault_sums_take_le(s: Seq<VaultPosition>, i: int)
    requires
        0 <= i <= s.len(),
    ensures
        sum_locked(s.take(i)) <= sum_locked(s),
        sum_power(s.take(i)) <= sum_power(s),
    decreases s.len() - i,
{
    if i == s.len() {
        assert(s.take(i) =~= s);
    } else {
        assert(s.take(i + 1).drop_last() =~= s.take(i));
        assert(s.take(i + 1).last() == s[i]);
        lemma_vault_sums_take_le(s, i + 1);
    }
}

/// The outcome of a best-effort batch claim: each id is attempted in
/// order and independently; claimable positions are claimed and their
/// amounts counted, the rest are skipped.
pub open spec fn claim_multi_spec(m: VaultView, caller: u128, ids: Seq<u128>, now: u128) -> (VaultView, u128, u128)
    decreases ids.len(),
{
    if ids.len() == 0 {
        (m, 0, 0)
    } else {
        let r = claim_multi_spec(m, caller, ids.drop_last(), now);
        let id = ids.last();
        match unlock_check_spec(r.0, caller, id, now) {
            Ok(a) => (unlock_apply_spec(r.0, id), sat_add(r.1, a), sat_add(r.2, 1)),
            Err(_) => r,
        }
    }
}

impl VaultState {
    /// Vault well-formedness, stated on the executable value.
    pub open spec fn wf(&self) -> bool {
        self@.wf()
    }

    /// Sets up a fresh vault: no positions, zero totals.
    pub fn seed(owner: u128, admins: Vec<u128>, vst_token_id: Option<u128>) -> (v: VaultState)
        ensures
            v.wf(),
            v@.owner == owner,
            v@.admins == admins@,
            v@.vst_token_id == vst_token_id,
            v@.total_vst_locked == 0,
            v@.total_power == 0,
            v@.positions =~= Seq::<VaultPosition>::empty(),
    {
        VaultState {
            owner,
            admins,
            vst_token_id,
            total_vst_locked: 0,
            total_power: 0,
            positions: Vec::new(),
        }
    }

    /// The id the next stake will get.
    pub fn next_position_id(&self) -> (r: u128)
        ensures
            r == self@.positions.len() + 1,
    {
        (self.positions.len() as u128) + 1
    }

    /// Whether `who` is a vault administrator.
    pub fn is_admin(&self, who: u128) -> (r: bool)
        ensures
            r == self@.admins.contains(who),
    {
        let n = self.admins.len();
        let mut i: usize = 0;
        while i < n
            invariant
                i <= n,
                n == self.admins@.len(),
                forall|j: int| 0 <= j < i ==> self.admins@[j] != who,
            decreases n - i,
        {
            if self.admins[i] == who {
                return true;
            }
            i += 1;
        }
        false
    }

    /// Grants vault administrator rights. Administrators only, and only to
    /// an account that has none yet.
    pub fn add_admin(&mut self, caller: u128, new_admin: u128) -> (r: Result<(), Error>)
        ensures
            final(self).wf() == old(self).wf(),
            match r {
                Ok(()) => old(self)@.admins.contains(caller)
                    && !old(self)@.admins.contains(new_admin)
                    && final(self)@ == (VaultView { admins: old(self)@.admins.push(new_admin), ..old(self)@ }),
                Err(e) => final(self)@ == old(self)@ && if !old(self)@.admins.contains(caller) {
                    e == Error::InsufficientAdminPrivileges
                } else {
                    old(self)@.admins.contains(new_admin) && e == Error::AdminAlreadyExists
                },
            },
    {
        if !self.is_admin(caller) {
            return Err(Error::InsufficientAdminPrivileges);
        }
        if self.is_admin(new_admin) {
            return Err(Error::AdminAlreadyExists);
        }
        self.admins.push(new_admin);
        Ok(())
    }

    /// Wires up the token contract the vault settles through.
    /// Administrators only.
    pub fn set_vst_token_id(&mut self, caller: u128, vst_token_id: u128) -> (r: Result<(), Error>)
        ensures
            final(self).wf() == old(self).wf(),
            match r {
                Ok(()) => old(self)@.admins.contains(caller)
                    && final(self)@ == (VaultView { vst_token_id: Some(vst_token_id), ..old(self)@ }),
                Err(e) => final(self)@ == old(self)@ && !old(self)@.admins.contains(caller)
                    && e == Error::InsufficientAdminPrivileges,
            },
    {
        if !self.is_admin(caller) {
            return Err(Error::InsufficientAdminPrivileges);
        }
        self.vst_token_id = Some(vst_token_id);
        Ok(())
    }

    /// Validates a stake and names the token amount the host owes the
    /// vault before committing.
    pub fn stake_vst_check(&self, amount: u128, conviction_level: ConvictionLevel, now: u128) -> (r: Result<
        u128,
        Error,
    >)
        ensures
            r == stake_check_spec(self@, amount, conviction_level, now),
    {
        if amount == 0 {
            return Err(Error::ZeroAmount);
        }
        if self.vst_token_id.is_none() {
            return Err(Error::TokenNotConfigured);
        }
        let multiplier = conviction_level.multiplier();
        let raw_power = match amount.checked_mul(multiplier) {
            Some(p) => p,
            None => {
                return Err(Error::ArithmeticOverflow);
            },
        };
        let duration_ms = conviction_level.duration_seconds() * 1000;
        if now.checked_add(duration_ms).is_none() {
            return Err(Error::ArithmeticOverflow);
        }
        if self.total_vst_locked.checked_add(amount).is_none() {
            return Err(Error::ArithmeticOverflow);
        }
        if self.total_power.checked_add(raw_power / 100).is_none() {
            return Err(Error::ArithmeticOverflow);
        }
        Ok(amount)
    }

    /// Commits a stake of `amount` at `conviction_level` by `user`, after
    /// the host confirmed the transfer into the vault: creates the
    /// position and grows the totals. Returns the created position.
    pub fn stake_vst(&mut self, user: u128, amount: u128, conviction_level: ConvictionLevel, now: u128) -> (r:
        Result<VaultPosition, Error>)
        requires
            old(self).wf(),
        ensures
            final(self).wf(),
            match r {
                Ok(p) => stake_check_spec(old(self)@, amount, conviction_level, now) == Ok::<u128, Error>(amount)
                    && p == new_position_spec(old(self)@, user, amount, conviction_level, now)
                    && final(self)@ == stake_apply_spec(old(self)@, user, amount, conviction_level, now),
                Err(e) => stake_check_spec(old(self)@, amount, conviction_level, now) == Err::<u128, Error>(e)
                    && final(self)@ == old(self)@,
            },
    {
        if amount == 0 {
            return Err(Error::ZeroAmount);
        }
        if self.vst_token_id.is_none() {
            return Err(Error::TokenNotConfigured);
        }
        let multiplier = conviction_level.multiplier();
        let raw_power = match amount.checked_mul(multiplier) {
            Some(p) => p,
            None => {
                return Err(Error::ArithmeticOverflow);
            },
        };
        let power = raw_power / 100;
        let duration_ms = conviction_level.duration_seconds() * 1000;
        let unlock_timestamp = match now.checked_add(duration_ms) {
            Some(t) => t,
            None => {
                return Err(Error::ArithmeticOverflow);
            },
        };
        let new_locked = match self.total_vst_locked.checked_add(amount) {
            Some(t) => t,
            None => {
                return Err(Error::ArithmeticOverflow);
            },
        };
        let new_power = match self.total_power.checked_add(power) {
            Some(t) => t,
            None => {
                return Err(Error::ArithmeticOverflow);
            },
        };
        let position = VaultPosition {
            id: (self.positions.len() as u128) + 1,
            user,
            amount,
            conviction_level,
            multiplier,
            power,
            start_timestamp: now,
            unlock_timestamp,
            is_active: true,
            claimed: false,
        };
        self.positions.push(position);
        self.total_vst_locked = new_locked;
        self.total_power = new_power;
        proof {
            lemma_vault_sums_push(old(self)@.positions, position);
            assert(self@ =~= stake_apply_spec(old(self)@, user, amount, conviction_level, now));
        }
        Ok(position)
    }

    /// Validates a claim and names the token amount the host owes the
    /// caller before committing.
    pub fn unlock_and_claim_position_check(&self, caller: u128, position_id: u128, now: u128) -> (r: Result<
        u128,
        Error,
    >)
        ensures
            r == unlock_check_spec(self@, caller, position_id, now),
    {
        if position_id == 0 || position_id > self.positions.len() as u128 {
            return Err(Error::PositionNotFound);
        }
        let i = (position_id - 1) as usize;
        let p = self.positions[i];
        if p.user != caller {
            return Err(Error::NotPositionOwner);
        }
        if p.claimed {
            return Err(Error::PositionAlreadyClaimed);
        }
        if !p.is_active {
            return Err(Error::PositionInactive);
        }
        if now < p.unlock_timestamp {
            return Err(Error::PositionNotMatured);
        }
        if self.vst_token_id.is_none() {
            return Err(Error::TokenNotConfigured);
        }
        Ok(p.amount)
    }

    /// Commits a claim of `position_id` by `caller`, after the host
    /// confirmed the stake was transferred back: flips the position to
    /// claimed and takes its stake and power out of the totals.
    pub fn unlock_and_claim_position(&mut self, caller: u128, position_id: u128, now: u128) -> (r: Result<
        (),
        Error,
    >)
        requires
            old(self).wf(),
        ensures
            final(self).wf(),
            match r {
                Ok(()) => unlock_check_spec(old(self)@, caller, position_id, now)
                    == Ok::<u128, Error>(old(self)@.positions[position_id - 1].amount)
                    && final(self)@ == unlock_apply_spec(old(self)@, position_id),
                Err(e) => unlock_check_spec(old(self)@, caller, position_id, now) == Err::<u128, Error>(e)
                    && final(self)@ == old(self)@,
            },
    {
        if position_id == 0 || position_id > self.positions.len() as u128 {
            return Err(Error::PositionNotFound);
        }
        let i = (position_id - 1) as usize;
        let p = self.positions[i];
        if p.user != caller {
            return Err(Error::NotPositionOwner);
        }
        if p.claimed {
            return Err(Error::PositionAlreadyClaimed);
        }
        if !p.is_active {
            return Err(Error::PositionInactive);
        }
        if now < p.unlock_timestamp {
            return Err(Error::PositionNotMatured);
        }
        if self.vst_token_id.is_none() {
            return Err(Error::TokenNotConfigured);
        }
        let p2 = VaultPosition { is_active: false, claimed: true, ..p };
        self.positions[i] = p2;
        proof {
            lemma_vault_sums_element(old(self)@.positions, i as int);
        }
        self.total_vst_locked = self.total_vst_locked.saturating_sub(p.amount);
        self.total_power = self.total_power.saturating_sub(p.power);
        proof {
            lemma_vault_sums_update(old(self)@.positions, i as int, p2);
            assert(self@ =~= unlock_apply_spec(old(self)@, position_id));
        }
        Ok(())
    }

    /// Best-effort batch claim: attempts each id independently through the
    /// single-claim operation and reports the total amount claimed and the
    /// number of positions claimed, without failing the batch on a bad id.
    /// The host owes the caller each claimed amount; a host whose transfer
    /// can fail should drive single claims through the check and commit
    /// pair instead.
    pub fn claim_multiple_positions(&mut self, caller: u128, position_ids: &Vec<u128>, now: u128) -> (r: (
        u128,
        u128,
    ))
        requires
            old(self).wf(),
        ensures
            final(self).wf(),
            ({
                let t = claim_multi_spec(old(self)@, caller, position_ids@, now);
                &&& final(self)@ == t.0
                &&& r.0 == t.1
                &&& r.1 == t.2
            }),
    {
        let ghost m0 = self@;
        let ghost ids = position_ids@;
        let mut total: u128 = 0;
        let mut count: u128 = 0;
        let n = position_ids.len();
        let mut k: usize = 0;
        while k < n
            invariant
                k <= n,
                n == ids.len(),
                position_ids@ == ids,
                self.wf(),
                ({
                    let t = claim_multi_spec(m0, caller, ids.take(k as int), now);
                    &&& self@ == t.0
                    &&& total == t.1
                    &&& count == t.2
                }),
            decreases n - k,
        {
            proof {
                assert(ids.take(k + 1).drop_last() =~= ids.take(k as int));
                assert(ids.take(k + 1).last() == ids[k as int]);
            }
            let id = position_ids[k];
            match self.unlock_and_claim_position_check(caller, id, now) {
                Ok(a) => {
                    let _ = self.unlock_and_claim_position(caller, id, now);
                    total = total.saturating_add(a);
                    count = count.saturating_add(1);
                },
                Err(_) => {},
            }
            k += 1;
        }
        proof {
            assert(ids.take(n as int) =~= ids);
        }
        (total, count)
    }

    /// The position with the given id, when it exists.
    pub fn position_details(&self, position_id: u128) -> (r: Option<VaultPosition>)
        ensures
            r == if 1 <= position_id <= self@.positions.len() {
                Some(self@.positions[position_id - 1])
            } else {
                None::<VaultPosition>
            },
    {
        if position_id == 0 || position_id > self.positions.len() as u128 {
            return None;
        }
        let i = (position_id - 1) as usize;
        Some(self.positions[i])
    }

    /// The vault-wide totals and the number of still-locked positions.
    pub fn global_stats(&self) -> (r: GlobalVaultStats)
        ensures
            r.total_vst_locked == self@.total_vst_locked,
            r.total_power == self@.total_power,
            r.active_positions_count == count_locked(self@.positions),
    {
        let n = self.positions.len();
        let mut active: usize = 0;
        let mut i: usize = 0;
        while i < n
            invariant
                i <= n,
                n == self.positions@.len(),
                active <= i,
                active == count_locked(self.positions@.take(i as int)),
            decreases n - i,
        {
            proof {
                assert(self.positions@.take(i + 1).drop_last() =~= self.positions@.take(i as int));
                assert(self.positions@.take(i + 1).last() == self.positions@[i as int]);
            }
            let p = self.positions[i];
            if p.is_active && !p.claimed {
                active += 1;
            }
            i += 1;
        }
        proof {
            assert(self.positions@.take(n as int) =~= self.positions@);
        }
        GlobalVaultStats {
            total_vst_locked: self.total_vst_locked,
            total_power: self.total_power,
            active_positions_count: active as u128,
        }
    }

    /// Whole seconds until the position unlocks; zero once it has, or when
    /// no such position exists.
    pub fn time_until_unlock(&self, position_id: u128, now: u128) -> (r: u128)
        ensures
            r == if 1 <= position_id <= self@.positions.len()
                && now < self@.positions[position_id - 1].unlock_timestamp {
                ((self@.positions[position_id - 1].unlock_timestamp - now) / 1000) as u128
            } else {
                0
            },
    {
        if position_id == 0 || position_id > self.positions.len() as u128 {
            return 0;
        }
        let i = (position_id - 1) as usize;
        let p = self.positions[i];
        if now >= p.unlock_timestamp {
            0
        } else {
            (p.unlock_timestamp - now) / 1000
        }
    }

    /// The user's aggregate view, recomputed from the position table and
    /// the clock: still-locked totals, the ids of locked positions split
    /// into not-yet-matured and matured, and the full id history.
    pub fn user_vault_info(&self, user: u128, now: u128) -> (r: UserVaultInfo)
        requires
            self.wf(),
        ensures
            r.total_staked_vst == user_staked_spec(self@.positions, user),
            r.total_power == user_power_spec(self@.positions, user),
            r.active_positions@ == user_active_ids_spec(self@.positions, user, now),
            r.matured_positions@ == user_matured_ids_spec(self@.positions, user, now),
            r.position_history@ == user_history_spec(self@.positions, user),
    {
        let ghost s = self@.positions;
        let n = self.positions.len();
        let mut total_staked_vst: u128 = 0;
        let mut total_power: u128 = 0;
        let mut active_positions: Vec<u128> = Vec::new();
        let mut matured_positions: Vec<u128> = Vec::new();
        let mut position_history: Vec<u128> = Vec::new();
        let mut i: usize = 0;
        while i < n
            invariant
                i <= n,
                n == s.len(),
                self@.positions == s,
                self.wf(),
                total_staked_vst == user_staked_spec(s.take(i as int), user),
                total_power == user_power_spec(s.take(i as int), user),
                active_positions@ == user_active_ids_spec(s.take(i as int), user, now),
                matured_positions@ == user_matured_ids_spec(s.take(i as int), user, now),
                position_history@ == user_history_spec(s.take(i as int), user),
            decreases n - i,
        {
            proof {
                assert(s.take(i + 1).drop_last() =~= s.take(i as int));
                assert(s.take(i + 1).last() == s[i as int]);
                lemma_user_sums_le(s.take(i + 1), user);
                lemma_vault_sums_take_le(s, i + 1);
                lemma_user_sums_le(s.take(i as int), user);
            }
            let p = self.positions[i];
            if p.user == user {
                position_history.push(p.id);
                if p.is_active && !p.claimed {
                    total_staked_vst = total_staked_vst + p.amount;
                    total_power = total_power + p.power;
                    if now < p.unlock_timestamp {
                        active_positions.push(p.id);
                    } else {
                        matured_positions.push(p.id);
                    }
                }
            }
            i += 1;
        }
        proof {
            assert(s.take(n as int) =~= s);
        }
        UserVaultInfo {
            total_staked_vst,
            total_power,
            active_positions,
            matured_positions,
            position_history,
        }
    }

    /// All of the user's positions, for a history view.
    pub fn user_positions(&self, user: u128) -> (r: Vec<VaultPosition>)
        ensures
            r@ == user_positions_spec(self@.positions, user),
    {
        let ghost s = self@.positions;
        let n = self.positions.len();
        let mut r: Vec<VaultPosition> = Vec::new();
        let mut i: usize = 0;
        while i < n
            invariant
                i <= n,
                n == s.len(),
                self@.positions == s,
                r@ == user_positions_spec(s.take(i as int), user),
            decreases n - i,
        {
            proof {
                assert(s.take(i + 1).drop_last() =~= s.take(i as int));
                assert(s.take(i + 1).last() == s[i as int]);
            }
            let p = self.positions[i];
            if p.user == user {
                r.push(p);
            }
            i += 1;
        }
        proof {
            assert(s.take(n as int) =~= s);
        }
        r
    }

    /// The user's locked positions that have not matured yet.
    pub fn user_active_positions(&self, user: u128, now: u128) -> (r: Vec<VaultPosition>)
        ensures
            r@ == user_active_positions_spec(self@.positions, user, now),
    {
        let ghost s = self@.positions;
        let n = self.positions.len();
        let mut r: Vec<VaultPosition> = Vec::new();
        let mut i: usize = 0;
        while i < n
            invariant
                i <= n,
                n == s.len(),
                self@.positions == s,
                r@ == user_active_positions_spec(s.take(i as int), user, now),
            decreases n - i,
        {
            proof {
                assert(s.take(i + 1).drop_last() =~= s.take(i as int));
                assert(s.take(i + 1).last() == s[i as int]);
            }
            let p = self.positions[i];
            if p.user == user && p.is_active && !p.claimed && now < p.unlock_timestamp {
                r.push(p);
            }
            i += 1;
        }
        proof {
            assert(s.take(n as int) =~= s);
        }
        r
    }

    /// The user's locked positions that are ready to claim.
    pub fn user_matured_positions(&self, user: u128, now: u128) -> (r: Vec<VaultPosition>)
        ensures
            r@ == user_matured_positions_spec(self@.positions, user, now),
    {
        let ghost s = self@.positions;
        let n = self.positions.len();
        let mut r: Vec<VaultPosition> = Vec::new();
        let mut i: usize = 0;
        while i < n
            invariant
                i <= n,
                n == s.len(),
                self@.positions == s,
                r@ == user_matured_positions_spec(s.take(i as int), user, now),
            decreases n - i,
        {
            proof {
                assert(s.take(i + 1).drop_last() =~= s.take(i as int));
                assert(s.take(i + 1).last() == s[i as int]);
            }
            let p = self.positions[i];
            if p.user == user && p.is_active && !p.claimed && now >= p.unlock_timestamp {
                r.push(p);
            }
            i += 1;
        }
        proof {
            assert(s.take(n as int) =~= s);
        }
        r
    }

    /// The user's total still-locked power.
    pub fn user_total_power(&self, user: u128, now: u128) -> (r: u128)
        requires
            self.wf(),
        ensures
            r == user_power_spec(self@.positions, user),
    {
        let info = self.user_vault_info(user, now);
        info.total_power
    }

    /// The user's total still-locked stake.
    pub fn user_total_staked(&self, user: u128, now: u128) -> (r: u128)
        requires
            self.wf(),
        ensures
            r == user_staked_spec(self@.positions, user),
    {
        let info = self.user_vault_info(user, now);
        info.total_staked_vst
    }
}

} // verus!
