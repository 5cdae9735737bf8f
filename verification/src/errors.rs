//! Typed errors and operation events.

use vstd::prelude::*;

verus! {

/// Everything a ledger operation can be refused for.
///
/// Business errors are returned to the caller as values, never raised as
/// panics; the host maps `TransferFailed` onto an operation whose external
/// token transfer did not confirm, in which case no commit takes place.
#[derive(Clone, Copy, PartialEq, Eq, Structural, Debug)]
pub enum Error {
    /// The requested amount was zero.
    ZeroAmount,
    /// The amount breaks a balance, cap, ceiling, or minimum rule.
    InvalidAmount,
    /// The acting account has no ledger row.
    UserNotFound,
    /// The external token transfer did not confirm success.
    TransferFailed,
    /// The rewards pool cannot cover the withdrawal.
    InsufficientRewardsPool,
    /// The withdrawable rewards are below the configured minimum.
    InsufficientUserRewards,
    /// The caller is not an administrator.
    InsufficientAdminPrivileges,
    /// The account is already an administrator.
    AdminAlreadyExists,
    /// The account is not an administrator.
    AdminDoesNotExist,
    /// A checked addition or multiplication would overflow.
    ArithmeticOverflow,
    /// No token contract has been configured for the vault or pool.
    TokenNotConfigured,
    /// No vault position has the given id.
    PositionNotFound,
    /// The caller does not own the vault position.
    NotPositionOwner,
    /// The vault position has not reached its unlock time.
    PositionNotMatured,
    /// The vault position was already claimed.
    PositionAlreadyClaimed,
    /// The vault position is not active.
    PositionInactive,
}

} // verus!
