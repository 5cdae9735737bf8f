//! Operation events and host-dispatched actions.

use vstd::prelude::*;

verus! {

/// The outcome of a successful lending-pool operation, as reported to the
/// host. Amounts are in asset units unless noted otherwise.
#[derive(Clone, Copy, PartialEq, Eq, Structural, Debug)]
pub enum LiquidityEvent {
    /// The pool was set up.
    Initialized,
    /// Liquidity was deposited.
    Deposited(u128),
    /// Liquidity was withdrawn.
    LiquidityWithdrawn(u128),
    /// Accrued rewards were paid out.
    RewardsWithdrawn(u128),
    /// An administrator overrode the total borrowed.
    TotalBorrowedModified(u128),
    /// An administrator replenished the rewards pool.
    AvailableRewardsPoolModified(u128),
    /// Native collateral was deposited, in native value.
    DepositedVara(u128),
    /// Native collateral was withdrawn, in whole native units.
    WithdrawnVara(u128),
    /// A loan was taken.
    LoanTaken(u128),
    /// A loan was repaid.
    LoanPayed(u128),
    /// The token contract was wired up.
    VFTseted(u128),
}

/// The liquidity actions a host can dispatch in one message, with amounts
/// in asset units. The dispatcher commits them, so the host performs the
/// owed transfer first.
#[derive(Clone, Copy, PartialEq, Eq, Structural, Debug)]
pub enum LiquidityAction {
    /// Supply liquidity.
    Deposit(u128),
    /// Withdraw supplied liquidity.
    WithdrawLiquidity(u128),
    /// Withdraw accrued rewards.
    WithdrawRewards,
    /// Override the total borrowed.
    ModifyTotalBorrowed(u128),
    /// Replenish the rewards pool.
    ModifyAvailableRewardsPool(u128),
}

} // verus!
