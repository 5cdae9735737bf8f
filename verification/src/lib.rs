//! A collateralized lending and liquidity-staking ledger.
//!
//! Users supply a fungible asset to a shared pool and earn time-prorated
//! yield; they lock native value as collateral and borrow against it up to
//! a loan-to-value ceiling; positions at or above the ceiling are
//! liquidated. An independent vault locks a governance token for a fixed
//! conviction duration in exchange for a voting-power multiplier.
//!
//! The engine here is pure accounting: every operation is a function from
//! the current state and plain inputs (caller, amount, clock reading) to a
//! new state and a result. Operations that owe an external token transfer
//! are split in two phases, following the discipline that state is mutated
//! only after the transfer collaborator confirms success: a `*_check`
//! function validates and names the amount owed, and the operation itself
//! re-validates and commits the mutation. The host performs the transfer
//! between the two calls and simply skips the commit when it fails, so a
//! failed transfer leaves the ledger untouched.

use vstd::prelude::*;

pub mod account;
pub mod borrow;
pub mod config;
pub mod errors;
pub mod events;
pub mod pool;
pub mod rate;
pub mod supply;
pub mod vault;

verus! {

/// Saturating addition on `u128`, as a specification value.
pub open spec fn sat_add(a: u128, b: u128) -> u128 {
    if a + b > u128::MAX {
        u128::MAX
    } else {
        (a + b) as u128
    }
}

/// Saturating subtraction on `u128`, as a specification value.
pub open spec fn sat_sub(a: u128, b: u128) -> u128 {
    if a < b {
        0
    } else {
        (a - b) as u128
    }
}

/// Saturating multiplication on `u128`, as a specification value.
pub open spec fn sat_mul(a: u128, b: u128) -> u128 {
    if a * b > u128::MAX {
        u128::MAX
    } else {
        (a * b) as u128
    }
}

/// Saturating multiplication, executable counterpart of `sat_mul`.
pub fn saturating_mul(a: u128, b: u128) -> (r: u128)
    ensures
        r == sat_mul(a, b),
{
    match a.checked_mul(b) {
        Some(p) => p,
        None => u128::MAX,
    }
}

} // verus!
