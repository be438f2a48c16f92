//! The reasons for which an exchange is rejected.

use vstd::prelude::*;

verus! {

/// Why a call was rejected. A rejected call reports exactly one of these.
#[derive(Clone, Copy, Debug, PartialEq, Eq, Structural)]
pub enum AmmError {
    /// The pool's lock flag is set.
    PoolLocked,
    /// The input amount is zero.
    InvalidAmount,
    /// The priced output is below the caller's minimum.
    SlippageExceeded,
    /// The source account holds less than the amount to move.
    InsufficientFunds,
    /// The authorizer is not the owning authority of the source account.
    Unauthorized,
    /// Two accounts that must hold the same asset do not.
    MintMismatch,
    /// A quantity left the range of the integers that hold it.
    ArithmeticOverflow,
    /// One of the pool's reserves is empty.
    DivisionByZero,
}

} // verus!
