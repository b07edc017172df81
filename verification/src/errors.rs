//! The error taxonomy of the pool operations, and the transfer errors of the
//! token ledger interface.

use vstd::prelude::*;

verus! {

/// Why a pool operation was refused. Every failure is fatal to the call:
/// nothing is retried and no partial state change survives.
#[derive(Clone, Copy, Debug, PartialEq, Eq, Structural)]
pub enum Error {
    /// A checked arithmetic step failed: overflow, underflow, or a division
    /// by an invalid divisor. Withdrawing more than a provider's shares cover
    /// also surfaces as this error, through the checked subtraction.
    Overflow,
    /// A zero amount was passed to `init`, `swap_token` or `deposit`.
    DepositingZeroAmount,
    /// A zero amount was passed to `withdraw`.
    WithdrawingZeroAmount,
    /// `init` targeted an address that already hosts a pool.
    PoolAlreadyExists,
    /// The operation referenced a pool address with no registry entry, or a
    /// pool whose total-share record is missing or zero.
    NoSuchPool,
    /// The caller lacks sufficient balance of a required asset.
    NotEnoughBalance,
    /// The supplied asset id is not one of the pool's two assets.
    NoSuchTokenInPool,
    /// One or both of the pool's live asset balances is zero or missing.
    EmptyPool,
    /// `init` was called with the same asset id on both sides.
    SameAssetPool,
}

/// Why the token ledger refused a transfer.
#[derive(Clone, Copy, Debug, PartialEq, Eq, Structural)]
pub enum TransferError {
    /// The authorizer may not move the source account's funds.
    NotAuthorized,
    /// The source account has no record of the asset, or not enough of it.
    InsufficientBalance,
    /// Crediting the destination would overflow its balance.
    BalanceOverflow,
}

} // verus!
