//! The domain events appended by each successfully committed pool operation.

use vstd::prelude::*;

verus! {

/// One entry of the append-only event log. Each successful operation appends
/// exactly one event carrying the accounts, assets and amounts involved.
#[derive(Clone, Copy, Debug, PartialEq, Eq, Structural)]
pub enum Event {
    /// A pool was created at `pool_account` by `creator`.
    PoolCreated { creator: u64, pool_account: u64, first_asset: u64, second_asset: u64 },
    /// `operator` swapped `first_asset_amount` of `first_asset` for
    /// `second_asset_amount` of `second_asset` against the pool.
    Swapped {
        operator: u64,
        pool_account: u64,
        first_asset: u64,
        first_asset_amount: u64,
        second_asset: u64,
        second_asset_amount: u64,
    },
    /// `operator` added liquidity: the supplied asset and the derived
    /// counterpart amount of the other asset.
    Deposited {
        operator: u64,
        pool_account: u64,
        first_asset: u64,
        first_asset_amount: u64,
        second_asset: u64,
        second_asset_amount: u64,
    },
    /// `operator` removed liquidity: the requested asset amount and the
    /// derived counterpart amount of the other asset.
    Withdrawed {
        operator: u64,
        pool_account: u64,
        first_asset: u64,
        first_asset_amount: u64,
        second_asset: u64,
        second_asset_amount: u64,
    },
}

} // verus!
