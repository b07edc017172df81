//! The functional model of the pool operations.
//!
//! [`State`] is everything an operation can observe or change: the pool
//! registry, the share ledger, the per-pool share totals, the token ledger's
//! balances and the event log. Each operation has a spec function here that
//! maps a pre-state to either the exact post-state or the exact error, with
//! the same checks in the same order as the executable code; the executable
//! operations ensure they return and mutate precisely what these functions
//! say. A failed operation leaves the state untouched — the checks all happen
//! before the first write, so there is never a partial effect to roll back.

use vstd::prelude::*;

use crate::errors::Error;
use crate::errors::TransferError;
use crate::events::Event;
use crate::ledger::funded;
use crate::ledger::transfer_outcome;
use crate::pair_table::entry_or_zero;

verus! {

/// The observable state of the exchange and its token ledger.
///
/// `pools` maps a pool address to `(first asset, second asset, cached
/// invariant)`; `shares` maps (pool address, provider) to the provider's
/// share balance; `totals` maps a pool address to the total of all shares
/// issued for it; `balances` maps (asset id, account) to the token ledger's
/// balance records; `events` is the append-only event log.
#[verifier::ext_equal]
pub ghost struct State {
    pub pools: Map<u64, (u64, u64, u64)>,
    pub shares: Map<(u64, u64), u64>,
    pub totals: Map<u64, u64>,
    pub balances: Map<(u64, u64), u64>,
    pub events: Seq<Event>,
}

/// The pool's other asset, for a `token_id` that is one of the pool's two.
pub open spec fn other_asset(first: u64, second: u64, token_id: u64) -> u64 {
    if token_id == first {
        second
    } else {
        first
    }
}

/// How a refused ledger transfer surfaces in the error taxonomy: a missing
/// or short balance is `NotEnoughBalance`, anything else `Overflow`.
pub open spec fn transfer_error(e: TransferError) -> Error {
    match e {
        TransferError::InsufficientBalance => Error::NotEnoughBalance,
        TransferError::NotAuthorized => Error::Overflow,
        TransferError::BalanceOverflow => Error::Overflow,
    }
}

/// The constant-product pricing formula with the fee taken on the output:
/// the amount of the destination asset a swap pays out.
pub open spec fn swap_output(
    constant: int,
    origin_balance: int,
    dest_balance: int,
    amount: int,
    hundred_percent_minus_fee: int,
    hundred_percent: int,
) -> int {
    (dest_balance - constant / (origin_balance + amount)) * hundred_percent_minus_fee
        / hundred_percent
}

/// What `init` does: create a pool at `pool_address` holding `amount_1` of
/// `asset_1` and `amount_2` of `asset_2` taken from `creator`, cache the
/// product of the two amounts as the pool's invariant, and grant the creator
/// the fixed default share amount, which also becomes the pool's share
/// total.
pub open spec fn spec_init(
    s: State,
    default_share: u64,
    creator: u64,
    pool_address: u64,
    asset_1: u64,
    amount_1: u64,
    asset_2: u64,
    amount_2: u64,
) -> Result<State, Error> {
    if amount_1 == 0 || amount_2 == 0 {
        Err(Error::DepositingZeroAmount)
    } else if s.pools.contains_key(pool_address) {
        Err(Error::PoolAlreadyExists)
    } else if asset_1 == asset_2 {
        Err(Error::SameAssetPool)
    } else if !funded(s.balances, asset_1, creator, amount_1) {
        Err(Error::NotEnoughBalance)
    } else if !funded(s.balances, asset_2, creator, amount_2) {
        Err(Error::NotEnoughBalance)
    } else if amount_1 * amount_2 > u64::MAX {
        Err(Error::Overflow)
    } else {
        match transfer_outcome(s.balances, creator, pool_address, asset_1, amount_1) {
            Err(e) => Err(transfer_error(e)),
            Ok(m1) => match transfer_outcome(m1, creator, pool_address, asset_2, amount_2) {
                Err(e) => Err(transfer_error(e)),
                Ok(m2) => Ok(
                    State {
                        pools: s.pools.insert(
                            pool_address,
                            (asset_1, asset_2, (amount_1 * amount_2) as u64),
                        ),
                        shares: s.shares.insert((pool_address, creator), default_share),
                        totals: s.totals.insert(pool_address, default_share),
                        balances: m2,
                        events: s.events.push(
                            Event::PoolCreated {
                                creator,
                                pool_account: pool_address,
                                first_asset: asset_1,
                                second_asset: asset_2,
                            },
                        ),
                    },
                ),
            },
        }
    }
}

/// What `swap_token` does: price `amount` of `token_id` against the pool's
/// cached invariant and live balances, take the fee on the output, move the
/// input from the operator to the pool and the output back. The cached
/// invariant is deliberately not rewritten (see the notes at the crate
/// root).
pub open spec fn spec_swap(
    s: State,
    hundred_percent_minus_fee: u64,
    hundred_percent: u64,
    operator: u64,
    pool_address: u64,
    token_id: u64,
    amount: u64,
) -> Result<State, Error> {
    if amount == 0 {
        Err(Error::DepositingZeroAmount)
    } else if !s.pools.contains_key(pool_address) {
        Err(Error::NoSuchPool)
    } else if !funded(s.balances, token_id, operator, amount) {
        Err(Error::NotEnoughBalance)
    } else {
        let first = s.pools[pool_address].0;
        let second = s.pools[pool_address].1;
        let constant = s.pools[pool_address].2;
        if token_id != first && token_id != second {
            Err(Error::NoSuchTokenInPool)
        } else {
            let other = other_asset(first, second, token_id);
            if !s.balances.contains_key((token_id, pool_address)) || !s.balances.contains_key(
                (other, pool_address),
            ) {
                Err(Error::EmptyPool)
            } else {
                let origin_balance = s.balances[(token_id, pool_address)] as int;
                let dest_balance = s.balances[(other, pool_address)] as int;
                if origin_balance == 0 || dest_balance == 0 {
                    Err(Error::EmptyPool)
                } else if origin_balance + amount > u64::MAX {
                    Err(Error::Overflow)
                } else {
                    let partial = constant as int / (origin_balance + amount);
                    if dest_balance < partial {
                        Err(Error::Overflow)
                    } else if (dest_balance - partial) * hundred_percent_minus_fee > u64::MAX {
                        Err(Error::Overflow)
                    } else if hundred_percent == 0 {
                        Err(Error::Overflow)
                    } else {
                        let out = swap_output(
                            constant as int,
                            origin_balance,
                            dest_balance,
                            amount as int,
                            hundred_percent_minus_fee as int,
                            hundred_percent as int,
                        );
                        match transfer_outcome(s.balances, operator, pool_address, token_id, amount) {
                            Err(e) => Err(transfer_error(e)),
                            Ok(m1) => match transfer_outcome(
                                m1,
                                pool_address,
                                operator,
                                other,
                                out as u64,
                            ) {
                                Err(e) => Err(transfer_error(e)),
                                Ok(m2) => Ok(
                                    State {
                                        pools: s.pools,
                                        shares: s.shares,
                                        totals: s.totals,
                                        balances: m2,
                                        events: s.events.push(
                                            Event::Swapped {
                                                operator,
                                                pool_account: pool_address,
                                                first_asset: token_id,
                                                first_asset_amount: amount,
                                                second_asset: other,
                                                second_asset_amount: out as u64,
                                            },
                                        ),
                                    },
                                ),
                            },
                        }
                    }
                }
            }
        }
    }
}

/// What `deposit` does: add `amount` of `token_id` plus the derived
/// counterpart amount of the other asset — keeping the pool's asset ratio —
/// grant the operator shares in proportion to the pool's share total, and
/// resynchronize the cached invariant with the live balances.
pub open spec fn spec_deposit(
    s: State,
    operator: u64,
    pool_address: u64,
    token_id: u64,
    amount: u64,
) -> Result<State, Error> {
    if amount == 0 {
        Err(Error::DepositingZeroAmount)
    } else if !s.pools.contains_key(pool_address) {
        Err(Error::NoSuchPool)
    } else if !funded(s.balances, token_id, operator, amount) {
        Err(Error::NotEnoughBalance)
    } else {
        let first = s.pools[pool_address].0;
        let second = s.pools[pool_address].1;
        if token_id != first && token_id != second {
            Err(Error::NoSuchTokenInPool)
        } else {
            let other = other_asset(first, second, token_id);
            if !s.balances.contains_key((token_id, pool_address)) || !s.balances.contains_key(
                (other, pool_address),
            ) {
                Err(Error::EmptyPool)
            } else {
                let origin_balance = s.balances[(token_id, pool_address)] as int;
                let dest_balance = s.balances[(other, pool_address)] as int;
                if origin_balance == 0 || dest_balance == 0 {
                    Err(Error::EmptyPool)
                } else if amount * dest_balance > u64::MAX {
                    Err(Error::Overflow)
                } else {
                    let counterpart = amount * dest_balance / origin_balance;
                    if !funded(s.balances, other, operator, counterpart as u64) {
                        Err(Error::NotEnoughBalance)
                    } else if !s.totals.contains_key(pool_address) || s.totals[pool_address] == 0 {
                        Err(Error::NoSuchPool)
                    } else {
                        let total = s.totals[pool_address] as int;
                        let held = entry_or_zero(s.shares, pool_address, operator);
                        if amount * total > u64::MAX {
                            Err(Error::Overflow)
                        } else {
                            let delta = amount * total / origin_balance;
                            if total + delta > u64::MAX {
                                Err(Error::Overflow)
                            } else if held + delta > u64::MAX {
                                Err(Error::Overflow)
                            } else {
                                match transfer_outcome(
                                    s.balances,
                                    operator,
                                    pool_address,
                                    token_id,
                                    amount,
                                ) {
                                    Err(e) => Err(transfer_error(e)),
                                    Ok(m1) => match transfer_outcome(
                                        m1,
                                        operator,
                                        pool_address,
                                        other,
                                        counterpart as u64,
                                    ) {
                                        Err(e) => Err(transfer_error(e)),
                                        Ok(m2) => {
                                            let live_origin = entry_or_zero(
                                                m2,
                                                token_id,
                                                pool_address,
                                            );
                                            let live_dest = entry_or_zero(m2, other, pool_address);
                                            if live_origin * live_dest > u64::MAX {
                                                Err(Error::Overflow)
                                            } else {
                                                Ok(
                                                    State {
                                                        pools: s.pools.insert(
                                                            pool_address,
                                                            (
                                                                first,
                                                                second,
                                                                (live_origin * live_dest) as u64,
                                                            ),
                                                        ),
                                                        shares: s.shares.insert(
                                                            (pool_address, operator),
                                                            (held + delta) as u64,
                                                        ),
                                                        totals: s.totals.insert(
                                                            pool_address,
                                                            (total + delta) as u64,
                                                        ),
                                                        balances: m2,
                                                        events: s.events.push(
                                                            Event::Deposited {
                                                                operator,
                                                                pool_account: pool_address,
                                                                first_asset: token_id,
                                                                first_asset_amount: amount,
                                                                second_asset: other,
                                                                second_asset_amount: counterpart
                                                                    as u64,
                                                            },
                                                        ),
                                                    },
                                                )
                                            }
                                        },
                                    },
                                }
                            }
                        }
                    }
                }
            }
        }
    }
}

/// What `withdraw` does: pay out `amount` of `token_id` plus the derived
/// counterpart amount of the other asset, burn the operator's shares in
/// proportion to the pool's share total — refusing, through the checked
/// subtraction, a withdrawal worth more than the operator's shares — and
/// resynchronize the cached invariant with the live balances.
pub open spec fn spec_withdraw(
    s: State,
    operator: u64,
    pool_address: u64,
    token_id: u64,
    amount: u64,
) -> Result<State, Error> {
    if amount == 0 {
        Err(Error::WithdrawingZeroAmount)
    } else if !s.pools.contains_key(pool_address) {
        Err(Error::NoSuchPool)
    } else {
        let first = s.pools[pool_address].0;
        let second = s.pools[pool_address].1;
        if token_id != first && token_id != second {
            Err(Error::NoSuchTokenInPool)
        } else {
            let other = other_asset(first, second, token_id);
            if !s.balances.contains_key((token_id, pool_address)) || !s.balances.contains_key(
                (other, pool_address),
            ) {
                Err(Error::EmptyPool)
            } else {
                let origin_balance = s.balances[(token_id, pool_address)] as int;
                let dest_balance = s.balances[(other, pool_address)] as int;
                if origin_balance == 0 || dest_balance == 0 {
                    Err(Error::EmptyPool)
                } else if amount * dest_balance > u64::MAX {
                    Err(Error::Overflow)
                } else {
                    let counterpart = amount * dest_balance / origin_balance;
                    if !s.totals.contains_key(pool_address) || s.totals[pool_address] == 0 {
                        Err(Error::NoSuchPool)
                    } else {
                        let total = s.totals[pool_address] as int;
                        let held = entry_or_zero(s.shares, pool_address, operator);
                        if amount * total > u64::MAX {
                            Err(Error::Overflow)
                        } else {
                            let delta = amount * total / origin_balance;
                            if delta > total {
                                Err(Error::Overflow)
                            } else if delta > held {
                                Err(Error::Overflow)
                            } else {
                                match transfer_outcome(
                                    s.balances,
                                    pool_address,
                                    operator,
                                    token_id,
                                    amount,
                                ) {
                                    Err(e) => Err(transfer_error(e)),
                                    Ok(m1) => match transfer_outcome(
                                        m1,
                                        pool_address,
                                        operator,
                                        other,
                                        counterpart as u64,
                                    ) {
                                        Err(e) => Err(transfer_error(e)),
                                        Ok(m2) => {
                                            let live_origin = entry_or_zero(
                                                m2,
                                                token_id,
                                                pool_address,
                                            );
                                            let live_dest = entry_or_zero(m2, other, pool_address);
                                            if live_origin * live_dest > u64::MAX {
                                                Err(Error::Overflow)
                                            } else {
                                                Ok(
                                                    State {
                                                        pools: s.pools.insert(
                                                            pool_address,
                                                            (
                                                                first,
                                                                second,
                                                                (live_origin * live_dest) as u64,
                                                            ),
                                                        ),
                                                        shares: s.shares.insert(
                                                            (pool_address, operator),
                                                            (held - delta) as u64,
                                                        ),
                                                        totals: s.totals.insert(
                                                            pool_address,
                                                            (total - delta) as u64,
                                                        ),
                                                        balances: m2,
                                                        events: s.events.push(
                                                            Event::Withdrawed {
                                                                operator,
                                                                pool_account: pool_address,
                                                                first_asset: token_id,
                                                                first_asset_amount: amount,
                                                                second_asset: other,
                                                                second_asset_amount: counterpart
                                                                    as u64,
                                                            },
                                                        ),
                                                    },
                                                )
                                            }
                                        },
                                    },
                                }
                            }
                        }
                    }
                }
            }
        }
    }
}

} // verus!
