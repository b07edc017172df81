//! The laws of the exchange, stated over the functional model and proved.
//!
//! Each proof function here is a theorem about the operations in
//! [`crate::model`], phrased for any state, not for chosen values; the
//! executable operations in [`crate::pallet`] are tied to that model by
//! their contracts, so these laws carry over to every run of the code.

use vstd::arithmetic::div_mod::lemma_div_nonincreasing;
use vstd::arithmetic::div_mod::lemma_div_pos_is_pos;
use vstd::arithmetic::div_mod::lemma_fundamental_div_mod;
use vstd::arithmetic::div_mod::lemma_fundamental_div_mod_converse;
use vstd::arithmetic::div_mod::lemma_mod_pos_bound;
use vstd::arithmetic::div_mod::lemma_multiply_divide_lt;
use vstd::arithmetic::mul::lemma_mul_nonnegative;
use vstd::arithmetic::mul::lemma_mul_strict_inequality;
use vstd::prelude::*;

use crate::errors::Error;
use crate::events::Event;
use crate::model::other_asset;
use crate::model::spec_deposit;
use crate::model::spec_init;
use crate::model::spec_swap;
use crate::model::spec_withdraw;
use crate::model::swap_output;
use crate::model::State;
use crate::pair_table::entry_or_zero;
use crate::pallet::Pallet;

verus! {

/// A successful `init` leaves exactly the promised records: the pool with
/// its two assets and the product of the two amounts as invariant, the
/// default share amount for the creator, the same amount as the pool's
/// share total, and the creation event at the end of the log.
pub proof fn lemma_init_creates_pool(
    s: State,
    default_share: u64,
    creator: u64,
    pool_address: u64,
    asset_1: u64,
    amount_1: u64,
    asset_2: u64,
    amount_2: u64,
)
    requires
        spec_init(s, default_share, creator, pool_address, asset_1, amount_1, asset_2, amount_2)
            is Ok,
    ensures
        ({
            let post = spec_init(
                s,
                default_share,
                creator,
                pool_address,
                asset_1,
                amount_1,
                asset_2,
                amount_2,
            )->Ok_0;
            &&& post.pools.contains_key(pool_address)
            &&& post.pools[pool_address] == (asset_1, asset_2, (amount_1 * amount_2) as u64)
            &&& post.shares[(pool_address, creator)] == default_share
            &&& post.totals[pool_address] == default_share
            &&& post.events.last() == (Event::PoolCreated {
                creator,
                pool_account: pool_address,
                first_asset: asset_1,
                second_asset: asset_2,
            })
        }),
{
}

/// `init` with a zero amount on either side fails with
/// `DepositingZeroAmount`, whatever else holds.
pub proof fn lemma_init_zero_amount(
    s: State,
    default_share: u64,
    creator: u64,
    pool_address: u64,
    asset_1: u64,
    amount_1: u64,
    asset_2: u64,
    amount_2: u64,
)
    requires
        amount_1 == 0 || amount_2 == 0,
    ensures
        spec_init(s, default_share, creator, pool_address, asset_1, amount_1, asset_2, amount_2)
            == Err::<State, Error>(Error::DepositingZeroAmount),
{
}

/// `init` with the same asset on both sides fails with `SameAssetPool`,
/// once past the zero-amount and fresh-address checks that precede it.
pub proof fn lemma_init_same_asset(
    s: State,
    default_share: u64,
    creator: u64,
    pool_address: u64,
    asset: u64,
    amount_1: u64,
    amount_2: u64,
)
    requires
        amount_1 != 0,
        amount_2 != 0,
        !s.pools.contains_key(pool_address),
    ensures
        spec_init(s, default_share, creator, pool_address, asset, amount_1, asset, amount_2)
            == Err::<State, Error>(Error::SameAssetPool),
{
}

/// A second `init` at an address where one already succeeded fails with
/// `PoolAlreadyExists`, once past the zero-amount check that precedes it.
pub proof fn lemma_init_twice(
    s: State,
    default_share: u64,
    creator: u64,
    pool_address: u64,
    asset_1: u64,
    amount_1: u64,
    asset_2: u64,
    amount_2: u64,
    second_default_share: u64,
    second_creator: u64,
    second_asset_1: u64,
    second_amount_1: u64,
    second_asset_2: u64,
    second_amount_2: u64,
)
    requires
        spec_init(s, default_share, creator, pool_address, asset_1, amount_1, asset_2, amount_2)
            is Ok,
        second_amount_1 != 0,
        second_amount_2 != 0,
    ensures
        spec_init(
            spec_init(
                s,
                default_share,
                creator,
                pool_address,
                asset_1,
                amount_1,
                asset_2,
                amount_2,
            )->Ok_0,
            second_default_share,
            second_creator,
            pool_address,
            second_asset_1,
            second_amount_1,
            second_asset_2,
            second_amount_2,
        ) == Err::<State, Error>(Error::PoolAlreadyExists),
{
}

/// With a positive fee, the amount a swap pays out is strictly below the
/// no-fee constant-product output, whenever that theoretical output is
/// positive at all.
pub proof fn lemma_fee_reduces_output(
    constant: int,
    origin_balance: int,
    dest_balance: int,
    amount: int,
    hundred_percent_minus_fee: int,
    hundred_percent: int,
)
    requires
        origin_balance + amount > 0,
        0 <= hundred_percent_minus_fee < hundred_percent,
        dest_balance - constant / (origin_balance + amount) > 0,
    ensures
        swap_output(
            constant,
            origin_balance,
            dest_balance,
            amount,
            hundred_percent_minus_fee,
            hundred_percent,
        ) < dest_balance - constant / (origin_balance + amount),
{
    let theoretical = dest_balance - constant / (origin_balance + amount);
    lemma_mul_strict_inequality(hundred_percent_minus_fee, hundred_percent, theoretical);
    lemma_multiply_divide_lt(
        theoretical * hundred_percent_minus_fee,
        hundred_percent,
        theoretical,
    );
}

/// The same, at the level of a whole successful swap: the amount in the
/// emitted event is strictly below the no-fee theoretical output.
pub proof fn lemma_swap_pays_below_theoretical(
    s: State,
    hundred_percent_minus_fee: u64,
    hundred_percent: u64,
    operator: u64,
    pool_address: u64,
    token_id: u64,
    amount: u64,
)
    requires
        hundred_percent_minus_fee < hundred_percent,
        spec_swap(
            s,
            hundred_percent_minus_fee,
            hundred_percent,
            operator,
            pool_address,
            token_id,
            amount,
        ) is Ok,
        ({
            let record = s.pools[pool_address];
            let other = other_asset(record.0, record.1, token_id);
            let origin_balance = s.balances[(token_id, pool_address)] as int;
            let dest_balance = s.balances[(other, pool_address)] as int;
            dest_balance - record.2 as int / (origin_balance + amount) > 0
        }),
    ensures
        ({
            let record = s.pools[pool_address];
            let other = other_asset(record.0, record.1, token_id);
            let origin_balance = s.balances[(token_id, pool_address)] as int;
            let dest_balance = s.balances[(other, pool_address)] as int;
            let theoretical = dest_balance - record.2 as int / (origin_balance + amount);
            let post = spec_swap(
                s,
                hundred_percent_minus_fee,
                hundred_percent,
                operator,
                pool_address,
                token_id,
                amount,
            )->Ok_0;
            post.events.last() matches Event::Swapped { second_asset_amount, .. }
                && second_asset_amount < theoretical
        }),
{
    let record = s.pools[pool_address];
    let other = other_asset(record.0, record.1, token_id);
    let origin_balance = s.balances[(token_id, pool_address)] as int;
    let dest_balance = s.balances[(other, pool_address)] as int;
    let partial = record.2 as int / (origin_balance + amount);
    let theoretical = dest_balance - partial;
    lemma_mul_nonnegative(theoretical, hundred_percent_minus_fee as int);
    lemma_div_pos_is_pos(theoretical * hundred_percent_minus_fee, hundred_percent as int);
    lemma_div_nonincreasing(theoretical * hundred_percent_minus_fee, hundred_percent as int);
    lemma_fee_reduces_output(
        record.2 as int,
        origin_balance,
        dest_balance,
        amount as int,
        hundred_percent_minus_fee as int,
        hundred_percent as int,
    );
}

/// The quotient `a * b / o` scales back: growing the base `b` by that very
/// quotient and the divisor `o` by `a` leaves the quotient unchanged. This
/// is why a deposit followed by the same-sized withdrawal is exact.
proof fn lemma_proportional_round_trip(a: int, b: int, o: int)
    requires
        1 <= a,
        0 <= b,
        1 <= o,
    ensures
        a * (b + a * b / o) / (o + a) == a * b / o,
{
    let q = a * b / o;
    let r = (a * b) % o;
    lemma_mul_nonnegative(a, b);
    lemma_fundamental_div_mod(a * b, o);
    lemma_mod_pos_bound(a * b, o);
    assert(a * (b + q) == a * b + a * q) by (nonlinear_arith);
    assert(o * q + r + a * q == q * (o + a) + r) by (nonlinear_arith);
    lemma_fundamental_div_mod_converse(a * (b + q), o + a, q, r);
}

/// A deposit followed by a withdrawal of the same amount of the same asset
/// by the same operator (distinct from the pool account) restores the
/// operator's share, the pool's share total, and every token balance,
/// exactly.
pub proof fn lemma_deposit_withdraw_round_trip(
    s: State,
    operator: u64,
    pool_address: u64,
    token_id: u64,
    amount: u64,
)
    requires
        operator != pool_address,
        s.pools[pool_address].0 != s.pools[pool_address].1,
        spec_deposit(s, operator, pool_address, token_id, amount) is Ok,
        spec_withdraw(
            spec_deposit(s, operator, pool_address, token_id, amount)->Ok_0,
            operator,
            pool_address,
            token_id,
            amount,
        ) is Ok,
    ensures
        ({
            let post = spec_withdraw(
                spec_deposit(s, operator, pool_address, token_id, amount)->Ok_0,
                operator,
                pool_address,
                token_id,
                amount,
            )->Ok_0;
            &&& entry_or_zero(post.shares, pool_address, operator) == entry_or_zero(
                s.shares,
                pool_address,
                operator,
            )
            &&& post.totals[pool_address] == s.totals[pool_address]
            &&& post.balances == s.balances
        }),
{
    let mid = spec_deposit(s, operator, pool_address, token_id, amount)->Ok_0;
    let post = spec_withdraw(mid, operator, pool_address, token_id, amount)->Ok_0;
    let a = amount as int;
    let first = s.pools[pool_address].0;
    let second = s.pools[pool_address].1;
    let other = other_asset(first, second, token_id);
    let o = s.balances[(token_id, pool_address)] as int;
    let d = s.balances[(other, pool_address)] as int;
    let total = s.totals[pool_address] as int;
    let held = entry_or_zero(s.shares, pool_address, operator);
    let x = s.balances[(token_id, operator)] as int;
    let y = s.balances[(other, operator)] as int;
    let c = a * d / o;
    let delta = a * total / o;
    // What the deposit left behind.
    assert(mid.balances[(token_id, pool_address)] == o + a);
    assert(mid.balances[(other, pool_address)] == d + c);
    assert(mid.balances[(token_id, operator)] == x - a);
    assert(mid.balances[(other, operator)] == y - c);
    assert(mid.pools[pool_address] == (first, second, mid.pools[pool_address].2));
    assert(mid.totals[pool_address] == total + delta);
    assert(entry_or_zero(mid.shares, pool_address, operator) == held + delta);
    // The withdrawal derives the very same counterpart amount and share
    // delta from the grown balances and total.
    lemma_proportional_round_trip(a, d, o);
    lemma_proportional_round_trip(a, total, o);
    assert(a * (d + c) / (o + a) == c);
    assert(a * (total + delta) / (o + a) == delta);
    // So it hands back exactly what the deposit took, everywhere.
    assert(post.balances[(token_id, pool_address)] == o);
    assert(post.balances[(other, pool_address)] == d);
    assert(post.balances[(token_id, operator)] == x);
    assert(post.balances[(other, operator)] == y);
    assert(post.balances =~= s.balances);
}

/// Swapping, depositing into or withdrawing from an address with no pool
/// record fails with `NoSuchPool`, once past the zero-amount check that
/// precedes it; and by each operation's contract an error changes nothing.
pub proof fn lemma_missing_pool_refused(
    s: State,
    hundred_percent_minus_fee: u64,
    hundred_percent: u64,
    operator: u64,
    pool_address: u64,
    token_id: u64,
    amount: u64,
)
    requires
        amount != 0,
        !s.pools.contains_key(pool_address),
    ensures
        spec_swap(
            s,
            hundred_percent_minus_fee,
            hundred_percent,
            operator,
            pool_address,
            token_id,
            amount,
        ) == Err::<State, Error>(Error::NoSuchPool),
        spec_deposit(s, operator, pool_address, token_id, amount) == Err::<State, Error>(
            Error::NoSuchPool,
        ),
        spec_withdraw(s, operator, pool_address, token_id, amount) == Err::<State, Error>(
            Error::NoSuchPool,
        ),
{
}

/// The share-accounting invariant every committed operation preserves: a
/// pool's recorded share total is the sum of its providers' share records.
/// It is a conjunct of [`Pallet::wf`], which each operation's contract
/// carries from state to state.
pub proof fn lemma_total_shares_account_for_providers(p: Pallet, pool_address: u64)
    requires
        p.wf(),
        p.pools@.contains_key(pool_address),
    ensures
        p.totals@.contains_key(pool_address),
        p.totals@[pool_address] == p.shares.group_sum(pool_address),
{
}

} // verus!
