//! The exchange pallet: configuration, owned state, and the four pool
//! operations.
//!
//! Each operation validates every precondition and stages every arithmetic
//! step and transfer before the first write, so a refused call returns its
//! error with all state — registry, share ledger, totals, token balances and
//! event log — exactly as it was, and a successful call commits the full
//! effect. The contracts tie both outcomes to the functional model in
//! [`crate::model`].

use vstd::prelude::*;

use crate::arith::checked_add;
use crate::arith::checked_div;
use crate::arith::checked_mul;
use crate::arith::checked_sub;
use crate::errors::Error;
use crate::events::Event;
use crate::ledger::can_credit;
use crate::ledger::funded;
use crate::ledger::transfer_outcome;
use crate::ledger::TokenLedger;
use crate::model::spec_init;
use crate::model::State;
use crate::pair_table::entry_or_zero;
use crate::pair_table::PairTable;
use crate::table::Table;

verus! {

/// The fixed configuration of an exchange: the share amount granted for
/// creating a pool, and the fee, given as the retained percentage
/// `hundred_percent_minus_fee` out of `hundred_percent`.
#[derive(Clone, Copy, Debug, PartialEq, Eq, Structural)]
pub struct Config {
    /// The share amount granted to a pool's creator, and the pool's initial
    /// share total.
    pub default_share: u64,
    /// The portion of a swap's output that the operator keeps.
    pub hundred_percent_minus_fee: u64,
    /// The denominator of the fee fraction.
    pub hundred_percent: u64,
}

/// The exchange: the pool registry, the share ledger, the per-pool share
/// totals, the event log, and the fixed configuration. Token balances are
/// not here — they live behind the [`TokenLedger`] capability handed to each
/// operation.
pub struct Pallet {
    /// Pool address to (first asset, second asset, cached invariant).
    pub pools: Table<(u64, u64, u64)>,
    /// (Pool address, provider) to the provider's share balance.
    pub shares: PairTable,
    /// Pool address to the total of all shares issued for the pool.
    pub totals: Table<u64>,
    /// The append-only event log.
    pub events: Vec<Event>,
    /// The fixed configuration values.
    pub config: Config,
}

impl Pallet {
    /// The pallet's state as the functional model sees it, next to the given
    /// token balances.
    pub open spec fn state_with(self, balances: Map<(u64, u64), u64>) -> State {
        State {
            pools: self.pools@,
            shares: self.shares@,
            totals: self.totals@,
            balances,
            events: self.events@,
        }
    }

    /// Well-formed: the three tables are well-formed; every share record
    /// belongs to an existing pool; every pool's share total exists and
    /// equals the sum of that pool's share records — the share-accounting
    /// invariant every committed operation preserves; and every pool pairs
    /// two distinct assets.
    pub open spec fn wf(self) -> bool {
        &&& self.pools.wf()
        &&& self.shares.wf()
        &&& self.totals.wf()
        &&& forall|k: (u64, u64)|
            #[trigger] self.shares@.contains_key(k) ==> self.pools@.contains_key(k.0)
        &&& forall|p: u64|
            #[trigger] self.pools@.contains_key(p) ==> self.totals@.contains_key(p)
                && self.totals@[p] == self.shares.group_sum(p)
        &&& forall|p: u64|
            #[trigger] self.pools@.contains_key(p) ==> self.pools@[p].0 != self.pools@[p].1
    }

    /// An exchange with no pools, no shares and no events.
    pub fn new(config: Config) -> (r: Self)
        ensures
            r.wf(),
            r.config == config,
            r.pools@ == Map::<u64, (u64, u64, u64)>::empty(),
            r.shares@ == Map::<(u64, u64), u64>::empty(),
            r.totals@ == Map::<u64, u64>::empty(),
            r.events@ == Seq::<Event>::empty(),
    {
        Pallet {
            pools: Table::new(),
            shares: PairTable::new(),
            totals: Table::new(),
            events: Vec::new(),
            config,
        }
    }

    /// The asset pair and cached invariant of the pool at `pool_address`.
    pub fn get_pool(&self, pool_address: u64) -> (r: Option<(u64, u64, u64)>)
        requires
            self.wf(),
        ensures
            r == (if self.pools@.contains_key(pool_address) {
                Some(self.pools@[pool_address])
            } else {
                None::<(u64, u64, u64)>
            }),
    {
        self.pools.get(pool_address)
    }

    /// The share balance `provider` holds in the pool, if a record exists.
    pub fn get_pool_share(&self, pool_address: u64, provider: u64) -> (r: Option<u64>)
        requires
            self.wf(),
        ensures
            r == (if self.shares@.contains_key((pool_address, provider)) {
                Some(self.shares@[(pool_address, provider)])
            } else {
                None::<u64>
            }),
    {
        self.shares.get(pool_address, provider)
    }

    /// The total of all shares issued for the pool, if a record exists.
    pub fn get_total_pool_shares(&self, pool_address: u64) -> (r: Option<u64>)
        requires
            self.wf(),
        ensures
            r == (if self.totals@.contains_key(pool_address) {
                Some(self.totals@[pool_address])
            } else {
                None::<u64>
            }),
    {
        self.totals.get(pool_address)
    }

    /// The events emitted so far, oldest first.
    pub fn events(&self) -> (r: &Vec<Event>)
        ensures
            r@ == self.events@,
    {
        &self.events
    }

    /// Creates a pool at `pool_address` funded by `creator` with `amount_1`
    /// of `asset_1` and `amount_2` of `asset_2`, per [`spec_init`].
    pub fn init<L: TokenLedger>(
        &mut self,
        ledger: &mut L,
        creator: u64,
        pool_address: u64,
        asset_1: u64,
        amount_1: u64,
        asset_2: u64,
        amount_2: u64,
    ) -> (r: Result<(), Error>)
        requires
            old(self).wf(),
            old(ledger).inv(),
        ensures
            final(self).wf(),
            final(ledger).inv(),
            final(self).config == old(self).config,
            (match spec_init(
                old(self).state_with(old(ledger).balances()),
                old(self).config.default_share,
                creator,
                pool_address,
                asset_1,
                amount_1,
                asset_2,
                amount_2,
            ) {
                Ok(post) => r == Ok::<(), Error>(()) && final(self).state_with(
                    final(ledger).balances(),
                ) == post,
                Err(e) => r == Err::<(), Error>(e) && final(self).state_with(
                    final(ledger).balances(),
                ) == old(self).state_with(old(ledger).balances()),
            }),
    {
        if amount_1 == 0 || amount_2 == 0 {
            return Err(Error::DepositingZeroAmount);
        }
        if self.pools.get(pool_address).is_some() {
            return Err(Error::PoolAlreadyExists);
        }
        if asset_1 == asset_2 {
            return Err(Error::SameAssetPool);
        }
        match check_balance(ledger, asset_1, creator, amount_1) {
            Ok(_) => {},
            Err(e) => {
                return Err(e);
            },
        }
        match check_balance(ledger, asset_2, creator, amount_2) {
            Ok(_) => {},
            Err(e) => {
                return Err(e);
            },
        }
        let pool_constant = match checked_mul(amount_1, amount_2) {
            Ok(v) => v,
            Err(e) => {
                return Err(e);
            },
        };
        // Both transfers are staged before either runs, so a refused one
        // leaves no trace.
        if !transfer_fits(ledger, creator, pool_address, asset_1, amount_1) {
            return Err(Error::Overflow);
        }
        if !transfer_fits(ledger, creator, pool_address, asset_2, amount_2) {
            return Err(Error::Overflow);
        }
        match ledger.safe_transfer(creator, creator, pool_address, asset_1, amount_1) {
            Ok(_) => {},
            Err(_) => {
                return Err(Error::Overflow);
            },
        }
        match ledger.safe_transfer(creator, creator, pool_address, asset_2, amount_2) {
            Ok(_) => {},
            Err(_) => {
                return Err(Error::Overflow);
            },
        }
        let share = self.config.default_share;
        self.pools.set(pool_address, (asset_1, asset_2, pool_constant));
        proof {
            old(self).shares.lemma_empty_group_sum(pool_address);
        }
        self.shares.set(pool_address, creator, share);
        self.totals.set(pool_address, share);
        self.events.push(
            Event::PoolCreated {
                creator,
                pool_account: pool_address,
                first_asset: asset_1,
                second_asset: asset_2,
            },
        );
        proof {
            let pre = old(self).state_with(old(ledger).balances());
            let st = spec_init(
                pre,
                old(self).config.default_share,
                creator,
                pool_address,
                asset_1,
                amount_1,
                asset_2,
                amount_2,
            );
            assert(st is Ok);
            assert(self.state_with(ledger.balances()) =~= st->Ok_0);
        }
        Ok(())
    }
}

impl Pallet {
    /// Swaps `amount` of `token_id` against the pool at `pool_address` for
    /// the other asset, priced per [`spec_swap`]: constant-product against
    /// the cached invariant, fee taken on the output.
    pub fn swap_token<L: TokenLedger>(
        &mut self,
        ledger: &mut L,
        operator: u64,
        pool_address: u64,
        token_id: u64,
        amount: u64,
    ) -> (r: Result<(), Error>)
        requires
            old(self).wf(),
            old(ledger).inv(),
        ensures
            final(self).wf(),
            final(ledger).inv(),
            final(self).config == old(self).config,
            (match crate::model::spec_swap(
                old(self).state_with(old(ledger).balances()),
                old(self).config.hundred_percent_minus_fee,
                old(self).config.hundred_percent,
                operator,
                pool_address,
                token_id,
                amount,
            ) {
                Ok(post) => r == Ok::<(), Error>(()) && final(self).state_with(
                    final(ledger).balances(),
                ) == post,
                Err(e) => r == Err::<(), Error>(e) && final(self).state_with(
                    final(ledger).balances(),
                ) == old(self).state_with(old(ledger).balances()),
            }),
    {
        if amount == 0 {
            return Err(Error::DepositingZeroAmount);
        }
        let (first_asset_id, second_asset_id, pool_constant) = match self.pools.get(pool_address) {
            Some(record) => record,
            None => {
                return Err(Error::NoSuchPool);
            },
        };
        match check_balance(ledger, token_id, operator, amount) {
            Ok(_) => {},
            Err(e) => {
                return Err(e);
            },
        }
        let corresponding_token_id = if token_id == first_asset_id {
            second_asset_id
        } else if token_id == second_asset_id {
            first_asset_id
        } else {
            return Err(Error::NoSuchTokenInPool);
        };
        let pool_origin_token_balance = match ledger.get_balance(token_id, pool_address) {
            Some(b) => b,
            None => {
                return Err(Error::EmptyPool);
            },
        };
        let pool_dest_token_balance = match ledger.get_balance(
            corresponding_token_id,
            pool_address,
        ) {
            Some(b) => b,
            None => {
                return Err(Error::EmptyPool);
            },
        };
        if pool_origin_token_balance == 0 || pool_dest_token_balance == 0 {
            return Err(Error::EmptyPool);
        }
        let grown_origin = match checked_add(pool_origin_token_balance, amount) {
            Ok(v) => v,
            Err(e) => {
                return Err(e);
            },
        };
        let partial_calculation = match checked_div(pool_constant, grown_origin) {
            Ok(v) => v,
            Err(e) => {
                return Err(e);
            },
        };
        let raw_out = match checked_sub(pool_dest_token_balance, partial_calculation) {
            Ok(v) => v,
            Err(e) => {
                return Err(e);
            },
        };
        let scaled = match checked_mul(raw_out, self.config.hundred_percent_minus_fee) {
            Ok(v) => v,
            Err(e) => {
                return Err(e);
            },
        };
        let swap_token_result = match checked_div(scaled, self.config.hundred_percent) {
            Ok(v) => v,
            Err(e) => {
                return Err(e);
            },
        };
        // Both transfers are staged before either runs.
        if !transfer_fits(ledger, operator, pool_address, token_id, amount) {
            return Err(Error::Overflow);
        }
        proof {
            let bal = old(ledger).balances();
            let m1 = transfer_outcome(bal, operator, pool_address, token_id, amount)->Ok_0;
            assert(m1.contains_key((corresponding_token_id, pool_address)));
            assert(m1[(corresponding_token_id, pool_address)] == pool_dest_token_balance);
            assert(entry_or_zero(m1, corresponding_token_id, operator) == entry_or_zero(
                bal,
                corresponding_token_id,
                operator,
            ));
        }
        if pool_dest_token_balance < swap_token_result {
            return Err(Error::NotEnoughBalance);
        }
        if !transfer_fits(ledger, pool_address, operator, corresponding_token_id, swap_token_result)
        {
            return Err(Error::Overflow);
        }
        match ledger.safe_transfer(operator, operator, pool_address, token_id, amount) {
            Ok(_) => {},
            Err(_) => {
                return Err(Error::Overflow);
            },
        }
        match ledger.safe_transfer(
            pool_address,
            pool_address,
            operator,
            corresponding_token_id,
            swap_token_result,
        ) {
            Ok(_) => {},
            Err(_) => {
                return Err(Error::Overflow);
            },
        }
        self.events.push(
            Event::Swapped {
                operator,
                pool_account: pool_address,
                first_asset: token_id,
                first_asset_amount: amount,
                second_asset: corresponding_token_id,
                second_asset_amount: swap_token_result,
            },
        );
        proof {
            let pre = old(self).state_with(old(ledger).balances());
            let st = crate::model::spec_swap(
                pre,
                old(self).config.hundred_percent_minus_fee,
                old(self).config.hundred_percent,
                operator,
                pool_address,
                token_id,
                amount,
            );
            assert(st is Ok);
            assert(self.state_with(ledger.balances()) =~= st->Ok_0);
        }
        Ok(())
    }
}

impl Pallet {
    /// Adds liquidity: `amount` of `token_id` plus the derived counterpart
    /// amount of the pool's other asset, granting shares per
    /// [`spec_deposit`] and resynchronizing the cached invariant.
    #[verifier::rlimit(60)]
    pub fn deposit<L: TokenLedger>(
        &mut self,
        ledger: &mut L,
        operator: u64,
        pool_address: u64,
        token_id: u64,
        amount: u64,
    ) -> (r: Result<(), Error>)
        requires
            old(self).wf(),
            old(ledger).inv(),
        ensures
            final(self).wf(),
            final(ledger).inv(),
            final(self).config == old(self).config,
            (match crate::model::spec_deposit(
                old(self).state_with(old(ledger).balances()),
                operator,
                pool_address,
                token_id,
                amount,
            ) {
                Ok(post) => r == Ok::<(), Error>(()) && final(self).state_with(
                    final(ledger).balances(),
                ) == post,
                Err(e) => r == Err::<(), Error>(e) && final(self).state_with(
                    final(ledger).balances(),
                ) == old(self).state_with(old(ledger).balances()),
            }),
    {
        if amount == 0 {
            return Err(Error::DepositingZeroAmount);
        }
        let (first_asset_id, second_asset_id, _pool_constant) = match self.pools.get(pool_address) {
            Some(record) => record,
            None => {
                return Err(Error::NoSuchPool);
            },
        };
        match check_balance(ledger, token_id, operator, amount) {
            Ok(_) => {},
            Err(e) => {
                return Err(e);
            },
        }
        let corresponding_token_id = if token_id == first_asset_id {
            second_asset_id
        } else if token_id == second_asset_id {
            first_asset_id
        } else {
            return Err(Error::NoSuchTokenInPool);
        };
        let pool_origin_token_balance = match ledger.get_balance(token_id, pool_address) {
            Some(b) => b,
            None => {
                return Err(Error::EmptyPool);
            },
        };
        let pool_dest_token_balance = match ledger.get_balance(
            corresponding_token_id,
            pool_address,
        ) {
            Some(b) => b,
            None => {
                return Err(Error::EmptyPool);
            },
        };
        if pool_origin_token_balance == 0 || pool_dest_token_balance == 0 {
            return Err(Error::EmptyPool);
        }
        let scaled_amount = match checked_mul(amount, pool_dest_token_balance) {
            Ok(v) => v,
            Err(e) => {
                return Err(e);
            },
        };
        let corresponding_token_amount = match checked_div(scaled_amount, pool_origin_token_balance)
        {
            Ok(v) => v,
            Err(e) => {
                return Err(e);
            },
        };
        match check_balance(ledger, corresponding_token_id, operator, corresponding_token_amount) {
            Ok(_) => {},
            Err(e) => {
                return Err(e);
            },
        }
        let current_full_share = match self.totals.get(pool_address) {
            Some(v) => v,
            None => {
                return Err(Error::NoSuchPool);
            },
        };
        if current_full_share == 0 {
            return Err(Error::NoSuchPool);
        }
        let operator_pool_share = match self.shares.get(pool_address, operator) {
            Some(share) => share,
            None => 0,
        };
        let scaled_share = match checked_mul(amount, current_full_share) {
            Ok(v) => v,
            Err(e) => {
                return Err(e);
            },
        };
        let add_operator_pool_share = match checked_div(scaled_share, pool_origin_token_balance) {
            Ok(v) => v,
            Err(e) => {
                return Err(e);
            },
        };
        let new_full_share = match checked_add(current_full_share, add_operator_pool_share) {
            Ok(v) => v,
            Err(e) => {
                return Err(e);
            },
        };
        let new_operator_pool_share = match checked_add(
            operator_pool_share,
            add_operator_pool_share,
        ) {
            Ok(v) => v,
            Err(e) => {
                return Err(e);
            },
        };
        // Both transfers and the invariant refresh are staged before the
        // first balance moves.
        if !transfer_fits(ledger, operator, pool_address, token_id, amount) {
            return Err(Error::Overflow);
        }
        proof {
            let bal = old(ledger).balances();
            let m1 = transfer_outcome(bal, operator, pool_address, token_id, amount)->Ok_0;
            assert(funded(m1, corresponding_token_id, operator, corresponding_token_amount)
                == funded(bal, corresponding_token_id, operator, corresponding_token_amount));
            assert(entry_or_zero(m1, corresponding_token_id, pool_address) == entry_or_zero(
                bal,
                corresponding_token_id,
                pool_address,
            ));
        }
        if !transfer_fits(
            ledger,
            operator,
            pool_address,
            corresponding_token_id,
            corresponding_token_amount,
        ) {
            return Err(Error::Overflow);
        }
        let live_origin = if operator == pool_address {
            pool_origin_token_balance
        } else {
            pool_origin_token_balance + amount
        };
        let live_dest = if operator == pool_address {
            pool_dest_token_balance
        } else {
            pool_dest_token_balance + corresponding_token_amount
        };
        proof {
            let bal = old(ledger).balances();
            let m1 = transfer_outcome(bal, operator, pool_address, token_id, amount)->Ok_0;
            let m2 = transfer_outcome(
                m1,
                operator,
                pool_address,
                corresponding_token_id,
                corresponding_token_amount,
            )->Ok_0;
            assert(entry_or_zero(m2, token_id, pool_address) == live_origin);
            assert(entry_or_zero(m2, corresponding_token_id, pool_address) == live_dest);
        }
        let new_constant = match checked_mul(live_origin, live_dest) {
            Ok(v) => v,
            Err(e) => {
                return Err(e);
            },
        };
        match ledger.safe_transfer(operator, operator, pool_address, token_id, amount) {
            Ok(_) => {},
            Err(_) => {
                return Err(Error::Overflow);
            },
        }
        match ledger.safe_transfer(
            operator,
            operator,
            pool_address,
            corresponding_token_id,
            corresponding_token_amount,
        ) {
            Ok(_) => {},
            Err(_) => {
                return Err(Error::Overflow);
            },
        }
        self.pools.set(pool_address, (first_asset_id, second_asset_id, new_constant));
        self.totals.set(pool_address, new_full_share);
        self.shares.set(pool_address, operator, new_operator_pool_share);
        self.events.push(
            Event::Deposited {
                operator,
                pool_account: pool_address,
                first_asset: token_id,
                first_asset_amount: amount,
                second_asset: corresponding_token_id,
                second_asset_amount: corresponding_token_amount,
            },
        );
        proof {
            let pre = old(self).state_with(old(ledger).balances());
            let st = crate::model::spec_deposit(pre, operator, pool_address, token_id, amount);
            assert(st is Ok);
            assert(self.state_with(ledger.balances()) =~= st->Ok_0);
        }
        Ok(())
    }
}

impl Pallet {
    /// Removes liquidity: pays out `amount` of `token_id` plus the derived
    /// counterpart amount of the pool's other asset and burns the matching
    /// shares per [`spec_withdraw`]; withdrawing more than the operator's
    /// shares cover fails with `Overflow` through the checked subtraction.
    #[verifier::rlimit(60)]
    pub fn withdraw<L: TokenLedger>(
        &mut self,
        ledger: &mut L,
        operator: u64,
        pool_address: u64,
        token_id: u64,
        amount: u64,
    ) -> (r: Result<(), Error>)
        requires
            old(self).wf(),
            old(ledger).inv(),
        ensures
            final(self).wf(),
            final(ledger).inv(),
            final(self).config == old(self).config,
            (match crate::model::spec_withdraw(
                old(self).state_with(old(ledger).balances()),
                operator,
                pool_address,
                token_id,
                amount,
            ) {
                Ok(post) => r == Ok::<(), Error>(()) && final(self).state_with(
                    final(ledger).balances(),
                ) == post,
                Err(e) => r == Err::<(), Error>(e) && final(self).state_with(
                    final(ledger).balances(),
                ) == old(self).state_with(old(ledger).balances()),
            }),
    {
        if amount == 0 {
            return Err(Error::WithdrawingZeroAmount);
        }
        let (first_asset_id, second_asset_id, _pool_constant) = match self.pools.get(pool_address) {
            Some(record) => record,
            None => {
                return Err(Error::NoSuchPool);
            },
        };
        let corresponding_token_id = if token_id == first_asset_id {
            second_asset_id
        } else if token_id == second_asset_id {
            first_asset_id
        } else {
            return Err(Error::NoSuchTokenInPool);
        };
        let pool_origin_token_balance = match ledger.get_balance(token_id, pool_address) {
            Some(b) => b,
            None => {
                return Err(Error::EmptyPool);
            },
        };
        let pool_dest_token_balance = match ledger.get_balance(
            corresponding_token_id,
            pool_address,
        ) {
            Some(b) => b,
            None => {
                return Err(Error::EmptyPool);
            },
        };
        if pool_origin_token_balance == 0 || pool_dest_token_balance == 0 {
            return Err(Error::EmptyPool);
        }
        let scaled_amount = match checked_mul(amount, pool_dest_token_balance) {
            Ok(v) => v,
            Err(e) => {
                return Err(e);
            },
        };
        let corresponding_token_amount = match checked_div(scaled_amount, pool_origin_token_balance)
        {
            Ok(v) => v,
            Err(e) => {
                return Err(e);
            },
        };
        let current_full_share = match self.totals.get(pool_address) {
            Some(v) => v,
            None => {
                return Err(Error::NoSuchPool);
            },
        };
        if current_full_share == 0 {
            return Err(Error::NoSuchPool);
        }
        let operator_pool_share = match self.shares.get(pool_address, operator) {
            Some(share) => share,
            None => 0,
        };
        let scaled_share = match checked_mul(amount, current_full_share) {
            Ok(v) => v,
            Err(e) => {
                return Err(e);
            },
        };
        let sub_operator_pool_share = match checked_div(scaled_share, pool_origin_token_balance) {
            Ok(v) => v,
            Err(e) => {
                return Err(e);
            },
        };
        let new_full_share = match checked_sub(current_full_share, sub_operator_pool_share) {
            Ok(v) => v,
            Err(e) => {
                return Err(e);
            },
        };
        let new_operator_pool_share = match checked_sub(
            operator_pool_share,
            sub_operator_pool_share,
        ) {
            Ok(v) => v,
            Err(e) => {
                return Err(e);
            },
        };
        // Both payouts and the invariant refresh are staged before the
        // first balance moves.
        if pool_origin_token_balance < amount {
            return Err(Error::NotEnoughBalance);
        }
        if !transfer_fits(ledger, pool_address, operator, token_id, amount) {
            return Err(Error::Overflow);
        }
        proof {
            let bal = old(ledger).balances();
            let m1 = transfer_outcome(bal, pool_address, operator, token_id, amount)->Ok_0;
            assert(funded(m1, corresponding_token_id, pool_address, corresponding_token_amount)
                == (corresponding_token_amount <= pool_dest_token_balance));
            assert(entry_or_zero(m1, corresponding_token_id, operator) == entry_or_zero(
                bal,
                corresponding_token_id,
                operator,
            ));
        }
        if pool_dest_token_balance < corresponding_token_amount {
            return Err(Error::NotEnoughBalance);
        }
        if !transfer_fits(
            ledger,
            pool_address,
            operator,
            corresponding_token_id,
            corresponding_token_amount,
        ) {
            return Err(Error::Overflow);
        }
        let live_origin = if operator == pool_address {
            pool_origin_token_balance
        } else {
            pool_origin_token_balance - amount
        };
        let live_dest = if operator == pool_address {
            pool_dest_token_balance
        } else {
            pool_dest_token_balance - corresponding_token_amount
        };
        proof {
            let bal = old(ledger).balances();
            let m1 = transfer_outcome(bal, pool_address, operator, token_id, amount)->Ok_0;
            let m2 = transfer_outcome(
                m1,
                pool_address,
                operator,
                corresponding_token_id,
                corresponding_token_amount,
            )->Ok_0;
            assert(entry_or_zero(m2, token_id, pool_address) == live_origin);
            assert(entry_or_zero(m2, corresponding_token_id, pool_address) == live_dest);
        }
        let new_constant = match checked_mul(live_origin, live_dest) {
            Ok(v) => v,
            Err(e) => {
                return Err(e);
            },
        };
        match ledger.safe_transfer(pool_address, pool_address, operator, token_id, amount) {
            Ok(_) => {},
            Err(_) => {
                return Err(Error::Overflow);
            },
        }
        match ledger.safe_transfer(
            pool_address,
            pool_address,
            operator,
            corresponding_token_id,
            corresponding_token_amount,
        ) {
            Ok(_) => {},
            Err(_) => {
                return Err(Error::Overflow);
            },
        }
        self.pools.set(pool_address, (first_asset_id, second_asset_id, new_constant));
        self.totals.set(pool_address, new_full_share);
        self.shares.set(pool_address, operator, new_operator_pool_share);
        self.events.push(
            Event::Withdrawed {
                operator,
                pool_account: pool_address,
                first_asset: token_id,
                first_asset_amount: amount,
                second_asset: corresponding_token_id,
                second_asset_amount: corresponding_token_amount,
            },
        );
        proof {
            let pre = old(self).state_with(old(ledger).balances());
            let st = crate::model::spec_withdraw(pre, operator, pool_address, token_id, amount);
            assert(st is Ok);
            assert(self.state_with(ledger.balances()) =~= st->Ok_0);
        }
        Ok(())
    }
}

/// Whether `account` holds enough of the asset to cover `needed_balance`.
fn check_balance<L: TokenLedger>(ledger: &L, id: u64, account: u64, needed_balance: u64) -> (r:
    Result<(), Error>)
    requires
        ledger.inv(),
    ensures
        r == (if funded(ledger.balances(), id, account, needed_balance) {
            Ok::<(), Error>(())
        } else {
            Err::<(), Error>(Error::NotEnoughBalance)
        }),
{
    match ledger.get_balance(id, account) {
        Some(balance) => {
            if needed_balance <= balance {
                Ok(())
            } else {
                Err(Error::NotEnoughBalance)
            }
        },
        None => Err(Error::NotEnoughBalance),
    }
}

/// Whether crediting `to` with the transfer's amount fits in its balance.
fn transfer_fits<L: TokenLedger>(ledger: &L, from: u64, to: u64, asset: u64, amount: u64) -> (r:
    bool)
    requires
        ledger.inv(),
    ensures
        r == can_credit(ledger.balances(), from, to, asset, amount),
{
    if from == to {
        return true;
    }
    let held = match ledger.get_balance(asset, to) {
        Some(b) => b,
        None => 0,
    };
    amount <= u64::MAX - held
}

} // verus!
