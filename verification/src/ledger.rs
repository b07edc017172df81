//! The token ledger capability interface, and an in-memory ledger.
//!
//! Real asset custody is out of the pool logic's hands: balances live behind
//! this narrow interface — a balance lookup and an atomic transfer — and the
//! pool operations depend only on it, never on a concrete ledger. The
//! [`MemoryLedger`] here is a verified backend of the same interface, the one
//! the test suite plugs in.

use vstd::prelude::*;

use crate::errors::TransferError;
use crate::pair_table::entry_or_zero;
use crate::pair_table::PairTable;

verus! {

/// Whether `account` holds a record of `asset` covering `amount`. An account
/// with no record of the asset cannot cover any amount, not even zero.
pub open spec fn funded(m: Map<(u64, u64), u64>, asset: u64, account: u64, amount: u64) -> bool {
    m.contains_key((asset, account)) && amount <= m[(asset, account)]
}

/// Whether crediting `to` with `amount` of `asset` fits in its balance; a
/// transfer of an account to itself credits nothing.
pub open spec fn can_credit(
    m: Map<(u64, u64), u64>,
    from: u64,
    to: u64,
    asset: u64,
    amount: u64,
) -> bool {
    from == to || entry_or_zero(m, asset, to) + amount <= u64::MAX
}

/// The outcome an authorized transfer owes: either the balances map after
/// debiting `from` and crediting `to` (creating `to`'s record if missing), or
/// the error that refused it. A transfer of an account to itself that it can
/// cover leaves every balance as it was.
pub open spec fn transfer_outcome(
    m: Map<(u64, u64), u64>,
    from: u64,
    to: u64,
    asset: u64,
    amount: u64,
) -> Result<Map<(u64, u64), u64>, TransferError> {
    if !funded(m, asset, from, amount) {
        Err(TransferError::InsufficientBalance)
    } else if from == to {
        Ok(m)
    } else if entry_or_zero(m, asset, to) + amount > u64::MAX {
        Err(TransferError::BalanceOverflow)
    } else {
        Ok(
            m.insert((asset, from), (m[(asset, from)] - amount) as u64).insert(
                (asset, to),
                (entry_or_zero(m, asset, to) + amount) as u64,
            ),
        )
    }
}

/// The capability interface to a fungible-token ledger.
///
/// `balances()` is the ledger's abstract state: one `u64` balance per
/// existing (asset, account) record. A missing record is not the same as a
/// record of zero: `get_balance` distinguishes them, and only the holder of a
/// record can send from it. A ledger may carry further state of its own;
/// `inv()` is whatever invariant that state needs.
pub trait TokenLedger: Sized {
    /// The backend's internal invariant.
    spec fn inv(&self) -> bool;

    /// The balance of each existing (asset id, account id) record.
    spec fn balances(&self) -> Map<(u64, u64), u64>;

    /// The balance `account` holds of `asset`, or `None` without a record.
    fn get_balance(&self, asset: u64, account: u64) -> (r: Option<u64>)
        requires
            self.inv(),
        ensures
            r == (if self.balances().contains_key((asset, account)) {
                Some(self.balances()[(asset, account)])
            } else {
                None::<u64>
            }),
    ;

    /// Atomically moves `amount` of `asset` from `from` to `to`. Only the
    /// owner of the funds may authorize the move; an unauthorized or
    /// impossible transfer changes no balance at all.
    fn safe_transfer(&mut self, authorizer: u64, from: u64, to: u64, asset: u64, amount: u64) -> (r:
        Result<(), TransferError>)
        requires
            old(self).inv(),
        ensures
            final(self).inv(),
            authorizer != from ==> r == Err::<(), TransferError>(TransferError::NotAuthorized)
                && final(self).balances() == old(self).balances(),
            authorizer == from ==> (match transfer_outcome(
                old(self).balances(),
                from,
                to,
                asset,
                amount,
            ) {
                Ok(m) => r == Ok::<(), TransferError>(()) && final(self).balances() == m,
                Err(e) => r == Err::<(), TransferError>(e) && final(self).balances() == old(
                    self,
                ).balances(),
            }),
    ;
}

/// An in-memory token ledger: balance records in a pair-keyed table, plus a
/// counter handing out fresh asset ids.
pub struct MemoryLedger {
    table: PairTable,
    next_asset: u64,
}

impl MemoryLedger {
    /// How many asset ids have been handed out; they are `0..` this count.
    pub closed spec fn assets_created(&self) -> u64 {
        self.next_asset
    }

    /// A ledger with no asset ids handed out and no balance records.
    pub fn new() -> (r: Self)
        ensures
            r.inv(),
            r.balances() == Map::<(u64, u64), u64>::empty(),
            r.assets_created() == 0,
    {
        MemoryLedger { table: PairTable::new(), next_asset: 0 }
    }

    /// Hands out the next fresh asset id.
    pub fn create(&mut self) -> (r: u64)
        requires
            old(self).inv(),
            old(self).assets_created() < u64::MAX,
        ensures
            final(self).inv(),
            r == old(self).assets_created(),
            final(self).assets_created() == old(self).assets_created() + 1,
            final(self).balances() == old(self).balances(),
    {
        let id = self.next_asset;
        self.next_asset = id + 1;
        id
    }

    /// Mints `amount` of `asset` to `account`, creating its record if it has
    /// none, or refuses the mint that would overflow the account's balance.
    pub fn mint(&mut self, account: u64, asset: u64, amount: u64) -> (r: Result<(), TransferError>)
        requires
            old(self).inv(),
        ensures
            final(self).inv(),
            final(self).assets_created() == old(self).assets_created(),
            entry_or_zero(old(self).balances(), asset, account) + amount <= u64::MAX ==> r == Ok::<
                (),
                TransferError,
            >(()) && final(self).balances() == old(self).balances().insert(
                (asset, account),
                (entry_or_zero(old(self).balances(), asset, account) + amount) as u64,
            ),
            entry_or_zero(old(self).balances(), asset, account) + amount > u64::MAX ==> r == Err::<
                (),
                TransferError,
            >(TransferError::BalanceOverflow) && final(self).balances() == old(self).balances(),
    {
        let held = match self.table.get(asset, account) {
            Some(b) => b,
            None => 0,
        };
        if amount > u64::MAX - held {
            return Err(TransferError::BalanceOverflow);
        }
        self.table.set(asset, account, held + amount);
        Ok(())
    }
}

impl TokenLedger for MemoryLedger {
    closed spec fn inv(&self) -> bool {
        self.table.wf()
    }

    closed spec fn balances(&self) -> Map<(u64, u64), u64> {
        self.table@
    }

    fn get_balance(&self, asset: u64, account: u64) -> (r: Option<u64>) {
        self.table.get(asset, account)
    }

    fn safe_transfer(&mut self, authorizer: u64, from: u64, to: u64, asset: u64, amount: u64) -> (r:
        Result<(), TransferError>) {
        if authorizer != from {
            return Err(TransferError::NotAuthorized);
        }
        let held = match self.table.get(asset, from) {
            Some(b) => b,
            None => {
                return Err(TransferError::InsufficientBalance);
            },
        };
        if held < amount {
            return Err(TransferError::InsufficientBalance);
        }
        if from == to {
            return Ok(());
        }
        let credited = match self.table.get(asset, to) {
            Some(b) => b,
            None => 0,
        };
        if amount > u64::MAX - credited {
            return Err(TransferError::BalanceOverflow);
        }
        self.table.set(asset, from, held - amount);
        self.table.set(asset, to, credited + amount);
        Ok(())
    }
}

} // verus!
