//! A constant-product automated market maker.
//!
//! Any account may create a two-asset liquidity pool, swap one of the pool's
//! assets for the other at the constant-product price net of a fixed fee, and
//! add or remove liquidity while holding a proportional share claim on the
//! pool. All arithmetic is checked: an operation either commits in full or
//! returns a typed error and leaves every piece of state exactly as it was.
//!
//! Real asset custody lives in a token ledger behind the narrow
//! [`ledger::TokenLedger`] capability interface; the pool logic itself owns
//! only the pool registry, the share ledger and the per-pool share totals.
//!
//! Two behaviors are deliberate, if surprising. A swap prices against the
//! invariant cached by the last pool-rewriting operation (creation, deposit
//! or withdrawal); swaps themselves do not rewrite it, so after several
//! swaps the cached value can differ from the live product of the reserves.
//! And a withdrawal worth more than the caller's shares fails with
//! [`errors::Error::Overflow`], surfaced by the checked share subtraction,
//! not with a dedicated error.

pub mod arith;
pub mod errors;
pub mod events;
pub mod laws;
pub mod ledger;
pub mod model;
pub mod pair_table;
pub mod pallet;
pub mod table;
