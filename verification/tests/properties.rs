use dex::errors::Error;
use dex::events::Event;
use dex::ledger::MemoryLedger;
use dex::ledger::TokenLedger;
use dex::pallet::Config;
use dex::pallet::Pallet;

/// An exchange with a default share grant of 10000 and the given fee
/// fraction, plus a ledger holding 100 each of assets 0 and 1 for account 1.
fn funded_setup(hundred_percent_minus_fee: u64, hundred_percent: u64) -> (Pallet, MemoryLedger) {
    let pallet = Pallet::new(Config {
        default_share: 10000,
        hundred_percent_minus_fee,
        hundred_percent,
    });
    let mut ledger = MemoryLedger::new();
    let _ = ledger.create();
    assert!(ledger.mint(1, 0, 100).is_ok());
    let _ = ledger.create();
    assert!(ledger.mint(1, 1, 100).is_ok());
    (pallet, ledger)
}

#[test]
fn init_on_taken_address_fails() {
    let (mut pallet, mut ledger) = funded_setup(100, 100);
    assert!(pallet.init(&mut ledger, 1, 314159265, 0, 25, 1, 25).is_ok());
    assert_eq!(
        pallet.init(&mut ledger, 1, 314159265, 0, 25, 1, 25),
        Err(Error::PoolAlreadyExists)
    );
}

#[test]
fn init_with_same_assets_fails() {
    let (mut pallet, mut ledger) = funded_setup(100, 100);
    assert_eq!(
        pallet.init(&mut ledger, 1, 314159265, 0, 50, 0, 50),
        Err(Error::SameAssetPool)
    );
}

#[test]
fn init_with_overflowing_product_fails() {
    let (mut pallet, mut ledger) = funded_setup(100, 100);
    assert!(ledger.mint(1, 0, u64::MAX - 100).is_ok());
    assert!(ledger.mint(1, 1, u64::MAX - 100).is_ok());
    assert_eq!(
        pallet.init(&mut ledger, 1, 314159265, 0, 1 << 32, 1, 1 << 32),
        Err(Error::Overflow)
    );
    assert_eq!(pallet.get_pool(314159265), None);
}

#[test]
fn swap_of_foreign_token_fails() {
    let (mut pallet, mut ledger) = funded_setup(100, 100);
    assert!(pallet.init(&mut ledger, 1, 314159265, 0, 50, 1, 50).is_ok());
    assert!(ledger.mint(2, 5, 10).is_ok());
    assert_eq!(
        pallet.swap_token(&mut ledger, 2, 314159265, 5, 10),
        Err(Error::NoSuchTokenInPool)
    );
}

#[test]
fn swap_against_drained_pool_fails() {
    let (mut pallet, mut ledger) = funded_setup(100, 100);
    assert!(pallet.init(&mut ledger, 1, 314159265, 0, 50, 1, 50).is_ok());
    // The pool account itself can move its reserve away, emptying one side.
    assert!(ledger.safe_transfer(314159265, 314159265, 7, 1, 50).is_ok());
    assert_eq!(
        pallet.swap_token(&mut ledger, 1, 314159265, 0, 10),
        Err(Error::EmptyPool)
    );
}

#[test]
fn fee_reduces_swap_output() {
    // With a 1% fee the raw constant-product output of 9 is cut to 8.
    let (mut pallet, mut ledger) = funded_setup(99, 100);
    assert!(ledger.safe_transfer(1, 1, 2, 0, 10).is_ok());
    assert!(pallet.init(&mut ledger, 1, 314159265, 0, 50, 1, 50).is_ok());
    assert!(pallet.swap_token(&mut ledger, 2, 314159265, 0, 10).is_ok());
    assert_eq!(ledger.get_balance(0, 2), Some(0));
    assert_eq!(ledger.get_balance(1, 2), Some(8));
}

#[test]
fn deposit_then_withdraw_restores_provider() {
    let (mut pallet, mut ledger) = funded_setup(100, 100);
    assert!(ledger.safe_transfer(1, 1, 2, 0, 10).is_ok());
    assert!(ledger.safe_transfer(1, 1, 2, 1, 10).is_ok());
    assert!(pallet.init(&mut ledger, 1, 314159265, 0, 50, 1, 50).is_ok());

    assert!(pallet.deposit(&mut ledger, 2, 314159265, 0, 10).is_ok());
    assert_eq!(pallet.get_pool_share(314159265, 2), Some(2000));

    assert!(pallet.withdraw(&mut ledger, 2, 314159265, 0, 10).is_ok());
    assert_eq!(pallet.get_pool_share(314159265, 2), Some(0));
    assert_eq!(pallet.get_total_pool_shares(314159265), Some(10000));
    assert_eq!(ledger.get_balance(0, 2), Some(10));
    assert_eq!(ledger.get_balance(1, 2), Some(10));
    assert_eq!(ledger.get_balance(0, 314159265), Some(50));
    assert_eq!(ledger.get_balance(1, 314159265), Some(50));
}

#[test]
fn share_total_is_sum_of_providers() {
    let (mut pallet, mut ledger) = funded_setup(100, 100);
    assert!(ledger.safe_transfer(1, 1, 2, 0, 10).is_ok());
    assert!(ledger.safe_transfer(1, 1, 2, 1, 10).is_ok());
    assert!(pallet.init(&mut ledger, 1, 314159265, 0, 50, 1, 50).is_ok());
    assert!(pallet.deposit(&mut ledger, 2, 314159265, 0, 10).is_ok());

    let creator_share = pallet.get_pool_share(314159265, 1).unwrap();
    let provider_share = pallet.get_pool_share(314159265, 2).unwrap();
    assert_eq!(
        pallet.get_total_pool_shares(314159265),
        Some(creator_share + provider_share)
    );
}

#[test]
fn missing_pool_leaves_no_trace() {
    let (mut pallet, mut ledger) = funded_setup(100, 100);
    assert_eq!(
        pallet.swap_token(&mut ledger, 1, 42, 0, 10),
        Err(Error::NoSuchPool)
    );
    assert_eq!(pallet.deposit(&mut ledger, 1, 42, 0, 10), Err(Error::NoSuchPool));
    assert_eq!(pallet.withdraw(&mut ledger, 1, 42, 0, 10), Err(Error::NoSuchPool));
    assert_eq!(pallet.get_pool(42), None);
    assert_eq!(pallet.get_total_pool_shares(42), None);
    assert_eq!(pallet.get_pool_share(42, 1), None);
    assert_eq!(ledger.get_balance(0, 1), Some(100));
    assert_eq!(ledger.get_balance(1, 1), Some(100));
    assert!(pallet.events().is_empty());
}

#[test]
fn event_log_records_operations() {
    let (mut pallet, mut ledger) = funded_setup(100, 100);
    assert!(ledger.safe_transfer(1, 1, 2, 0, 10).is_ok());
    assert!(pallet.init(&mut ledger, 1, 314159265, 0, 50, 1, 50).is_ok());
    assert!(pallet.swap_token(&mut ledger, 2, 314159265, 0, 10).is_ok());

    let events = pallet.events();
    assert_eq!(events.len(), 2);
    assert_eq!(
        events[0],
        Event::PoolCreated { creator: 1, pool_account: 314159265, first_asset: 0, second_asset: 1 }
    );
    assert_eq!(
        events[1],
        Event::Swapped {
            operator: 2,
            pool_account: 314159265,
            first_asset: 0,
            first_asset_amount: 10,
            second_asset: 1,
            second_asset_amount: 9,
        }
    );
}

#[test]
fn overdrawn_withdraw_never_clamps() {
    let (mut pallet, mut ledger) = funded_setup(100, 100);
    assert!(pallet.init(&mut ledger, 1, 314159265, 0, 50, 1, 50).is_ok());
    assert!(ledger.safe_transfer(1, 1, 2, 0, 10).is_ok());
    assert!(ledger.safe_transfer(1, 1, 2, 1, 10).is_ok());
    assert!(pallet.deposit(&mut ledger, 2, 314159265, 0, 10).is_ok());
    // Account 2 holds 2000 of 12000 shares; asking for 11 of asset 0 is
    // worth 2200 shares and must fail outright, leaving the shares whole.
    assert_eq!(pallet.withdraw(&mut ledger, 2, 314159265, 0, 11), Err(Error::Overflow));
    assert_eq!(pallet.get_pool_share(314159265, 2), Some(2000));
    assert_eq!(pallet.get_total_pool_shares(314159265), Some(12000));
    assert_eq!(ledger.get_balance(0, 2), Some(0));
}

#[test]
fn ledger_refuses_unauthorized_and_unfunded_transfers() {
    let (_pallet, mut ledger) = funded_setup(100, 100);
    assert!(ledger.safe_transfer(2, 1, 2, 0, 10).is_err());
    assert!(ledger.safe_transfer(2, 2, 3, 0, 1).is_err());
    assert_eq!(ledger.get_balance(0, 1), Some(100));
    assert_eq!(ledger.get_balance(0, 2), None);
}
