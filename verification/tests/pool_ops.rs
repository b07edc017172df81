use dex::errors::Error;
use dex::ledger::MemoryLedger;
use dex::ledger::TokenLedger;
use dex::pallet::Config;
use dex::pallet::Pallet;

/// A fresh exchange with the configuration the scenarios assume: a default
/// share grant of 10000 and no fee (the retained portion is the whole).
fn setup() -> (Pallet, MemoryLedger) {
    let pallet = Pallet::new(Config {
        default_share: 10000,
        hundred_percent_minus_fee: 100,
        hundred_percent: 100,
    });
    let ledger = MemoryLedger::new();
    (pallet, ledger)
}

#[test]
fn init_pool() {
    let (mut pallet, mut ledger) = setup();
    let _ = ledger.create();
    assert!(ledger.mint(1, 0, 100).is_ok());
    let _ = ledger.create();
    assert!(ledger.mint(1, 1, 100).is_ok());
    assert!(pallet.init(&mut ledger, 1, 314159265, 0, 50, 1, 50).is_ok());

    assert_eq!(pallet.get_pool(314159265), Some((0, 1, 2500)));
    assert_eq!(pallet.get_pool_share(314159265, 1), Some(10000));
}

#[test]
fn swap_tokens() {
    let (mut pallet, mut ledger) = setup();
    let _ = ledger.create();
    assert!(ledger.mint(1, 0, 100).is_ok());
    let _ = ledger.create();
    assert!(ledger.mint(1, 1, 100).is_ok());
    assert!(ledger.safe_transfer(1, 1, 2, 0, 10).is_ok());
    assert!(pallet.init(&mut ledger, 1, 314159265, 0, 50, 1, 50).is_ok());
    assert!(pallet.swap_token(&mut ledger, 2, 314159265, 0, 10).is_ok());

    assert_eq!(ledger.get_balance(0, 2), Some(0));
    assert_eq!(ledger.get_balance(1, 2), Some(9));
}

#[test]
fn depositing_liquidity() {
    let (mut pallet, mut ledger) = setup();
    let _ = ledger.create();
    assert!(ledger.mint(1, 0, 100).is_ok());
    let _ = ledger.create();
    assert!(ledger.mint(1, 1, 100).is_ok());
    assert!(ledger.safe_transfer(1, 1, 2, 0, 10).is_ok());
    assert!(ledger.safe_transfer(1, 1, 2, 1, 10).is_ok());
    assert!(pallet.init(&mut ledger, 1, 314159265, 0, 50, 1, 50).is_ok());
    assert!(pallet.deposit(&mut ledger, 2, 314159265, 0, 10).is_ok());

    assert_eq!(ledger.get_balance(0, 2), Some(0));
    assert_eq!(ledger.get_balance(1, 2), Some(0));
    assert_eq!(pallet.get_pool_share(314159265, 2), Some(2000));
    assert_eq!(pallet.get_total_pool_shares(314159265), Some(12000));
}

#[test]
fn withdrawing_liquidity() {
    let (mut pallet, mut ledger) = setup();
    let _ = ledger.create();
    assert!(ledger.mint(1, 0, 100).is_ok());
    let _ = ledger.create();
    assert!(ledger.mint(1, 1, 100).is_ok());
    assert!(pallet.init(&mut ledger, 1, 314159265, 0, 50, 1, 50).is_ok());
    assert!(pallet.withdraw(&mut ledger, 1, 314159265, 0, 10).is_ok());

    assert_eq!(ledger.get_balance(0, 1), Some(60));
    assert_eq!(ledger.get_balance(1, 1), Some(60));
    assert_eq!(pallet.get_pool_share(314159265, 1), Some(8000));
    assert_eq!(pallet.get_total_pool_shares(314159265), Some(8000));

    assert!(pallet.withdraw(&mut ledger, 1, 314159265, 0, 40).is_ok());

    assert_eq!(ledger.get_balance(0, 1), Some(100));
    assert_eq!(ledger.get_balance(1, 1), Some(100));
    assert_eq!(pallet.get_pool_share(314159265, 1), Some(0));
    assert_eq!(pallet.get_total_pool_shares(314159265), Some(0));
}

#[test]
#[should_panic]
fn init_pool_with_same_assets() {
    let (mut pallet, mut ledger) = setup();
    let _ = ledger.create();
    assert!(ledger.mint(1, 0, 100).is_ok());
    assert!(pallet.init(&mut ledger, 1, 314159265, 0, 50, 0, 50).is_ok());
}

#[test]
fn abuse_without_tokens() {
    let (mut pallet, mut ledger) = setup();
    let _ = ledger.create();
    assert!(ledger.mint(1, 0, 11000).is_ok());
    let _ = ledger.create();
    assert!(ledger.mint(1, 1, 10100).is_ok());
    assert!(ledger.safe_transfer(1, 1, 2, 0, 10000).is_ok());
    assert!(ledger.safe_transfer(1, 1, 2, 1, 10000).is_ok());
    assert_eq!(
        pallet.init(&mut ledger, 1, 314159265, 0, 500, 1, 500),
        Err(Error::NotEnoughBalance)
    );
    assert!(pallet.init(&mut ledger, 1, 314159265, 0, 50, 1, 50).is_ok());
    assert_eq!(
        pallet.swap_token(&mut ledger, 1, 314159265, 1, 500),
        Err(Error::NotEnoughBalance)
    );
    assert_eq!(
        pallet.deposit(&mut ledger, 1, 314159265, 1, 500),
        Err(Error::NotEnoughBalance)
    );
    assert!(pallet.deposit(&mut ledger, 2, 314159265, 0, 10000).is_ok());
    assert_eq!(pallet.withdraw(&mut ledger, 1, 314159265, 1, 500), Err(Error::Overflow));
    assert_eq!(pallet.withdraw(&mut ledger, 1, 314159265, 1, 51), Err(Error::Overflow));
    assert!(pallet.withdraw(&mut ledger, 1, 314159265, 1, 50).is_ok());
}

#[test]
fn using_uninitialized_pool() {
    let (mut pallet, mut ledger) = setup();
    assert_eq!(
        pallet.swap_token(&mut ledger, 2, 314159265, 0, 10),
        Err(Error::NoSuchPool)
    );
}

#[test]
fn zero_amounts() {
    let (mut pallet, mut ledger) = setup();
    let _ = ledger.create();
    assert!(ledger.mint(1, 0, 100).is_ok());
    let _ = ledger.create();
    assert!(ledger.mint(1, 1, 100).is_ok());
    assert_eq!(
        pallet.init(&mut ledger, 1, 314159265, 0, 0, 1, 50),
        Err(Error::DepositingZeroAmount)
    );
    assert!(pallet.init(&mut ledger, 1, 314159265, 0, 50, 1, 50).is_ok());
    assert_eq!(
        pallet.swap_token(&mut ledger, 1, 314159265, 1, 0),
        Err(Error::DepositingZeroAmount)
    );
    assert_eq!(
        pallet.deposit(&mut ledger, 1, 314159265, 1, 0),
        Err(Error::DepositingZeroAmount)
    );
    assert_eq!(
        pallet.withdraw(&mut ledger, 1, 314159265, 1, 0),
        Err(Error::WithdrawingZeroAmount)
    );
}
