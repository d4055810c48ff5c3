use multistake::error::ErrorCode;
use multistake::ident::Identity;
use multistake::item::AnySwapItem;
use multistake::pool::AnySwapPool;

fn id(n: u128) -> Identity {
    Identity { hi: 3, lo: n }
}

#[test]
fn test_identity_zero() {
    let zero = Identity::zero();
    assert!(zero.is_zero());
    assert_eq!(zero, Identity { hi: 0, lo: 0 });
    assert!(!id(1).is_zero());
}

#[test]
fn test_item_accessors() {
    let mut item = AnySwapItem { mint_account: Identity::zero(), mint_amount: 0, weight: 0 };
    assert!(item.is_empty());
    item.set_mint_account(&id(5));
    assert!(!item.is_empty());
    assert_eq!(*item.mint_pubkey(), id(5));
    item.set_weight(77);
    assert_eq!(item.get_weight(), 77);
    item.set_mint_amount(41);
    assert_eq!(item.get_mint_amount(), 41);
}

#[test]
fn test_item_checked_supply_arithmetic() {
    let mut item = AnySwapItem { mint_account: id(1), mint_amount: 10, weight: 1 };
    item.add_mint_amount(5).unwrap();
    assert_eq!(item.get_mint_amount(), 15);
    item.sub_mint_amount(15).unwrap();
    assert_eq!(item.get_mint_amount(), 0);

    assert_eq!(item.sub_mint_amount(1).unwrap_err(), ErrorCode::MathOverflow);
    assert_eq!(item.get_mint_amount(), 0);

    item.set_mint_amount(u64::MAX);
    assert_eq!(item.add_mint_amount(1).unwrap_err(), ErrorCode::MathOverflow);
    assert_eq!(item.get_mint_amount(), u64::MAX);
}

#[test]
fn test_pool_setters() {
    let mut pool = AnySwapPool {
        increment_count: 0,
        admin: id(1),
        pool_vault: id(2),
        pool_mint: id(3),
        fee_numerator: 1,
        fee_denominator: 2,
        tokens: Vec::new(),
    };
    pool.set_fee(3, 4);
    assert_eq!(pool.get_fee_numerator(), 3);
    assert_eq!(pool.get_fee_denominator(), 4);
    pool.set_pool_vault(&id(8));
    pool.set_pool_mint(&id(9));
    assert_eq!(*pool.get_pool_vault(), id(8));
    assert_eq!(*pool.get_pool_mint(), id(9));
    assert!(pool.verify_admin(&id(1)).is_ok());
    assert_eq!(pool.verify_admin(&id(2)).unwrap_err(), ErrorCode::Unauthorized);
}
