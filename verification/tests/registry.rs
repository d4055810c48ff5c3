use multistake::error::ErrorCode;
use multistake::ident::Identity;
use multistake::instructions::{
    add_token_to_pool, create_pool, modify_token_weight, remove_token_from_pool, DEFAULT_WEIGHT,
};
use multistake::pool::{AnySwapPool, MAX_TOKENS};

fn id(n: u128) -> Identity {
    Identity { hi: 1, lo: n }
}

fn admin() -> Identity {
    Identity { hi: 0, lo: 7 }
}

fn fresh_pool() -> AnySwapPool {
    create_pool(admin(), id(1000), id(1001), 3, 10000).unwrap()
}

#[test]
fn test_create_pool_validates_fee() {
    assert_eq!(
        create_pool(admin(), id(1), id(2), 1, 0).unwrap_err(),
        ErrorCode::InvalidFee
    );
    assert_eq!(
        create_pool(admin(), id(1), id(2), 11, 10).unwrap_err(),
        ErrorCode::InvalidFee
    );
    let pool = create_pool(admin(), id(1), id(2), 10, 10).unwrap();
    assert_eq!(pool.get_token_count(), 0);
    assert_eq!(pool.increment_count, 0);
    assert_eq!(pool.get_fee_numerator(), 10);
    assert_eq!(pool.get_fee_denominator(), 10);
    assert_eq!(*pool.get_pool_vault(), id(1));
    assert_eq!(*pool.get_pool_mint(), id(2));
}

#[test]
fn test_add_token_appends() {
    let mut pool = fresh_pool();
    let index = add_token_to_pool(&mut pool, &admin(), &id(1)).unwrap();
    assert_eq!(index, 0);
    assert_eq!(pool.get_token_count(), 1);
    assert_eq!(pool.increment_count, 1);
    let item = pool.get_token(0).unwrap();
    assert_eq!(*item.mint_pubkey(), id(1));
    assert_eq!(item.get_mint_amount(), 0);
    assert_eq!(item.get_weight(), DEFAULT_WEIGHT);

    let index = add_token_to_pool(&mut pool, &admin(), &id(2)).unwrap();
    assert_eq!(index, 1);
    assert_eq!(pool.increment_count, 2);
    assert_eq!(pool.find_token_index(&id(2)), Some(1));
    assert_eq!(pool.get_token_index_by_mint(&id(1)), Some(0));
    assert!(pool.get_token_by_mint(&id(2)).is_some());
    assert!(pool.get_token_by_mint(&id(3)).is_none());
}

#[test]
fn test_add_token_zero_weight_rejected() {
    let mut pool = fresh_pool();
    assert_eq!(
        pool.add_token(&id(1), 0).unwrap_err(),
        ErrorCode::InvalidWeight
    );
    assert_eq!(pool.get_token_count(), 0);
}

#[test]
fn test_add_token_unauthorized() {
    let mut pool = fresh_pool();
    let intruder = Identity { hi: 9, lo: 9 };
    assert_eq!(
        add_token_to_pool(&mut pool, &intruder, &id(1)).unwrap_err(),
        ErrorCode::Unauthorized
    );
    assert_eq!(pool.get_token_count(), 0);
    assert_eq!(pool.increment_count, 0);
}

#[test]
fn test_capacity_boundary() {
    let mut pool = fresh_pool();
    for n in 0..MAX_TOKENS {
        let index = add_token_to_pool(&mut pool, &admin(), &id(n as u128 + 1)).unwrap();
        assert_eq!(index, n);
    }
    assert_eq!(pool.get_token_count(), MAX_TOKENS);
    assert_eq!(
        add_token_to_pool(&mut pool, &admin(), &id(MAX_TOKENS as u128 + 1)).unwrap_err(),
        ErrorCode::CapacityExceeded
    );
    assert_eq!(pool.get_token_count(), MAX_TOKENS);
}

#[test]
fn test_remove_token_compaction() {
    let mut pool = fresh_pool();
    add_token_to_pool(&mut pool, &admin(), &id(1)).unwrap();
    add_token_to_pool(&mut pool, &admin(), &id(2)).unwrap();
    add_token_to_pool(&mut pool, &admin(), &id(3)).unwrap();
    modify_token_weight(&mut pool, &admin(), &vec![(id(3), 42)]).unwrap();

    // Removing a non-last class moves the last class into its slot.
    remove_token_from_pool(&mut pool, &admin(), &id(2)).unwrap();
    assert_eq!(pool.get_token_count(), 2);
    let moved = pool.get_token(1).unwrap();
    assert_eq!(*moved.mint_pubkey(), id(3));
    assert_eq!(moved.get_weight(), 42);
    assert_eq!(moved.get_mint_amount(), 0);
    assert_eq!(pool.find_token_index(&id(2)), None);
    assert_eq!(
        remove_token_from_pool(&mut pool, &admin(), &id(2)).unwrap_err(),
        ErrorCode::NotFound
    );

    // Removing the last class just shortens the registry.
    remove_token_from_pool(&mut pool, &admin(), &id(3)).unwrap();
    assert_eq!(pool.get_token_count(), 1);
    assert_eq!(pool.find_token_index(&id(1)), Some(0));

    // The creation counter never went backwards.
    assert_eq!(pool.increment_count, 3);
}

#[test]
fn test_remove_token_nonzero_supply_rejected() {
    let mut pool = fresh_pool();
    add_token_to_pool(&mut pool, &admin(), &id(1)).unwrap();
    multistake::instructions::stake(&mut pool, 0, 100).unwrap();
    assert_eq!(
        remove_token_from_pool(&mut pool, &admin(), &id(1)).unwrap_err(),
        ErrorCode::NonZeroSupply
    );
    assert_eq!(pool.get_token_count(), 1);
}

#[test]
fn test_remove_token_unauthorized() {
    let mut pool = fresh_pool();
    add_token_to_pool(&mut pool, &admin(), &id(1)).unwrap();
    let intruder = Identity { hi: 9, lo: 9 };
    assert_eq!(
        remove_token_from_pool(&mut pool, &intruder, &id(1)).unwrap_err(),
        ErrorCode::Unauthorized
    );
    assert_eq!(pool.get_token_count(), 1);
}

#[test]
fn test_modify_weight_applies_batch() {
    let mut pool = fresh_pool();
    add_token_to_pool(&mut pool, &admin(), &id(1)).unwrap();
    add_token_to_pool(&mut pool, &admin(), &id(2)).unwrap();
    modify_token_weight(&mut pool, &admin(), &vec![(id(1), 11), (id(2), 22)]).unwrap();
    assert_eq!(pool.get_token(0).unwrap().get_weight(), 11);
    assert_eq!(pool.get_token(1).unwrap().get_weight(), 22);
    // On duplicate identities the last update wins.
    modify_token_weight(&mut pool, &admin(), &vec![(id(1), 33), (id(1), 44)]).unwrap();
    assert_eq!(pool.get_token(0).unwrap().get_weight(), 44);
}

#[test]
fn test_modify_weight_all_or_nothing() {
    let mut pool = fresh_pool();
    add_token_to_pool(&mut pool, &admin(), &id(1)).unwrap();
    add_token_to_pool(&mut pool, &admin(), &id(2)).unwrap();

    // A batch with an unknown identity applies none of its updates.
    assert_eq!(
        modify_token_weight(&mut pool, &admin(), &vec![(id(1), 5), (id(9), 5)]).unwrap_err(),
        ErrorCode::NotFound
    );
    assert_eq!(pool.get_token(0).unwrap().get_weight(), DEFAULT_WEIGHT);

    // A batch with a zero weight applies none of its updates.
    assert_eq!(
        modify_token_weight(&mut pool, &admin(), &vec![(id(1), 5), (id(2), 0)]).unwrap_err(),
        ErrorCode::InvalidWeight
    );
    assert_eq!(pool.get_token(0).unwrap().get_weight(), DEFAULT_WEIGHT);
    assert_eq!(pool.get_token(1).unwrap().get_weight(), DEFAULT_WEIGHT);

    let intruder = Identity { hi: 9, lo: 9 };
    assert_eq!(
        modify_token_weight(&mut pool, &intruder, &vec![(id(1), 5)]).unwrap_err(),
        ErrorCode::Unauthorized
    );
    assert_eq!(pool.get_token(0).unwrap().get_weight(), DEFAULT_WEIGHT);
}

#[test]
fn test_modify_weight_to_current_value_changes_nothing() {
    let mut pool = fresh_pool();
    add_token_to_pool(&mut pool, &admin(), &id(1)).unwrap();
    add_token_to_pool(&mut pool, &admin(), &id(2)).unwrap();
    multistake::instructions::stake(&mut pool, 0, 500).unwrap();

    let before: Vec<(Identity, u64, u64)> = (0..pool.get_token_count())
        .map(|i| {
            let item = pool.get_token(i).unwrap();
            (*item.mint_pubkey(), item.get_mint_amount(), item.get_weight())
        })
        .collect();

    let current = vec![(id(1), DEFAULT_WEIGHT), (id(2), DEFAULT_WEIGHT)];
    modify_token_weight(&mut pool, &admin(), &current).unwrap();

    let after: Vec<(Identity, u64, u64)> = (0..pool.get_token_count())
        .map(|i| {
            let item = pool.get_token(i).unwrap();
            (*item.mint_pubkey(), item.get_mint_amount(), item.get_weight())
        })
        .collect();
    assert_eq!(before, after);
    assert_eq!(pool.increment_count, 2);
}

#[test]
fn test_space_is_fixed_layout() {
    assert_eq!(multistake::item::AnySwapItem::space(), 48);
    assert_eq!(AnySwapPool::space(), 8 + 120 + MAX_TOKENS * 48);
}
