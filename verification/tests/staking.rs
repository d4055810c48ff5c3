use multistake::error::ErrorCode;
use multistake::ident::Identity;
use multistake::instructions::{
    add_token_to_pool, create_pool, modify_token_weight, stake, unstake, StakeRecord,
    UnstakeRecord,
};
use multistake::item::AnySwapItem;
use multistake::pool::AnySwapPool;

fn id(n: u128) -> Identity {
    Identity { hi: 2, lo: n }
}

fn admin() -> Identity {
    Identity { hi: 0, lo: 7 }
}

/// A pool with the given fee ratio and one class per `(weight, supply)`
/// pair, built directly so tests can reach states (zero weights, extreme
/// supplies) that the admin operations rule out.
fn raw_pool(fee_numerator: u64, fee_denominator: u64, classes: &[(u64, u64)]) -> AnySwapPool {
    let tokens: Vec<AnySwapItem> = classes
        .iter()
        .enumerate()
        .map(|(i, &(weight, supply))| AnySwapItem {
            mint_account: id(i as u128 + 1),
            mint_amount: supply,
            weight,
        })
        .collect();
    AnySwapPool {
        increment_count: classes.len() as u16,
        admin: admin(),
        pool_vault: id(1000),
        pool_mint: id(1001),
        fee_numerator,
        fee_denominator,
        tokens,
    }
}

/// The concrete end-to-end scenario: fee ratio 3/10000, two classes with
/// weights 200,000,000 and 50,000,000, staked, reweighted by nothing, and
/// unwound exactly to an empty vault.
#[test]
fn test_full_stake_unstake_cycle() {
    let mut pool = create_pool(admin(), id(1000), id(1001), 3, 10000).unwrap();
    add_token_to_pool(&mut pool, &admin(), &id(1)).unwrap();
    add_token_to_pool(&mut pool, &admin(), &id(2)).unwrap();
    modify_token_weight(
        &mut pool,
        &admin(),
        &vec![(id(1), 200_000_000), (id(2), 50_000_000)],
    )
    .unwrap();
    let mut vault: u64 = 0;

    // Stake 100 into class A: fee = floor(100 * 3 / 10000) = 0.
    let record = stake(&mut pool, 0, 100).unwrap();
    assert_eq!(
        record,
        StakeRecord { item_index: 0, stake_amount: 100, fee_amount: 0, lp_minted: 100 }
    );
    vault += record.stake_amount;
    assert_eq!(pool.get_token(0).unwrap().get_mint_amount(), 100);
    assert_eq!(vault, 100);

    // Stake 200 into class B: fee is still 0 at this size.
    let record = stake(&mut pool, 1, 200).unwrap();
    assert_eq!(record.fee_amount, 0);
    assert_eq!(record.lp_minted, 200);
    vault += record.stake_amount;
    assert_eq!(pool.get_token(1).unwrap().get_mint_amount(), 200);
    assert_eq!(vault, 300);

    // total_weighted = 100 * 200M + 200 * 50M = 30,000,000,000.
    assert_eq!(
        pool.calculate_total_weighted_mint_amount().unwrap(),
        30_000_000_000
    );

    // Unstake all of A: floor(300 * 100 * 200M / 30B) = 200.
    let record = unstake(&mut pool, 0, 100, vault).unwrap();
    assert_eq!(
        record,
        UnstakeRecord { item_index: 0, lp_burned: 100, redeem_amount: 200 }
    );
    vault -= record.redeem_amount;
    assert_eq!(vault, 100);
    assert_eq!(pool.get_token(0).unwrap().get_mint_amount(), 0);

    // Unstake all of B: floor(100 * 200 * 50M / 10B) = 100.
    let record = unstake(&mut pool, 1, 200, vault).unwrap();
    assert_eq!(record.redeem_amount, 100);
    vault -= record.redeem_amount;
    assert_eq!(vault, 0);
    assert_eq!(pool.get_token(1).unwrap().get_mint_amount(), 0);
}

#[test]
fn test_stake_takes_fee() {
    let mut pool = create_pool(admin(), id(1000), id(1001), 3, 10000).unwrap();
    add_token_to_pool(&mut pool, &admin(), &id(1)).unwrap();
    let record = stake(&mut pool, 0, 1_000_000).unwrap();
    assert_eq!(record.fee_amount, 300);
    assert_eq!(record.lp_minted, 999_700);
    // Only the net amount becomes receipt supply; the fee stays in the
    // vault for all classes.
    assert_eq!(pool.get_token(0).unwrap().get_mint_amount(), 999_700);
}

#[test]
fn test_stake_argument_checks() {
    let mut pool = create_pool(admin(), id(1000), id(1001), 3, 10000).unwrap();
    add_token_to_pool(&mut pool, &admin(), &id(1)).unwrap();
    assert_eq!(stake(&mut pool, 0, 0).unwrap_err(), ErrorCode::InvalidAmount);
    assert_eq!(stake(&mut pool, 1, 10).unwrap_err(), ErrorCode::InvalidIndex);
    assert_eq!(pool.get_token(0).unwrap().get_mint_amount(), 0);
}

#[test]
fn test_stake_supply_overflow() {
    let mut pool = raw_pool(0, 1, &[(1, u64::MAX)]);
    assert_eq!(stake(&mut pool, 0, 1).unwrap_err(), ErrorCode::MathOverflow);
    assert_eq!(pool.get_token(0).unwrap().get_mint_amount(), u64::MAX);
}

#[test]
fn test_unstake_argument_checks() {
    let mut pool = create_pool(admin(), id(1000), id(1001), 3, 10000).unwrap();
    add_token_to_pool(&mut pool, &admin(), &id(1)).unwrap();
    stake(&mut pool, 0, 100).unwrap();
    assert_eq!(
        unstake(&mut pool, 0, 0, 100).unwrap_err(),
        ErrorCode::InvalidAmount
    );
    assert_eq!(
        unstake(&mut pool, 5, 10, 100).unwrap_err(),
        ErrorCode::InvalidIndex
    );
    // Burning more receipts than the class's outstanding supply.
    assert_eq!(
        unstake(&mut pool, 0, 101, 100).unwrap_err(),
        ErrorCode::InsufficientLiquidity
    );
    assert_eq!(pool.get_token(0).unwrap().get_mint_amount(), 100);
}

#[test]
fn test_unstake_zero_weight_class() {
    let mut pool = raw_pool(0, 1, &[(0, 100)]);
    assert_eq!(
        unstake(&mut pool, 0, 10, 100).unwrap_err(),
        ErrorCode::ZeroWeight
    );
}

#[test]
fn test_redeem_on_empty_weighted_supply() {
    // No outstanding receipts anywhere: the weighted supply is zero and
    // nothing is redeemable.
    let pool = raw_pool(0, 1, &[(5, 0)]);
    assert_eq!(
        pool.calculate_total_weighted_mint_amount().unwrap_err(),
        ErrorCode::InsufficientLiquidity
    );
    assert_eq!(
        pool.calculate_redeem_amount(0, 0, 100).unwrap_err(),
        ErrorCode::InsufficientLiquidity
    );
}

#[test]
fn test_total_weighted_overflow() {
    let pool = raw_pool(0, 1, &[(u64::MAX, u64::MAX), (u64::MAX, u64::MAX)]);
    assert_eq!(
        pool.calculate_total_weighted_mint_amount().unwrap_err(),
        ErrorCode::MathOverflow
    );
}

#[test]
fn test_redeem_product_overflow() {
    // vault * lp * weight needs more than 128 bits here.
    let pool = raw_pool(0, 1, &[(u64::MAX, u64::MAX)]);
    assert_eq!(
        pool.calculate_redeem_amount(u64::MAX, 0, u64::MAX).unwrap_err(),
        ErrorCode::MathOverflow
    );
}

#[test]
fn test_redeem_matches_formula() {
    let pool = raw_pool(0, 1, &[(200_000_000, 100), (50_000_000, 200)]);
    // total_weighted = 30B; floor(300 * 40 * 200M / 30B) = 80.
    assert_eq!(pool.calculate_redeem_amount(40, 0, 300).unwrap(), 80);
    // floor(300 * 1 * 50M / 30B) = 0: dust stays in the vault.
    assert_eq!(pool.calculate_redeem_amount(1, 1, 300).unwrap(), 0);
}

/// Solvency on concrete values: redeeming every class's full supply in
/// the same state never pays out more than the vault holds.
#[test]
fn test_solvency_concrete() {
    let pool = raw_pool(
        0,
        1,
        &[(200_000_000, 100), (50_000_000, 200), (7, 13), (1_000_003, 999_999)],
    );
    let vault: u64 = 1_000_000_007;
    let mut paid: u128 = 0;
    for i in 0..pool.get_token_count() {
        let supply = pool.get_token(i).unwrap().get_mint_amount();
        paid += pool.calculate_redeem_amount(supply, i, vault).unwrap() as u128;
    }
    assert!(paid <= vault as u128);
}

/// Weighted proportionality on concrete values: draining A then B (and B
/// then A) never overdraws the vault, and the per-unit rates stand in the
/// ratio of the weights up to floor rounding.
#[test]
fn test_proportionality_concrete() {
    let wa: u64 = 200_000_000;
    let wb: u64 = 50_000_000;
    let sa: u64 = 101;
    let sb: u64 = 203;
    let vault: u64 = 1_000_000;

    let pool = raw_pool(0, 1, &[(wa, sa), (wb, sb)]);
    let ra = pool.calculate_redeem_amount(sa, 0, vault).unwrap();
    let rb = pool.calculate_redeem_amount(sb, 1, vault).unwrap();

    // Cross-multiplied per-unit rate bounds: ra/sa : rb/sb == wa : wb up
    // to one rounding unit on each side.
    let lhs = ra as u128 * sb as u128 * wb as u128;
    let rhs = (rb as u128 + 1) * sa as u128 * wa as u128;
    assert!(lhs < rhs);
    let lhs2 = rb as u128 * sa as u128 * wa as u128;
    let rhs2 = (ra as u128 + 1) * sb as u128 * wb as u128;
    assert!(lhs2 < rhs2);

    // Drain A completely, then B completely, in both orders.
    for first_a in [true, false] {
        let mut pool = raw_pool(0, 1, &[(wa, sa), (wb, sb)]);
        let mut vault_left = vault;
        let order: [usize; 2] = if first_a { [0, 1] } else { [1, 0] };
        for index in order {
            let supply = pool.get_token(index).unwrap().get_mint_amount();
            let record = unstake(&mut pool, index, supply, vault_left).unwrap();
            vault_left -= record.redeem_amount;
        }
        assert_eq!(pool.get_token(0).unwrap().get_mint_amount(), 0);
        assert_eq!(pool.get_token(1).unwrap().get_mint_amount(), 0);
    }
}

/// The vault re-check in unstake: the formula's payout already never
/// exceeds the vault balance handed in.
#[test]
fn test_unstake_never_overdraws() {
    for vault in [0u64, 1, 99, 100, 12345] {
        let mut pool = raw_pool(0, 1, &[(3, 10), (5, 90)]);
        let record = unstake(&mut pool, 0, 10, vault).unwrap();
        assert!(record.redeem_amount <= vault);
    }
}
