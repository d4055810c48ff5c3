use vstd::prelude::*;

use crate::error::ErrorCode;
use crate::ident::Identity;
use crate::item::AnySwapItem;
use crate::pool::{seq_has_identity, AnySwapPool, MAX_TOKENS};

verus! {

/// Default weight given to a newly added class: `10^8`.
pub const DEFAULT_WEIGHT: u64 = 100000000;

/// Creates a pool with an empty class registry. The fee ratio is validated
/// here and fixed for the pool's lifetime: a zero denominator or a
/// numerator above the denominator fails `InvalidFee`.
pub fn create_pool(
    admin: Identity,
    pool_vault: Identity,
    pool_mint: Identity,
    fee_numerator: u64,
    fee_denominator: u64,
) -> (r: Result<AnySwapPool, ErrorCode>)
    ensures
        r is Ok <==> 0 < fee_denominator && fee_numerator <= fee_denominator,
        r is Err ==> r == Err::<AnySwapPool, ErrorCode>(ErrorCode::InvalidFee),
        r matches Ok(pool) ==> {
            &&& pool == (AnySwapPool {
                increment_count: 0,
                admin,
                pool_vault,
                pool_mint,
                fee_numerator,
                fee_denominator,
                tokens: pool.tokens,
            })
            &&& pool.tokens@ =~= Seq::<AnySwapItem>::empty()
            &&& pool.wf()
        },
{
    if fee_denominator == 0 {
        return Err(ErrorCode::InvalidFee);
    }
    if fee_numerator > fee_denominator {
        return Err(ErrorCode::InvalidFee);
    }
    Ok(
        AnySwapPool {
            increment_count: 0,
            admin,
            pool_vault,
            pool_mint,
            fee_numerator,
            fee_denominator,
            tokens: Vec::new(),
        },
    )
}

/// Adds a staking class with the given receipt identity and the default
/// weight, and consumes one step of the creation counter. Admin only.
/// The caller derives `lp_mint` from the pool identity and the current
/// creation counter, which guarantees it is fresh: no live class carries
/// it and it is not the all-zero identity.
///
/// Fails `Unauthorized` for a non-admin caller, `CapacityExceeded` when
/// the registry is full, and `MathOverflow` when the creation counter is
/// exhausted (it saturates by failing rather than wrapping); on failure
/// the pool is unchanged.
pub fn add_token_to_pool(pool: &mut AnySwapPool, admin: &Identity, lp_mint: &Identity) -> (r:
    Result<usize, ErrorCode>)
    requires
        !old(pool).has_identity(*lp_mint),
        !lp_mint.is_zero_spec(),
    ensures
        r is Ok <==> *admin == old(pool).admin && old(pool).tokens@.len() < MAX_TOKENS && old(pool).increment_count < u16::MAX,
        *admin != old(pool).admin ==> r == Err::<usize, ErrorCode>(ErrorCode::Unauthorized),
        *admin == old(pool).admin && old(pool).tokens@.len() >= MAX_TOKENS ==> r == Err::<
            usize,
            ErrorCode,
        >(ErrorCode::CapacityExceeded),
        *admin == old(pool).admin && old(pool).tokens@.len() < MAX_TOKENS && old(pool).increment_count == u16::MAX ==> r == Err::<usize, ErrorCode>(ErrorCode::MathOverflow),
        r matches Ok(index) ==> {
            &&& index == old(pool).tokens@.len()
            &&& final(pool).tokens@ == old(pool).tokens@.push(
                AnySwapItem { mint_account: *lp_mint, mint_amount: 0, weight: DEFAULT_WEIGHT },
            )
            &&& final(pool).increment_count == old(pool).increment_count + 1
            &&& *final(pool) == (AnySwapPool {
                increment_count: final(pool).increment_count,
                tokens: final(pool).tokens,
                ..*old(pool)
            })
        },
        r is Err ==> *final(pool) == *old(pool),
        old(pool).wf() ==> final(pool).wf(),
{
    match pool.verify_admin(admin) {
        Ok(()) => (),
        Err(e) => {
            return Err(e);
        },
    }
    if pool.get_token_count() >= MAX_TOKENS {
        return Err(ErrorCode::CapacityExceeded);
    }
    if pool.increment_count == u16::MAX {
        return Err(ErrorCode::MathOverflow);
    }
    let index = match pool.add_token(lp_mint, DEFAULT_WEIGHT) {
        Ok(i) => i,
        Err(e) => {
            return Err(e);
        },
    };
    pool.increment_count = pool.increment_count + 1;
    Ok(index)
}

/// Removes the staking class carrying the given receipt identity. Admin
/// only; the class must have zero outstanding supply. If the class is not
/// in the last live slot, the last live slot's record is copied into its
/// place (swap-with-last compaction), so indices are unstable across
/// removal and callers must re-resolve classes by identity afterward.
///
/// Fails `Unauthorized` for a non-admin caller, `NotFound` when no live
/// class carries the identity, and `NonZeroSupply` when receipts are
/// still outstanding; on failure the pool is unchanged. On success, under
/// well-formedness, the removed identity is no longer live.
pub fn remove_token_from_pool(pool: &mut AnySwapPool, admin: &Identity, lp_mint: &Identity) -> (r:
    Result<(), ErrorCode>)
    ensures
        *admin != old(pool).admin ==> r == Err::<(), ErrorCode>(ErrorCode::Unauthorized),
        *admin == old(pool).admin && !old(pool).has_identity(*lp_mint) ==> r == Err::<
            (),
            ErrorCode,
        >(ErrorCode::NotFound),
        *admin == old(pool).admin && (exists|i: int|
            {
                &&& 0 <= i < old(pool).tokens@.len()
                &&& (#[trigger] old(pool).tokens@[i]).mint_account == *lp_mint
                &&& forall|j: int|
                    0 <= j < i ==> (#[trigger] old(pool).tokens@[j]).mint_account != *lp_mint
                &&& old(pool).tokens@[i].mint_amount != 0
            }) ==> r == Err::<(), ErrorCode>(ErrorCode::NonZeroSupply),
        *admin == old(pool).admin && (exists|i: int|
            {
                &&& 0 <= i < old(pool).tokens@.len()
                &&& (#[trigger] old(pool).tokens@[i]).mint_account == *lp_mint
                &&& forall|j: int|
                    0 <= j < i ==> (#[trigger] old(pool).tokens@[j]).mint_account != *lp_mint
                &&& old(pool).tokens@[i].mint_amount == 0
            }) ==> r is Ok,
        r is Ok ==> (exists|i: int|
            {
                &&& 0 <= i < old(pool).tokens@.len()
                &&& (#[trigger] old(pool).tokens@[i]).mint_account == *lp_mint
                &&& old(pool).tokens@[i].mint_amount == 0
                &&& final(pool).tokens@ == old(pool).tokens@.update(
                    i,
                    old(pool).tokens@.last(),
                ).drop_last()
            }) && *final(pool) == (AnySwapPool { tokens: final(pool).tokens, ..*old(pool) }),
        r is Ok ==> final(pool).tokens@.len() == old(pool).tokens@.len() - 1,
        r is Err ==> *final(pool) == *old(pool),
        old(pool).wf() ==> final(pool).wf(),
        old(pool).wf() && r is Ok ==> forall|k: int|
            0 <= k < final(pool).tokens@.len() ==> (#[trigger] final(pool).tokens@[k]).mint_account != *lp_mint,
{
    match pool.verify_admin(admin) {
        Ok(()) => (),
        Err(e) => {
            return Err(e);
        },
    }
    let token_index = match pool.find_token_index(lp_mint) {
        Some(i) => i,
        None => {
            return Err(ErrorCode::NotFound);
        },
    };
    if pool.tokens[token_index].mint_amount != 0 {
        return Err(ErrorCode::NonZeroSupply);
    }
    let ghost old_tokens = pool.tokens@;
    let _removed = pool.tokens.swap_remove(token_index);
    proof {
        let i = token_index as int;
        let len = old_tokens.len();
        assert(old_tokens[i].mint_account == *lp_mint && old_tokens[i].mint_amount == 0
            && final(pool).tokens@ == old_tokens.update(i, old_tokens.last()).drop_last());
        if old(pool).wf() {
            assert forall|k1: int, k2: int| 0 <= k1 < k2 < final(pool).tokens@.len() implies (
            #[trigger] final(pool).tokens@[k1]).mint_account != (#[trigger] final(pool).tokens@[k2]).mint_account by {
                assert(final(pool).tokens@[k1] == if k1 == i {
                    old_tokens[len - 1]
                } else {
                    old_tokens[k1]
                });
                assert(final(pool).tokens@[k2] == if k2 == i {
                    old_tokens[len - 1]
                } else {
                    old_tokens[k2]
                });
            }
            assert forall|k: int| 0 <= k < final(pool).tokens@.len() implies (#[trigger] final(pool).tokens@[k]).mint_account != *lp_mint by {
                assert(final(pool).tokens@[k] == if k == i {
                    old_tokens[len - 1]
                } else {
                    old_tokens[k]
                });
            }
        }
    }
    Ok(())
}

/// The first failure a reweight batch hits against the given classes,
/// scanning the batch left to right: `NotFound` for an identity no class
/// carries, `InvalidWeight` for a zero weight, `None` when the whole
/// batch is valid.
pub open spec fn reweight_check(items: Seq<AnySwapItem>, updates: Seq<(Identity, u64)>) -> Option<
    ErrorCode,
>
    decreases updates.len(),
{
    if updates.len() == 0 {
        None
    } else if !seq_has_identity(items, updates[0].0) {
        Some(ErrorCode::NotFound)
    } else if updates[0].1 == 0 {
        Some(ErrorCode::InvalidWeight)
    } else {
        reweight_check(items, updates.drop_first())
    }
}

/// The weight a class with identity `id` and current weight `current`
/// carries after a reweight batch: the weight of the last update naming
/// `id`, or `current` when none does.
pub open spec fn reweighted_weight(
    updates: Seq<(Identity, u64)>,
    id: Identity,
    current: u64,
) -> u64
    decreases updates.len(),
{
    if updates.len() == 0 {
        current
    } else if updates.last().0 == id {
        updates.last().1
    } else {
        reweighted_weight(updates.drop_last(), id, current)
    }
}

/// A reweight batch whose every update naming `id` carries exactly
/// `current` leaves the weight at `current`.
proof fn lemma_reweighted_weight_fixed(updates: Seq<(Identity, u64)>, id: Identity, current: u64)
    requires
        forall|k: int|
            0 <= k < updates.len() ==> ((#[trigger] updates[k]).0 == id ==> updates[k].1
                == current),
    ensures
        reweighted_weight(updates, id, current) == current,
    decreases updates.len(),
{
    if updates.len() > 0 {
        assert(updates.last() == updates[updates.len() - 1]);
        if updates.last().0 != id {
            assert(forall|k: int|
                0 <= k < updates.drop_last().len() ==> ((#[trigger] updates.drop_last()[k]).0 == id
                    ==> updates.drop_last()[k].1 == current));
            lemma_reweighted_weight_fixed(updates.drop_last(), id, current);
        }
    }
}

/// Reweight idempotence: a batch that assigns every class it names that
/// class's current weight changes no class. Supplies and identities are
/// untouched by any reweight, so together with `modify_token_weight`'s
/// contract such a batch leaves the whole pool state — and therefore the
/// vault — exactly as it was.
pub proof fn lemma_reweight_idempotent(items: Seq<AnySwapItem>, updates: Seq<(Identity, u64)>)
    requires
        forall|k: int, i: int|
            0 <= k < updates.len() && 0 <= i < items.len() && (#[trigger] updates[k]).0 == (
            #[trigger] items[i]).mint_account ==> updates[k].1 == items[i].weight,
    ensures
        forall|i: int|
            0 <= i < items.len() ==> reweighted_weight(
                updates,
                (#[trigger] items[i]).mint_account,
                items[i].weight,
            ) == items[i].weight,
{
    assert forall|i: int| 0 <= i < items.len() implies reweighted_weight(
        updates,
        (#[trigger] items[i]).mint_account,
        items[i].weight,
    ) == items[i].weight by {
        lemma_reweighted_weight_fixed(updates, items[i].mint_account, items[i].weight);
    }
}

/// A reweight batch of positive weights keeps a positive weight positive.
proof fn lemma_reweighted_weight_pos(updates: Seq<(Identity, u64)>, id: Identity, current: u64)
    requires
        current > 0,
        forall|j: int| 0 <= j < updates.len() ==> (#[trigger] updates[j]).1 > 0,
    ensures
        reweighted_weight(updates, id, current) > 0,
    decreases updates.len(),
{
    if updates.len() > 0 && updates.last().0 != id {
        assert(forall|j: int|
            0 <= j < updates.drop_last().len() ==> (#[trigger] updates.drop_last()[j]).1 > 0);
        lemma_reweighted_weight_pos(updates.drop_last(), id, current);
    }
}

/// Retunes class weights as an all-or-nothing batch of
/// `(receipt identity, new weight)` pairs, applied in order (on duplicate
/// identities the last update wins). Admin only. Fails `Unauthorized` for
/// a non-admin caller, and per the first offending pair `NotFound` for an
/// identity no live class carries or `InvalidWeight` for a zero weight
/// (a zero weight would make the class permanently unredeemable); any
/// failure applies none of the batch. Supplies and identities are never
/// touched, so reweighting a class to its current weight changes nothing.
pub fn modify_token_weight(
    pool: &mut AnySwapPool,
    admin: &Identity,
    updates: &Vec<(Identity, u64)>,
) -> (r: Result<(), ErrorCode>)
    ensures
        *admin != old(pool).admin ==> r == Err::<(), ErrorCode>(ErrorCode::Unauthorized),
        *admin == old(pool).admin ==> {
            &&& reweight_check(old(pool).tokens@, updates@) matches Some(e) ==> r == Err::<
                (),
                ErrorCode,
            >(e)
            &&& reweight_check(old(pool).tokens@, updates@) is None ==> r is Ok
        },
        r is Ok ==> {
            &&& final(pool).tokens@.len() == old(pool).tokens@.len()
            &&& forall|i: int|
                0 <= i < old(pool).tokens@.len() ==> {
                    &&& (#[trigger] final(pool).tokens@[i]).mint_account == old(
                        pool,
                    ).tokens@[i].mint_account
                    &&& final(pool).tokens@[i].mint_amount == old(pool).tokens@[i].mint_amount
                }
            &&& *final(pool) == (AnySwapPool { tokens: final(pool).tokens, ..*old(pool) })
        },
        old(pool).wf() && r is Ok ==> forall|i: int|
            0 <= i < old(pool).tokens@.len() ==> (#[trigger] final(pool).tokens@[i])
                == (AnySwapItem {
                weight: reweighted_weight(
                    updates@,
                    old(pool).tokens@[i].mint_account,
                    old(pool).tokens@[i].weight,
                ),
                ..old(pool).tokens@[i]
            }),
        r is Err ==> *final(pool) == *old(pool),
        old(pool).wf() ==> final(pool).wf(),
{
    match pool.verify_admin(admin) {
        Ok(()) => (),
        Err(e) => {
            return Err(e);
        },
    }
    let n = updates.len();
    let mut k: usize = 0;
    proof {
        assert(updates@.skip(0) =~= updates@);
    }
    while k < n
        invariant
            k <= n,
            n == updates@.len(),
            *admin == old(pool).admin,
            *pool == *old(pool),
            reweight_check(pool.tokens@, updates@) == reweight_check(
                pool.tokens@,
                updates@.skip(k as int),
            ),
            forall|j: int|
                0 <= j < k ==> seq_has_identity(pool.tokens@, (#[trigger] updates@[j]).0)
                    && updates@[j].1 > 0,
        decreases n - k,
    {
        let id = updates[k].0;
        let w = updates[k].1;
        proof {
            assert(updates@.skip(k as int)[0] == updates@[k as int]);
        }
        match pool.find_token_index(&id) {
            Some(_) => (),
            None => {
                return Err(ErrorCode::NotFound);
            },
        }
        if w == 0 {
            return Err(ErrorCode::InvalidWeight);
        }
        proof {
            assert(updates@.skip(k as int).drop_first() =~= updates@.skip(k as int + 1));
        }
        k = k + 1;
    }
    proof {
        assert(updates@.skip(n as int) =~= Seq::<(Identity, u64)>::empty());
    }
    let ghost old_tokens = pool.tokens@;
    let mut k: usize = 0;
    while k < n
        invariant
            k <= n,
            n == updates@.len(),
            *admin == old(pool).admin,
            old_tokens == old(pool).tokens@,
            pool.tokens@.len() == old_tokens.len(),
            forall|i: int|
                0 <= i < old_tokens.len() ==> {
                    &&& (#[trigger] pool.tokens@[i]).mint_account == old_tokens[i].mint_account
                    &&& pool.tokens@[i].mint_amount == old_tokens[i].mint_amount
                },
            *pool == (AnySwapPool { tokens: pool.tokens, ..*old(pool) }),
            forall|j: int|
                0 <= j < n ==> seq_has_identity(old_tokens, (#[trigger] updates@[j]).0)
                    && updates@[j].1 > 0,
            old(pool).wf() ==> forall|i: int|
                0 <= i < old_tokens.len() ==> (#[trigger] pool.tokens@[i]).weight
                    == reweighted_weight(
                    updates@.take(k as int),
                    old_tokens[i].mint_account,
                    old_tokens[i].weight,
                ),
        decreases n - k,
    {
        let id = updates[k].0;
        let w = updates[k].1;
        let idx = match pool.find_token_index(&id) {
            Some(i) => i,
            None => {
                proof {
                    let witness = choose|i: int|
                        0 <= i < old_tokens.len() && (#[trigger] old_tokens[i]).mint_account == id;
                    assert(pool.tokens@[witness].mint_account == id);
                    assert(false);
                }
                return Err(ErrorCode::NotFound);
            },
        };
        let ghost pre_tokens = pool.tokens@;
        let item = pool.get_token_mut(idx);
        item.set_weight(w);
        proof {
            assert(updates@.take(k as int + 1).drop_last() =~= updates@.take(k as int));
            assert(updates@.take(k as int + 1).last() == updates@[k as int]);
            if old(pool).wf() {
                assert forall|i: int| 0 <= i < old_tokens.len() implies (
                #[trigger] pool.tokens@[i]).weight == reweighted_weight(
                    updates@.take(k as int + 1),
                    old_tokens[i].mint_account,
                    old_tokens[i].weight,
                ) by {
                    if i != idx {
                        assert(pool.tokens@[i] == pre_tokens[i]);
                        assert(old_tokens[i].mint_account != id);
                    }
                }
            }
        }
        k = k + 1;
    }
    proof {
        assert(updates@.take(n as int) =~= updates@);
        if old(pool).wf() {
            assert forall|i: int, j: int| 0 <= i < j < pool.tokens@.len() implies (
            #[trigger] pool.tokens@[i]).mint_account != (#[trigger] pool.tokens@[j]).mint_account
                by {
                assert(old_tokens[i].mint_account != old_tokens[j].mint_account);
            }
            assert forall|i: int| 0 <= i < pool.tokens@.len() implies (
            #[trigger] pool.tokens@[i]).weight > 0 && !pool.tokens@[i].mint_account.is_zero_spec()
                by {
                lemma_reweighted_weight_pos(
                    updates@,
                    old_tokens[i].mint_account,
                    old_tokens[i].weight,
                );
            }
        }
    }
    Ok(())
}

/// Audit record of a successful stake: the class staked into, the gross
/// deposit, the fee retained in the vault, and the receipts minted. The
/// external collaborators move `stake_amount` into the vault and mint
/// `lp_minted` receipts to the depositor.
#[derive(Clone, Copy, Debug, PartialEq, Eq, Structural)]
pub struct StakeRecord {
    /// Index of the class staked into.
    pub item_index: usize,
    /// Gross amount deposited into the vault.
    pub stake_amount: u64,
    /// Fee split off the deposit; it stays in the vault and accrues
    /// pro rata to all classes through the redemption formula.
    pub fee_amount: u64,
    /// Receipts minted to the depositor: the deposit net of the fee.
    pub lp_minted: u64,
}

/// Audit record of a successful unstake: the class redeemed from, the
/// receipts burned, and the main asset paid out. The external
/// collaborators burn `lp_burned` receipts from the caller and move
/// `redeem_amount` from the vault to the caller.
#[derive(Clone, Copy, Debug, PartialEq, Eq, Structural)]
pub struct UnstakeRecord {
    /// Index of the class redeemed from.
    pub item_index: usize,
    /// Receipts burned.
    pub lp_burned: u64,
    /// Main asset paid out of the vault; never exceeds the vault balance.
    pub redeem_amount: u64,
}

/// Stakes `stake_amount` of the main asset into the class at
/// `item_index`: splits the deposit into fee and net under the pool's fee
/// ratio and grows the class supply by the net amount. The full deposit,
/// fee included, goes into the vault (the external collaborator moves it),
/// so the fee accrues pro rata to all classes.
///
/// Fails `InvalidAmount` on a zero deposit, `InvalidIndex` on an index at
/// or beyond the live class count, and `MathOverflow` when the fee split
/// fails or the class supply would wrap; on failure the pool is
/// unchanged. On a well-formed pool only supply wraparound can fail past
/// the two argument checks.
pub fn stake(pool: &mut AnySwapPool, item_index: usize, stake_amount: u64) -> (r: Result<
    StakeRecord,
    ErrorCode,
>)
    ensures
        stake_amount == 0 ==> r == Err::<StakeRecord, ErrorCode>(ErrorCode::InvalidAmount),
        stake_amount > 0 && item_index >= old(pool).tokens@.len() ==> r == Err::<
            StakeRecord,
            ErrorCode,
        >(ErrorCode::InvalidIndex),
        ({
            let fee = crate::pool::fee_of(
                stake_amount as int,
                old(pool).fee_numerator as int,
                old(pool).fee_denominator as int,
            );
            stake_amount > 0 && item_index < old(pool).tokens@.len() ==> {
                &&& old(pool).fee_denominator == 0 || fee > stake_amount ==> r == Err::<
                    StakeRecord,
                    ErrorCode,
                >(ErrorCode::MathOverflow)
                &&& old(pool).fee_denominator > 0 && fee <= stake_amount && old(
                    pool,
                ).tokens@[item_index as int].mint_amount + (stake_amount - fee) > u64::MAX ==> r
                    == Err::<StakeRecord, ErrorCode>(ErrorCode::MathOverflow)
                &&& old(pool).fee_denominator > 0 && fee <= stake_amount && old(
                    pool,
                ).tokens@[item_index as int].mint_amount + (stake_amount - fee) <= u64::MAX ==> (r
                    matches Ok(record) && {
                    &&& record == (StakeRecord {
                        item_index,
                        stake_amount,
                        fee_amount: fee as u64,
                        lp_minted: (stake_amount - fee) as u64,
                    })
                    &&& final(pool).tokens@ == old(pool).tokens@.update(
                        item_index as int,
                        AnySwapItem {
                            mint_amount: (old(pool).tokens@[item_index as int].mint_amount + (
                            stake_amount - fee)) as u64,
                            ..old(pool).tokens@[item_index as int]
                        },
                    )
                    &&& *final(pool) == (AnySwapPool { tokens: final(pool).tokens, ..*old(pool) })
                })
            }
        }),
        r is Err ==> *final(pool) == *old(pool),
        old(pool).wf() ==> final(pool).wf(),
        old(pool).fee_numerator <= old(pool).fee_denominator && 0 < old(pool).fee_denominator
            && stake_amount > 0 && item_index < old(pool).tokens@.len() && old(
            pool,
        ).tokens@[item_index as int].mint_amount + stake_amount <= u64::MAX ==> r is Ok,
{
    if stake_amount == 0 {
        return Err(ErrorCode::InvalidAmount);
    }
    if item_index >= pool.get_token_count() {
        return Err(ErrorCode::InvalidIndex);
    }
    let (fee_amount, amount_after_fee) = match pool.calculate_fee(stake_amount) {
        Ok(split) => split,
        Err(e) => {
            return Err(e);
        },
    };
    if amount_after_fee > u64::MAX - pool.tokens[item_index].mint_amount {
        return Err(ErrorCode::MathOverflow);
    }
    let item = pool.get_token_mut(item_index);
    match item.add_mint_amount(amount_after_fee) {
        Ok(()) => (),
        Err(e) => {
            return Err(e);
        },
    }
    proof {
        if old(pool).wf() {
            assert forall|i: int, j: int| 0 <= i < j < pool.tokens@.len() implies (
            #[trigger] pool.tokens@[i]).mint_account != (#[trigger] pool.tokens@[j]).mint_account
                by {
                assert(old(pool).tokens@[i].mint_account != old(pool).tokens@[j].mint_account);
            }
        }
    }
    Ok(StakeRecord { item_index, stake_amount, fee_amount, lp_minted: amount_after_fee })
}

/// Burns `lp_amount` receipts of the class at `item_index` and computes
/// the main asset redeemable against `pool_vault_balance` under the
/// weighted-share formula, shrinking the class supply by the burned
/// amount. The payout never exceeds the vault balance; the balance check
/// and the checked supply decrement stand as a second line of defense
/// behind that guarantee.
///
/// Fails `InvalidAmount` on a zero burn and otherwise exactly as the
/// redemption calculator does; on failure the pool is unchanged.
pub fn unstake(
    pool: &mut AnySwapPool,
    item_index: usize,
    lp_amount: u64,
    pool_vault_balance: u64,
) -> (r: Result<UnstakeRecord, ErrorCode>)
    ensures
        lp_amount == 0 ==> r == Err::<UnstakeRecord, ErrorCode>(ErrorCode::InvalidAmount),
        lp_amount > 0 && item_index >= old(pool).tokens@.len() ==> r == Err::<
            UnstakeRecord,
            ErrorCode,
        >(ErrorCode::InvalidIndex),
        ({
            let items = old(pool).tokens@;
            let tw = crate::pool::total_weighted(items);
            lp_amount > 0 && item_index < items.len() ==> {
                let w = items[item_index as int].weight;
                let s = items[item_index as int].mint_amount;
                &&& w == 0 ==> r == Err::<UnstakeRecord, ErrorCode>(ErrorCode::ZeroWeight)
                &&& w > 0 && s < lp_amount ==> r == Err::<UnstakeRecord, ErrorCode>(
                    ErrorCode::InsufficientLiquidity,
                )
                &&& w > 0 && lp_amount <= s && tw > u128::MAX ==> r == Err::<
                    UnstakeRecord,
                    ErrorCode,
                >(ErrorCode::MathOverflow)
                &&& w > 0 && lp_amount <= s && pool_vault_balance * lp_amount * w > u128::MAX
                    && 0 < tw <= u128::MAX ==> r == Err::<UnstakeRecord, ErrorCode>(
                    ErrorCode::MathOverflow,
                )
                &&& w > 0 && lp_amount <= s && 0 < tw <= u128::MAX && pool_vault_balance
                    * lp_amount * w <= u128::MAX ==> (r matches Ok(record) && {
                    &&& record.item_index == item_index
                    &&& record.lp_burned == lp_amount
                    &&& record.redeem_amount == crate::pool::redeem_of(
                        pool_vault_balance as int,
                        lp_amount as int,
                        w as int,
                        tw,
                    )
                    &&& record.redeem_amount <= pool_vault_balance
                    &&& final(pool).tokens@ == items.update(
                        item_index as int,
                        AnySwapItem {
                            mint_amount: (s - lp_amount) as u64,
                            ..items[item_index as int]
                        },
                    )
                    &&& *final(pool) == (AnySwapPool { tokens: final(pool).tokens, ..*old(pool) })
                })
            }
        }),
        r is Err ==> *final(pool) == *old(pool),
        old(pool).wf() ==> final(pool).wf(),
{
    if lp_amount == 0 {
        return Err(ErrorCode::InvalidAmount);
    }
    let redeem_amount = match pool.calculate_redeem_amount(
        lp_amount,
        item_index,
        pool_vault_balance,
    ) {
        Ok(amount) => amount,
        Err(e) => {
            return Err(e);
        },
    };
    if redeem_amount > pool_vault_balance {
        return Err(ErrorCode::InsufficientLiquidity);
    }
    let item = pool.get_token_mut(item_index);
    match item.sub_mint_amount(lp_amount) {
        Ok(()) => (),
        Err(e) => {
            return Err(e);
        },
    }
    proof {
        if old(pool).wf() {
            assert forall|i: int, j: int| 0 <= i < j < pool.tokens@.len() implies (
            #[trigger] pool.tokens@[i]).mint_account != (#[trigger] pool.tokens@[j]).mint_account
                by {
                assert(old(pool).tokens@[i].mint_account != old(pool).tokens@[j].mint_account);
            }
        }
    }
    Ok(UnstakeRecord { item_index, lp_burned: lp_amount, redeem_amount })
}

} // verus!
