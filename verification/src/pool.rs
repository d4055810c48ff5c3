use vstd::arithmetic::mul::lemma_mul_nonnegative;
use vstd::prelude::*;

use crate::error::ErrorCode;
use crate::ident::Identity;
use crate::item::AnySwapItem;
use crate::math::{lemma_div_le, lemma_mul_le_iff_div, lemma_redeem_le_vault};

verus! {

/// Capacity of the class registry: the fixed number of class slots in the
/// persisted pool record.
pub const MAX_TOKENS: usize = 512;

/// The staking pool: admin and account identities, the fee ratio fixed at
/// creation, a monotonic creation counter, and the registry of live
/// staking classes.
#[derive(Debug)]
pub struct AnySwapPool {
    /// Creation counter: incremented on every class addition, never
    /// decremented. External identity derivation folds it into each new
    /// receipt identity, so removed classes' identities are never reissued.
    pub increment_count: u16,
    /// Admin identity checked before every mutating admin operation.
    pub admin: Identity,
    /// Identity of the vault account holding all deposited main asset.
    pub pool_vault: Identity,
    /// Identity of the pool's main asset.
    pub pool_mint: Identity,
    /// Fee ratio numerator; at most `fee_denominator`.
    pub fee_numerator: u64,
    /// Fee ratio denominator; positive.
    pub fee_denominator: u64,
    /// The live classes, in slot order; at most `MAX_TOKENS`.
    pub tokens: Vec<AnySwapItem>,
}

/// The weighted supply `sum(weight_i * mint_amount_i)` over a sequence of
/// classes: the denominator of the redemption formula.
pub open spec fn total_weighted(items: Seq<AnySwapItem>) -> int
    decreases items.len(),
{
    if items.len() == 0 {
        0
    } else {
        total_weighted(items.drop_last()) + items.last().weighted()
    }
}

/// The weighted supply of any class sequence is nonnegative.
pub proof fn lemma_total_weighted_nonneg(items: Seq<AnySwapItem>)
    ensures
        0 <= total_weighted(items),
    decreases items.len(),
{
    if items.len() > 0 {
        lemma_total_weighted_nonneg(items.drop_last());
        lemma_mul_nonnegative(items.last().weight as int, items.last().mint_amount as int);
    }
}

/// Extending a prefix by one class adds that class's weighted supply.
pub proof fn lemma_total_weighted_take_step(items: Seq<AnySwapItem>, i: int)
    requires
        0 <= i < items.len(),
    ensures
        total_weighted(items.take(i + 1)) == total_weighted(items.take(i)) + items[i].weighted(),
{
    assert(items.take(i + 1).drop_last() =~= items.take(i));
    assert(items.take(i + 1).last() == items[i]);
}

/// Every prefix's weighted supply is at most the whole sequence's.
pub proof fn lemma_total_weighted_prefix_le(items: Seq<AnySwapItem>, i: int)
    requires
        0 <= i <= items.len(),
    ensures
        total_weighted(items.take(i)) <= total_weighted(items),
    decreases items.len() - i,
{
    if i == items.len() {
        assert(items.take(i) =~= items);
    } else {
        lemma_total_weighted_take_step(items, i);
        lemma_mul_nonnegative(items[i].weight as int, items[i].mint_amount as int);
        lemma_total_weighted_prefix_le(items, i + 1);
    }
}

/// Each class's weighted supply is at most the weighted supply of the
/// whole sequence.
pub proof fn lemma_total_weighted_term_le(items: Seq<AnySwapItem>, i: int)
    requires
        0 <= i < items.len(),
    ensures
        items[i].weighted() <= total_weighted(items),
    decreases items.len(),
{
    lemma_mul_nonnegative(items.last().weight as int, items.last().mint_amount as int);
    if i == items.len() - 1 {
        lemma_total_weighted_nonneg(items.drop_last());
    } else {
        assert(items.drop_last()[i] == items[i]);
        lemma_total_weighted_term_le(items.drop_last(), i);
    }
}

/// Replacing one class changes the weighted supply by the difference of
/// the two classes' weighted supplies.
pub proof fn lemma_total_weighted_update(items: Seq<AnySwapItem>, i: int, x: AnySwapItem)
    requires
        0 <= i < items.len(),
    ensures
        total_weighted(items.update(i, x)) == total_weighted(items) - items[i].weighted()
            + x.weighted(),
    decreases items.len(),
{
    let u = items.update(i, x);
    if i == items.len() - 1 {
        assert(u.drop_last() =~= items.drop_last());
        assert(u.last() == x);
    } else {
        assert(u.drop_last() =~= items.drop_last().update(i, x));
        assert(u.last() == items.last());
        assert(items.drop_last()[i] == items[i]);
        lemma_total_weighted_update(items.drop_last(), i, x);
    }
}

/// Whether some class in the sequence carries the given receipt identity.
pub open spec fn seq_has_identity(items: Seq<AnySwapItem>, id: Identity) -> bool {
    exists|i: int| 0 <= i < items.len() && (#[trigger] items[i]).mint_account == id
}

/// The total paid out by redeeming the full outstanding supply of every
/// class in the sequence, all against the same vault balance `v` and
/// weighted supply `t`: the sum over the classes of
/// `redeem_of(v, mint_amount_i, weight_i, t)`.
pub open spec fn sum_full_redeem(items: Seq<AnySwapItem>, v: int, t: int) -> int
    recommends
        t > 0,
    decreases items.len(),
{
    if items.len() == 0 {
        0
    } else {
        sum_full_redeem(items.drop_last(), v, t) + redeem_of(
            v,
            items.last().mint_amount as int,
            items.last().weight as int,
            t,
        )
    }
}

/// The simultaneous full redemption of a class sequence is bounded by
/// `v * total_weighted(items) / t`.
proof fn lemma_sum_full_redeem_le(items: Seq<AnySwapItem>, v: int, t: int)
    requires
        0 <= v,
        0 < t,
    ensures
        sum_full_redeem(items, v, t) <= v * total_weighted(items) / t,
    decreases items.len(),
{
    if items.len() == 0 {
        assert(v * 0 == 0) by {
            vstd::arithmetic::mul::lemma_mul_basics(v);
        }
        vstd::arithmetic::div_mod::lemma_div_of0(t);
    } else {
        let prefix = items.drop_last();
        let s = items.last().mint_amount as int;
        let w = items.last().weight as int;
        lemma_sum_full_redeem_le(prefix, v, t);
        assert(v * s * w == v * (w * s)) by {
            vstd::arithmetic::mul::lemma_mul_is_associative(v, s, w);
            vstd::arithmetic::mul::lemma_mul_is_commutative(s, w);
        }
        lemma_total_weighted_nonneg(prefix);
        lemma_mul_nonnegative(v, total_weighted(prefix));
        lemma_mul_nonnegative(v, w * s);
        crate::math::lemma_div_sum_le(v * total_weighted(prefix), v * (w * s), t);
        assert(v * total_weighted(prefix) + v * (w * s) == v * total_weighted(items)) by {
            vstd::arithmetic::mul::lemma_mul_is_distributive_add(
                v,
                total_weighted(prefix),
                w * s,
            );
        }
        crate::math::lemma_div_le(
            v * total_weighted(prefix) + v * (w * s),
            v * total_weighted(items),
            t,
        );
    }
}

/// Solvency: redeeming the full outstanding supply of every class
/// simultaneously, each class paid `redeem_of` against the same vault
/// balance `v` and the weighted supply of the whole sequence, never pays
/// out more than `v`. Floor rounding leaves the dust in the vault.
pub proof fn lemma_solvency(items: Seq<AnySwapItem>, v: int)
    requires
        0 <= v,
        0 < total_weighted(items),
    ensures
        sum_full_redeem(items, v, total_weighted(items)) <= v,
{
    let t = total_weighted(items);
    lemma_sum_full_redeem_le(items, v, t);
    assert(v * t / t == v) by {
        vstd::arithmetic::mul::lemma_mul_is_commutative(v, t);
        vstd::arithmetic::div_mod::lemma_div_multiples_vanish(v, t);
    }
}

/// The weighted supplies of two distinct classes together are at most the
/// weighted supply of the whole sequence.
pub proof fn lemma_total_weighted_pair_le(items: Seq<AnySwapItem>, i: int, j: int)
    requires
        0 <= i < j < items.len(),
    ensures
        items[i].weighted() + items[j].weighted() <= total_weighted(items),
    decreases items.len(),
{
    if j == items.len() - 1 {
        lemma_total_weighted_term_le(items.drop_last(), i);
        assert(items.drop_last()[i] == items[i]);
    } else {
        lemma_total_weighted_pair_le(items.drop_last(), i, j);
        assert(items.drop_last()[i] == items[i]);
        assert(items.drop_last()[j] == items[j]);
        lemma_mul_nonnegative(items.last().weight as int, items.last().mint_amount as int);
    }
}

/// Weighted proportionality between two live classes `a` and `b` with
/// positive supplies, against a vault balance `v`.
///
/// First, exhausting A and then B never overdraws the vault: redeeming
/// all of A pays `ra`, and redeeming all of B afterwards — against the
/// reduced vault `v - ra` and the weighted supply of the sequence with
/// A's supply zeroed — pays at most the rest, so the two payouts sum to
/// at most `v`. The two roles are symmetric, so instantiating `a` and `b`
/// the other way round covers the opposite order.
///
/// Second, the per-unit redemption rates of A and B, measured in the same
/// state, stand in the ratio of their weights up to floor rounding:
/// dividing the two cross-product bounds by `s_a * s_b` reads
/// `(ra / s_a) : (rb / s_b)` is `w_a : w_b`, tight to within one rounding
/// unit on each side.
pub proof fn lemma_weighted_proportionality(items: Seq<AnySwapItem>, v: int, a: int, b: int)
    requires
        0 <= v,
        0 <= a < items.len(),
        0 <= b < items.len(),
        a != b,
        items[a].mint_amount > 0,
        items[b].mint_amount > 0,
        items[a].weight > 0,
        items[b].weight > 0,
    ensures
        ({
            let t = total_weighted(items);
            let sa = items[a].mint_amount as int;
            let wa = items[a].weight as int;
            let sb = items[b].mint_amount as int;
            let wb = items[b].weight as int;
            let ra = redeem_of(v, sa, wa, t);
            let rb = redeem_of(v, sb, wb, t);
            let drained = items.update(a, AnySwapItem { mint_amount: 0, ..items[a] });
            let rb_after = redeem_of(v - ra, sb, wb, total_weighted(drained));
            &&& 0 < t
            &&& 0 < total_weighted(drained)
            &&& 0 <= ra <= v
            &&& 0 <= rb_after <= v - ra
            &&& ra + rb_after <= v
            &&& ra * (sb * wb) < (rb + 1) * (sa * wa)
            &&& rb * (sa * wa) < (ra + 1) * (sb * wb)
        }),
{
    let t = total_weighted(items);
    let sa = items[a].mint_amount as int;
    let wa = items[a].weight as int;
    let sb = items[b].mint_amount as int;
    let wb = items[b].weight as int;
    assert(0 < wa * sa && 0 < wb * sb) by {
        vstd::arithmetic::mul::lemma_mul_strictly_positive(wa, sa);
        vstd::arithmetic::mul::lemma_mul_strictly_positive(wb, sb);
    }
    if a < b {
        lemma_total_weighted_pair_le(items, a, b);
    } else {
        lemma_total_weighted_pair_le(items, b, a);
    }
    lemma_total_weighted_term_le(items, a);
    lemma_total_weighted_term_le(items, b);

    // Exhausting A, then B.
    let ra = redeem_of(v, sa, wa, t);
    assert(sa * wa == items[a].weighted() && sb * wb == items[b].weighted()) by {
        vstd::arithmetic::mul::lemma_mul_is_commutative(sa, wa);
        vstd::arithmetic::mul::lemma_mul_is_commutative(sb, wb);
    }
    lemma_redeem_le_vault(v, sa, wa, t);
    assert(0 <= ra) by {
        lemma_mul_nonnegative(v, sa);
        lemma_mul_nonnegative(v * sa, wa);
        vstd::arithmetic::div_mod::lemma_div_pos_is_pos(v * sa * wa, t);
    }
    let drained = items.update(a, AnySwapItem { mint_amount: 0, ..items[a] });
    lemma_total_weighted_update(items, a, AnySwapItem { mint_amount: 0, ..items[a] });
    assert((AnySwapItem { mint_amount: 0, ..items[a] }).weighted() == 0) by {
        vstd::arithmetic::mul::lemma_mul_basics(wa);
    }
    assert(total_weighted(drained) == t - items[a].weighted());
    lemma_redeem_le_vault(v - ra, sb, wb, total_weighted(drained));
    let rb_after = redeem_of(v - ra, sb, wb, total_weighted(drained));
    assert(0 <= rb_after) by {
        lemma_mul_nonnegative(v - ra, sb);
        lemma_mul_nonnegative((v - ra) * sb, wb);
        vstd::arithmetic::div_mod::lemma_div_pos_is_pos((v - ra) * sb * wb, total_weighted(drained));
    }

    // Rate ratio, by the floor characterization of both redemptions.
    let rb = redeem_of(v, sb, wb, t);
    let xa = v * sa * wa;
    let xb = v * sb * wb;
    assert(0 <= xa && 0 <= xb) by {
        lemma_mul_nonnegative(v, sa);
        lemma_mul_nonnegative(v * sa, wa);
        lemma_mul_nonnegative(v, sb);
        lemma_mul_nonnegative(v * sb, wb);
    }
    assert(0 <= rb) by {
        vstd::arithmetic::div_mod::lemma_div_pos_is_pos(xb, t);
    }
    assert(t * ra <= xa && xa < t * (ra + 1)) by {
        vstd::arithmetic::div_mod::lemma_fundamental_div_mod(xa, t);
        vstd::arithmetic::div_mod::lemma_mod_bound(xa, t);
        vstd::arithmetic::mul::lemma_mul_is_distributive_add(t, ra, 1);
        vstd::arithmetic::mul::lemma_mul_basics(t);
    }
    assert(t * rb <= xb && xb < t * (rb + 1)) by {
        vstd::arithmetic::div_mod::lemma_fundamental_div_mod(xb, t);
        vstd::arithmetic::div_mod::lemma_mod_bound(xb, t);
        vstd::arithmetic::mul::lemma_mul_is_distributive_add(t, rb, 1);
        vstd::arithmetic::mul::lemma_mul_basics(t);
    }
    assert(ra * (sb * wb) < (rb + 1) * (sa * wa)) by (nonlinear_arith)
        requires
            0 < t,
            0 <= v,
            0 <= ra,
            0 <= rb,
            0 < sa * wa,
            0 < sb * wb,
            t * ra <= v * sa * wa,
            v * sb * wb < t * (rb + 1),
    {
    }
    assert(rb * (sa * wa) < (ra + 1) * (sb * wb)) by (nonlinear_arith)
        requires
            0 < t,
            0 <= v,
            0 <= ra,
            0 <= rb,
            0 < sa * wa,
            0 < sb * wb,
            t * rb <= v * sb * wb,
            v * sa * wa < t * (ra + 1),
    {
    }
}

/// The fee taken from a deposit of `amount` under the ratio
/// `numerator / denominator`: `floor(amount * numerator / denominator)`.
pub open spec fn fee_of(amount: int, numerator: int, denominator: int) -> int
    recommends
        denominator != 0,
{
    amount * numerator / denominator
}

/// The amount redeemable for burning `lp` receipts of a class of weight
/// `w` against a vault of `v`, out of weighted supply `t`:
/// `floor(v * lp * w / t)`.
pub open spec fn redeem_of(v: int, lp: int, w: int, t: int) -> int
    recommends
        t > 0,
{
    v * lp * w / t
}

impl AnySwapPool {
    /// Well-formedness: the fee ratio is as validated at creation, the
    /// registry is within capacity, and every live class has a positive
    /// weight and a non-zero receipt identity that is unique among live
    /// classes.
    pub open spec fn wf(self) -> bool {
        &&& 0 < self.fee_denominator
        &&& self.fee_numerator <= self.fee_denominator
        &&& self.tokens@.len() <= MAX_TOKENS
        &&& forall|i: int|
            0 <= i < self.tokens@.len() ==> {
                &&& (#[trigger] self.tokens@[i]).weight > 0
                &&& !self.tokens@[i].mint_account.is_zero_spec()
            }
        &&& forall|i: int, j: int|
            0 <= i < j < self.tokens@.len()
                ==> (#[trigger] self.tokens@[i]).mint_account != (
            #[trigger] self.tokens@[j]).mint_account
    }

    /// Whether some live class carries the given receipt identity.
    pub open spec fn has_identity(self, id: Identity) -> bool {
        seq_has_identity(self.tokens@, id)
    }

    /// The number of live classes.
    pub fn get_token_count(&self) -> (r: usize)
        ensures
            r == self.tokens@.len(),
    {
        self.tokens.len()
    }

    /// Checks that `admin` is the pool's stored admin; fails
    /// `Unauthorized` otherwise. Required before any mutating admin
    /// operation.
    pub fn verify_admin(&self, admin: &Identity) -> (r: Result<(), ErrorCode>)
        ensures
            r is Ok <==> *admin == self.admin,
            r is Err ==> r == Err::<(), ErrorCode>(ErrorCode::Unauthorized),
    {
        if *admin == self.admin {
            Ok(())
        } else {
            Err(ErrorCode::Unauthorized)
        }
    }

    /// The fee ratio numerator.
    pub fn get_fee_numerator(&self) -> (r: u64)
        ensures
            r == self.fee_numerator,
    {
        self.fee_numerator
    }

    /// The fee ratio denominator.
    pub fn get_fee_denominator(&self) -> (r: u64)
        ensures
            r == self.fee_denominator,
    {
        self.fee_denominator
    }

    /// Replaces the fee ratio.
    pub fn set_fee(&mut self, fee_numerator: u64, fee_denominator: u64)
        ensures
            *final(self) == (AnySwapPool { fee_numerator, fee_denominator, ..*old(self) }),
    {
        self.fee_numerator = fee_numerator;
        self.fee_denominator = fee_denominator;
    }

    /// The identity of the pool's vault account.
    pub fn get_pool_vault(&self) -> (r: &Identity)
        ensures
            *r == self.pool_vault,
    {
        &self.pool_vault
    }

    /// The identity of the pool's main asset.
    pub fn get_pool_mint(&self) -> (r: &Identity)
        ensures
            *r == self.pool_mint,
    {
        &self.pool_mint
    }

    /// Replaces the vault account identity.
    pub fn set_pool_vault(&mut self, vault: &Identity)
        ensures
            *final(self) == (AnySwapPool { pool_vault: *vault, ..*old(self) }),
    {
        self.pool_vault = *vault;
    }

    /// Replaces the main asset identity.
    pub fn set_pool_mint(&mut self, mint: &Identity)
        ensures
            *final(self) == (AnySwapPool { pool_mint: *mint, ..*old(self) }),
    {
        self.pool_mint = *mint;
    }

    /// The index of the live class carrying the given receipt identity,
    /// or `None` if no live class carries it. Returns the first match in
    /// slot order; under well-formedness the match is unique.
    pub fn find_token_index(&self, mint: &Identity) -> (r: Option<usize>)
        ensures
            r matches Some(i) ==> {
                &&& i < self.tokens@.len()
                &&& self.tokens@[i as int].mint_account == *mint
                &&& forall|j: int|
                    0 <= j < i ==> (#[trigger] self.tokens@[j]).mint_account != *mint
            },
            r is Some <==> self.has_identity(*mint),
    {
        let count = self.tokens.len();
        let mut i: usize = 0;
        while i < count
            invariant
                i <= count,
                count == self.tokens@.len(),
                forall|j: int| 0 <= j < i ==> (#[trigger] self.tokens@[j]).mint_account != *mint,
            decreases count - i,
        {
            if self.tokens[i].mint_account == *mint {
                return Some(i);
            }
            i = i + 1;
        }
        None
    }

    /// The index of the live class carrying the given receipt identity.
    pub fn get_token_index_by_mint(&self, mint: &Identity) -> (r: Option<usize>)
        ensures
            r matches Some(i) ==> {
                &&& i < self.tokens@.len()
                &&& self.tokens@[i as int].mint_account == *mint
            },
            r is Some <==> self.has_identity(*mint),
    {
        self.find_token_index(mint)
    }

    /// The class at `index`, or `None` if `index` is at or beyond the live
    /// class count.
    pub fn get_token(&self, index: usize) -> (r: Option<&AnySwapItem>)
        ensures
            r matches Some(item) ==> index < self.tokens@.len() && *item == self.tokens@[index as int],
            r is Some <==> index < self.tokens@.len(),
    {
        if index < self.tokens.len() {
            Some(&self.tokens[index])
        } else {
            None
        }
    }

    /// The live class carrying the given receipt identity, or `None` if no
    /// live class carries it.
    pub fn get_token_by_mint(&self, mint: &Identity) -> (r: Option<&AnySwapItem>)
        ensures
            r matches Some(item) ==> item.mint_account == *mint && (exists|i: int|
                0 <= i < self.tokens@.len() && (#[trigger] self.tokens@[i]) == *item),
            r is Some <==> self.has_identity(*mint),
    {
        match self.find_token_index(mint) {
            Some(index) => Some(&self.tokens[index]),
            None => None,
        }
    }

    /// A mutable borrow of the class at `index`. Bounds are a
    /// precondition here: mutable borrows cannot be wrapped in an option,
    /// so callers check the index first.
    pub fn get_token_mut(&mut self, index: usize) -> (r: &mut AnySwapItem)
        requires
            index < old(self).tokens@.len(),
        ensures
            *r == old(self).tokens@[index as int],
            final(self).tokens@ == old(self).tokens@.update(index as int, *final(r)),
            *final(self) == (AnySwapPool { tokens: final(self).tokens, ..*old(self) }),
    {
        &mut self.tokens[index]
    }

    /// Appends a class with the given receipt identity and weight, supply
    /// zero, at index `class count`. Fails `CapacityExceeded` when the
    /// registry is full and `InvalidWeight` on a zero weight; on failure
    /// the pool is unchanged. Adding a fresh, non-zero identity to a
    /// well-formed pool keeps it well-formed.
    pub fn add_token(&mut self, lp_mint: &Identity, weight: u64) -> (r: Result<usize, ErrorCode>)
        ensures
            r is Ok <==> old(self).tokens@.len() < MAX_TOKENS && weight > 0,
            r matches Ok(index) ==> {
                &&& index == old(self).tokens@.len()
                &&& final(self).tokens@ == old(self).tokens@.push(
                    AnySwapItem { mint_account: *lp_mint, mint_amount: 0, weight },
                )
                &&& *final(self) == (AnySwapPool { tokens: final(self).tokens, ..*old(self) })
            },
            r is Err ==> *final(self) == *old(self),
            old(self).tokens@.len() == MAX_TOKENS ==> r == Err::<usize, ErrorCode>(
                ErrorCode::CapacityExceeded,
            ),
            old(self).tokens@.len() < MAX_TOKENS && weight == 0 ==> r == Err::<usize, ErrorCode>(
                ErrorCode::InvalidWeight,
            ),
            old(self).wf() && weight > 0 && !old(self).has_identity(*lp_mint)
                && !lp_mint.is_zero_spec() ==> final(self).wf(),
    {
        if self.tokens.len() >= MAX_TOKENS {
            return Err(ErrorCode::CapacityExceeded);
        }
        if weight == 0 {
            return Err(ErrorCode::InvalidWeight);
        }
        let index = self.tokens.len();
        self.tokens.push(AnySwapItem { mint_account: *lp_mint, mint_amount: 0, weight });
        Ok(index)
    }

    /// Bytes of the persisted pool record: an 8-byte discriminator, the
    /// header fields, and `MAX_TOKENS` fixed-size class records. The
    /// record is preallocated and never resized, which is why removal
    /// compacts by swap-with-last instead of shifting.
    pub fn space() -> (r: usize)
        ensures
            r == 8 + 2 + 2 + 4 + 32 + 32 + 32 + 8 + 8 + MAX_TOKENS * 48,
    {
        8 + 2 + 2 + 4 + 32 + 32 + 32 + 8 + 8 + MAX_TOKENS * AnySwapItem::space()
    }

    /// Splits a deposit into `(fee, net)` under the pool's fee ratio:
    /// `fee = floor(amount * fee_numerator / fee_denominator)` and
    /// `net = amount - fee`, computed in 128 bits so no intermediate
    /// overflows for any 64-bit operands. Whenever the fee ratio is as
    /// validated at creation (`fee_numerator <= fee_denominator`, positive
    /// denominator), the split succeeds and `fee + net == amount`; a zero
    /// denominator or a fee beyond `amount` fails `MathOverflow`.
    pub fn calculate_fee(&self, amount: u64) -> (r: Result<(u64, u64), ErrorCode>)
        ensures
            r is Ok <==> 0 < self.fee_denominator && fee_of(
                amount as int,
                self.fee_numerator as int,
                self.fee_denominator as int,
            ) <= amount,
            r matches Ok(split) ==> {
                &&& split.0 == fee_of(
                    amount as int,
                    self.fee_numerator as int,
                    self.fee_denominator as int,
                )
                &&& split.0 + split.1 == amount
            },
            r is Err ==> r == Err::<(u64, u64), ErrorCode>(ErrorCode::MathOverflow),
            self.fee_numerator <= self.fee_denominator && 0 < self.fee_denominator ==> r is Ok,
    {
        let numerator = self.fee_numerator;
        let denominator = self.fee_denominator;
        if denominator == 0 {
            return Err(ErrorCode::MathOverflow);
        }
        assert((amount as u128) * (numerator as u128) <= u128::MAX) by {
            vstd::arithmetic::mul::lemma_mul_upper_bound(
                amount as int,
                u64::MAX as int,
                numerator as int,
                u64::MAX as int,
            );
        }
        let scaled: u128 = (amount as u128) * (numerator as u128);
        let fee_wide: u128 = scaled / (denominator as u128);
        proof {
            if numerator <= denominator {
                assert(amount * numerator <= amount * denominator) by {
                    vstd::arithmetic::mul::lemma_mul_inequality(
                        numerator as int,
                        denominator as int,
                        amount as int,
                    );
                    vstd::arithmetic::mul::lemma_mul_is_commutative(
                        numerator as int,
                        amount as int,
                    );
                    vstd::arithmetic::mul::lemma_mul_is_commutative(
                        denominator as int,
                        amount as int,
                    );
                }
                lemma_div_le(amount * numerator, amount * denominator, denominator as int);
                assert((amount * denominator) / (denominator as int) == amount as int) by {
                    vstd::arithmetic::div_mod::lemma_div_multiples_vanish(
                        amount as int,
                        denominator as int,
                    );
                    vstd::arithmetic::mul::lemma_mul_is_commutative(
                        amount as int,
                        denominator as int,
                    );
                }
            }
        }
        if fee_wide > amount as u128 {
            return Err(ErrorCode::MathOverflow);
        }
        let fee = fee_wide as u64;
        Ok((fee, amount - fee))
    }

    /// Sums `weight_i * mint_amount_i` over all live classes in 128 bits:
    /// the denominator of the redemption formula. Fails `MathOverflow` if
    /// the sum exceeds 128 bits and `InsufficientLiquidity` if it is zero,
    /// since nothing is redeemable then.
    pub fn calculate_total_weighted_mint_amount(&self) -> (r: Result<u128, ErrorCode>)
        ensures
            total_weighted(self.tokens@) > u128::MAX ==> r == Err::<u128, ErrorCode>(
                ErrorCode::MathOverflow,
            ),
            total_weighted(self.tokens@) == 0 ==> r == Err::<u128, ErrorCode>(
                ErrorCode::InsufficientLiquidity,
            ),
            0 < total_weighted(self.tokens@) <= u128::MAX ==> r == Ok::<u128, ErrorCode>(
                total_weighted(self.tokens@) as u128,
            ),
            r matches Ok(t) ==> 0 < t && t == total_weighted(self.tokens@),
    {
        let count = self.tokens.len();
        let mut total: u128 = 0;
        let mut i: usize = 0;
        proof {
            lemma_total_weighted_nonneg(self.tokens@);
        }
        while i < count
            invariant
                i <= count,
                count == self.tokens@.len(),
                total == total_weighted(self.tokens@.take(i as int)),
            decreases count - i,
        {
            let item = &self.tokens[i];
            let mint_amount = item.mint_amount;
            proof {
                lemma_total_weighted_take_step(self.tokens@, i as int);
            }
            if mint_amount > 0 {
                let weight = item.weight;
                assert((weight as u128) * (mint_amount as u128) <= u128::MAX) by {
                    vstd::arithmetic::mul::lemma_mul_upper_bound(
                        weight as int,
                        u64::MAX as int,
                        mint_amount as int,
                        u64::MAX as int,
                    );
                }
                let weighted: u128 = (weight as u128) * (mint_amount as u128);
                if weighted > u128::MAX - total {
                    proof {
                        lemma_total_weighted_prefix_le(self.tokens@, i as int + 1);
                    }
                    return Err(ErrorCode::MathOverflow);
                }
                total = total + weighted;
            } else {
                assert(self.tokens@[i as int].weighted() == 0) by {
                    vstd::arithmetic::mul::lemma_mul_basics(self.tokens@[i as int].weight as int);
                }
            }
            i = i + 1;
        }
        assert(self.tokens@.take(count as int) =~= self.tokens@);
        if total == 0 {
            return Err(ErrorCode::InsufficientLiquidity);
        }
        Ok(total)
    }

    /// The amount of main asset redeemable for burning `lp_amount`
    /// receipts of the class at `item_index` against a vault balance of
    /// `pool_vault_balance`:
    /// `floor(vault * lp_amount * weight / total_weighted)`, with every
    /// intermediate product checked in 128 bits and the final down-cast
    /// guarded by an explicit range check. The result never exceeds the
    /// vault balance, because the burned claim `lp_amount * weight` is at
    /// most the weighted supply.
    pub fn calculate_redeem_amount(
        &self,
        lp_amount: u64,
        item_index: usize,
        pool_vault_balance: u64,
    ) -> (r: Result<u64, ErrorCode>)
        ensures
            item_index >= self.tokens@.len() ==> r == Err::<u64, ErrorCode>(
                ErrorCode::InvalidIndex,
            ),
            ({
                let items = self.tokens@;
                let tw = total_weighted(items);
                item_index < items.len() ==> {
                    let w = items[item_index as int].weight;
                    let s = items[item_index as int].mint_amount;
                    &&& w == 0 ==> r == Err::<u64, ErrorCode>(ErrorCode::ZeroWeight)
                    &&& w > 0 && s < lp_amount ==> r == Err::<u64, ErrorCode>(
                        ErrorCode::InsufficientLiquidity,
                    )
                    &&& w > 0 && lp_amount <= s && tw > u128::MAX ==> r == Err::<u64, ErrorCode>(
                        ErrorCode::MathOverflow,
                    )
                    &&& w > 0 && lp_amount <= s && tw == 0 ==> r == Err::<u64, ErrorCode>(
                        ErrorCode::InsufficientLiquidity,
                    )
                    &&& w > 0 && lp_amount <= s && 0 < tw <= u128::MAX && pool_vault_balance
                        * lp_amount * w > u128::MAX ==> r == Err::<u64, ErrorCode>(
                        ErrorCode::MathOverflow,
                    )
                    &&& w > 0 && lp_amount <= s && 0 < tw <= u128::MAX && pool_vault_balance
                        * lp_amount * w <= u128::MAX ==> (r matches Ok(amount) && amount
                        == redeem_of(pool_vault_balance as int, lp_amount as int, w as int, tw)
                        && amount <= pool_vault_balance)
                }
            }),
    {
        let count = self.tokens.len();
        if item_index >= count {
            return Err(ErrorCode::InvalidIndex);
        }
        let item = &self.tokens[item_index];
        let weight = item.weight;
        let total_lp_minted = item.mint_amount;
        if weight == 0 {
            return Err(ErrorCode::ZeroWeight);
        }
        if total_lp_minted < lp_amount {
            return Err(ErrorCode::InsufficientLiquidity);
        }
        proof {
            lemma_total_weighted_nonneg(self.tokens@);
        }
        let total_weighted_amount: u128 = match self.calculate_total_weighted_mint_amount() {
            Ok(t) => t,
            Err(e) => {
                return Err(e);
            },
        };
        assert((pool_vault_balance as u128) * (lp_amount as u128) <= u128::MAX) by {
            vstd::arithmetic::mul::lemma_mul_upper_bound(
                pool_vault_balance as int,
                u64::MAX as int,
                lp_amount as int,
                u64::MAX as int,
            );
        }
        let vault_times_lp: u128 = (pool_vault_balance as u128) * (lp_amount as u128);
        proof {
            lemma_mul_le_iff_div(vault_times_lp as int, weight as int, u128::MAX as int);
        }
        if vault_times_lp > u128::MAX / (weight as u128) {
            return Err(ErrorCode::MathOverflow);
        }
        let product: u128 = vault_times_lp * (weight as u128);
        let redeem_wide: u128 = product / total_weighted_amount;
        proof {
            assert(lp_amount * weight <= total_lp_minted * weight) by {
                vstd::arithmetic::mul::lemma_mul_inequality(
                    lp_amount as int,
                    total_lp_minted as int,
                    weight as int,
                );
            }
            assert(total_lp_minted * weight == self.tokens@[item_index as int].weighted()) by {
                vstd::arithmetic::mul::lemma_mul_is_commutative(
                    total_lp_minted as int,
                    weight as int,
                );
            }
            lemma_total_weighted_term_le(self.tokens@, item_index as int);
            lemma_redeem_le_vault(
                pool_vault_balance as int,
                lp_amount as int,
                weight as int,
                total_weighted_amount as int,
            );
        }
        if redeem_wide > u64::MAX as u128 {
            return Err(ErrorCode::MathOverflow);
        }
        Ok(redeem_wide as u64)
    }

    /// The number of receipts minted for a net stake of `stake_amount`:
    /// a one-to-one mapping.
    pub fn calculate_stake_lp_amount(&self, stake_amount: u64, _item_index: usize) -> (r: Result<
        u64,
        ErrorCode,
    >)
        ensures
            r == Ok::<u64, ErrorCode>(stake_amount),
    {
        Ok(stake_amount)
    }
}

} // verus!
