use vstd::prelude::*;

use crate::error::ErrorCode;
use crate::ident::Identity;

verus! {

/// One staking class: the identity of its receipt token, the outstanding
/// receipt supply, and the admin-tuned weight that scales the class's
/// claim on the shared vault per receipt unit.
#[derive(Clone, Copy, Debug, PartialEq, Eq, Structural)]
pub struct AnySwapItem {
    /// Identity of the class's receipt token. Non-zero and unique among
    /// live classes.
    pub mint_account: Identity,
    /// Outstanding receipt supply, mutated only by stake and unstake.
    pub mint_amount: u64,
    /// Claim weight per receipt unit. Positive while the class is live.
    pub weight: u64,
}

impl AnySwapItem {
    /// The class's weighted outstanding supply, `weight * mint_amount`:
    /// its summand in the redemption formula's denominator.
    pub open spec fn weighted(self) -> int {
        self.weight * self.mint_amount
    }

    /// Whether the slot is unused: an all-zero receipt identity.
    pub fn is_empty(&self) -> (r: bool)
        ensures
            r == self.mint_account.is_zero_spec(),
    {
        self.mint_account.is_zero()
    }

    /// The identity of the class's receipt token.
    pub fn mint_pubkey(&self) -> (r: &Identity)
        ensures
            *r == self.mint_account,
    {
        &self.mint_account
    }

    /// The outstanding receipt supply.
    pub fn get_mint_amount(&self) -> (r: u64)
        ensures
            r == self.mint_amount,
    {
        self.mint_amount
    }

    /// The class's weight.
    pub fn get_weight(&self) -> (r: u64)
        ensures
            r == self.weight,
    {
        self.weight
    }

    /// Replaces the class's weight.
    pub fn set_weight(&mut self, weight: u64)
        ensures
            *final(self) == (AnySwapItem { weight, ..*old(self) }),
    {
        self.weight = weight;
    }

    /// Replaces the receipt token identity.
    pub fn set_mint_account(&mut self, pubkey: &Identity)
        ensures
            *final(self) == (AnySwapItem { mint_account: *pubkey, ..*old(self) }),
    {
        self.mint_account = *pubkey;
    }

    /// Replaces the outstanding receipt supply.
    pub fn set_mint_amount(&mut self, amount: u64)
        ensures
            *final(self) == (AnySwapItem { mint_amount: amount, ..*old(self) }),
    {
        self.mint_amount = amount;
    }

    /// Increases the outstanding supply, failing `MathOverflow` instead of
    /// wrapping; on failure the class is unchanged.
    pub fn add_mint_amount(&mut self, amount: u64) -> (r: Result<(), ErrorCode>)
        ensures
            r is Ok <==> old(self).mint_amount + amount <= u64::MAX,
            r is Ok ==> *final(self) == (AnySwapItem {
                mint_amount: (old(self).mint_amount + amount) as u64,
                ..*old(self)
            }),
            r is Err ==> *final(self) == *old(self) && r == Err::<(), ErrorCode>(
                ErrorCode::MathOverflow,
            ),
    {
        if amount > u64::MAX - self.mint_amount {
            return Err(ErrorCode::MathOverflow);
        }
        self.mint_amount = self.mint_amount + amount;
        Ok(())
    }

    /// Decreases the outstanding supply, failing `MathOverflow` instead of
    /// wrapping below zero; on failure the class is unchanged.
    pub fn sub_mint_amount(&mut self, amount: u64) -> (r: Result<(), ErrorCode>)
        ensures
            r is Ok <==> amount <= old(self).mint_amount,
            r is Ok ==> *final(self) == (AnySwapItem {
                mint_amount: (old(self).mint_amount - amount) as u64,
                ..*old(self)
            }),
            r is Err ==> *final(self) == *old(self) && r == Err::<(), ErrorCode>(
                ErrorCode::MathOverflow,
            ),
    {
        if amount > self.mint_amount {
            return Err(ErrorCode::MathOverflow);
        }
        self.mint_amount = self.mint_amount - amount;
        Ok(())
    }

    /// Bytes of one class record in the persisted fixed-size pool layout:
    /// a 32-byte identity and two 8-byte counters.
    pub fn space() -> (r: usize)
        ensures
            r == 48,
    {
        32 + 8 + 8
    }
}

} // verus!
