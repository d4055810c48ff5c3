use vstd::prelude::*;

verus! {

/// Failure kinds of the staking engine. Every operation is total apart from
/// explicit precondition checks and checked arithmetic; each failure returns
/// one of these kinds and leaves the pool unchanged.
#[derive(Clone, Copy, Debug, PartialEq, Eq, Structural)]
pub enum ErrorCode {
    /// A fee ratio with a zero denominator or a numerator above the
    /// denominator was supplied at pool creation.
    InvalidFee,
    /// The caller of an admin operation is not the stored admin.
    Unauthorized,
    /// A class index at or beyond the live class count.
    InvalidIndex,
    /// No live class carries the given receipt identity.
    NotFound,
    /// The registry already holds the maximum number of classes.
    CapacityExceeded,
    /// A class weight of zero was supplied.
    InvalidWeight,
    /// A redemption was attempted against a class whose weight is zero.
    ZeroWeight,
    /// A class with outstanding receipt supply cannot be removed.
    NonZeroSupply,
    /// The weighted supply is zero, the burn amount exceeds the class
    /// supply, or the redeemable amount exceeds the vault balance.
    InsufficientLiquidity,
    /// A checked arithmetic step could not represent its result.
    MathOverflow,
    /// A zero stake or burn amount was supplied.
    InvalidAmount,
}

} // verus!
