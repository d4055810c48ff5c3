use vstd::prelude::*;

verus! {

/// A 32-byte account identity, held as two 128-bit halves.
///
/// Identities name external accounts: the pool's admin, its vault, the main
/// asset, and each class's receipt token. The engine only ever compares
/// identities and tests them against the all-zero value; deriving fresh,
/// collision-free identities is the job of an external collaborator.
#[derive(Clone, Copy, Debug, PartialEq, Eq, Structural)]
pub struct Identity {
    pub hi: u128,
    pub lo: u128,
}

impl Identity {
    /// True of the all-zero identity, which marks an unused slot and is
    /// never a valid account identity.
    pub open spec fn is_zero_spec(self) -> bool {
        self.hi == 0 && self.lo == 0
    }

    /// The all-zero identity.
    pub fn zero() -> (r: Identity)
        ensures
            r.is_zero_spec(),
    {
        Identity { hi: 0, lo: 0 }
    }

    /// Whether this is the all-zero identity.
    pub fn is_zero(&self) -> (r: bool)
        ensures
            r == self.is_zero_spec(),
    {
        self.hi == 0 && self.lo == 0
    }
}

} // verus!
