//! Accounting engine for a single-asset staking pool with independently
//! weighted staking classes sharing one deposit vault.
//!
//! A pool holds one main asset in a shared vault. Depositors stake the main
//! asset into a class and receive class-specific receipt tokens; burning
//! receipts redeems a share of the vault proportional to
//! `burned * weight`, relative to the weighted sum of all outstanding
//! receipts. The engine here is the pure accounting core: fee splitting,
//! the weighted-share redemption formula and its solvency guarantee, and a
//! fixed-capacity class registry with swap-with-last compaction. Execution
//! of token transfers, mints and burns is left to external collaborators.

pub mod error;
pub mod ident;
pub mod instructions;
pub mod item;
pub mod math;
pub mod pool;
