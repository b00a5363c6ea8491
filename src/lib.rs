//! A custody ledger for non-fungible assets.
//!
//! Assets live in a registry of classes and tokens; a currency ledger holds balances. An
//! asset can be listed for sale, which puts it in escrow, or pledged to a receiver through
//! a claim, which puts it in claim custody. A listed or claimed asset is locked: it cannot
//! be transferred, burned, listed or pledged until the listing or claim ends. Every
//! operation is verified against a contract over the abstract state `WalletView`, and the
//! invariant that ties the listing and claim indexes to the lock set and the registry is
//! kept by each of them.

pub mod types;
pub mod registry;
pub mod ledger;
pub mod seqs;
pub mod emoji;
pub mod wallet;
mod custody_proofs;
pub mod laws;
