//! Bulk funding distribution for a ledger that only accepts bounded-fanout,
//! all-or-nothing transfer transactions.
//!
//! Starting from one funded source account, the library plans wave after wave
//! of transfers through a fanout tree until a target population of leaf
//! accounts is funded: `keys` sizes the tree and derives the account
//! identities, `plan` assigns destinations to funded sources and computes the
//! per-destination amount, `batch` materializes unsigned transactions and
//! groups them into bounded submission batches, and `engine` drives each batch
//! through sign, submit, verify and retry against a [`ledger::LedgerClient`],
//! guarding a verification pass with a failure-rate circuit breaker.

use vstd::prelude::*;

pub mod batch;
pub mod engine;
pub mod keys;
pub mod ledger;
pub mod plan;

verus! {

/// Largest number of transfer instructions one transaction may atomically
/// carry; fixed by the ledger protocol.
pub const FANOUT: u64 = 4;

/// Largest number of transactions in one submission batch, sized so that a
/// serialized batch fits a 4 MiB network buffer at 512 bytes per packet.
pub const BATCH_CAP: usize = 4 * 1024 * 1024 / 512;

/// The identity of an account, as derived deterministically from a seed.
///
/// Key material itself is opaque to this library; an identity records the
/// seed it was derived from and its position in the derived sequence, which
/// is all the funding logic ever reads.
#[derive(Clone, Copy, PartialEq, Eq, Structural, Debug, Hash)]
pub struct Identity {
    pub seed: u64,
    pub index: u64,
}

/// A short-lived confirmation token, proving freshness of a signature; the
/// ledger analogue of a recent block marker.
#[derive(Clone, Copy, PartialEq, Eq, Structural, Debug)]
pub struct Anchor {
    pub value: u64,
}

/// How strongly confirmed ledger state must be before it is reported.
#[derive(Clone, Copy, PartialEq, Eq, Structural, Debug)]
pub enum ConfirmationLevel {
    /// The lowest level: the state has been processed but not yet confirmed.
    Processed,
    /// A majority of the cluster has voted on the state.
    Confirmed,
    /// The state is final and cannot be rolled back.
    Finalized,
}

} // verus!
