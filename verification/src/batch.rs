//! Materialization of a planned wave: one unsigned transaction per
//! assignment, grouped into submission batches of at most
//! [`crate::BATCH_CAP`] transactions.
//!
//! A pure transformation: the batches, read in order, list exactly the
//! wave's assignments in their order.

use vstd::prelude::*;

use crate::plan::FundingAssignment;
use crate::{Anchor, Identity, BATCH_CAP};

verus! {

/// A multi-destination transfer, authorized by its source but not yet
/// signed against any anchor.
pub struct UnsignedTransaction {
    pub source: Identity,
    pub transfers: Vec<(Identity, u64)>,
}

/// An unsigned transaction together with the anchor it was signed against.
/// The signature bytes themselves are opaque to this library.
pub struct SignedTransaction {
    pub source: Identity,
    pub transfers: Vec<(Identity, u64)>,
    pub anchor: Anchor,
}

/// Whether `tx` is the transaction assignment `a` calls for: the same
/// source, and the same ordered destination and amount pairs.
pub open spec fn tx_matches(tx: UnsignedTransaction, a: FundingAssignment) -> bool {
    &&& tx.source == a.source
    &&& tx.transfers@ == a.dests@
}

/// Builds the unsigned transaction of one assignment.
pub fn make_transaction(a: &FundingAssignment) -> (tx: UnsignedTransaction)
    ensures
        tx_matches(tx, *a),
{
    let mut transfers: Vec<(Identity, u64)> = Vec::new();
    let mut t: usize = 0;
    while t < a.dests.len()
        invariant
            t <= a.dests@.len(),
            transfers@ == a.dests@.take(t as int),
        decreases a.dests@.len() - t,
    {
        transfers.push(a.dests[t]);
        t = t + 1;
        proof {
            assert(transfers@ =~= a.dests@.take(t as int));
        }
    }
    proof {
        assert(transfers@ =~= a.dests@);
    }
    UnsignedTransaction { source: a.source, transfers }
}

/// Builds one unsigned transaction per assignment and groups them, in
/// order, into batches of at most [`BATCH_CAP`] transactions.
///
/// Every batch but the last is full; the batches read in order are exactly
/// the assignments' transactions in order, and no batch is empty.
pub fn build_batches(assignments: &Vec<FundingAssignment>) -> (r: Vec<Vec<UnsignedTransaction>>)
    ensures
        r@.len() == 0 <==> assignments@.len() == 0,
        r@.len() >= 1 ==> {
            &&& forall|b: int|
                0 <= b < r@.len() - 1 ==> (#[trigger] r@[b])@.len() == BATCH_CAP
            &&& 1 <= r@.last()@.len() <= BATCH_CAP
            &&& assignments@.len() == (r@.len() - 1) * (BATCH_CAP as int) + r@.last()@.len()
        },
        forall|b: int, x: int|
            0 <= b < r@.len() && 0 <= x < r@[b]@.len() ==> #[trigger] tx_matches(
                r@[b]@[x],
                assignments@[b * (BATCH_CAP as int) + x],
            ),
{
    let mut out: Vec<Vec<UnsignedTransaction>> = Vec::new();
    let mut cur: Vec<UnsignedTransaction> = Vec::new();
    let mut i: usize = 0;
    while i < assignments.len()
        invariant
            BATCH_CAP == 8192,
            i <= assignments@.len(),
            out@.len() * (BATCH_CAP as int) + cur@.len() == i,
            cur@.len() < BATCH_CAP,
            forall|b: int| 0 <= b < out@.len() ==> (#[trigger] out@[b])@.len() == BATCH_CAP,
            forall|b: int, x: int|
                0 <= b < out@.len() && 0 <= x < out@[b]@.len() ==> #[trigger] tx_matches(
                    out@[b]@[x],
                    assignments@[b * (BATCH_CAP as int) + x],
                ),
            forall|x: int|
                0 <= x < cur@.len() ==> #[trigger] tx_matches(
                    cur@[x],
                    assignments@[out@.len() * (BATCH_CAP as int) + x],
                ),
        decreases assignments@.len() - i,
    {
        let tx = make_transaction(&assignments[i]);
        cur.push(tx);
        i = i + 1;
        if cur.len() == BATCH_CAP {
            out.push(cur);
            cur = Vec::new();
        }
    }
    if cur.len() > 0 {
        out.push(cur);
    }
    out
}

} // verus!
