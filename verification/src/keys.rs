//! Sizing of the fanout tree and deterministic derivation of its account
//! identities.
//!
//! To fund `count` leaf accounts through transactions that carry at most
//! [`crate::FANOUT`] transfers each, the funding tree needs intermediate
//! accounts at every level. The recurrence in [`tree_growth`] computes the
//! minimal tree covering all intermediate levels plus the leaves: a geometric
//! series in the fanout.

use vstd::prelude::*;

use crate::Identity;

verus! {

/// How far `total` still is from the leaf target; zero once the target is
/// covered. Serves as the termination measure of the sizing recurrence.
pub open spec fn remaining_gap(count: int, total: int) -> int {
    if count > total {
        count - total
    } else {
        0
    }
}

/// The sizing recurrence: starting from `delta` identities added at the next
/// level, grow the tree level by level until `total` reaches `count`.
///
/// Returns `(total, extra)`: the number of identities the tree needs in all,
/// and how many of them are extra, intermediate ones that must also be funded
/// with transaction fees.
pub open spec fn tree_growth(count: nat, delta: nat, extra: nat, total: nat) -> (nat, nat)
    decreases remaining_gap(count as int, total as int)
        when delta >= 1
{
    if total >= count {
        (total, extra)
    } else {
        tree_growth(count, delta * 4, extra + delta, total + delta * 4)
    }
}

/// The tree size for a leaf target of `count`, from the initial state of the
/// recurrence: one identity pending at the root level, nothing counted yet.
pub open spec fn tree_size(count: nat) -> (nat, nat) {
    tree_growth(count, 1, 0, 0)
}

/// The identity sequence derived from `seed`: position `i` of the sequence is
/// the `i`-th identity of that seed.
pub open spec fn key_sequence(seed: u64, n: int) -> Seq<Identity> {
    Seq::new(n as nat, |i: int| Identity { seed, index: i as u64 })
}

/// The largest leaf target whose tree size still fits in a machine word:
/// the full geometric series of thirty-one fanout levels,
/// `4 + 16 + ... + 4^31`. One level more would overflow.
pub const MAX_KEY_COUNT: u64 = 0x5555_5555_5555_5554;

/// Powers of the fanout: the number of identities one level adds.
pub open spec fn pow4(k: nat) -> nat
    decreases k,
{
    if k == 0 {
        1
    } else {
        4 * pow4((k - 1) as nat)
    }
}

/// A later level never adds fewer identities than an earlier one.
pub proof fn lemma_pow4_monotone(a: nat, b: nat)
    requires
        a <= b,
    ensures
        pow4(a) <= pow4(b),
    decreases b,
{
    if a < b {
        lemma_pow4_monotone(a, (b - 1) as nat);
    }
}

/// Computes how many identities the funding tree needs to reach `count`
/// leaves, and how many of them are extra, intermediate identities.
///
/// Pure and total over its whole input range; `count == 0` needs no
/// identities at all. [`MAX_KEY_COUNT`] is the machine limit: up to there
/// every value of the series fits a `u64`, beyond it none could.
pub fn key_tree_size(count: u64) -> (r: (u64, u64))
    requires
        count <= MAX_KEY_COUNT,
    ensures
        r.0 == tree_size(count as nat).0,
        r.1 == tree_size(count as nat).1,
        r.0 >= count,
{
    let mut total: u64 = 0;
    let mut extra: u64 = 0;
    let mut delta: u64 = 1;
    let ghost mut level: nat = 0;
    while total < count
        invariant
            count <= MAX_KEY_COUNT,
            MAX_KEY_COUNT == 0x5555_5555_5555_5554,
            delta == pow4(level),
            3 * (extra as int) == delta as int - 1,
            3 * (total as int) == 4 * (delta as int) - 4,
            tree_growth(count as nat, delta as nat, extra as nat, total as nat) == tree_size(
                count as nat,
            ),
        decreases remaining_gap(count as int, total as int),
    {
        proof {
            // A level below the target keeps the level index under the
            // last one that fits, which bounds every value this step
            // computes.
            if level >= 31 {
                lemma_pow4_monotone(31, level);
                assert(pow4(31) == 0x4000_0000_0000_0000) by {
                    reveal_with_fuel(pow4, 32);
                }
                assert(false);
            }
            lemma_pow4_monotone(level, 30);
            assert(pow4(30) == 0x1000_0000_0000_0000) by {
                reveal_with_fuel(pow4, 31);
            }
        }
        extra = extra + delta;
        delta = delta * 4;
        total = total + delta;
        proof {
            level = level + 1;
        }
    }
    (total, extra)
}

/// Derives the first `n` identities of `seed`, in order.
pub fn derive_identities(seed: u64, n: u64) -> (r: Vec<Identity>)
    ensures
        r@ == key_sequence(seed, n as int),
{
    let mut v: Vec<Identity> = Vec::new();
    let mut i: u64 = 0;
    while i < n
        invariant
            i <= n,
            v@ == key_sequence(seed, i as int),
        decreases n - i,
    {
        v.push(Identity { seed, index: i });
        i = i + 1;
        proof {
            assert(v@ =~= key_sequence(seed, i as int));
        }
    }
    v
}

/// Returns the ordered identity sequence a funding tree for `count` leaves
/// needs, together with the number of extra, intermediate identities in it.
///
/// The sequence is a function of `seed` and `count` alone, so repeated calls
/// with the same arguments return the same sequence, and its length is the
/// computed tree size, which always covers the leaf target.
pub fn generate_keypairs(seed: u64, count: u64) -> (r: (Vec<Identity>, u64))
    requires
        count <= MAX_KEY_COUNT,
    ensures
        r.0@ == key_sequence(seed, tree_size(count as nat).0 as int),
        r.0@.len() == tree_size(count as nat).0,
        r.0@.len() >= count,
        r.1 == tree_size(count as nat).1,
{
    let (total, extra) = key_tree_size(count);
    let ids = derive_identities(seed, total);
    (ids, extra)
}

/// The sizing recurrence always covers the leaf target: however the tree
/// grows from a live level, the total it settles on reaches `count`.
pub proof fn lemma_tree_growth_covers(count: nat, delta: nat, extra: nat, total: nat)
    requires
        delta >= 1,
    ensures
        tree_growth(count, delta, extra, total).0 >= count,
    decreases remaining_gap(count as int, total as int),
{
    if total < count {
        lemma_tree_growth_covers(count, delta * 4, extra + delta, total + delta * 4);
    }
}

/// The tree for any leaf target holds at least that many identities.
pub proof fn lemma_tree_size_covers(count: nat)
    ensures
        tree_size(count).0 >= count,
{
    lemma_tree_growth_covers(count, 1, 0, 0);
}

/// The derived identity sequence is deterministic: any two sequences derived
/// from the same seed and length are identical.
pub proof fn lemma_key_sequence_deterministic(a: Seq<Identity>, b: Seq<Identity>, seed: u64, n: int)
    requires
        a == key_sequence(seed, n),
        b == key_sequence(seed, n),
    ensures
        a == b,
{
}

} // verus!
