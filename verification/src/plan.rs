//! Planning of one funding wave: which funded source sends to which waiting
//! destinations, and how much each destination receives.
//!
//! A wave partitions the waiting list into groups of at most [`crate::FANOUT`]
//! destinations, one group per funded source, consuming sources in order and
//! draining destinations from the tail of the waiting list. Every destination
//! of the wave receives the same amount, computed once from the (uniform)
//! balance of the wave's sources so that rounding loss stays with the source.

use vstd::arithmetic::div_mod::{lemma_fundamental_div_mod, lemma_mod_bound};
use vstd::prelude::*;

use crate::{Identity, FANOUT};

verus! {

/// Error from planning a wave.
#[derive(Clone, Copy, PartialEq, Eq, Structural, Debug)]
pub enum PlanError {
    /// The sources' balance cannot cover the leaf reserve and the fee for
    /// even one destination: a configuration error, fatal and never retried.
    InsufficientBalance,
}

/// One source account paired with the ordered destinations it funds this
/// wave; each pair carries the wave's uniform per-destination amount.
pub struct FundingAssignment {
    pub source: Identity,
    pub dests: Vec<(Identity, u64)>,
}

impl FundingAssignment {
    /// The protocol invariant: one transaction carries at most a fanout of
    /// transfers, and all of them at one uniform amount.
    pub open spec fn wf(self, amount: u64) -> bool {
        &&& self.dests@.len() <= FANOUT
        &&& forall|t: int| 0 <= t < self.dests@.len() ==> (#[trigger] self.dests@[t]).1 == amount
    }
}

/// Everything one wave needs: the assignments, the uniform amount, the
/// destinations that were consumed (the funded sources of the next wave, in
/// consumption order) and the destinations still waiting.
pub struct WavePlan {
    pub assignments: Vec<FundingAssignment>,
    pub to_lamports: u64,
    pub new_funded: Vec<Identity>,
    pub remaining: Vec<Identity>,
}

/// The uniform per-destination amount of a wave: what remains of the source
/// balance after the leaf reserve and the fee, split over a full fanout.
pub open spec fn spend_amount(balance: int, reserve: int, fee: int) -> int {
    (balance - reserve - fee) / (FANOUT as int)
}

/// How many destinations the group of assignment `j` receives when `n`
/// destinations wait in all: a full fanout, except for the group that drains
/// the rest of the list.
pub open spec fn group_len(n: int, j: int) -> int {
    if n - 4 * j < 4 {
        n - 4 * j
    } else {
        4
    }
}

/// How many assignments a wave of `f` funded sources and `n` waiting
/// destinations produces: one per source, until the waiting list is drained.
pub open spec fn wave_assignment_count(f: int, n: int) -> int {
    let groups = (n + 3) / 4;
    if f < groups {
        f
    } else {
        groups
    }
}

/// How many destinations such a wave consumes from the waiting list.
pub open spec fn wave_consumed(f: int, n: int) -> int {
    if n < 4 * f {
        n
    } else {
        4 * f
    }
}

/// The `i`-th destination a wave consumes, counting over all groups in
/// order. Group `j` drains the tail of the waiting list left by the groups
/// before it, keeping the order within the group.
pub open spec fn consumed_dest(nf: Seq<Identity>, i: int) -> Identity {
    let j = i / 4;
    let t = i % 4;
    let n = nf.len() as int;
    nf[n - 4 * j - group_len(n, j) + t]
}

/// Whether assignment `j` of a wave is exactly what the plan owes it: the
/// `j`-th funded source, paired with its group of the waiting list's tail,
/// every pair carrying the wave's uniform amount.
pub open spec fn assignment_matches(
    a: FundingAssignment,
    funded: Seq<Identity>,
    nf: Seq<Identity>,
    j: int,
    amount: u64,
) -> bool {
    let n = nf.len() as int;
    let k = group_len(n, j);
    &&& a.source == funded[j]
    &&& a.dests@.len() == k
    &&& forall|t: int| 0 <= t < k ==> a.dests@[t] == (nf[n - 4 * j - k + t], amount)
}

/// Plans the next wave: partitions the waiting destinations into groups of
/// at most [`FANOUT`], one group per funded source, and computes the uniform
/// per-destination amount from the sources' balance.
///
/// Fails, and plans nothing, exactly when `funded_funds` cannot cover the
/// leaf reserve and the fee for even one destination. On success the amount
/// never over-allocates: a full fanout of it plus reserve plus fee still
/// fits within the source balance.
pub fn plan_wave(
    funded: &Vec<Identity>,
    funded_funds: u64,
    not_funded: &Vec<Identity>,
    reserved_leaf_balance: u64,
    max_fee: u64,
) -> (r: Result<WavePlan, PlanError>)
    ensures
        r is Err <==> (funded_funds as int) < reserved_leaf_balance + max_fee,
        r matches Ok(plan) ==> {
            let f = funded@.len() as int;
            let n = not_funded@.len() as int;
            &&& plan.to_lamports == spend_amount(
                funded_funds as int,
                reserved_leaf_balance as int,
                max_fee as int,
            )
            &&& plan.to_lamports * (FANOUT as int) + reserved_leaf_balance + max_fee
                <= funded_funds
            &&& plan.assignments@.len() == wave_assignment_count(f, n)
            &&& forall|j: int|
                0 <= j < plan.assignments@.len() ==> assignment_matches(
                    #[trigger] plan.assignments@[j],
                    funded@,
                    not_funded@,
                    j,
                    plan.to_lamports,
                )
            &&& forall|j: int|
                0 <= j < plan.assignments@.len() ==> (#[trigger] plan.assignments@[j]).wf(
                    plan.to_lamports,
                )
            &&& plan.remaining@ == not_funded@.take(n - wave_consumed(f, n))
            &&& plan.new_funded@.len() == wave_consumed(f, n)
            &&& forall|i: int|
                0 <= i < plan.new_funded@.len() ==> #[trigger] plan.new_funded@[i]
                    == consumed_dest(not_funded@, i)
        },
{
    if funded_funds < reserved_leaf_balance {
        return Err(PlanError::InsufficientBalance);
    }
    if funded_funds - reserved_leaf_balance < max_fee {
        return Err(PlanError::InsufficientBalance);
    }
    let to_lamports: u64 = (funded_funds - reserved_leaf_balance - max_fee) / FANOUT;
    proof {
        let spendable = funded_funds - reserved_leaf_balance - max_fee;
        lemma_fundamental_div_mod(spendable as int, 4);
        lemma_mod_bound(spendable as int, 4);
    }

    let ghost n = not_funded@.len() as int;
    let mut assignments: Vec<FundingAssignment> = Vec::new();
    let mut new_funded: Vec<Identity> = Vec::new();
    let mut end: usize = not_funded.len();
    let mut i: usize = 0;
    while i < funded.len() && end > 0
        invariant
            n == not_funded@.len(),
            i <= funded@.len(),
            end <= not_funded@.len(),
            end as int == n - wave_consumed(i as int, n),
            i == 0 || 4 * (i as int - 1) < n,
            assignments@.len() == i,
            forall|j: int|
                0 <= j < i ==> assignment_matches(
                    #[trigger] assignments@[j],
                    funded@,
                    not_funded@,
                    j,
                    to_lamports,
                ),
            new_funded@.len() == n - end,
            forall|x: int|
                0 <= x < new_funded@.len() ==> #[trigger] new_funded@[x] == consumed_dest(
                    not_funded@,
                    x,
                ),
        decreases end,
    {
        let k: usize = if end < 4 {
            end
        } else {
            4
        };
        let start: usize = end - k;
        proof {
            assert(4 * i as int == n - end);
            assert(k as int == group_len(n, i as int));
        }
        let mut dests: Vec<(Identity, u64)> = Vec::new();
        let mut t: usize = 0;
        while t < k
            invariant
                n == not_funded@.len(),
                t <= k,
                k <= 4,
                start + k <= not_funded@.len(),
                start == end - k,
                dests@.len() == t,
                forall|x: int|
                    0 <= x < t ==> #[trigger] dests@[x] == (
                        not_funded@[start as int + x],
                        to_lamports,
                    ),
                new_funded@.len() == (n - end) + t,
                forall|x: int|
                    0 <= x < n - end ==> #[trigger] new_funded@[x] == consumed_dest(
                        not_funded@,
                        x,
                    ),
                forall|x: int|
                    n - end <= x < new_funded@.len() ==> #[trigger] new_funded@[x]
                        == not_funded@[start as int + (x - (n - end))],
            decreases k - t,
        {
            let d = not_funded[start + t];
            dests.push((d, to_lamports));
            new_funded.push(d);
            t = t + 1;
        }
        proof {
            // Each freshly consumed destination sits at offset 4 * i of the
            // consumption order, inside group i.
            assert forall|x: int| n - end <= x < n - end + k implies consumed_dest(not_funded@, x)
                == not_funded@[start as int + (x - (n - end))] by {
                let j = x / 4;
                let t2 = x % 4;
                lemma_fundamental_div_mod(x, 4);
                lemma_mod_bound(x, 4);
                assert(x == 4 * (i as int) + (x - (n - end)));
                assert(j == i as int && t2 == x - (n - end));
            }
            assert forall|x: int| 0 <= x < new_funded@.len() implies #[trigger] new_funded@[x]
                == consumed_dest(not_funded@, x) by {
                if x >= n - end {
                    assert(new_funded@[x] == not_funded@[start as int + (x - (n - end))]);
                }
            }
        }
        assignments.push(FundingAssignment { source: funded[i], dests });
        end = start;
        i = i + 1;
    }

    let mut remaining: Vec<Identity> = Vec::new();
    let mut ri: usize = 0;
    while ri < end
        invariant
            ri <= end,
            end <= not_funded@.len(),
            remaining@ == not_funded@.take(ri as int),
        decreases end - ri,
    {
        remaining.push(not_funded[ri]);
        ri = ri + 1;
        proof {
            assert(remaining@ =~= not_funded@.take(ri as int));
        }
    }

    proof {
        let f = funded@.len() as int;
        lemma_fundamental_div_mod(n + 3, 4);
        lemma_mod_bound(n + 3, 4);
        assert(end as int == n - wave_consumed(f, n));
        assert(assignments@.len() == wave_assignment_count(f, n));
    }
    Ok(WavePlan { assignments, to_lamports, new_funded, remaining })
}

} // verus!
