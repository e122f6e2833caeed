//! The submit-verify-retry engine's state: the working set of a submission
//! batch, and the tally a verification pass keeps.
//!
//! Entries of a batch march through `Unsigned -> Signed -> Submitted`
//! together; an entry whose transfer is confirmed is verified and leaves the
//! working set (its terminal state), and whatever remains is recycled to
//! `Unsigned` for the next retry round. A verification pass folds one
//! outcome after another into its tally, and a circuit breaker cuts the pass
//! short once failures both exceed a threshold and outnumber successes:
//! after it trips, the remaining entries are skipped, staying in the working
//! set untouched.

use vstd::prelude::*;

use crate::batch::{SignedTransaction, UnsignedTransaction};
use crate::{Anchor, Identity};

verus! {

/// The circuit breaker never trips before this many failures in one pass.
pub const BREAKER_MIN_FAILED: usize = 100;

/// Batches at least this large get a single verification pass per round;
/// smaller ones get several, to improve confidence where latency is cheap.
pub const MULTI_PASS_LIMIT: usize = 1000;

/// Verification passes per round for a small batch.
pub const SMALL_BATCH_PASSES: u64 = 3;

/// Verification passes per round for a large batch.
pub const LARGE_BATCH_PASSES: u64 = 1;

/// Progress is reported at most once this many seconds during a pass.
pub const PROGRESS_REPORT_SECS: u64 = 2;

/// The throttle on progress reporting: report only when at least this long
/// has passed since the last report.
pub fn should_report_progress(elapsed_secs: u64) -> (r: bool)
    ensures
        r <==> elapsed_secs > PROGRESS_REPORT_SECS,
{
    elapsed_secs > PROGRESS_REPORT_SECS
}

/// Where the entries of the working set stand in their life cycle. The
/// fourth, terminal state — verified — is reached by leaving the working
/// set.
#[derive(Clone, Copy, PartialEq, Eq, Structural, Debug)]
pub enum EntryStatus {
    Unsigned,
    Signed,
    Submitted,
}

/// Whether a pass's circuit breaker trips at these counters: failures must
/// both exceed the threshold and outnumber successes.
pub open spec fn breaker_trips(verified: int, failed: int) -> bool {
    failed > BREAKER_MIN_FAILED as int && failed > verified
}

/// One verification outcome folded into a pass state of
/// `(verified, failed, aborted)`: skipped entirely if the breaker has
/// already tripped, otherwise counted, after which the breaker re-evaluates.
pub open spec fn pass_step(s: (int, int, bool), outcome: bool) -> (int, int, bool) {
    if s.2 {
        s
    } else if outcome {
        (s.0 + 1, s.1, breaker_trips(s.0 + 1, s.1))
    } else {
        (s.0, s.1 + 1, breaker_trips(s.0, s.1 + 1))
    }
}

/// The `(verified, failed, aborted)` state of a pass after folding the
/// outcomes `o` in order, starting from fresh counters and an abort flag
/// carried in from an earlier pass of the same round.
pub open spec fn pass_state(o: Seq<bool>, carry_abort: bool) -> (int, int, bool)
    decreases o.len(),
{
    if o.len() == 0 {
        (0, 0, carry_abort)
    } else {
        pass_step(pass_state(o.drop_last(), carry_abort), o.last())
    }
}

/// Whether entry `i` stays in the working set after a pass over outcomes
/// `o`: it stays if the breaker had tripped before its turn (its query is
/// skipped), or if its own outcome failed.
pub open spec fn entry_kept(o: Seq<bool>, carry_abort: bool, i: int) -> bool {
    pass_state(o.take(i), carry_abort).2 || !o[i]
}

/// The working set a pass over outcomes `o` leaves behind: the entries of
/// `e`, in order, that [`entry_kept`] retains.
pub open spec fn surviving(e: Seq<UnsignedTransaction>, o: Seq<bool>, carry_abort: bool) -> Seq<
    UnsignedTransaction,
>
    recommends
        e.len() == o.len(),
    decreases e.len(),
{
    if e.len() == 0 {
        Seq::empty()
    } else {
        let init = surviving(e.drop_last(), o.drop_last(), carry_abort);
        if entry_kept(o, carry_abort, e.len() - 1) {
            init.push(e.last())
        } else {
            init
        }
    }
}

/// The counters of one verification pass over a batch, and the sticky
/// circuit-breaker flag. Lives only for the duration of the pass.
pub struct VerificationTally {
    /// Entries in the working set when the pass started.
    pub starting: usize,
    /// Entries confirmed so far this pass.
    pub verified: usize,
    /// Entries that failed confirmation so far this pass.
    pub failed: usize,
    /// Set once the breaker trips; no further queries start this pass.
    pub aborted: bool,
}

impl VerificationTally {
    /// The counters never outgrow the batch.
    pub open spec fn wf(self) -> bool {
        self.verified + self.failed <= self.starting
    }

    /// Entries this pass has not yet decided.
    pub open spec fn remaining(self) -> int {
        self.starting - self.verified - self.failed
    }

    /// A fresh tally for a pass over `starting` entries. The abort flag of
    /// an earlier pass of the same round is carried in: the breaker is
    /// sticky within a round.
    pub fn new(starting: usize, carry_abort: bool) -> (t: Self)
        ensures
            t.starting == starting,
            t.verified == 0,
            t.failed == 0,
            t.aborted == carry_abort,
            t.wf(),
    {
        VerificationTally { starting, verified: 0, failed: 0, aborted: carry_abort }
    }

    /// Entries this pass has not yet decided, for progress reporting.
    pub fn remaining_count(&self) -> (r: usize)
        requires
            self.wf(),
        ensures
            r as int == self.remaining(),
    {
        self.starting - self.verified - self.failed
    }

    /// Counts one verification outcome and re-evaluates the circuit
    /// breaker: it trips exactly when failures exceed
    /// [`BREAKER_MIN_FAILED`] and outnumber successes.
    pub fn record(&mut self, outcome: bool)
        requires
            !old(self).aborted,
            old(self).wf(),
            old(self).verified + old(self).failed < old(self).starting,
        ensures
            (
                final(self).verified as int,
                final(self).failed as int,
                final(self).aborted,
            ) == pass_step(
                (old(self).verified as int, old(self).failed as int, false),
                outcome,
            ),
            final(self).starting == old(self).starting,
            final(self).wf(),
    {
        if outcome {
            self.verified = self.verified + 1;
        } else {
            self.failed = self.failed + 1;
        }
        if self.failed > BREAKER_MIN_FAILED && self.failed > self.verified {
            self.aborted = true;
        }
    }
}

/// The working set of one submission batch as it is driven through sign,
/// submit, verify and retry rounds.
pub struct Engine {
    /// The still-unconfirmed transactions, in submission order.
    pub pending: Vec<UnsignedTransaction>,
    /// The wave's uniform per-destination amount: a destination balance of
    /// at least this much confirms an entry.
    pub amount: u64,
    /// Retry rounds driven so far.
    pub rounds: u64,
    /// Where the whole working set stands; entries march together.
    pub phase: EntryStatus,
    /// The anchor the working set was last signed against.
    pub last_anchor: Option<Anchor>,
}

impl Engine {
    /// A fresh engine over one submission batch.
    pub fn new(batch: Vec<UnsignedTransaction>, amount: u64) -> (e: Engine)
        ensures
            e.pending@ == batch@,
            e.amount == amount,
            e.rounds == 0,
            e.phase is Unsigned,
            e.last_anchor is None,
    {
        Engine { pending: batch, amount, rounds: 0, phase: EntryStatus::Unsigned, last_anchor: None }
    }

    /// Whether the batch is done: nothing unconfirmed remains.
    pub fn is_complete(&self) -> (r: bool)
        ensures
            r <==> self.pending@.len() == 0,
    {
        self.pending.len() == 0
    }

    /// Signs the whole working set against a fresh anchor. Signatures are
    /// opaque: what the library tracks is which anchor the set carries.
    pub fn sign_all(&mut self, anchor: Anchor)
        requires
            old(self).phase is Unsigned,
        ensures
            final(self).pending == old(self).pending,
            final(self).amount == old(self).amount,
            final(self).rounds == old(self).rounds,
            final(self).phase is Signed,
            final(self).last_anchor == Some(anchor),
    {
        self.phase = EntryStatus::Signed;
        self.last_anchor = Some(anchor);
    }

    /// Clones the signed working set into one outbound batch, in order,
    /// each transaction carrying the anchor it was signed against.
    pub fn collect_submission(&self, anchor: Anchor) -> (r: Vec<SignedTransaction>)
        requires
            self.phase is Signed,
            self.last_anchor == Some(anchor),
        ensures
            r@.len() == self.pending@.len(),
            forall|i: int|
                0 <= i < r@.len() ==> {
                    &&& (#[trigger] r@[i]).source == self.pending@[i].source
                    &&& r@[i].transfers@ == self.pending@[i].transfers@
                    &&& r@[i].anchor == anchor
                },
    {
        let mut out: Vec<SignedTransaction> = Vec::new();
        let mut i: usize = 0;
        while i < self.pending.len()
            invariant
                i <= self.pending@.len(),
                out@.len() == i,
                forall|j: int|
                    0 <= j < i ==> {
                        &&& (#[trigger] out@[j]).source == self.pending@[j].source
                        &&& out@[j].transfers@ == self.pending@[j].transfers@
                        &&& out@[j].anchor == anchor
                    },
            decreases self.pending@.len() - i,
        {
            let tx = &self.pending[i];
            let transfers = clone_transfers(&tx.transfers);
            out.push(SignedTransaction { source: tx.source, transfers, anchor });
            i = i + 1;
        }
        out
    }

    /// Marks the signed working set as handed to the ledger.
    pub fn mark_submitted(&mut self)
        requires
            old(self).phase is Signed,
        ensures
            final(self).pending == old(self).pending,
            final(self).amount == old(self).amount,
            final(self).rounds == old(self).rounds,
            final(self).phase is Submitted,
            final(self).last_anchor == old(self).last_anchor,
    {
        self.phase = EntryStatus::Submitted;
    }

    /// How many verification passes this round runs: several for a small
    /// batch, one for a batch of [`MULTI_PASS_LIMIT`] entries or more, to
    /// bound latency where a pass is expensive.
    pub fn passes_planned(&self) -> (n: u64)
        ensures
            self.pending@.len() < MULTI_PASS_LIMIT ==> n == SMALL_BATCH_PASSES,
            self.pending@.len() >= MULTI_PASS_LIMIT ==> n == LARGE_BATCH_PASSES,
    {
        if self.pending.len() < MULTI_PASS_LIMIT {
            SMALL_BATCH_PASSES
        } else {
            LARGE_BATCH_PASSES
        }
    }

    /// Closes a round: whatever is still unconfirmed is recycled to
    /// `Unsigned`, to be re-signed and re-submitted — safe, because
    /// submissions are all-or-nothing, so a retry of an already-applied
    /// transaction is a harmless no-op.
    pub fn finish_round(&mut self)
        requires
            old(self).phase is Submitted,
            old(self).rounds < u64::MAX,
        ensures
            final(self).pending == old(self).pending,
            final(self).amount == old(self).amount,
            final(self).rounds == old(self).rounds + 1,
            final(self).phase is Unsigned,
            final(self).last_anchor == old(self).last_anchor,
    {
        self.rounds = self.rounds + 1;
        self.phase = EntryStatus::Unsigned;
    }
}

/// Copies a transfer list, pair for pair.
pub(crate) fn clone_transfers(v: &Vec<(Identity, u64)>) -> (r: Vec<(Identity, u64)>)
    ensures
        r@ == v@,
{
    let mut r: Vec<(Identity, u64)> = Vec::new();
    let mut i: usize = 0;
    while i < v.len()
        invariant
            i <= v@.len(),
            r@ == v@.take(i as int),
        decreases v@.len() - i,
    {
        r.push(v[i]);
        i = i + 1;
        proof {
            assert(r@ =~= v@.take(i as int));
        }
    }
    proof {
        assert(r@ =~= v@);
    }
    r
}

/// Exactly the verified entries leave the working set: a pass shrinks it by
/// its verified count, never by more and never by less, whatever the
/// outcomes and wherever the breaker trips.
pub proof fn lemma_pass_removes_exactly_verified(
    e: Seq<UnsignedTransaction>,
    o: Seq<bool>,
    carry_abort: bool,
)
    requires
        o.len() == e.len(),
    ensures
        pass_state(o, carry_abort).0 + pass_state(o, carry_abort).1 <= o.len(),
        pass_state(o, carry_abort).0 >= 0,
        pass_state(o, carry_abort).1 >= 0,
        surviving(e, o, carry_abort).len() == e.len() - pass_state(o, carry_abort).0,
    decreases o.len(),
{
    if o.len() > 0 {
        lemma_pass_removes_exactly_verified(e.drop_last(), o.drop_last(), carry_abort);
        assert(o.take(e.len() - 1) =~= o.drop_last());
    }
}

/// A pass whose every outcome succeeds empties the working set: every entry
/// is verified, nothing fails, and the circuit breaker never trips. A wave
/// whose balance queries all report the full amount therefore completes in
/// its first round.
pub proof fn lemma_full_pass_completes(e: Seq<UnsignedTransaction>, o: Seq<bool>)
    requires
        o.len() == e.len(),
        forall|i: int| 0 <= i < o.len() ==> o[i],
    ensures
        pass_state(o, false) == (o.len() as int, 0int, false),
        surviving(e, o, false) == Seq::<UnsignedTransaction>::empty(),
    decreases o.len(),
{
    if o.len() == 0 {
        assert(surviving(e, o, false) =~= Seq::<UnsignedTransaction>::empty());
    } else {
        lemma_full_pass_completes(e.drop_last(), o.drop_last());
        assert(o.take(e.len() - 1) =~= o.drop_last());
        assert(o[o.len() - 1]);
        assert(!breaker_trips(o.len() as int, 0));
    }
}

/// A pass whose every outcome fails verifies nothing and keeps the whole
/// working set, whether or not the breaker trips along the way: the engine
/// keeps retrying such a wave and never reports it complete.
pub proof fn lemma_barren_pass_keeps_all(e: Seq<UnsignedTransaction>, o: Seq<bool>, carry_abort: bool)
    requires
        o.len() == e.len(),
        forall|i: int| 0 <= i < o.len() ==> !o[i],
    ensures
        pass_state(o, carry_abort).0 == 0,
        surviving(e, o, carry_abort) == e,
    decreases o.len(),
{
    if o.len() == 0 {
        assert(surviving(e, o, carry_abort) =~= e);
    } else {
        lemma_barren_pass_keeps_all(e.drop_last(), o.drop_last(), carry_abort);
        assert(!o[o.len() - 1]);
        assert(surviving(e, o, carry_abort) =~= e);
    }
}

} // verus!
