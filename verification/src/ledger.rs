//! The ledger port and the drivers that fund a population through it: the
//! submit-verify-retry loop over one batch, and the wave-by-wave orchestrator.
//!
//! The ledger itself is an opaque network service consumed through
//! [`LedgerClient`]; nothing is assumed of what it answers. Every decision
//! taken on its answers — what counts as confirmed, when the circuit breaker
//! cuts a pass short, what survives into the next retry round — is verified
//! here against the pass semantics of [`crate::engine`].

use vstd::prelude::*;

use crate::batch::{build_batches, SignedTransaction, UnsignedTransaction};
use crate::engine::{pass_state, surviving, Engine, VerificationTally};
use crate::plan::{plan_wave, spend_amount, wave_consumed, PlanError};
use crate::{Anchor, ConfirmationLevel, Identity};

verus! {

/// Fixed backoff between attempts to fetch a confirmation anchor.
pub const ANCHOR_RETRY_BACKOFF_MS: u64 = 1000;

/// Settle delay between submitting a batch and verifying it, assumed
/// sufficient for the ledger to begin processing.
pub const SETTLE_DELAY_MS: u64 = 1000;

/// Delay between consecutive verification passes of one round.
pub const PASS_DELAY_MS: u64 = 100;

/// A failed ledger call. Whether it is transient or fatal is the caller's
/// policy, not the error's: anchor fetches are retried, submissions are
/// not, and a failed balance query just counts as not-yet-verified.
#[derive(Clone, Copy, PartialEq, Eq, Structural, Debug)]
pub struct LedgerError;

/// Why a funding run stopped short of confirming everything.
#[derive(Clone, Copy, PartialEq, Eq, Structural, Debug)]
pub enum FundingError {
    /// No confirmation anchor could be fetched within the attempt bound.
    AnchorUnavailable,
    /// The ledger rejected a submission outright: a structurally invalid
    /// batch rather than a confirmation-timing issue. Fatal, never retried.
    SubmissionFailed,
    /// A batch still had unconfirmed entries when the round bound ran out.
    RetriesExhausted,
    /// A wave's sources cannot cover the leaf reserve and the fee for even
    /// one destination: a configuration error. Fatal, never retried.
    InsufficientBalance,
}

/// The ledger as this library consumes it: anchors, atomic batch
/// submission, balance queries, and the waiting the protocol calls for.
/// Implementations live outside the library; nothing is assumed about what
/// they answer.
pub trait LedgerClient {
    /// The latest confirmation anchor at `level`, or a transient failure.
    fn get_latest_anchor(&mut self, level: ConfirmationLevel) -> Result<Anchor, LedgerError>;

    /// Submits a signed batch atomically: each transaction's transfers
    /// either all apply or none do.
    fn submit_batch(&mut self, batch: Vec<SignedTransaction>) -> Result<(), LedgerError>;

    /// The balance of `account` at `level`, or a transient failure.
    fn get_balance(&mut self, account: Identity, level: ConfirmationLevel) -> Result<
        u64,
        LedgerError,
    >;

    /// Blocks the calling worker for `ms` milliseconds.
    fn wait_ms(&mut self, ms: u64);

    /// Hears a verification pass's running counts after each decided
    /// entry. Implementations report progress at their own cadence;
    /// [`crate::engine::should_report_progress`] is the throttle the
    /// protocol calls for.
    fn note_progress(&mut self, remaining: usize, verified: usize, failed: usize);
}

/// Fetches the latest confirmation anchor at the lowest level, sleeping a
/// fixed backoff after each transient failure, for at most `max_attempts`
/// tries.
pub fn get_latest_blockhash<C: LedgerClient>(client: &mut C, max_attempts: u64) -> (r: Option<
    Anchor,
>)
    ensures
        max_attempts == 0 ==> r is None,
{
    let mut attempt: u64 = 0;
    while attempt < max_attempts
        invariant
            attempt <= max_attempts,
        decreases max_attempts - attempt,
    {
        match client.get_latest_anchor(ConfirmationLevel::Processed) {
            Ok(anchor) => {
                return Some(anchor);
            },
            Err(_) => {
                client.wait_ms(ANCHOR_RETRY_BACKOFF_MS);
            },
        }
        attempt = attempt + 1;
    }
    None
}

/// The verification criterion over a transfer's balance answers, queried
/// destination by destination: the first successful answer decides the
/// transfer by `balance >= amount`; failed queries are passed over; no
/// answers at all — no destinations, or every query failed — leaves the
/// transfer unconfirmed.
pub open spec fn transfer_confirmed(answers: Seq<Option<u64>>, amount: u64) -> bool
    decreases answers.len(),
{
    if answers.len() == 0 {
        false
    } else {
        match answers.first() {
            Option::Some(balance) => balance >= amount,
            Option::None => transfer_confirmed(answers.drop_first(), amount),
        }
    }
}

/// Decides a transfer from its balance answers: exactly
/// [`transfer_confirmed`], as executable code.
pub fn confirmed_by_answers(answers: &Vec<Option<u64>>, amount: u64) -> (r: bool)
    ensures
        r == transfer_confirmed(answers@, amount),
{
    let mut i: usize = 0;
    proof {
        assert(answers@.skip(0) =~= answers@);
    }
    while i < answers.len()
        invariant
            i <= answers@.len(),
            transfer_confirmed(answers@, amount) == transfer_confirmed(
                answers@.skip(i as int),
                amount,
            ),
        decreases answers@.len() - i,
    {
        proof {
            assert(answers@.skip(i as int).first() == answers@[i as int]);
            assert(answers@.skip(i as int).drop_first() =~= answers@.skip(i as int + 1));
        }
        match answers[i] {
            Some(balance) => {
                return balance >= amount;
            },
            None => {},
        }
        i = i + 1;
    }
    false
}

/// Queries one entry's destinations in order and decides it: the first
/// destination whose balance query succeeds decides the whole transfer by
/// [`transfer_confirmed`] — since a submission is all-or-nothing, one
/// destination's balance speaks for all of them — and an entry with no
/// destinations, or none of whose queries succeed, counts as not yet
/// verified. No further destination is queried once one has answered.
pub fn verify_funding_transfer<C: LedgerClient>(
    client: &mut C,
    tx: &UnsignedTransaction,
    amount: u64,
) -> (r: bool)
    ensures
        tx.transfers@.len() == 0 ==> !r,
        exists|answers: Seq<Option<u64>>|
            {
                &&& answers.len() <= tx.transfers@.len()
                &&& forall|j: int| 0 <= j < answers.len() - 1 ==> answers[j] is None
                &&& r == transfer_confirmed(answers, amount)
            },
{
    let mut answers: Vec<Option<u64>> = Vec::new();
    let mut i: usize = 0;
    while i < tx.transfers.len()
        invariant
            i <= tx.transfers@.len(),
            answers@.len() == i,
            forall|j: int| 0 <= j < i ==> answers@[j] is None,
        decreases tx.transfers@.len() - i,
    {
        match client.get_balance(tx.transfers[i].0, ConfirmationLevel::Processed) {
            Ok(balance) => {
                answers.push(Some(balance));
                let confirmed = confirmed_by_answers(&answers, amount);
                proof {
                    assert(answers@.len() <= tx.transfers@.len() && (forall|j: int|
                        0 <= j < answers@.len() - 1 ==> answers@[j] is None) && confirmed
                        == transfer_confirmed(answers@, amount));
                }
                return confirmed;
            },
            Err(_) => {
                answers.push(None);
            },
        }
        i = i + 1;
    }
    let confirmed = confirmed_by_answers(&answers, amount);
    proof {
        assert(answers@.len() <= tx.transfers@.len() && (forall|j: int|
            0 <= j < answers@.len() - 1 ==> answers@[j] is None) && confirmed
            == transfer_confirmed(answers@, amount));
    }
    confirmed
}

/// Runs one verification pass over the engine's working set, querying entry
/// after entry in order and folding each outcome into a fresh tally.
///
/// Once the circuit breaker trips, no further queries start: the remaining
/// entries are skipped and stay in the working set. Whatever balances the
/// ledger answered, the pass leaves behind exactly the [`surviving`]
/// entries of its outcome sequence, the tally is that sequence's
/// [`pass_state`], and every outcome counted before the breaker tripped is
/// the [`transfer_confirmed`] decision over some answer vector for its own
/// entry's destinations — the pass semantics hold for every ledger
/// behaviour.
pub fn run_verify_pass<C: LedgerClient>(client: &mut C, engine: &mut Engine, carry_abort: bool) -> (t:
    VerificationTally)
    ensures
        final(engine).amount == old(engine).amount,
        final(engine).rounds == old(engine).rounds,
        final(engine).phase == old(engine).phase,
        final(engine).last_anchor == old(engine).last_anchor,
        t.starting == old(engine).pending@.len(),
        t.wf(),
        exists|o: Seq<bool>, answers: Seq<Seq<Option<u64>>>|
            #![trigger pass_state(o, carry_abort), answers.len()]
            {
                &&& o.len() == old(engine).pending@.len()
                &&& answers.len() == o.len()
                &&& final(engine).pending@ == surviving(old(engine).pending@, o, carry_abort)
                &&& (t.verified as int, t.failed as int, t.aborted) == pass_state(o, carry_abort)
                &&& forall|i: int|
                    0 <= i < o.len() && !pass_state(o.take(i), carry_abort).2 ==> {
                        &&& (#[trigger] answers[i]).len()
                            <= old(engine).pending@[i].transfers@.len()
                        &&& o[i] == transfer_confirmed(answers[i], old(engine).amount)
                    }
            },
{
    let ghost orig = engine.pending@;
    let ghost amount0 = engine.amount;
    let ghost rounds0 = engine.rounds;
    let ghost phase0 = engine.phase;
    let ghost anchor0 = engine.last_anchor;

    let mut rest: Vec<UnsignedTransaction> = Vec::new();
    core::mem::swap(&mut rest, &mut engine.pending);
    let mut tally = VerificationTally::new(rest.len(), carry_abort);
    let ghost mut o: Seq<bool> = Seq::empty();
    let ghost mut answs: Seq<Seq<Option<u64>>> = Seq::empty();

    while rest.len() > 0
        invariant
            engine.amount == amount0,
            engine.rounds == rounds0,
            engine.phase == phase0,
            engine.last_anchor == anchor0,
            o.len() + rest@.len() == orig.len(),
            rest@ == orig.skip(o.len() as int),
            tally.starting == orig.len(),
            tally.verified + tally.failed <= o.len(),
            (tally.verified as int, tally.failed as int, tally.aborted) == pass_state(
                o,
                carry_abort,
            ),
            engine.pending@ == surviving(orig.take(o.len() as int), o, carry_abort),
            answs.len() == o.len(),
            forall|idx: int|
                0 <= idx < o.len() && !pass_state(o.take(idx), carry_abort).2 ==> {
                    &&& (#[trigger] answs[idx]).len() <= orig[idx].transfers@.len()
                    &&& o[idx] == transfer_confirmed(answs[idx], amount0)
                },
        decreases rest@.len(),
    {
        let tx = rest.remove(0);
        let ghost i = o.len() as int;
        proof {
            assert(tx == orig[i]);
            assert(rest@ =~= orig.skip(i + 1));
        }
        let kept: bool;
        let outcome: bool;
        if tally.aborted {
            // The breaker has tripped: skip the query, keep the entry.
            kept = true;
            outcome = false;
            proof {
                answs = answs.push(Seq::empty());
            }
        } else {
            outcome = verify_funding_transfer(client, &tx, engine.amount);
            tally.record(outcome);
            let remaining = tally.remaining_count();
            if remaining > 0 {
                client.note_progress(remaining, tally.verified, tally.failed);
            }
            kept = !outcome;
            proof {
                let a = choose|a: Seq<Option<u64>>|
                    a.len() <= tx.transfers@.len() && (forall|j: int|
                        0 <= j < a.len() - 1 ==> a[j] is None) && outcome == transfer_confirmed(
                        a,
                        amount0,
                    );
                answs = answs.push(a);
            }
        }
        let ghost o_prev = o;
        proof {
            o = o.push(outcome);
            assert(o.drop_last() =~= o_prev);
            assert(o.take(i) =~= o_prev);
            assert(orig.take(i + 1).drop_last() =~= orig.take(i));
            assert(orig.take(i + 1).last() == orig[i]);
        }
        if kept {
            engine.pending.push(tx);
        }
        proof {
            assert(engine.pending@ =~= surviving(orig.take(i + 1), o, carry_abort));
            assert forall|idx: int|
                0 <= idx < o.len() && !pass_state(o.take(idx), carry_abort).2 implies {
                &&& (#[trigger] answs[idx]).len() <= orig[idx].transfers@.len()
                &&& o[idx] == transfer_confirmed(answs[idx], amount0)
            } by {
                if idx < i {
                    assert(o.take(idx) =~= o_prev.take(idx));
                }
            }
        }
    }
    proof {
        assert(orig.take(o.len() as int) =~= orig);
        assert(o.len() == orig.len() && answs.len() == o.len() && engine.pending@ == surviving(
            orig,
            o,
            carry_abort,
        ) && (tally.verified as int, tally.failed as int, tally.aborted) == pass_state(
            o,
            carry_abort,
        ) && (forall|idx: int|
            0 <= idx < o.len() && !pass_state(o.take(idx), carry_abort).2 ==> {
                &&& (#[trigger] answs[idx]).len() <= orig[idx].transfers@.len()
                &&& o[idx] == transfer_confirmed(answs[idx], amount0)
            }));
    }
    tally
}

/// Drives one submission batch to completion: fetch an anchor, re-sign,
/// re-submit, wait out the settle delay, verify in one or more passes, and
/// retry what remains — for at most `max_rounds` rounds.
///
/// Succeeds exactly by emptying the working set. A submission rejection is
/// fatal; running out of anchor attempts or retry rounds reports exactly
/// that, with the round counter at its bound.
pub fn fund_batch<C: LedgerClient>(
    client: &mut C,
    engine: &mut Engine,
    max_rounds: u64,
    max_anchor_attempts: u64,
) -> (r: Result<(), FundingError>)
    requires
        old(engine).phase is Unsigned,
        old(engine).rounds == 0,
    ensures
        final(engine).amount == old(engine).amount,
        r is Ok ==> final(engine).pending@.len() == 0,
        r == Err::<(), FundingError>(FundingError::RetriesExhausted) ==> final(engine).pending@.len()
            > 0 && final(engine).rounds == max_rounds,
        r is Ok && old(engine).pending@.len() > 0 ==> final(engine).rounds >= 1,
        r is Err ==> final(engine).pending@.len() > 0,
        old(engine).pending@.len() == 0 ==> r is Ok && *final(engine) == *old(engine),
        r != Err::<(), FundingError>(FundingError::InsufficientBalance),
{
    if engine.pending.len() == 0 {
        return Ok(());
    }
    while engine.pending.len() > 0
        invariant
            engine.phase is Unsigned,
            engine.amount == old(engine).amount,
            engine.rounds <= max_rounds,
            engine.rounds >= 1 || engine.pending@ == old(engine).pending@,
            old(engine).pending@.len() > 0,
        decreases max_rounds - engine.rounds,
    {
        if engine.rounds == max_rounds {
            return Err(FundingError::RetriesExhausted);
        }
        let ghost round0 = engine.rounds;

        // Step 1: a fresh confirmation anchor, retried with fixed backoff.
        let anchor = match get_latest_blockhash(client, max_anchor_attempts) {
            Some(a) => a,
            None => {
                return Err(FundingError::AnchorUnavailable);
            },
        };

        // Step 2: re-sign everything still unconfirmed against it.
        engine.sign_all(anchor);

        // Step 3: clone the signed set into one outbound batch and submit
        // atomically. A rejection is fatal to the run.
        let outbound = engine.collect_submission(anchor);
        engine.mark_submitted();
        match client.submit_batch(outbound) {
            Ok(()) => {},
            Err(_) => {
                return Err(FundingError::SubmissionFailed);
            },
        }

        // Step 4: give the ledger time to begin processing.
        client.wait_ms(SETTLE_DELAY_MS);

        // Step 5: one or more verification passes; the breaker's abort flag
        // is sticky across the passes of this round.
        let passes = engine.passes_planned();
        let mut pass: u64 = 0;
        let mut carry_abort: bool = false;
        while pass < passes && engine.pending.len() > 0
            invariant
                pass <= passes,
                engine.phase is Submitted,
                engine.amount == old(engine).amount,
                engine.rounds == round0,
                round0 < max_rounds,
            decreases passes - pass,
        {
            let tally = run_verify_pass(client, engine, carry_abort);
            carry_abort = tally.aborted;
            pass = pass + 1;
            if pass < passes && engine.pending.len() > 0 {
                client.wait_ms(PASS_DELAY_MS);
            }
        }

        // Step 6: close the round; what remains is recycled for retry.
        engine.finish_round();
    }
    Ok(())
}

/// Drives a wave's batches, in order, each through [`fund_batch`] with a
/// fresh engine at the wave's amount; stops at, and reports, the first
/// batch that fails. With no batches there is nothing to fail.
fn drive_batches<C: LedgerClient>(
    client: &mut C,
    batches: Vec<Vec<UnsignedTransaction>>,
    to_lamports: u64,
    max_rounds: u64,
    max_anchor_attempts: u64,
) -> (r: Result<(), FundingError>)
    ensures
        batches@.len() == 0 ==> r is Ok,
        r is Err ==> batches@.len() > 0,
        r != Err::<(), FundingError>(FundingError::InsufficientBalance),
{
    let mut rest = batches;
    while rest.len() > 0
        invariant
            rest@.len() <= batches@.len(),
        decreases rest@.len(),
    {
        let b = rest.remove(0);
        let mut engine = Engine::new(b, to_lamports);
        match fund_batch(client, &mut engine, max_rounds, max_anchor_attempts) {
            Ok(()) => {},
            Err(e) => {
                return Err(e);
            },
        }
    }
    Ok(())
}

/// The uniform balance the sources of wave `k` hold, for a run seeded with
/// `total`: the seed balance at first, then wave by wave the previous
/// wave's per-destination amount. A pure function of the seed balance and
/// the two reserves — the ledger has no say in it.
pub open spec fn wave_funds(total: u64, reserve: u64, fee: u64, k: nat) -> int
    decreases k,
{
    if k == 0 {
        total as int
    } else {
        spend_amount(wave_funds(total, reserve, fee, (k - 1) as nat), reserve as int, fee as int)
    }
}

/// How many sources wave `k` has, and how many destinations still wait
/// before it runs, for a run over `n0` destinations: one seed source at
/// first; afterwards each wave's consumed destinations source the next.
pub open spec fn wave_shape(n0: int, k: nat) -> (int, int)
    decreases k,
{
    if k == 0 {
        (1, n0)
    } else {
        let prev = wave_shape(n0, (k - 1) as nat);
        let consumed = wave_consumed(prev.0, prev.1);
        (consumed, prev.1 - consumed)
    }
}

/// Funds `dests` from `source` wave by wave: plan the next wave from the
/// funded set, materialize its batches, and drive each batch through
/// [`fund_batch`] until every destination of the wave is confirmed; the
/// wave's destinations then become the next wave's sources.
///
/// `total` is the source's spendable balance, `lamports_per_account` the
/// balance reserved to every leaf, `max_fee` the fee reserve per
/// transaction. Planning a wave whose sources cannot cover reserve and fee
/// for one destination is fatal; in particular, that holds of the first
/// wave when `total` falls short, and it is only ever reported of a wave
/// of the deterministic [`wave_funds`] sequence that still had
/// destinations waiting, every earlier wave having been covered. With
/// nothing to fund, the run trivially succeeds.
pub fn fund_keys<C: LedgerClient>(
    client: &mut C,
    source: Identity,
    dests: &Vec<Identity>,
    total: u64,
    max_fee: u64,
    lamports_per_account: u64,
    max_rounds: u64,
    max_anchor_attempts: u64,
) -> (r: Result<(), FundingError>)
    ensures
        dests@.len() == 0 ==> r is Ok,
        dests@.len() > 0 && (total as int) < lamports_per_account + max_fee ==> r == Err::<
            (),
            FundingError,
        >(FundingError::InsufficientBalance),
        r == Err::<(), FundingError>(FundingError::InsufficientBalance) ==> exists|k: nat|
            #![trigger wave_funds(total, lamports_per_account, max_fee, k)]
            {
                &&& wave_shape(dests@.len() as int, k).1 > 0
                &&& wave_funds(total, lamports_per_account, max_fee, k) < lamports_per_account
                    + max_fee
                &&& forall|j: nat|
                    j < k ==> #[trigger] wave_funds(total, lamports_per_account, max_fee, j)
                        >= lamports_per_account + max_fee
            },
{
    let mut funded: Vec<Identity> = Vec::new();
    funded.push(source);
    let mut funded_funds: u64 = total;

    let mut not_funded: Vec<Identity> = Vec::new();
    let mut ci: usize = 0;
    while ci < dests.len()
        invariant
            ci <= dests@.len(),
            not_funded@ == dests@.take(ci as int),
        decreases dests@.len() - ci,
    {
        not_funded.push(dests[ci]);
        ci = ci + 1;
        proof {
            assert(not_funded@ =~= dests@.take(ci as int));
        }
    }
    proof {
        assert(not_funded@ =~= dests@);
    }

    let ghost n0 = dests@.len() as int;
    let ghost mut k: nat = 0;
    while not_funded.len() > 0
        invariant
            n0 == dests@.len(),
            funded@.len() >= 1,
            not_funded@.len() <= dests@.len(),
            funded_funds as int == wave_funds(total, lamports_per_account, max_fee, k),
            funded@.len() as int == wave_shape(n0, k).0,
            not_funded@.len() as int == wave_shape(n0, k).1,
            forall|j: nat|
                j < k ==> #[trigger] wave_funds(total, lamports_per_account, max_fee, j)
                    >= lamports_per_account + max_fee,
        decreases not_funded@.len(),
    {
        // Plan the wave; a balance shortfall is a configuration error.
        let plan = match plan_wave(
            &funded,
            funded_funds,
            &not_funded,
            lamports_per_account,
            max_fee,
        ) {
            Ok(p) => p,
            Err(PlanError::InsufficientBalance) => {
                proof {
                    assert(wave_shape(n0, k).1 > 0 && wave_funds(
                        total,
                        lamports_per_account,
                        max_fee,
                        k,
                    ) < lamports_per_account + max_fee && (forall|j: nat|
                        j < k ==> #[trigger] wave_funds(total, lamports_per_account, max_fee, j)
                            >= lamports_per_account + max_fee));
                }
                return Err(FundingError::InsufficientBalance);
            },
        };
        let crate::plan::WavePlan { assignments, to_lamports, new_funded, remaining } = plan;

        // Materialize the wave's batches and drive each to completion.
        let batches = build_batches(&assignments);
        match drive_batches(client, batches, to_lamports, max_rounds, max_anchor_attempts) {
            Ok(()) => {},
            Err(e) => {
                proof {
                    // This wave planned, so its funds were covered; with
                    // the earlier waves' that rules a seed shortfall out.
                    assert(wave_funds(total, lamports_per_account, max_fee, 0) == total as int);
                    if k > 0 {
                        assert(wave_funds(total, lamports_per_account, max_fee, 0)
                            >= lamports_per_account + max_fee);
                    }
                }
                return Err(e);
            },
        }

        // The wave's destinations are the next wave's sources.
        funded = new_funded;
        funded_funds = to_lamports;
        not_funded = remaining;
        proof {
            k = k + 1;
        }
    }
    proof {
        // The waiting list is empty: either nothing was ever waiting, or
        // at least the first wave ran with covered funds.
        assert(wave_shape(n0, 0).1 == n0);
        assert(wave_funds(total, lamports_per_account, max_fee, 0) == total as int);
        if k > 0 {
            assert(wave_funds(total, lamports_per_account, max_fee, 0) >= lamports_per_account
                + max_fee);
        }
    }
    Ok(())
}

} // verus!
