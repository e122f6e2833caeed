use send_batch::batch::UnsignedTransaction;
use send_batch::engine::{should_report_progress, Engine, EntryStatus, VerificationTally};
use send_batch::{Anchor, Identity};

fn tx(i: u64) -> UnsignedTransaction {
    UnsignedTransaction {
        source: Identity { seed: 1, index: i },
        transfers: vec![(Identity { seed: 2, index: i }, 100)],
    }
}

fn txs(n: u64) -> Vec<UnsignedTransaction> {
    (0..n).map(tx).collect()
}

#[test]
fn breaker_trips_after_101_failures_and_no_successes() {
    let mut t = VerificationTally::new(1000, false);
    for _ in 0..100 {
        t.record(false);
    }
    // The threshold alone is not enough.
    assert!(!t.aborted);
    t.record(false);
    assert!(t.aborted);
    assert_eq!(t.failed, 101);
    assert_eq!(t.verified, 0);
}

#[test]
fn breaker_stays_quiet_while_failures_do_not_outnumber_successes() {
    let mut t = VerificationTally::new(1000, false);
    for _ in 0..101 {
        t.record(true);
    }
    for _ in 0..101 {
        t.record(false);
    }
    // failed == 101 > 100, but not greater than verified == 101.
    assert!(!t.aborted);
    assert_eq!(t.remaining_count(), 1000 - 202);
}

#[test]
fn breaker_trips_once_failures_outnumber_successes() {
    let mut t = VerificationTally::new(1000, false);
    for _ in 0..100 {
        t.record(true);
    }
    for _ in 0..101 {
        t.record(false);
    }
    assert!(t.aborted);
    assert_eq!(t.verified, 100);
    assert_eq!(t.failed, 101);
}

#[test]
fn abort_flag_carries_into_a_fresh_tally() {
    let t = VerificationTally::new(10, true);
    assert!(t.aborted);
    assert_eq!(t.verified, 0);
    assert_eq!(t.failed, 0);
}

#[test]
fn entries_march_through_the_phases_together() {
    let mut e = Engine::new(txs(3), 100);
    assert_eq!(e.phase, EntryStatus::Unsigned);
    assert_eq!(e.rounds, 0);
    assert!(!e.is_complete());

    let anchor = Anchor { value: 9 };
    e.sign_all(anchor);
    assert_eq!(e.phase, EntryStatus::Signed);
    assert_eq!(e.last_anchor, Some(anchor));

    let outbound = e.collect_submission(anchor);
    assert_eq!(outbound.len(), 3);
    for (i, s) in outbound.iter().enumerate() {
        assert_eq!(s.source, e.pending[i].source);
        assert_eq!(s.transfers, e.pending[i].transfers);
        assert_eq!(s.anchor, anchor);
    }

    e.mark_submitted();
    assert_eq!(e.phase, EntryStatus::Submitted);

    e.finish_round();
    assert_eq!(e.rounds, 1);
    assert_eq!(e.phase, EntryStatus::Unsigned);
    assert_eq!(e.pending.len(), 3);
}

#[test]
fn pass_count_depends_on_batch_size() {
    let small = Engine::new(txs(999), 1);
    assert_eq!(small.passes_planned(), 3);
    let large = Engine::new(txs(1000), 1);
    assert_eq!(large.passes_planned(), 1);
}

#[test]
fn progress_reports_are_throttled() {
    assert!(!should_report_progress(0));
    assert!(!should_report_progress(2));
    assert!(should_report_progress(3));
}
