use send_batch::batch::{SignedTransaction, UnsignedTransaction};
use send_batch::engine::Engine;
use send_batch::ledger::{
    confirmed_by_answers, fund_batch, fund_keys, get_latest_blockhash, FundingError, LedgerClient,
    LedgerError,
};
use send_batch::{Anchor, ConfirmationLevel, Identity};

fn ids(seed: u64, n: u64) -> Vec<Identity> {
    let mut v = Vec::new();
    for i in 0..n {
        v.push(Identity { seed, index: i });
    }
    v
}

fn tx(i: u64) -> UnsignedTransaction {
    UnsignedTransaction {
        source: Identity { seed: 1, index: i },
        transfers: vec![(Identity { seed: 2, index: i }, 100)],
    }
}

fn txs(n: u64) -> Vec<UnsignedTransaction> {
    (0..n).map(tx).collect()
}

/// A ledger whose balance queries always answer the same thing.
struct ScriptedLedger {
    balance: Option<u64>,
    anchors: u64,
    submissions: Vec<Vec<SignedTransaction>>,
    balance_queries: u64,
    progress_notes: u64,
}

impl ScriptedLedger {
    fn new(balance: Option<u64>) -> Self {
        ScriptedLedger {
            balance,
            anchors: 0,
            submissions: Vec::new(),
            balance_queries: 0,
            progress_notes: 0,
        }
    }
}

impl LedgerClient for ScriptedLedger {
    fn get_latest_anchor(&mut self, _level: ConfirmationLevel) -> Result<Anchor, LedgerError> {
        self.anchors += 1;
        Ok(Anchor { value: self.anchors })
    }

    fn submit_batch(&mut self, batch: Vec<SignedTransaction>) -> Result<(), LedgerError> {
        self.submissions.push(batch);
        Ok(())
    }

    fn get_balance(
        &mut self,
        _account: Identity,
        _level: ConfirmationLevel,
    ) -> Result<u64, LedgerError> {
        self.balance_queries += 1;
        match self.balance {
            Some(b) => Ok(b),
            None => Err(LedgerError),
        }
    }

    fn wait_ms(&mut self, _ms: u64) {}

    fn note_progress(&mut self, _remaining: usize, _verified: usize, _failed: usize) {
        self.progress_notes += 1;
    }
}

/// A ledger that never produces an anchor.
struct NoAnchorLedger {
    attempts: u64,
}

impl LedgerClient for NoAnchorLedger {
    fn get_latest_anchor(&mut self, _level: ConfirmationLevel) -> Result<Anchor, LedgerError> {
        self.attempts += 1;
        Err(LedgerError)
    }

    fn submit_batch(&mut self, _batch: Vec<SignedTransaction>) -> Result<(), LedgerError> {
        Ok(())
    }

    fn get_balance(
        &mut self,
        _account: Identity,
        _level: ConfirmationLevel,
    ) -> Result<u64, LedgerError> {
        Ok(0)
    }

    fn wait_ms(&mut self, _ms: u64) {}

    fn note_progress(&mut self, _remaining: usize, _verified: usize, _failed: usize) {}
}

/// A ledger that rejects every submission.
struct RejectingLedger;

impl LedgerClient for RejectingLedger {
    fn get_latest_anchor(&mut self, _level: ConfirmationLevel) -> Result<Anchor, LedgerError> {
        Ok(Anchor { value: 1 })
    }

    fn submit_batch(&mut self, _batch: Vec<SignedTransaction>) -> Result<(), LedgerError> {
        Err(LedgerError)
    }

    fn get_balance(
        &mut self,
        _account: Identity,
        _level: ConfirmationLevel,
    ) -> Result<u64, LedgerError> {
        Ok(0)
    }

    fn wait_ms(&mut self, _ms: u64) {}

    fn note_progress(&mut self, _remaining: usize, _verified: usize, _failed: usize) {}
}

#[test]
fn full_balances_complete_the_wave_in_one_round() {
    let mut client = ScriptedLedger::new(Some(1_000_000));
    let mut engine = Engine::new(txs(5), 100);
    let r = fund_batch(&mut client, &mut engine, 10, 3);
    assert!(r.is_ok());
    assert!(engine.pending.is_empty());
    assert_eq!(engine.rounds, 1);
    assert_eq!(client.submissions.len(), 1);
    assert_eq!(client.anchors, 1);
    assert_eq!(client.balance_queries, 5);
}

#[test]
fn zero_balances_resign_and_resubmit_every_round() {
    let mut client = ScriptedLedger::new(Some(0));
    let mut engine = Engine::new(txs(5), 100);
    let r = fund_batch(&mut client, &mut engine, 4, 3);
    assert_eq!(r, Err(FundingError::RetriesExhausted));
    assert_eq!(engine.pending.len(), 5);
    assert_eq!(engine.rounds, 4);
    // One anchor and one submission per round.
    assert_eq!(client.anchors, 4);
    assert_eq!(client.submissions.len(), 4);
    // A small batch gets three passes per round, each querying every entry.
    assert_eq!(client.balance_queries, 4 * 3 * 5);
    // Every decided entry but a pass's last reports progress.
    assert_eq!(client.progress_notes, 4 * 3 * 4);
}

#[test]
fn breaker_truncates_a_failing_pass() {
    let mut client = ScriptedLedger::new(Some(0));
    let mut engine = Engine::new(txs(1000), 100);
    let r = fund_batch(&mut client, &mut engine, 1, 3);
    assert_eq!(r, Err(FundingError::RetriesExhausted));
    assert_eq!(engine.pending.len(), 1000);
    // A batch of 1000 gets a single pass, and the breaker trips at the
    // 101st failure: the other 899 queries never start.
    assert_eq!(client.balance_queries, 101);
}

/// A ledger whose balance queries fail for one seed's accounts and answer
/// a fixed balance for everything else.
struct SelectiveLedger {
    failing_seed: u64,
    balance: u64,
    balance_queries: u64,
}

impl LedgerClient for SelectiveLedger {
    fn get_latest_anchor(&mut self, _level: ConfirmationLevel) -> Result<Anchor, LedgerError> {
        Ok(Anchor { value: 1 })
    }

    fn submit_batch(&mut self, _batch: Vec<SignedTransaction>) -> Result<(), LedgerError> {
        Ok(())
    }

    fn get_balance(
        &mut self,
        account: Identity,
        _level: ConfirmationLevel,
    ) -> Result<u64, LedgerError> {
        self.balance_queries += 1;
        if account.seed == self.failing_seed {
            Err(LedgerError)
        } else {
            Ok(self.balance)
        }
    }

    fn wait_ms(&mut self, _ms: u64) {}

    fn note_progress(&mut self, _remaining: usize, _verified: usize, _failed: usize) {}
}

#[test]
fn breaker_stays_tripped_across_the_passes_of_a_round() {
    let mut client = ScriptedLedger::new(Some(0));
    // 150 entries: small enough for three passes per round.
    let mut engine = Engine::new(txs(150), 100);
    let r = fund_batch(&mut client, &mut engine, 1, 3);
    assert_eq!(r, Err(FundingError::RetriesExhausted));
    assert_eq!(engine.pending.len(), 150);
    // Pass 1 stops querying at the 101st failure; passes 2 and 3 inherit
    // the tripped breaker and never query at all.
    assert_eq!(client.balance_queries, 101);
}

#[test]
fn first_successful_query_decides_the_entry() {
    // The entry's first destination cannot be queried, its second can and
    // holds the full amount: the transfer counts as verified, because a
    // submission applies all of its transfers or none.
    let mut client = SelectiveLedger { failing_seed: 8, balance: 1_000, balance_queries: 0 };
    let tx = UnsignedTransaction {
        source: Identity { seed: 1, index: 0 },
        transfers: vec![
            (Identity { seed: 8, index: 0 }, 100),
            (Identity { seed: 9, index: 1 }, 100),
        ],
    };
    let mut engine = Engine::new(vec![tx], 100);
    let r = fund_batch(&mut client, &mut engine, 3, 2);
    assert!(r.is_ok());
    assert_eq!(engine.rounds, 1);
    assert_eq!(client.balance_queries, 2);
}

#[test]
fn a_balance_at_the_amount_verifies_and_below_does_not() {
    let mut client = ScriptedLedger::new(Some(100));
    let mut engine = Engine::new(txs(1), 100);
    assert!(fund_batch(&mut client, &mut engine, 2, 2).is_ok());

    let mut client = ScriptedLedger::new(Some(99));
    let mut engine = Engine::new(txs(1), 100);
    assert_eq!(
        fund_batch(&mut client, &mut engine, 2, 2),
        Err(FundingError::RetriesExhausted)
    );
}

#[test]
fn failed_queries_count_as_not_yet_verified() {
    let mut client = ScriptedLedger::new(None);
    let mut engine = Engine::new(txs(2), 100);
    let r = fund_batch(&mut client, &mut engine, 2, 3);
    assert_eq!(r, Err(FundingError::RetriesExhausted));
    assert_eq!(engine.pending.len(), 2);
}

#[test]
fn anchor_attempts_are_bounded() {
    let mut client = NoAnchorLedger { attempts: 0 };
    assert_eq!(get_latest_blockhash(&mut client, 5), None);
    assert_eq!(client.attempts, 5);
    let mut engine = Engine::new(txs(1), 10);
    let r = fund_batch(&mut client, &mut engine, 3, 2);
    assert_eq!(r, Err(FundingError::AnchorUnavailable));
}

#[test]
fn submission_rejection_is_fatal() {
    let mut client = RejectingLedger;
    let mut engine = Engine::new(txs(3), 10);
    let r = fund_batch(&mut client, &mut engine, 5, 2);
    assert_eq!(r, Err(FundingError::SubmissionFailed));
    assert_eq!(engine.pending.len(), 3);
}

#[test]
fn empty_batch_needs_no_ledger_at_all() {
    let mut client = ScriptedLedger::new(Some(0));
    let mut engine = Engine::new(Vec::new(), 10);
    let r = fund_batch(&mut client, &mut engine, 5, 2);
    assert!(r.is_ok());
    assert_eq!(engine.rounds, 0);
    assert_eq!(client.anchors, 0);
}

#[test]
fn twenty_leaves_fund_in_two_waves() {
    let mut client = ScriptedLedger::new(Some(u64::MAX));
    let source = Identity { seed: 0, index: 0 };
    let dests = ids(3, 20);
    let r = fund_keys(&mut client, source, &dests, 1_000_000, 100, 1_000, 5, 3);
    assert!(r.is_ok());
    assert_eq!(client.submissions.len(), 2);
    // Wave 1: the seed source funds four destinations in one transaction.
    assert_eq!(client.submissions[0].len(), 1);
    assert_eq!(client.submissions[0][0].source, source);
    assert_eq!(client.submissions[0][0].transfers.len(), 4);
    // Wave 2: those four fund the remaining sixteen.
    assert_eq!(client.submissions[1].len(), 4);
    for tx in client.submissions[1].iter() {
        assert_eq!(tx.transfers.len(), 4);
    }
}

#[test]
fn one_transaction_carries_all_four_exact_amounts() {
    let mut client = ScriptedLedger::new(Some(u64::MAX));
    let source = Identity { seed: 0, index: 0 };
    let dests = ids(3, 4);
    let r = fund_keys(&mut client, source, &dests, 1_000_000, 5_000, 10_000, 5, 3);
    assert!(r.is_ok());
    assert_eq!(client.submissions.len(), 1);
    let batch = &client.submissions[0];
    assert_eq!(batch.len(), 1);
    assert_eq!(batch[0].source, source);
    assert_eq!(batch[0].transfers.len(), 4);
    for (i, (dest, amount)) in batch[0].transfers.iter().enumerate() {
        assert_eq!(*dest, dests[i]);
        assert_eq!(*amount, 246_250);
    }
}

#[test]
fn first_wave_shortfall_is_fatal_before_any_submission() {
    let mut client = ScriptedLedger::new(Some(0));
    let dests = ids(3, 4);
    let r = fund_keys(
        &mut client,
        Identity { seed: 0, index: 0 },
        &dests,
        14_999,
        5_000,
        10_000,
        5,
        3,
    );
    assert_eq!(r, Err(FundingError::InsufficientBalance));
    assert!(client.submissions.is_empty());
}

#[test]
fn nothing_to_fund_succeeds_without_ledger_calls() {
    let mut client = ScriptedLedger::new(Some(0));
    let r = fund_keys(&mut client, Identity { seed: 0, index: 0 }, &Vec::new(), 0, 0, 0, 1, 1);
    assert!(r.is_ok());
    assert_eq!(client.anchors, 0);
    assert!(client.submissions.is_empty());
}

#[test]
fn criterion_first_answer_decides() {
    // A first answer at the amount confirms; below it does not.
    assert!(confirmed_by_answers(&vec![Some(100)], 100));
    assert!(!confirmed_by_answers(&vec![Some(99)], 100));
    // Failed queries are passed over until one answers.
    assert!(confirmed_by_answers(&vec![None, None, Some(250)], 100));
    assert!(!confirmed_by_answers(&vec![None, Some(99)], 100));
    // Only the first answer counts; later ones are never consulted.
    assert!(!confirmed_by_answers(&vec![Some(0), Some(1_000)], 100));
    // No destinations, or no successful query, confirms nothing.
    assert!(!confirmed_by_answers(&Vec::new(), 100));
    assert!(!confirmed_by_answers(&vec![None, None], 100));
}
