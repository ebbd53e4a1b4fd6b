//! The sequencer: in-order release whatever the completion order, and
//! the not-yet-available condition.

use cosmscan::datetime::DateTime;
use cosmscan::journal::Journal;
use cosmscan::errors::{ClientErrorKind, Error};
use cosmscan::records::{Block, MsgCommittedBlock};
use cosmscan::retry::{RetryDecision, RetryPolicy};
use cosmscan::sequencer::{Sequencer, WAIT_FOR_HEIGHT_BACKOFF_MS};

fn block_at(height: i64) -> Block {
    Block {
        height,
        block_hash: format!("hash-{}", height),
        prev_hash: format!("hash-{}", height - 1),
        proposer_address: "proposer".to_string(),
        last_commit_hash: "lch".to_string(),
        data_hash: "dh".to_string(),
        validators_hash: "vh".to_string(),
        next_validators_hash: "nvh".to_string(),
        consensus_hash: "ch".to_string(),
        app_hash: "ah".to_string(),
        last_result_hash: "lrh".to_string(),
        evidence_hash: "eh".to_string(),
        block_time: DateTime { year: 2022, month: 8, day: 4, hour: 2, minute: 8, second: 43 },
    }
}

fn msg_at(height: i64) -> MsgCommittedBlock {
    MsgCommittedBlock { block: block_at(height), txs: vec![], events: vec![] }
}

#[test]
fn releases_in_order_regardless_of_completion_order() {
    let mut seq = Sequencer::new(10, 8).expect("positive start height");
    let mut dispatched = Vec::new();
    for _ in 0..5 {
        assert!(seq.can_dispatch());
        dispatched.push(seq.dispatch());
    }
    assert_eq!(dispatched, vec![10, 11, 12, 13, 14]);

    // nothing is sequential yet: completions arrive out of order
    seq.on_fetched(13, msg_at(13));
    seq.on_fetched(11, msg_at(11));
    assert!(seq.next_ready().is_none());
    assert_eq!(seq.checkpoint(), 10);

    seq.on_fetched(10, msg_at(10));
    seq.on_fetched(14, msg_at(14));
    seq.on_fetched(12, msg_at(12));

    let mut released = Vec::new();
    while let Some(msg) = seq.next_ready() {
        released.push(msg.block.height);
    }
    assert_eq!(released, vec![10, 11, 12, 13, 14]);
    assert_eq!(seq.checkpoint(), 15);
    assert!(seq.next_ready().is_none());
}

#[test]
fn dispatch_advances_cursor_not_completion() {
    let mut seq = Sequencer::new(1, 2).expect("positive start height");
    assert_eq!(seq.dispatch(), 1);
    assert_eq!(seq.dispatch(), 2);
    // the concurrency limit is reached: no third dispatch
    assert!(!seq.can_dispatch());
    assert_eq!(seq.checkpoint(), 1);
    seq.on_fetched(2, msg_at(2));
    assert!(seq.can_dispatch());
    assert_eq!(seq.dispatch(), 3);
}

#[test]
fn start_block_must_be_positive() {
    assert!(matches!(
        Sequencer::new(0, 4),
        Err(Error::StartBlockMustBeGreaterThanZero)
    ));
    assert!(matches!(
        Sequencer::new(-7, 4),
        Err(Error::StartBlockMustBeGreaterThanZero)
    ));
    assert!(Sequencer::new(1, 4).is_ok());
}

#[test]
fn not_yet_available_changes_nothing() {
    let mut seq = Sequencer::new(50, 4).expect("positive start height");
    assert_eq!(seq.dispatch(), 50);
    let backoff = seq.on_not_yet_available(50);
    assert_eq!(backoff, WAIT_FOR_HEIGHT_BACKOFF_MS);
    // the checkpoint has not advanced and nothing reached the drain
    assert_eq!(seq.checkpoint(), 50);
    assert!(seq.next_ready().is_none());
    // the height is still in flight: the cursor did not move past it
    seq.on_fetched(50, msg_at(50));
    assert_eq!(seq.next_ready().unwrap().block.height, 50);
}

#[test]
fn not_yet_available_three_times_then_success() {
    let mut seq = Sequencer::new(50, 4).expect("positive start height");
    let mut policy = RetryPolicy::new(10);
    assert_eq!(seq.dispatch(), 50);
    for _ in 0..3 {
        let decision = policy.on_error(ClientErrorKind::NotYetAvailable);
        assert_eq!(
            decision,
            RetryDecision::WaitForHeight { backoff_ms: WAIT_FOR_HEIGHT_BACKOFF_MS }
        );
        seq.on_not_yet_available(50);
        // the checkpoint stays at 50 throughout the retries
        assert_eq!(seq.checkpoint(), 50);
        assert!(seq.next_ready().is_none());
    }
    // the retries consumed no attempts of the transient-failure budget
    assert_eq!(policy.retry_count, 0);
    seq.on_fetched(50, msg_at(50));
    policy.on_success();
    let mut delivered = Vec::new();
    while let Some(msg) = seq.next_ready() {
        delivered.push(msg.block.height);
    }
    // the committer receives height 50 exactly once
    assert_eq!(delivered, vec![50]);
    assert_eq!(seq.checkpoint(), 51);
}

#[test]
fn retry_policy_bounded_then_abort() {
    let mut policy = RetryPolicy::new(2);
    assert_eq!(
        policy.on_error(ClientErrorKind::Transient),
        RetryDecision::Retry { backoff_ms: 1000 }
    );
    assert_eq!(
        policy.on_error(ClientErrorKind::Transient),
        RetryDecision::Retry { backoff_ms: 1000 }
    );
    assert_eq!(policy.on_error(ClientErrorKind::Transient), RetryDecision::Abort);
    // a success resets the budget
    policy.on_success();
    assert_eq!(
        policy.on_error(ClientErrorKind::Transient),
        RetryDecision::Retry { backoff_ms: 1000 }
    );
    // a fatal failure aborts at once
    assert_eq!(policy.on_error(ClientErrorKind::Fatal), RetryDecision::Abort);
}

#[test]
fn journal_buffers_until_sequential() {
    let mut journal = Journal::new(5);
    assert_eq!(journal.checkpoint(), 5);
    journal.insert(7, msg_at(7));
    journal.insert(6, msg_at(6));
    assert!(journal.contains(7));
    assert!(!journal.contains(5));
    assert_eq!(journal.len(), 2);
    // height 5 has not arrived: nothing is released
    assert!(journal.pop_next().is_none());
    journal.insert(5, msg_at(5));
    assert_eq!(journal.pop_next().unwrap().block.height, 5);
    assert_eq!(journal.pop_next().unwrap().block.height, 6);
    assert_eq!(journal.pop_next().unwrap().block.height, 7);
    assert!(journal.pop_next().is_none());
    assert_eq!(journal.checkpoint(), 8);
    assert_eq!(journal.len(), 0);
}

/// Whatever permutation completions arrive in, and however the drain
/// interleaves with them, the output is the consecutive run of heights.
#[test]
fn releases_in_order_for_many_permutations() {
    let n: usize = 24;
    for seed in 1u64..8 {
        // a small linear-congruential shuffle of the completion order
        let mut order: Vec<u64> = (100..100 + n as u64).collect();
        let mut state = seed;
        for i in (1..n).rev() {
            state = state.wrapping_mul(6364136223846793005).wrapping_add(1442695040888963407);
            let j = (state >> 33) as usize % (i + 1);
            order.swap(i, j);
        }

        let mut seq = Sequencer::new(100, n).expect("positive start height");
        for _ in 0..n {
            seq.dispatch();
        }
        let mut released = Vec::new();
        for h in order {
            seq.on_fetched(h, msg_at(h as i64));
            // drain whatever has become sequential so far
            while let Some(msg) = seq.next_ready() {
                released.push(msg.block.height as u64);
            }
        }
        let expected: Vec<u64> = (100..100 + n as u64).collect();
        assert_eq!(released, expected, "seed {}", seed);
        assert_eq!(seq.checkpoint(), 100 + n as u64);
    }
}
