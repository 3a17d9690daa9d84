use linera_paper_eval::amount::Amount;
use linera_paper_eval::chain::{other_chains, ChainKey};
use linera_paper_eval::cycle::Cycle;
use linera_paper_eval::destinations::{destination_pattern_of, shuffled_destination_round, TransferTargetMode};
use linera_paper_eval::task::{
    desync_delay_from, desync_delay_millis, tick_period_millis, OutcomeLog, TimingSample, TransferOrder,
    TransferOutcome, TransferTask,
};

fn key(n: u64) -> ChainKey {
    ChainKey { w0: n, w1: 0, w2: 0, w3: 0 }
}

#[test]
fn cycle_wraps_around() {
    let mut c = Cycle::new(vec![1u32, 2, 3]);
    assert_eq!(c.take(2), vec![1, 2]);
    assert_eq!(c.take(4), vec![3, 1, 2, 3]);
    assert_eq!(c.take(0), vec![]);
    assert_eq!(c.take(1), vec![1]);
}

#[test]
fn cycle_over_nothing_yields_nothing() {
    let mut c: Cycle<u32> = Cycle::new(vec![]);
    assert_eq!(c.take(5), vec![]);
}

#[test]
fn cycle_blocks_concatenate() {
    let mut a = Cycle::new(vec![7u8, 8, 9, 10]);
    let mut b = Cycle::new(vec![7u8, 8, 9, 10]);
    let mut joined = a.take(3);
    joined.extend(a.take(6));
    assert_eq!(joined, b.take(9));
    // A round repeats itself every length items.
    let long = Cycle::new(vec![1u8, 2, 3]).take(10);
    for k in 0..7 {
        assert_eq!(long[k], long[k + 3]);
    }
}

#[test]
fn patterns_by_mode() {
    let order = vec![key(1), key(2)];
    let own = key(0);
    assert_eq!(destination_pattern_of(TransferTargetMode::RandomOtherChain, &order, own), order);
    assert_eq!(
        destination_pattern_of(TransferTargetMode::HalfAndHalfSelfOtherChain, &order, own),
        vec![key(1), own, key(2), own]
    );
    assert_eq!(destination_pattern_of(TransferTargetMode::SelfChain, &order, own), vec![own]);
    assert_eq!(destination_pattern_of(TransferTargetMode::HalfAndHalfSelfOtherChain, &vec![], own), vec![]);
}

#[test]
fn shuffled_round_is_a_permutation() {
    let dests: Vec<ChainKey> = (1..=10).map(key).collect();
    let mut round = shuffled_destination_round(TransferTargetMode::RandomOtherChain, dests.clone(), key(0));
    let mut got = round.take(10);
    got.sort_by_key(|k| k.w0);
    assert_eq!(got, dests);
}

#[test]
fn shuffle_changes_the_order_sometimes() {
    let dests: Vec<ChainKey> = (1..=12).map(key).collect();
    let mut changed = false;
    for _ in 0..20 {
        let mut round = shuffled_destination_round(TransferTargetMode::RandomOtherChain, dests.clone(), key(0));
        if round.take(12) != dests {
            changed = true;
        }
    }
    assert!(changed);
}

#[test]
fn random_mode_never_sends_to_itself() {
    let chains: Vec<ChainKey> = (0..6).map(key).collect();
    for own in 0..6 {
        let dests = other_chains(&chains, key(own));
        let mut task = TransferTask::new(TransferTargetMode::RandomOtherChain, dests, key(own), 7);
        for _ in 0..5 {
            for order in task.next_block() {
                assert_ne!(order.recipient, key(own));
            }
        }
    }
}

#[test]
fn half_and_half_alternates() {
    let order = vec![key(1), key(2), key(3)];
    let mut task = TransferTask::with_order(TransferTargetMode::HalfAndHalfSelfOtherChain, &order, key(0), 4);
    let one = |k: u64| TransferOrder { recipient: key(k), amount: Amount::from_attos(1) };
    assert_eq!(task.next_block(), vec![one(1), one(0), one(2), one(0)]);
    assert_eq!(task.next_block(), vec![one(3), one(0), one(1), one(0)]);
}

#[test]
fn self_mode_sends_to_itself() {
    let mut task = TransferTask::new(TransferTargetMode::SelfChain, vec![key(1), key(2)], key(9), 3);
    let block = task.next_block();
    assert_eq!(block.len(), 3);
    assert!(block.iter().all(|o| o.recipient == key(9) && o.amount == Amount::from_attos(1)));
}

#[test]
fn no_destination_means_empty_blocks() {
    let mut task = TransferTask::new(TransferTargetMode::RandomOtherChain, vec![], key(9), 3);
    assert!(task.next_block().is_empty());
}

#[test]
fn outcomes_are_filed_by_kind() {
    let mut task = TransferTask::with_order(TransferTargetMode::SelfChain, &vec![], key(0), 1);
    let s = |a: u128, d: u128| TimingSample { started_nanos: a, duration_nanos: d };
    task.record(TransferOutcome::Committed, s(1, 10));
    task.record(TransferOutcome::Conflict, s(2, 20));
    task.record(TransferOutcome::Committed, s(3, 30));
    task.record(TransferOutcome::Error, s(4, 40));
    let log: OutcomeLog = task.into_outcomes();
    assert_eq!(log.committed, vec![s(1, 10), s(3, 30)]);
    assert_eq!(log.conflict, vec![s(2, 20)]);
    assert_eq!(log.error, vec![s(4, 40)]);
    assert!(log.wait_for_timeout.is_empty());
    assert_eq!(log.samples(TransferOutcome::Committed), &vec![s(1, 10), s(3, 30)]);
}

#[test]
fn pacing() {
    assert_eq!(tick_period_millis(1), 1000);
    assert_eq!(tick_period_millis(2), 500);
    assert_eq!(tick_period_millis(5), 200);
    assert_eq!(tick_period_millis(10), 100);
    assert_eq!(tick_period_millis(3), 333);
    assert_eq!(tick_period_millis(1000), 1);
    assert_eq!(tick_period_millis(999), 1);
    assert_eq!(desync_delay_from(123_456), 456);
    assert_eq!(desync_delay_from(999), 999);
    for _ in 0..100 {
        assert!(desync_delay_millis() < 1000);
    }
}
