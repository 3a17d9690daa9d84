use linera_paper_eval::amount::{Amount, ATTOS_PER_TOKEN};
use linera_paper_eval::chain::ChainKey;
use linera_paper_eval::destinations::TransferTargetMode;
use linera_paper_eval::names::{
    configuration_suffix, decimal_chars, mode_chars, paced_experiment_name, unpaced_experiment_name,
};
use linera_paper_eval::schedule::{
    balance_target, chain_index_round, expected_total_balance, experiment_grid, paced_steps, saturating_total,
    target_bps_levels, unpaced_steps, ExperimentConfig, ExperimentStep, CHAINS_NEEDED,
};
use linera_paper_eval::task::{OutcomeLog, TimingSample, TransferOutcome};
use linera_paper_eval::timings::{chain_rows, outcome_label, phase_of, TimingTotals, TransferRow, MAX_DURATION_NANOS};

fn key(n: u64) -> ChainKey {
    ChainKey { w0: n, w1: 0, w2: 0, w3: 0 }
}

fn s(a: u128, d: u128) -> TimingSample {
    TimingSample { started_nanos: a, duration_nanos: d }
}

fn text(v: Vec<char>) -> String {
    v.into_iter().collect()
}

#[test]
fn phases() {
    assert_eq!(phase_of(0, 2), 1);
    assert_eq!(phase_of(1, 2), 1);
    assert_eq!(phase_of(2, 2), 2);
    assert_eq!(phase_of(0, 0), 2);
}

#[test]
fn rows_come_in_outcome_order() {
    let mut log = OutcomeLog::new();
    log.record(TransferOutcome::Error, s(900, 5_500));
    log.record(TransferOutcome::Committed, s(1_500, 2_000));
    log.record(TransferOutcome::WaitForTimeout, s(2_000, 999));
    log.record(TransferOutcome::Committed, s(500, 1_000_000));
    let rows = chain_rows(key(4), 2, 1_000, &log);
    let row = |since: u128, outcome: TransferOutcome, micros: u128| TransferRow {
        chain: key(4),
        phase: 2,
        since_start_nanos: since,
        outcome,
        duration_micros: micros,
    };
    assert_eq!(
        rows,
        vec![
            row(500, TransferOutcome::Committed, 2),
            row(0, TransferOutcome::Committed, 1000),
            row(1000, TransferOutcome::WaitForTimeout, 0),
            row(0, TransferOutcome::Error, 5),
        ]
    );
}

#[test]
fn totals_add_up() {
    let mut a = OutcomeLog::new();
    a.record(TransferOutcome::Committed, s(0, 1_500));
    a.record(TransferOutcome::Committed, s(0, 2_600));
    a.record(TransferOutcome::Conflict, s(0, 7));
    let mut b = OutcomeLog::new();
    b.record(TransferOutcome::Committed, s(0, 900));
    let mut totals = TimingTotals::new();
    assert_eq!(totals.absorb(&a), Ok(()));
    assert_eq!(totals.absorb(&b), Ok(()));
    assert_eq!(totals.count(TransferOutcome::Committed), 3);
    assert_eq!(totals.count(TransferOutcome::Conflict), 1);
    assert_eq!(totals.count(TransferOutcome::Error), 0);
    // Durations are added first and cut to microseconds afterwards.
    assert_eq!(totals.total_micros(TransferOutcome::Committed), 5);
    assert_eq!(totals.total_micros(TransferOutcome::Conflict), 0);
}

#[test]
fn totals_refuse_an_overlong_duration() {
    let mut a = OutcomeLog::new();
    a.record(TransferOutcome::Error, s(0, MAX_DURATION_NANOS));
    let mut totals = TimingTotals::new();
    assert_eq!(totals.absorb(&a), Ok(()));
    let mut b = OutcomeLog::new();
    b.record(TransferOutcome::Committed, s(0, 4));
    b.record(TransferOutcome::Error, s(0, 1));
    let before = totals;
    assert!(totals.absorb(&b).is_err());
    assert_eq!(totals, before);
}

#[test]
fn grid_of_experiments() {
    let grid = experiment_grid();
    assert_eq!(grid.len(), 63);
    assert_eq!(
        grid[0],
        ExperimentConfig { num_chains: 10, transfer_mode: TransferTargetMode::RandomOtherChain, tx_per_block: 1 }
    );
    assert_eq!(
        grid[4],
        ExperimentConfig { num_chains: 10, transfer_mode: TransferTargetMode::SelfChain, tx_per_block: 10 }
    );
    assert_eq!(
        grid[9],
        ExperimentConfig { num_chains: 2, transfer_mode: TransferTargetMode::RandomOtherChain, tx_per_block: 1 }
    );
    assert_eq!(
        grid[62],
        ExperimentConfig {
            num_chains: 200,
            transfer_mode: TransferTargetMode::HalfAndHalfSelfOtherChain,
            tx_per_block: 100
        }
    );
    assert_eq!(target_bps_levels(), vec![1, 2, 5, 10]);
    assert_eq!(CHAINS_NEEDED, 2 * 200 + 2);
}

#[test]
fn experiment_steps() {
    assert_eq!(
        unpaced_steps(),
        vec![ExperimentStep::StartPhaseOne, ExperimentStep::Sleep { secs: 60 }, ExperimentStep::StopPhaseOne]
    );
    let sleep = ExperimentStep::Sleep { secs: 30 };
    assert_eq!(
        paced_steps(3),
        vec![
            ExperimentStep::StartPhaseOne,
            sleep,
            ExperimentStep::StartPhaseTwo,
            sleep,
            ExperimentStep::StopPhaseTwo,
            sleep,
            ExperimentStep::StopPhaseOne
        ]
    );
    assert_eq!(paced_steps(0), vec![ExperimentStep::StartPhaseOne, sleep, sleep, ExperimentStep::StopPhaseOne]);
}

#[test]
fn batches_cycle_over_the_chains() {
    let mut round = chain_index_round(5);
    assert_eq!(round.take(2), vec![0, 1]);
    assert_eq!(round.take(2), vec![2, 3]);
    assert_eq!(round.take(3), vec![4, 0, 1]);
}

#[test]
fn balance_amounts() {
    assert_eq!(balance_target().to_attos(), 1000 * ATTOS_PER_TOKEN);
    assert_eq!(expected_total_balance(3).to_attos(), 3000 * ATTOS_PER_TOKEN);
    assert_eq!(expected_total_balance(usize::MAX).to_attos(), u128::MAX);
    let total = saturating_total(&vec![Amount::from_attos(5), Amount::from_attos(7)]);
    assert_eq!(total, Amount::from_attos(12));
    let capped = saturating_total(&vec![Amount::from_attos(u128::MAX), Amount::from_attos(7), Amount::from_attos(1)]);
    assert_eq!(capped.to_attos(), u128::MAX);
    assert_eq!(saturating_total(&vec![]), Amount::zero());
}

#[test]
fn names_of_experiments() {
    assert_eq!(text(decimal_chars(0)), "0");
    assert_eq!(text(decimal_chars(907)), "907");
    assert_eq!(text(decimal_chars(u64::MAX)), u64::MAX.to_string());
    assert_eq!(text(mode_chars(TransferTargetMode::HalfAndHalfSelfOtherChain)), "HalfAndHalfSelfOtherChain");
    assert_eq!(
        text(mode_chars(TransferTargetMode::RandomOtherChain)),
        format!("{:?}", TransferTargetMode::RandomOtherChain)
    );
    let config: Vec<char> = "scylla".chars().collect();
    let suffix = configuration_suffix(Some(&config));
    assert_eq!(text(suffix.clone()), "_scylla");
    assert_eq!(configuration_suffix(None), vec![]);
    assert_eq!(
        text(unpaced_experiment_name(10, TransferTargetMode::SelfChain, 100, &suffix, 3)),
        "10_SelfChain_100tx_scylla_3"
    );
    assert_eq!(
        text(paced_experiment_name(2, TransferTargetMode::RandomOtherChain, 1, 5, &vec![], 0)),
        "2_RandomOtherChain_1tx_5bps_0"
    );
}

#[test]
fn outcome_labels() {
    assert_eq!(outcome_label(TransferOutcome::Committed), "committed");
    assert_eq!(outcome_label(TransferOutcome::WaitForTimeout), "wait_for_timeout");
    assert_eq!(outcome_label(TransferOutcome::Conflict), "conflict");
    assert_eq!(outcome_label(TransferOutcome::Error), "error");
}

#[test]
fn consecutive_batches_share_no_chain() {
    let mut round = chain_index_round(CHAINS_NEEDED - 2);
    round.take(7);
    let first = round.take(200);
    let second = round.take(200);
    for c in &first {
        assert!(!second.contains(c));
    }
}
