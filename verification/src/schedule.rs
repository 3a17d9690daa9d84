//! The experiments of an evaluation run: which configurations run, in which order,
//! on which chains, and the steps of one experiment.

use vstd::prelude::*;
use crate::amount::{Amount, ATTOS_PER_TOKEN, saturate};
use crate::cycle::{Cycle, cycle_window, cycle_advance};
use vstd::arithmetic::div_mod::lemma_fundamental_div_mod;
use crate::destinations::TransferTargetMode;

verus! {

/// Chains set up before the first experiment: two for the warm-up transfer, and two
/// disjoint batches of the largest size.
pub const CHAINS_NEEDED: usize = 402;

/// Tokens that every chain holds after balancing.
pub const BALANCE_TARGET_TOKENS: u128 = 1000;

/// Tokens moved by the warm-up transfer between two chains.
pub const WARM_UP_TOKENS: u128 = 10;

/// Seconds that an unpaced experiment runs.
pub const UNPACED_RUN_SECS: u64 = 60;

/// Seconds of each stretch of a paced experiment.
pub const PACED_PHASE_SECS: u64 = 30;

/// The parameters of one unpaced experiment and of the paced experiments that follow it.
#[derive(Clone, Copy, Debug, PartialEq, Eq, Structural)]
pub struct ExperimentConfig {
    pub num_chains: usize,
    pub transfer_mode: TransferTargetMode,
    pub tx_per_block: usize,
}

/// One step of running an experiment.
#[derive(Clone, Copy, Debug, PartialEq, Eq, Structural)]
pub enum ExperimentStep {
    /// Let the chains of the first batch start sending.
    StartPhaseOne,
    /// Let the chains of the second batch start sending.
    StartPhaseTwo,
    /// Wait this many seconds.
    Sleep { secs: u64 },
    /// Stop the chains of the second batch.
    StopPhaseTwo,
    /// Stop the chains of the first batch.
    StopPhaseOne,
}

/// The batch sizes, in the order they run.
pub open spec fn chain_count_at(i: int) -> usize {
    if i == 0 { 10 } else if i == 1 { 2 } else if i == 2 { 5 } else if i == 3 { 20 } else if i == 4 {
        50
    } else if i == 5 { 100 } else { 200 }
}

/// The transfer modes, in the order they run.
pub open spec fn mode_at(i: int) -> TransferTargetMode {
    if i == 0 {
        TransferTargetMode::RandomOtherChain
    } else if i == 1 {
        TransferTargetMode::SelfChain
    } else {
        TransferTargetMode::HalfAndHalfSelfOtherChain
    }
}

/// The block sizes, in the order they run.
pub open spec fn block_size_at(i: int) -> usize {
    if i == 0 { 1 } else if i == 1 { 10 } else { 100 }
}

/// Every batch size, with every mode, with every block size, the batch size varying slowest.
pub open spec fn experiment_grid_spec() -> Seq<ExperimentConfig> {
    Seq::new(
        63,
        |i: int|
            ExperimentConfig {
                num_chains: chain_count_at(i / 9),
                transfer_mode: mode_at((i / 3) % 3),
                tx_per_block: block_size_at(i % 3),
            },
    )
}

proof fn lemma_grid_index(i: int)
    requires
        0 <= i < 63,
    ensures
        0 <= i / 9 < 7,
        0 <= (i / 3) % 3 < 3,
        0 <= i % 3 < 3,
        i == 9 * (i / 9) + 3 * ((i / 3) % 3) + i % 3,
{
}

/// The grid is the full product of the batch sizes 10, 2, 5, 20, 50, 100, 200, the modes
/// in turn, self and mixing, and the block sizes 1, 10, 100, nested in that order: the
/// configuration at `9a + 3b + c` has the `a`-th batch size, the `b`-th mode and the
/// `c`-th block size.
pub proof fn lemma_grid_is_full_product(a: int, b: int, c: int)
    requires
        0 <= a < 7,
        0 <= b < 3,
        0 <= c < 3,
    ensures
        experiment_grid_spec().len() == 63,
        experiment_grid_spec()[9 * a + 3 * b + c] == (ExperimentConfig {
            num_chains: seq![10usize, 2, 5, 20, 50, 100, 200][a],
            transfer_mode: seq![
                TransferTargetMode::RandomOtherChain,
                TransferTargetMode::SelfChain,
                TransferTargetMode::HalfAndHalfSelfOtherChain,
            ][b],
            tx_per_block: seq![1usize, 10, 100][c],
        }),
{
    let i = 9 * a + 3 * b + c;
    assert(i / 9 == a && (i / 3) % 3 == b && i % 3 == c) by (nonlinear_arith)
        requires
            i == 9 * a + 3 * b + c,
            0 <= a < 7,
            0 <= b < 3,
            0 <= c < 3,
    ;
}

/// No configuration of the grid runs twice.
pub proof fn lemma_grid_distinct(i: int, j: int)
    requires
        0 <= i < 63,
        0 <= j < 63,
        i != j,
    ensures
        experiment_grid_spec()[i] != experiment_grid_spec()[j],
{
    lemma_grid_index(i);
    lemma_grid_index(j);
}

/// The configurations of an evaluation run, in the order they run.
pub fn experiment_grid() -> (r: Vec<ExperimentConfig>)
    ensures
        r@ == experiment_grid_spec(),
{
    let counts: [usize; 7] = [10, 2, 5, 20, 50, 100, 200];
    let modes: [TransferTargetMode; 3] = [
        TransferTargetMode::RandomOtherChain,
        TransferTargetMode::SelfChain,
        TransferTargetMode::HalfAndHalfSelfOtherChain,
    ];
    let sizes: [usize; 3] = [1, 10, 100];
    let mut r: Vec<ExperimentConfig> = Vec::new();
    let mut a: usize = 0;
    while a < 7
        invariant
            a <= 7,
            counts@ == seq![10usize, 2, 5, 20, 50, 100, 200],
            modes@ == seq![
                TransferTargetMode::RandomOtherChain,
                TransferTargetMode::SelfChain,
                TransferTargetMode::HalfAndHalfSelfOtherChain,
            ],
            sizes@ == seq![1usize, 10, 100],
            r@ == experiment_grid_spec().take(9 * a),
        decreases 7 - a,
    {
        let mut b: usize = 0;
        while b < 3
            invariant
                a < 7,
                b <= 3,
                counts@ == seq![10usize, 2, 5, 20, 50, 100, 200],
                modes@ == seq![
                    TransferTargetMode::RandomOtherChain,
                    TransferTargetMode::SelfChain,
                    TransferTargetMode::HalfAndHalfSelfOtherChain,
                ],
                sizes@ == seq![1usize, 10, 100],
                r@ == experiment_grid_spec().take(9 * a + 3 * b),
            decreases 3 - b,
        {
            let mut c: usize = 0;
            while c < 3
                invariant
                    a < 7,
                    b < 3,
                    c <= 3,
                    counts@ == seq![10usize, 2, 5, 20, 50, 100, 200],
                    modes@ == seq![
                        TransferTargetMode::RandomOtherChain,
                        TransferTargetMode::SelfChain,
                        TransferTargetMode::HalfAndHalfSelfOtherChain,
                    ],
                    sizes@ == seq![1usize, 10, 100],
                    r@ == experiment_grid_spec().take(9 * a + 3 * b + c),
                decreases 3 - c,
            {
                let cfg = ExperimentConfig {
                    num_chains: counts[a],
                    transfer_mode: modes[b],
                    tx_per_block: sizes[c],
                };
                proof {
                    let i = 9 * a + 3 * b + c;
                    assert(i / 9 == a && (i / 3) % 3 == b && i % 3 == c) by (nonlinear_arith)
                        requires
                            i == 9 * a + 3 * b + c,
                            a < 7,
                            b < 3,
                            c < 3,
                    ;
                    assert(experiment_grid_spec().take(i + 1) == experiment_grid_spec().take(
                        i,
                    ).push(cfg));
                }
                r.push(cfg);
                c = c + 1;
            }
            b = b + 1;
        }
        a = a + 1;
    }
    proof {
        assert(experiment_grid_spec().take(63) == experiment_grid_spec());
    }
    r
}

/// The pacing levels of the paced experiments, in blocks per second and per chain, in the order they run.
pub fn target_bps_levels() -> (r: Vec<u32>)
    ensures
        r@ == seq![1u32, 2, 5, 10],
{
    let mut r: Vec<u32> = Vec::new();
    r.push(1);
    r.push(2);
    r.push(5);
    r.push(10);
    r
}

/// The steps of an unpaced experiment: start all chains, run, stop them.
pub fn unpaced_steps() -> (r: Vec<ExperimentStep>)
    ensures
        r@ == seq![
            ExperimentStep::StartPhaseOne,
            ExperimentStep::Sleep { secs: UNPACED_RUN_SECS },
            ExperimentStep::StopPhaseOne,
        ],
{
    let mut r: Vec<ExperimentStep> = Vec::new();
    r.push(ExperimentStep::StartPhaseOne);
    r.push(ExperimentStep::Sleep { secs: UNPACED_RUN_SECS });
    r.push(ExperimentStep::StopPhaseOne);
    r
}

/// The steps of a paced experiment: the first batch runs alone, then, if there is a
/// second batch, both run and the second stops, and the first runs alone again.
pub open spec fn paced_steps_spec(has_phase_two: bool) -> Seq<ExperimentStep> {
    let sleep = ExperimentStep::Sleep { secs: PACED_PHASE_SECS };
    if has_phase_two {
        seq![
            ExperimentStep::StartPhaseOne,
            sleep,
            ExperimentStep::StartPhaseTwo,
            sleep,
            ExperimentStep::StopPhaseTwo,
            sleep,
            ExperimentStep::StopPhaseOne,
        ]
    } else {
        seq![ExperimentStep::StartPhaseOne, sleep, sleep, ExperimentStep::StopPhaseOne]
    }
}

/// The steps of a paced experiment whose second batch holds `phase_two_chains` chains.
pub fn paced_steps(phase_two_chains: usize) -> (r: Vec<ExperimentStep>)
    ensures
        r@ == paced_steps_spec(phase_two_chains > 0),
{
    let sleep = ExperimentStep::Sleep { secs: PACED_PHASE_SECS };
    let mut r: Vec<ExperimentStep> = Vec::new();
    r.push(ExperimentStep::StartPhaseOne);
    r.push(sleep);
    if phase_two_chains > 0 {
        r.push(ExperimentStep::StartPhaseTwo);
        r.push(sleep);
        r.push(ExperimentStep::StopPhaseTwo);
    }
    r.push(sleep);
    r.push(ExperimentStep::StopPhaseOne);
    proof {
        assert(r@ == paced_steps_spec(phase_two_chains > 0));
    }
    r
}

/// An endless round over the positions `0 .. count` of a chain list.
pub fn chain_index_round(count: usize) -> (r: Cycle<usize>)
    ensures
        r.items() == Seq::new(count as nat, |i: int| i as usize),
        r.position() == 0,
{
    let mut v: Vec<usize> = Vec::new();
    let mut i: usize = 0;
    while i < count
        invariant
            i <= count,
            v@ == Seq::new(i as nat, |k: int| k as usize),
        decreases count - i,
    {
        v.push(i);
        proof {
            assert(v@ =~= Seq::new((i + 1) as nat, |k: int| k as usize));
        }
        i = i + 1;
    }
    Cycle::new(v)
}

proof fn lemma_mod_distinct(x: int, y: int, m: int)
    requires
        0 <= x,
        m > 0,
        0 < y - x < m,
    ensures
        x % m != y % m,
{
    lemma_fundamental_div_mod(x, m);
    lemma_fundamental_div_mod(y, m);
    let qx = x / m;
    let qy = y / m;
    if x % m == y % m {
        let r = x % m;
        assert(false) by (nonlinear_arith)
            requires
                x == m * qx + r,
                y == m * qy + r,
                0 < y - x < m,
                m > 0,
        ;
    }
}

/// Two batches of `n` chains taken one after the other from a round over `count`
/// chains share no chain when `2 * n <= count`.
pub proof fn lemma_consecutive_batches_disjoint(count: nat, start: int, n: nat, a: int, b: int)
    requires
        0 <= start,
        2 * n <= count,
        count <= usize::MAX,
        0 <= a < n,
        0 <= b < n,
    ensures
        ({
            let items = Seq::new(count, |i: int| i as usize);
            cycle_window(items, start, n as int)[a] != cycle_window(
                items,
                cycle_advance(count as int, start, n as int),
                n as int,
            )[b]
        }),
{
    let c = count as int;
    let x = start + a;
    let y = start + n + b;
    vstd::arithmetic::div_mod::lemma_add_mod_noop_right(b, start + n, c);
    lemma_mod_distinct(x, y, c);
    let items = Seq::new(count, |i: int| i as usize);
    assert(cycle_window(items, start, n as int)[a] == (x % c) as usize);
    assert(cycle_window(items, cycle_advance(c, start, n as int), n as int)[b] == (y % c) as usize);
}

/// The balance that every chain is brought to.
pub fn balance_target() -> (r: Amount)
    ensures
        r.attos == ATTOS_PER_TOKEN * BALANCE_TARGET_TOKENS,
{
    Amount::from_tokens(BALANCE_TARGET_TOKENS)
}

/// What `chain_count` balanced chains hold together, or the largest amount if that does not fit.
pub fn expected_total_balance(chain_count: usize) -> (r: Amount)
    ensures
        r.attos == saturate(ATTOS_PER_TOKEN * BALANCE_TARGET_TOKENS * chain_count),
{
    balance_target().saturating_mul(chain_count as u128)
}

/// The balances `s` added up with saturation at every step.
pub open spec fn saturating_sum(s: Seq<Amount>) -> u128
    decreases s.len(),
{
    if s.len() == 0 { 0 } else { saturate(saturating_sum(s.drop_last()) + s.last().attos) }
}

/// The balances `s` added up exactly.
pub open spec fn amount_sum(s: Seq<Amount>) -> int
    decreases s.len(),
{
    if s.len() == 0 { 0 } else { amount_sum(s.drop_last()) + s.last().attos }
}

/// Saturating at every step gives the exact sum, capped at the largest amount.
pub proof fn lemma_saturating_sum_is_capped_sum(s: Seq<Amount>)
    ensures
        saturating_sum(s) == saturate(amount_sum(s)),
    decreases s.len(),
{
    if s.len() > 0 {
        lemma_saturating_sum_is_capped_sum(s.drop_last());
        lemma_amount_sum_nonneg(s.drop_last());
    }
}

proof fn lemma_amount_sum_nonneg(s: Seq<Amount>)
    ensures
        amount_sum(s) >= 0,
    decreases s.len(),
{
    if s.len() > 0 {
        lemma_amount_sum_nonneg(s.drop_last());
    }
}

/// The total across chains, as reported after an experiment.
pub fn saturating_total(balances: &Vec<Amount>) -> (r: Amount)
    ensures
        r.attos == saturating_sum(balances@),
{
    let mut total = Amount::zero();
    let mut i: usize = 0;
    while i < balances.len()
        invariant
            i <= balances@.len(),
            total.attos == saturating_sum(balances@.take(i as int)),
        decreases balances@.len() - i,
    {
        proof {
            assert(balances@.take(i + 1).drop_last() == balances@.take(i as int));
        }
        total.saturating_add_assign(balances[i]);
        i = i + 1;
    }
    proof {
        assert(balances@.take(balances@.len() as int) == balances@);
    }
    total
}

} // verus!
