//! The state of one sending chain during an experiment: where its next transfers go,
//! and what became of the blocks it proposed.

use vstd::prelude::*;
use crate::amount::Amount;
use crate::chain::ChainKey;
use crate::cycle::{Cycle, cycle_window, cycle_advance};
use crate::destinations::{TransferTargetMode, destination_pattern, destination_round, shuffled_destination_round};

verus! {

/// Each transfer of an experiment moves one attotoken.
pub const TRANSFER_ATTOS: u128 = 1;

/// What came of proposing one block of transfers.
#[derive(Clone, Copy, Debug, PartialEq, Eq, Structural)]
pub enum TransferOutcome {
    Committed,
    WaitForTimeout,
    Conflict,
    Error,
}

/// When a block was proposed and how long the proposal took, in nanoseconds.
#[derive(Clone, Copy, Debug, PartialEq, Eq, Structural)]
pub struct TimingSample {
    /// Start of the proposal, counted from a fixed instant of the run.
    pub started_nanos: u128,
    pub duration_nanos: u128,
}

/// The timings of one chain's proposals, by outcome, each in the order they happened.
#[derive(Clone, Debug)]
pub struct OutcomeLog {
    pub committed: Vec<TimingSample>,
    pub wait_for_timeout: Vec<TimingSample>,
    pub conflict: Vec<TimingSample>,
    pub error: Vec<TimingSample>,
}

/// One transfer from the sending chain's own account to a chain's account.
#[derive(Clone, Copy, Debug, PartialEq, Eq, Structural)]
pub struct TransferOrder {
    pub recipient: ChainKey,
    pub amount: Amount,
}

/// The samples of `log` with the given outcome.
pub open spec fn samples_of(log: OutcomeLog, outcome: TransferOutcome) -> Seq<TimingSample> {
    match outcome {
        TransferOutcome::Committed => log.committed@,
        TransferOutcome::WaitForTimeout => log.wait_for_timeout@,
        TransferOutcome::Conflict => log.conflict@,
        TransferOutcome::Error => log.error@,
    }
}

/// The transfers of one block sent to the chains `dests`.
pub open spec fn orders_to(dests: Seq<ChainKey>) -> Seq<TransferOrder> {
    dests.map_values(|d: ChainKey| TransferOrder { recipient: d, amount: Amount { attos: TRANSFER_ATTOS } })
}

/// A block holds one transfer of one attotoken per destination of its window: as many
/// transfers as the block size when the round is not empty, the `k`-th going to the
/// destination `k` places after the round's position.
pub proof fn lemma_block_follows_round(round: Seq<ChainKey>, position: int, block_size: nat, k: int)
    requires
        0 <= position,
        round.len() > 0,
        0 <= k < block_size,
    ensures
        orders_to(cycle_window(round, position, block_size as int)).len() == block_size,
        orders_to(cycle_window(round, position, block_size as int))[k] == (TransferOrder {
            recipient: round[(position + k) % (round.len() as int)],
            amount: Amount { attos: 1 },
        }),
{
}

impl OutcomeLog {
    /// A log with nothing in it.
    pub fn new() -> (r: OutcomeLog)
        ensures
            forall|o: TransferOutcome| samples_of(r, o).len() == 0,
    {
        OutcomeLog {
            committed: Vec::new(),
            wait_for_timeout: Vec::new(),
            conflict: Vec::new(),
            error: Vec::new(),
        }
    }

    /// Files the timing of one proposal under its outcome.
    pub fn record(&mut self, outcome: TransferOutcome, sample: TimingSample)
        ensures
            samples_of(*final(self), outcome) == samples_of(*old(self), outcome).push(sample),
            forall|o: TransferOutcome|
                o != outcome ==> samples_of(*final(self), o) == samples_of(*old(self), o),
    {
        match outcome {
            TransferOutcome::Committed => self.committed.push(sample),
            TransferOutcome::WaitForTimeout => self.wait_for_timeout.push(sample),
            TransferOutcome::Conflict => self.conflict.push(sample),
            TransferOutcome::Error => self.error.push(sample),
        }
    }

    /// The samples with the given outcome.
    pub fn samples(&self, outcome: TransferOutcome) -> (r: &Vec<TimingSample>)
        ensures
            r@ == samples_of(*self, outcome),
    {
        match outcome {
            TransferOutcome::Committed => &self.committed,
            TransferOutcome::WaitForTimeout => &self.wait_for_timeout,
            TransferOutcome::Conflict => &self.conflict,
            TransferOutcome::Error => &self.error,
        }
    }
}

/// One sending chain: its round of destinations, its block size and its log.
pub struct TransferTask {
    destinations: Cycle<ChainKey>,
    tx_per_block: usize,
    log: OutcomeLog,
}

impl TransferTask {
    /// The round of destinations.
    pub closed spec fn round(&self) -> Seq<ChainKey> {
        self.destinations.items()
    }

    /// The position in the round of the next destination.
    pub closed spec fn position(&self) -> int {
        self.destinations.position()
    }

    /// How many transfers go in one block.
    pub closed spec fn block_size(&self) -> int {
        self.tx_per_block as int
    }

    /// What became of the blocks proposed so far.
    pub closed spec fn outcomes(&self) -> OutcomeLog {
        self.log
    }

    /// A task for the chain `own` that sends to its other chains taken in `order`.
    pub fn with_order(
        mode: TransferTargetMode,
        order: &Vec<ChainKey>,
        own: ChainKey,
        tx_per_block: usize,
    ) -> (r: TransferTask)
        requires
            2 * order@.len() <= usize::MAX,
        ensures
            r.round() == destination_pattern(mode, order@, own),
            r.position() == 0,
            r.block_size() == tx_per_block,
            forall|o: TransferOutcome| samples_of(r.outcomes(), o).len() == 0,
    {
        TransferTask {
            destinations: destination_round(mode, order, own),
            tx_per_block,
            log: OutcomeLog::new(),
        }
    }

    /// A task for the chain `own` that sends to the chains `destinations`, put in a
    /// random order first.
    pub fn new(
        mode: TransferTargetMode,
        destinations: Vec<ChainKey>,
        own: ChainKey,
        tx_per_block: usize,
    ) -> (r: TransferTask)
        requires
            2 * destinations@.len() <= usize::MAX,
        ensures
            exists|order: Seq<ChainKey>|
                #![trigger destination_pattern(mode, order, own)]
                order.to_multiset() == destinations@.to_multiset() && r.round()
                    == destination_pattern(mode, order, own),
            r.position() == 0,
            r.block_size() == tx_per_block,
            forall|o: TransferOutcome| samples_of(r.outcomes(), o).len() == 0,
    {
        TransferTask {
            destinations: shuffled_destination_round(mode, destinations, own),
            tx_per_block,
            log: OutcomeLog::new(),
        }
    }

    /// The transfers of the next block: the next `block_size` destinations of the round.
    pub fn next_block(&mut self) -> (r: Vec<TransferOrder>)
        ensures
            r@ == orders_to(
                cycle_window(old(self).round(), old(self).position(), old(self).block_size()),
            ),
            final(self).round() == old(self).round(),
            final(self).position() == cycle_advance(
                old(self).round().len() as int,
                old(self).position(),
                old(self).block_size(),
            ),
            final(self).block_size() == old(self).block_size(),
            final(self).outcomes() == old(self).outcomes(),
    {
        let dests = self.destinations.take(self.tx_per_block);
        let mut r: Vec<TransferOrder> = Vec::new();
        let mut i: usize = 0;
        while i < dests.len()
            invariant
                i <= dests@.len(),
                r@ == orders_to(dests@.take(i as int)),
            decreases dests@.len() - i,
        {
            r.push(TransferOrder { recipient: dests[i], amount: Amount::from_attos(TRANSFER_ATTOS) });
            proof {
                assert(dests@.take(i + 1) == dests@.take(i as int).push(dests@[i as int]));
                assert(orders_to(dests@.take(i + 1)) =~= orders_to(dests@.take(i as int)).push(
                    r@.last(),
                ));
            }
            i = i + 1;
        }
        proof {
            assert(dests@.take(dests@.len() as int) == dests@);
        }
        r
    }

    /// Files the timing of the last proposal under its outcome.
    pub fn record(&mut self, outcome: TransferOutcome, sample: TimingSample)
        ensures
            samples_of(final(self).outcomes(), outcome) == samples_of(old(self).outcomes(), outcome).push(
                sample,
            ),
            forall|o: TransferOutcome|
                o != outcome ==> samples_of(final(self).outcomes(), o) == samples_of(
                    old(self).outcomes(),
                    o,
                ),
            final(self).round() == old(self).round(),
            final(self).position() == old(self).position(),
            final(self).block_size() == old(self).block_size(),
    {
        self.log.record(outcome, sample);
    }

    /// The log of the finished task.
    pub fn into_outcomes(self) -> (r: OutcomeLog)
        ensures
            r == self.outcomes(),
    {
        self.log
    }
}

/// Milliseconds between two blocks for a chain that proposes `target_bps` blocks a second.
/// Above a thousand blocks a second the period would round down to zero, which no ticker takes.
pub fn tick_period_millis(target_bps: u32) -> (r: u64)
    requires
        0 < target_bps <= 1000,
    ensures
        r == 1000int / (target_bps as int),
        r > 0,
{
    proof {
        let b = target_bps as int;
        assert(1000int / b >= 1) by (nonlinear_arith)
            requires
                0 < b <= 1000,
        ;
    }
    1000u64 / (target_bps as u64)
}

/// `rand::random::<u64>()`: a random number; nothing is known of it.
#[verifier::external_body]
fn random_u64() -> u64 {
    rand::random::<u64>()
}

/// The start delay, below a second, that a paced chain derives from the random number `random`.
pub fn desync_delay_from(random: u64) -> (r: u64)
    ensures
        r == random % 1000,
{
    random % 1000
}

/// A random start delay below a second, so that paced chains do not propose in step.
pub fn desync_delay_millis() -> (r: u64)
    ensures
        r < 1000,
{
    desync_delay_from(random_u64())
}

} // verus!
