//! Turning the logs of the sending chains into result rows and per-outcome totals.

use vstd::prelude::*;
use crate::chain::ChainKey;
use crate::task::{OutcomeLog, TimingSample, TransferOutcome, samples_of};

verus! {

/// The longest duration there is, in nanoseconds: `u64::MAX` seconds and 999999999 nanoseconds.
pub const MAX_DURATION_NANOS: u128 = 18_446_744_073_709_551_615_999_999_999u128;

/// One result row: a proposal of one chain.
#[derive(Clone, Copy, Debug, PartialEq, Eq, Structural)]
pub struct TransferRow {
    pub chain: ChainKey,
    pub phase: u32,
    /// When the proposal started, counted from the start of the experiment.
    pub since_start_nanos: u128,
    pub outcome: TransferOutcome,
    /// How long the proposal took, in whole microseconds.
    pub duration_micros: u128,
}

/// Count and summed duration of the proposals with one outcome.
#[derive(Clone, Copy, Debug, PartialEq, Eq, Structural)]
pub struct OutcomeTotal {
    pub count: usize,
    pub nanos: u128,
}

/// Counts and summed durations, by outcome, over all chains of an experiment.
#[derive(Clone, Copy, Debug, PartialEq, Eq, Structural)]
pub struct TimingTotals {
    pub committed: OutcomeTotal,
    pub wait_for_timeout: OutcomeTotal,
    pub conflict: OutcomeTotal,
    pub error: OutcomeTotal,
}

/// The count and summed duration would not fit.
#[derive(Clone, Copy, Debug, PartialEq, Eq, Structural)]
pub struct TimingOverflow;

/// The phase a chain runs in: the first `num_phase1` chains of the list in the first, the others in the second.
pub fn phase_of(index: usize, num_phase1: usize) -> (r: u32)
    ensures
        r == if index >= num_phase1 { 2u32 } else { 1u32 },
{
    if index >= num_phase1 { 2 } else { 1 }
}

/// The word that result rows use for an outcome.
pub fn outcome_label(outcome: TransferOutcome) -> (r: &'static str)
    ensures
        r@ == match outcome {
            TransferOutcome::Committed => "committed"@,
            TransferOutcome::WaitForTimeout => "wait_for_timeout"@,
            TransferOutcome::Conflict => "conflict"@,
            TransferOutcome::Error => "error"@,
        },
{
    match outcome {
        TransferOutcome::Committed => "committed",
        TransferOutcome::WaitForTimeout => "wait_for_timeout",
        TransferOutcome::Conflict => "conflict",
        TransferOutcome::Error => "error",
    }
}

/// The row for the sample `s` of the chain `chain`, in an experiment that started at `start`.
pub open spec fn row_of(
    chain: ChainKey,
    phase: u32,
    start: u128,
    outcome: TransferOutcome,
    s: TimingSample,
) -> TransferRow {
    TransferRow {
        chain,
        phase,
        since_start_nanos: if s.started_nanos >= start { (s.started_nanos - start) as u128 } else { 0 },
        outcome,
        duration_micros: s.duration_nanos / 1000,
    }
}

/// The rows for the samples of one outcome, in their order.
pub open spec fn outcome_rows(
    chain: ChainKey,
    phase: u32,
    start: u128,
    log: OutcomeLog,
    outcome: TransferOutcome,
) -> Seq<TransferRow> {
    samples_of(log, outcome).map_values(|s: TimingSample| row_of(chain, phase, start, outcome, s))
}

/// All rows of one chain: committed first, then waits for timeout, conflicts and errors.
pub open spec fn chain_rows_of(chain: ChainKey, phase: u32, start: u128, log: OutcomeLog) -> Seq<
    TransferRow,
> {
    outcome_rows(chain, phase, start, log, TransferOutcome::Committed) + outcome_rows(
        chain,
        phase,
        start,
        log,
        TransferOutcome::WaitForTimeout,
    ) + outcome_rows(chain, phase, start, log, TransferOutcome::Conflict) + outcome_rows(
        chain,
        phase,
        start,
        log,
        TransferOutcome::Error,
    )
}

fn push_outcome_rows(
    rows: &mut Vec<TransferRow>,
    chain: ChainKey,
    phase: u32,
    start: u128,
    log: &OutcomeLog,
    outcome: TransferOutcome,
)
    ensures
        final(rows)@ == old(rows)@ + outcome_rows(chain, phase, start, *log, outcome),
{
    let samples = log.samples(outcome);
    let ghost base = rows@;
    let mut i: usize = 0;
    while i < samples.len()
        invariant
            i <= samples@.len(),
            samples@ == samples_of(*log, outcome),
            rows@ == base + outcome_rows(chain, phase, start, *log, outcome).take(i as int),
        decreases samples@.len() - i,
    {
        let s = samples[i];
        let since = if s.started_nanos >= start { s.started_nanos - start } else { 0 };
        rows.push(
            TransferRow {
                chain,
                phase,
                since_start_nanos: since,
                outcome,
                duration_micros: s.duration_nanos / 1000,
            },
        );
        proof {
            let all = outcome_rows(chain, phase, start, *log, outcome);
            assert(all.take(i + 1) == all.take(i as int).push(all[i as int]));
        }
        i = i + 1;
    }
    proof {
        let all = outcome_rows(chain, phase, start, *log, outcome);
        assert(all.take(samples@.len() as int) == all);
    }
}

/// The result rows of one chain, in an experiment that started at `start`.
pub fn chain_rows(chain: ChainKey, phase: u32, start: u128, log: &OutcomeLog) -> (r: Vec<
    TransferRow,
>)
    ensures
        r@ == chain_rows_of(chain, phase, start, *log),
{
    let mut rows: Vec<TransferRow> = Vec::new();
    push_outcome_rows(&mut rows, chain, phase, start, log, TransferOutcome::Committed);
    push_outcome_rows(&mut rows, chain, phase, start, log, TransferOutcome::WaitForTimeout);
    push_outcome_rows(&mut rows, chain, phase, start, log, TransferOutcome::Conflict);
    push_outcome_rows(&mut rows, chain, phase, start, log, TransferOutcome::Error);
    proof {
        assert(rows@ =~= chain_rows_of(chain, phase, start, *log));
    }
    rows
}

/// A chain has one result row for each proposal it made.
pub proof fn lemma_one_row_per_proposal(chain: ChainKey, phase: u32, start: u128, log: OutcomeLog)
    ensures
        chain_rows_of(chain, phase, start, log).len() == samples_of(log, TransferOutcome::Committed).len()
            + samples_of(log, TransferOutcome::WaitForTimeout).len() + samples_of(
            log,
            TransferOutcome::Conflict,
        ).len() + samples_of(log, TransferOutcome::Error).len(),
{
}

/// Each proposal gives the row at its place: the committed proposals first, then those
/// that waited for a timeout, then the conflicts, then the errors, each list in its
/// order.  The row carries the outcome under which its sample was filed, the chain, the
/// phase, the start counted from the experiment start (zero for an earlier start) and
/// the duration in whole microseconds.
pub proof fn lemma_rows_follow_samples(
    chain: ChainKey,
    phase: u32,
    start: u128,
    log: OutcomeLog,
    outcome: TransferOutcome,
    j: int,
)
    requires
        0 <= j < samples_of(log, outcome).len(),
    ensures
        ({
            let c = log.committed@.len() as int;
            let w = log.wait_for_timeout@.len() as int;
            let f = log.conflict@.len() as int;
            let offset = match outcome {
                TransferOutcome::Committed => 0,
                TransferOutcome::WaitForTimeout => c,
                TransferOutcome::Conflict => c + w,
                TransferOutcome::Error => c + w + f,
            };
            let row = chain_rows_of(chain, phase, start, log)[offset + j];
            let sample = samples_of(log, outcome)[j];
            &&& offset + j < chain_rows_of(chain, phase, start, log).len()
            &&& row.outcome == outcome
            &&& row.chain == chain
            &&& row.phase == phase
            &&& row.duration_micros == sample.duration_nanos / 1000
            &&& sample.started_nanos >= start ==> row.since_start_nanos + start
                == sample.started_nanos
            &&& sample.started_nanos < start ==> row.since_start_nanos == 0
        }),
{
    let c = outcome_rows(chain, phase, start, log, TransferOutcome::Committed);
    let w = outcome_rows(chain, phase, start, log, TransferOutcome::WaitForTimeout);
    let f = outcome_rows(chain, phase, start, log, TransferOutcome::Conflict);
    let e = outcome_rows(chain, phase, start, log, TransferOutcome::Error);
    assert(chain_rows_of(chain, phase, start, log) == c + w + f + e);
    match outcome {
        TransferOutcome::Committed => {
            assert((c + w + f + e)[j] == c[j]);
        },
        TransferOutcome::WaitForTimeout => {
            assert((c + w + f + e)[c.len() + j] == w[j]);
        },
        TransferOutcome::Conflict => {
            assert((c + w + f + e)[c.len() + w.len() + j] == f[j]);
        },
        TransferOutcome::Error => {
            assert((c + w + f + e)[c.len() + w.len() + f.len() + j] == e[j]);
        },
    }
}

/// The durations of `s` added up, in nanoseconds.
pub open spec fn total_nanos(s: Seq<TimingSample>) -> int
    decreases s.len(),
{
    if s.len() == 0 { 0 } else { total_nanos(s.drop_last()) + s.last().duration_nanos }
}

/// The total for one outcome.
pub open spec fn total_of(t: TimingTotals, outcome: TransferOutcome) -> OutcomeTotal {
    match outcome {
        TransferOutcome::Committed => t.committed,
        TransferOutcome::WaitForTimeout => t.wait_for_timeout,
        TransferOutcome::Conflict => t.conflict,
        TransferOutcome::Error => t.error,
    }
}

/// Whether `samples` can be added to `total`: the count fits a `usize` and the summed
/// duration fits a duration.
pub open spec fn fits(total: OutcomeTotal, samples: Seq<TimingSample>) -> bool {
    total.count + samples.len() <= usize::MAX && total.nanos + total_nanos(samples)
        <= MAX_DURATION_NANOS
}

proof fn lemma_total_nanos_monotone(s: Seq<TimingSample>, i: int, j: int)
    requires
        0 <= i <= j <= s.len(),
    ensures
        total_nanos(s.take(i)) <= total_nanos(s.take(j)),
    decreases j - i,
{
    if i < j {
        lemma_total_nanos_monotone(s, i, j - 1);
        assert(s.take(j).drop_last() == s.take(j - 1));
    }
}

fn add_samples(total: OutcomeTotal, samples: &Vec<TimingSample>) -> (r: Option<OutcomeTotal>)
    requires
        total.nanos <= MAX_DURATION_NANOS,
    ensures
        fits(total, samples@) ==> r == Some(
            OutcomeTotal {
                count: (total.count + samples@.len()) as usize,
                nanos: (total.nanos + total_nanos(samples@)) as u128,
            },
        ),
        !fits(total, samples@) ==> r is None,
        r matches Some(t) ==> t.nanos <= MAX_DURATION_NANOS,
{
    if samples.len() > usize::MAX - total.count {
        return None;
    }
    let count = total.count + samples.len();
    let mut nanos = total.nanos;
    let mut i: usize = 0;
    while i < samples.len()
        invariant
            i <= samples@.len(),
            nanos == total.nanos + total_nanos(samples@.take(i as int)),
            nanos <= MAX_DURATION_NANOS,
        decreases samples@.len() - i,
    {
        proof {
            assert(samples@.take(i + 1).drop_last() == samples@.take(i as int));
        }
        let d = samples[i].duration_nanos;
        if d > MAX_DURATION_NANOS - nanos {
            proof {
                lemma_total_nanos_monotone(samples@, i + 1, samples@.len() as int);
                assert(samples@.take(samples@.len() as int) == samples@);
            }
            return None;
        }
        nanos = nanos + d;
        i = i + 1;
    }
    proof {
        assert(samples@.take(samples@.len() as int) == samples@);
    }
    Some(OutcomeTotal { count, nanos })
}

impl TimingTotals {
    /// Nothing counted yet.
    pub fn new() -> (r: TimingTotals)
        ensures
            forall|o: TransferOutcome| total_of(r, o) == (OutcomeTotal { count: 0, nanos: 0 }),
    {
        let zero = OutcomeTotal { count: 0, nanos: 0 };
        TimingTotals { committed: zero, wait_for_timeout: zero, conflict: zero, error: zero }
    }

    /// Whether every summed duration is a duration.
    pub open spec fn valid(&self) -> bool {
        &&& self.committed.nanos <= MAX_DURATION_NANOS
        &&& self.wait_for_timeout.nanos <= MAX_DURATION_NANOS
        &&& self.conflict.nanos <= MAX_DURATION_NANOS
        &&& self.error.nanos <= MAX_DURATION_NANOS
    }

    /// Adds the proposals of one chain.  Fails, and leaves the totals as they were, where a
    /// count or a summed duration would not fit.
    pub fn absorb(&mut self, log: &OutcomeLog) -> (r: Result<(), TimingOverflow>)
        requires
            old(self).valid(),
        ensures
            (forall|o: TransferOutcome| fits(total_of(*old(self), o), samples_of(*log, o))) ==> {
                &&& r is Ok
                &&& forall|o: TransferOutcome|
                    total_of(*final(self), o) == (OutcomeTotal {
                        count: (total_of(*old(self), o).count + samples_of(*log, o).len()) as usize,
                        nanos: (total_of(*old(self), o).nanos + total_nanos(samples_of(*log, o))) as u128,
                    })
            },
            !(forall|o: TransferOutcome| fits(total_of(*old(self), o), samples_of(*log, o))) ==> r
                is Err && *final(self) == *old(self),
            final(self).valid(),
    {
        let c = add_samples(self.committed, &log.committed);
        let w = add_samples(self.wait_for_timeout, &log.wait_for_timeout);
        let f = add_samples(self.conflict, &log.conflict);
        let e = add_samples(self.error, &log.error);
        match (c, w, f, e) {
            (Some(c), Some(w), Some(f), Some(e)) => {
                self.committed = c;
                self.wait_for_timeout = w;
                self.conflict = f;
                self.error = e;
                proof {
                    assert forall|o: TransferOutcome|
                        total_of(*self, o) == (OutcomeTotal {
                            count: (total_of(*old(self), o).count + samples_of(*log, o).len()) as usize,
                            nanos: (total_of(*old(self), o).nanos + total_nanos(
                                samples_of(*log, o),
                            )) as u128,
                        }) by {
                        match o {
                            TransferOutcome::Committed => {},
                            TransferOutcome::WaitForTimeout => {},
                            TransferOutcome::Conflict => {},
                            TransferOutcome::Error => {},
                        }
                    }
                }
                Ok(())
            },
            _ => {
                proof {
                    if c is None {
                        assert(!fits(
                            total_of(*old(self), TransferOutcome::Committed),
                            samples_of(*log, TransferOutcome::Committed),
                        ));
                    } else if w is None {
                        assert(!fits(
                            total_of(*old(self), TransferOutcome::WaitForTimeout),
                            samples_of(*log, TransferOutcome::WaitForTimeout),
                        ));
                    } else if f is None {
                        assert(!fits(
                            total_of(*old(self), TransferOutcome::Conflict),
                            samples_of(*log, TransferOutcome::Conflict),
                        ));
                    } else {
                        assert(!fits(
                            total_of(*old(self), TransferOutcome::Error),
                            samples_of(*log, TransferOutcome::Error),
                        ));
                    }
                }
                Err(TimingOverflow)
            },
        }
    }

    /// The summed duration of the proposals with the given outcome, in whole microseconds.
    pub fn total_micros(&self, outcome: TransferOutcome) -> (r: u128)
        ensures
            r == total_of(*self, outcome).nanos / 1000,
    {
        match outcome {
            TransferOutcome::Committed => self.committed.nanos / 1000,
            TransferOutcome::WaitForTimeout => self.wait_for_timeout.nanos / 1000,
            TransferOutcome::Conflict => self.conflict.nanos / 1000,
            TransferOutcome::Error => self.error.nanos / 1000,
        }
    }

    /// The number of proposals with the given outcome.
    pub fn count(&self, outcome: TransferOutcome) -> (r: usize)
        ensures
            r == total_of(*self, outcome).count,
    {
        match outcome {
            TransferOutcome::Committed => self.committed.count,
            TransferOutcome::WaitForTimeout => self.wait_for_timeout.count,
            TransferOutcome::Conflict => self.conflict.count,
            TransferOutcome::Error => self.error.count,
        }
    }
}

} // verus!
