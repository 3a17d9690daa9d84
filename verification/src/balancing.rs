//! Bringing a set of chain accounts to one common balance by transfers between them.
//!
//! Chains holding more than the target give their surplus, in list order, to the
//! chains holding less, also in list order: each donor fills the earliest recipient
//! whose deficit is still open before moving on to the next.  Seen on a line, the
//! surpluses and the deficits are two runs of consecutive intervals of the same
//! total length, and each transfer is the overlap of one donor's interval with one
//! recipient's interval.

use vstd::prelude::*;
use crate::amount::Amount;
use crate::chain::{ChainKey, all_distinct, check_all_distinct};

verus! {

/// One transfer of a balancing plan.
#[derive(Clone, Copy, Debug, PartialEq, Eq, Structural)]
pub struct BalancingTransfer {
    /// Position of the paying chain in the balance list.
    pub source_index: usize,
    pub source: ChainKey,
    /// Position of the receiving chain in the balance list.
    pub destination_index: usize,
    pub destination: ChainKey,
    pub amount: Amount,
}

/// Why the accounts cannot be balanced, or were not.
#[derive(Clone, Copy, Debug, PartialEq, Eq, Structural)]
pub enum BalanceError {
    /// The chain list names some chain twice.
    DuplicateChainIds,
    /// The balances add up to more than an amount can hold.
    TotalOverflow,
    /// The target times the number of chains is more than an amount can hold.
    RequiredOverflow,
    /// Nothing is minted or burnt, so the balances must already add up to the target for each chain.
    TotalMismatch { chain_count: usize, target: Amount, total: Amount, required: Amount },
    /// A donor still had tokens to give but no recipient was left.
    RanOutOfRecipients,
    /// Some recipient was still short once every donor had given its surplus.
    DeficitsRemain,
    /// After the transfers a chain does not hold the target.
    FinalBalanceMismatch { chain: ChainKey, balance: Amount, target: Amount },
}

/// The balance of the chain at position `k`, in attotokens.
pub open spec fn balance_of(bs: Seq<(ChainKey, Amount)>, k: int) -> int {
    bs[k].1.attos as int
}

/// The sum of the first `k` balances.
pub open spec fn total_balance(bs: Seq<(ChainKey, Amount)>, k: int) -> int
    decreases k,
{
    if k <= 0 { 0 } else { total_balance(bs, k - 1) + balance_of(bs, k - 1) }
}

/// What the chain at position `k` holds above the target `t`.
pub open spec fn surplus_of(bs: Seq<(ChainKey, Amount)>, t: int, k: int) -> int {
    if balance_of(bs, k) > t { balance_of(bs, k) - t } else { 0 }
}

/// What the chain at position `k` lacks to reach the target `t`.
pub open spec fn deficit_of(bs: Seq<(ChainKey, Amount)>, t: int, k: int) -> int {
    if balance_of(bs, k) < t { t - balance_of(bs, k) } else { 0 }
}

/// The surpluses of the first `k` chains added up: where the interval of chain `k` starts.
pub open spec fn surplus_before(bs: Seq<(ChainKey, Amount)>, t: int, k: int) -> int
    decreases k,
{
    if k <= 0 { 0 } else { surplus_before(bs, t, k - 1) + surplus_of(bs, t, k - 1) }
}

/// The deficits of the first `k` chains added up.
pub open spec fn deficit_before(bs: Seq<(ChainKey, Amount)>, t: int, k: int) -> int
    decreases k,
{
    if k <= 0 { 0 } else { deficit_before(bs, t, k - 1) + deficit_of(bs, t, k - 1) }
}

/// The length of the overlap of the surplus interval of chain `s` with the deficit interval of chain `d`.
pub open spec fn overlap(bs: Seq<(ChainKey, Amount)>, t: int, s: int, d: int) -> int {
    let lo = if surplus_before(bs, t, s) >= deficit_before(bs, t, d) {
        surplus_before(bs, t, s)
    } else {
        deficit_before(bs, t, d)
    };
    let hi = if surplus_before(bs, t, s + 1) <= deficit_before(bs, t, d + 1) {
        surplus_before(bs, t, s + 1)
    } else {
        deficit_before(bs, t, d + 1)
    };
    if hi > lo { hi - lo } else { 0 }
}

/// What the chain at position `k` pays in the transfers `ts`.
pub open spec fn outflow(ts: Seq<BalancingTransfer>, k: int) -> int
    decreases ts.len(),
{
    if ts.len() == 0 {
        0
    } else {
        outflow(ts.drop_last(), k) + if ts.last().source_index == k {
            ts.last().amount.attos as int
        } else {
            0
        }
    }
}

/// What the chain at position `k` receives in the transfers `ts`.
pub open spec fn inflow(ts: Seq<BalancingTransfer>, k: int) -> int
    decreases ts.len(),
{
    if ts.len() == 0 {
        0
    } else {
        inflow(ts.drop_last(), k) + if ts.last().destination_index == k {
            ts.last().amount.attos as int
        } else {
            0
        }
    }
}

/// `a` comes before `b` when ordered by payer position, then by receiver position.
pub open spec fn pair_before(a: BalancingTransfer, b: BalancingTransfer) -> bool {
    a.source_index < b.source_index || (a.source_index == b.source_index
        && a.destination_index < b.destination_index)
}

/// The shape of one transfer of a plan for the balances `bs` and target `t`.
pub open spec fn plan_step(bs: Seq<(ChainKey, Amount)>, t: int, tr: BalancingTransfer) -> bool {
    let s = tr.source_index as int;
    let d = tr.destination_index as int;
    &&& s < bs.len()
    &&& d < bs.len()
    &&& tr.source == bs[s].0
    &&& tr.destination == bs[d].0
    &&& balance_of(bs, s) > t
    &&& balance_of(bs, d) < t
    &&& tr.amount.attos > 0
    &&& tr.amount.attos == overlap(bs, t, s, d)
}

/// `ts` is the balancing plan for the balances `bs` and target `t`: each transfer pays a
/// surplus chain's interval overlap to a deficit chain, the transfers come in order of
/// (payer, receiver), and once they are all made every chain holds exactly `t`.
pub open spec fn is_balancing_plan(
    bs: Seq<(ChainKey, Amount)>,
    t: int,
    ts: Seq<BalancingTransfer>,
) -> bool {
    &&& forall|i: int| 0 <= i < ts.len() ==> plan_step(bs, t, #[trigger] ts[i])
    &&& forall|i: int, j: int| 0 <= i < j < ts.len() ==> pair_before(ts[i], ts[j])
    &&& forall|k: int|
        0 <= k < bs.len() ==> balance_of(bs, k) - outflow(ts, k) + inflow(ts, k) == t
}

/// The identifiers of the balance list, in order.
pub open spec fn chain_keys(bs: Seq<(ChainKey, Amount)>) -> Seq<ChainKey> {
    bs.map_values(|p: (ChainKey, Amount)| p.0)
}

proof fn lemma_surplus_minus_deficit(bs: Seq<(ChainKey, Amount)>, t: int, k: int)
    requires
        0 <= k <= bs.len(),
    ensures
        surplus_before(bs, t, k) - deficit_before(bs, t, k) == total_balance(bs, k) - k * t,
    decreases k,
{
    if k > 0 {
        lemma_surplus_minus_deficit(bs, t, k - 1);
        assert(k * t == (k - 1) * t + t) by (nonlinear_arith);
    } else {
        assert(k * t == 0) by (nonlinear_arith)
            requires
                k == 0,
        ;
    }
}

proof fn lemma_surplus_monotone(bs: Seq<(ChainKey, Amount)>, t: int, a: int, b: int)
    requires
        0 <= a <= b,
    ensures
        surplus_before(bs, t, a) <= surplus_before(bs, t, b),
    decreases b - a,
{
    if a < b {
        lemma_surplus_monotone(bs, t, a, b - 1);
    }
}

proof fn lemma_deficit_monotone(bs: Seq<(ChainKey, Amount)>, t: int, a: int, b: int)
    requires
        0 <= a <= b,
    ensures
        deficit_before(bs, t, a) <= deficit_before(bs, t, b),
    decreases b - a,
{
    if a < b {
        lemma_deficit_monotone(bs, t, a, b - 1);
    }
}

proof fn lemma_total_monotone(bs: Seq<(ChainKey, Amount)>, a: int, b: int)
    requires
        0 <= a <= b,
    ensures
        total_balance(bs, a) <= total_balance(bs, b),
    decreases b - a,
{
    if a < b {
        lemma_total_monotone(bs, a, b - 1);
    }
}


proof fn lemma_deficit_flat(bs: Seq<(ChainKey, Amount)>, t: int, a: int, b: int)
    requires
        0 <= a <= b,
        forall|m: int| a <= m < b ==> deficit_of(bs, t, m) == 0,
    ensures
        deficit_before(bs, t, a) == deficit_before(bs, t, b),
    decreases b - a,
{
    if a < b {
        lemma_deficit_flat(bs, t, a, b - 1);
    }
}

proof fn lemma_flows_push(ts: Seq<BalancingTransfer>, tr: BalancingTransfer)
    ensures
        forall|m: int|
            outflow(ts.push(tr), m) == outflow(ts, m) + if tr.source_index == m {
                tr.amount.attos as int
            } else {
                0
            },
        forall|m: int|
            inflow(ts.push(tr), m) == inflow(ts, m) + if tr.destination_index == m {
                tr.amount.attos as int
            } else {
                0
            },
{
    assert(ts.push(tr).drop_last() == ts);
}

/// Where the recipient cursor stands: recipients before `ri` are served, those after it
/// untouched, and `x` is how far along the line the transfers so far have reached.
spec fn cursor_ok(bs: Seq<(ChainKey, Amount)>, t: int, deficits: Seq<u128>, ri: int, x: int) -> bool {
    let n = bs.len() as int;
    &&& deficits.len() == n
    &&& 0 <= ri <= n
    &&& forall|m: int| 0 <= m < ri ==> deficits[m] == 0
    &&& forall|m: int| ri < m < n ==> deficits[m] == deficit_of(bs, t, m)
    &&& ri < n ==> deficits[ri] <= deficit_of(bs, t, ri) && x == deficit_before(bs, t, ri)
        + deficit_of(bs, t, ri) - deficits[ri]
    &&& ri == n ==> x == deficit_before(bs, t, n)
}

/// The first position at or after `from` whose deficit is still open.
fn next_open(deficits: &Vec<u128>, from: usize) -> (r: usize)
    requires
        from <= deficits.len(),
    ensures
        from <= r <= deficits.len(),
        forall|m: int| from <= m < r ==> deficits@[m] == 0,
        r < deficits.len() ==> deficits@[r as int] != 0,
{
    let mut r = from;
    while r < deficits.len() && deficits[r] == 0
        invariant
            from <= r <= deficits.len(),
            forall|m: int| from <= m < r ==> deficits@[m] == 0,
        decreases deficits.len() - r,
    {
        r = r + 1;
    }
    r
}

proof fn lemma_skip(
    bs: Seq<(ChainKey, Amount)>,
    t: int,
    deficits: Seq<u128>,
    r0: int,
    r1: int,
    x: int,
)
    requires
        cursor_ok(bs, t, deficits, r0, x),
        r0 <= r1 <= bs.len(),
        forall|m: int| r0 <= m < r1 ==> deficits[m] == 0,
        r1 < bs.len() ==> deficits[r1] != 0,
    ensures
        cursor_ok(bs, t, deficits, r1, x),
        r0 < r1 && r1 < bs.len() ==> deficits[r1] == deficit_of(bs, t, r1),
{
    if r0 < r1 {
        assert forall|m: int| r0 + 1 <= m < r1 implies deficit_of(bs, t, m) == 0 by {
            assert(deficits[m] == deficit_of(bs, t, m));
        }
        lemma_deficit_flat(bs, t, r0 + 1, r1);
    }
}

/// The transfers that bring every chain of `balances` to `target`.
///
/// The chain list must name each chain once, the balances must add up without
/// overflow, and they must add up to exactly `target` times the number of chains;
/// the error says which of these fails first.  Otherwise the plan pays each surplus,
/// in list order, to the deficits, in list order (see `is_balancing_plan`).
pub fn plan_balancing(balances: &Vec<(ChainKey, Amount)>, target: Amount) -> (r: Result<
    Vec<BalancingTransfer>,
    BalanceError,
>)
    ensures
        ({
            let bs = balances@;
            let n = bs.len() as int;
            let t = target.attos as int;
            match r {
                Err(BalanceError::DuplicateChainIds) => !all_distinct(chain_keys(bs)),
                Err(BalanceError::TotalOverflow) => all_distinct(chain_keys(bs)) && total_balance(
                    bs,
                    n,
                ) > u128::MAX,
                Err(BalanceError::RequiredOverflow) => all_distinct(chain_keys(bs))
                    && total_balance(bs, n) <= u128::MAX && t * n > u128::MAX,
                Err(BalanceError::TotalMismatch { chain_count, target: tg, total, required }) => {
                    &&& all_distinct(chain_keys(bs))
                    &&& total_balance(bs, n) <= u128::MAX
                    &&& t * n <= u128::MAX
                    &&& total_balance(bs, n) != t * n
                    &&& chain_count == n
                    &&& tg == target
                    &&& total.attos == total_balance(bs, n)
                    &&& required.attos == t * n
                },
                Err(_) => false,
                Ok(ts) => {
                    &&& all_distinct(chain_keys(bs))
                    &&& total_balance(bs, n) <= u128::MAX
                    &&& total_balance(bs, n) == t * n
                    &&& is_balancing_plan(bs, t, ts@)
                },
            }
        }),
{
    let ghost bs = balances@;
    let n = balances.len();
    let ghost ti = target.attos as int;
    let t = target.attos;

    // Each chain at most once.
    let mut keys: Vec<ChainKey> = Vec::new();
    let mut i: usize = 0;
    while i < n
        invariant
            n == bs.len(),
            bs == balances@,
            i <= n,
            keys@.len() == i,
            forall|j: int| 0 <= j < i ==> keys@[j] == bs[j].0,
        decreases n - i,
    {
        keys.push(balances[i].0);
        i = i + 1;
    }
    proof {
        assert(keys@ == chain_keys(bs));
    }
    if !check_all_distinct(&keys) {
        return Err(BalanceError::DuplicateChainIds);
    }

    // The total held by all chains.
    let mut total = Amount::zero();
    let mut i: usize = 0;
    while i < n
        invariant
            n == bs.len(),
            bs == balances@,
            i <= n,
            all_distinct(chain_keys(bs)),
            total.attos == total_balance(bs, i as int),
        decreases n - i,
    {
        match total.try_add_assign(balances[i].1) {
            Ok(()) => {},
            Err(_) => {
                proof {
                    assert(balances@[i as int].1.attos == balance_of(bs, i as int));
                    lemma_total_monotone(bs, i + 1, n as int);
                }
                return Err(BalanceError::TotalOverflow);
            },
        }
        i = i + 1;
    }

    let required = match target.try_mul(n as u128) {
        Ok(a) => a,
        Err(_) => {
            return Err(BalanceError::RequiredOverflow);
        },
    };
    if total.attos != required.attos {
        return Err(
            BalanceError::TotalMismatch { chain_count: n, target, total, required },
        );
    }
    proof {
        lemma_surplus_minus_deficit(bs, ti, n as int);
    }

    // What each chain still lacks.
    let mut deficits: Vec<u128> = Vec::new();
    let mut i: usize = 0;
    while i < n
        invariant
            n == bs.len(),
            bs == balances@,
            t == ti,
            i <= n,
            deficits@.len() == i,
            forall|m: int| 0 <= m < i ==> deficits@[m] == deficit_of(bs, ti, m),
        decreases n - i,
    {
        let b = balances[i].1.attos;
        if b < t {
            deficits.push(t - b);
        } else {
            deficits.push(0);
        }
        i = i + 1;
    }

    let mut transfers: Vec<BalancingTransfer> = Vec::new();
    let mut ri: usize = 0;
    let ghost mut x: int = 0;
    let mut k: usize = 0;
    while k < n
        invariant
            n == bs.len(),
            bs == balances@,
            t == ti,
            ti >= 0,
            surplus_before(bs, ti, n as int) == deficit_before(bs, ti, n as int),
            k <= n,
            x == surplus_before(bs, ti, k as int),
            cursor_ok(bs, ti, deficits@, ri as int, x),
            forall|i: int|
                0 <= i < transfers@.len() ==> plan_step(bs, ti, #[trigger] transfers@[i])
                    && transfers@[i].source_index < k,
            forall|i: int, j: int|
                0 <= i < j < transfers@.len() ==> pair_before(transfers@[i], transfers@[j]),
            forall|m: int|
                0 <= m < n ==> outflow(transfers@, m) == if m < k {
                    surplus_of(bs, ti, m)
                } else {
                    0
                },
            forall|m: int|
                0 <= m < n ==> inflow(transfers@, m) == deficit_of(bs, ti, m) - deficits@[m],
        decreases n - k,
    {
        let b = balances[k].1.attos;
        if b > t {
            let mut surplus: u128 = b - t;
            while surplus > 0
                invariant
                    n == bs.len(),
                    bs == balances@,
                    t == ti,
                    ti >= 0,
                    b == balance_of(bs, k as int),
                    b > t,
                    surplus_before(bs, ti, n as int) == deficit_before(bs, ti, n as int),
                    k < n,
                    surplus <= b - t,
                    x == surplus_before(bs, ti, k as int) + (b - t - surplus),
                    cursor_ok(bs, ti, deficits@, ri as int, x),
                    surplus == b - t || surplus == 0 || (ri < n && deficits@[ri as int] == 0),
                    surplus == b - t ==> forall|i: int|
                        0 <= i < transfers@.len() ==> transfers@[i].source_index < k,
                    transfers@.len() > 0 && surplus > 0 ==> ({
                        let last = transfers@.last();
                        last.source_index < k || (last.source_index == k && (last.destination_index
                            < ri || (last.destination_index == ri && ri < n && deficits@[ri as int]
                            == 0)))
                    }),
                    forall|i: int|
                        0 <= i < transfers@.len() ==> plan_step(bs, ti, #[trigger] transfers@[i])
                            && transfers@[i].source_index <= k,
                    forall|i: int, j: int|
                        0 <= i < j < transfers@.len() ==> pair_before(
                            transfers@[i],
                            transfers@[j],
                        ),
                    forall|m: int|
                        0 <= m < n ==> outflow(transfers@, m) == if m < k {
                            surplus_of(bs, ti, m)
                        } else if m == k {
                            b - t - surplus
                        } else {
                            0
                        },
                    forall|m: int|
                        0 <= m < n ==> inflow(transfers@, m) == deficit_of(bs, ti, m)
                            - deficits@[m],
                decreases surplus,
            {
                let ghost r0 = ri as int;
                ri = next_open(&deficits, ri);
                proof {
                    lemma_skip(bs, ti, deficits@, r0, ri as int, x);
                }
                if ri >= n {
                    proof {
                        lemma_surplus_monotone(bs, ti, k + 1, n as int);
                    }
                    return Err(BalanceError::RanOutOfRecipients);
                }
                let deficit = deficits[ri];
                let amount = if surplus <= deficit { surplus } else { deficit };
                let tr = BalancingTransfer {
                    source_index: k,
                    source: balances[k].0,
                    destination_index: ri,
                    destination: balances[ri].0,
                    amount: Amount::from_attos(amount),
                };
                proof {
                    assert(overlap(bs, ti, k as int, ri as int) == amount);
                    assert(plan_step(bs, ti, tr));
                    lemma_flows_push(transfers@, tr);
                    if transfers@.len() > 0 {
                        assert(pair_before(transfers@.last(), tr));
                        assert forall|i: int| 0 <= i < transfers@.len() implies pair_before(
                            transfers@[i],
                            tr,
                        ) by {
                            if i < transfers@.len() - 1 {
                                assert(pair_before(transfers@[i], transfers@.last()));
                            }
                        }
                    }
                }
                transfers.push(tr);
                surplus = surplus - amount;
                deficits.set(ri, deficit - amount);
                proof {
                    x = x + amount;
                }
            }
        }
        k = k + 1;
    }

    let ghost r0 = ri as int;
    ri = next_open(&deficits, ri);
    proof {
        lemma_skip(bs, ti, deficits@, r0, ri as int, x);
    }
    if ri < n {
        proof {
            lemma_deficit_monotone(bs, ti, ri + 1, n as int);
        }
        return Err(BalanceError::DeficitsRemain);
    }
    Ok(transfers)
}

proof fn lemma_flows_prefix(ts: Seq<BalancingTransfer>, p: int, k: int)
    requires
        0 <= p <= ts.len(),
    ensures
        outflow(ts.take(p), k) <= outflow(ts, k),
        inflow(ts.take(p), k) <= inflow(ts, k),
    decreases ts.len(),
{
    if p < ts.len() {
        lemma_flows_prefix(ts.drop_last(), p, k);
        assert(ts.drop_last().take(p) == ts.take(p));
    } else {
        assert(ts.take(p) == ts);
    }
}

proof fn lemma_no_inflow(ts: Seq<BalancingTransfer>, k: int)
    requires
        forall|i: int| 0 <= i < ts.len() ==> ts[i].destination_index != k,
    ensures
        inflow(ts, k) == 0,
    decreases ts.len(),
{
    if ts.len() > 0 {
        lemma_no_inflow(ts.drop_last(), k);
    }
}

proof fn lemma_no_outflow(ts: Seq<BalancingTransfer>, k: int)
    requires
        forall|i: int| 0 <= i < ts.len() ==> ts[i].source_index != k,
    ensures
        outflow(ts, k) == 0,
    decreases ts.len(),
{
    if ts.len() > 0 {
        lemma_no_outflow(ts.drop_last(), k);
    }
}

/// While the transfers of a balancing plan are made one after the other, a chain that
/// started at or above the target never drops below it, and a chain that started at or
/// below the target never rises above it.
pub proof fn lemma_plan_never_overshoots(
    bs: Seq<(ChainKey, Amount)>,
    t: int,
    ts: Seq<BalancingTransfer>,
    p: int,
    k: int,
)
    requires
        is_balancing_plan(bs, t, ts),
        0 <= p <= ts.len(),
        0 <= k < bs.len(),
    ensures
        balance_of(bs, k) >= t ==> balance_of(bs, k) - outflow(ts.take(p), k) + inflow(
            ts.take(p),
            k,
        ) >= t,
        balance_of(bs, k) <= t ==> balance_of(bs, k) - outflow(ts.take(p), k) + inflow(
            ts.take(p),
            k,
        ) <= t,
{
    lemma_flows_prefix(ts, p, k);
    if balance_of(bs, k) >= t {
        assert forall|i: int| 0 <= i < ts.len() implies ts[i].destination_index != k by {
            assert(plan_step(bs, t, ts[i]));
        }
        lemma_no_inflow(ts, k);
        assert forall|i: int| 0 <= i < ts.take(p).len() implies ts.take(p)[i].destination_index
            != k by {
            assert(ts.take(p)[i] == ts[i]);
        }
        lemma_no_inflow(ts.take(p), k);
    }
    if balance_of(bs, k) <= t {
        assert forall|i: int| 0 <= i < ts.len() implies ts[i].source_index != k by {
            assert(plan_step(bs, t, ts[i]));
        }
        lemma_no_outflow(ts, k);
        assert forall|i: int| 0 <= i < ts.take(p).len() implies ts.take(p)[i].source_index != k by {
            assert(ts.take(p)[i] == ts[i]);
        }
        lemma_no_outflow(ts.take(p), k);
    }
}

/// In a balancing plan no chain both pays and receives.
pub proof fn lemma_plan_roles_disjoint(
    bs: Seq<(ChainKey, Amount)>,
    t: int,
    ts: Seq<BalancingTransfer>,
    i: int,
    j: int,
)
    requires
        is_balancing_plan(bs, t, ts),
        0 <= i < ts.len(),
        0 <= j < ts.len(),
    ensures
        ts[i].source_index != ts[j].destination_index,
{
    assert(plan_step(bs, t, ts[i]));
    assert(plan_step(bs, t, ts[j]));
}

/// Whether the chain holds the target after balancing.
pub fn check_final_balance(chain: ChainKey, balance: Amount, target: Amount) -> (r: Result<
    (),
    BalanceError,
>)
    ensures
        balance == target ==> r is Ok,
        balance != target ==> r == Err::<(), BalanceError>(
            BalanceError::FinalBalanceMismatch { chain, balance, target },
        ),
{
    if balance == target {
        Ok(())
    } else {
        Err(BalanceError::FinalBalanceMismatch { chain, balance, target })
    }
}

} // verus!
