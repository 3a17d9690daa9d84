use linera_paper_eval::amount::Amount;
use linera_paper_eval::balancing::{check_final_balance, plan_balancing, BalanceError, BalancingTransfer};
use linera_paper_eval::chain::ChainKey;

fn key(n: u64) -> ChainKey {
    ChainKey { w0: n, w1: 0, w2: 0, w3: 0 }
}

fn list(balances: &[u128]) -> Vec<(ChainKey, Amount)> {
    balances.iter().enumerate().map(|(i, b)| (key(i as u64), Amount::from_attos(*b))).collect()
}

fn transfer(s: usize, d: usize, amount: u128) -> BalancingTransfer {
    BalancingTransfer {
        source_index: s,
        source: key(s as u64),
        destination_index: d,
        destination: key(d as u64),
        amount: Amount::from_attos(amount),
    }
}

fn apply(balances: &[u128], plan: &[BalancingTransfer]) -> Vec<u128> {
    let mut b = balances.to_vec();
    for t in plan {
        b[t.source_index] -= t.amount.to_attos();
        b[t.destination_index] += t.amount.to_attos();
    }
    b
}

#[test]
fn already_balanced_needs_no_transfer() {
    let plan = plan_balancing(&list(&[100, 100, 100]), Amount::from_attos(100)).unwrap();
    assert!(plan.is_empty());
}

#[test]
fn empty_list_needs_no_transfer() {
    assert_eq!(plan_balancing(&vec![], Amount::from_attos(100)), Ok(vec![]));
}

#[test]
fn one_donor_one_recipient() {
    let plan = plan_balancing(&list(&[150, 50]), Amount::from_attos(100)).unwrap();
    assert_eq!(plan, vec![transfer(0, 1, 50)]);
}

#[test]
fn donors_fill_recipients_in_list_order() {
    // Surpluses: chain 0 gives 30, chain 2 gives 50; deficits: chain 1 lacks 20, chain 3 lacks 40, chain 4 lacks 20.
    let balances = [130, 80, 150, 60, 80];
    let plan = plan_balancing(&list(&balances), Amount::from_attos(100)).unwrap();
    assert_eq!(
        plan,
        vec![transfer(0, 1, 20), transfer(0, 3, 10), transfer(2, 3, 30), transfer(2, 4, 20)]
    );
    assert_eq!(apply(&balances, &plan), vec![100; 5]);
}

#[test]
fn balances_after_plan_equal_target() {
    let balances = [0, 400, 10, 90, 0, 300, 250];
    let plan = plan_balancing(&list(&balances), Amount::from_attos(150)).unwrap();
    assert_eq!(apply(&balances, &plan), vec![150; 7]);
    for t in &plan {
        assert!(t.amount.to_attos() > 0);
        assert!(balances[t.source_index] > 150);
        assert!(balances[t.destination_index] < 150);
    }
    for w in plan.windows(2) {
        let a = (w[0].source_index, w[0].destination_index);
        let b = (w[1].source_index, w[1].destination_index);
        assert!(a < b);
    }
}

#[test]
fn plan_never_overshoots_while_running() {
    let balances = [0u128, 400, 10, 90, 0, 300, 250];
    let plan = plan_balancing(&list(&balances), Amount::from_attos(150)).unwrap();
    let mut b = balances.to_vec();
    for t in &plan {
        b[t.source_index] -= t.amount.to_attos();
        b[t.destination_index] += t.amount.to_attos();
        for (k, start) in balances.iter().enumerate() {
            if *start >= 150 {
                assert!(b[k] >= 150);
            }
            if *start <= 150 {
                assert!(b[k] <= 150);
            }
        }
    }
}

#[test]
fn duplicate_chain_is_refused() {
    let mut l = list(&[100, 100]);
    l[1].0 = key(0);
    assert_eq!(plan_balancing(&l, Amount::from_attos(100)), Err(BalanceError::DuplicateChainIds));
}

#[test]
fn overflowing_total_is_refused() {
    assert_eq!(
        plan_balancing(&list(&[u128::MAX, 1]), Amount::from_attos(100)),
        Err(BalanceError::TotalOverflow)
    );
}

#[test]
fn overflowing_requirement_is_refused() {
    assert_eq!(
        plan_balancing(&list(&[1, 1]), Amount::from_attos(u128::MAX)),
        Err(BalanceError::RequiredOverflow)
    );
}

#[test]
fn mismatched_total_is_refused() {
    assert_eq!(
        plan_balancing(&list(&[100, 120]), Amount::from_attos(100)),
        Err(BalanceError::TotalMismatch {
            chain_count: 2,
            target: Amount::from_attos(100),
            total: Amount::from_attos(220),
            required: Amount::from_attos(200),
        })
    );
}

#[test]
fn final_balance_check() {
    assert_eq!(check_final_balance(key(3), Amount::from_attos(5), Amount::from_attos(5)), Ok(()));
    assert_eq!(
        check_final_balance(key(3), Amount::from_attos(4), Amount::from_attos(5)),
        Err(BalanceError::FinalBalanceMismatch {
            chain: key(3),
            balance: Amount::from_attos(4),
            target: Amount::from_attos(5),
        })
    );
}

#[test]
fn balancing_with_token_amounts() {
    let target = Amount::from_tokens(1000);
    let one = Amount::from_tokens(1).to_attos();
    let balances = [1000 * one + 3, 1000 * one - 1, 1000 * one - 2];
    let plan = plan_balancing(&list(&balances), target).unwrap();
    assert_eq!(plan, vec![transfer(0, 1, 1), transfer(0, 2, 2)]);
}

#[test]
fn overflowing_total_equal_to_requirement_is_refused() {
    // The balances add up to exactly twice the target, but that sum is above the largest amount.
    assert_eq!(
        plan_balancing(&list(&[u128::MAX, 1]), Amount::from_attos(1u128 << 127)),
        Err(BalanceError::TotalOverflow)
    );
}
