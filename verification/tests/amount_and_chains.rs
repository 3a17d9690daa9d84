use linera_paper_eval::amount::{Amount, ArithmeticError, ATTOS_PER_TOKEN};
use linera_paper_eval::chain::{check_all_distinct, other_chains, ChainKey};

fn key(n: u64) -> ChainKey {
    ChainKey { w0: n, w1: 0, w2: 0, w3: 0 }
}

#[test]
fn from_tokens_counts_attos() {
    assert_eq!(Amount::from_tokens(1000).to_attos(), 1000 * ATTOS_PER_TOKEN);
    assert_eq!(Amount::from_tokens(10).to_attos(), 10_000_000_000_000_000_000);
    assert_eq!(Amount::from_tokens(0), Amount::zero());
}

#[test]
fn from_tokens_saturates() {
    assert_eq!(Amount::from_tokens(u128::MAX).to_attos(), u128::MAX);
}

#[test]
fn checked_arithmetic() {
    let a = Amount::from_attos(7);
    let b = Amount::from_attos(5);
    assert_eq!(a.try_add(b), Ok(Amount::from_attos(12)));
    assert_eq!(a.try_sub(b), Ok(Amount::from_attos(2)));
    assert_eq!(b.try_sub(a), Err(ArithmeticError::Underflow));
    assert_eq!(Amount::from_attos(u128::MAX).try_add(Amount::from_attos(1)), Err(ArithmeticError::Overflow));
    assert_eq!(a.try_mul(3), Ok(Amount::from_attos(21)));
    assert_eq!(Amount::from_attos(u128::MAX / 2 + 1).try_mul(2), Err(ArithmeticError::Overflow));
}

#[test]
fn in_place_arithmetic() {
    let mut a = Amount::from_attos(10);
    assert_eq!(a.try_add_assign(Amount::from_attos(5)), Ok(()));
    assert_eq!(a, Amount::from_attos(15));
    assert_eq!(a.try_sub_assign(Amount::from_attos(20)), Err(ArithmeticError::Underflow));
    assert_eq!(a, Amount::from_attos(15));
    assert_eq!(a.try_sub_assign(Amount::from_attos(15)), Ok(()));
    assert!(a.is_zero());
    let mut m = Amount::from_attos(u128::MAX - 1);
    assert_eq!(m.try_add_assign(Amount::from_attos(2)), Err(ArithmeticError::Overflow));
    assert_eq!(m, Amount::from_attos(u128::MAX - 1));
    m.saturating_add_assign(Amount::from_attos(5));
    assert_eq!(m.to_attos(), u128::MAX);
}

#[test]
fn saturating_arithmetic() {
    assert_eq!(Amount::from_attos(3).saturating_add(Amount::from_attos(4)), Amount::from_attos(7));
    assert_eq!(Amount::from_attos(u128::MAX).saturating_add(Amount::from_attos(4)).to_attos(), u128::MAX);
    assert_eq!(Amount::from_attos(3).saturating_mul(4), Amount::from_attos(12));
    assert_eq!(Amount::from_attos(u128::MAX).saturating_mul(2).to_attos(), u128::MAX);
    assert_eq!(Amount::from_attos(3).min(Amount::from_attos(4)), Amount::from_attos(3));
    assert_eq!(Amount::from_attos(9).min(Amount::from_attos(4)), Amount::from_attos(4));
}

#[test]
fn distinct_chain_keys() {
    assert!(check_all_distinct(&vec![]));
    assert!(check_all_distinct(&vec![key(1), key(2), key(3)]));
    assert!(!check_all_distinct(&vec![key(1), key(2), key(1)]));
    let mut twin = key(4);
    twin.w3 = 1;
    assert!(check_all_distinct(&vec![key(4), twin]));
}

#[test]
fn other_chains_drop_own_chain() {
    let chains = vec![key(1), key(2), key(3), key(2)];
    assert_eq!(other_chains(&chains, key(2)), vec![key(1), key(3)]);
    assert_eq!(other_chains(&chains, key(9)), chains);
    assert_eq!(other_chains(&vec![key(5)], key(5)), vec![]);
}
