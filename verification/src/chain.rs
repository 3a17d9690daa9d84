//! Chain identifiers as the library sees them, and the comparisons made on them.

use vstd::prelude::*;

verus! {

/// The identifier of a chain: the 256-bit hash that names it, as four words.
#[derive(Clone, Copy, Debug, PartialEq, Eq, Structural, Hash)]
pub struct ChainKey {
    pub w0: u64,
    pub w1: u64,
    pub w2: u64,
    pub w3: u64,
}

/// No identifier occurs twice in `s`.
pub open spec fn all_distinct(s: Seq<ChainKey>) -> bool {
    forall|i: int, j: int| 0 <= i < j < s.len() ==> s[i] != s[j]
}

/// Whether no identifier occurs twice in `keys`.
pub fn check_all_distinct(keys: &Vec<ChainKey>) -> (r: bool)
    ensures
        r == all_distinct(keys@),
{
    let n = keys.len();
    let mut i: usize = 0;
    while i < n
        invariant
            n == keys@.len(),
            i <= n,
            forall|a: int, b: int| 0 <= a < b < n && a < i ==> keys@[a] != keys@[b],
        decreases n - i,
    {
        let mut j: usize = i + 1;
        while j < n
            invariant
                n == keys@.len(),
                i < n,
                i + 1 <= j <= n,
                forall|a: int, b: int| 0 <= a < b < n && a < i ==> keys@[a] != keys@[b],
                forall|b: int| i < b < j ==> keys@[i as int] != keys@[b],
            decreases n - j,
        {
            if keys[i] == keys[j] {
                return false;
            }
            j = j + 1;
        }
        i = i + 1;
    }
    true
}

/// Holds of every identifier but `own`.
pub open spec fn is_not(own: ChainKey) -> spec_fn(ChainKey) -> bool {
    |c: ChainKey| c != own
}

/// The identifiers of `chains` other than `own`, in their order.
pub open spec fn others(chains: Seq<ChainKey>, own: ChainKey) -> Seq<ChainKey> {
    chains.filter(is_not(own))
}

/// The chains that a chain sends to: every chain of the list but itself, in list order.
pub fn other_chains(chains: &Vec<ChainKey>, own: ChainKey) -> (r: Vec<ChainKey>)
    ensures
        r@ == others(chains@, own),
{
    let mut r: Vec<ChainKey> = Vec::new();
    let n = chains.len();
    let mut i: usize = 0;
    while i < n
        invariant
            n == chains@.len(),
            i <= n,
            r@ == others(chains@.take(i as int), own),
        decreases n - i,
    {
        let c = chains[i];
        proof {
            let next = chains@.take(i + 1);
            assert(next.drop_last() == chains@.take(i as int));
            assert(next.last() == c);
            reveal(Seq::filter);
        }
        if c != own {
            r.push(c);
        }
        i = i + 1;
    }
    proof {
        assert(chains@.take(n as int) == chains@);
    }
    r
}

} // verus!
