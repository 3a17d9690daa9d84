//! Where a sending chain's transfers go, depending on the transfer mode.
//!
//! The destinations are put in random order once; the chain then sends to them
//! round after round in that order, so no random choice is made per transfer.

use vstd::prelude::*;
use rand::rngs::ThreadRng;
use rand::seq::SliceRandom;
use crate::chain::{ChainKey, others, is_not};
use crate::cycle::Cycle;

verus! {

/// Which chains a sending chain transfers to.
#[derive(Clone, Copy, Debug, PartialEq, Eq, Structural)]
pub enum TransferTargetMode {
    /// Every other chain in turn.
    RandomOtherChain,
    /// Every other chain in turn, with a transfer to itself after each.
    HalfAndHalfSelfOtherChain,
    /// Only itself.
    SelfChain,
}

/// One round of destinations for a chain `own` whose other chains come in `order`.
pub open spec fn destination_pattern(
    mode: TransferTargetMode,
    order: Seq<ChainKey>,
    own: ChainKey,
) -> Seq<ChainKey> {
    match mode {
        TransferTargetMode::RandomOtherChain => order,
        TransferTargetMode::HalfAndHalfSelfOtherChain => Seq::new(
            2 * order.len(),
            |k: int| if k % 2 == 0 { order[k / 2] } else { own },
        ),
        TransferTargetMode::SelfChain => seq![own],
    }
}

/// One round of destinations for the chain `own`, whose other chains come in `order`.
pub fn destination_pattern_of(mode: TransferTargetMode, order: &Vec<ChainKey>, own: ChainKey) -> (r:
    Vec<ChainKey>)
    requires
        2 * order@.len() <= usize::MAX,
    ensures
        r@ == destination_pattern(mode, order@, own),
{
    match mode {
        TransferTargetMode::RandomOtherChain => order.clone(),
        TransferTargetMode::HalfAndHalfSelfOtherChain => {
            let mut r: Vec<ChainKey> = Vec::new();
            let mut i: usize = 0;
            while i < order.len()
                invariant
                    2 * order@.len() <= usize::MAX,
                    i <= order@.len(),
                    r@.len() == 2 * i,
                    forall|k: int|
                        0 <= k < 2 * i ==> r@[k] == if k % 2 == 0 {
                            order@[k / 2]
                        } else {
                            own
                        },
                decreases order@.len() - i,
            {
                r.push(order[i]);
                r.push(own);
                i = i + 1;
            }
            proof {
                assert(r@ == destination_pattern(mode, order@, own));
            }
            r
        },
        TransferTargetMode::SelfChain => {
            let mut r: Vec<ChainKey> = Vec::new();
            r.push(own);
            proof {
                assert(r@ == destination_pattern(mode, order@, own));
            }
            r
        },
    }
}

/// The endless round of destinations for the chain `own`, its other chains taken in `order`.
pub fn destination_round(mode: TransferTargetMode, order: &Vec<ChainKey>, own: ChainKey) -> (r:
    Cycle<ChainKey>)
    requires
        2 * order@.len() <= usize::MAX,
    ensures
        r.items() == destination_pattern(mode, order@, own),
        r.position() == 0,
{
    Cycle::new(destination_pattern_of(mode, order, own))
}

/// A chain sends to itself exactly where its mode says so: never when sending to the other
/// chains in turn (its destinations being some order of its other chains), every second
/// transfer when mixing, and always in self mode.
pub proof fn lemma_self_transfers(
    mode: TransferTargetMode,
    chains: Seq<ChainKey>,
    order: Seq<ChainKey>,
    own: ChainKey,
    i: int,
)
    requires
        order.to_multiset() == others(chains, own).to_multiset(),
        0 <= i < destination_pattern(mode, order, own).len(),
    ensures
        (destination_pattern(mode, order, own)[i] == own) <==> (match mode {
            TransferTargetMode::RandomOtherChain => false,
            TransferTargetMode::HalfAndHalfSelfOtherChain => i % 2 == 1,
            TransferTargetMode::SelfChain => true,
        }),
{
    let j = match mode {
        TransferTargetMode::HalfAndHalfSelfOtherChain => i / 2,
        _ => i,
    };
    if mode != TransferTargetMode::SelfChain && (mode == TransferTargetMode::RandomOtherChain
        || i % 2 == 0) {
        let x = order[j];
        let rest = others(chains, own);
        order.to_multiset_ensures();
        rest.to_multiset_ensures();
        assert(order.contains(x));
        assert(order.to_multiset().count(x) > 0);
        assert(rest.contains(x));
        let m = rest.index_of(x);
        chains.lemma_filter_pred(is_not(own), m);
    }
}

/// A round holds every given chain: in turn mode it is the order itself, in mixing mode
/// it has twice its length with the `j`-th chain of the order at place `2j` and the
/// sending chain right after it, and in self mode it is the sending chain alone.
pub proof fn lemma_round_covers_order(
    mode: TransferTargetMode,
    order: Seq<ChainKey>,
    own: ChainKey,
    j: int,
)
    requires
        0 <= j < order.len(),
    ensures
        ({
            let p = destination_pattern(mode, order, own);
            match mode {
                TransferTargetMode::RandomOtherChain => p.len() == order.len() && p[j] == order[j],
                TransferTargetMode::HalfAndHalfSelfOtherChain => {
                    &&& p.len() == 2 * order.len()
                    &&& p[2 * j] == order[j]
                    &&& p[2 * j + 1] == own
                },
                TransferTargetMode::SelfChain => p.len() == 1 && p[0] == own,
            }
        }),
        mode != TransferTargetMode::SelfChain ==> destination_pattern(mode, order, own).contains(
            order[j],
        ),
{
    let p = destination_pattern(mode, order, own);
    if mode == TransferTargetMode::HalfAndHalfSelfOtherChain {
        assert((2 * j) / 2 == j && (2 * j) % 2 == 0);
        assert((2 * j + 1) % 2 == 1);
        assert(p[2 * j] == order[j]);
    }
    if mode != TransferTargetMode::SelfChain {
        let k = if mode == TransferTargetMode::RandomOtherChain { j } else { 2 * j };
        assert(p[k] == order[j]);
    }
}

/// `rand::rngs::ThreadRng`, the thread's random generator, held opaque.
#[verifier::external_type_specification]
#[verifier::external_body]
pub struct ExThreadRng(ThreadRng);

/// `rand::rng`: the thread's random generator; nothing is known of its state.
pub assume_specification[ rand::rng ]() -> ThreadRng;

/// `SliceRandom::shuffle` from `rand`: puts the list in a random order by swapping its
/// items, so the result holds the same items as many times each.
#[verifier::external_body]
fn shuffle_chain_keys(keys: &mut Vec<ChainKey>, rng: &mut ThreadRng)
    ensures
        final(keys)@.to_multiset() == old(keys)@.to_multiset(),
{
    keys.shuffle(rng);
}

/// The endless round of destinations for the chain `own`, its other chains
/// `destinations` put in a random order first.
pub fn shuffled_destination_round(
    mode: TransferTargetMode,
    destinations: Vec<ChainKey>,
    own: ChainKey,
) -> (r: Cycle<ChainKey>)
    requires
        2 * destinations@.len() <= usize::MAX,
    ensures
        exists|order: Seq<ChainKey>|
            #![trigger destination_pattern(mode, order, own)]
            order.to_multiset() == destinations@.to_multiset() && r.items()
                == destination_pattern(mode, order, own),
        r.position() == 0,
{
    let mut order = destinations;
    let mut rng = rand::rng();
    shuffle_chain_keys(&mut order, &mut rng);
    proof {
        order@.to_multiset_ensures();
        destinations@.to_multiset_ensures();
    }
    let r = destination_round(mode, &order, own);
    proof {
        assert(order@.to_multiset() == destinations@.to_multiset() && r.items()
            == destination_pattern(mode, order@, own));
    }
    r
}

} // verus!
