//! An endless round over a fixed list: each request takes the next items, wrapping
//! around to the front when the end is reached.

use vstd::prelude::*;
use vstd::arithmetic::div_mod::{lemma_add_mod_noop_right, lemma_small_mod, lemma_mod_self_0};

verus! {

/// The `count` items that a round over `items` yields from position `start` on.
/// A round over an empty list yields nothing.
pub open spec fn cycle_window<T>(items: Seq<T>, start: int, count: int) -> Seq<T> {
    if items.len() == 0 {
        Seq::empty()
    } else {
        Seq::new(count as nat, |k: int| items[(start + k) % (items.len() as int)])
    }
}

/// Where a round over `len` items stands after `count` more items from `start`.
pub open spec fn cycle_advance(len: int, start: int, count: int) -> int {
    if len == 0 { 0 } else { (start + count) % len }
}

/// An endless round over a fixed list of items.
pub struct Cycle<T> {
    items: Vec<T>,
    pos: usize,
}

impl<T> Cycle<T> {
    #[verifier::type_invariant]
    spec fn inv(&self) -> bool {
        if self.items@.len() == 0 {
            self.pos == 0
        } else {
            self.pos < self.items@.len()
        }
    }

}

impl<T: Copy> Cycle<T> {
    /// The list that the round goes over.
    pub closed spec fn items(&self) -> Seq<T> {
        self.items@
    }

    /// The position of the next item.
    pub closed spec fn position(&self) -> int {
        self.pos as int
    }

    /// A round over `items` that starts at the front.
    pub fn new(items: Vec<T>) -> (r: Cycle<T>)
        ensures
            r.items() == items@,
            r.position() == 0,
    {
        Cycle { items, pos: 0 }
    }

    /// The next `count` items of the round.
    pub fn take(&mut self, count: usize) -> (r: Vec<T>)
        ensures
            final(self).items() == old(self).items(),
            r@ == cycle_window(old(self).items(), old(self).position(), count as int),
            final(self).position() == cycle_advance(
                old(self).items().len() as int,
                old(self).position(),
                count as int,
            ),
    {
        proof {
            use_type_invariant(&*self);
        }
        let len = self.items.len();
        let mut r: Vec<T> = Vec::new();
        if len == 0 {
            proof {
                assert(r@ == cycle_window(self.items@, self.pos as int, count as int));
            }
            return r;
        }
        let ghost start = self.pos as int;
        let mut p = self.pos;
        proof {
            lemma_small_mod(p as nat, len as nat);
        }
        let mut i: usize = 0;
        while i < count
            invariant
                len == self.items@.len(),
                len > 0,
                0 <= start < len,
                i <= count,
                p < len,
                p == (start + i) % (len as int),
                r@.len() == i,
                forall|k: int| 0 <= k < i ==> r@[k] == self.items@[(start + k) % (len as int)],
            decreases count - i,
        {
            r.push(self.items[p]);
            proof {
                lemma_add_mod_noop_right(1, start + i, len as int);
                if p + 1 < len {
                    lemma_small_mod((p + 1) as nat, len as nat);
                } else {
                    lemma_mod_self_0(len as int);
                }
            }
            p = if p + 1 == len { 0 } else { p + 1 };
            i = i + 1;
        }
        proof {
            assert(r@ == cycle_window(self.items@, start, count as int));
        }
        self.pos = p;
        r
    }
}

/// Taking `a` items and then `b` more yields the same items, in the same order, as
/// taking `a + b` at once.
pub proof fn lemma_cycle_window_concat<T>(items: Seq<T>, start: int, a: nat, b: nat)
    requires
        0 <= start,
    ensures
        cycle_window(items, start, a as int) + cycle_window(
            items,
            cycle_advance(items.len() as int, start, a as int),
            b as int,
        ) == cycle_window(items, start, (a + b) as int),
{
    let len = items.len() as int;
    if len > 0 {
        let lhs = cycle_window(items, start, a as int) + cycle_window(
            items,
            cycle_advance(len, start, a as int),
            b as int,
        );
        let rhs = cycle_window(items, start, (a + b) as int);
        assert forall|k: int| 0 <= k < a + b implies lhs[k] == rhs[k] by {
            if k >= a {
                lemma_add_mod_noop_right(k - a, start + a, len);
            }
        }
        assert(lhs =~= rhs);
    }
}

/// A round over a non-empty list repeats itself every `len` items.
pub proof fn lemma_cycle_window_period<T>(items: Seq<T>, start: int, count: nat, k: int)
    requires
        0 <= start,
        items.len() > 0,
        0 <= k,
        k + items.len() < count,
    ensures
        cycle_window(items, start, count as int)[k] == cycle_window(items, start, count as int)[k
            + items.len()],
{
    let len = items.len() as int;
    lemma_add_mod_noop_right(start + k, len, len);
    lemma_mod_self_0(len);
    assert((start + k + len) % len == ((start + k) + (len % len)) % len);
}

} // verus!
