use vstd::prelude::*;

verus! {

/// A sort key of three integers, compared from `a` to `c`.
#[derive(Clone, Copy, Debug)]
pub struct Key {
    pub a: i128,
    pub b: i128,
    pub c: i128,
}

/// Whether `x` comes strictly before `y` in the order of keys.
pub open spec fn key_lt(x: Key, y: Key) -> bool {
    x.a < y.a || (x.a == y.a && (x.b < y.b || (x.b == y.b && x.c < y.c)))
}

/// Whether `x` comes strictly before `y` in the order of keys.
pub fn key_less(x: &Key, y: &Key) -> (r: bool)
    ensures
        r == key_lt(*x, *y),
{
    x.a < y.a || (x.a == y.a && (x.b < y.b || (x.b == y.b && x.c < y.c)))
}

/// Where an item with key `k` goes into `order`, a list of positions in
/// `keys` with falling keys, so that it follows every item whose key is not
/// smaller: the first place at or after `from` whose key is smaller, or the end.
pub open spec fn slot_for(keys: Seq<Key>, order: Seq<int>, k: Key, from: int) -> int
    decreases order.len() - from,
{
    if from < 0 || from >= order.len() {
        order.len() as int
    } else if key_lt(keys[order[from]], k) {
        from
    } else {
        slot_for(keys, order, k, from + 1)
    }
}

/// The positions `0..n` in the order of falling keys, positions with equal
/// keys in rising order.
pub open spec fn falling(keys: Seq<Key>, n: int) -> Seq<int>
    decreases n,
{
    if n <= 0 {
        seq![]
    } else {
        let prev = falling(keys, n - 1);
        prev.insert(slot_for(keys, prev, keys[n - 1], 0), n - 1)
    }
}

/// All positions of `keys` in the order of falling keys, positions with
/// equal keys in rising order.
pub open spec fn falling_order(keys: Seq<Key>) -> Seq<int> {
    falling(keys, keys.len() as int)
}

/// A list of positions as integers.
pub open spec fn positions(order: Seq<usize>) -> Seq<int> {
    Seq::new(order.len(), |k: int| order[k] as int)
}

/// `slot_for` lies within the list.
pub proof fn lemma_slot_in_range(keys: Seq<Key>, order: Seq<int>, k: Key, from: int)
    requires
        0 <= from <= order.len(),
    ensures
        from <= slot_for(keys, order, k, from) <= order.len(),
    decreases order.len() - from,
{
    if from < order.len() && !key_lt(keys[order[from]], k) {
        lemma_slot_in_range(keys, order, k, from + 1);
    }
}

/// `falling(keys, n)` has `n` entries, each a position below `n`.
pub proof fn lemma_falling_shape(keys: Seq<Key>, n: int)
    requires
        0 <= n,
    ensures
        falling(keys, n).len() == n,
        forall|k: int| 0 <= k < n ==> 0 <= #[trigger] falling(keys, n)[k] < n,
    decreases n,
{
    if n > 0 {
        lemma_falling_shape(keys, n - 1);
        let prev = falling(keys, n - 1);
        lemma_slot_in_range(keys, prev, keys[n - 1], 0);
    }
}

/// No item before `slot_for` has a smaller key than `k`, and where the slot
/// is not the end, the item at it has.
pub proof fn lemma_slot_splits(keys: Seq<Key>, order: Seq<int>, k: Key, from: int)
    requires
        0 <= from <= order.len(),
    ensures
        forall|j: int|
            from <= j < slot_for(keys, order, k, from) ==> !key_lt(keys[#[trigger] order[j]], k),
        slot_for(keys, order, k, from) < order.len() ==> key_lt(
            keys[order[slot_for(keys, order, k, from)]],
            k,
        ),
    decreases order.len() - from,
{
    if from < order.len() && !key_lt(keys[order[from]], k) {
        lemma_slot_splits(keys, order, k, from + 1);
    }
}

/// Whether `order` lists positions of `keys` with keys that never rise, and
/// positions with equal keys in rising order, no position twice.
pub open spec fn is_stable_falling(keys: Seq<Key>, order: Seq<int>) -> bool {
    forall|p: int, q: int|
        0 <= p < q < order.len() ==> {
            &&& !key_lt(keys[#[trigger] order[p]], keys[#[trigger] order[q]])
            &&& order[p] != order[q]
            &&& !key_lt(keys[order[q]], keys[order[p]]) ==> order[p] < order[q]
        }
}

/// Sorting law: `falling(keys, n)` lists each position below `n` once, with
/// keys that never rise, and positions with equal keys in rising order.
pub proof fn lemma_falling_sorted(keys: Seq<Key>, n: int)
    requires
        0 <= n,
    ensures
        falling(keys, n).len() == n,
        forall|k: int| 0 <= k < n ==> 0 <= #[trigger] falling(keys, n)[k] < n,
        is_stable_falling(keys, falling(keys, n)),
        forall|i: int| 0 <= i < n ==> falling(keys, n).contains(i),
    decreases n,
{
    lemma_falling_shape(keys, n);
    if n > 0 {
        lemma_falling_sorted(keys, n - 1);
        let prev = falling(keys, n - 1);
        let k = keys[n - 1];
        let at = slot_for(keys, prev, k, 0);
        lemma_slot_in_range(keys, prev, k, 0);
        lemma_slot_splits(keys, prev, k, 0);
        let f = falling(keys, n);
        assert(f == prev.insert(at, n - 1));
        assert forall|p: int, q: int| 0 <= p < q < f.len() implies {
            &&& !key_lt(keys[#[trigger] f[p]], keys[#[trigger] f[q]])
            &&& f[p] != f[q]
            &&& !key_lt(keys[f[q]], keys[f[p]]) ==> f[p] < f[q]
        } by {
            if q < at {
                assert(f[p] == prev[p] && f[q] == prev[q]);
            } else if q == at {
                assert(f[p] == prev[p]);
            } else if p < at {
                assert(f[p] == prev[p] && f[q] == prev[q - 1]);
            } else if p == at {
                assert(f[q] == prev[q - 1]);
                if q - 1 > at {
                    assert(!key_lt(keys[prev[at]], keys[prev[q - 1]]));
                }
            } else {
                assert(f[p] == prev[p - 1] && f[q] == prev[q - 1]);
            }
        }
        assert forall|i: int| 0 <= i < n implies f.contains(i) by {
            if i == n - 1 {
                assert(f[at] == i);
            } else {
                assert(prev.contains(i));
                let j = choose|j: int| 0 <= j < prev.len() && prev[j] == i;
                if j < at {
                    assert(f[j] == i);
                } else {
                    assert(f[j + 1] == i);
                }
            }
        }
    }
}

/// The positions of `keys` in the order of falling keys; equal keys keep the
/// order in which they stand.
pub fn sort_falling(keys: &Vec<Key>) -> (order: Vec<usize>)
    ensures
        positions(order@) == falling_order(keys@),
        order@.len() == keys@.len(),
        forall|k: int| 0 <= k < order@.len() ==> #[trigger] order@[k] < keys@.len(),
{
    let mut order: Vec<usize> = Vec::new();
    let mut i: usize = 0;
    assert(positions(order@) =~= falling(keys@, 0));
    while i < keys.len()
        invariant
            i <= keys.len(),
            order@.len() == i,
            positions(order@) == falling(keys@, i as int),
            forall|k: int| 0 <= k < order@.len() ==> #[trigger] order@[k] < i,
        decreases keys.len() - i,
    {
        let ghost prev = positions(order@);
        let key = keys[i];
        let mut at: usize = 0;
        while at < order.len() && !key_less(&keys[order[at]], &key)
            invariant
                at <= order@.len(),
                order@.len() == i,
                i < keys.len(),
                key == keys@[i as int],
                prev == positions(order@),
                forall|k: int| 0 <= k < order@.len() ==> #[trigger] order@[k] < i,
                slot_for(keys@, prev, key, 0) == slot_for(keys@, prev, key, at as int),
            decreases order@.len() - at,
        {
            assert(prev[at as int] == order@[at as int]);
            at += 1;
        }
        proof {
            if at < order.len() {
                assert(prev[at as int] == order@[at as int]);
            }
        }
        order.insert(at, i);
        assert(positions(order@) =~= prev.insert(at as int, i as int));
        i += 1;
    }
    order
}

} // verus!
