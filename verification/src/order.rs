//! Stable ordering by integer keys.
//!
//! A key is four integers, compared left to right, smaller first. Where two
//! keys are equal the earlier item stays first, so an order is fixed by the
//! keys alone.

use vstd::prelude::*;

verus! {

/// Four integers that rank an item; the first decides, the later ones break
/// ties.
#[derive(Debug, Clone, Copy, PartialEq, Eq, Structural)]
pub struct SortKey {
    pub first: i128,
    pub second: i128,
    pub third: i128,
    pub fourth: i128,
}

/// `x` comes strictly before `y`.
pub open spec fn key_lt(x: SortKey, y: SortKey) -> bool {
    ||| x.first < y.first
    ||| x.first == y.first && x.second < y.second
    ||| x.first == y.first && x.second == y.second && x.third < y.third
    ||| x.first == y.first && x.second == y.second && x.third == y.third && x.fourth < y.fourth
}

/// Item `i` is placed before item `j`: by its key, or by its position where
/// the keys are equal.
pub open spec fn ranks_before(keys: Seq<SortKey>, i: int, j: int) -> bool {
    key_lt(keys[i], keys[j]) || (keys[i] == keys[j] && i < j)
}

/// `order` lists every position of `keys` once, in rank order.
pub open spec fn is_stable_order(keys: Seq<SortKey>, order: Seq<usize>) -> bool {
    &&& order.len() == keys.len()
    &&& forall|p: int| 0 <= p < order.len() ==> (#[trigger] order[p]) < keys.len()
    &&& forall|p: int, q: int|
        0 <= p < q < order.len() ==> ranks_before(keys, #[trigger] order[p] as int, #[trigger] order[q] as int)
    &&& forall|i: usize| i < keys.len() ==> #[trigger] order.contains(i)
}

/// Whether `x` comes strictly before `y`.
pub fn key_less(x: &SortKey, y: &SortKey) -> (r: bool)
    ensures
        r == key_lt(*x, *y),
{
    if x.first != y.first {
        x.first < y.first
    } else if x.second != y.second {
        x.second < y.second
    } else if x.third != y.third {
        x.third < y.third
    } else {
        x.fourth < y.fourth
    }
}

/// The positions of `keys` in rank order: ascending by key, and by position
/// among equal keys.
pub fn stable_order(keys: &[SortKey]) -> (order: Vec<usize>)
    ensures
        is_stable_order(keys@, order@),
{
    let mut order: Vec<usize> = Vec::new();
    let mut i: usize = 0;
    while i < keys.len()
        invariant
            i <= keys@.len(),
            is_stable_order(keys@.take(i as int), order@),
        decreases keys.len() - i,
    {
        let mut p: usize = order.len();
        while p > 0 && key_less(&keys[i], &keys[order[p - 1]])
            invariant
                i < keys@.len(),
                p <= order@.len(),
                is_stable_order(keys@.take(i as int), order@),
                forall|q: int| p <= q < order@.len() ==> key_lt(keys@[i as int], keys@[#[trigger] order@[q] as int]),
            decreases p,
        {
            p -= 1;
        }
        let ghost before = order@;
        order.insert(p, i);
        proof {
            let ks = keys@.take(i + 1);
            let prev = keys@.take(i as int);
            assert forall|j: usize| j < i + 1 implies #[trigger] order@.contains(j) by {
                if j == i {
                    assert(order@[p as int] == j);
                } else {
                    assert(before.contains(j));
                    let at = choose|at: int| 0 <= at < before.len() && before[at] == j;
                    if at < p {
                        assert(order@[at] == j);
                    } else {
                        assert(order@[at + 1] == j);
                    }
                }
            }
            assert forall|a: int| 0 <= a < before.len() implies prev[#[trigger] before[a] as int]
                == keys@[before[a] as int] by {}
            assert forall|a: int, b: int| 0 <= a < b < order@.len() implies ranks_before(
                ks,
                #[trigger] order@[a] as int,
                #[trigger] order@[b] as int,
            ) by {
                if b < p {
                    assert(ranks_before(prev, before[a] as int, before[b] as int));
                } else if b == p {
                    if p > 0 {
                        if a < p - 1 {
                            assert(ranks_before(prev, before[a] as int, before[p - 1] as int));
                        }
                    }
                } else if a == p {
                    assert(order@[b] == before[b - 1]);
                } else if a < p {
                    assert(ranks_before(prev, before[a] as int, before[b - 1] as int));
                } else {
                    assert(ranks_before(prev, before[a - 1] as int, before[b - 1] as int));
                }
            }
        }
        i += 1;
    }
    assert(keys@.take(keys@.len() as int) =~= keys@);
    order
}

/// The keys fix the order: two orders of the same keys are the same.
pub proof fn lemma_stable_order_unique(keys: Seq<SortKey>, a: Seq<usize>, b: Seq<usize>)
    requires
        is_stable_order(keys, a),
        is_stable_order(keys, b),
    ensures
        a == b,
{
    lemma_orders_agree(keys, a, b, keys.len() as int);
    assert(a =~= b);
}

/// Two orders of the same keys agree in their first `upto` places.
proof fn lemma_orders_agree(keys: Seq<SortKey>, a: Seq<usize>, b: Seq<usize>, upto: int)
    requires
        is_stable_order(keys, a),
        is_stable_order(keys, b),
        0 <= upto <= keys.len(),
    ensures
        forall|p: int| 0 <= p < upto ==> a[p] == b[p],
    decreases upto,
{
    if upto > 0 {
        lemma_orders_agree(keys, a, b, upto - 1);
        let p = upto - 1;
        if a[p] != b[p] {
            assert(b.contains(a[p]));
            let r = choose|r: int| 0 <= r < b.len() && b[r] == a[p];
            assert(a.contains(b[p]));
            let q = choose|q: int| 0 <= q < a.len() && a[q] == b[p];
            if r < p {
                assert(a[r] == b[r]);
                assert(ranks_before(keys, a[r] as int, a[p] as int));
            }
            if q < p {
                assert(b[q] == a[q]);
                assert(ranks_before(keys, b[q] as int, b[p] as int));
            }
            assert(r > p && q > p);
            assert(ranks_before(keys, b[p] as int, b[r] as int));
            assert(ranks_before(keys, a[p] as int, a[q] as int));
        }
    }
}

} // verus!
