//! Putting things in the order of a number that each has, those with equal numbers in the order in
//! which they came.

use crate::ieee::Float64;
use vstd::prelude::*;

verus! {

/// Whether every number from 0 up to the length occurs, each once.
pub open spec fn is_arrangement(order: Seq<int>, len: nat) -> bool {
    &&& order.len() == len
    &&& forall|i: int| 0 <= i < len ==> 0 <= #[trigger] order[i] < len
    &&& forall|i: int, j: int| 0 <= i < j < len ==> #[trigger] order[i] != #[trigger] order[j]
    &&& forall|k: int| 0 <= k < len ==> #[trigger] order.contains(k)
}

/// Whether the one at `a` comes before the one at `b`: its key is smaller, or the keys are equal
/// and it came first.
pub open spec fn comes_before(keys: Seq<Float64>, a: int, b: int) -> bool {
    keys[a].lt(keys[b]) || (!keys[b].lt(keys[a]) && a < b)
}

pub open spec fn all_numbers(keys: Seq<Float64>) -> bool {
    forall|i: int| 0 <= i < keys.len() ==> !(#[trigger] keys[i]).is_nan()
}

/// Whether an arrangement puts the keys in order. Where a key is no number it has no place among
/// the others, and any arrangement will do.
pub open spec fn is_ranking(order: Seq<int>, keys: Seq<Float64>) -> bool {
    &&& is_arrangement(order, keys.len())
    &&& all_numbers(keys) ==> forall|i: int, j: int|
        0 <= i < j < keys.len() ==> comes_before(keys, #[trigger] order[i], #[trigger] order[j])
}

/// The items in the order of the arrangement.
pub open spec fn arranged<T>(items: Seq<T>, order: Seq<int>) -> Seq<T> {
    Seq::new(order.len(), |i: int| items[order[i]])
}

/// Where in the ranking of the first keys the next one belongs.
pub(crate) open spec fn is_place(keys: Seq<Float64>, order: Seq<int>, place: int) -> bool {
    let key = keys[order.len() as int];
    &&& 0 <= place <= order.len()
    &&& place > 0 ==> !key.lt(keys[order[place - 1]])
    &&& place < order.len() ==> key.lt(keys[order[place]])
}

/// Putting the next key in its place keeps the ranking.
pub(crate) proof fn lemma_insertion_keeps_ranking(keys: Seq<Float64>, order: Seq<int>, place: int)
    requires
        order.len() < keys.len(),
        is_ranking(order, keys.take(order.len() as int)),
        is_place(keys, order, place),
    ensures
        is_ranking(order.insert(place, order.len() as int), keys.take(order.len() as int + 1)),
{
    let n = order.len() as int;
    let before = keys.take(n);
    let after = keys.take(n + 1);
    let next = order.insert(place, n);
    assert forall|k: int| 0 <= k < n + 1 implies #[trigger] next.contains(k) by {
        if k == n {
            assert(next[place] == n);
        } else {
            assert(order.contains(k));
            let i = choose|i: int| 0 <= i < n && order[i] == k;
            if i < place {
                assert(next[i] == k);
            } else {
                assert(next[i + 1] == k);
            }
        }
    }
    if all_numbers(after) {
        assert forall|i: int| 0 <= i < n implies !(#[trigger] before[i]).is_nan() by {
            assert(after[i] == before[i]);
        }
        assert forall|i: int, j: int| 0 <= i < j < n + 1 implies comes_before(
            after,
            #[trigger] next[i],
            #[trigger] next[j],
        ) by {
            let a = if i < place { i } else { i - 1 };
            let b = if j < place { j } else { j - 1 };
            if j == place {
                if i < place - 1 {
                    assert(comes_before(before, order[i], order[place - 1]));
                }
                assert(!after[next[i]].is_nan() && !after[n].is_nan());
                assert(!after[order[place - 1]].is_nan());
            } else if i == place {
                if b > place {
                    assert(comes_before(before, order[place], order[b]));
                }
                assert(!after[next[j]].is_nan() && !after[n].is_nan());
                assert(!after[order[place]].is_nan());
            } else {
                assert(next[i] == order[a] && next[j] == order[b]);
                assert(comes_before(before, order[a], order[b]));
            }
        }
    }
}

/// There is only one ranking of keys that are all numbers.
pub proof fn law_ranking_is_unique(keys: Seq<Float64>, a: Seq<int>, b: Seq<int>)
    requires
        all_numbers(keys),
        is_ranking(a, keys),
        is_ranking(b, keys),
    ensures
        a == b,
{
    assert forall|i: int| 0 <= i < keys.len() implies a[i] == b[i] by {
        lemma_rankings_agree(keys, a, b, i);
    }
    assert(a =~= b);
}

proof fn lemma_rankings_agree(keys: Seq<Float64>, a: Seq<int>, b: Seq<int>, i: int)
    requires
        all_numbers(keys),
        is_ranking(a, keys),
        is_ranking(b, keys),
        0 <= i < keys.len(),
    ensures
        forall|j: int| 0 <= j <= i ==> #[trigger] a[j] == b[j],
    decreases i,
{
    if i > 0 {
        lemma_rankings_agree(keys, a, b, i - 1);
    }
    if a[i] != b[i] {
        assert(b.contains(a[i]));
        let k = choose|k: int| 0 <= k < b.len() && b[k] == a[i];
        if k < i {
            assert(a[k] == b[k]);
        }
        assert(comes_before(keys, b[i], b[k]));
        assert(a.contains(b[i]));
        let m = choose|m: int| 0 <= m < a.len() && a[m] == b[i];
        if m < i {
            assert(a[m] == b[m]);
        }
        assert(comes_before(keys, a[i], a[m]));
    }
}

/// Of a ranking cut off at any point, nothing that is left out is smaller than anything that is
/// kept.
pub proof fn law_nothing_smaller_is_left_out(
    keys: Seq<Float64>,
    order: Seq<int>,
    cut: int,
    kept: int,
    left_out: int,
)
    requires
        all_numbers(keys),
        is_ranking(order, keys),
        0 <= kept < cut <= left_out < keys.len(),
    ensures
        keys[order[kept]].le(keys[order[left_out]]),
{
    assert(comes_before(keys, order[kept], order[left_out]));
    assert(!keys[order[kept]].is_nan() && !keys[order[left_out]].is_nan());
}

} // verus!
