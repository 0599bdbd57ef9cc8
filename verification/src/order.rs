//! Stable ordering by an integer key: the one order in which the keys do not
//! decrease and equal keys stay as they came.

use vstd::prelude::*;

verus! {

/// Whether position `a` comes before position `b` in the stable order of `keys`:
/// its key is smaller, or the keys are equal and `a` came first.
pub open spec fn comes_before(keys: Seq<i128>, a: int, b: int) -> bool {
    keys[a] < keys[b] || (keys[a] == keys[b] && a < b)
}

/// Whether `order` lists the first `upto` positions of `keys`, each once, in
/// stable order.
pub open spec fn is_stable_order_of(order: Seq<usize>, keys: Seq<i128>, upto: int) -> bool {
    &&& order.len() == upto
    &&& forall|i: int| 0 <= i < order.len() ==> (#[trigger] order[i]) < upto
    &&& forall|k: usize| k < upto ==> #[trigger] order.contains(k)
    &&& forall|i: int, j: int|
        0 <= i < j < order.len() ==> comes_before(
            keys,
            #[trigger] order[i] as int,
            #[trigger] order[j] as int,
        )
}

/// Whether `order` lists the positions of `keys`, each once, in stable order.
pub open spec fn is_stable_order(order: Seq<usize>, keys: Seq<i128>) -> bool {
    is_stable_order_of(order, keys, keys.len() as int)
}

/// The stable order of `keys`.
pub open spec fn the_stable_order(keys: Seq<i128>) -> Seq<usize> {
    choose|order: Seq<usize>| is_stable_order(order, keys)
}

/// `items` in the stable order of `keys`, which has a key for each item.
pub open spec fn in_stable_order<T>(items: Seq<T>, keys: Seq<i128>) -> Seq<T> {
    Seq::new(items.len(), |i: int| items[the_stable_order(keys)[i] as int])
}

/// There is one stable order only.
pub proof fn lemma_stable_order_unique(first: Seq<usize>, second: Seq<usize>, keys: Seq<i128>)
    requires
        is_stable_order(first, keys),
        is_stable_order(second, keys),
    ensures
        first == second,
{
    assert forall|i: int| 0 <= i < first.len() implies first[i] == second[i] by {
        lemma_same_rank(first, second, keys, i);
    }
    assert(first =~= second);
}

/// The position that stands at rank `rank` in one stable order stands at the same
/// rank in every other.
proof fn lemma_same_rank(first: Seq<usize>, second: Seq<usize>, keys: Seq<i128>, rank: int)
    requires
        is_stable_order(first, keys),
        is_stable_order(second, keys),
        0 <= rank < first.len(),
    ensures
        first[rank] == second[rank],
    decreases rank,
{
    if rank > 0 {
        lemma_same_rank(first, second, keys, rank - 1);
    }
    assert forall|r: int| 0 <= r < rank implies first[r] == second[r] by {
        lemma_same_rank(first, second, keys, r);
    }
    // Where each order has the other's choice for this rank.
    let a = first[rank];
    let b = second[rank];
    assert(second.contains(a));
    assert(first.contains(b));
    let in_second = choose|r: int| 0 <= r < second.len() && second[r] == a;
    let in_first = choose|r: int| 0 <= r < first.len() && first[r] == b;
    if a != b {
        if in_second < rank {
            assert(first[in_second] == second[in_second]);
            assert(comes_before(keys, first[in_second] as int, first[rank] as int));
        }
        if in_first < rank {
            assert(first[in_first] == second[in_first]);
            assert(comes_before(keys, second[in_first] as int, second[rank] as int));
        }
        assert(comes_before(keys, second[rank] as int, second[in_second] as int));
        assert(comes_before(keys, first[rank] as int, first[in_first] as int));
    }
}

/// The positions of `keys` in stable order.
pub fn stable_order(keys: &Vec<i128>) -> (order: Vec<usize>)
    ensures
        is_stable_order(order@, keys@),
        order@ == the_stable_order(keys@),
{
    let mut order: Vec<usize> = Vec::new();
    let mut next: usize = 0;
    while next < keys.len()
        invariant
            next <= keys.len(),
            is_stable_order_of(order@, keys@, next as int),
        decreases keys.len() - next,
    {
        let mut at: usize = order.len();
        while at > 0 && keys[order[at - 1]] > keys[next]
            invariant
                at <= order.len(),
                next < keys.len(),
                is_stable_order_of(order@, keys@, next as int),
                forall|j: int| at <= j < order.len() ==> keys@[order@[j] as int] > keys@[next as int],
            decreases at,
        {
            at -= 1;
        }
        let ghost before = order@;
        order.insert(at, next);
        proof {
            let after = order@;
            assert forall|k: usize| k < next + 1 implies #[trigger] after.contains(k) by {
                if k == next {
                    assert(after[at as int] == next);
                } else {
                    assert(before.contains(k));
                    let was = choose|r: int| 0 <= r < before.len() && before[r] == k;
                    if was < at {
                        assert(after[was] == k);
                    } else {
                        assert(after[was + 1] == k);
                    }
                }
            }
            assert forall|i: int, j: int| 0 <= i < j < after.len() implies comes_before(
                keys@,
                #[trigger] after[i] as int,
                #[trigger] after[j] as int,
            ) by {
                let from_i = if i < at { i } else { i - 1 };
                let from_j = if j < at { j } else { j - 1 };
                if i == at {
                    assert(after[j] == before[from_j]);
                } else if j == at {
                    assert(after[i] == before[from_i]);
                    if at > 0 {
                        assert(keys@[before[at - 1] as int] <= keys@[next as int]);
                        if i < at - 1 {
                            assert(comes_before(keys@, before[i] as int, before[at - 1] as int));
                        }
                    }
                } else {
                    assert(after[i] == before[from_i] && after[j] == before[from_j]);
                    assert(comes_before(keys@, before[from_i] as int, before[from_j] as int));
                }
            }
        }
        next += 1;
    }
    proof {
        assert(is_stable_order(order@, keys@));
        assert(is_stable_order(the_stable_order(keys@), keys@));
        lemma_stable_order_unique(order@, the_stable_order(keys@), keys@);
    }
    order
}

} // verus!
