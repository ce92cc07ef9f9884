use vstd::prelude::*;

verus! {

/// Element `a` comes before element `b` when sorting stably by `keys`: its key
/// is smaller, or the keys are equal and it came first.
pub open spec fn key_before(keys: Seq<u32>, a: int, b: int) -> bool {
    keys[a] < keys[b] || (keys[a] == keys[b] && a < b)
}

/// `order` lists every position of `keys` once, by ascending key, with equal
/// keys in their original order: the order a stable sort by key produces.
pub open spec fn stably_sorts(keys: Seq<u32>, order: Seq<usize>) -> bool {
    &&& order.len() == keys.len()
    &&& forall|i: int| 0 <= i < order.len() ==> #[trigger] order[i] < keys.len()
    &&& forall|k: usize| k < keys.len() ==> #[trigger] order.contains(k)
    &&& forall|i: int, j: int| 0 <= i < j < order.len() ==> key_before(keys, #[trigger] order[i] as int, #[trigger] order[j] as int)
}

/// The positions of a stable sort of `keys`, in sorted order.
pub fn stable_order(keys: &Vec<u32>) -> (order: Vec<usize>)
    ensures
        stably_sorts(keys@, order@),
{
    let n = keys.len();
    let mut order: Vec<usize> = Vec::new();
    let mut i: usize = 0;
    while i < n
        invariant
            i <= n,
            n == keys@.len(),
            order@.len() == i,
            forall|q: int| 0 <= q < order@.len() ==> #[trigger] order@[q] < i,
            forall|k: usize| k < i ==> #[trigger] order@.contains(k),
            forall|a: int, b: int| 0 <= a < b < order@.len() ==> key_before(keys@, #[trigger] order@[a] as int, #[trigger] order@[b] as int),
        decreases n - i,
    {
        let key = keys[i];
        let mut p: usize = 0;
        while p < order.len() && keys[order[p]] <= key
            invariant
                p <= order@.len(),
                order@.len() == i,
                i < n,
                n == keys@.len(),
                key == keys@[i as int],
                forall|q: int| 0 <= q < order@.len() ==> #[trigger] order@[q] < i,
                forall|q: int| 0 <= q < p ==> keys@[#[trigger] order@[q] as int] <= key,
            decreases order@.len() - p,
        {
            p = p + 1;
        }
        let ghost before = order@;
        proof {
            // everything from position p on has a larger key than element i
            assert forall|q: int| p <= q < before.len() implies keys@[#[trigger] before[q] as int] > key by {
                if q > p {
                    assert(key_before(keys@, before[p as int] as int, before[q] as int));
                }
            }
        }
        order.insert(p, i);
        proof {
            let after = order@;
            assert(after =~= before.insert(p as int, i));
            assert forall|a: int, b: int| 0 <= a < b < after.len() implies key_before(keys@, #[trigger] after[a] as int, #[trigger] after[b] as int) by {
                if b < p {
                    assert(after[a] == before[a] && after[b] == before[b]);
                } else if b == p {
                    assert(after[a] == before[a]);
                } else if a < p {
                    assert(after[a] == before[a] && after[b] == before[b - 1]);
                    assert(keys@[before[b - 1] as int] > key);
                } else if a == p {
                    assert(after[b] == before[b - 1]);
                    assert(keys@[before[b - 1] as int] > key);
                } else {
                    assert(after[a] == before[a - 1] && after[b] == before[b - 1]);
                }
            }
            assert forall|k: usize| k < i + 1 implies #[trigger] after.contains(k) by {
                if k == i {
                    assert(after[p as int] == i);
                } else {
                    assert(before.contains(k));
                    let w = choose|q: int| 0 <= q < before.len() && before[q] == k;
                    if w < p {
                        assert(after[w] == before[w]);
                    } else {
                        assert(after[w + 1] == before[w]);
                    }
                }
            }
            assert forall|q: int| 0 <= q < after.len() implies #[trigger] after[q] < i + 1 by {
                if q < p {
                    assert(after[q] == before[q]);
                } else if q > p {
                    assert(after[q] == before[q - 1]);
                }
            }
        }
        i = i + 1;
    }
    order
}

/// There is only one stable sorted order of a key list.
pub proof fn lemma_stable_order_unique(keys: Seq<u32>, o1: Seq<usize>, o2: Seq<usize>)
    requires
        stably_sorts(keys, o1),
        stably_sorts(keys, o2),
    ensures
        o1 == o2,
{
    assert forall|i: int| 0 <= i < o1.len() implies o1[i] == o2[i] by {
        lemma_stable_order_agree_at(keys, o1, o2, i);
    }
    assert(o1 =~= o2);
}

proof fn lemma_stable_order_agree_at(keys: Seq<u32>, o1: Seq<usize>, o2: Seq<usize>, i: int)
    requires
        stably_sorts(keys, o1),
        stably_sorts(keys, o2),
        0 <= i < o1.len(),
    ensures
        o1[i] == o2[i],
    decreases i,
{
    // the two orders agree before position i
    assert forall|j: int| 0 <= j < i implies o1[j] == o2[j] by {
        lemma_stable_order_agree_at(keys, o1, o2, j);
    }
    let a = o1[i];
    let b = o2[i];
    if a != b {
        if key_before(keys, a as int, b as int) {
            // a sits somewhere in o2; not before i, where o2 repeats o1
            assert(o2.contains(a));
            let j = choose|j: int| 0 <= j < o2.len() && o2[j] == a;
            if j < i {
                assert(o1[j] == a);
                assert(key_before(keys, o1[j] as int, o1[i] as int));
            } else {
                assert(key_before(keys, o2[i] as int, o2[j] as int));
            }
        } else {
            assert(key_before(keys, b as int, a as int));
            assert(o1.contains(b));
            let j = choose|j: int| 0 <= j < o1.len() && o1[j] == b;
            if j < i {
                assert(o2[j] == b);
                assert(key_before(keys, o2[j] as int, o2[i] as int));
            } else {
                assert(key_before(keys, o1[i] as int, o1[j] as int));
            }
        }
    }
}

/// Keys that are already in ascending order are stably sorted by leaving
/// every element where it is.
pub proof fn lemma_sorted_keys_keep_order(keys: Seq<u32>, order: Seq<usize>)
    requires
        keys.len() <= usize::MAX,
        forall|i: int, j: int| 0 <= i <= j < keys.len() ==> keys[i] <= keys[j],
        stably_sorts(keys, order),
    ensures
        forall|i: int| 0 <= i < order.len() ==> order[i] == i,
{
    let id = Seq::new(keys.len(), |i: int| i as usize);
    assert forall|i: int, j: int| 0 <= i < j < id.len() implies key_before(keys, #[trigger] id[i] as int, #[trigger] id[j] as int) by {
        assert(id[i] as int == i && id[j] as int == j);
        assert(keys[i] <= keys[j]);
    }
    assert forall|k: usize| k < keys.len() implies #[trigger] id.contains(k) by {
        assert(id[k as int] == k);
    }
    assert(stably_sorts(keys, id));
    lemma_stable_order_unique(keys, order, id);
}

/// The keys read in sorted order never decrease.
pub proof fn lemma_sorted_keys_ascend(keys: Seq<u32>, order: Seq<usize>, i: int, j: int)
    requires
        stably_sorts(keys, order),
        0 <= i <= j < order.len(),
    ensures
        keys[order[i] as int] <= keys[order[j] as int],
{
    if i < j {
        assert(key_before(keys, order[i] as int, order[j] as int));
    }
}

} // verus!
