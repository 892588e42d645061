use vstd::prelude::*;
use crate::text::{bytes_less, less_than, text_less};

verus! {

/// Places index `i` into `order` before the first entry whose key `keys[i]` is less than,
/// so that entries with equal keys keep the order in which they were placed.
pub open spec fn place<K>(i: int, order: Seq<int>, keys: Seq<K>, less: spec_fn(K, K) -> bool) -> Seq<int>
    decreases order.len(),
{
    if order.len() == 0 {
        seq![i]
    } else if less(keys[i], keys[order[0]]) {
        seq![i] + order
    } else {
        seq![order[0]] + place(i, order.drop_first(), keys, less)
    }
}

/// The indices `0..n` of `keys` in a stable order of ascending key.
pub open spec fn sort_order<K>(keys: Seq<K>, n: nat, less: spec_fn(K, K) -> bool) -> Seq<int>
    decreases n,
{
    if n == 0 {
        seq![]
    } else {
        place((n - 1) as int, sort_order(keys, (n - 1) as nat, less), keys, less)
    }
}

/// All indices of `keys` in a stable order of ascending key.
pub open spec fn sorted_indices<K>(keys: Seq<K>, less: spec_fn(K, K) -> bool) -> Seq<int> {
    sort_order(keys, keys.len(), less)
}

pub open spec fn u64_less() -> spec_fn(u64, u64) -> bool {
    |a: u64, b: u64| a < b
}

pub open spec fn text_order() -> spec_fn(Seq<char>, Seq<char>) -> bool {
    |a: Seq<char>, b: Seq<char>| text_less(a, b)
}

pub open spec fn as_ints(v: Seq<usize>) -> Seq<int> {
    v.map_values(|x: usize| x as int)
}

pub open spec fn strings_view(v: Seq<String>) -> Seq<Seq<char>> {
    v.map_values(|s: String| s@)
}

proof fn lemma_place_at<K>(i: int, order: Seq<int>, keys: Seq<K>, less: spec_fn(K, K) -> bool, p: int)
    requires
        0 <= p <= order.len(),
        forall|q: int| 0 <= q < p ==> !less(keys[i], keys[#[trigger] order[q]]),
        p == order.len() || less(keys[i], keys[order[p]]),
    ensures
        place(i, order, keys, less) == order.insert(p, i),
    decreases p,
{
    if p == 0 {
        if order.len() == 0 {
            assert(order.insert(0, i) =~= seq![i]);
        } else {
            assert(order.insert(0, i) =~= seq![i] + order);
        }
    } else {
        let t = order.drop_first();
        assert forall|q: int| 0 <= q < p - 1 implies !less(keys[i], keys[#[trigger] t[q]]) by {
            assert(t[q] == order[q + 1]);
        }
        assert(!less(keys[i], keys[order[0]]));
        if p - 1 < t.len() {
            assert(t[p - 1] == order[p]);
        }
        lemma_place_at(i, t, keys, less, p - 1);
        assert(order.insert(p, i) =~= seq![order[0]] + t.insert(p - 1, i));
    }
}

proof fn lemma_place_is_insert<K>(i: int, order: Seq<int>, keys: Seq<K>, less: spec_fn(K, K) -> bool)
    ensures
        exists|p: int| 0 <= p <= order.len() && place(i, order, keys, less) == #[trigger] order.insert(p, i),
    decreases order.len(),
{
    if order.len() == 0 {
        assert(place(i, order, keys, less) =~= order.insert(0, i));
    } else if less(keys[i], keys[order[0]]) {
        assert(place(i, order, keys, less) =~= order.insert(0, i));
    } else {
        let t = order.drop_first();
        lemma_place_is_insert(i, t, keys, less);
        let p = choose|p: int| 0 <= p <= t.len() && place(i, t, keys, less) == #[trigger] t.insert(p, i);
        assert(order.insert(p + 1, i) =~= seq![order[0]] + t.insert(p, i));
    }
}

/// `sort_order(keys, n, less)` holds each of `0..n` exactly once.
pub proof fn lemma_sort_order_indices<K>(keys: Seq<K>, n: nat, less: spec_fn(K, K) -> bool)
    ensures
        sort_order(keys, n, less).len() == n,
        forall|k: int| 0 <= k < n ==> 0 <= #[trigger] sort_order(keys, n, less)[k] < n,
        sort_order(keys, n, less).no_duplicates(),
    decreases n,
{
    if n > 0 {
        let o = sort_order(keys, (n - 1) as nat, less);
        lemma_sort_order_indices(keys, (n - 1) as nat, less);
        lemma_place_is_insert(n - 1, o, keys, less);
        let p = choose|p: int| 0 <= p <= o.len() && place(n - 1, o, keys, less) == #[trigger] o.insert(p, n - 1);
        let r = o.insert(p, n - 1);
        assert(sort_order(keys, n, less) == r);
        assert forall|k: int| 0 <= k < n implies 0 <= #[trigger] r[k] < n by {
            if k < p {
                assert(r[k] == o[k]);
            } else if k > p {
                assert(r[k] == o[k - 1]);
            }
        }
        assert forall|a: int, b: int| 0 <= a < r.len() && 0 <= b < r.len() && a != b implies r[a] != r[b] by {
            if a != p && b != p {
                let a1 = if a < p { a } else { a - 1 };
                let b1 = if b < p { b } else { b - 1 };
                assert(r[a] == o[a1] && r[b] == o[b1]);
            } else if a == p {
                let b1 = if b < p { b } else { b - 1 };
                assert(r[b] == o[b1]);
            } else {
                let a1 = if a < p { a } else { a - 1 };
                assert(r[a] == o[a1]);
            }
        }
    }
}

/// The indices of `keys` in a stable order of ascending value.
pub fn sort_order_u64(keys: &Vec<u64>) -> (r: Vec<usize>)
    ensures
        as_ints(r@) == sorted_indices(keys@, u64_less()),
        r@.len() == keys@.len(),
        forall|k: int| 0 <= k < r@.len() ==> #[trigger] r@[k] < keys@.len(),
{
    let mut order: Vec<usize> = Vec::new();
    let n = keys.len();
    let mut i: usize = 0;
    assert(as_ints(order@) =~= seq![]);
    while i < n
        invariant
            n == keys@.len(),
            i <= n,
            as_ints(order@) == sort_order(keys@, i as nat, u64_less()),
            order@.len() == i,
            forall|k: int| 0 <= k < order@.len() ==> #[trigger] order@[k] < i,
        decreases n - i,
    {
        let mut p: usize = 0;
        while p < order.len() && !(keys[i] < keys[order[p]])
            invariant
                p <= order@.len(),
                i < n,
                n == keys@.len(),
                forall|k: int| 0 <= k < order@.len() ==> #[trigger] order@[k] < i,
                forall|q: int| 0 <= q < p ==> !(keys@[i as int] < keys@[#[trigger] order@[q] as int]),
            decreases order@.len() - p,
        {
            p = p + 1;
        }
        let ghost o = as_ints(order@);
        let ghost before = order@;
        proof {
            assert forall|q: int| 0 <= q < p implies !u64_less()(keys@[i as int], keys@[#[trigger] o[q]]) by {
                assert(o[q] == order@[q] as int);
            }
            if p < order@.len() {
                assert(o[p as int] == order@[p as int] as int);
            }
            lemma_place_at(i as int, o, keys@, u64_less(), p as int);
        }
        order.insert(p, i);
        proof {
            assert(as_ints(order@) =~= o.insert(p as int, i as int));
        }
        i = i + 1;
        assert forall|k: int| 0 <= k < order@.len() implies #[trigger] order@[k] < i by {
            if k < p {
                assert(order@[k] == before[k]);
            } else if k > p {
                assert(order@[k] == before[k - 1]);
            }
        }
    }
    order
}

/// The indices of `keys` in a stable order of ascending text.
pub fn sort_order_text(keys: &Vec<String>) -> (r: Vec<usize>)
    ensures
        as_ints(r@) == sorted_indices(strings_view(keys@), text_order()),
        r@.len() == keys@.len(),
        forall|k: int| 0 <= k < r@.len() ==> #[trigger] r@[k] < keys@.len(),
{
    let ghost ks = strings_view(keys@);
    let mut order: Vec<usize> = Vec::new();
    let n = keys.len();
    let mut i: usize = 0;
    assert(as_ints(order@) =~= seq![]);
    while i < n
        invariant
            n == keys@.len(),
            ks == strings_view(keys@),
            i <= n,
            as_ints(order@) == sort_order(ks, i as nat, text_order()),
            order@.len() == i,
            forall|k: int| 0 <= k < order@.len() ==> #[trigger] order@[k] < i,
        decreases n - i,
    {
        let mut p: usize = 0;
        while p < order.len() && !less_than(keys[i].as_str(), keys[order[p]].as_str())
            invariant
                p <= order@.len(),
                i < n,
                n == keys@.len(),
                ks == strings_view(keys@),
                forall|k: int| 0 <= k < order@.len() ==> #[trigger] order@[k] < i,
                forall|q: int| 0 <= q < p ==> !text_less(ks[i as int], ks[#[trigger] order@[q] as int]),
            decreases order@.len() - p,
        {
            p = p + 1;
        }
        let ghost o = as_ints(order@);
        let ghost before = order@;
        proof {
            assert forall|q: int| 0 <= q < p implies !text_order()(ks[i as int], ks[#[trigger] o[q]]) by {
                assert(o[q] == order@[q] as int);
            }
            if p < order@.len() {
                assert(o[p as int] == order@[p as int] as int);
            }
            lemma_place_at(i as int, o, ks, text_order(), p as int);
        }
        order.insert(p, i);
        proof {
            assert(as_ints(order@) =~= o.insert(p as int, i as int));
        }
        i = i + 1;
        assert forall|k: int| 0 <= k < order@.len() implies #[trigger] order@[k] < i by {
            if k < p {
                assert(order@[k] == before[k]);
            } else if k > p {
                assert(order@[k] == before[k - 1]);
            }
        }
    }
    order
}

/// `less` never holds both ways round.
pub open spec fn asymmetric<K>(less: spec_fn(K, K) -> bool) -> bool {
    forall|a: K, b: K| #[trigger] less(a, b) ==> !less(b, a)
}

/// Along `order`, no key is less than the one before it, and of two neighbours with
/// keys that are not less either way, the one placed first has the smaller index.
pub open spec fn ascending_and_stable<K>(keys: Seq<K>, order: Seq<int>, less: spec_fn(K, K) -> bool) -> bool {
    forall|k: int|
        0 <= k < order.len() - 1 ==> {
            &&& !less(keys[order[k + 1]], keys[#[trigger] order[k]])
            &&& (!less(keys[order[k]], keys[order[k + 1]]) ==> order[k] < order[k + 1])
        }
}

proof fn lemma_place_ordered<K>(i: int, order: Seq<int>, keys: Seq<K>, less: spec_fn(K, K) -> bool)
    requires
        asymmetric(less),
        ascending_and_stable(keys, order, less),
        forall|k: int| 0 <= k < order.len() ==> #[trigger] order[k] < i,
    ensures
        ascending_and_stable(keys, place(i, order, keys, less), less),
        place(i, order, keys, less).len() > 0,
        place(i, order, keys, less)[0] == i || (order.len() > 0 && place(i, order, keys, less)[0] == order[0]),
    decreases order.len(),
{
    let r = place(i, order, keys, less);
    if order.len() == 0 {
    } else if less(keys[i], keys[order[0]]) {
        assert(r == seq![i] + order);
        assert(!less(keys[order[0]], keys[i]));
        assert forall|k: int| 0 <= k < r.len() - 1 implies {
            &&& !less(keys[r[k + 1]], keys[#[trigger] r[k]])
            &&& (!less(keys[r[k]], keys[r[k + 1]]) ==> r[k] < r[k + 1])
        } by {
            if k > 0 {
                assert(r[k] == order[k - 1] && r[k + 1] == order[k]);
            }
        }
    } else {
        let t = order.drop_first();
        assert forall|k: int| 0 <= k < t.len() implies #[trigger] t[k] < i by {
            assert(t[k] == order[k + 1]);
        }
        assert forall|k: int| 0 <= k < t.len() - 1 implies {
            &&& !less(keys[t[k + 1]], keys[#[trigger] t[k]])
            &&& (!less(keys[t[k]], keys[t[k + 1]]) ==> t[k] < t[k + 1])
        } by {
            assert(t[k] == order[k + 1] && t[k + 1] == order[k + 2]);
        }
        lemma_place_ordered(i, t, keys, less);
        let q = place(i, t, keys, less);
        assert(r == seq![order[0]] + q);
        assert forall|k: int| 0 <= k < r.len() - 1 implies {
            &&& !less(keys[r[k + 1]], keys[#[trigger] r[k]])
            &&& (!less(keys[r[k]], keys[r[k + 1]]) ==> r[k] < r[k + 1])
        } by {
            if k > 0 {
                assert(r[k] == q[k - 1] && r[k + 1] == q[k]);
            } else {
                assert(r[0] == order[0] && r[1] == q[0]);
                if q[0] != i {
                    assert(q[0] == order[1]);
                }
            }
        }
    }
}

/// A stable sort: the indices of `sorted_indices` come in ascending order of key, and
/// indices with keys that are not less either way keep their order.
pub proof fn lemma_sorted_indices_ordered<K>(keys: Seq<K>, less: spec_fn(K, K) -> bool)
    requires
        asymmetric(less),
    ensures
        ascending_and_stable(keys, sorted_indices(keys, less), less),
{
    lemma_sort_order_ordered(keys, keys.len(), less);
}

proof fn lemma_sort_order_ordered<K>(keys: Seq<K>, n: nat, less: spec_fn(K, K) -> bool)
    requires
        asymmetric(less),
    ensures
        ascending_and_stable(keys, sort_order(keys, n, less), less),
    decreases n,
{
    if n > 0 {
        let o = sort_order(keys, (n - 1) as nat, less);
        lemma_sort_order_ordered(keys, (n - 1) as nat, less);
        lemma_sort_order_indices(keys, (n - 1) as nat, less);
        assert forall|k: int| 0 <= k < o.len() implies #[trigger] o[k] < n - 1 by {}
        lemma_place_ordered(n - 1, o, keys, less);
    }
}

proof fn lemma_bytes_less_asymmetric(a: Seq<u8>, b: Seq<u8>)
    ensures
        bytes_less(a, b) ==> !bytes_less(b, a),
    decreases a.len(),
{
    if a.len() > 0 && b.len() > 0 && a[0] == b[0] {
        lemma_bytes_less_asymmetric(a.drop_first(), b.drop_first());
    }
}

/// The order of strings never holds both ways round.
pub proof fn lemma_text_order_asymmetric()
    ensures
        asymmetric(text_order()),
{
    assert forall|a: Seq<char>, b: Seq<char>| #[trigger] text_order()(a, b) implies !text_order()(b, a) by {
        lemma_bytes_less_asymmetric(vstd::utf8::encode_utf8(a), vstd::utf8::encode_utf8(b));
    }
}

/// The order of integers never holds both ways round.
pub proof fn lemma_u64_less_asymmetric()
    ensures
        asymmetric(u64_less()),
{
}

} // verus!
