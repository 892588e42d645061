use vstd::prelude::*;
use crate::model::{pairs_view, KeyValue};
use crate::order::{sort_order_text, sorted_indices, strings_view, text_order};
use crate::text::{escaped, sanitized, write_escaped, write_sanitized_name};
use vstd::utf8::encode_utf8;

verus! {

/// The 64-bit hash that std's `DefaultHasher`, in its default state, gives for the byte
/// slice `bytes`: the slice's `Hash` feeds it a length prefix and then the bytes.
pub uninterp spec fn bytes_hash(bytes: Seq<u8>) -> u64;

/// Relies on std's `BuildHasher::hash_one` for `BuildHasherDefault<DefaultHasher>`, whose
/// hashers all start from the same documented state: the hash of the slice (its length,
/// then its bytes) depends on the bytes alone.
#[verifier::external_body]
fn hash_bytes(bytes: &[u8]) -> (r: u64)
    ensures
        r == bytes_hash(bytes@),
{
    std::hash::BuildHasher::hash_one(&std::hash::BuildHasherDefault::<std::hash::DefaultHasher>::default(), bytes)
}

/// The hash of one attribute: of its key's bytes followed by its value's bytes.
pub open spec fn kv_hash(kv: KeyValue) -> u64 {
    bytes_hash(encode_utf8(kv.key@) + encode_utf8(kv.value@))
}

fn push_bytes(out: &mut Vec<u8>, bytes: &[u8])
    ensures
        final(out)@ == old(out)@ + bytes@,
{
    let ghost start = out@;
    let mut i: usize = 0;
    while i < bytes.len()
        invariant
            i <= bytes@.len(),
            out@ == start + bytes@.take(i as int),
        decreases bytes@.len() - i,
    {
        out.push(bytes[i]);
        assert(out@ =~= start + bytes@.take(i + 1));
        i = i + 1;
    }
    assert(bytes@.take(i as int) =~= bytes@);
}

fn pair_hash(kv: &KeyValue) -> (r: u64)
    ensures
        r == kv_hash(*kv),
{
    let mut bytes: Vec<u8> = Vec::new();
    push_bytes(&mut bytes, kv.key.as_str().as_bytes());
    push_bytes(&mut bytes, kv.value.as_str().as_bytes());
    assert(bytes@ =~= encode_utf8(kv.key@) + encode_utf8(kv.value@));
    hash_bytes(bytes.as_slice())
}

/// The order key of an attribute set: the XOR of the hashes of its pairs.
pub open spec fn order_key(attrs: Seq<KeyValue>) -> u64
    decreases attrs.len(),
{
    if attrs.len() == 0 {
        0
    } else {
        order_key(attrs.drop_last()) ^ kv_hash(attrs.last())
    }
}

/// Computes the order key of `attrs`, which does not depend on the order of the pairs.
pub fn hash_attrs(attrs: &Vec<KeyValue>) -> (r: u64)
    ensures
        r == order_key(attrs@),
{
    let mut hash: u64 = 0;
    let mut i: usize = 0;
    while i < attrs.len()
        invariant
            i <= attrs@.len(),
            hash == order_key(attrs@.take(i as int)),
        decreases attrs@.len() - i,
    {
        let kv = &attrs[i];
        hash = hash ^ pair_hash(kv);
        assert(attrs@.take(i + 1).drop_last() =~= attrs@.take(i as int));
        i = i + 1;
    }
    assert(attrs@.take(i as int) =~= attrs@);
    hash
}

proof fn lemma_xor_swap(x: u64, y: u64, z: u64)
    ensures
        (x ^ y) ^ z == (x ^ z) ^ y,
{
    assert((x ^ y) ^ z == (x ^ z) ^ y) by (bit_vector);
}

proof fn lemma_order_key_remove(s: Seq<KeyValue>, j: int)
    requires
        0 <= j < s.len(),
    ensures
        order_key(s) == order_key(s.remove(j)) ^ kv_hash(s[j]),
    decreases s.len(),
{
    if j == s.len() - 1 {
        assert(s.remove(j) =~= s.drop_last());
    } else {
        let d = s.drop_last();
        lemma_order_key_remove(d, j);
        assert(s.remove(j).drop_last() =~= d.remove(j));
        assert(s.remove(j).last() == s.last());
        lemma_xor_swap(order_key(d.remove(j)), kv_hash(s[j]), kv_hash(s.last()));
    }
}

/// The order key is the same for any two orderings of the same pairs.
pub proof fn lemma_order_key_permutation(a: Seq<KeyValue>, b: Seq<KeyValue>)
    requires
        a.to_multiset() == b.to_multiset(),
    ensures
        order_key(a) == order_key(b),
    decreases a.len(),
{
    broadcast use vstd::seq_lib::group_to_multiset_ensures;

    if a.len() == 0 {
        assert(b.to_multiset().len() == 0);
        assert(b.len() == 0);
    } else {
        let x = a.last();
        assert(a.to_multiset().count(x) > 0) by {
            assert(a.contains(x)) by {
                assert(a[a.len() - 1] == x);
            }
        }
        assert(b.contains(x));
        let j = choose|j: int| 0 <= j < b.len() && b[j] == x;
        vstd::seq_lib::to_multiset_remove(a, a.len() - 1);
        vstd::seq_lib::to_multiset_remove(b, j);
        assert(a.remove(a.len() - 1) =~= a.drop_last());
        lemma_order_key_permutation(a.drop_last(), b.remove(j));
        lemma_order_key_remove(b, j);
    }
}

/// `key="value"` with the key sanitized and the value escaped.
pub open spec fn pair_text(kv: (Seq<char>, Seq<char>)) -> Seq<char> {
    sanitized(kv.0) + "=\""@ + escaped(kv.1) + "\""@
}

/// The pairs' texts joined by commas, in the given order.
pub open spec fn pair_list_text(ps: Seq<(Seq<char>, Seq<char>)>) -> Seq<char>
    decreases ps.len(),
{
    if ps.len() == 0 {
        seq![]
    } else if ps.len() == 1 {
        pair_text(ps[0])
    } else {
        pair_list_text(ps.drop_last()) + ","@ + pair_text(ps.last())
    }
}

pub open spec fn attr_keys(ps: Seq<(Seq<char>, Seq<char>)>) -> Seq<Seq<char>> {
    ps.map_values(|kv: (Seq<char>, Seq<char>)| kv.0)
}

/// The pairs in a stable order of ascending key.
pub open spec fn sorted_attrs(ps: Seq<(Seq<char>, Seq<char>)>) -> Seq<(Seq<char>, Seq<char>)> {
    sorted_indices(attr_keys(ps), text_order()).map_values(|i: int| ps[i])
}

/// The interior of a label set: the pairs sorted by their keys as given, before sanitizing.
pub open spec fn attrs_text(ps: Seq<(Seq<char>, Seq<char>)>) -> Seq<char> {
    pair_list_text(sorted_attrs(ps))
}

/// Appends the label set of `attrs` to `f`, without braces.
pub fn write_attrs(f: &mut String, attrs: &Vec<KeyValue>)
    ensures
        final(f)@ == old(f)@ + attrs_text(pairs_view(attrs@)),
{
    let ghost start = f@;
    let ghost ps = pairs_view(attrs@);
    let mut keys: Vec<String> = Vec::new();
    let mut i: usize = 0;
    while i < attrs.len()
        invariant
            i <= attrs@.len(),
            keys@.len() == i,
            ps == pairs_view(attrs@),
            strings_view(keys@) == attr_keys(ps).take(i as int),
        decreases attrs@.len() - i,
    {
        let ghost prev = keys@;
        keys.push(attrs[i].key.clone());
        assert forall|q: int| 0 <= q < i + 1 implies #[trigger] strings_view(keys@)[q] == attr_keys(ps).take(i + 1)[q] by {
            if q < i {
                assert(keys@[q] == prev[q]);
                assert(strings_view(prev)[q] == attr_keys(ps).take(i as int)[q]);
            }
        }
        assert(strings_view(keys@) =~= attr_keys(ps).take(i + 1));
        i = i + 1;
    }
    assert(strings_view(keys@) =~= attr_keys(ps));
    let order = sort_order_text(&keys);
    let ghost sorted = sorted_attrs(ps);
    assert(sorted.len() == order@.len());
    let mut k: usize = 0;
    while k < order.len()
        invariant
            k <= order@.len(),
            order@.len() == attrs@.len(),
            sorted.len() == order@.len(),
            forall|q: int| 0 <= q < order@.len() ==> #[trigger] order@[q] < attrs@.len(),
            forall|q: int| 0 <= q < order@.len() ==> #[trigger] sorted[q] == ps[order@[q] as int],
            ps == pairs_view(attrs@),
            f@ == start + pair_list_text(sorted.take(k as int)),
        decreases order@.len() - k,
    {
        let kv = &attrs[order[k]];
        if k > 0 {
            f.append(",");
        }
        write_sanitized_name(f, kv.key.as_str());
        f.append("=\"");
        write_escaped(f, kv.value.as_str());
        f.append("\"");
        proof {
            let t = sorted.take(k + 1);
            assert(t.last() == kv@);
            assert(t.drop_last() =~= sorted.take(k as int));
            if k == 0 {
                assert(sorted.take(0) =~= seq![]);
                assert(f@ =~= start + pair_list_text(t));
            } else {
                assert(f@ =~= start + pair_list_text(t));
            }
        }
        k = k + 1;
    }
    assert(sorted.take(k as int) =~= sorted);
}

} // verus!
