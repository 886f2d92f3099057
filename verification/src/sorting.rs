//! Stable sorting of listings by a key made of a group rank and a text,
//! compared as `str` compares: character by character by code point, a
//! proper prefix first.

use vstd::prelude::*;

verus! {

/// `a` comes strictly before `b` in the lexicographic order of code points.
pub open spec fn text_lt(a: Seq<char>, b: Seq<char>) -> bool
    decreases a.len(),
{
    if a.len() == 0 {
        b.len() > 0
    } else if b.len() == 0 {
        false
    } else if a[0] != b[0] {
        (a[0] as u32) < (b[0] as u32)
    } else {
        text_lt(a.drop_first(), b.drop_first())
    }
}

proof fn lemma_text_lt_irreflexive(a: Seq<char>)
    ensures
        !text_lt(a, a),
    decreases a.len(),
{
    if a.len() > 0 {
        lemma_text_lt_irreflexive(a.drop_first());
    }
}

proof fn lemma_text_lt_transitive(a: Seq<char>, b: Seq<char>, c: Seq<char>)
    requires
        text_lt(a, b),
        text_lt(b, c),
    ensures
        text_lt(a, c),
    decreases a.len(),
{
    if a.len() > 0 && b.len() > 0 && c.len() > 0 {
        if a[0] == b[0] && b[0] == c[0] {
            lemma_text_lt_transitive(a.drop_first(), b.drop_first(), c.drop_first());
        }
    }
}

proof fn lemma_text_lt_total(a: Seq<char>, b: Seq<char>)
    requires
        a != b,
    ensures
        text_lt(a, b) || text_lt(b, a),
    decreases a.len(),
{
    if a.len() == 0 && b.len() == 0 {
        assert(a =~= b);
    } else if a.len() > 0 && b.len() > 0 && a[0] == b[0] {
        if a.drop_first() =~= b.drop_first() {
            assert forall|k: int| 0 <= k < a.len() implies a[k] == b[k] by {
                if k > 0 {
                    assert(a[k] == a.drop_first()[k - 1]);
                    assert(b[k] == b.drop_first()[k - 1]);
                }
            }
            assert(a =~= b);
        }
        lemma_text_lt_total(a.drop_first(), b.drop_first());
    } else if a.len() > 0 && b.len() > 0 {
        vstd::utf8::char_u32_cast(a[0], a[0] as u32);
        vstd::utf8::char_u32_cast(b[0], b[0] as u32);
        assert((a[0] as u32) != (b[0] as u32));
    }
}

/// Sort key of one entry: entries of a smaller `rank` come first, then by `text`.
pub struct SortKey {
    pub rank: u8,
    pub text: Vec<char>,
}

/// The value of a sort key.
pub open spec fn key_view(k: SortKey) -> (u8, Seq<char>) {
    (k.rank, k.text@)
}

/// Key `a` sorts strictly before key `b`.
pub open spec fn key_before(a: (u8, Seq<char>), b: (u8, Seq<char>)) -> bool {
    a.0 < b.0 || (a.0 == b.0 && text_lt(a.1, b.1))
}

proof fn lemma_key_before_transitive(a: (u8, Seq<char>), b: (u8, Seq<char>), c: (u8, Seq<char>))
    requires
        key_before(a, b),
        key_before(b, c),
    ensures
        key_before(a, c),
{
    if a.0 == b.0 && b.0 == c.0 {
        lemma_text_lt_transitive(a.1, b.1, c.1);
    }
}

proof fn lemma_key_before_total(a: (u8, Seq<char>), b: (u8, Seq<char>))
    requires
        a != b,
    ensures
        key_before(a, b) || key_before(b, a),
{
    if a.0 == b.0 {
        if a.1 == b.1 {
            assert(a == b);
        }
        lemma_text_lt_total(a.1, b.1);
    }
}

proof fn lemma_key_before_irreflexive(a: (u8, Seq<char>))
    ensures
        !key_before(a, a),
{
    lemma_text_lt_irreflexive(a.1);
}

/// The order of sort keys is a strict total order: no key sorts before
/// itself, sorting before is transitive, and of two different keys one sorts
/// before the other. A sorted listing is therefore determined up to the
/// order of entries with equal keys.
pub proof fn key_order_is_strict_total(a: (u8, Seq<char>), b: (u8, Seq<char>), c: (u8, Seq<char>))
    ensures
        !key_before(a, a),
        key_before(a, b) && key_before(b, c) ==> key_before(a, c),
        a != b ==> key_before(a, b) || key_before(b, a),
{
    lemma_key_before_irreflexive(a);
    if key_before(a, b) && key_before(b, c) {
        lemma_key_before_transitive(a, b, c);
    }
    if a != b {
        lemma_key_before_total(a, b);
    }
}

/// Whether key `a` sorts strictly before key `b`.
pub fn sorts_before(a: &SortKey, b: &SortKey) -> (r: bool)
    ensures
        r == key_before(key_view(*a), key_view(*b)),
{
    if a.rank != b.rank {
        return a.rank < b.rank;
    }
    let ta = &a.text;
    let tb = &b.text;
    let mut i: usize = 0;
    assert(ta@.skip(0) =~= ta@);
    assert(tb@.skip(0) =~= tb@);
    while i < ta.len() && i < tb.len() && ta[i] == tb[i]
        invariant
            i <= ta@.len() && i <= tb@.len(),
            text_lt(ta@, tb@) == text_lt(ta@.skip(i as int), tb@.skip(i as int)),
        decreases ta.len() - i,
    {
        proof {
            assert(ta@.skip(i as int).drop_first() =~= ta@.skip(i + 1));
            assert(tb@.skip(i as int).drop_first() =~= tb@.skip(i + 1));
        }
        i = i + 1;
    }
    proof {
        assert(ta@.skip(i as int).len() == ta@.len() - i);
        if i < ta@.len() {
            assert(ta@.skip(i as int)[0] == ta@[i as int]);
        }
        if i < tb@.len() {
            assert(tb@.skip(i as int)[0] == tb@[i as int]);
        }
    }
    if i == ta.len() {
        i < tb.len()
    } else if i == tb.len() {
        false
    } else {
        let ca = ta[i];
        let cb = tb[i];
        (ca as u32) < (cb as u32)
    }
}

/// `idx` arranges the entries with keys `keys` into their stable sorted
/// order: it lists every position once, keys never decrease along it, and
/// entries with equal keys keep their original relative order.
pub open spec fn stable_arrangement(keys: Seq<(u8, Seq<char>)>, idx: Seq<int>) -> bool {
    &&& idx.len() == keys.len()
    &&& forall|k: int| 0 <= k < idx.len() ==> 0 <= #[trigger] idx[k] < keys.len()
    &&& forall|k: int, l: int| 0 <= k < l < idx.len() ==> #[trigger] idx[k] != #[trigger] idx[l]
    &&& forall|k: int, l: int|
        0 <= k < l < idx.len() ==> !key_before(keys[#[trigger] idx[l]], keys[#[trigger] idx[k]])
    &&& forall|k: int, l: int|
        0 <= k < l < idx.len() && keys[#[trigger] idx[k]] == keys[#[trigger] idx[l]] ==> idx[k]
            < idx[l]
}

/// The values of a sequence of keys.
pub open spec fn key_views(keys: Seq<SortKey>) -> Seq<(u8, Seq<char>)> {
    keys.map_values(|k: SortKey| key_view(k))
}

/// Sorts `items` by `keys` (one key per item), stably: the result is the
/// items in the order of some `stable_arrangement` of their keys.
pub fn stable_sort_by_key<T>(items: Vec<T>, keys: Vec<SortKey>) -> (r: Vec<T>)
    requires
        items@.len() == keys@.len(),
    ensures
        exists|idx: Seq<int>|
            stable_arrangement(key_views(keys@), idx) && r@.len() == idx.len() && forall|k: int|
                0 <= k < idx.len() ==> r@[k] == items@[#[trigger] idx[k]],
{
    let ghost all_keys = key_views(keys@);
    let ghost all_items = items@;
    let n = items.len();
    let mut rest_items = items;
    let mut rest_keys = keys;
    let mut out_items: Vec<T> = Vec::new();
    let mut out_keys: Vec<SortKey> = Vec::new();
    let ghost mut idx: Seq<int> = Seq::empty();
    let mut i: usize = 0;
    while i < n
        invariant
            n == all_items.len(),
            all_keys.len() == n,
            all_keys == key_views(keys@),
            i <= n,
            rest_items@ == all_items.subrange(i as int, n as int),
            key_views(rest_keys@) == all_keys.subrange(i as int, n as int),
            rest_keys@.len() == n - i,
            out_items@.len() == i && out_keys@.len() == i && idx.len() == i,
            forall|k: int| 0 <= k < i ==> 0 <= #[trigger] idx[k] < i,
            forall|k: int, l: int| 0 <= k < l < i ==> #[trigger] idx[k] != #[trigger] idx[l],
            forall|k: int| 0 <= k < i ==> out_items@[k] == all_items[#[trigger] idx[k]],
            forall|k: int| 0 <= k < i ==> key_view(out_keys@[k]) == all_keys[#[trigger] idx[k]],
            forall|k: int, l: int|
                0 <= k < l < i ==> !key_before(all_keys[#[trigger] idx[l]], all_keys[#[trigger] idx[k]]),
            forall|k: int, l: int|
                0 <= k < l < i && all_keys[#[trigger] idx[k]] == all_keys[#[trigger] idx[l]] ==> idx[k]
                    < idx[l],
        decreases n - i,
    {
        proof {
            assert(key_views(rest_keys@)[0] == all_keys[i as int]);
        }
        let ghost old_rest = rest_keys@;
        let item = rest_items.remove(0);
        let key = rest_keys.remove(0);
        proof {
            assert forall|j: int| 0 <= j < rest_keys@.len() implies key_views(rest_keys@)[j] == all_keys.subrange(i + 1, n as int)[j] by {
                assert(rest_keys@[j] == old_rest[j + 1]);
                assert(key_views(old_rest)[j + 1] == all_keys.subrange(i as int, n as int)[j + 1]);
            }
            assert(key_views(rest_keys@) =~= all_keys.subrange(i + 1, n as int));
            assert(rest_items@ =~= all_items.subrange(i + 1, n as int));
        }
        let ghost kv = key_view(key);
        assert(kv == all_keys[i as int]);
        let mut pos: usize = 0;
        while pos < out_keys.len() && !sorts_before(&key, &out_keys[pos])
            invariant
                pos <= out_keys@.len(),
                kv == key_view(key),
                forall|j: int| 0 <= j < pos ==> !key_before(kv, key_view(#[trigger] out_keys@[j])),
            decreases out_keys.len() - pos,
        {
            pos = pos + 1;
        }
        proof {
            let old_idx = idx;
            let new_idx = old_idx.insert(pos as int, i as int);
            assert forall|k: int, l: int| 0 <= k < l < i + 1 implies !key_before(
                all_keys[#[trigger] new_idx[l]],
                all_keys[#[trigger] new_idx[k]],
            ) by {
                if k < pos && l == pos {
                    assert(key_view(out_keys@[k]) == all_keys[old_idx[k]]);
                    if key_before(kv, all_keys[old_idx[k]]) {
                        assert(!key_before(kv, key_view(out_keys@[k])));
                    }
                } else if k == pos && l > pos {
                    let ol = old_idx[l - 1];
                    let op = old_idx[pos as int];
                    assert(key_view(out_keys@[pos as int]) == all_keys[op]);
                    assert(key_before(kv, all_keys[op]));
                    if key_before(all_keys[ol], kv) {
                        lemma_key_before_transitive(all_keys[ol], kv, all_keys[op]);
                        if l - 1 > pos {
                            assert(!key_before(all_keys[old_idx[l - 1]], all_keys[old_idx[pos as int]]));
                        } else {
                            lemma_key_before_irreflexive(all_keys[op]);
                        }
                    }
                } else if k < pos && l < pos {
                    assert(new_idx[k] == old_idx[k] && new_idx[l] == old_idx[l]);
                } else if k < pos && l > pos {
                    assert(new_idx[k] == old_idx[k] && new_idx[l] == old_idx[l - 1]);
                } else {
                    assert(new_idx[k] == old_idx[k - 1] && new_idx[l] == old_idx[l - 1]);
                }
            }
            assert forall|k: int, l: int|
                0 <= k < l < i + 1 && all_keys[#[trigger] new_idx[k]] == all_keys[#[trigger] new_idx[l]]
                implies new_idx[k] < new_idx[l] by {
                if k == pos && l > pos {
                    let ol = old_idx[l - 1];
                    let op = old_idx[pos as int];
                    assert(key_view(out_keys@[pos as int]) == all_keys[op]);
                    assert(key_before(kv, all_keys[op]));
                    if l - 1 > pos {
                        assert(!key_before(all_keys[old_idx[l - 1]], all_keys[old_idx[pos as int]]));
                    } else {
                        lemma_key_before_irreflexive(all_keys[op]);
                    }
                } else if k < pos && l == pos {
                    assert(new_idx[k] == old_idx[k]);
                } else if k < pos && l < pos {
                    assert(new_idx[k] == old_idx[k] && new_idx[l] == old_idx[l]);
                } else if k < pos && l > pos {
                    assert(new_idx[k] == old_idx[k] && new_idx[l] == old_idx[l - 1]);
                } else {
                    assert(new_idx[k] == old_idx[k - 1] && new_idx[l] == old_idx[l - 1]);
                }
            }
            idx = new_idx;
        }
        out_items.insert(pos, item);
        out_keys.insert(pos, key);
        i = i + 1;
    }
    out_items
}

} // verus!
