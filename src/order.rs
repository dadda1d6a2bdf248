//! Ascending order by name, without duplicates: the order of the index.
//!
//! Names are ordered byte by byte on their UTF-8 form, which is the order of
//! `str`; items with equal names keep the order in which they came.
use vstd::prelude::*;

verus! {

/// `a` comes strictly before `b`, comparing from position `i` on.
pub open spec fn lt_from(a: Seq<u8>, b: Seq<u8>, i: int) -> bool
    decreases a.len() - i,
{
    if i >= a.len() {
        i < b.len()
    } else if i >= b.len() {
        false
    } else if a[i] != b[i] {
        a[i] < b[i]
    } else {
        lt_from(a, b, i + 1)
    }
}

/// `a` comes strictly before `b` in lexicographic order.
pub open spec fn key_lt(a: Seq<u8>, b: Seq<u8>) -> bool {
    lt_from(a, b, 0)
}

pub proof fn lemma_lt_irreflexive(a: Seq<u8>, i: int)
    requires
        0 <= i,
    ensures
        !lt_from(a, a, i),
    decreases a.len() - i,
{
    if i < a.len() {
        lemma_lt_irreflexive(a, i + 1);
    }
}

pub proof fn lemma_lt_transitive(a: Seq<u8>, b: Seq<u8>, c: Seq<u8>, i: int)
    requires
        0 <= i,
        lt_from(a, b, i),
        lt_from(b, c, i),
    ensures
        lt_from(a, c, i),
    decreases a.len() - i,
{
    if i < a.len() && i < b.len() && i < c.len() && a[i] == b[i] && b[i] == c[i] {
        lemma_lt_transitive(a, b, c, i + 1);
    }
}

/// `s` is in ascending order of `key`: no item comes strictly before one
/// that precedes it.
pub open spec fn is_sorted_by<V>(s: Seq<V>, key: spec_fn(V) -> Seq<u8>) -> bool {
    forall|i: int, j: int| 0 <= i < j < s.len() ==> !key_lt(key(s[j]), key(s[i]))
}

/// No item of `s` occurs twice.
pub open spec fn no_duplicates<V>(s: Seq<V>) -> bool {
    forall|i: int, j: int| 0 <= i < j < s.len() ==> s[i] != s[j]
}

/// Where `x` goes in `s`: before the first item, from `i` on, that it comes
/// strictly before.
pub open spec fn insert_pos<V>(s: Seq<V>, x: V, key: spec_fn(V) -> Seq<u8>, i: int) -> int
    decreases s.len() - i,
{
    if i >= s.len() {
        s.len() as int
    } else if key_lt(key(x), key(s[i])) {
        i
    } else {
        insert_pos(s, x, key, i + 1)
    }
}

/// `s` with `x` added in order, unless `s` already holds it.
pub open spec fn insert_sorted<V>(s: Seq<V>, x: V, key: spec_fn(V) -> Seq<u8>) -> Seq<V> {
    if s.contains(x) {
        s
    } else {
        s.insert(insert_pos(s, x, key, 0), x)
    }
}

/// The items of `items`, each once, in ascending order of `key`.
pub open spec fn sort_dedup<V>(items: Seq<V>, key: spec_fn(V) -> Seq<u8>) -> Seq<V>
    decreases items.len(),
{
    if items.len() == 0 {
        seq![]
    } else {
        insert_sorted(sort_dedup(items.drop_last(), key), items.last(), key)
    }
}

pub proof fn lemma_insert_pos<V>(s: Seq<V>, x: V, key: spec_fn(V) -> Seq<u8>, i: int)
    requires
        0 <= i <= s.len(),
    ensures
        i <= insert_pos(s, x, key, i) <= s.len(),
        forall|k: int| i <= k < insert_pos(s, x, key, i) ==> !key_lt(key(x), #[trigger] key(s[k])),
        insert_pos(s, x, key, i) < s.len() ==> key_lt(key(x), key(s[insert_pos(s, x, key, i)])),
    decreases s.len() - i,
{
    if i < s.len() && !key_lt(key(x), key(s[i])) {
        lemma_insert_pos(s, x, key, i + 1);
    }
}

pub proof fn lemma_insert_sorted<V>(s: Seq<V>, x: V, key: spec_fn(V) -> Seq<u8>)
    requires
        is_sorted_by(s, key),
        no_duplicates(s),
    ensures
        is_sorted_by(insert_sorted(s, x, key), key),
        no_duplicates(insert_sorted(s, x, key)),
        forall|y: V| insert_sorted(s, x, key).contains(y) <==> (s.contains(y) || y == x),
{
    if !s.contains(x) {
        let p = insert_pos(s, x, key, 0);
        lemma_insert_pos(s, x, key, 0);
        let r = s.insert(p, x);
        assert forall|k: int| p <= k < s.len() implies !key_lt(key(s[k]), key(x)) by {
            if key_lt(key(s[k]), key(x)) {
                lemma_lt_transitive(key(s[k]), key(x), key(s[p]), 0);
                if k == p {
                    lemma_lt_irreflexive(key(s[p]), 0);
                }
            }
        }
        assert forall|i: int, j: int| 0 <= i < j < r.len() implies !key_lt(key(r[j]), key(r[i])) by {
            if j < p {
            } else if j == p {
                assert(r[j] == x);
                assert(r[i] == s[i]);
            } else if i == p {
                assert(r[j] == s[j - 1]);
            } else if i < p {
                assert(r[j] == s[j - 1]);
                assert(r[i] == s[i]);
            } else {
                assert(r[j] == s[j - 1]);
                assert(r[i] == s[i - 1]);
            }
        }
        assert forall|i: int, j: int| 0 <= i < j < r.len() implies r[i] != r[j] by {
            if i == p {
                assert(r[j] == s[j - 1]);
            } else if j == p {
                assert(r[i] == s[i]);
            } else {
                let si = if i < p { i } else { i - 1 };
                let sj = if j < p { j } else { j - 1 };
                assert(r[i] == s[si]);
                assert(r[j] == s[sj]);
            }
        }
        assert forall|y: V| r.contains(y) <==> (s.contains(y) || y == x) by {
            if r.contains(y) {
                let k = choose|k: int| 0 <= k < r.len() && r[k] == y;
                if k < p {
                    assert(s[k] == y);
                } else if k > p {
                    assert(s[k - 1] == y);
                }
            }
            if s.contains(y) {
                let k = choose|k: int| 0 <= k < s.len() && s[k] == y;
                if k < p {
                    assert(r[k] == y);
                } else {
                    assert(r[k + 1] == y);
                }
            }
            if y == x {
                assert(r[p] == y);
            }
        }
    }
}

/// What [`sort_dedup`] returns is sorted, free of duplicates, and holds
/// exactly the items given to it.
pub proof fn lemma_sort_dedup<V>(items: Seq<V>, key: spec_fn(V) -> Seq<u8>)
    ensures
        is_sorted_by(sort_dedup(items, key), key),
        no_duplicates(sort_dedup(items, key)),
        forall|y: V| sort_dedup(items, key).contains(y) <==> items.contains(y),
    decreases items.len(),
{
    if items.len() > 0 {
        lemma_sort_dedup(items.drop_last(), key);
        lemma_insert_sorted(sort_dedup(items.drop_last(), key), items.last(), key);
        assert forall|y: V| items.contains(y) <==> (items.drop_last().contains(y) || y == items.last()) by {
            if items.contains(y) {
                let k = choose|k: int| 0 <= k < items.len() && items[k] == y;
                if k < items.len() - 1 {
                    assert(items.drop_last()[k] == y);
                }
            }
            if items.drop_last().contains(y) {
                let k = choose|k: int| 0 <= k < items.len() - 1 && items.drop_last()[k] == y;
                assert(items[k] == y);
            }
        }
    }
}

/// Whether the bytes `a` come strictly before the bytes `b`.
pub fn bytes_lt(a: &[u8], b: &[u8]) -> (r: bool)
    ensures
        r == key_lt(a@, b@),
{
    let mut i: usize = 0;
    while i < a.len() && i < b.len()
        invariant
            lt_from(a@, b@, 0) == lt_from(a@, b@, i as int),
        decreases a.len() - i,
    {
        if a[i] != b[i] {
            return a[i] < b[i];
        }
        i = i + 1;
    }
    i >= a.len() && i < b.len()
}

} // verus!
