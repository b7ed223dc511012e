//! Association lists: sequences of `(key, value)` pairs read by first match.
//!
//! Several components of the library keep small keyed tables (translations,
//! rewrite maps, rules).  They are held as vectors of pairs; a lookup returns
//! the value of the first pair with the key, and an update replaces that pair
//! or appends a new one.
use vstd::prelude::*;

verus! {

/// Index of the first pair at or after `i` whose key is `k`.
pub open spec fn index_from<K, V>(e: Seq<(K, V)>, k: K, i: int) -> Option<int>
    decreases e.len() - i,
{
    if i < 0 || i >= e.len() {
        None
    } else if e[i].0 == k {
        Some(i)
    } else {
        index_from(e, k, i + 1)
    }
}

/// Index of the first pair whose key is `k`.
pub open spec fn index_of<K, V>(e: Seq<(K, V)>, k: K) -> Option<int> {
    index_from(e, k, 0)
}

/// The value bound to `k`, if any.
pub open spec fn find<K, V>(e: Seq<(K, V)>, k: K) -> Option<V> {
    match index_of(e, k) {
        Some(j) => Some(e[j].1),
        None => None,
    }
}

/// `e` with `k` bound to `v`: the first pair with key `k` is replaced, or the pair is appended.
pub open spec fn upsert<K, V>(e: Seq<(K, V)>, k: K, v: V) -> Seq<(K, V)> {
    match index_of(e, k) {
        Some(j) => e.update(j, (k, v)),
        None => e.push((k, v)),
    }
}

/// `e` without its first pair of key `k`.
pub open spec fn remove_key<K, V>(e: Seq<(K, V)>, k: K) -> Seq<(K, V)> {
    match index_of(e, k) {
        Some(i) => e.remove(i),
        None => e,
    }
}

/// The keys of `e`, in order.
pub open spec fn keys_of<K, V>(e: Seq<(K, V)>) -> Seq<K> {
    e.map_values(|p: (K, V)| p.0)
}

/// The result of `index_from` is the first matching index at or after `i`.
pub proof fn lemma_index_from<K, V>(e: Seq<(K, V)>, k: K, i: int)
    requires
        0 <= i,
    ensures
        index_from(e, k, i) matches Some(j) ==> i <= j < e.len() && e[j].0 == k && (forall|m: int|
            i <= m < j ==> e[m].0 != k),
        index_from(e, k, i) is None ==> forall|m: int| i <= m < e.len() ==> e[m].0 != k,
    decreases e.len() - i,
{
    if i < e.len() && e[i].0 != k {
        lemma_index_from(e, k, i + 1);
    }
}

/// `index_of` finds the first pair with the key, or none when no pair has it.
pub proof fn lemma_index_of<K, V>(e: Seq<(K, V)>, k: K)
    ensures
        index_of(e, k) matches Some(j) ==> 0 <= j < e.len() && e[j].0 == k && (forall|m: int|
            0 <= m < j ==> e[m].0 != k),
        index_of(e, k) is None ==> forall|m: int| 0 <= m < e.len() ==> e[m].0 != k,
{
    lemma_index_from(e, k, 0);
}

/// A first matching index determines `index_of`.
pub proof fn lemma_index_of_is<K, V>(e: Seq<(K, V)>, k: K, j: int)
    requires
        0 <= j < e.len(),
        e[j].0 == k,
        forall|m: int| 0 <= m < j ==> e[m].0 != k,
    ensures
        index_of(e, k) == Some(j),
{
    lemma_index_of(e, k);
    if let Some(j2) = index_of(e, k) {
        assert(j2 == j) by {
            if j2 < j {
            } else if j2 > j {
            }
        }
    }
}

/// No pair with the key means `index_of` is none.
pub proof fn lemma_index_of_none<K, V>(e: Seq<(K, V)>, k: K)
    requires
        forall|m: int| 0 <= m < e.len() ==> e[m].0 != k,
    ensures
        index_of(e, k) is None,
{
    lemma_index_of(e, k);
}

/// After binding `k` to `v`, looking up `k` gives `v`, and every other key reads as before.
pub proof fn lemma_upsert<K, V>(e: Seq<(K, V)>, k: K, v: V)
    ensures
        find(upsert(e, k, v), k) == Some(v),
        forall|k2: K| k2 != k ==> find(#[trigger] upsert(e, k, v), k2) == find(e, k2),
        index_of(e, k) is None ==> upsert(e, k, v).len() == e.len() + 1,
        index_of(e, k) is Some ==> upsert(e, k, v).len() == e.len(),
{
    lemma_index_of(e, k);
    let u = upsert(e, k, v);
    match index_of(e, k) {
        Some(j) => {
            lemma_index_of_is(u, k, j);
        },
        None => {
            lemma_index_of_is(u, k, e.len() as int);
        },
    }
    assert forall|k2: K| k2 != k implies find(#[trigger] upsert(e, k, v), k2) == find(e, k2) by {
        lemma_index_of(e, k2);
        match index_of(e, k2) {
            Some(j2) => {
                lemma_index_of_is(u, k2, j2);
            },
            None => {
                lemma_index_of_none(u, k2);
            },
        }
    }
}


/// No two pairs share a key.
pub open spec fn distinct_keys<K, V>(e: Seq<(K, V)>) -> bool {
    forall|i: int, j: int| 0 <= i < e.len() && 0 <= j < e.len() && i != j ==> e[i].0 != e[j].0
}

/// Distinct keys stay distinct when a pair of a new key is appended, when a pair is removed,
/// and when a pair is replaced by one of the same key.
pub proof fn lemma_distinct_keys<K, V>(e: Seq<(K, V)>, k: K, v: V, i: int)
    requires
        distinct_keys(e),
    ensures
        index_of(e, k) is None ==> distinct_keys(e.push((k, v))),
        0 <= i < e.len() ==> distinct_keys(e.remove(i)),
        0 <= i < e.len() && e[i].0 == k ==> distinct_keys(e.update(i, (k, v))),
{
    lemma_index_of(e, k);
    if index_of(e, k) is None {
        let p = e.push((k, v));
        assert forall|a: int, b: int| 0 <= a < p.len() && 0 <= b < p.len() && a != b implies p[a].0 != p[b].0 by {
            if a == e.len() {
                assert(p[b] == e[b]);
            } else if b == e.len() {
                assert(p[a] == e[a]);
            } else {
                assert(p[a] == e[a] && p[b] == e[b]);
            }
        }
    }
    if 0 <= i < e.len() {
        let r = e.remove(i);
        assert forall|a: int, b: int| 0 <= a < r.len() && 0 <= b < r.len() && a != b implies r[a].0 != r[b].0 by {
            let a2 = if a < i { a } else { a + 1 };
            let b2 = if b < i { b } else { b + 1 };
            assert(r[a] == e[a2]);
            assert(r[b] == e[b2]);
        }
        if e[i].0 == k {
            let u = e.update(i, (k, v));
            assert forall|a: int, b: int| 0 <= a < u.len() && 0 <= b < u.len() && a != b implies u[a].0 != u[b].0 by {
                if a == i {
                    assert(e[b].0 != e[i].0);
                } else if b == i {
                    assert(e[a].0 != e[i].0);
                }
            }
        }
    }
}

/// With distinct keys, the key of a removed pair is no longer found.
pub proof fn lemma_removed_absent<K, V>(e: Seq<(K, V)>, i: int)
    requires
        distinct_keys(e),
        0 <= i < e.len(),
    ensures
        index_of(e.remove(i), e[i].0) is None,
{
    let r = e.remove(i);
    assert forall|m: int| 0 <= m < r.len() implies r[m].0 != e[i].0 by {
        let m2 = if m < i { m } else { m + 1 };
        assert(r[m] == e[m2]);
    }
    lemma_index_of_none(r, e[i].0);
}


/// The pairs of a vector keyed by strings, with the keys taken by their views.
pub open spec fn string_keyed<V>(v: Seq<(String, V)>) -> Seq<(Seq<char>, V)> {
    Seq::new(v.len(), |i: int| (v[i].0@, v[i].1))
}

/// Two tables with the same keys in the same order find a key at the same index.
pub proof fn lemma_same_keys<V, W>(a: Seq<(Seq<char>, V)>, b: Seq<(Seq<char>, W)>, k: Seq<char>)
    requires
        a.len() == b.len(),
        forall|i: int| 0 <= i < a.len() ==> a[i].0 == b[i].0,
    ensures
        index_of(a, k) == index_of(b, k),
{
    lemma_index_of(a, k);
    match index_of(a, k) {
        Some(j) => {
            lemma_index_of_is(b, k, j);
        },
        None => {
            lemma_index_of_none(b, k);
        },
    }
}

/// The position of the first pair whose key is `k`.
pub fn position_of<V>(v: &Vec<(String, V)>, k: &str) -> (r: Option<usize>)
    ensures
        match r {
            Some(i) => index_of(string_keyed(v@), k@) == Some(i as int),
            None => index_of(string_keyed(v@), k@) is None,
        },
        r matches Some(i) ==> i < v@.len(),
{
    let ghost e = string_keyed(v@);
    let n = v.len();
    let mut i: usize = 0;
    while i < n
        invariant
            i <= n,
            n == v@.len(),
            e == string_keyed(v@),
            forall|j: int| 0 <= j < i ==> e[j].0 != k@,
        decreases n - i,
    {
        if crate::text::str_eq(v[i].0.as_str(), k) {
            proof {
                lemma_index_of_is(e, k@, i as int);
            }
            return Some(i);
        }
        i = i + 1;
    }
    proof {
        lemma_index_of_none(e, k@);
    }
    None
}

} // verus!
