//! Text maps kept as lists of key and value pairs, each key at most once, in
//! the order the keys were first set.
use vstd::prelude::*;

use crate::text::str_eq;

verus! {

/// A text map as values.
pub type TextMap = Seq<(Seq<char>, Seq<char>)>;

/// Index of the first pair whose key is `k`, at or after `i`.
pub open spec fn key_index(m: TextMap, k: Seq<char>, i: int) -> Option<int>
    decreases m.len() - i,
{
    if i < 0 || i >= m.len() {
        None
    } else if m[i].0 == k {
        Some(i)
    } else {
        key_index(m, k, i + 1)
    }
}

/// `m` with `k` set to `v`: the pair of `k` is replaced where there is one,
/// else the pair is added at the end.
pub open spec fn assoc_put(m: TextMap, k: Seq<char>, v: Seq<char>) -> TextMap {
    match key_index(m, k, 0) {
        Some(i) => m.update(i, (k, v)),
        None => m.push((k, v)),
    }
}

/// The value of `k`, if it has one.
pub open spec fn lookup(m: TextMap, k: Seq<char>) -> Option<Seq<char>> {
    match key_index(m, k, 0) {
        Some(i) => Some(m[i].1),
        None => None,
    }
}

/// The pairs as values.
pub open spec fn text_map_view(v: Seq<(String, String)>) -> TextMap {
    v.map_values(|p: (String, String)| (p.0@, p.1@))
}

/// Index of the first pair whose key is `k`.
fn key_position(m: &Vec<(String, String)>, k: &str) -> (r: Option<usize>)
    ensures
        match r {
            Some(i) => key_index(text_map_view(m@), k@, 0) == Some(i as int) && i < m.len(),
            None => key_index(text_map_view(m@), k@, 0) is None,
        },
{
    let ghost tm = text_map_view(m@);
    let mut i: usize = 0;
    while i < m.len()
        invariant
            i <= m.len(),
            tm == text_map_view(m@),
            key_index(tm, k@, 0) == key_index(tm, k@, i as int),
        decreases m.len() - i,
    {
        assert(tm[i as int].0 == m@[i as int].0@);
        if str_eq(m[i].0.as_str(), k) {
            return Some(i);
        }
        i = i + 1;
    }
    None
}

/// Sets `k` to `v` in `m`.
pub fn assoc_insert(m: &mut Vec<(String, String)>, k: String, v: String)
    ensures
        text_map_view(final(m)@) == assoc_put(text_map_view(old(m)@), k@, v@),
{
    let ghost tm = text_map_view(m@);
    let ghost kv = k@;
    let ghost vv = v@;
    match key_position(m, k.as_str()) {
        Some(i) => {
            m.set(i, (k, v));
            assert(text_map_view(m@) == tm.update(i as int, (kv, vv)));
        },
        None => {
            m.push((k, v));
            assert(text_map_view(m@) == tm.push((kv, vv)));
        },
    }
}

/// Reading a key back after setting it gives what was set; reading any other
/// key gives what it had before.
pub proof fn lemma_lookup_after_put(m: TextMap, k: Seq<char>, v: Seq<char>, q: Seq<char>)
    ensures
        lookup(assoc_put(m, k, v), q) == if q == k {
            Some(v)
        } else {
            lookup(m, q)
        },
{
    match key_index(m, k, 0) {
        Some(i) => {
            lemma_first_key(m, k, 0);
            let u = m.update(i, (k, v));
            if q == k {
                lemma_key_at(u, k, 0, i);
            } else {
                lemma_same_keys(m, u, q, 0);
                lemma_first_key(m, q, 0);
            }
        },
        None => {
            lemma_first_key(m, k, 0);
            lemma_no_key(m, k, 0);
            let u = m.push((k, v));
            if q == k {
                lemma_key_at(u, k, 0, m.len() as int);
            } else {
                lemma_same_keys(m, u, q, 0);
                lemma_first_key(m, q, 0);
            }
        },
    }
}

/// Setting a key keeps every key at most once.
pub proof fn lemma_put_keeps_keys_unique(m: TextMap, k: Seq<char>, v: Seq<char>)
    requires
        keys_unique(m),
    ensures
        keys_unique(assoc_put(m, k, v)),
{
    lemma_first_key(m, k, 0);
    match key_index(m, k, 0) {
        Some(i) => {
            let u = m.update(i, (k, v));
            assert forall|a: int, b: int| 0 <= a < b < u.len() implies #[trigger] u[a].0
                != #[trigger] u[b].0 by {
                assert(u[a].0 == m[a].0 && u[b].0 == m[b].0);
            }
        },
        None => {
            lemma_no_key(m, k, 0);
            let u = m.push((k, v));
            assert forall|a: int, b: int| 0 <= a < b < u.len() implies #[trigger] u[a].0
                != #[trigger] u[b].0 by {
                if b < m.len() {
                    assert(u[a].0 == m[a].0 && u[b].0 == m[b].0);
                } else {
                    assert(u[a].0 == m[a].0);
                }
            }
        },
    }
}

/// Whether each key comes at most once.
pub open spec fn keys_unique(m: TextMap) -> bool {
    forall|a: int, b: int| 0 <= a < b < m.len() ==> #[trigger] m[a].0 != #[trigger] m[b].0
}

/// What `key_index` finds is a pair for `q` with none before it.
proof fn lemma_first_key(m: TextMap, q: Seq<char>, k: int)
    requires
        0 <= k,
    ensures
        key_index(m, q, k) matches Some(j) ==> k <= j < m.len() && m[j].0 == q && forall|
            x: int,
        | k <= x < j ==> m[x].0 != q,
    decreases m.len() - k,
{
    if k < m.len() && m[k].0 != q {
        lemma_first_key(m, q, k + 1);
    }
}

/// Without a pair for `q` from `k` on, none from `k` on is for `q`.
proof fn lemma_no_key(m: TextMap, q: Seq<char>, k: int)
    requires
        0 <= k,
        key_index(m, q, k) is None,
    ensures
        forall|x: int| k <= x < m.len() ==> m[x].0 != q,
    decreases m.len() - k,
{
    if k < m.len() {
        lemma_no_key(m, q, k + 1);
    }
}

/// A pair for `q` with none before it is what `key_index` finds.
proof fn lemma_key_at(m: TextMap, q: Seq<char>, k: int, j: int)
    requires
        0 <= k <= j < m.len(),
        m[j].0 == q,
        forall|x: int| k <= x < j ==> m[x].0 != q,
    ensures
        key_index(m, q, k) == Some(j),
    decreases j - k,
{
    if k < j {
        lemma_key_at(m, q, k + 1, j);
    }
}

/// Maps with the same keys, the longer one holding no more pairs for `q`,
/// find `q` at the same place.
proof fn lemma_same_keys(a: TextMap, b: TextMap, q: Seq<char>, k: int)
    requires
        0 <= k,
        a.len() <= b.len(),
        forall|x: int| 0 <= x < a.len() ==> a[x].0 == b[x].0,
        forall|x: int| a.len() <= x < b.len() ==> b[x].0 != q,
    ensures
        key_index(a, q, k) == key_index(b, q, k),
    decreases b.len() - k,
{
    if k < b.len() {
        lemma_same_keys(a, b, q, k + 1);
    }
}

} // verus!
