use vstd::prelude::*;

verus! {

/// A key of an association list: a value whose executable equality
/// agrees with equality in specifications.
pub trait Key: Sized {
    fn same(&self, other: &Self) -> (r: bool)
        ensures
            r == (*self == *other),
    ;
}

impl Key for u64 {
    fn same(&self, other: &Self) -> (r: bool) {
        *self == *other
    }
}

impl Key for (u32, u32, u32) {
    fn same(&self, other: &Self) -> (r: bool) {
        self.0 == other.0 && self.1 == other.1 && self.2 == other.2
    }
}

/// No key occurs twice.
pub open spec fn distinct_keys<K, V>(s: Seq<(K, V)>) -> bool {
    forall|i: int, j: int|
        0 <= i < s.len() && 0 <= j < s.len() && i != j ==> #[trigger] s[i].0 != #[trigger] s[j].0
}

pub open spec fn has_key<K, V>(s: Seq<(K, V)>, k: K) -> bool {
    exists|i: int| 0 <= i < s.len() && #[trigger] s[i].0 == k
}

/// Where `k` stands in `s` (meaningful when `has_key(s, k)`).
pub open spec fn key_pos<K, V>(s: Seq<(K, V)>, k: K) -> int {
    choose|i: int| 0 <= i < s.len() && #[trigger] s[i].0 == k
}

/// The value bound to `k`, if any.
pub open spec fn lookup<K, V>(s: Seq<(K, V)>, k: K) -> Option<V> {
    if has_key(s, k) {
        Some(s[key_pos(s, k)].1)
    } else {
        None
    }
}

/// Binds `k` to `v`: in place where `k` is bound, at the end otherwise.
pub open spec fn insert<K, V>(s: Seq<(K, V)>, k: K, v: V) -> Seq<(K, V)> {
    if has_key(s, k) {
        s.update(key_pos(s, k), (k, v))
    } else {
        s.push((k, v))
    }
}

/// Drops the binding of `k`, keeping the order of the others.
pub open spec fn remove<K, V>(s: Seq<(K, V)>, k: K) -> Seq<(K, V)> {
    if has_key(s, k) {
        s.remove(key_pos(s, k))
    } else {
        s
    }
}

pub proof fn lemma_key_pos_unique<K, V>(s: Seq<(K, V)>, k: K, i: int)
    requires
        distinct_keys(s),
        0 <= i < s.len(),
        s[i].0 == k,
    ensures
        has_key(s, k),
        key_pos(s, k) == i,
{
    assert(has_key(s, k));
    let j = key_pos(s, k);
    assert(s[j].0 == k);
}

pub proof fn lemma_insert<K, V>(s: Seq<(K, V)>, k: K, v: V)
    requires
        distinct_keys(s),
    ensures
        distinct_keys(insert(s, k, v)),
        lookup(insert(s, k, v), k) == Some(v),
        forall|k2: K| k2 != k ==> lookup(insert(s, k, v), k2) == lookup(s, k2),
        has_key(s, k) ==> insert(s, k, v).len() == s.len(),
        !has_key(s, k) ==> insert(s, k, v) == s.push((k, v)),
{
    let t = insert(s, k, v);
    if has_key(s, k) {
        let p = key_pos(s, k);
        assert(s[p].0 == k);
        assert forall|i: int, j: int|
            0 <= i < t.len() && 0 <= j < t.len() && i != j implies #[trigger] t[i].0
            != #[trigger] t[j].0 by {
            assert(t[i].0 == s[i].0);
            assert(t[j].0 == s[j].0);
        }
        lemma_key_pos_unique(t, k, p);
        assert forall|k2: K| k2 != k implies lookup(t, k2) == lookup(s, k2) by {
            if has_key(s, k2) {
                let q = key_pos(s, k2);
                assert(t[q].0 == k2);
                lemma_key_pos_unique(t, k2, q);
            }
            if has_key(t, k2) {
                let q = key_pos(t, k2);
                assert(s[q].0 == k2);
            }
        }
    } else {
        assert forall|i: int, j: int|
            0 <= i < t.len() && 0 <= j < t.len() && i != j implies #[trigger] t[i].0
            != #[trigger] t[j].0 by {
            if i < s.len() && j < s.len() {
            } else if i == s.len() {
                assert(s[j].0 == t[j].0);
            } else {
                assert(s[i].0 == t[i].0);
            }
        }
        lemma_key_pos_unique(t, k, s.len() as int);
        assert forall|k2: K| k2 != k implies lookup(t, k2) == lookup(s, k2) by {
            if has_key(s, k2) {
                let q = key_pos(s, k2);
                assert(t[q].0 == k2);
                lemma_key_pos_unique(t, k2, q);
            }
            if has_key(t, k2) {
                let q = key_pos(t, k2);
                assert(q < s.len());
                assert(s[q].0 == k2);
            }
        }
    }
}

pub proof fn lemma_remove<K, V>(s: Seq<(K, V)>, k: K)
    requires
        distinct_keys(s),
    ensures
        distinct_keys(remove(s, k)),
        lookup(remove(s, k), k) is None,
        forall|k2: K| k2 != k ==> lookup(remove(s, k), k2) == lookup(s, k2),
        forall|i: int| 0 <= i < remove(s, k).len() ==> s.contains(#[trigger] remove(s, k)[i]),
{
    let t = remove(s, k);
    if has_key(s, k) {
        let p = key_pos(s, k);
        assert(s[p].0 == k);
        assert forall|i: int, j: int|
            0 <= i < t.len() && 0 <= j < t.len() && i != j implies #[trigger] t[i].0
            != #[trigger] t[j].0 by {
            let a = if i < p { i } else { i + 1 };
            let b = if j < p { j } else { j + 1 };
            assert(t[i] == s[a]);
            assert(t[j] == s[b]);
        }
        if has_key(t, k) {
            let q = key_pos(t, k);
            let a = if q < p { q } else { q + 1 };
            assert(t[q] == s[a]);
        }
        assert forall|k2: K| k2 != k implies lookup(t, k2) == lookup(s, k2) by {
            if has_key(s, k2) {
                let q = key_pos(s, k2);
                assert(q != p);
                let r = if q < p { q } else { q - 1 };
                assert(t[r] == s[q]);
                lemma_key_pos_unique(t, k2, r);
            }
            if has_key(t, k2) {
                let q = key_pos(t, k2);
                let a = if q < p { q } else { q + 1 };
                assert(t[q] == s[a]);
            }
        }
        assert forall|i: int| 0 <= i < t.len() implies s.contains(#[trigger] t[i]) by {
            let a = if i < p { i } else { i + 1 };
            assert(t[i] == s[a]);
        }
    } else {
        assert forall|i: int| 0 <= i < t.len() implies s.contains(#[trigger] t[i]) by {
            assert(t[i] == s[i]);
        }
    }
}

/// Where `k` stands in `v`, if it is bound there.
pub fn find<K: Key, V>(v: &Vec<(K, V)>, k: &K) -> (r: Option<usize>)
    requires
        distinct_keys(v@),
    ensures
        r is Some <==> has_key(v@, *k),
        r matches Some(i) ==> i < v.len() && i == key_pos(v@, *k) && v@[i as int].0 == *k,
{
    let mut i: usize = 0;
    while i < v.len()
        invariant
            i <= v.len(),
            distinct_keys(v@),
            forall|j: int| 0 <= j < i ==> #[trigger] v@[j].0 != *k,
        decreases v.len() - i,
    {
        if v[i].0.same(k) {
            proof {
                lemma_key_pos_unique(v@, *k, i as int);
            }
            return Some(i);
        }
        i = i + 1;
    }
    None
}

/// Binds `k` to `val` in `v`.
pub fn insert_exec<K: Key, V>(v: &mut Vec<(K, V)>, k: K, val: V)
    requires
        distinct_keys(old(v)@),
    ensures
        final(v)@ == insert(old(v)@, k, val),
        distinct_keys(final(v)@),
{
    proof {
        lemma_insert(v@, k, val);
    }
    match find(v, &k) {
        Some(i) => {
            v.set(i, (k, val));
        },
        None => {
            v.push((k, val));
        },
    }
}

/// Drops the binding of `k` from `v`.
pub fn remove_exec<K: Key, V>(v: &mut Vec<(K, V)>, k: K)
    requires
        distinct_keys(old(v)@),
    ensures
        final(v)@ == remove(old(v)@, k),
        distinct_keys(final(v)@),
{
    proof {
        lemma_remove(v@, k);
    }
    match find(v, &k) {
        Some(i) => {
            v.remove(i);
        },
        None => {},
    }
}

} // verus!
