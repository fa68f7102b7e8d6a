//! A keyed cache for locators: at most one value per key.
use vstd::prelude::*;

verus! {

/// Keys of a [`LocatorCache`]: two keys name the same entry when their views are equal.
pub trait CacheKey: Sized + View {
    fn same_key(&self, other: &Self) -> (r: bool)
        ensures
            r == (self@ == other@),
    ;

    /// A copy of the key.
    fn copy_key(&self) -> (r: Self)
        ensures
            r@ == self@,
    ;
}

impl CacheKey for String {
    fn same_key(&self, other: &Self) -> (r: bool) {
        *self == *other
    }

    fn copy_key(&self) -> (r: Self) {
        self.clone()
    }
}

impl CacheKey for u64 {
    fn same_key(&self, other: &Self) -> (r: bool) {
        *self == *other
    }

    fn copy_key(&self) -> (r: Self) {
        *self
    }
}

/// `keys` lists each key of `m` once, and `r` holds, at the same positions,
/// copies of their values.
pub open spec fn keyed_values<K, V: Clone>(m: Map<K, V>, r: Seq<V>, keys: Seq<K>) -> bool {
    &&& keys.len() == r.len()
    &&& keys.no_duplicates()
    &&& forall|i: int| 0 <= i < keys.len() ==> m.contains_key(#[trigger] keys[i]) && cloned(m[keys[i]], r[i])
    &&& forall|k: K| m.contains_key(k) ==> #[trigger] keys.contains(k)
}

/// `r` holds a copy of the value of each key of `m`, one per key, in some order.
pub open spec fn one_value_per_key<K, V: Clone>(m: Map<K, V>, r: Seq<V>) -> bool {
    exists|keys: Seq<K>| #[trigger] keyed_values(m, r, keys)
}

/// A cache holding at most one value per key.
pub struct LocatorCache<K, V> {
    entries: Vec<(K, V)>,
}

/// Whether the keys at two positions of `s` differ whenever the positions do.
pub open spec fn distinct_keys<K: View, V>(s: Seq<(K, V)>) -> bool {
    forall|i: int, j: int|
        0 <= i < s.len() && 0 <= j < s.len() && i != j ==> (#[trigger] s[i]).0@ != (
        #[trigger] s[j]).0@
}

/// Position of an entry whose key has view `k`, if any.
pub open spec fn has_key_at<K: View, V>(s: Seq<(K, V)>, k: K::V, i: int) -> bool {
    0 <= i < s.len() && s[i].0@ == k
}

/// The map that an association list with distinct keys stands for.
pub open spec fn assoc_map<K: View, V>(s: Seq<(K, V)>) -> Map<K::V, V> {
    Map::new(
        |k: K::V| exists|i: int| #[trigger] has_key_at(s, k, i),
        |k: K::V| s[choose|i: int| #[trigger] has_key_at(s, k, i)].1,
    )
}

proof fn lemma_assoc_at<K: View, V>(s: Seq<(K, V)>, i: int)
    requires
        distinct_keys(s),
        0 <= i < s.len(),
    ensures
        assoc_map(s).contains_key(s[i].0@),
        assoc_map(s)[s[i].0@] == s[i].1,
{
    assert(has_key_at(s, s[i].0@, i));
    let j = choose|j: int| #[trigger] has_key_at(s, s[i].0@, j);
    assert(has_key_at(s, s[i].0@, j));
    assert(i == j);
}

proof fn lemma_assoc_update<K: View, V>(s: Seq<(K, V)>, i: int, k: K, v: V)
    requires
        distinct_keys(s),
        0 <= i < s.len(),
        k@ == s[i].0@,
    ensures
        distinct_keys(s.update(i, (k, v))),
        assoc_map(s.update(i, (k, v))) == assoc_map(s).insert(k@, v),
{
    let t = s.update(i, (k, v));
    assert forall|a: int, b: int|
        0 <= a < t.len() && 0 <= b < t.len() && a != b implies (#[trigger] t[a]).0@ != (
        #[trigger] t[b]).0@ by {
        assert(s[a].0@ != s[b].0@);
    }
    let m = assoc_map(s).insert(s[i].0@, v);
    assert forall|k: K::V| #[trigger] assoc_map(t).contains_key(k) <==> m.contains_key(k) by {
        if m.contains_key(k) {
            if k == s[i].0@ {
                assert(has_key_at(t, k, i));
            } else {
                let j = choose|j: int| #[trigger] has_key_at(s, k, j);
                assert(has_key_at(t, k, j));
            }
        }
        if assoc_map(t).contains_key(k) {
            let j = choose|j: int| #[trigger] has_key_at(t, k, j);
            assert(has_key_at(s, k, j));
        }
    }
    assert forall|k: K::V| #[trigger] assoc_map(t).contains_key(k) implies assoc_map(t)[k]
        == m[k] by {
        let j = choose|j: int| #[trigger] has_key_at(t, k, j);
        assert(has_key_at(t, k, j));
        lemma_assoc_at(t, j);
        if j != i {
            lemma_assoc_at(s, j);
        }
    }
    assert(assoc_map(t) =~= m);
}

proof fn lemma_assoc_push<K: View, V>(s: Seq<(K, V)>, k: K, v: V)
    requires
        distinct_keys(s),
        !assoc_map(s).contains_key(k@),
    ensures
        distinct_keys(s.push((k, v))),
        assoc_map(s.push((k, v))) == assoc_map(s).insert(k@, v),
{
    let t = s.push((k, v));
    assert forall|a: int| 0 <= a < s.len() implies (#[trigger] s[a]).0@ != k@ by {
        if s[a].0@ == k@ {
            assert(has_key_at(s, k@, a));
        }
    }
    assert forall|a: int, b: int|
        0 <= a < t.len() && 0 <= b < t.len() && a != b implies (#[trigger] t[a]).0@ != (
        #[trigger] t[b]).0@ by {
        if a < s.len() && b < s.len() {
            assert(s[a].0@ != s[b].0@);
        } else if a < s.len() {
            assert(s[a].0@ != k@);
        } else {
            assert(s[b].0@ != k@);
        }
    }
    let m = assoc_map(s).insert(k@, v);
    assert forall|q: K::V| #[trigger] assoc_map(t).contains_key(q) <==> m.contains_key(q) by {
        if m.contains_key(q) {
            if q == k@ {
                assert(has_key_at(t, q, s.len() as int));
            } else {
                let j = choose|j: int| #[trigger] has_key_at(s, q, j);
                assert(has_key_at(t, q, j));
            }
        }
        if assoc_map(t).contains_key(q) {
            let j = choose|j: int| #[trigger] has_key_at(t, q, j);
            if j < s.len() {
                assert(has_key_at(s, q, j));
            }
        }
    }
    assert forall|q: K::V| #[trigger] assoc_map(t).contains_key(q) implies assoc_map(t)[q]
        == m[q] by {
        let j = choose|j: int| #[trigger] has_key_at(t, q, j);
        assert(has_key_at(t, q, j));
        lemma_assoc_at(t, j);
        if j < s.len() {
            lemma_assoc_at(s, j);
        }
    }
    assert(assoc_map(t) =~= m);
}

proof fn lemma_assoc_empty<K: View, V>(s: Seq<(K, V)>)
    requires
        s.len() == 0,
    ensures
        distinct_keys(s),
        assoc_map(s) == Map::<K::V, V>::empty(),
{
    assert(assoc_map(s) =~= Map::<K::V, V>::empty());
}

proof fn lemma_assoc_len<K: View, V>(s: Seq<(K, V)>)
    requires
        distinct_keys(s),
    ensures
        assoc_map(s).dom().finite(),
        assoc_map(s).len() == s.len(),
    decreases s.len(),
{
    if s.len() == 0 {
        lemma_assoc_empty(s);
    } else {
        let p = s.drop_last();
        assert forall|a: int, b: int|
            0 <= a < p.len() && 0 <= b < p.len() && a != b implies (#[trigger] p[a]).0@ != (
            #[trigger] p[b]).0@ by {
            assert(s[a].0@ != s[b].0@);
        }
        lemma_assoc_len(p);
        if assoc_map(p).contains_key(s.last().0@) {
            let j = choose|j: int| #[trigger] has_key_at(p, s.last().0@, j);
            assert(s[j].0@ != s[s.len() - 1].0@);
        }
        lemma_assoc_push(p, s.last().0, s.last().1);
        assert(p.push(s.last()) =~= s);
    }
}

impl<K: CacheKey, V: Clone> LocatorCache<K, V> {
    /// What the cache holds: the value stored under each key.
    pub closed spec fn view(&self) -> Map<K::V, V> {
        assoc_map(self.entries@)
    }

    /// The entries never hold two values for one key.
    pub closed spec fn wf(&self) -> bool {
        distinct_keys(self.entries@)
    }

    /// A well-formed cache holds finitely many keys.
    pub proof fn lemma_wf_finite(&self)
        requires
            self.wf(),
        ensures
            self.view().dom().finite(),
    {
        lemma_assoc_len(self.entries@);
    }

    /// Creates a new empty cache.
    pub fn new() -> (r: Self)
        ensures
            r.wf(),
            r.view() == Map::<K::V, V>::empty(),
    {
        let r = LocatorCache { entries: Vec::new() };
        proof {
            lemma_assoc_empty(r.entries@);
        }
        r
    }

    fn position(&self, key: &K) -> (r: Option<usize>)
        requires
            self.wf(),
        ensures
            match r {
                Some(i) => i < self.entries@.len() && self.entries@[i as int].0@ == key@,
                None => !self.view().contains_key(key@),
            },
    {
        let mut i: usize = 0;
        while i < self.entries.len()
            invariant
                0 <= i <= self.entries@.len(),
                forall|j: int| 0 <= j < i ==> (#[trigger] self.entries@[j]).0@ != key@,
            decreases self.entries.len() - i,
        {
            if self.entries[i].0.same_key(key) {
                return Some(i);
            }
            i = i + 1;
        }
        proof {
            if self.view().contains_key(key@) {
                let j = choose|j: int| #[trigger] has_key_at(self.entries@, key@, j);
                assert(self.entries@[j].0@ != key@);
            }
        }
        None
    }

    /// A copy of the value cached for `key`, if any.
    pub fn get(&self, key: &K) -> (r: Option<V>)
        requires
            self.wf(),
        ensures
            match r {
                Some(v) => self.view().contains_key(key@) && cloned(self.view()[key@], v),
                None => !self.view().contains_key(key@),
            },
    {
        match self.position(key) {
            Some(i) => {
                proof {
                    lemma_assoc_at(self.entries@, i as int);
                }
                Some(self.entries[i].1.clone())
            },
            None => None,
        }
    }

    /// Whether a value is cached for `key`.
    pub fn contains_key(&self, key: &K) -> (r: bool)
        requires
            self.wf(),
        ensures
            r == self.view().contains_key(key@),
    {
        match self.position(key) {
            Some(i) => {
                proof {
                    lemma_assoc_at(self.entries@, i as int);
                }
                true
            },
            None => false,
        }
    }

    /// Caches `value` under `key`, giving back the value it replaces.
    pub fn insert(&mut self, key: K, value: V) -> (r: Option<V>)
        requires
            old(self).wf(),
        ensures
            final(self).wf(),
            final(self).view() == old(self).view().insert(key@, value),
            match r {
                Some(p) => old(self).view().contains_key(key@) && p == old(self).view()[key@],
                None => !old(self).view().contains_key(key@),
            },
            final(self).view().dom().finite(),
            final(self).view().len() == old(self).view().len() + if old(self).view().contains_key(key@) {
                0int
            } else {
                1int
            },
    {
        proof {
            lemma_assoc_len(self.entries@);
        }
        let r = self.insert_entry(key, value);
        proof {
            lemma_assoc_len(self.entries@);
        }
        r
    }

    /// [`LocatorCache::insert`] on the association list.
    fn insert_entry(&mut self, key: K, value: V) -> (r: Option<V>)
        requires
            old(self).wf(),
        ensures
            final(self).wf(),
            final(self).view() == old(self).view().insert(key@, value),
            match r {
                Some(p) => old(self).view().contains_key(key@) && p == old(self).view()[key@],
                None => !old(self).view().contains_key(key@),
            },
            final(self).entries@.len() == old(self).entries@.len() + if old(self).view().contains_key(key@) {
                0int
            } else {
                1int
            },
    {
        match self.position(&key) {
            Some(i) => {
                proof {
                    lemma_assoc_at(self.entries@, i as int);
                    lemma_assoc_update(self.entries@, i as int, key, value);
                }
                let mut pair = (key, value);
                self.entries.set_and_swap(i, &mut pair);
                Some(pair.1)
            },
            None => {
                proof {
                    lemma_assoc_push(self.entries@, key, value);
                }
                self.entries.push((key, value));
                None
            },
        }
    }

    /// Caches every pair of `entries`, in order; a later pair wins over an earlier one.
    pub fn insert_many(&mut self, entries: Vec<(K, V)>)
        requires
            old(self).wf(),
        ensures
            final(self).wf(),
            final(self).view() == insert_all(old(self).view(), entries@),
    {
        let mut rest = entries;
        let ghost total = rest@;
        while rest.len() > 0
            invariant
                self.wf(),
                total.len() >= rest@.len(),
                rest@ == total.subrange(total.len() - rest@.len(), total.len() as int),
                self.view() == insert_all(
                    old(self).view(),
                    total.subrange(0, total.len() - rest@.len()),
                ),
            decreases rest.len(),
        {
            let ghost n = total.len() - rest@.len();
            let ghost done = total.subrange(0, n);
            let (k, v) = rest.remove(0);
            self.insert(k, v);
            proof {
                assert(total[n] == (k, v));
                assert(total.subrange(0, n + 1) =~= done.push(total[n]));
                lemma_insert_all_push(old(self).view(), done, total[n]);
                assert(rest@ =~= total.subrange(total.len() - rest@.len(), total.len() as int));
            }
        }
        assert(total.subrange(0, total.len() as int) =~= total);
    }

    /// The cached value for `key`; when there is none, `f` computes one, which is
    /// cached if it is `Some`.
    pub fn get_or_insert_with<F: FnOnce() -> Option<V>>(&mut self, key: K, f: F) -> (r: Option<V>)
        requires
            old(self).wf(),
            old(self).view().contains_key(key@) || f.requires(()),
        ensures
            final(self).wf(),
            old(self).view().contains_key(key@) ==> final(self).view() == old(self).view() && r
                is Some && cloned(old(self).view()[key@], r->0),
            !old(self).view().contains_key(key@) ==> f.ensures((), r) && match r {
                Some(v) => final(self).view().contains_key(key@) && cloned(
                    v,
                    final(self).view()[key@],
                ) && final(self).view() == old(self).view().insert(
                    key@,
                    final(self).view()[key@],
                ),
                None => final(self).view() == old(self).view(),
            },
    {
        match self.position(&key) {
            Some(i) => {
                proof {
                    lemma_assoc_at(self.entries@, i as int);
                }
                Some(self.entries[i].1.clone())
            },
            None => {
                let computed = f();
                match computed {
                    Some(value) => {
                        let kept = value.clone();
                        proof {
                            lemma_assoc_push(self.entries@, key, kept);
                            lemma_assoc_at(self.entries@.push((key, kept)), self.entries@.len() as int);
                        }
                        self.entries.push((key, kept));
                        Some(value)
                    },
                    None => None,
                }
            },
        }
    }

    /// Removes every entry.
    pub fn clear(&mut self)
        ensures
            final(self).wf(),
            final(self).view() == Map::<K::V, V>::empty(),
    {
        self.entries.clear();
        proof {
            lemma_assoc_empty(self.entries@);
        }
    }

    /// Copies of all cached values, one per key.
    pub fn values(&self) -> (r: Vec<V>)
        requires
            self.wf(),
        ensures
            r@.len() == self.view().len(),
            forall|i: int| 0 <= i < r@.len() ==> copies_a_value(self.view(), #[trigger] r@[i]),
            one_value_per_key(self.view(), r@),
    {
        proof {
            lemma_assoc_len(self.entries@);
        }
        let mut out: Vec<V> = Vec::new();
        let mut i: usize = 0;
        while i < self.entries.len()
            invariant
                self.wf(),
                0 <= i <= self.entries@.len(),
                out@.len() == i,
                forall|j: int| 0 <= j < i ==> cloned(self.entries@[j].1, #[trigger] out@[j]),
            decreases self.entries.len() - i,
        {
            out.push(self.entries[i].1.clone());
            i = i + 1;
        }
        assert forall|j: int| 0 <= j < out@.len() implies copies_a_value(
            self.view(),
            #[trigger] out@[j],
        ) by {
            lemma_assoc_at(self.entries@, j);
            assert(self.view().contains_key(self.entries@[j].0@));
        }
        let ghost keys = self.entries@.map_values(|e: (K, V)| e.0@);
        proof {
            let s = self.entries@;
            assert forall|i: int| 0 <= i < keys.len() implies self.view().contains_key(#[trigger] keys[i])
                && cloned(self.view()[keys[i]], out@[i]) by {
                lemma_assoc_at(s, i);
            }
            assert forall|a: int, b: int| 0 <= a < keys.len() && 0 <= b < keys.len() && a != b implies keys[a]
                != keys[b] by {
                assert(s[a].0@ != s[b].0@);
            }
            assert forall|k: K::V| self.view().contains_key(k) implies #[trigger] keys.contains(k) by {
                let j = choose|j: int| #[trigger] has_key_at(s, k, j);
                assert(keys[j] == k);
            }
            assert(keyed_values(self.view(), out@, keys));
        }
        out
    }

    /// Copies of all entries, one per key: every key of the cache once, each
    /// with a copy of its value.
    pub fn clone_map(&self) -> (r: Vec<(K, V)>)
        requires
            self.wf(),
        ensures
            distinct_keys(r@),
            r@.len() == self.view().len(),
            forall|i: int|
                0 <= i < r@.len() ==> self.view().contains_key((#[trigger] r@[i]).0@) && cloned(
                    self.view()[r@[i].0@],
                    r@[i].1,
                ),
            forall|k: K::V| #[trigger] self.view().contains_key(k) ==> exists|i: int|
                0 <= i < r@.len() && (#[trigger] r@[i]).0@ == k,
    {
        proof {
            lemma_assoc_len(self.entries@);
        }
        let mut out: Vec<(K, V)> = Vec::new();
        let mut i: usize = 0;
        while i < self.entries.len()
            invariant
                self.wf(),
                0 <= i <= self.entries@.len(),
                out@.len() == i,
                forall|j: int| 0 <= j < i ==> (#[trigger] out@[j]).0@ == self.entries@[j].0@ && cloned(
                    self.entries@[j].1,
                    out@[j].1,
                ),
            decreases self.entries.len() - i,
        {
            let key = self.entries[i].0.copy_key();
            let value = self.entries[i].1.clone();
            out.push((key, value));
            i = i + 1;
        }
        assert forall|a: int, b: int|
            0 <= a < out@.len() && 0 <= b < out@.len() && a != b implies (#[trigger] out@[a]).0@ != (
            #[trigger] out@[b]).0@ by {
            assert(self.entries@[a].0@ != self.entries@[b].0@);
        }
        assert forall|j: int| 0 <= j < out@.len() implies self.view().contains_key(
            (#[trigger] out@[j]).0@,
        ) && cloned(self.view()[out@[j].0@], out@[j].1) by {
            lemma_assoc_at(self.entries@, j);
        }
        assert forall|k: K::V| #[trigger] self.view().contains_key(k) implies exists|i: int|
            0 <= i < out@.len() && (#[trigger] out@[i]).0@ == k by {
            let j = choose|j: int| #[trigger] has_key_at(self.entries@, k, j);
            assert(out@[j].0@ == k);
        }
        out
    }

    /// Number of cached entries.
    pub fn len(&self) -> (r: usize)
        requires
            self.wf(),
        ensures
            r == self.view().len(),
    {
        proof {
            lemma_assoc_len(self.entries@);
        }
        self.entries.len()
    }

    /// Whether nothing is cached.
    pub fn is_empty(&self) -> (r: bool)
        requires
            self.wf(),
        ensures
            r == (self.view().len() == 0),
    {
        proof {
            lemma_assoc_len(self.entries@);
        }
        self.entries.len() == 0
    }
}

/// `v` is a copy of a value that `m` holds.
pub open spec fn copies_a_value<K, V: Clone>(m: Map<K, V>, v: V) -> bool {
    exists|k: K| #[trigger] m.contains_key(k) && cloned(m[k], v)
}

/// `m` after inserting the pairs of `s` in order.
pub open spec fn insert_all<K: View, V>(m: Map<K::V, V>, s: Seq<(K, V)>) -> Map<K::V, V>
    decreases s.len(),
{
    if s.len() == 0 {
        m
    } else {
        insert_all(m, s.drop_last()).insert(s.last().0@, s.last().1)
    }
}

/// Inserting pairs keeps every key that was there.
pub proof fn lemma_insert_all_keeps_keys<K: View, V>(m: Map<K::V, V>, s: Seq<(K, V)>, k: K::V)
    requires
        m.contains_key(k),
    ensures
        insert_all(m, s).contains_key(k),
    decreases s.len(),
{
    if s.len() > 0 {
        lemma_insert_all_keeps_keys(m, s.drop_last(), k);
    }
}

proof fn lemma_insert_all_push<K: View, V>(m: Map<K::V, V>, s: Seq<(K, V)>, e: (K, V))
    ensures
        insert_all(m, s.push(e)) == insert_all(m, s).insert(e.0@, e.1),
{
    assert(s.push(e).drop_last() =~= s);
}

} // verus!
