//! A map keyed by names, kept as a list of entries in which no name occurs twice.
use vstd::prelude::*;

use crate::text::texts;

verus! {

/// What a `KeyedMap` can be keyed by: two keys are the same when their names are.
pub trait Key: Sized {
    type Name;

    spec fn name(&self) -> Self::Name;

    /// Whether `self` and `other` carry the same name.
    fn same(&self, other: &Self) -> (r: bool)
        ensures
            r == (self.name() == other.name()),
    ;

    /// A second key with the same name.
    fn copied(&self) -> (r: Self)
        ensures
            r.name() == self.name(),
    ;
}

impl Key for String {
    type Name = Seq<char>;

    open spec fn name(&self) -> Seq<char> {
        self@
    }

    fn same(&self, other: &Self) -> (r: bool) {
        *self == *other
    }

    fn copied(&self) -> (r: Self) {
        self.clone()
    }
}

impl Key for (String, String) {
    type Name = (Seq<char>, Seq<char>);

    open spec fn name(&self) -> (Seq<char>, Seq<char>) {
        (self.0@, self.1@)
    }

    fn same(&self, other: &Self) -> (r: bool) {
        self.0 == other.0 && self.1 == other.1
    }

    fn copied(&self) -> (r: Self) {
        (self.0.clone(), self.1.clone())
    }
}

impl Key for u64 {
    type Name = u64;

    open spec fn name(&self) -> u64 {
        *self
    }

    fn same(&self, other: &Self) -> (r: bool) {
        *self == *other
    }

    fn copied(&self) -> (r: Self) {
        *self
    }
}

/// A map from names to values.
pub struct KeyedMap<K: Key, V: View> {
    entries: Vec<(K, V)>,
}

/// Whether `n` names an entry of `s`.
spec fn named<K: Key, V: View>(s: Seq<(K, V)>, n: K::Name) -> bool {
    exists|i: int| 0 <= i < s.len() && (#[trigger] s[i]).0.name() == n
}

/// The entry of `s` that carries the name `n`.
spec fn slot<K: Key, V: View>(s: Seq<(K, V)>, n: K::Name) -> int {
    choose|i: int| 0 <= i < s.len() && (#[trigger] s[i]).0.name() == n
}

/// What the entries `s` hold, as a mathematical map.
spec fn contents<K: Key, V: View>(s: Seq<(K, V)>) -> Map<K::Name, V::V> {
    Map::new(|n: K::Name| named(s, n), |n: K::Name| s[slot(s, n)].1@)
}

impl<K: Key, V: View> View for KeyedMap<K, V> {
    type V = Map<K::Name, V::V>;

    closed spec fn view(&self) -> Map<K::Name, V::V> {
        contents(self.entries@)
    }
}

impl<K: Key, V: View> KeyedMap<K, V> {
    /// No name occurs twice.
    pub closed spec fn wf(&self) -> bool {
        forall|i: int, j: int|
            0 <= i < j < self.entries@.len() ==> (#[trigger] self.entries@[i]).0.name() != (
            #[trigger] self.entries@[j]).0.name()
    }

    /// How many entries there are.
    pub closed spec fn count(&self) -> nat {
        self.entries@.len()
    }

    /// The name of entry `i`.
    pub closed spec fn name_at(&self, i: int) -> K::Name {
        self.entries@[i].0.name()
    }

    /// Whether `ok` holds of every value.
    pub closed spec fn all(&self, ok: spec_fn(V) -> bool) -> bool {
        forall|i: int| 0 <= i < self.entries@.len() ==> ok((#[trigger] self.entries@[i]).1)
    }

    /// Every entry is found under its name, and every name belongs to an entry.
    pub proof fn lemma_entries(&self)
        requires
            self.wf(),
        ensures
            forall|i: int|
                0 <= i < self.count() ==> self@.contains_key(#[trigger] self.name_at(i)),
            forall|i: int, j: int|
                0 <= i < j < self.count() ==> #[trigger] self.name_at(i) != #[trigger] self.name_at(
                    j,
                ),
            forall|n: K::Name| #[trigger]
                self@.contains_key(n) ==> exists|i: int|
                    0 <= i < self.count() && #[trigger] self.name_at(i) == n,
    {
        assert forall|n: K::Name| #[trigger] self@.contains_key(n) implies exists|i: int|
            0 <= i < self.count() && #[trigger] self.name_at(i) == n by {
            let i = slot(self.entries@, n);
            assert(self.name_at(i) == n);
        }
    }

    /// There are as many names as entries.
    pub proof fn lemma_count(&self)
        requires
            self.wf(),
        ensures
            self@.dom().finite(),
            self@.dom().len() == self.count(),
    {
        let names = self.entries@.map_values(|e: (K, V)| e.0.name());
        assert forall|i: int, j: int|
            0 <= i < names.len() && 0 <= j < names.len() && i != j implies names[i] != names[j] by {
            if i < j {
                assert(self.entries@[i].0.name() != self.entries@[j].0.name());
            } else {
                assert(self.entries@[j].0.name() != self.entries@[i].0.name());
            }
        }
        names.unique_seq_to_set();
        assert forall|n: K::Name| self@.dom().contains(n) == names.to_set().contains(n) by {
            if self@.dom().contains(n) {
                let i = slot(self.entries@, n);
                assert(names[i] == n);
            }
            if names.to_set().contains(n) {
                let i = choose|i: int| 0 <= i < names.len() && names[i] == n;
                assert(self.entries@[i].0.name() == n);
            }
        }
        assert(self@.dom() =~= names.to_set());
    }

    pub fn new() -> (m: Self)
        ensures
            m.wf(),
            m@ == Map::<K::Name, V::V>::empty(),
            m.count() == 0,
            forall|ok: spec_fn(V) -> bool| #[trigger] m.all(ok),
    {
        KeyedMap { entries: Vec::new() }
    }

    pub fn len(&self) -> (n: usize)
        ensures
            n == self.count(),
    {
        self.entries.len()
    }

    /// Where the entry named by `k` stands, if there is one.
    fn find(&self, k: &K) -> (r: Option<usize>)
        requires
            self.wf(),
        ensures
            match r {
                Some(i) => {
                    &&& i < self.entries@.len()
                    &&& self.entries@[i as int].0.name() == k.name()
                    &&& slot(self.entries@, k.name()) == i
                    &&& self@.contains_key(k.name())
                },
                None => !self@.contains_key(k.name()),
            },
    {
        let mut i: usize = 0;
        while i < self.entries.len()
            invariant
                i <= self.entries@.len(),
                self.wf(),
                forall|j: int| 0 <= j < i ==> (#[trigger] self.entries@[j]).0.name() != k.name(),
            decreases self.entries@.len() - i,
        {
            if self.entries[i].0.same(k) {
                return Some(i);
            }
            i = i + 1;
        }
        None
    }

    pub fn contains_key(&self, k: &K) -> (r: bool)
        requires
            self.wf(),
        ensures
            r == self@.contains_key(k.name()),
    {
        self.find(k).is_some()
    }

    pub fn get(&self, k: &K) -> (r: Option<&V>)
        requires
            self.wf(),
        ensures
            match r {
                Some(v) => {
                    &&& self@.contains_key(k.name())
                    &&& v@ == self@[k.name()]
                    &&& forall|ok: spec_fn(V) -> bool| #[trigger] self.all(ok) ==> ok(*v)
                },
                None => !self@.contains_key(k.name()),
            },
    {
        match self.find(k) {
            Some(i) => Some(&self.entries[i].1),
            None => None,
        }
    }

    /// The key of entry `i`.
    pub fn key_at(&self, i: usize) -> (k: &K)
        requires
            i < self.count(),
        ensures
            k.name() == self.name_at(i as int),
    {
        &self.entries[i].0
    }

    /// The value of entry `i`.
    pub fn value_at(&self, i: usize) -> (v: &V)
        requires
            self.wf(),
            i < self.count(),
        ensures
            self@.contains_key(self.name_at(i as int)),
            v@ == self@[self.name_at(i as int)],
    {
        proof {
            let n = self.name_at(i as int);
            assert(self.entries@[i as int].0.name() == n);
            let j = slot(self.entries@, n);
            assert(j == i);
        }
        &self.entries[i].1
    }

    /// Puts `v` under the name of `k`, in place of what was there.
    pub fn insert(&mut self, k: K, v: V)
        requires
            old(self).wf(),
        ensures
            final(self).wf(),
            final(self)@ == old(self)@.insert(k.name(), v@),
            final(self).count() == if old(self)@.contains_key(k.name()) {
                old(self).count()
            } else {
                old(self).count() + 1
            },
            forall|ok: spec_fn(V) -> bool|
                old(self).all(ok) && ok(v) ==> #[trigger] final(self).all(ok),
    {
        let ghost before = self.entries@;
        let ghost n = k.name();
        let ghost val = v@;
        match self.find(&k) {
            Some(i) => {
                let ghost key = self.entries@[i as int].0;
                let kept = self.entries[i].0.copied();
                self.entries[i] = (kept, v);
                proof {
                    let after = self.entries@;
                    assert(after =~= before.update(i as int, (kept, v)));
                    assert forall|m: K::Name| named(after, m) == (named(before, m) || m == n) by {
                        if named(after, m) {
                            let j = slot(after, m);
                            assert(before[j].0.name() == m);
                        }
                        if named(before, m) {
                            let j = slot(before, m);
                            assert(after[j].0.name() == m);
                        }
                    }
                    assert forall|m: K::Name| #[trigger] named(after, m) implies after[slot(
                        after,
                        m,
                    )].1@ == (if m == n {
                        val
                    } else {
                        before[slot(before, m)].1@
                    }) by {
                        let j = slot(after, m);
                        if m == n {
                            assert(after[i as int].0.name() == m);
                            assert(j == i);
                        } else {
                            assert(before[j].0.name() == m);
                            let l = slot(before, m);
                            assert(after[l].0.name() == m);
                            assert(j == l);
                        }
                    }
                    assert(contents(after) =~= contents(before).insert(n, val));
                }
            },
            None => {
                self.entries.push((k, v));
                proof {
                    let after = self.entries@;
                    let last = before.len() as int;
                    assert(after[last].0.name() == n);
                    assert forall|i: int, j: int| 0 <= i < j < after.len() implies (
                    #[trigger] after[i]).0.name() != (#[trigger] after[j]).0.name() by {
                        if j == last {
                            assert(before[i].0.name() != n);
                        } else {
                            assert(before[i].0.name() != before[j].0.name());
                        }
                    }
                    assert forall|m: K::Name| named(after, m) == (named(before, m) || m == n) by {
                        if named(after, m) {
                            let j = slot(after, m);
                            if j < last {
                                assert(before[j].0.name() == m);
                            }
                        }
                        if named(before, m) {
                            let j = slot(before, m);
                            assert(after[j].0.name() == m);
                        }
                    }
                    assert forall|m: K::Name| #[trigger] named(after, m) implies after[slot(
                        after,
                        m,
                    )].1@ == (if m == n {
                        val
                    } else {
                        before[slot(before, m)].1@
                    }) by {
                        let j = slot(after, m);
                        if m == n {
                            assert(j == last);
                        } else {
                            assert(before[j].0.name() == m);
                            let l = slot(before, m);
                            assert(after[l].0.name() == m);
                            assert(j == l);
                        }
                    }
                    assert(contents(after) =~= contents(before).insert(n, val));
                }
            },
        }
    }

    /// Takes out the entry named by `k` and hands its value back.
    pub fn remove(&mut self, k: &K) -> (r: Option<V>)
        requires
            old(self).wf(),
        ensures
            final(self).wf(),
            final(self)@ == old(self)@.remove(k.name()),
            match r {
                Some(v) => {
                    &&& old(self)@.contains_key(k.name())
                    &&& v@ == old(self)@[k.name()]
                    &&& final(self).count() == old(self).count() - 1
                },
                None => !old(self)@.contains_key(k.name()) && final(self).count() == old(
                    self,
                ).count(),
            },
            forall|ok: spec_fn(V) -> bool|
                old(self).all(ok) ==> #[trigger] final(self).all(ok) && (r is Some ==> ok(r->0)),
    {
        let ghost before = self.entries@;
        let ghost n = k.name();
        match self.find(k) {
            Some(i) => {
                let (_gone, v) = self.entries.remove(i);
                proof {
                    let after = self.entries@;
                    let p = i as int;
                    assert(after =~= before.remove(p));
                    assert forall|a: int, b: int| 0 <= a < b < after.len() implies (
                    #[trigger] after[a]).0.name() != (#[trigger] after[b]).0.name() by {
                        let a2 = if a < p { a } else { a + 1 };
                        let b2 = if b < p { b } else { b + 1 };
                        assert(before[a2].0.name() != before[b2].0.name());
                    }
                    assert forall|m: K::Name| named(after, m) == (named(before, m) && m != n) by {
                        if named(after, m) {
                            let j = slot(after, m);
                            let j2 = if j < p { j } else { j + 1 };
                            assert(before[j2].0.name() == m);
                            assert(before[p].0.name() == n);
                        }
                        if named(before, m) && m != n {
                            let j = slot(before, m);
                            let j2 = if j < p { j } else { j - 1 };
                            assert(after[j2].0.name() == m);
                        }
                    }
                    assert forall|m: K::Name| #[trigger] named(after, m) implies after[slot(
                        after,
                        m,
                    )].1@ == before[slot(before, m)].1@ by {
                        let j = slot(after, m);
                        let j2 = if j < p { j } else { j + 1 };
                        assert(before[j2].0.name() == m);
                        let l = slot(before, m);
                        assert(l == j2);
                    }
                    assert(contents(after) =~= contents(before).remove(n));
                }
                Some(v)
            },
            None => {
                proof {
                    assert(contents(before) =~= contents(before).remove(n));
                }
                None
            },
        }
    }
}

impl<V: View> KeyedMap<String, V> {
    /// Whether some entry that `keep` marks goes by the name `n`.
    pub open spec fn marked(&self, keep: Seq<bool>, n: Seq<char>) -> bool {
        exists|i: int| 0 <= i < self.count() && keep[i] && #[trigger] self.name_at(i) == n
    }

    /// Lists the names of the entries that `keep` marks.
    pub fn names_marked(&self, keep: &Vec<bool>) -> (r: Vec<String>)
        requires
            self.wf(),
            keep@.len() == self.count(),
        ensures
            texts(r@).no_duplicates(),
            forall|n: Seq<char>| #[trigger]
                texts(r@).contains(n) <==> self.marked(keep@, n),
    {
        let mut out: Vec<String> = Vec::new();
        let mut i: usize = 0;
        proof {
            self.lemma_entries();
        }
        while i < self.len()
            invariant
                self.wf(),
                i <= self.count(),
                keep@.len() == self.count(),
                forall|a: int, b: int|
                    0 <= a < b < self.count() ==> #[trigger] self.name_at(a)
                        != #[trigger] self.name_at(b),
                texts(out@).no_duplicates(),
                forall|n: Seq<char>| #[trigger]
                    texts(out@).contains(n) <==> exists|j: int|
                        0 <= j < i && keep@[j] && #[trigger] self.name_at(j) == n,
            decreases self.count() - i,
        {
            let ghost p = self.name_at(i as int);
            let ghost prior = texts(out@);
            if keep[i] {
                let key = self.key_at(i);
                out.push(key.clone());
                proof {
                    assert(texts(out@) =~= prior.push(p));
                    assert(!prior.contains(p));
                }
            }
            proof {
                let after = texts(out@);
                assert forall|a: int, b: int|
                    0 <= a < after.len() && 0 <= b < after.len() && a != b implies after[a]
                    != after[b] by {
                    if a < prior.len() && b < prior.len() {
                        assert(prior[a] != prior[b]);
                    } else if a < prior.len() {
                        assert(prior.contains(prior[a]));
                    } else {
                        assert(prior.contains(prior[b]));
                    }
                }
                assert forall|n: Seq<char>| #[trigger]
                    after.contains(n) <==> exists|j: int|
                        0 <= j < i + 1 && keep@[j] && #[trigger] self.name_at(j) == n by {
                    if after.contains(n) {
                        let w = choose|w: int| 0 <= w < after.len() && after[w] == n;
                        if w < prior.len() {
                            assert(prior[w] == n);
                            assert(prior.contains(n));
                            let j = choose|j: int|
                                0 <= j < i && keep@[j] && #[trigger] self.name_at(j) == n;
                            assert(self.name_at(j) == n);
                        } else {
                            assert(self.name_at(i as int) == n);
                        }
                    }
                    if exists|j: int|
                        0 <= j < i + 1 && keep@[j] && #[trigger] self.name_at(j) == n {
                        let j = choose|j: int|
                            0 <= j < i + 1 && keep@[j] && #[trigger] self.name_at(j) == n;
                        if j < i {
                            assert(prior.contains(n));
                            let w = choose|w: int| 0 <= w < prior.len() && prior[w] == n;
                            assert(after[w] == n);
                        } else {
                            assert(after[after.len() - 1] == n);
                        }
                    }
                }
            }
            i = i + 1;
        }
        out
    }
}

/// The entries of `m` whose value lies above `bound`.
pub open spec fn above<N>(m: Map<N, u128>, bound: u128) -> Map<N, u128> {
    Map::new(|n: N| m.contains_key(n) && m[n] > bound, |n: N| m[n])
}

impl<K: Key> KeyedMap<K, u128> {
    /// Drops every entry whose value does not lie above `bound`.
    pub fn keep_above(&mut self, bound: u128)
        requires
            old(self).wf(),
        ensures
            final(self).wf(),
            final(self)@ == above(old(self)@, bound),
    {
        let ghost before = self.entries@;
        let mut kept: Vec<(K, u128)> = Vec::new();
        let ghost mut from: Seq<int> = Seq::empty();
        loop
            invariant
                self.entries@.len() <= before.len(),
                self.entries@ == before.take(self.entries@.len() as int),
                from.len() == kept@.len(),
                forall|j: int|
                    0 <= j < from.len() ==> self.entries@.len() <= #[trigger] from[j] < before.len()
                        && kept@[j] == before[from[j]] && before[from[j]].1 > bound,
                forall|i: int, j: int| 0 <= i < j < from.len() ==> from[i] > from[j],
                forall|i: int|
                    self.entries@.len() <= i < before.len() && (#[trigger] before[i]).1 > bound
                        ==> from.contains(i),
            ensures
                self.entries@.len() == 0,
            decreases self.entries@.len(),
        {
            match self.entries.pop() {
                None => {
                    break;
                },
                Some(e) => {
                    let ghost i = self.entries@.len() as int;
                    assert(self.entries@ =~= before.take(i));
                    assert(e == before[i]);
                    let ghost prior = from;
                    if e.1 > bound {
                        kept.push(e);
                        proof {
                            from = from.push(i);
                        }
                    }
                    proof {
                        assert forall|k: int|
                            i <= k < before.len() && (#[trigger] before[k]).1
                                > bound implies from.contains(k) by {
                            if k == i {
                                assert(from[from.len() - 1] == i);
                            } else {
                                assert(prior.contains(k));
                                let w = choose|w: int| 0 <= w < prior.len() && prior[w] == k;
                                assert(from[w] == k);
                            }
                        }
                    }
                },
            }
        }
        self.entries = kept;
        proof {
            let after = self.entries@;
            assert forall|i: int, j: int| 0 <= i < j < after.len() implies (
            #[trigger] after[i]).0.name() != (#[trigger] after[j]).0.name() by {
                assert(from[i] > from[j]);
                assert(before[from[j]].0.name() != before[from[i]].0.name());
            }
            let m = contents(before);
            assert forall|n: K::Name|
                #![trigger named(after, n)]
                named(after, n) == (named(before, n) && m[n] > bound) by {
                if named(after, n) {
                    let j = slot(after, n);
                    assert(before[from[j]].0.name() == n);
                    assert(slot(before, n) == from[j]);
                }
                if named(before, n) && m[n] > bound {
                    let i = slot(before, n);
                    assert(before[i].1 > bound);
                    assert(from.contains(i));
                    let w = choose|w: int| 0 <= w < from.len() && from[w] == i;
                    assert(after[w].0.name() == n);
                }
            }
            assert forall|n: K::Name| #[trigger] named(after, n) implies after[slot(after, n)].1@
                == before[slot(before, n)].1@ by {
                let j = slot(after, n);
                assert(before[from[j]].0.name() == n);
                assert(slot(before, n) == from[j]);
            }
            assert(contents(after) =~= above(m, bound));
        }
    }
}

} // verus!
