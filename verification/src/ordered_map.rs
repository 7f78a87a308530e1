//! A map keyed by `u64` whose entries are kept in strictly increasing key
//! order; that order is the order in which every walk over it (such as a
//! pro-rata reduction) visits the keys.

use vstd::prelude::*;

verus! {

/// Strictly increasing keys: every key occurs once, in ascending order.
pub open spec fn sorted_keys<V>(s: Seq<(u64, V)>) -> bool {
    forall|i: int, j: int| 0 <= i < j < s.len() ==> #[trigger] s[i].0 < #[trigger] s[j].0
}

/// The map that a sorted entry sequence stands for.
pub open spec fn entries_map<V>(s: Seq<(u64, V)>) -> Map<u64, V> {
    Map::new(
        |k: u64| exists|i: int| 0 <= i < s.len() && s[i].0 == k,
        |k: u64| s[choose|i: int| 0 <= i < s.len() && s[i].0 == k].1,
    )
}

pub proof fn lemma_entries_map_at<V>(s: Seq<(u64, V)>, i: int)
    requires
        sorted_keys(s),
        0 <= i < s.len(),
    ensures
        entries_map(s).contains_key(s[i].0),
        entries_map(s)[s[i].0] == s[i].1,
{
    let k = s[i].0;
    assert(exists|j: int| 0 <= j < s.len() && s[j].0 == k);
    let j = choose|j: int| 0 <= j < s.len() && s[j].0 == k;
    if j < i {
        assert(s[j].0 < s[i].0);
    } else if i < j {
        assert(s[i].0 < s[j].0);
    }
}

pub proof fn lemma_entries_map_absent<V>(s: Seq<(u64, V)>, k: u64)
    requires
        forall|i: int| 0 <= i < s.len() ==> s[i].0 != k,
    ensures
        !entries_map(s).contains_key(k),
{
}

/// Two sorted sequences with the same entries at the same positions
/// (possibly after an update or an insertion) stand for the matching maps.
pub proof fn lemma_entries_map_ext<V>(s: Seq<(u64, V)>, m: Map<u64, V>)
    requires
        sorted_keys(s),
        forall|i: int| 0 <= i < s.len() ==> m.contains_key(#[trigger] s[i].0) && m[s[i].0] == s[i].1,
        forall|k: u64| m.contains_key(k) ==> exists|i: int| 0 <= i < s.len() && s[i].0 == k,
    ensures
        entries_map(s) == m,
{
    assert forall|k: u64| entries_map(s).contains_key(k) <==> m.contains_key(k) by {
        if m.contains_key(k) {
            let i = choose|i: int| 0 <= i < s.len() && s[i].0 == k;
            lemma_entries_map_at(s, i);
        }
    }
    assert forall|k: u64| entries_map(s).contains_key(k) implies entries_map(s)[k] == m[k] by {
        let i = choose|i: int| 0 <= i < s.len() && s[i].0 == k;
        lemma_entries_map_at(s, i);
    }
    assert(entries_map(s) =~= m);
}

/// A finite map from `u64` keys, iterated in ascending key order.
pub struct OrderedMap<V> {
    entries: Vec<(u64, V)>,
}

impl<V> OrderedMap<V> {
    /// The entries in ascending key order.
    pub closed spec fn entries(&self) -> Seq<(u64, V)> {
        self.entries@
    }

    pub open spec fn wf(&self) -> bool {
        sorted_keys(self.entries())
    }

    pub open spec fn view(&self) -> Map<u64, V> {
        entries_map(self.entries())
    }

    /// The values in ascending key order.
    pub open spec fn values(&self) -> Seq<V> {
        self.entries().map_values(|e: (u64, V)| e.1)
    }

    /// The keys in ascending order.
    pub open spec fn keys(&self) -> Seq<u64> {
        self.entries().map_values(|e: (u64, V)| e.0)
    }

    pub fn new() -> (m: Self)
        ensures
            m.wf(),
            m.entries() == Seq::<(u64, V)>::empty(),
            m@ == Map::<u64, V>::empty(),
    {
        let m = OrderedMap { entries: Vec::new() };
        proof {
            assert(entries_map(m.entries()) =~= Map::<u64, V>::empty());
        }
        m
    }

    pub fn len(&self) -> (n: usize)
        ensures
            n == self.entries().len(),
    {
        self.entries.len()
    }

    pub fn key_at(&self, i: usize) -> (k: u64)
        requires
            i < self.entries().len(),
        ensures
            k == self.entries()[i as int].0,
    {
        self.entries[i].0
    }

    pub fn value_at(&self, i: usize) -> (v: &V)
        requires
            i < self.entries().len(),
        ensures
            *v == self.entries()[i as int].1,
    {
        &self.entries[i].1
    }

    /// Index of `k` among the entries, if present.
    pub fn find(&self, k: u64) -> (r: Option<usize>)
        requires
            self.wf(),
        ensures
            match r {
                Some(i) => i < self.entries().len() && self.entries()[i as int].0 == k,
                None => forall|i: int| 0 <= i < self.entries().len() ==> self.entries()[i].0 != k,
            },
            r is Some <==> self@.contains_key(k),
    {
        let mut i: usize = 0;
        while i < self.entries.len()
            invariant
                self.wf(),
                i <= self.entries@.len(),
                forall|j: int| 0 <= j < i ==> self.entries@[j].0 != k,
            decreases self.entries@.len() - i,
        {
            if self.entries[i].0 == k {
                proof {
                    lemma_entries_map_at(self.entries(), i as int);
                }
                return Some(i);
            }
            i = i + 1;
        }
        proof {
            lemma_entries_map_absent(self.entries(), k);
        }
        None
    }

    pub fn contains_key(&self, k: u64) -> (b: bool)
        requires
            self.wf(),
        ensures
            b == self@.contains_key(k),
    {
        self.find(k).is_some()
    }

    pub fn get(&self, k: u64) -> (r: Option<&V>)
        requires
            self.wf(),
        ensures
            match r {
                Some(v) => self@.contains_key(k) && *v == self@[k],
                None => !self@.contains_key(k),
            },
    {
        match self.find(k) {
            Some(i) => {
                proof {
                    lemma_entries_map_at(self.entries(), i as int);
                }
                Some(&self.entries[i].1)
            },
            None => None,
        }
    }

    /// Insert `k -> v`, replacing the value of an existing key in place.
    pub fn set(&mut self, k: u64, v: V)
        requires
            old(self).wf(),
        ensures
            final(self).wf(),
            final(self)@ == old(self)@.insert(k, v),
            old(self)@.contains_key(k) ==> final(self).entries().len() == old(self).entries().len(),
            !old(self)@.contains_key(k) ==> final(self).entries().len() == old(self).entries().len()
                + 1,
            old(self)@.contains_key(k) ==> exists|i: int|
                0 <= i < old(self).entries().len() && old(self).entries()[i].0 == k
                    && final(self).entries() == old(self).entries().update(i, (k, v)),
            !old(self)@.contains_key(k) ==> exists|i: int|
                0 <= i <= old(self).entries().len() && final(self).entries() == old(
                    self,
                ).entries().insert(i, (k, v)),
    {
        let ghost s = self.entries@;
        let mut i: usize = 0;
        while i < self.entries.len() && self.entries[i].0 < k
            invariant
                s == self.entries@,
                sorted_keys(s),
                i <= s.len(),
                forall|j: int| 0 <= j < i ==> s[j].0 < k,
            decreases s.len() - i,
        {
            i = i + 1;
        }
        let ghost m = entries_map(s).insert(k, v);
        if i < self.entries.len() && self.entries[i].0 == k {
            self.entries.set(i, (k, v));
            proof {
                let t = self.entries@;
                assert(t == s.update(i as int, (k, v)));
                assert(sorted_keys(t)) by {
                    assert forall|a: int, b: int| 0 <= a < b < t.len() implies #[trigger] t[a].0
                        < #[trigger] t[b].0 by {
                        assert(s[a].0 < s[b].0);
                    }
                }
                assert forall|j: int| 0 <= j < t.len() implies m.contains_key(#[trigger] t[j].0)
                    && m[t[j].0] == t[j].1 by {
                    if j != i {
                        lemma_entries_map_at(s, j);
                        assert(s[j].0 != k);
                    }
                }
                assert forall|kk: u64| m.contains_key(kk) implies exists|j: int|
                    0 <= j < t.len() && t[j].0 == kk by {
                    if kk != k {
                        let j = choose|j: int| 0 <= j < s.len() && s[j].0 == kk;
                        assert(t[j].0 == kk);
                    } else {
                        assert(t[i as int].0 == kk);
                    }
                }
                lemma_entries_map_ext(t, m);
                lemma_entries_map_at(s, i as int);
            }
        } else {
            self.entries.insert(i, (k, v));
            proof {
                let t = self.entries@;
                assert(t == s.insert(i as int, (k, v)));
                assert(forall|j: int| i <= j < s.len() ==> s[j].0 > k) by {
                    assert forall|j: int| i <= j < s.len() implies s[j].0 > k by {
                        if j > i {
                            assert(s[i as int].0 < s[j].0);
                        }
                    }
                }
                assert(sorted_keys(t)) by {
                    assert forall|a: int, b: int| 0 <= a < b < t.len() implies #[trigger] t[a].0
                        < #[trigger] t[b].0 by {
                        if b < i {
                            assert(s[a].0 < s[b].0);
                        } else if b == i {
                        } else if a < i {
                            assert(t[b] == s[b - 1]);
                        } else if a == i {
                            assert(t[b] == s[b - 1]);
                        } else {
                            assert(s[a - 1].0 < s[b - 1].0);
                        }
                    }
                }
                assert(forall|j: int| 0 <= j < s.len() ==> s[j].0 != k);
                assert forall|j: int| 0 <= j < t.len() implies m.contains_key(#[trigger] t[j].0)
                    && m[t[j].0] == t[j].1 by {
                    if j < i {
                        lemma_entries_map_at(s, j);
                    } else if j > i {
                        lemma_entries_map_at(s, j - 1);
                    }
                }
                assert forall|kk: u64| m.contains_key(kk) implies exists|j: int|
                    0 <= j < t.len() && t[j].0 == kk by {
                    if kk != k {
                        let j = choose|j: int| 0 <= j < s.len() && s[j].0 == kk;
                        if j < i {
                            assert(t[j].0 == kk);
                        } else {
                            assert(t[j + 1].0 == kk);
                        }
                    } else {
                        assert(t[i as int].0 == kk);
                    }
                }
                lemma_entries_map_ext(t, m);
                lemma_entries_map_absent(s, k);
            }
        }
    }

    /// Append an entry whose key is above every present key.
    pub fn push_last(&mut self, k: u64, v: V)
        requires
            old(self).wf(),
            forall|i: int| 0 <= i < old(self).entries().len() ==> old(self).entries()[i].0 < k,
        ensures
            final(self).wf(),
            final(self).entries() == old(self).entries().push((k, v)),
            final(self)@ == old(self)@.insert(k, v),
    {
        let ghost s = self.entries@;
        self.entries.push((k, v));
        proof {
            let t = self.entries@;
            let m = entries_map(s).insert(k, v);
            assert(sorted_keys(t)) by {
                assert forall|a: int, b: int| 0 <= a < b < t.len() implies #[trigger] t[a].0
                    < #[trigger] t[b].0 by {
                    if b < s.len() {
                        assert(s[a].0 < s[b].0);
                    }
                }
            }
            assert forall|j: int| 0 <= j < t.len() implies m.contains_key(#[trigger] t[j].0)
                && m[t[j].0] == t[j].1 by {
                if j < s.len() {
                    lemma_entries_map_at(s, j);
                }
            }
            assert forall|kk: u64| m.contains_key(kk) implies exists|j: int|
                0 <= j < t.len() && t[j].0 == kk by {
                if kk != k {
                    let j = choose|j: int| 0 <= j < s.len() && s[j].0 == kk;
                    assert(t[j].0 == kk);
                } else {
                    assert(t[s.len() as int].0 == kk);
                }
            }
            lemma_entries_map_ext(t, m);
        }
    }

    /// Remove `k` if present; returns the value it held.
    pub fn remove(&mut self, k: u64) -> (r: Option<V>)
        requires
            old(self).wf(),
        ensures
            final(self).wf(),
            final(self)@ == old(self)@.remove(k),
            match r {
                Some(v) => old(self)@.contains_key(k) && v == old(self)@[k],
                None => !old(self)@.contains_key(k),
            },
            old(self)@.contains_key(k) ==> exists|i: int|
                0 <= i < old(self).entries().len() && old(self).entries()[i].0 == k
                    && final(self).entries() == old(self).entries().remove(i),
            !old(self)@.contains_key(k) ==> final(self).entries() == old(self).entries(),
    {
        let ghost s = self.entries@;
        match self.find(k) {
            Some(i) => {
                let (_, v) = self.entries.remove(i);
                proof {
                    let t = self.entries@;
                    let m = entries_map(s).remove(k);
                    assert(t == s.remove(i as int));
                    assert(sorted_keys(t)) by {
                        assert forall|a: int, b: int| 0 <= a < b < t.len() implies #[trigger] t[a].0
                            < #[trigger] t[b].0 by {
                            if b < i {
                                assert(s[a].0 < s[b].0);
                            } else if a < i {
                                assert(s[a].0 < s[b + 1].0);
                            } else {
                                assert(s[a + 1].0 < s[b + 1].0);
                            }
                        }
                    }
                    assert forall|j: int| 0 <= j < t.len() implies m.contains_key(#[trigger] t[j].0)
                        && m[t[j].0] == t[j].1 by {
                        if j < i {
                            lemma_entries_map_at(s, j);
                            assert(s[j].0 < s[i as int].0);
                        } else {
                            lemma_entries_map_at(s, j + 1);
                            assert(s[i as int].0 < s[j + 1].0);
                        }
                    }
                    assert forall|kk: u64| m.contains_key(kk) implies exists|j: int|
                        0 <= j < t.len() && t[j].0 == kk by {
                        let j = choose|j: int| 0 <= j < s.len() && s[j].0 == kk;
                        assert(j != i);
                        if j < i {
                            assert(t[j].0 == kk);
                        } else {
                            assert(t[j - 1].0 == kk);
                        }
                    }
                    lemma_entries_map_ext(t, m);
                    lemma_entries_map_at(s, i as int);
                }
                Some(v)
            },
            None => {
                proof {
                    assert(entries_map(s).remove(k) =~= entries_map(s));
                }
                None
            },
        }
    }
}

impl<V: Copy> OrderedMap<V> {
    /// A copy of the map.
    pub fn clone_map(&self) -> (c: Self)
        ensures
            c.entries() == self.entries(),
            c@ == self@,
    {
        let mut out: Vec<(u64, V)> = Vec::new();
        let mut i: usize = 0;
        while i < self.entries.len()
            invariant
                i <= self.entries@.len(),
                out@ == self.entries@.take(i as int),
            decreases self.entries@.len() - i,
        {
            let e = self.entries[i];
            out.push(e);
            proof {
                assert(out@ =~= self.entries@.take(i as int + 1));
            }
            i = i + 1;
        }
        proof {
            assert(out@ =~= self.entries@);
        }
        OrderedMap { entries: out }
    }
}

} // verus!
