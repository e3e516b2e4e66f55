//! Keyed registries: association vectors with unique keys, keyed by session
//! id or by name.  Every operation is specified pointwise over a lookup
//! function, so callers reason about them as maps.

use vstd::prelude::*;

verus! {

/// The value stored under the first entry whose key is `k`.
pub open spec fn spec_assoc_get<K, V>(s: Seq<(K, V)>, k: K) -> Option<V>
    decreases s.len(),
{
    if s.len() == 0 {
        None
    } else if s[0].0 == k {
        Some(s[0].1)
    } else {
        spec_assoc_get(s.drop_first(), k)
    }
}

/// No two entries share a key.
pub open spec fn unique_keys<K, V>(s: Seq<(K, V)>) -> bool {
    forall|i: int, j: int| 0 <= i < j < s.len() ==> (#[trigger] s[i]).0 != (#[trigger] s[j]).0
}

pub proof fn lemma_assoc_get_at<K, V>(s: Seq<(K, V)>, k: K, i: int)
    requires
        0 <= i < s.len(),
        s[i].0 == k,
        forall|t: int| 0 <= t < i ==> (#[trigger] s[t]).0 != k,
    ensures
        spec_assoc_get(s, k) == Some(s[i].1),
    decreases s.len(),
{
    if i > 0 {
        assert(forall|t: int|
            0 <= t < i - 1 ==> (#[trigger] s.drop_first()[t]).0 != k) by {
            assert(forall|t: int| 0 <= t < i - 1 ==> s.drop_first()[t] == s[t + 1]);
        }
        lemma_assoc_get_at(s.drop_first(), k, i - 1);
    }
}

pub proof fn lemma_assoc_get_none<K, V>(s: Seq<(K, V)>, k: K)
    requires
        forall|t: int| 0 <= t < s.len() ==> (#[trigger] s[t]).0 != k,
    ensures
        spec_assoc_get(s, k) == None::<V>,
    decreases s.len(),
{
    if s.len() > 0 {
        lemma_assoc_get_none(s.drop_first(), k);
    }
}

pub proof fn lemma_assoc_get_push<K, V>(s: Seq<(K, V)>, k: K, v: V, k2: K)
    ensures
        spec_assoc_get(s.push((k, v)), k2) == (if spec_assoc_get(s, k2) is Some {
            spec_assoc_get(s, k2)
        } else if k2 == k {
            Some(v)
        } else {
            None
        }),
    decreases s.len(),
{
    if s.len() == 0 {
        assert(s.push((k, v))[0] == (k, v));
        assert(s.push((k, v)).drop_first() =~= Seq::<(K, V)>::empty());
    } else {
        assert(s.push((k, v))[0] == s[0]);
        assert(s.push((k, v)).drop_first() =~= s.drop_first().push((k, v)));
        lemma_assoc_get_push(s.drop_first(), k, v, k2);
    }
}

pub proof fn lemma_assoc_get_update<K, V>(s: Seq<(K, V)>, i: int, v: V, k2: K)
    requires
        0 <= i < s.len(),
        forall|t: int| 0 <= t < i ==> (#[trigger] s[t]).0 != s[i].0,
    ensures
        spec_assoc_get(s.update(i, (s[i].0, v)), k2) == (if k2 == s[i].0 {
            Some(v)
        } else {
            spec_assoc_get(s, k2)
        }),
    decreases s.len(),
{
    let s2 = s.update(i, (s[i].0, v));
    if i == 0 {
        assert(s2[0] == (s[i].0, v));
        assert(s2.drop_first() =~= s.drop_first());
    } else {
        assert(s2[0] == s[0]);
        assert(s2.drop_first() =~= s.drop_first().update(i - 1, (s[i].0, v)));
        assert(forall|t: int|
            0 <= t < i - 1 ==> (#[trigger] s.drop_first()[t]).0 != s.drop_first()[i - 1].0) by {
            assert(forall|t: int| 0 <= t < i - 1 ==> s.drop_first()[t] == s[t + 1]);
        }
        lemma_assoc_get_update(s.drop_first(), i - 1, v, k2);
    }
}

pub proof fn lemma_assoc_get_remove<K, V>(s: Seq<(K, V)>, i: int, k2: K)
    requires
        0 <= i < s.len(),
        unique_keys(s),
    ensures
        spec_assoc_get(s.remove(i), k2) == (if k2 == s[i].0 {
            None
        } else {
            spec_assoc_get(s, k2)
        }),
    decreases s.len(),
{
    let s2 = s.remove(i);
    if i == 0 {
        assert(s2 =~= s.drop_first());
        if k2 == s[0].0 {
            assert(forall|t: int|
                0 <= t < s.drop_first().len() ==> (#[trigger] s.drop_first()[t]).0 != k2) by {
                assert(forall|t: int|
                    0 <= t < s.drop_first().len() ==> s.drop_first()[t] == s[t + 1]);
            }
            lemma_assoc_get_none(s.drop_first(), k2);
        }
    } else {
        assert(s2[0] == s[0]);
        assert(s2.drop_first() =~= s.drop_first().remove(i - 1));
        assert(unique_keys(s.drop_first())) by {
            assert(forall|t: int|
                0 <= t < s.drop_first().len() ==> #[trigger] s.drop_first()[t] == s[t + 1]);
        }
        assert(s.drop_first()[i - 1] == s[i]);
        lemma_assoc_get_remove(s.drop_first(), i - 1, k2);
    }
}

/// A successful lookup names one of the entries.
pub proof fn lemma_assoc_get_some_in<K, V>(s: Seq<(K, V)>, k: K)
    requires
        spec_assoc_get(s, k) is Some,
    ensures
        exists|t: int|
            0 <= t < s.len() && (#[trigger] s[t]).0 == k && s[t].1 == spec_assoc_get(s, k)->0,
    decreases s.len(),
{
    if s.len() > 0 && s[0].0 != k {
        lemma_assoc_get_some_in(s.drop_first(), k);
        let t = choose|t: int|
            0 <= t < s.drop_first().len() && (#[trigger] s.drop_first()[t]).0 == k
                && s.drop_first()[t].1 == spec_assoc_get(s.drop_first(), k)->0;
        assert(s[t + 1] == s.drop_first()[t]);
    }
}

/// A registry keyed by a 128-bit session or job id.
#[derive(Clone, Debug)]
pub struct UuidMap<V> {
    entries: Vec<(u128, V)>,
}

impl<V> View for UuidMap<V> {
    type V = Seq<(u128, V)>;

    closed spec fn view(&self) -> Seq<(u128, V)> {
        self.entries@
    }
}

impl<V> UuidMap<V> {
    /// No two entries share an id.
    pub open spec fn wf(&self) -> bool {
        unique_keys(self@)
    }

    /// The value stored under `k`.
    pub open spec fn spec_get(&self, k: u128) -> Option<V> {
        spec_assoc_get(self@, k)
    }

    /// Is some value stored under `k`?
    pub open spec fn spec_contains(&self, k: u128) -> bool {
        self.spec_get(k) is Some
    }

    /// An empty registry.
    pub fn new() -> (r: UuidMap<V>)
        ensures
            r@ == Seq::<(u128, V)>::empty(),
            r.wf(),
    {
        UuidMap { entries: Vec::new() }
    }

    /// How many entries the registry holds.
    pub fn len(&self) -> (r: usize)
        ensures
            r == self@.len(),
    {
        self.entries.len()
    }

    /// The entries, in insertion order.
    pub fn entries(&self) -> (r: &Vec<(u128, V)>)
        ensures
            r@ == self@,
    {
        &self.entries
    }

    /// Look up the value stored under `k`.
    pub fn get(&self, k: u128) -> (r: Option<&V>)
        ensures
            match r {
                Some(v) => self.spec_get(k) == Some(*v),
                None => self.spec_get(k) is None,
            },
    {
        let mut i: usize = 0;
        while i < self.entries.len()
            invariant
                i <= self@.len(),
                forall|t: int| 0 <= t < i ==> (#[trigger] self@[t]).0 != k,
            decreases self@.len() - i,
        {
            if self.entries[i].0 == k {
                proof {
                    lemma_assoc_get_at(self@, k, i as int);
                }
                return Some(&self.entries[i].1);
            }
            i += 1;
        }
        proof {
            lemma_assoc_get_none(self@, k);
        }
        None
    }

    /// Store `v` under `k`, replacing what was there.
    pub fn insert(&mut self, k: u128, v: V)
        requires
            old(self).wf(),
        ensures
            final(self).wf(),
            forall|k2: u128| #[trigger]
                final(self).spec_get(k2) == (if k2 == k {
                    Some(v)
                } else {
                    old(self).spec_get(k2)
                }),
            !old(self).spec_contains(k) ==> final(self)@ == old(self)@.push((k, v)),
            old(self).spec_contains(k) ==> final(self)@.len() == old(self)@.len(),
    {
        let ghost olds = self@;
        let mut i: usize = 0;
        while i < self.entries.len()
            invariant
                i <= self@.len(),
                self@ == olds,
                olds == old(self)@,
                unique_keys(olds),
                forall|t: int| 0 <= t < i ==> (#[trigger] self@[t]).0 != k,
            decreases self@.len() - i,
        {
            if self.entries[i].0 == k {
                proof {
                    lemma_assoc_get_at(olds, k, i as int);
                    lemma_assoc_get_update(olds, i as int, v, k);
                }
                self.entries[i] = (k, v);
                proof {
                    assert(self@ =~= olds.update(i as int, (olds[i as int].0, v)));
                    assert forall|k2: u128| #[trigger]
                        self.spec_get(k2) == (if k2 == k {
                            Some(v)
                        } else {
                            spec_assoc_get(olds, k2)
                        }) by {
                        lemma_assoc_get_update(olds, i as int, v, k2);
                    }
                    assert(unique_keys(self@)) by {
                        assert(forall|t: int|
                            0 <= t < self@.len() ==> (#[trigger] self@[t]).0 == olds[t].0);
                    }
                }
                return;
            }
            i += 1;
        }
        proof {
            lemma_assoc_get_none(olds, k);
        }
        self.entries.push((k, v));
        proof {
            assert(self@ == olds.push((k, v)));
            assert forall|k2: u128| #[trigger]
                self.spec_get(k2) == (if k2 == k {
                    Some(v)
                } else {
                    spec_assoc_get(olds, k2)
                }) by {
                lemma_assoc_get_push(olds, k, v, k2);
            }
            assert(unique_keys(self@)) by {
                assert(forall|t: int| 0 <= t < olds.len() ==> #[trigger] self@[t] == olds[t]);
                assert(self@.last().0 == k);
                assert forall|i2: int, j2: int| 0 <= i2 < j2 < self@.len() implies (
                #[trigger] self@[i2]).0 != (#[trigger] self@[j2]).0 by {
                    if j2 == self@.len() - 1 {
                        if self@[i2].0 == k {
                            lemma_assoc_get_at(olds, k, i2);
                        }
                    }
                }
            }
        }
    }

    /// Remove what is stored under `k`; removing an absent key changes
    /// nothing.
    pub fn remove(&mut self, k: u128)
        requires
            old(self).wf(),
        ensures
            final(self).wf(),
            forall|k2: u128| #[trigger]
                final(self).spec_get(k2) == (if k2 == k {
                    None
                } else {
                    old(self).spec_get(k2)
                }),
            old(self).spec_contains(k) ==> final(self)@.len() == old(self)@.len() - 1,
            !old(self).spec_contains(k) ==> final(self)@ == old(self)@,
    {
        let ghost olds = self@;
        let mut i: usize = 0;
        while i < self.entries.len()
            invariant
                i <= self@.len(),
                self@ == olds,
                olds == old(self)@,
                unique_keys(olds),
                forall|t: int| 0 <= t < i ==> (#[trigger] self@[t]).0 != k,
            decreases self@.len() - i,
        {
            if self.entries[i].0 == k {
                proof {
                    lemma_assoc_get_at(olds, k, i as int);
                }
                let _ = self.entries.remove(i);
                proof {
                    assert(self@ =~= olds.remove(i as int));
                    assert forall|k2: u128| #[trigger]
                        self.spec_get(k2) == (if k2 == k {
                            None::<V>
                        } else {
                            spec_assoc_get(olds, k2)
                        }) by {
                        lemma_assoc_get_remove(olds, i as int, k2);
                    }
                    assert(unique_keys(self@)) by {
                        assert(forall|t: int|
                            0 <= t < self@.len() ==> #[trigger] self@[t] == (if t < i {
                                olds[t]
                            } else {
                                olds[t + 1]
                            }));
                    }
                }
                return;
            }
            i += 1;
        }
        proof {
            lemma_assoc_get_none(olds, k);
        }
    }
}

/// A table keyed by name: command tables, override tables, and schedule
/// tables.  Its mathematical view keys entries by the name's characters.
#[derive(Clone, Debug)]
pub struct NameMap<V> {
    entries: Vec<(String, V)>,
}

impl<V> View for NameMap<V> {
    type V = Seq<(Seq<char>, V)>;

    closed spec fn view(&self) -> Seq<(Seq<char>, V)> {
        self.entries@.map_values(|p: (String, V)| (p.0@, p.1))
    }
}

impl<V> NameMap<V> {
    /// No two entries share a name.
    pub open spec fn wf(&self) -> bool {
        unique_keys(self@)
    }

    /// The value stored under the name `k`.
    pub open spec fn spec_get(&self, k: Seq<char>) -> Option<V> {
        spec_assoc_get(self@, k)
    }

    /// Is some value stored under the name `k`?
    pub open spec fn spec_contains(&self, k: Seq<char>) -> bool {
        self.spec_get(k) is Some
    }

    /// An empty table.
    pub fn new() -> (r: NameMap<V>)
        ensures
            r@ == Seq::<(Seq<char>, V)>::empty(),
            r.wf(),
    {
        let r = NameMap { entries: Vec::new() };
        proof {
            assert(r@ =~= Seq::<(Seq<char>, V)>::empty());
        }
        r
    }

    /// How many entries the table holds.
    pub fn len(&self) -> (r: usize)
        ensures
            r == self@.len(),
    {
        self.entries.len()
    }

    /// The entries, in insertion order.
    pub fn entries(&self) -> (r: &Vec<(String, V)>)
        ensures
            r@.len() == self@.len(),
            forall|t: int|
                0 <= t < r@.len() ==> (#[trigger] r@[t]).0@ == self@[t].0 && r@[t].1 == self@[t].1,
    {
        &self.entries
    }

    /// Look up the value stored under `k`.
    pub fn get(&self, k: &String) -> (r: Option<&V>)
        ensures
            match r {
                Some(v) => self.spec_get(k@) == Some(*v),
                None => self.spec_get(k@) is None,
            },
    {
        let mut i: usize = 0;
        while i < self.entries.len()
            invariant
                i <= self@.len(),
                forall|t: int| 0 <= t < i ==> (#[trigger] self@[t]).0 != k@,
            decreases self@.len() - i,
        {
            if self.entries[i].0 == *k {
                proof {
                    assert(self@[i as int].0 == k@);
                    lemma_assoc_get_at(self@, k@, i as int);
                }
                return Some(&self.entries[i].1);
            }
            proof {
                assert(self@[i as int].0 != k@);
            }
            i += 1;
        }
        proof {
            lemma_assoc_get_none(self@, k@);
        }
        None
    }

    /// Store `v` under `k`, replacing what was there.
    pub fn insert(&mut self, k: String, v: V)
        requires
            old(self).wf(),
        ensures
            final(self).wf(),
            forall|k2: Seq<char>| #[trigger]
                final(self).spec_get(k2) == (if k2 == k@ {
                    Some(v)
                } else {
                    old(self).spec_get(k2)
                }),
            !old(self).spec_contains(k@) ==> final(self)@ == old(self)@.push((k@, v)),
            old(self).spec_contains(k@) ==> final(self)@.len() == old(self)@.len(),
    {
        let ghost olds = self@;
        let ghost kv = k@;
        let mut i: usize = 0;
        while i < self.entries.len()
            invariant
                i <= self@.len(),
                self@ == olds,
                olds == old(self)@,
                unique_keys(olds),
                kv == k@,
                forall|t: int| 0 <= t < i ==> (#[trigger] self@[t]).0 != kv,
            decreases self@.len() - i,
        {
            if self.entries[i].0 == k {
                proof {
                    assert(olds[i as int].0 == kv);
                    lemma_assoc_get_at(olds, kv, i as int);
                }
                self.entries[i] = (k, v);
                proof {
                    assert(self@ =~= olds.update(i as int, (olds[i as int].0, v)));
                    assert forall|k2: Seq<char>| #[trigger]
                        self.spec_get(k2) == (if k2 == kv {
                            Some(v)
                        } else {
                            spec_assoc_get(olds, k2)
                        }) by {
                        lemma_assoc_get_update(olds, i as int, v, k2);
                    }
                    assert(unique_keys(self@)) by {
                        assert(forall|t: int|
                            0 <= t < self@.len() ==> (#[trigger] self@[t]).0 == olds[t].0);
                    }
                }
                return;
            }
            proof {
                assert(self@[i as int].0 != kv);
            }
            i += 1;
        }
        proof {
            lemma_assoc_get_none(olds, kv);
        }
        self.entries.push((k, v));
        proof {
            assert(self@ =~= olds.push((kv, v)));
            assert forall|k2: Seq<char>| #[trigger]
                self.spec_get(k2) == (if k2 == kv {
                    Some(v)
                } else {
                    spec_assoc_get(olds, k2)
                }) by {
                lemma_assoc_get_push(olds, kv, v, k2);
            }
            assert(unique_keys(self@)) by {
                assert(forall|t: int| 0 <= t < olds.len() ==> #[trigger] self@[t] == olds[t]);
                assert(self@.last().0 == kv);
                assert forall|i2: int, j2: int| 0 <= i2 < j2 < self@.len() implies (
                #[trigger] self@[i2]).0 != (#[trigger] self@[j2]).0 by {
                    if j2 == self@.len() - 1 {
                        if self@[i2].0 == kv {
                            lemma_assoc_get_at(olds, kv, i2);
                        }
                    }
                }
            }
        }
    }

    /// Remove and return what is stored under `k`.
    pub fn remove(&mut self, k: &String) -> (r: Option<V>)
        requires
            old(self).wf(),
        ensures
            final(self).wf(),
            r == old(self).spec_get(k@),
            forall|k2: Seq<char>| #[trigger]
                final(self).spec_get(k2) == (if k2 == k@ {
                    None
                } else {
                    old(self).spec_get(k2)
                }),
    {
        let ghost olds = self@;
        let mut i: usize = 0;
        while i < self.entries.len()
            invariant
                i <= self@.len(),
                self@ == olds,
                olds == old(self)@,
                unique_keys(olds),
                forall|t: int| 0 <= t < i ==> (#[trigger] self@[t]).0 != k@,
            decreases self@.len() - i,
        {
            if self.entries[i].0 == *k {
                proof {
                    assert(olds[i as int].0 == k@);
                    lemma_assoc_get_at(olds, k@, i as int);
                }
                let (_, v) = self.entries.remove(i);
                proof {
                    assert(self@ =~= olds.remove(i as int));
                    assert forall|k2: Seq<char>| #[trigger]
                        self.spec_get(k2) == (if k2 == k@ {
                            None::<V>
                        } else {
                            spec_assoc_get(olds, k2)
                        }) by {
                        lemma_assoc_get_remove(olds, i as int, k2);
                    }
                    assert(unique_keys(self@)) by {
                        assert(forall|t: int|
                            0 <= t < self@.len() ==> #[trigger] self@[t] == (if t < i {
                                olds[t]
                            } else {
                                olds[t + 1]
                            }));
                    }
                }
                return Some(v);
            }
            proof {
                assert(self@[i as int].0 != k@);
            }
            i += 1;
        }
        proof {
            lemma_assoc_get_none(olds, k@);
        }
        None
    }
}

} // verus!
