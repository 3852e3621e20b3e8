//! Tables that keep their entries in the order they were added.
use vstd::prelude::*;

verus! {

/// Whether a key occurs among the pairs.
pub open spec fn has_key<K, V>(s: Seq<(K, V)>, k: K) -> bool {
    exists|i: int| 0 <= i < s.len() && (#[trigger] s[i]).0 == k
}

/// Whether no key occurs twice.
pub open spec fn distinct<K, V>(s: Seq<(K, V)>) -> bool {
    forall|i: int, j: int|
        0 <= i < j < s.len() ==> (#[trigger] s[i]).0 != (#[trigger] s[j]).0
}

/// A place where a key occurs.
pub open spec fn key_index<K, V>(s: Seq<(K, V)>, k: K) -> int {
    choose|i: int| 0 <= i < s.len() && (#[trigger] s[i]).0 == k
}

/// The pairs as a map.
pub open spec fn as_map<K, V>(s: Seq<(K, V)>) -> Map<K, V> {
    Map::new(|k: K| has_key(s, k), |k: K| s[key_index(s, k)].1)
}

/// A pair is found under its key.
pub proof fn pair_is_found<K, V>(s: Seq<(K, V)>, i: int)
    requires
        distinct(s),
        0 <= i < s.len(),
    ensures
        as_map(s).contains_key(s[i].0),
        as_map(s)[s[i].0] == s[i].1,
{
    let j = key_index(s, s[i].0);
    assert(has_key(s, s[i].0));
    assert(0 <= j < s.len() && s[j].0 == s[i].0);
    if j < i {
        assert(s[j].0 != s[i].0);
    } else if i < j {
        assert(s[i].0 != s[j].0);
    }
}

/// Adding a pair with a new key adds it to the map.
pub proof fn push_inserts<K, V>(s: Seq<(K, V)>, k: K, v: V)
    requires
        distinct(s),
        !has_key(s, k),
    ensures
        distinct(s.push((k, v))),
        as_map(s.push((k, v))) == as_map(s).insert(k, v),
{
    let t = s.push((k, v));
    assert forall|i: int, j: int| 0 <= i < j < t.len() implies (#[trigger] t[i]).0
        != (#[trigger] t[j]).0 by {
        if j == s.len() {
            assert(t[i] == s[i]);
            assert(s[i].0 != k);
        } else {
            assert(t[i] == s[i] && t[j] == s[j]);
        }
    }
    let m = as_map(s).insert(k, v);
    assert forall|x: K|
        #![trigger as_map(t).dom().contains(x)]
        #![trigger m.dom().contains(x)]
        #![trigger as_map(t)[x]]
        #![trigger m[x]]
        as_map(t).dom().contains(x) == m.dom().contains(x) && (as_map(t).dom().contains(x)
            ==> as_map(t)[x] == m[x]) by {
        if x == k {
            pair_is_found(t, s.len() as int);
        } else if has_key(s, x) {
            let i = key_index(s, x);
            assert(t[i] == s[i]);
            pair_is_found(t, i);
            pair_is_found(s, i);
        } else if has_key(t, x) {
            let i = key_index(t, x);
            assert(i < s.len());
            assert(t[i] == s[i]);
        }
    }
    assert(as_map(t) =~= m);
}

/// Replacing the value of a pair replaces it in the map.
pub proof fn update_inserts<K, V>(s: Seq<(K, V)>, i: int, v: V)
    requires
        distinct(s),
        0 <= i < s.len(),
    ensures
        distinct(s.update(i, (s[i].0, v))),
        as_map(s.update(i, (s[i].0, v))) == as_map(s).insert(s[i].0, v),
{
    let k = s[i].0;
    let t = s.update(i, (k, v));
    assert forall|a: int| 0 <= a < t.len() implies (#[trigger] t[a]).0 == s[a].0 by {}
    let m = as_map(s).insert(k, v);
    assert forall|x: K|
        #![trigger as_map(t).dom().contains(x)]
        #![trigger m.dom().contains(x)]
        #![trigger as_map(t)[x]]
        #![trigger m[x]]
        as_map(t).dom().contains(x) == m.dom().contains(x) && (as_map(t).dom().contains(x)
            ==> as_map(t)[x] == m[x]) by {
        if x == k {
            pair_is_found(t, i);
        } else if has_key(s, x) {
            let j = key_index(s, x);
            assert(t[j] == s[j]);
            pair_is_found(t, j);
            pair_is_found(s, j);
        } else if has_key(t, x) {
            let j = key_index(t, x);
            assert(s[j].0 == x);
        }
    }
    assert(as_map(t) =~= m);
}

/// Removing a pair removes its key from the map.
pub proof fn remove_removes<K, V>(s: Seq<(K, V)>, i: int)
    requires
        distinct(s),
        0 <= i < s.len(),
    ensures
        distinct(s.remove(i)),
        as_map(s.remove(i)) == as_map(s).remove(s[i].0),
{
    let k = s[i].0;
    let t = s.remove(i);
    assert forall|a: int| 0 <= a < t.len() implies #[trigger] t[a] == s[if a < i {
        a
    } else {
        a + 1
    }] by {}
    assert forall|a: int, b: int| 0 <= a < b < t.len() implies (#[trigger] t[a]).0
        != (#[trigger] t[b]).0 by {
        let a2 = if a < i {
            a
        } else {
            a + 1
        };
        let b2 = if b < i {
            b
        } else {
            b + 1
        };
        assert(s[a2].0 != s[b2].0);
    }
    let m = as_map(s).remove(k);
    assert forall|x: K|
        #![trigger as_map(t).dom().contains(x)]
        #![trigger m.dom().contains(x)]
        #![trigger as_map(t)[x]]
        #![trigger m[x]]
        as_map(t).dom().contains(x) == m.dom().contains(x) && (as_map(t).dom().contains(x)
            ==> as_map(t)[x] == m[x]) by {
        if has_key(t, x) {
            let a = key_index(t, x);
            let a2 = if a < i {
                a
            } else {
                a + 1
            };
            assert(t[a] == s[a2]);
            pair_is_found(t, a);
            pair_is_found(s, a2);
            if x == k {
                if a2 < i {
                    assert(s[a2].0 != s[i].0);
                } else {
                    assert(s[i].0 != s[a2].0);
                }
            }
        } else if has_key(s, x) && x != k {
            let j = key_index(s, x);
            let j2 = if j < i {
                j
            } else {
                j - 1
            };
            assert(t[j2] == s[j]);
        }
    }
    assert(as_map(t) =~= m);
}

/// What a table can be keyed by.
pub trait TableKey: View + Sized {
    /// Whether two keys are equal.
    fn same(&self, other: &Self) -> (r: bool)
        ensures
            r == (self@ == other@),
    ;
}

impl TableKey for String {
    fn same(&self, other: &String) -> (r: bool) {
        *self == *other
    }
}

/// A table: a list of pairs in which no key occurs twice.
#[derive(Debug)]
pub struct Table<K, V> {
    entries: Vec<(K, V)>,
}

impl<K: View, V: View> View for Table<K, V> {
    type V = Map<K::V, V::V>;

    closed spec fn view(&self) -> Map<K::V, V::V> {
        as_map(self.pairs())
    }
}

impl<K: View, V: View> Table<K, V> {
    /// The pairs in the order they were added.
    pub closed spec fn pairs(self) -> Seq<(K::V, V::V)> {
        Seq::new(self.entries@.len(), |i: int| (self.entries@[i].0@, self.entries@[i].1@))
    }

    /// No key occurs twice.
    pub closed spec fn wf(self) -> bool {
        distinct(self.pairs())
    }
}

/// Every key has its place among the pairs.
pub proof fn key_has_place<K: View, V: View>(t: Table<K, V>, k: K::V) -> (i: int)
    requires
        t.wf(),
        t@.contains_key(k),
    ensures
        0 <= i < t.pairs().len(),
        t.pairs()[i] == (k, t@[k]),
{
    let i = key_index(t.pairs(), k);
    assert(has_key(t.pairs(), k));
    pair_is_found(t.pairs(), i);
    i
}

/// Tables with the same pairs have the same content.
pub proof fn same_pairs_same_map<K: View, V: View>(a: Table<K, V>, b: Table<K, V>)
    requires
        a.pairs() == b.pairs(),
    ensures
        a@ == b@,
        a.wf() == b.wf(),
{
}

/// A key does not occur among the pairs before it.
pub proof fn key_is_new<K: View, V: View>(t: Table<K, V>, part: Table<K, V>, i: int)
    requires
        t.wf(),
        0 <= i < t.pairs().len(),
        part.pairs() == t.pairs().take(i),
    ensures
        !part@.contains_key(t.pairs()[i].0),
{
    let s = t.pairs();
    if part@.contains_key(s[i].0) {
        let j = key_index(part.pairs(), s[i].0);
        assert(has_key(part.pairs(), s[i].0));
        assert(s[j].0 != s[i].0);
    }
}

impl<K: TableKey, V: View> Table<K, V> {
    /// An empty table.
    pub fn new() -> (r: Table<K, V>)
        ensures
            r.wf(),
            r@ == Map::<K::V, V::V>::empty(),
            r.pairs().len() == 0,
    {
        let r = Table { entries: Vec::new() };
        assert(r@ =~= Map::<K::V, V::V>::empty());
        r
    }

    /// The number of entries.
    pub fn len(&self) -> (r: usize)
        ensures
            r == self.pairs().len(),
    {
        self.entries.len()
    }

    /// The entry at place `i`.
    pub fn at(&self, i: usize) -> (r: (&K, &V))
        requires
            i < self.pairs().len(),
        ensures
            self.pairs()[i as int] == (r.0@, r.1@),
            self.wf() ==> self@.contains_key(r.0@) && self@[r.0@] == r.1@,
    {
        proof {
            if self.wf() {
                pair_is_found(self.pairs(), i as int);
            }
        }
        let e = &self.entries[i];
        (&e.0, &e.1)
    }

    fn find(&self, k: &K) -> (r: Option<usize>)
        ensures
            match r {
                Some(i) => i < self.pairs().len() && self.pairs()[i as int].0 == k@,
                None => !has_key(self.pairs(), k@),
            },
    {
        let mut i: usize = 0;
        while i < self.entries.len()
            invariant
                i <= self.entries.len(),
                forall|j: int| 0 <= j < i ==> (#[trigger] self.pairs()[j]).0 != k@,
            decreases self.entries.len() - i,
        {
            if self.entries[i].0.same(k) {
                return Some(i);
            }
            assert(self.pairs()[i as int].0 != k@);
            i += 1;
        }
        assert(self.pairs().len() == self.entries.len());
        None
    }

    /// The value under a key.
    pub fn get(&self, k: &K) -> (r: Option<&V>)
        requires
            self.wf(),
        ensures
            match r {
                Some(v) => self@.contains_key(k@) && self@[k@] == v@,
                None => !self@.contains_key(k@),
            },
    {
        match self.find(k) {
            Some(i) => {
                proof {
                    pair_is_found(self.pairs(), i as int);
                }
                Some(&self.entries[i].1)
            },
            None => None,
        }
    }

    /// Whether a key occurs.
    pub fn contains_key(&self, k: &K) -> (r: bool)
        requires
            self.wf(),
        ensures
            r == self@.contains_key(k@),
    {
        self.get(k).is_some()
    }

    /// The value under a key, to be changed.
    pub fn get_mut(&mut self, k: &K) -> (r: Option<&mut V>)
        requires
            old(self).wf(),
        ensures
            final(self).wf(),
            match r {
                Some(v) => {
                    &&& old(self)@.contains_key(k@)
                    &&& old(self)@[k@] == v@
                    &&& final(self)@ == old(self)@.insert(k@, (*final(v))@)
                },
                None => !old(self)@.contains_key(k@) && final(self)@ == old(self)@,
            },
    {
        match self.find(k) {
            Some(i) => {
                let ghost before = self.pairs();
                let ghost entries = self.entries@;
                proof {
                    pair_is_found(before, i as int);
                    assert forall|t: Table<K, V>|
                        #![trigger t.pairs()]
                        t.entries@ == entries.update(
                            i as int,
                            (entries[i as int].0, t.entries@[i as int].1),
                        ) implies {
                        &&& t.wf()
                        &&& t@ == as_map(before).insert(
                            before[i as int].0,
                            t.entries@[i as int].1@,
                        )
                    } by {
                        let x = t.entries@[i as int].1@;
                        update_inserts(before, i as int, x);
                        assert(t.pairs() =~= before.update(i as int, (before[i as int].0, x)));
                    }
                }
                let v = &mut self.entries[i].1;
                Some(v)
            },
            None => None,
        }
    }

    /// Puts a value under a key, in place of the one that is there.
    pub fn insert(&mut self, k: K, v: V)
        requires
            old(self).wf(),
        ensures
            final(self).wf(),
            final(self)@ == old(self)@.insert(k@, v@),
            !old(self)@.contains_key(k@) ==> final(self).pairs() == old(self).pairs().push(
                (k@, v@),
            ),
    {
        let ghost before = self.pairs();
        match self.find(&k) {
            Some(i) => {
                proof {
                    update_inserts(before, i as int, v@);
                }
                self.entries.set(i, (k, v));
                assert(self.pairs() =~= before.update(i as int, (before[i as int].0, v@)));
            },
            None => {
                proof {
                    push_inserts(before, k@, v@);
                }
                self.entries.push((k, v));
                assert(self.pairs() =~= before.push((k@, v@)));
            },
        }
    }

    /// Takes a key out, with its value.
    pub fn remove(&mut self, k: &K) -> (r: Option<V>)
        requires
            old(self).wf(),
        ensures
            final(self).wf(),
            final(self)@ == old(self)@.remove(k@),
            match r {
                Some(v) => old(self)@.contains_key(k@) && old(self)@[k@] == v@,
                None => !old(self)@.contains_key(k@),
            },
    {
        let ghost before = self.pairs();
        match self.find(k) {
            Some(i) => {
                proof {
                    pair_is_found(before, i as int);
                    remove_removes(before, i as int);
                }
                let (_, v) = self.entries.remove(i);
                assert(self.pairs() =~= before.remove(i as int));
                Some(v)
            },
            None => {
                assert(self@ =~= old(self)@.remove(k@));
                None
            },
        }
    }
}

} // verus!
