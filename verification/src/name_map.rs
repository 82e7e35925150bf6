//! Maps and sets whose keys are names, with the entries kept in the order of their arrival.

use vstd::prelude::*;

use crate::text::same_text;

verus! {

/// A map from names to values. No name occurs twice; a new name comes last.
#[derive(Debug)]
pub struct NameMap<V> {
    entries: Vec<(String, V)>,
}

/// The position of `key` among the names `keys` at or after `from`, or their number.
pub open spec fn find_name(keys: Seq<Seq<char>>, key: Seq<char>, from: int) -> int
    decreases keys.len() - from,
{
    if from >= keys.len() {
        keys.len() as int
    } else if keys[from] == key {
        from
    } else {
        find_name(keys, key, from + 1)
    }
}

/// The names other than `key`.
pub open spec fn other_than(key: Seq<char>) -> spec_fn(Seq<char>) -> bool {
    |k: Seq<char>| k != key
}

/// What `find_name` finds.
pub proof fn lemma_find_name(keys: Seq<Seq<char>>, key: Seq<char>, from: int)
    requires
        0 <= from <= keys.len(),
    ensures
        from <= find_name(keys, key, from) <= keys.len(),
        find_name(keys, key, from) < keys.len() ==> keys[find_name(keys, key, from)] == key,
        forall|i: int| from <= i < find_name(keys, key, from) ==> keys[i] != key,
    decreases keys.len() - from,
{
    if from < keys.len() && keys[from] != key {
        lemma_find_name(keys, key, from + 1);
    }
}

/// Of names that all differ, each is found where it stands.
pub proof fn lemma_find_distinct(keys: Seq<Seq<char>>, i: int)
    requires
        keys.no_duplicates(),
        0 <= i < keys.len(),
    ensures
        find_name(keys, keys[i], 0) == i,
{
    lemma_find_name(keys, keys[i], 0);
}

impl<V> View for NameMap<V> {
    type V = Map<Seq<char>, V>;

    closed spec fn view(&self) -> Map<Seq<char>, V> {
        Map::new(
            |k: Seq<char>| find_name(self.keys(), k, 0) < self.keys().len(),
            |k: Seq<char>| self.entries@[find_name(self.keys(), k, 0)].1,
        )
    }
}

impl<V> NameMap<V> {
    /// The names, in the order of their arrival.
    pub closed spec fn keys(&self) -> Seq<Seq<char>> {
        Seq::new(self.entries@.len(), |i: int| self.entries@[i].0@)
    }

    /// The values, each at the place of its name.
    pub closed spec fn values(&self) -> Seq<V> {
        Seq::new(self.entries@.len(), |i: int| self.entries@[i].1)
    }

    /// No name occurs twice.
    pub open spec fn well_formed(&self) -> bool {
        self.keys().no_duplicates()
    }

    /// How the map follows from the two sequences.
    pub proof fn lemma_lookup(&self)
        ensures
            self.keys().len() == self.values().len(),
            forall|k: Seq<char>| #[trigger]
                self@.contains_key(k) <==> self.keys().contains(k),
            forall|k: Seq<char>| #[trigger]
                self@.contains_key(k) ==> self@[k] == self.values()[find_name(self.keys(), k, 0)],
            self.well_formed() ==> forall|i: int|
                0 <= i < self.keys().len() ==> self@[#[trigger] self.keys()[i]] == self.values()[i],
    {
        assert forall|k: Seq<char>| #[trigger] self@.contains_key(k) <==> self.keys().contains(k) by {
            lemma_find_name(self.keys(), k, 0);
        }
        assert forall|k: Seq<char>| #[trigger] self@.contains_key(k) implies self@[k]
            == self.values()[find_name(self.keys(), k, 0)] by {
            lemma_find_name(self.keys(), k, 0);
        }
        if self.well_formed() {
            assert forall|i: int| 0 <= i < self.keys().len() implies self@[#[trigger] self.keys()[i]]
                == self.values()[i] by {
                lemma_find_distinct(self.keys(), i);
            }
        }
    }

    /// The empty map.
    pub fn new() -> (res: Self)
        ensures
            res@ == Map::<Seq<char>, V>::empty(),
            res.keys() == Seq::<Seq<char>>::empty(),
            res.values() == Seq::<V>::empty(),
            res.well_formed(),
    {
        let res = NameMap { entries: Vec::new() };
        assert(res.keys() =~= Seq::<Seq<char>>::empty());
        assert(res.values() =~= Seq::<V>::empty());
        assert(res@ =~= Map::<Seq<char>, V>::empty());
        res
    }

    /// The number of entries.
    pub fn len(&self) -> (res: usize)
        ensures
            res == self.keys().len(),
            res == self.values().len(),
    {
        self.entries.len()
    }

    /// Whether there is no entry.
    pub fn is_empty(&self) -> (res: bool)
        ensures
            res == (self.keys().len() == 0),
    {
        self.entries.len() == 0
    }

    /// The name of an entry.
    pub fn key_at(&self, i: usize) -> (res: &str)
        requires
            i < self.keys().len(),
        ensures
            res@ == self.keys()[i as int],
    {
        self.entries[i].0.as_str()
    }

    /// The value of an entry.
    pub fn value_at(&self, i: usize) -> (res: &V)
        requires
            i < self.keys().len(),
        ensures
            *res == self.values()[i as int],
    {
        &self.entries[i].1
    }

    /// Changing the value of one entry changes the map at the name of that entry.
    proof fn lemma_replace(was: Self, now: Self, i: int, key: Seq<char>)
        requires
            0 <= i < was.entries@.len(),
            i == find_name(was.keys(), key, 0),
            now.entries@.len() == was.entries@.len(),
            now.entries@[i].0@ == was.entries@[i].0@,
            forall|j: int|
                0 <= j < was.entries@.len() && j != i ==> now.entries@[j] == was.entries@[j],
        ensures
            now.keys() == was.keys(),
            now.values() == was.values().update(i, now.entries@[i].1),
            now@ == was@.insert(key, now.entries@[i].1),
    {
        assert(now.keys() =~= was.keys());
        assert(now.values() =~= was.values().update(i, now.entries@[i].1));
        lemma_find_name(was.keys(), key, 0);
        assert forall|k: Seq<char>| k != key && #[trigger] was@.contains_key(k) implies now@[k] == was@[k] by {
            lemma_find_name(was.keys(), k, 0);
        }
        assert(now@ =~= was@.insert(key, now.entries@[i].1));
    }

    fn position(&self, key: &str) -> (res: usize)
        ensures
            res == find_name(self.keys(), key@, 0),
            res <= self.entries@.len(),
            res < self.entries@.len() ==> self.entries@[res as int].0@ == key@,
    {
        let mut i: usize = 0;
        while i < self.entries.len()
            invariant
                i <= self.entries@.len(),
                find_name(self.keys(), key@, 0) == find_name(self.keys(), key@, i as int),
            decreases self.entries@.len() - i,
        {
            if same_text(self.entries[i].0.as_str(), key) {
                return i;
            }
            i += 1;
        }
        i
    }

    /// Whether the map has an entry of that name.
    pub fn contains_key(&self, key: &str) -> (res: bool)
        ensures
            res == self@.contains_key(key@),
            res == self.keys().contains(key@),
    {
        let i: usize = self.position(key);
        proof {
            self.lemma_lookup();
            assert(self@.contains_key(key@) <==> self.keys().contains(key@));
        }
        i < self.entries.len()
    }

    /// The value of that name.
    pub fn get(&self, key: &str) -> (res: Option<&V>)
        ensures
            match res {
                Some(v) => self@.contains_key(key@) && *v == self@[key@],
                None => !self@.contains_key(key@),
            },
    {
        let i: usize = self.position(key);
        if i < self.entries.len() {
            Some(&self.entries[i].1)
        } else {
            None
        }
    }

    /// The value of that name, to be changed in place.
    pub fn get_mut(&mut self, key: &str) -> (res: Option<&mut V>)
        ensures
            match res {
                Some(v) => {
                    &&& old(self)@.contains_key(key@)
                    &&& *v == old(self)@[key@]
                    &&& final(self)@ == old(self)@.insert(key@, *final(v))
                    &&& final(self).keys() == old(self).keys()
                },
                None => {
                    &&& !old(self)@.contains_key(key@)
                    &&& *final(self) == *old(self)
                },
            },
    {
        let i: usize = self.position(key);
        if i < self.entries.len() {
            let ghost was = *old(self);
            let ghost name = was.entries@[i as int].0;
            proof {
                assert forall|now: NameMap<V>|
                    now.entries@.len() == was.entries@.len() && now.entries@[i as int].0 == name && (forall|
                        j: int,
                    |
                        0 <= j < was.entries@.len() && j != i ==> now.entries@[j] == was.entries@[j])
                    implies #[trigger] now.keys() == was.keys() && now@ == was@.insert(
                    key@,
                    now.entries@[i as int].1,
                ) by {
                    Self::lemma_replace(was, now, i as int, key@);
                }
            }
            let entry = &mut self.entries[i];
            Some(&mut entry.1)
        } else {
            None
        }
    }

    /// The value of an entry, to be changed in place.
    pub fn value_mut_at(&mut self, i: usize) -> (res: &mut V)
        requires
            i < old(self).keys().len(),
        ensures
            *res == old(self).values()[i as int],
            final(self).keys() == old(self).keys(),
            final(self).values() == old(self).values().update(i as int, *final(res)),
    {
        let ghost was = *old(self);
        let ghost name = was.entries@[i as int].0;
        proof {
            assert forall|now: NameMap<V>|
                now.entries@.len() == was.entries@.len() && now.entries@[i as int].0 == name && (forall|
                    j: int,
                |
                    0 <= j < was.entries@.len() && j != i ==> now.entries@[j] == was.entries@[j])
                implies #[trigger] now.keys() == was.keys() && now.values() == was.values().update(
                i as int,
                now.entries@[i as int].1,
            ) by {
                assert(now.keys() =~= was.keys());
                assert(now.values() =~= was.values().update(i as int, now.entries@[i as int].1));
            }
        }
        let entry = &mut self.entries[i];
        &mut entry.1
    }

    /// Sets the value of that name.
    pub fn insert(&mut self, key: String, value: V)
        ensures
            final(self)@ == old(self)@.insert(key@, value),
            final(self).keys() == if old(self).keys().contains(key@) {
                old(self).keys()
            } else {
                old(self).keys().push(key@)
            },
            final(self).values() == if old(self).keys().contains(key@) {
                old(self).values().update(find_name(old(self).keys(), key@, 0), value)
            } else {
                old(self).values().push(value)
            },
            old(self).well_formed() ==> final(self).well_formed(),
    {
        let i: usize = self.position(key.as_str());
        let ghost was = *old(self);
        let ghost k = key@;
        let ghost v = value;
        proof {
            lemma_find_name(was.keys(), k, 0);
        }
        if i < self.entries.len() {
            assert(was.keys()[i as int] == k);
            self.entries[i].1 = value;
            proof {
                Self::lemma_replace(was, *self, i as int, k);
            }
        } else {
            self.entries.push((key, value));
            proof {
                assert(self.keys() =~= was.keys().push(k));
                assert(self.values() =~= was.values().push(v));
                assert forall|q: Seq<char>| #[trigger] find_name(self.keys(), q, 0) == if q == k || find_name(
                    was.keys(),
                    q,
                    0,
                ) < was.keys().len() {
                    find_name(was.keys(), q, 0)
                } else {
                    self.keys().len() as int
                } by {
                    lemma_find_name(was.keys(), q, 0);
                    lemma_find_name(self.keys(), q, 0);
                    let w = find_name(was.keys(), q, 0);
                    let s = find_name(self.keys(), q, 0);
                    if w < was.keys().len() {
                        assert(self.keys()[w] == q);
                    } else {
                        assert(self.keys()[w] == k);
                    }
                    if s < w {
                        assert(was.keys()[s] == self.keys()[s]);
                    }
                }
                assert forall|q: Seq<char>| #[trigger] self@.contains_key(q) implies self@[q] == was@.insert(k, v)[q] by {
                    lemma_find_name(was.keys(), q, 0);
                    assert(find_name(self.keys(), q, 0) == find_name(was.keys(), q, 0));
                }
                assert forall|q: Seq<char>| #[trigger] self@.contains_key(q) == was@.insert(k, v).contains_key(q) by {
                    lemma_find_name(was.keys(), q, 0);
                    assert(find_name(self.keys(), q, 0) <= self.keys().len());
                }
                assert(self@ =~= was@.insert(k, v));
            }
        }
    }

    /// Taking out an entry whose name is `key` leaves the entries of the other names.
    proof fn lemma_take_out(was: Self, now: Self, i: int, key: Seq<char>)
        requires
            0 <= i < was.entries@.len(),
            was.entries@[i].0@ == key,
            now.entries@ == was.entries@.remove(i),
        ensures
            now@.remove(key) == was@.remove(key),
            now.keys() == was.keys().remove(i),
            now.keys().filter(other_than(key)) == was.keys().filter(other_than(key)),
    {
        let p = other_than(key);
        let a = was.keys().take(i);
        let b = was.keys().skip(i + 1);
        let mid = seq![key];
        assert(now.keys() =~= was.keys().remove(i));
        assert(was.keys() =~= a + mid + b);
        assert(now.keys() =~= a + b);
        Seq::filter_distributes_over_add(a + mid, b, p);
        Seq::filter_distributes_over_add(a, mid, p);
        Seq::filter_distributes_over_add(a, b, p);
        assert(mid.filter(p) =~= Seq::<Seq<char>>::empty()) by {
            reveal(Seq::filter);
            assert(mid.drop_last() =~= Seq::<Seq<char>>::empty());
            assert(mid.drop_last().filter(p) =~= Seq::<Seq<char>>::empty());
            assert(mid.last() == key);
        }
        assert((a + mid).filter(p) =~= a.filter(p));
        assert forall|k: Seq<char>| k != key implies (#[trigger] now@.contains_key(k) == was@.contains_key(k)) && (
        was@.contains_key(k) ==> now@[k] == was@[k]) by {
            lemma_find_name(was.keys(), k, 0);
            lemma_find_name(now.keys(), k, 0);
            let w = find_name(was.keys(), k, 0);
            let n = find_name(now.keys(), k, 0);
            if w < was.keys().len() {
                let w2 = if w < i { w } else { w - 1 };
                assert(now.keys()[w2] == k);
            }
            if n < now.keys().len() {
                let n2 = if n < i { n } else { n + 1 };
                assert(was.keys()[n2] == k);
            }
        }
        assert(now@.remove(key) =~= was@.remove(key));
    }

    /// Takes the entry of that name out, if there is one.
    pub fn remove(&mut self, key: &str)
        ensures
            final(self)@ == old(self)@.remove(key@),
            final(self).keys() == old(self).keys().filter(other_than(key@)),
            old(self).well_formed() ==> final(self).well_formed(),
    {
        let ghost was = *old(self);
        let ghost p = other_than(key@);
        let mut i: usize = 0;
        while i < self.entries.len()
            invariant
                i <= self.entries@.len(),
                p == other_than(key@),
                self.keys().filter(p) == was.keys().filter(p),
                self@.remove(key@) == was@.remove(key@),
                forall|j: int| 0 <= j < i ==> self.keys()[j] != key@,
                was.well_formed() ==> self.well_formed(),
            decreases self.entries@.len() - i,
        {
            if same_text(self.entries[i].0.as_str(), key) {
                let ghost before = *self;
                self.entries.remove(i);
                proof {
                    Self::lemma_take_out(before, *self, i as int, key@);
                }
            } else {
                i += 1;
            }
        }
        proof {
            lemma_filter_all(self.keys(), p);
            lemma_find_name(self.keys(), key@, 0);
            assert(self@ =~= self@.remove(key@));
        }
    }
}

impl<V: Clone> Clone for NameMap<V> {
    fn clone(&self) -> (res: Self)
        ensures
            res.keys() == self.keys(),
            res.values().len() == self.values().len(),
            forall|i: int|
                0 <= i < self.values().len() ==> cloned(#[trigger] self.values()[i], res.values()[i]),
    {
        let mut entries: Vec<(String, V)> = Vec::new();
        let mut i: usize = 0;
        while i < self.entries.len()
            invariant
                i <= self.entries@.len(),
                entries@.len() == i,
                forall|j: int|
                    0 <= j < i ==> (#[trigger] entries@[j]).0@ == self.entries@[j].0@ && cloned(
                        self.entries@[j].1,
                        entries@[j].1,
                    ),
            decreases self.entries@.len() - i,
        {
            let name = String::from_str(self.entries[i].0.as_str());
            let value = self.entries[i].1.clone();
            entries.push((name, value));
            i += 1;
        }
        let res = NameMap { entries };
        assert(res.keys() =~= self.keys());
        res
    }
}

/// The map of the entries from position `from` on, in which an earlier entry counts before a later
/// one.
spec fn tail_map<V>(entries: Seq<(String, V)>, from: int) -> Map<Seq<char>, V>
    decreases entries.len() - from,
{
    if from >= entries.len() {
        Map::empty()
    } else {
        tail_map(entries, from + 1).insert(entries[from].0@, entries[from].1)
    }
}

proof fn lemma_tail_map<V>(map: NameMap<V>, from: int, k: Seq<char>)
    requires
        0 <= from <= map.entries@.len(),
    ensures
        tail_map(map.entries@, from).contains_key(k) <==> find_name(map.keys(), k, from) < map.keys().len(),
        tail_map(map.entries@, from).contains_key(k) ==> tail_map(map.entries@, from)[k]
            == map.entries@[find_name(map.keys(), k, from)].1,
    decreases map.entries@.len() - from,
{
    if from < map.entries@.len() {
        lemma_tail_map(map, from + 1, k);
        assert(map.keys()[from] == map.entries@[from].0@);
    }
}

impl<V> NameMap<V> {
    /// Sets the values of all the names of another map.
    pub fn absorb(&mut self, other: NameMap<V>)
        ensures
            final(self)@ == old(self)@.union_prefer_right(other@),
            old(self).well_formed() ==> final(self).well_formed(),
    {
        let ghost was = *old(self);
        let ghost all = other.entries@;
        assert(tail_map(all, 0) =~= other@) by {
            assert forall|k: Seq<char>| tail_map(all, 0).contains_key(k) == #[trigger] other@.contains_key(k) && (
            other@.contains_key(k) ==> tail_map(all, 0)[k] == other@[k]) by {
                lemma_tail_map(other, 0, k);
            }
        }
        let mut rest: Vec<(String, V)> = other.entries;
        assert(self@ =~= was@.union_prefer_right(tail_map(all, all.len() as int)));
        while rest.len() > 0
            invariant
                rest@.len() <= all.len(),
                rest@ == all.take(rest@.len() as int),
                self@ == was@.union_prefer_right(tail_map(all, rest@.len() as int)),
                was.well_formed() ==> self.well_formed(),
            decreases rest@.len(),
        {
            let ghost n = rest@.len() - 1;
            let (name, value) = rest.pop().unwrap();
            assert(name == all[n].0 && value == all[n].1);
            assert(rest@ =~= all.take(n));
            self.insert(name, value);
            assert(self@ =~= was@.union_prefer_right(tail_map(all, n)));
        }
    }
}

/// A sequence of which every element is kept.
pub proof fn lemma_filter_all<A>(s: Seq<A>, p: spec_fn(A) -> bool)
    requires
        forall|i: int| 0 <= i < s.len() ==> p(s[i]),
    ensures
        s.filter(p) == s,
    decreases s.len(),
{
    reveal(Seq::filter);
    if s.len() > 0 {
        lemma_filter_all(s.drop_last(), p);
        assert(s =~= s.drop_last().push(s.last()));
    }
}

} // verus!
