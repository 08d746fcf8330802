//! A small map keyed by strings: the lookup tables the builders consult
//! (focus timestamps by id, pane state by pane id, buffer contents).

use vstd::prelude::*;
use crate::text::str_eq;

verus! {

/// A map from string keys to values, kept as a list of entries in which
/// the first entry for a key holds its value.
pub struct StrMap<V> {
    entries: Vec<(String, V)>,
}

/// The map that a list of entries stands for: the first entry for a key wins.
pub open spec fn map_of<V>(s: Seq<(String, V)>) -> Map<Seq<char>, V>
    decreases s.len(),
{
    if s.len() == 0 {
        Map::empty()
    } else {
        map_of(s.drop_first()).insert(s[0].0@, s[0].1)
    }
}

/// The first entry for `k` holds its value; a key without entries is absent.
pub proof fn lemma_map_of_lookup<V>(s: Seq<(String, V)>, k: Seq<char>, i: int)
    requires
        0 <= i <= s.len(),
        forall|j: int| 0 <= j < i ==> (#[trigger] s[j]).0@ != k,
        i < s.len() ==> s[i].0@ == k,
    ensures
        i < s.len() ==> map_of(s).contains_key(k) && map_of(s)[k] == s[i].1,
        i == s.len() ==> !map_of(s).contains_key(k),
    decreases s.len(),
{
    if s.len() > 0 && i > 0 {
        let t = s.drop_first();
        assert forall|j: int| 0 <= j < i - 1 implies (#[trigger] t[j]).0@ != k by {
            assert(t[j] == s[j + 1]);
        }
        lemma_map_of_lookup(t, k, i - 1);
    }
}

/// Replacing the first entry for a key updates the key's value.
pub proof fn lemma_map_of_update<V>(s: Seq<(String, V)>, i: int, e: (String, V))
    requires
        0 <= i < s.len(),
        forall|j: int| 0 <= j < i ==> (#[trigger] s[j]).0@ != s[i].0@,
        e.0@ == s[i].0@,
    ensures
        map_of(s.update(i, e)) == map_of(s).insert(e.0@, e.1),
    decreases s.len(),
{
    if i == 0 {
        assert(s.update(0, e).drop_first() =~= s.drop_first());
        assert(map_of(s.update(i, e)) =~= map_of(s).insert(e.0@, e.1));
    } else {
        let t = s.drop_first();
        assert forall|j: int| 0 <= j < i - 1 implies (#[trigger] t[j]).0@ != t[i - 1].0@ by {
            assert(t[j] == s[j + 1]);
        }
        lemma_map_of_update(t, i - 1, e);
        assert(s.update(i, e).drop_first() =~= t.update(i - 1, e));
        assert(s[0].0@ != e.0@);
        assert(map_of(s.update(i, e)) =~= map_of(s).insert(e.0@, e.1));
    }
}

/// Appending an entry for a new key adds the key.
pub proof fn lemma_map_of_push<V>(s: Seq<(String, V)>, e: (String, V))
    requires
        forall|j: int| 0 <= j < s.len() ==> (#[trigger] s[j]).0@ != e.0@,
    ensures
        map_of(s.push(e)) == map_of(s).insert(e.0@, e.1),
    decreases s.len(),
{
    if s.len() == 0 {
        assert(s.push(e).drop_first() =~= Seq::<(String, V)>::empty());
        assert(s.push(e)[0] == e);
        assert(map_of(s.push(e).drop_first()) == map_of(Seq::<(String, V)>::empty()));
        assert(map_of(s.push(e)) =~= map_of(s).insert(e.0@, e.1));
    } else {
        let t = s.drop_first();
        assert forall|j: int| 0 <= j < t.len() implies (#[trigger] t[j]).0@ != e.0@ by {
            assert(t[j] == s[j + 1]);
        }
        lemma_map_of_push(t, e);
        assert(s.push(e).drop_first() =~= t.push(e));
        assert(map_of(s.push(e)) =~= map_of(s).insert(e.0@, e.1));
    }
}

impl<V> View for StrMap<V> {
    type V = Map<Seq<char>, V>;

    closed spec fn view(&self) -> Map<Seq<char>, V> {
        map_of(self.entries@)
    }
}

impl<V> StrMap<V> {
    /// An empty map.
    pub fn new() -> (res: Self)
        ensures
            res@ == Map::<Seq<char>, V>::empty(),
    {
        StrMap { entries: Vec::new() }
    }

    /// The index of the first entry for `key`, if any.
    fn position(&self, key: &str) -> (res: Option<usize>)
        ensures
            match res {
                Some(i) => i < self.entries@.len() && self.entries@[i as int].0@ == key@ && forall|j: int|
                    0 <= j < i ==> (#[trigger] self.entries@[j]).0@ != key@,
                None => forall|j: int|
                    0 <= j < self.entries@.len() ==> (#[trigger] self.entries@[j]).0@ != key@,
            },
    {
        let mut i: usize = 0;
        while i < self.entries.len()
            invariant
                i <= self.entries@.len(),
                forall|j: int| 0 <= j < i ==> (#[trigger] self.entries@[j]).0@ != key@,
            decreases self.entries@.len() - i,
        {
            if str_eq(self.entries[i].0.as_str(), key) {
                return Some(i);
            }
            i = i + 1;
        }
        None
    }

    /// The value for `key`, if the map holds it.
    pub fn get(&self, key: &str) -> (res: Option<&V>)
        ensures
            match res {
                Some(v) => self@.contains_key(key@) && *v == self@[key@],
                None => !self@.contains_key(key@),
            },
    {
        match self.position(key) {
            Some(i) => {
                proof {
                    lemma_map_of_lookup(self.entries@, key@, i as int);
                }
                Some(&self.entries[i].1)
            },
            None => {
                proof {
                    lemma_map_of_lookup(self.entries@, key@, self.entries@.len() as int);
                }
                None
            },
        }
    }

    /// Whether the map holds `key`.
    pub fn contains_key(&self, key: &str) -> (res: bool)
        ensures
            res == self@.contains_key(key@),
    {
        self.get(key).is_some()
    }

    /// Sets the value for `key`.
    pub fn insert(&mut self, key: String, value: V)
        ensures
            final(self)@ == old(self)@.insert(key@, value),
    {
        match self.position(key.as_str()) {
            Some(i) => {
                let ghost old_entries = self.entries@;
                let ghost k = key@;
                let e = (key, value);
                proof {
                    lemma_map_of_update(old_entries, i as int, e);
                }
                self.entries.set(i, e);
            },
            None => {
                let e = (key, value);
                proof {
                    lemma_map_of_push(self.entries@, e);
                }
                self.entries.push(e);
            },
        }
    }

    /// Whether the map is empty.
    pub fn is_empty(&self) -> (res: bool)
        ensures
            res == (self@.dom() =~= Set::<Seq<char>>::empty()),
    {
        proof {
            if self.entries@.len() > 0 {
                lemma_map_of_lookup(self.entries@, self.entries@[0].0@, 0);
            }
        }
        self.entries.len() == 0
    }
}


impl<V: Copy> StrMap<V> {
    /// A copy of this map.
    pub fn copied(&self) -> (res: Self)
        ensures
            res@ == self@,
    {
        let mut entries: Vec<(String, V)> = Vec::new();
        let mut i: usize = 0;
        while i < self.entries.len()
            invariant
                i <= self.entries@.len(),
                entries@ == self.entries@.take(i as int),
            decreases self.entries@.len() - i,
        {
            let k = self.entries[i].0.clone();
            let v = self.entries[i].1;
            entries.push((k, v));
            i = i + 1;
            assert(entries@ =~= self.entries@.take(i as int));
        }
        assert(self.entries@.take(self.entries@.len() as int) =~= self.entries@);
        StrMap { entries }
    }
}

} // verus!
