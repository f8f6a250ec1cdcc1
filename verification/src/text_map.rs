//! A map from strings to values.

use vstd::prelude::*;

use crate::text::texts;

verus! {

/// The map that a list of entries stands for: a later entry wins.
pub open spec fn entries_map<V>(entries: Seq<(String, V)>) -> Map<Seq<char>, V>
    decreases entries.len(),
{
    if entries.len() == 0 {
        Map::empty()
    } else {
        entries_map(entries.drop_last()).insert(entries.last().0@, entries.last().1)
    }
}

/// Whether no key occurs twice.
pub open spec fn distinct_keys<V>(entries: Seq<(String, V)>) -> bool {
    forall|i: int, j: int|
        0 <= i < j < entries.len() ==> (#[trigger] entries[i]).0@ != (#[trigger] entries[j]).0@
}

/// Where no key occurs twice, the map holds exactly the entries.
pub proof fn lemma_entries_map<V>(entries: Seq<(String, V)>)
    requires
        distinct_keys(entries),
    ensures
        forall|i: int|
            0 <= i < entries.len() ==> entries_map(entries).contains_pair(
                (#[trigger] entries[i]).0@,
                entries[i].1,
            ),
        forall|key: Seq<char>| #[trigger]
            entries_map(entries).contains_key(key) ==> exists|i: int|
                0 <= i < entries.len() && (#[trigger] entries[i]).0@ == key,
        entries_map(entries).dom().finite(),
        entries_map(entries).len() == entries.len(),
    decreases entries.len(),
{
    if entries.len() > 0 {
        let rest = entries.drop_last();
        lemma_entries_map(rest);
        assert forall|i: int| 0 <= i < entries.len() implies entries_map(entries).contains_pair(
            (#[trigger] entries[i]).0@,
            entries[i].1,
        ) by {
            if i < rest.len() {
                assert(entries[i] == rest[i]);
                assert(entries[entries.len() - 1] == entries.last());
            }
        }
        assert forall|key: Seq<char>| #[trigger] entries_map(entries).contains_key(
            key,
        ) implies exists|i: int| 0 <= i < entries.len() && (#[trigger] entries[i]).0@ == key by {
            if key == entries.last().0@ {
                assert(entries[entries.len() - 1].0@ == key);
            } else {
                assert(entries_map(rest).contains_key(key));
                let i = choose|i: int| 0 <= i < rest.len() && (#[trigger] rest[i]).0@ == key;
                assert(entries[i].0@ == key);
            }
        }
        if entries_map(rest).contains_key(entries.last().0@) {
            let i = choose|i: int|
                0 <= i < rest.len() && (#[trigger] rest[i]).0@ == entries.last().0@;
            assert(entries[i] == rest[i]);
            assert(entries[entries.len() - 1] == entries.last());
        }
    }
}

/// A map from strings to values, in the order in which keys were added.
#[derive(Debug, PartialEq, Eq)]
pub struct TextMap<V> {
    entries: Vec<(String, V)>,
}

impl<V> View for TextMap<V> {
    type V = Map<Seq<char>, V>;

    closed spec fn view(&self) -> Map<Seq<char>, V> {
        entries_map(self.entries@)
    }
}

impl<V> TextMap<V> {
    #[verifier::type_invariant]
    spec fn well_formed(self) -> bool {
        distinct_keys(self.entries@)
    }

    /// An empty map.
    pub fn new() -> (map: Self)
        ensures
            map@ == Map::<Seq<char>, V>::empty(),
    {
        TextMap { entries: Vec::new() }
    }

    /// The entries, each key once.
    pub fn entries(&self) -> (entries: &Vec<(String, V)>)
        ensures
            distinct_keys(entries@),
            entries_map(entries@) == self@,
    {
        proof {
            use_type_invariant(self);
        }
        &self.entries
    }

    /// How many keys the map has.
    pub fn len(&self) -> (n: usize)
        ensures
            n == self@.len(),
            self@.dom().finite(),
    {
        proof {
            use_type_invariant(self);
            lemma_entries_map(self.entries@);
        }
        self.entries.len()
    }

    /// The position of `key`, or the number of entries.
    fn position(&self, key: &str) -> (at: usize)
        ensures
            at <= self.entries@.len(),
            at < self.entries@.len() ==> self.entries@[at as int].0@ == key@,
            at < self.entries@.len() <==> self@.contains_key(key@),
    {
        proof {
            use_type_invariant(self);
            lemma_entries_map(self.entries@);
        }
        let wanted = key.to_owned();
        let mut at: usize = 0;
        while at < self.entries.len()
            invariant
                wanted@ == key@,
                at <= self.entries@.len(),
                forall|i: int| 0 <= i < at ==> (#[trigger] self.entries@[i]).0@ != key@,
                forall|i: int|
                    0 <= i < self.entries@.len() ==> self@.contains_pair(
                        (#[trigger] self.entries@[i]).0@,
                        self.entries@[i].1,
                    ),
                forall|other: Seq<char>| #[trigger]
                    self@.contains_key(other) ==> exists|i: int|
                        0 <= i < self.entries@.len() && (#[trigger] self.entries@[i]).0@ == other,
            decreases self.entries.len() - at,
        {
            if self.entries[at].0 == wanted {
                return at;
            }
            at += 1;
        }
        at
    }

    /// Whether `key` has a value.
    pub fn contains_key(&self, key: &str) -> (yes: bool)
        ensures
            yes == self@.contains_key(key@),
    {
        self.position(key) < self.entries.len()
    }

    /// The value of `key`.
    pub fn get(&self, key: &str) -> (value: Option<&V>)
        ensures
            match value {
                Some(value) => self@.contains_pair(key@, *value),
                None => !self@.contains_key(key@),
            },
    {
        proof {
            use_type_invariant(self);
            lemma_entries_map(self.entries@);
        }
        let at: usize = self.position(key);
        if at < self.entries.len() {
            Some(&self.entries[at].1)
        } else {
            None
        }
    }

    /// Removes `key` and hands out its value.
    pub fn remove(&mut self, key: &str) -> (value: Option<V>)
        ensures
            final(self)@ == old(self)@.remove(key@),
            match value {
                Some(value) => old(self)@.contains_pair(key@, value),
                None => !old(self)@.contains_key(key@),
            },
    {
        proof {
            use_type_invariant(&*self);
            lemma_entries_map(self.entries@);
        }
        let at: usize = self.position(key);
        if at == self.entries.len() {
            assert(self@.remove(key@) =~= self@);
            return None;
        }
        let mut entries: Vec<(String, V)> = Vec::new();
        std::mem::swap(&mut entries, &mut self.entries);
        let ghost before = entries@;
        let (_, value) = entries.remove(at);
        proof {
            let after = entries@;
            assert(after =~= before.remove(at as int));
            assert forall|i: int, j: int| 0 <= i < j < after.len() implies (
            #[trigger] after[i]).0@ != (#[trigger] after[j]).0@ by {
                let x = if i < at { i } else { i + 1 };
                let y = if j < at { j } else { j + 1 };
                assert(after[i] == before[x] && after[j] == before[y]);
            }
            lemma_entries_map(after);
            let m = entries_map(before);
            let n = entries_map(after);
            assert forall|k: Seq<char>| n.contains_key(k) <==> m.remove(key@).contains_key(k) by {
                if n.contains_key(k) {
                    let i = choose|i: int| 0 <= i < after.len() && (#[trigger] after[i]).0@ == k;
                    let x = if i < at { i } else { i + 1 };
                    assert(before[x].0@ == k);
                    assert(before[at as int].0@ == key@);
                }
                if m.remove(key@).contains_key(k) {
                    let x = choose|x: int| 0 <= x < before.len() && (#[trigger] before[x]).0@ == k;
                    assert(x != at);
                    let i = if x < at { x } else { x - 1 };
                    assert(after[i] == before[x]);
                }
            }
            assert forall|k: Seq<char>| n.contains_key(k) implies n[k] == m[k] by {
                let i = choose|i: int| 0 <= i < after.len() && (#[trigger] after[i]).0@ == k;
                let x = if i < at { i } else { i + 1 };
                assert(after[i] == before[x]);
            }
            assert(n =~= m.remove(key@));
        }
        self.entries = entries;
        Some(value)
    }

    /// Gives `key` the value, and hands out the value it had.
    pub fn insert(&mut self, key: String, value: V) -> (previous: Option<V>)
        ensures
            final(self)@ == old(self)@.insert(key@, value),
            match previous {
                Some(previous) => old(self)@.contains_pair(key@, previous),
                None => !old(self)@.contains_key(key@),
            },
    {
        let previous = self.remove(key.as_str());
        proof {
            use_type_invariant(&*self);
            lemma_entries_map(self.entries@);
        }
        let mut entries: Vec<(String, V)> = Vec::new();
        std::mem::swap(&mut entries, &mut self.entries);
        let ghost before = entries@;
        assert(!entries_map(before).contains_key(key@));
        entries.push((key, value));
        proof {
            let after = entries@;
            assert(after.drop_last() =~= before);
            assert forall|i: int, j: int| 0 <= i < j < after.len() implies (
            #[trigger] after[i]).0@ != (#[trigger] after[j]).0@ by {
                assert(after[i] == before[i]);
                if j < before.len() {
                    assert(after[j] == before[j]);
                }
            }
        }
        self.entries = entries;
        assert(self@ =~= old(self)@.insert(key@, value));
        previous
    }

    /// The keys, each once.
    pub fn keys(&self) -> (keys: Vec<String>)
        ensures
            texts(keys@).no_duplicates(),
            forall|key: Seq<char>|
                texts(keys@).contains(key) <==> #[trigger] self@.contains_key(key),
    {
        proof {
            use_type_invariant(self);
            lemma_entries_map(self.entries@);
        }
        let mut keys: Vec<String> = Vec::new();
        let mut i: usize = 0;
        while i < self.entries.len()
            invariant
                i <= self.entries@.len(),
                keys@.len() == i,
                forall|j: int| 0 <= j < i ==> #[trigger] keys@[j]@ == self.entries@[j].0@,
            decreases self.entries.len() - i,
        {
            keys.push(self.entries[i].0.clone());
            i += 1;
        }
        proof {
            let list = texts(keys@);
            assert(forall|j: int| 0 <= j < list.len() ==> #[trigger] list[j] == self.entries@[j].0@);
            assert forall|key: Seq<char>|
                list.contains(key) <==> #[trigger] self@.contains_key(key) by {
                if list.contains(key) {
                    let j = choose|j: int| 0 <= j < list.len() && list[j] == key;
                    assert(self@.contains_pair(self.entries@[j].0@, self.entries@[j].1));
                }
                if self@.contains_key(key) {
                    let j = choose|j: int|
                        0 <= j < self.entries@.len() && (#[trigger] self.entries@[j]).0@ == key;
                    assert(list[j] == key);
                }
            }
        }
        keys
    }

    /// Empties the map and hands out its entries, each key once.
    pub fn take_all(&mut self) -> (entries: Vec<(String, V)>)
        ensures
            final(self)@ == Map::<Seq<char>, V>::empty(),
            distinct_keys(entries@),
            entries_map(entries@) == old(self)@,
    {
        proof {
            use_type_invariant(&*self);
        }
        let mut entries: Vec<(String, V)> = Vec::new();
        std::mem::swap(&mut entries, &mut self.entries);
        entries
    }
}

} // verus!
