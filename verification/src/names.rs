//! A map from names to values that keeps its names in ascending order.

use crate::text::{
    before, is_before, lemma_before_irreflexive, lemma_before_total, lemma_before_transitive, same,
};
use vstd::prelude::*;

verus! {

/// A map whose keys are strings, held as a list in ascending order of the keys.
#[derive(Debug)]
pub struct NameMap<V> {
    entries: Vec<(String, V)>,
}

/// Whether a list of keys is strictly ascending.
pub open spec fn ascending(keys: Seq<Seq<char>>) -> bool {
    forall|i: int, j: int| 0 <= i < j < keys.len() ==> before(#[trigger] keys[i], #[trigger] keys[j])
}

/// The keys of a list of entries.
pub open spec fn keys_of<V>(entries: Seq<(String, V)>) -> Seq<Seq<char>> {
    Seq::new(entries.len(), |i: int| entries[i].0@)
}

/// The map that a list of entries with different keys stands for.
pub open spec fn map_of<V>(entries: Seq<(String, V)>) -> Map<Seq<char>, V> {
    Map::new(
        |k: Seq<char>| keys_of(entries).contains(k),
        |k: Seq<char>| entries[keys_of(entries).index_of(k)].1,
    )
}

/// In an ascending list every key stands at one place only, so the map holds
/// the value that stands there.
pub proof fn lemma_map_of_entry<V>(entries: Seq<(String, V)>, i: int)
    requires
        ascending(keys_of(entries)),
        0 <= i < entries.len(),
    ensures
        map_of(entries).contains_key(entries[i].0@),
        map_of(entries)[entries[i].0@] == entries[i].1,
        keys_of(entries).index_of(entries[i].0@) == i,
{
    let keys = keys_of(entries);
    assert(keys[i] == entries[i].0@);
    assert(keys.contains(entries[i].0@));
    let j = keys.index_of(entries[i].0@);
    assert(keys[j] == keys[i]);
    lemma_before_irreflexive(keys[i]);
}

impl<V> View for NameMap<V> {
    type V = Map<Seq<char>, V>;

    open spec fn view(&self) -> Map<Seq<char>, V> {
        map_of(self.list())
    }
}

impl<V> NameMap<V> {
    /// The entries in order.
    pub closed spec fn list(&self) -> Seq<(String, V)> {
        self.entries@
    }

    /// The keys in order.
    pub open spec fn keys(&self) -> Seq<Seq<char>> {
        keys_of(self.list())
    }

    /// The keys are strictly ascending.
    #[verifier::type_invariant]
    pub open spec fn ordered(&self) -> bool {
        ascending(keys_of(self.list()))
    }

    /// A map without entries.
    pub fn new() -> (r: Self)
        ensures
            r@ == Map::<Seq<char>, V>::empty(),
            r.list().len() == 0,
    {
        let r = NameMap { entries: Vec::new() };
        assert(r@ =~= Map::<Seq<char>, V>::empty());
        r
    }

    /// The map with the given entries, whose keys are ascending.
    pub fn from_ascending(entries: Vec<(String, V)>) -> (r: Self)
        requires
            ascending(keys_of(entries@)),
        ensures
            r.list() == entries@,
    {
        NameMap { entries }
    }

    /// The number of entries.
    pub fn len(&self) -> (r: usize)
        ensures
            r == self.list().len(),
    {
        self.entries.len()
    }

    /// The entry at a place of the list.
    pub fn entry(&self, i: usize) -> (r: &(String, V))
        requires
            i < self.list().len(),
        ensures
            *r == self.list()[i as int],
            self@.contains_key(r.0@),
            self@[r.0@] == r.1,
    {
        proof {
            use_type_invariant(self);
            lemma_map_of_entry(self.list(), i as int);
        }
        &self.entries[i]
    }

    /// The first place whose key does not come before `key`.
    fn place(&self, key: &str) -> (r: usize)
        ensures
            r <= self.list().len(),
            forall|i: int| 0 <= i < r ==> before(#[trigger] self.keys()[i], key@),
            forall|i: int|
                r <= i < self.list().len() ==> #[trigger] self.keys()[i] == key@ || before(
                    key@,
                    self.keys()[i],
                ),
    {
        proof {
            use_type_invariant(self);
        }
        let mut i: usize = 0;
        while i < self.entries.len() && is_before(self.entries[i].0.as_str(), key)
            invariant
                i <= self.entries.len(),
                forall|j: int| 0 <= j < i ==> before(#[trigger] self.keys()[j], key@),
            decreases self.entries.len() - i,
        {
            assert(self.keys()[i as int] == self.entries@[i as int].0@);
            i = i + 1;
        }
        proof {
            if i < self.list().len() {
                let k = self.keys()[i as int];
                lemma_before_total(k, key@);
                assert forall|j: int| i <= j < self.list().len() implies #[trigger] self.keys()[j]
                    == key@ || before(key@, self.keys()[j]) by {
                    if j > i && k != key@ {
                        lemma_before_transitive(key@, k, self.keys()[j]);
                    }
                }
            }
        }
        i
    }

    /// Where `key` stands, if it is there.
    fn find(&self, key: &str) -> (r: Option<usize>)
        ensures
            match r {
                Some(i) => i < self.list().len() && self.list()[i as int].0@ == key@
                    && self@.contains_key(key@) && self@[key@] == self.list()[i as int].1,
                None => !self@.contains_key(key@),
            },
    {
        let i: usize = self.place(key);
        proof {
            use_type_invariant(self);
        }
        if i < self.entries.len() && same(self.entries[i].0.as_str(), key) {
            proof {
                lemma_map_of_entry(self.list(), i as int);
            }
            Some(i)
        } else {
            proof {
                let keys = self.keys();
                assert forall|j: int| 0 <= j < keys.len() implies #[trigger] keys[j] != key@ by {
                    lemma_before_irreflexive(key@);
                    if keys[j] == key@ && i < j {
                        assert(before(keys[i as int], keys[j]));
                        assert(before(key@, keys[i as int]));
                        lemma_before_transitive(key@, keys[i as int], keys[j]);
                    }
                }
            }
            None
        }
    }

    /// The value of `key`, if it is there.
    pub fn get(&self, key: &str) -> (r: Option<&V>)
        ensures
            match r {
                Some(v) => self@.contains_key(key@) && *v == self@[key@],
                None => !self@.contains_key(key@),
            },
    {
        match self.find(key) {
            Some(i) => Some(&self.entries[i].1),
            None => None,
        }
    }

    /// Whether `key` is there.
    pub fn contains(&self, key: &str) -> (r: bool)
        ensures
            r == self@.contains_key(key@),
    {
        self.find(key).is_some()
    }

    /// Takes `key` out and gives back its value, if it was there.
    pub fn remove(&mut self, key: &str) -> (r: Option<V>)
        ensures
            final(self)@ == old(self)@.remove(key@),
            match r {
                Some(v) => old(self)@.contains_key(key@) && v == old(self)@[key@],
                None => !old(self)@.contains_key(key@),
            },
    {
        match self.find(key) {
            Some(i) => {
                proof {
                    use_type_invariant(&*self);
                }
                let ghost was = self.list();
                let mut entries: Vec<(String, V)> = Vec::new();
                std::mem::swap(&mut entries, &mut self.entries);
                let entry = entries.remove(i);
                proof {
                    lemma_remove_entry(was, i as int);
                }
                self.entries = entries;
                Some(entry.1)
            },
            None => {
                assert(self@.remove(key@) =~= self@);
                None
            },
        }
    }

    /// Gives `key` a value and gives back the one it had before, if any.
    pub fn insert(&mut self, key: String, value: V) -> (r: Option<V>)
        ensures
            final(self)@ == old(self)@.insert(key@, value),
            match r {
                Some(v) => old(self)@.contains_key(key@) && v == old(self)@[key@],
                None => !old(self)@.contains_key(key@),
            },
    {
        let before_it = self.remove(key.as_str());
        let i: usize = self.place(key.as_str());
        proof {
            use_type_invariant(&*self);
        }
        let ghost was = self.list();
        let ghost name = key;
        proof {
            assert(self.keys() == keys_of(was));
            lemma_insert_entry(was, i as int, name, value);
        }
        let mut entries: Vec<(String, V)> = Vec::new();
        std::mem::swap(&mut entries, &mut self.entries);
        entries.insert(i, (key, value));
        self.entries = entries;
        assert(self@ =~= old(self)@.insert(name@, value));
        before_it
    }

    /// The entries as a list, in order.
    pub fn into_entries(self) -> (r: Vec<(String, V)>)
        ensures
            r@ == self.list(),
            ascending(keys_of(r@)),
            self@ == map_of(r@),
    {
        proof {
            use_type_invariant(&self);
        }
        self.entries
    }
}

/// Taking one entry out of an ascending list takes its key out of the map.
proof fn lemma_remove_entry<V>(entries: Seq<(String, V)>, i: int)
    requires
        ascending(keys_of(entries)),
        0 <= i < entries.len(),
    ensures
        ascending(keys_of(entries.remove(i))),
        map_of(entries.remove(i)) == map_of(entries).remove(entries[i].0@),
{
    let rest = entries.remove(i);
    let keys = keys_of(entries);
    let left = keys_of(rest);
    assert forall|a: int, b: int| 0 <= a < b < left.len() implies before(
        #[trigger] left[a],
        #[trigger] left[b],
    ) by {
        let x = if a < i { a } else { a + 1 };
        let y = if b < i { b } else { b + 1 };
        assert(left[a] == keys[x] && left[b] == keys[y]);
    }
    let small = map_of(rest);
    let large = map_of(entries).remove(entries[i].0@);
    assert forall|k: Seq<char>| small.contains_key(k) <==> large.contains_key(k) by {
        if small.contains_key(k) {
            let a = left.index_of(k);
            let x = if a < i { a } else { a + 1 };
            lemma_map_of_entry(entries, x);
            lemma_map_of_entry(entries, i);
            assert(left[a] == entries[x].0@);
        }
        if large.contains_key(k) {
            let x = keys.index_of(k);
            lemma_map_of_entry(entries, i);
            assert(x != i);
            let a = if x < i { x } else { x - 1 };
            assert(left[a] == k);
        }
    }
    assert forall|k: Seq<char>| small.contains_key(k) implies small[k] == large[k] by {
        let a = left.index_of(k);
        let x = if a < i { a } else { a + 1 };
        assert(left[a] == entries[x].0@);
        lemma_map_of_entry(entries, x);
    }
    assert(small =~= large);
}

/// Putting an entry with a new key where it belongs adds it to the map.
proof fn lemma_insert_entry<V>(entries: Seq<(String, V)>, i: int, key: String, value: V)
    requires
        ascending(keys_of(entries)),
        0 <= i <= entries.len(),
        !map_of(entries).contains_key(key@),
        forall|j: int| 0 <= j < i ==> before(#[trigger] keys_of(entries)[j], key@),
        forall|j: int|
            i <= j < entries.len() ==> #[trigger] keys_of(entries)[j] == key@ || before(
                key@,
                keys_of(entries)[j],
            ),
    ensures
        ascending(keys_of(entries.insert(i, (key, value)))),
        map_of(entries.insert(i, (key, value))) == map_of(entries).insert(key@, value),
{
    let more = entries.insert(i, (key, value));
    let keys = keys_of(entries);
    let all = keys_of(more);
    assert forall|j: int| 0 <= j < keys.len() implies #[trigger] keys[j] != key@ by {
        assert(keys.contains(keys[j]));
    }
    assert forall|a: int, b: int| 0 <= a < b < all.len() implies before(
        #[trigger] all[a],
        #[trigger] all[b],
    ) by {
        let x = if a < i { a } else { a - 1 };
        let y = if b < i { b } else { b - 1 };
        if a != i {
            assert(all[a] == keys[x]);
        }
        if b != i {
            assert(all[b] == keys[y]);
        }
        if a == i {
            assert(all[a] == key@);
        }
        if b == i {
            assert(all[b] == key@);
        }
    }
    let large = map_of(more);
    let small = map_of(entries);
    assert(all[i] == key@);
    lemma_map_of_entry(more, i);
    assert forall|k: Seq<char>| large.contains_key(k) <==> small.insert(key@, value).contains_key(k) by {
        if large.contains_key(k) && k != key@ {
            let a = all.index_of(k);
            let x = if a < i { a } else { a - 1 };
            assert(keys[x] == k);
        }
        if small.contains_key(k) {
            let x = keys.index_of(k);
            let a = if x < i { x } else { x + 1 };
            assert(all[a] == k);
        }
    }
    assert forall|k: Seq<char>| large.contains_key(k) implies large[k] == small.insert(key@, value)[k] by {
        let a = all.index_of(k);
        if k != key@ {
            let x = if a < i { a } else { a - 1 };
            assert(all[a] == keys[x]);
            lemma_map_of_entry(entries, x);
        }
    }
    assert(large =~= small.insert(key@, value));
}

/// A map holds no key that its entries do not.
pub proof fn law_map_has_no_other_keys<V>(entries: Seq<(String, V)>, key: Seq<char>)
    requires
        forall|i: int| 0 <= i < entries.len() ==> (#[trigger] entries[i]).0@ != key,
    ensures
        !map_of(entries).contains_key(key),
{
    assert forall|i: int| 0 <= i < keys_of(entries).len() implies keys_of(entries)[i] != key by {
        assert(entries[i].0@ != key);
    }
}

} // verus!
