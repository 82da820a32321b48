//! Map from text to values, walked in the order of its keys.
use vstd::prelude::*;

use crate::text;
use crate::text::TextOrder;

verus! {

/// Entries with pairwise different keys, kept in the order of the keys.
#[derive(Clone, Debug)]
pub struct TextMap<V> {
    entries: Vec<(String, V)>,
}

impl<V> TextMap<V> {
    /// The entries in the order of their keys.
    pub closed spec fn entries(self) -> Seq<(Seq<char>, V)> {
        self.entries@.map_values(|entry: (String, V)| (entry.0@, entry.1))
    }

    /// The keys in their order.
    pub open spec fn keys(self) -> Seq<Seq<char>> {
        self.entries().map_values(|entry: (Seq<char>, V)| entry.0)
    }

    /// The keys stand in strictly increasing order.
    pub open spec fn wf(self) -> bool {
        forall|i: int, j: int| 0 <= i < j < self.entries().len() ==>
            text::text_lt(#[trigger] self.entries()[i].0, #[trigger] self.entries()[j].0)
    }

    /// Whether the map has an entry for `key`.
    pub open spec fn has(self, key: Seq<char>) -> bool {
        exists|i: int| 0 <= i < self.entries().len() && #[trigger] self.entries()[i].0 == key
    }

    /// The position of the entry for `key`.
    pub open spec fn position(self, key: Seq<char>) -> int {
        choose|i: int| 0 <= i < self.entries().len() && #[trigger] self.entries()[i].0 == key
    }

    /// The value for `key`.
    pub open spec fn at(self, key: Seq<char>) -> V {
        self.entries()[self.position(key)].1
    }

    /// The finite map that the entries denote.
    pub open spec fn map(self) -> Map<Seq<char>, V> {
        Map::new(|key: Seq<char>| self.has(key), |key: Seq<char>| self.at(key))
    }

    /// What an insertion changes: one key has the new value, and all others have theirs.
    pub proof fn after_insert(self, before: Self, key: Seq<char>, value: V)
        requires
            self.map() == before.map().insert(key, value),
        ensures
            self.has(key),
            self.at(key) == value,
            forall|k: Seq<char>| #[trigger] self.has(k) == (before.has(k) || k == key),
            forall|k: Seq<char>| before.has(k) && k != key ==> #[trigger] self.at(k) == before.at(k),
    {
        assert forall|k: Seq<char>| #[trigger] self.has(k) == (before.has(k) || k == key) by {
            assert(self.map().dom().contains(k) == self.has(k));
            assert(before.map().dom().contains(k) == before.has(k));
            assert(self.map().dom().contains(k) == before.map().insert(key, value).dom().contains(k));
        }
        assert forall|k: Seq<char>| before.has(k) && k != key implies #[trigger] self.at(k) == before.at(k) by {
            assert(before.map().dom().contains(k));
            assert(before.map()[k] == before.at(k));
            assert(self.has(k));
            assert(self.map().dom().contains(k));
            assert(self.map()[k] == self.at(k));
            assert(self.map()[k] == before.map().insert(key, value)[k]);
        }
        assert(self.has(key));
        assert(self.map().dom().contains(key));
        assert(self.map()[key] == self.at(key));
        assert(self.map()[key] == before.map().insert(key, value)[key]);
    }

    /// In a well-formed map a key occurs at one position only.
    pub proof fn unique_position(self, i: int)
        requires
            self.wf(),
            0 <= i < self.entries().len(),
        ensures
            self.has(self.entries()[i].0),
            self.position(self.entries()[i].0) == i,
            self.at(self.entries()[i].0) == self.entries()[i].1,
    {
        let key = self.entries()[i].0;
        let p = self.position(key);
        assert(self.entries()[i].0 == key);
        assert(0 <= p < self.entries().len() && self.entries()[p].0 == key);
        text::text_lt_strict_total(key, key);
        if p < i {
            assert(text::text_lt(self.entries()[p].0, self.entries()[i].0));
        } else if i < p {
            assert(text::text_lt(self.entries()[i].0, self.entries()[p].0));
        }
    }

    /// The empty map.
    pub fn new() -> (r: Self)
        ensures
            r.wf(),
            r.entries() == Seq::<(Seq<char>, V)>::empty(),
            r.map() == Map::<Seq<char>, V>::empty(),
    {
        let r = TextMap { entries: Vec::new() };
        assert(r.entries() =~= Seq::empty());
        assert(r.map() =~= Map::empty());
        r
    }

    /// The number of entries.
    pub fn len(&self) -> (r: usize)
        ensures
            r == self.entries().len(),
    {
        self.entries.len()
    }

    /// Whether there is no entry.
    pub fn is_empty(&self) -> (r: bool)
        ensures
            r == (self.entries().len() == 0),
    {
        self.entries.len() == 0
    }

    /// The key at a position.
    pub fn key_at(&self, i: usize) -> (r: &str)
        requires
            i < self.entries().len(),
        ensures
            r@ == self.entries()[i as int].0,
    {
        self.entries[i].0.as_str()
    }

    /// The value at a position.
    pub fn value_at(&self, i: usize) -> (r: &V)
        requires
            i < self.entries().len(),
        ensures
            *r == self.entries()[i as int].1,
    {
        &self.entries[i].1
    }

    /// The position at which `key` stands, or else belongs.
    fn search(&self, key: &str) -> (r: (bool, usize))
        requires
            self.wf(),
        ensures
            r.1 <= self.entries().len(),
            r.0 == self.has(key@),
            r.0 ==> r.1 < self.entries().len() && self.entries()[r.1 as int].0 == key@ && self.position(key@) == r.1,
            !r.0 ==> (forall|i: int| 0 <= i < r.1 ==> text::text_lt(#[trigger] self.entries()[i].0, key@)),
            !r.0 ==> (forall|i: int| r.1 <= i < self.entries().len() ==> text::text_lt(key@, #[trigger] self.entries()[i].0)),
    {
        let mut i: usize = 0;
        while i < self.entries.len()
            invariant
                self.wf(),
                i <= self.entries().len(),
                self.entries().len() == self.entries@.len(),
                forall|k: int| 0 <= k < i ==> text::text_lt(#[trigger] self.entries()[k].0, key@),
            decreases self.entries.len() - i,
        {
            match text::order(self.entries[i].0.as_str(), key) {
                TextOrder::Before => {},
                TextOrder::Same => {
                    proof {
                        self.unique_position(i as int);
                    }
                    return (true, i);
                },
                TextOrder::After => {
                    proof {
                        assert forall|k: int| i <= k < self.entries().len() implies text::text_lt(key@, #[trigger] self.entries()[k].0) by {
                            if k > i {
                                assert(text::text_lt(self.entries()[i as int].0, self.entries()[k].0));
                                text::text_lt_transitive(key@, self.entries()[i as int].0, self.entries()[k].0);
                            }
                        }
                        text::text_lt_strict_total(key@, key@);
                        assert(!self.has(key@));
                    }
                    return (false, i);
                },
            }
            i = i + 1;
        }
        proof {
            text::text_lt_strict_total(key@, key@);
            assert(!self.has(key@));
        }
        (false, i)
    }

    /// Whether there is an entry for `key`.
    pub fn contains_key(&self, key: &str) -> (r: bool)
        requires
            self.wf(),
        ensures
            r == self.has(key@),
    {
        self.search(key).0
    }

    /// The value for `key`.
    pub fn get(&self, key: &str) -> (r: Option<&V>)
        requires
            self.wf(),
        ensures
            match r {
                Some(value) => self.has(key@) && *value == self.at(key@),
                None => !self.has(key@),
            },
    {
        let (found, i) = self.search(key);
        if found {
            Some(&self.entries[i].1)
        } else {
            None
        }
    }

    /// Sets the value for `key` and gives back the value that it replaces.
    pub fn insert(&mut self, key: String, value: V) -> (r: Option<V>)
        requires
            old(self).wf(),
        ensures
            final(self).wf(),
            final(self).map() == old(self).map().insert(key@, value),
            match r {
                Some(before) => old(self).has(key@) && before == old(self).at(key@),
                None => !old(self).has(key@),
            },
            !old(self).has(key@) ==> (exists|i: int| 0 <= i <= old(self).entries().len()
                && final(self).entries() == #[trigger] old(self).entries().insert(i, (key@, value))),
            old(self).has(key@) ==> final(self).entries() == old(self).entries().update(old(self).position(key@), (key@, value)),
    {
        let ghost before = *self;
        let (found, i) = self.search(key.as_str());
        if found {
            let (old_key, old_value) = self.entries.remove(i);
            self.entries.insert(i, (key, value));
            proof {
                assert(self.entries() =~= before.entries().update(i as int, (key@, value)));
                lemma_same_keys(before, *self);
                lemma_updated_map(before, *self, i as int);
            }
            Some(old_value)
        } else {
            self.entries.insert(i, (key, value));
            proof {
                assert(self.entries() =~= before.entries().insert(i as int, (key@, value)));
                lemma_inserted_map(before, *self, i as int);
            }
            None
        }
    }

    /// In a well-formed map the keys of `map` are the keys of the entries.
    pub proof fn map_of_entries(self, key: Seq<char>)
        ensures
            self.map().dom().contains(key) == self.has(key),
            self.has(key) ==> self.map()[key] == self.at(key),
    {
    }

    /// Adds an entry whose key is after every key of the map.
    pub fn push_last(&mut self, key: String, value: V)
        requires
            old(self).wf(),
            forall|i: int| 0 <= i < old(self).entries().len() ==> text::text_lt((#[trigger] old(self).entries()[i]).0, key@),
        ensures
            final(self).wf(),
            final(self).entries() == old(self).entries().push((key@, value)),
            final(self).map() == old(self).map().insert(key@, value),
    {
        let ghost before = *self;
        self.entries.push((key, value));
        proof {
            let n = before.entries().len() as int;
            assert(self.entries() =~= before.entries().push((key@, value)));
            assert(self.entries() =~= before.entries().insert(n, (key@, value)));
            lemma_inserted_map(before, *self, n);
        }
    }

    /// Removes the entry for `key` and gives back its value.
    pub fn remove(&mut self, key: &str) -> (r: Option<V>)
        requires
            old(self).wf(),
        ensures
            final(self).wf(),
            final(self).map() == old(self).map().remove(key@),
            match r {
                Some(before) => old(self).has(key@) && before == old(self).at(key@)
                    && final(self).entries() == old(self).entries().remove(old(self).position(key@)),
                None => !old(self).has(key@) && final(self).entries() == old(self).entries(),
            },
    {
        let ghost before = *self;
        let (found, i) = self.search(key);
        if found {
            let (old_key, old_value) = self.entries.remove(i);
            proof {
                assert(self.entries() =~= before.entries().remove(i as int));
                lemma_removed_map(before, *self, i as int);
            }
            Some(old_value)
        } else {
            proof {
                assert(self.map() =~= before.map().remove(key@));
            }
            None
        }
    }
}

proof fn lemma_same_keys<V>(before: TextMap<V>, after: TextMap<V>)
    requires
        before.wf(),
        before.entries().len() == after.entries().len(),
        forall|i: int| 0 <= i < before.entries().len() ==> #[trigger] before.entries()[i].0 == after.entries()[i].0,
    ensures
        after.wf(),
{
    assert forall|i: int, j: int| 0 <= i < j < after.entries().len() implies text::text_lt(#[trigger] after.entries()[i].0, #[trigger] after.entries()[j].0) by {
        assert(text::text_lt(before.entries()[i].0, before.entries()[j].0));
    }
}

proof fn lemma_updated_map<V>(before: TextMap<V>, after: TextMap<V>, p: int)
    requires
        before.wf(),
        after.wf(),
        0 <= p < before.entries().len(),
        after.entries() == before.entries().update(p, (before.entries()[p].0, after.entries()[p].1)),
    ensures
        after.map() == before.map().insert(before.entries()[p].0, after.entries()[p].1),
{
    let key = before.entries()[p].0;
    assert forall|k: Seq<char>| after.map().dom().contains(k) <==> before.map().insert(key, after.entries()[p].1).dom().contains(k) by {
        if after.has(k) {
            let i = after.position(k);
            before.unique_position(i);
        }
        if before.has(k) {
            let i = before.position(k);
            after.unique_position(i);
        }
        after.unique_position(p);
    }
    assert forall|k: Seq<char>| after.map().dom().contains(k) implies after.map()[k] == before.map().insert(key, after.entries()[p].1)[k] by {
        let i = after.position(k);
        after.unique_position(i);
        before.unique_position(i);
        after.unique_position(p);
    }
    assert(after.map() =~= before.map().insert(key, after.entries()[p].1));
}

proof fn lemma_inserted_map<V>(before: TextMap<V>, after: TextMap<V>, p: int)
    requires
        before.wf(),
        0 <= p <= before.entries().len(),
        p < after.entries().len(),
        after.entries() == before.entries().insert(p, after.entries()[p]),
        forall|i: int| 0 <= i < p ==> text::text_lt(#[trigger] before.entries()[i].0, after.entries()[p].0),
        forall|i: int| p <= i < before.entries().len() ==> text::text_lt(after.entries()[p].0, #[trigger] before.entries()[i].0),
    ensures
        after.wf(),
        after.map() == before.map().insert(after.entries()[p].0, after.entries()[p].1),
{
    let key = after.entries()[p].0;
    assert forall|i: int, j: int| 0 <= i < j < after.entries().len() implies text::text_lt(#[trigger] after.entries()[i].0, #[trigger] after.entries()[j].0) by {
        let a = if i < p { before.entries()[i].0 } else if i == p { key } else { before.entries()[i - 1].0 };
        let b = if j < p { before.entries()[j].0 } else if j == p { key } else { before.entries()[j - 1].0 };
        assert(after.entries()[i].0 == a);
        assert(after.entries()[j].0 == b);
    }
    after.unique_position(p);
    assert forall|k: Seq<char>| after.map().dom().contains(k) <==> before.map().insert(key, after.entries()[p].1).dom().contains(k) by {
        if after.has(k) {
            let i = after.position(k);
            if i < p {
                before.unique_position(i);
            } else if i > p {
                before.unique_position(i - 1);
            }
        }
        if before.has(k) {
            let i = before.position(k);
            if i < p {
                after.unique_position(i);
            } else {
                after.unique_position(i + 1);
            }
        }
    }
    assert forall|k: Seq<char>| after.map().dom().contains(k) implies after.map()[k] == before.map().insert(key, after.entries()[p].1)[k] by {
        let i = after.position(k);
        after.unique_position(i);
        if i < p {
            before.unique_position(i);
        } else if i > p {
            before.unique_position(i - 1);
        }
        if k == key {
            assert(i == p);
        }
    }
    assert(after.map() =~= before.map().insert(key, after.entries()[p].1));
}

proof fn lemma_removed_map<V>(before: TextMap<V>, after: TextMap<V>, p: int)
    requires
        before.wf(),
        0 <= p < before.entries().len(),
        after.entries() == before.entries().remove(p),
    ensures
        after.wf(),
        after.map() == before.map().remove(before.entries()[p].0),
{
    let key = before.entries()[p].0;
    assert forall|i: int, j: int| 0 <= i < j < after.entries().len() implies text::text_lt(#[trigger] after.entries()[i].0, #[trigger] after.entries()[j].0) by {
        let a = if i < p { i } else { i + 1 };
        let b = if j < p { j } else { j + 1 };
        assert(text::text_lt(before.entries()[a].0, before.entries()[b].0));
    }
    before.unique_position(p);
    assert forall|k: Seq<char>| after.map().dom().contains(k) <==> before.map().remove(key).dom().contains(k) by {
        if after.has(k) {
            let i = after.position(k);
            let q = if i < p { i } else { i + 1 };
            before.unique_position(q);
        }
        if before.has(k) && k != key {
            let i = before.position(k);
            let q = if i < p { i } else { i - 1 };
            assert(i != p);
            after.unique_position(q);
        }
    }
    assert forall|k: Seq<char>| after.map().dom().contains(k) implies after.map()[k] == before.map().remove(key)[k] by {
        let i = after.position(k);
        let q = if i < p { i } else { i + 1 };
        before.unique_position(q);
        after.unique_position(i);
    }
    assert(after.map() =~= before.map().remove(key));
}

} // verus!
