//! A map from strings to values, kept as two parallel vectors in which no
//! key stands twice. Its view is a finite `Map` from the characters of a
//! key to the value stored under it.

use crate::text::{str_eq, views};
use vstd::prelude::*;

verus! {

pub struct StringMap<V> {
    keys: Vec<String>,
    values: Vec<V>,
}

/// The map that pairs each of `keys` with the value at its position.
spec fn paired<V>(keys: Seq<Seq<char>>, values: Seq<V>) -> Map<Seq<char>, V> {
    Map::new(|k: Seq<char>| keys.contains(k), |k: Seq<char>| values[keys.index_of(k)])
}

proof fn lemma_index_of(keys: Seq<Seq<char>>, at: int)
    requires
        keys.no_duplicates(),
        0 <= at < keys.len(),
    ensures
        keys.contains(keys[at]),
        keys.index_of(keys[at]) == at,
{
    let found = keys.index_of(keys[at]);
    assert(0 <= found < keys.len() && keys[found] == keys[at]);
}

proof fn lemma_paired_push<V>(keys: Seq<Seq<char>>, values: Seq<V>, key: Seq<char>, value: V)
    requires
        keys.no_duplicates(),
        keys.len() == values.len(),
        !keys.contains(key),
    ensures
        keys.push(key).no_duplicates(),
        paired(keys.push(key), values.push(value)) == paired(keys, values).insert(key, value),
{
    let keys2 = keys.push(key);
    let values2 = values.push(value);
    assert forall|i: int, j: int| 0 <= i < keys2.len() && 0 <= j < keys2.len() && i != j implies keys2[i] != keys2[j] by {
        if i < keys.len() {
            assert(keys.contains(keys[i]));
        }
        if j < keys.len() {
            assert(keys.contains(keys[j]));
        }
    }
    assert forall|k: Seq<char>| keys2.contains(k) <==> (k == key || keys.contains(k)) by {
        if keys.contains(k) {
            let i = keys.index_of(k);
            assert(keys2[i] == k);
        }
        if k == key {
            assert(keys2[keys.len() as int] == k);
        }
        if keys2.contains(k) {
            let i = keys2.index_of(k);
            if i < keys.len() {
                assert(keys[i] == k);
            }
        }
    }
    assert forall|k: Seq<char>| keys2.contains(k) implies #[trigger] paired(keys2, values2)[k] == paired(keys, values).insert(key, value)[k] by {
        let i = keys2.index_of(k);
        lemma_index_of(keys2, i);
        if k != key {
            let j = keys.index_of(k);
            assert(keys2[j] == k);
            lemma_index_of(keys2, j);
        } else {
            lemma_index_of(keys2, keys.len() as int);
        }
    }
    assert(paired(keys2, values2) =~= paired(keys, values).insert(key, value));
}

proof fn lemma_paired_update<V>(keys: Seq<Seq<char>>, values: Seq<V>, at: int, value: V)
    requires
        keys.no_duplicates(),
        keys.len() == values.len(),
        0 <= at < keys.len(),
    ensures
        paired(keys, values.update(at, value)) == paired(keys, values).insert(keys[at], value),
        paired(keys, values)[keys[at]] == values[at],
        paired(keys, values).contains_key(keys[at]),
{
    lemma_index_of(keys, at);
    assert forall|k: Seq<char>| keys.contains(k) implies #[trigger] paired(keys, values.update(at, value))[k] == paired(keys, values).insert(keys[at], value)[k] by {
        let i = keys.index_of(k);
        lemma_index_of(keys, i);
    }
    assert(paired(keys, values.update(at, value)) =~= paired(keys, values).insert(keys[at], value));
}

proof fn lemma_paired_remove<V>(keys: Seq<Seq<char>>, values: Seq<V>, at: int)
    requires
        keys.no_duplicates(),
        keys.len() == values.len(),
        0 <= at < keys.len(),
    ensures
        keys.remove(at).no_duplicates(),
        paired(keys.remove(at), values.remove(at)) == paired(keys, values).remove(keys[at]),
{
    let keys2 = keys.remove(at);
    let values2 = values.remove(at);
    assert forall|i: int, j: int| 0 <= i < keys2.len() && 0 <= j < keys2.len() && i != j implies keys2[i] != keys2[j] by {
        let a = if i < at { i } else { i + 1 };
        let b = if j < at { j } else { j + 1 };
        assert(keys2[i] == keys[a] && keys2[j] == keys[b]);
    }
    assert forall|k: Seq<char>| keys2.contains(k) <==> (k != keys[at] && keys.contains(k)) by {
        if keys2.contains(k) {
            let i = keys2.index_of(k);
            let a = if i < at { i } else { i + 1 };
            assert(keys[a] == k);
        }
        if k != keys[at] && keys.contains(k) {
            let a = keys.index_of(k);
            let i = if a < at { a } else { a - 1 };
            assert(keys2[i] == k);
        }
    }
    assert forall|k: Seq<char>| keys2.contains(k) implies #[trigger] paired(keys2, values2)[k] == paired(keys, values).remove(keys[at])[k] by {
        let i = keys2.index_of(k);
        let a = if i < at { i } else { i + 1 };
        assert(keys[a] == k);
        lemma_index_of(keys, a);
    }
    assert(paired(keys2, values2) =~= paired(keys, values).remove(keys[at]));
}

proof fn lemma_paired_len<V>(keys: Seq<Seq<char>>, values: Seq<V>)
    requires
        keys.no_duplicates(),
    ensures
        paired(keys, values).dom().finite(),
        paired(keys, values).dom().len() == keys.len(),
{
    keys.unique_seq_to_set();
    assert(paired(keys, values).dom() =~= keys.to_set());
}

impl<V> StringMap<V> {
    #[verifier::type_invariant]
    closed spec fn inv(&self) -> bool {
        &&& self.keys@.len() == self.values@.len()
        &&& views(self.keys@).no_duplicates()
    }

    /// The position of `key` among the keys; their number where it is not
    /// one of them.
    fn find(&self, key: &str) -> (at: usize)
        ensures
            at <= self.keys@.len(),
            at < self.keys@.len() ==> views(self.keys@)[at as int] == key@,
            at == self.keys@.len() ==> !views(self.keys@).contains(key@),
    {
        let mut at: usize = 0;
        while at < self.keys.len()
            invariant
                at <= self.keys@.len(),
                forall|j: int| 0 <= j < at ==> views(self.keys@)[j] != key@,
            decreases self.keys@.len() - at,
        {
            if str_eq(self.keys[at].as_str(), key) {
                return at;
            }
            at = at + 1;
        }
        at
    }

    pub fn new() -> (map: Self)
        ensures
            map@ == Map::<Seq<char>, V>::empty(),
    {
        let map = StringMap { keys: Vec::new(), values: Vec::new() };
        assert(map@ =~= Map::<Seq<char>, V>::empty());
        map
    }

    /// The number of keys.
    pub fn len(&self) -> (n: usize)
        ensures
            self@.dom().finite(),
            n == self@.dom().len(),
    {
        proof {
            use_type_invariant(self);
            lemma_paired_len(views(self.keys@), self.values@);
        }
        self.keys.len()
    }

    pub fn contains_key(&self, key: &str) -> (found: bool)
        ensures
            found == self@.contains_key(key@),
    {
        self.find(key) < self.keys.len()
    }

    pub fn get(&self, key: &str) -> (value: Option<&V>)
        ensures
            match value {
                Some(v) => self@.contains_key(key@) && *v == self@[key@],
                None => !self@.contains_key(key@),
            },
    {
        let at = self.find(key);
        if at < self.keys.len() {
            proof {
                use_type_invariant(self);
                lemma_index_of(views(self.keys@), at as int);
            }
            Some(&self.values[at])
        } else {
            None
        }
    }

    /// A mutable reference to the value under `key`. What the caller leaves
    /// in it is what the map then holds under `key`.
    pub fn get_mut(&mut self, key: &str) -> (value: Option<&mut V>)
        ensures
            match value {
                Some(v) => old(self)@.contains_key(key@) && *v == old(self)@[key@] && final(self)@
                    == old(self)@.insert(key@, *final(v)),
                None => !old(self)@.contains_key(key@) && final(self)@ == old(self)@,
            },
    {
        let at = self.find(key);
        if at < self.keys.len() {
            proof {
                use_type_invariant(&*self);
                lemma_index_of(views(self.keys@), at as int);
                assert forall|v: V| #[trigger] paired(views(self.keys@), self.values@.update(at as int, v)) == self@.insert(key@, v) by {
                    lemma_paired_update(views(self.keys@), self.values@, at as int, v);
                }
            }
            Some(&mut self.values[at])
        } else {
            None
        }
    }

    /// The keys, each of them once.
    pub fn keys(&self) -> (keys: Vec<String>)
        ensures
            views(keys@).no_duplicates(),
            views(keys@).to_set() == self@.dom(),
    {
        proof {
            use_type_invariant(self);
        }
        let mut keys: Vec<String> = Vec::new();
        let mut i: usize = 0;
        while i < self.keys.len()
            invariant
                i <= self.keys@.len(),
                views(keys@) == views(self.keys@).take(i as int),
            decreases self.keys@.len() - i,
        {
            let ghost before = views(keys@);
            let key = self.keys[i].clone();
            keys.push(key);
            assert(views(keys@) =~= before.push(key@));
            i = i + 1;
            assert(views(keys@) =~= views(self.keys@).take(i as int));
        }
        assert(views(keys@) =~= views(self.keys@));
        assert(views(keys@).to_set() =~= self@.dom());
        keys
    }

    /// Stores `value` under `key` and returns what was stored there before.
    pub fn insert(&mut self, key: String, value: V) -> (previous: Option<V>)
        ensures
            final(self)@ == old(self)@.insert(key@, value),
            match previous {
                Some(v) => old(self)@.contains_key(key@) && v == old(self)@[key@],
                None => !old(self)@.contains_key(key@),
            },
    {
        proof {
            use_type_invariant(&*self);
        }
        let at = self.find(key.as_str());
        let mut taken = StringMap { keys: Vec::new(), values: Vec::new() };
        core::mem::swap(self, &mut taken);
        let StringMap { mut keys, mut values } = taken;
        if at < keys.len() {
            proof {
                lemma_paired_update(views(keys@), values@, at as int, value);
            }
            let mut stored = value;
            core::mem::swap(&mut values[at], &mut stored);
            *self = StringMap { keys, values };
            Some(stored)
        } else {
            proof {
                lemma_paired_push(views(keys@), values@, key@, value);
                assert(views(keys@.push(key)) =~= views(keys@).push(key@));
            }
            keys.push(key);
            values.push(value);
            *self = StringMap { keys, values };
            None
        }
    }

    /// Takes the value under `key` out of the map and returns it.
    pub fn remove(&mut self, key: &str) -> (removed: Option<V>)
        ensures
            final(self)@ == old(self)@.remove(key@),
            match removed {
                Some(v) => old(self)@.contains_key(key@) && v == old(self)@[key@],
                None => !old(self)@.contains_key(key@),
            },
    {
        proof {
            use_type_invariant(&*self);
        }
        let at = self.find(key);
        if at < self.keys.len() {
            let mut taken = StringMap { keys: Vec::new(), values: Vec::new() };
            core::mem::swap(self, &mut taken);
            let StringMap { mut keys, mut values } = taken;
            proof {
                lemma_index_of(views(keys@), at as int);
                lemma_paired_remove(views(keys@), values@, at as int);
                assert(views(keys@.remove(at as int)) =~= views(keys@).remove(at as int));
            }
            keys.remove(at);
            let value = values.remove(at);
            *self = StringMap { keys, values };
            Some(value)
        } else {
            assert(self@.remove(key@) =~= self@);
            None
        }
    }
}

impl<V> View for StringMap<V> {
    type V = Map<Seq<char>, V>;

    closed spec fn view(&self) -> Map<Seq<char>, V> {
        paired(views(self.keys@), self.values@)
    }
}

} // verus!
