//! The in-memory map that every ledger keeps in front of its durable tables:
//! text keys, each with one value, in the order in which the keys arrived.
//!
//! [`Table`] is the mathematical map; [`Keyed`] is the map in memory, whose
//! view is a `Table`.

use vstd::prelude::*;

verus! {

/// A finite map from text keys to values that remembers the order in which
/// the keys first arrived.
#[verifier::ext_equal]
pub struct Table<V> {
    /// The keys, oldest first.
    pub keys: Seq<Seq<char>>,
    /// The values, each at the position of its key.
    pub values: Seq<V>,
}

impl<V> Table<V> {
    pub open spec fn empty() -> Table<V> {
        Table { keys: Seq::empty(), values: Seq::empty() }
    }

    /// Every key has one value and occurs once.
    pub open spec fn wf(self) -> bool {
        &&& self.keys.len() == self.values.len()
        &&& self.keys.no_duplicates()
    }

    pub open spec fn has(self, key: Seq<char>) -> bool {
        self.keys.contains(key)
    }

    /// The position of `key`, if the map holds it.
    pub open spec fn index(self, key: Seq<char>) -> Option<int> {
        if self.has(key) {
            Some(self.keys.index_of(key))
        } else {
            None
        }
    }

    /// The value under `key`, if the map holds it.
    pub open spec fn get(self, key: Seq<char>) -> Option<V> {
        if self.has(key) {
            Some(self.values[self.keys.index_of(key)])
        } else {
            None
        }
    }

    /// The map with `value` under `key`: in place of the value that was there,
    /// or as a new last entry.
    pub open spec fn put(self, key: Seq<char>, value: V) -> Table<V> {
        if self.has(key) {
            Table { keys: self.keys, values: self.values.update(self.keys.index_of(key), value) }
        } else {
            Table { keys: self.keys.push(key), values: self.values.push(value) }
        }
    }

    /// In a well-formed map a key sits at exactly one position.
    pub proof fn index_is_unique(self, key: Seq<char>, i: int)
        requires
            self.wf(),
            0 <= i < self.keys.len(),
            self.keys[i] == key,
        ensures
            self.index(key) == Some(i),
            self.get(key) == Some(self.values[i]),
    {
        assert(self.keys.contains(key));
    }

    /// Putting a value under a key keeps the map well formed; the key then
    /// holds that value, and every other key holds what it held.
    pub proof fn put_then_get(self, key: Seq<char>, value: V, other: Seq<char>)
        requires
            self.wf(),
        ensures
            self.put(key, value).wf(),
            self.put(key, value).get(key) == Some(value),
            other != key ==> self.put(key, value).get(other) == self.get(other),
    {
        let after = self.put(key, value);
        if self.has(key) {
            let i = self.keys.index_of(key);
            after.index_is_unique(key, i);
            if other != key && self.has(other) {
                let j = self.keys.index_of(other);
                after.index_is_unique(other, j);
            }
        } else {
            assert forall|i: int, j: int|
                0 <= i < after.keys.len() && 0 <= j < after.keys.len() && i != j implies after.keys[i]
                != after.keys[j] by {
                if i < self.keys.len() && j < self.keys.len() {
                    assert(self.keys[i] != self.keys[j]);
                } else if i < self.keys.len() {
                    assert(self.keys.contains(self.keys[i]));
                } else {
                    assert(self.keys.contains(self.keys[j]));
                }
            }
            after.index_is_unique(key, self.keys.len() as int);
            if other != key {
                if self.has(other) {
                    let j = self.keys.index_of(other);
                    after.index_is_unique(other, j);
                } else {
                    if after.has(other) {
                        let j = after.keys.index_of(other);
                        assert(self.keys[j] == other);
                        assert(false);
                    }
                }
            }
        }
    }
}

impl<T> Table<Seq<T>> {
    /// The list under `key`; empty where the map does not hold the key.
    pub open spec fn list(self, key: Seq<char>) -> Seq<T> {
        match self.get(key) {
            Some(items) => items,
            None => Seq::empty(),
        }
    }

    /// The map with `item` at the end of the list under `key`.
    pub open spec fn append(self, key: Seq<char>, item: T) -> Table<Seq<T>> {
        self.put(key, self.list(key).push(item))
    }

    /// Every list, one after the other, in the order of the keys.
    pub open spec fn flat(self) -> Seq<T> {
        self.values.flatten()
    }

    /// Appending to the list of a key lengthens that list by the item and
    /// leaves every other list as it was.
    pub proof fn append_then_list(self, key: Seq<char>, item: T, other: Seq<char>)
        requires
            self.wf(),
        ensures
            self.append(key, item).wf(),
            self.append(key, item).get(key) == Some(self.list(key).push(item)),
            self.append(key, item).list(key) == self.list(key).push(item),
            other != key ==> self.append(key, item).get(other) == self.get(other),
            other != key ==> self.append(key, item).list(other) == self.list(other),
    {
        self.put_then_get(key, self.list(key).push(item), other);
    }
}

/// The texts of a run of strings.
pub open spec fn texts(names: Seq<String>) -> Seq<Seq<char>> {
    Seq::new(names.len(), |i: int| names[i]@)
}

/// The map in memory. No key occurs twice: the view of every `Keyed` is a
/// well-formed [`Table`].
#[derive(Debug)]
pub struct Keyed<V> {
    names: Vec<String>,
    slots: Vec<V>,
}

impl<V> View for Keyed<V> {
    type V = Table<V>;

    closed spec fn view(&self) -> Table<V> {
        Table { keys: texts(self.names@), values: self.slots@ }
    }
}

impl<V> Keyed<V> {
    /// What holds of every map in memory: no key occurs twice.
    #[verifier::type_invariant]
    pub open spec fn no_key_twice(self) -> bool {
        self@.wf()
    }

    pub fn new() -> (map: Self)
        ensures
            map@ == Table::<V>::empty(),
    {
        let map = Keyed { names: Vec::new(), slots: Vec::new() };
        assert(map@ =~= Table::<V>::empty());
        map
    }

    /// The map with `names` as keys, in that order, and the value of each at
    /// the same position in `slots`.
    pub(crate) fn from_parts(names: Vec<String>, slots: Vec<V>) -> (map: Self)
        requires
            names@.len() == slots@.len(),
            texts(names@).no_duplicates(),
        ensures
            map@ == (Table { keys: texts(names@), values: slots@ }),
            map@.wf(),
    {
        Keyed { names, slots }
    }

    pub fn len(&self) -> (n: usize)
        ensures
            self@.wf(),
            n == self@.keys.len(),
            n == self@.values.len(),
    {
        proof {
            use_type_invariant(self);
        }
        self.names.len()
    }

    /// Finds the position of `key`.
    pub fn position(&self, key: &str) -> (found: Option<usize>)
        ensures
            self@.wf(),
            match found {
                Some(i) => self@.index(key@) == Some(i as int) && i < self@.keys.len(),
                None => self@.index(key@).is_none(),
            },
    {
        proof {
            use_type_invariant(self);
        }
        let wanted = key.to_owned();
        let mut i: usize = 0;
        while i < self.names.len()
            invariant
                self@.wf(),
                wanted@ == key@,
                i <= self.names@.len(),
                forall|k: int| 0 <= k < i ==> self@.keys[k] != key@,
            decreases self.names@.len() - i,
        {
            if self.names[i] == wanted {
                proof {
                    self@.index_is_unique(key@, i as int);
                }
                return Some(i);
            }
            i += 1;
        }
        None
    }

    pub fn contains_key(&self, key: &str) -> (r: bool)
        ensures
            self@.wf(),
            r == self@.has(key@),
    {
        self.position(key).is_some()
    }

    /// The key at position `i`.
    pub fn key(&self, i: usize) -> (name: &String)
        requires
            i < self@.keys.len(),
        ensures
            self@.wf(),
            name@ == self@.keys[i as int],
    {
        proof {
            use_type_invariant(self);
        }
        &self.names[i]
    }

    /// The value at position `i`.
    pub fn value(&self, i: usize) -> (slot: &V)
        requires
            i < self@.values.len(),
        ensures
            self@.wf(),
            *slot == self@.values[i as int],
    {
        proof {
            use_type_invariant(self);
        }
        &self.slots[i]
    }

    /// The value under `key`, if the map holds it.
    pub fn get(&self, key: &str) -> (found: Option<&V>)
        ensures
            self@.wf(),
            match found {
                Some(slot) => self@.get(key@) == Some(*slot),
                None => self@.get(key@).is_none(),
            },
    {
        match self.position(key) {
            Some(i) => Some(&self.slots[i]),
            None => None,
        }
    }

    /// Puts `value` at position `i` and hands out the value that was there;
    /// the keys stay as they are.
    pub fn replace(&mut self, i: usize, value: V) -> (was: V)
        requires
            i < old(self)@.values.len(),
        ensures
            was == old(self)@.values[i as int],
            final(self)@.keys == old(self)@.keys,
            final(self)@.values == old(self)@.values.update(i as int, value),
            old(self)@.wf(),
            final(self)@.wf(),
    {
        proof {
            use_type_invariant(&*self);
        }
        let mut taken = Keyed::new();
        core::mem::swap(self, &mut taken);
        let Keyed { names, mut slots } = taken;
        let mut held = value;
        core::mem::swap(&mut slots[i], &mut held);
        *self = Keyed { names, slots };
        held
    }

    /// Puts `value` under `key`: in place of the value that was there, or as a
    /// new last entry.
    pub fn insert(&mut self, key: String, value: V)
        ensures
            final(self)@ == old(self)@.put(key@, value),
            old(self)@.wf(),
            final(self)@.wf(),
    {
        let found = self.position(key.as_str());
        let mut taken = Keyed::new();
        core::mem::swap(self, &mut taken);
        let Keyed { mut names, mut slots } = taken;
        match found {
            Some(i) => {
                slots[i] = value;
            },
            None => {
                names.push(key);
                slots.push(value);
            },
        }
        proof {
            old(self)@.put_then_get(key@, value, key@);
            assert((Table { keys: texts(names@), values: slots@ }) =~= old(self)@.put(key@, value));
        }
        *self = Keyed { names, slots };
    }
}

impl<T> Keyed<Vec<T>> {
    /// The map with each list as a sequence.
    pub open spec fn rows(&self) -> Table<Seq<T>> {
        Table { keys: self@.keys, values: Seq::new(self@.values.len(), |i: int| self@.values[i]@) }
    }

    /// The lists of a well-formed map form a well-formed map, with a list
    /// under exactly the keys that the map holds.
    pub proof fn rows_follow(&self, key: Seq<char>)
        requires
            self@.wf(),
        ensures
            self.rows().wf(),
            self.rows().has(key) == self@.has(key),
            self.rows().index(key) == self@.index(key),
            self@.has(key) ==> self.rows().get(key) == Some(self@.get(key)->0@),
    {
    }

    /// Adds `item` at the end of the list under `key`, starting a list where
    /// the map has none for that key.
    pub fn append(&mut self, key: String, item: T)
        ensures
            final(self).rows() == old(self).rows().append(key@, item),
            old(self).rows().wf(),
            final(self).rows().wf(),
    {
        let found = self.position(key.as_str());
        proof {
            self.rows_follow(key@);
            old(self).rows().append_then_list(key@, item, key@);
        }
        let mut taken = Keyed::new();
        core::mem::swap(self, &mut taken);
        let Keyed { mut names, mut slots } = taken;
        match found {
            Some(i) => {
                slots[i].push(item);
            },
            None => {
                let mut list: Vec<T> = Vec::new();
                list.push(item);
                names.push(key);
                slots.push(list);
            },
        }
        proof {
            let after = Table { keys: texts(names@), values: Seq::new(slots@.len(), |i: int| slots@[i]@) };
            assert(after =~= old(self).rows().append(key@, item));
        }
        *self = Keyed { names, slots };
    }
}

impl<T: Clone> Keyed<Vec<T>> {
    /// A copy of the list under `key`, if the map holds the key.
    pub(crate) fn list_of(&self, key: &str) -> (copy: Option<Vec<T>>)
        requires
            forall|a: T, b: T| #[trigger] cloned(a, b) ==> a == b,
        ensures
            self.rows().wf(),
            match copy {
                Some(items) => self.rows().get(key@) == Some(items@),
                None => self.rows().get(key@).is_none(),
            },
    {
        let found = self.get(key);
        proof {
            self.rows_follow(key@);
        }
        match found {
            Some(list) => {
                let copy = list.clone();
                assert(copy@ =~= list@);
                Some(copy)
            },
            None => None,
        }
    }

    /// Every list, one after the other, in the order of the keys.
    pub(crate) fn flattened(&self) -> (all: Vec<T>)
        requires
            forall|a: T, b: T| #[trigger] cloned(a, b) ==> a == b,
        ensures
            self.rows().wf(),
            all@ == self.rows().flat(),
    {
        proof {
            use_type_invariant(self);
            self.rows_follow(Seq::empty());
        }
        let mut all: Vec<T> = Vec::new();
        let mut i: usize = 0;
        while i < self.slots.len()
            invariant
                forall|a: T, b: T| #[trigger] cloned(a, b) ==> a == b,
                i <= self.slots@.len(),
                all@ == self.rows().values.take(i as int).flatten(),
            decreases self.slots@.len() - i,
        {
            let mut copy = self.slots[i].clone();
            assert(copy@ =~= self.slots@[i as int]@);
            proof {
                let lists = self.rows().values;
                let done = lists.take(i as int);
                done.lemma_flatten_push(lists[i as int]);
                assert(lists.take(i + 1) =~= done.push(lists[i as int]));
            }
            all.append(&mut copy);
            i += 1;
        }
        assert(self.rows().values.take(i as int) =~= self.rows().values);
        all
    }
}

} // verus!
