//! Small maps whose keys can only be compared for equality.
//!
//! Type identifiers are such keys here: of their hashes nothing is known to Verus, which would be
//! needed to say what a hash map holds.

use crate::type_key::same_type_id;
use std::any::TypeId;
use vstd::prelude::*;

verus! {

/// A key of a [`Registry`].
pub trait Key: Sized {
    /// What the key stands for: two keys with the same identity are one key.
    type Identity;

    spec fn identity(&self) -> Self::Identity;

    fn same(&self, other: &Self) -> (same: bool)
        ensures
            same == (self.identity() == other.identity()),
    ;
}

impl Key for TypeId {
    type Identity = TypeId;

    open spec fn identity(&self) -> TypeId {
        *self
    }

    fn same(&self, other: &Self) -> (same: bool) {
        same_type_id(self, other)
    }
}

impl Key for (TypeId, TypeId) {
    type Identity = (TypeId, TypeId);

    open spec fn identity(&self) -> (TypeId, TypeId) {
        *self
    }

    fn same(&self, other: &Self) -> (same: bool) {
        same_type_id(&self.0, &other.0) && same_type_id(&self.1, &other.1)
    }
}

impl Key for (String, TypeId) {
    type Identity = (Seq<char>, TypeId);

    open spec fn identity(&self) -> (Seq<char>, TypeId) {
        (self.0@, self.1)
    }

    fn same(&self, other: &Self) -> (same: bool) {
        self.0 == other.0 && same_type_id(&self.1, &other.1)
    }
}

/// A map kept as a list of entries, no two of them with the same key.
#[verifier::reject_recursive_types(K)]
#[verifier::reject_recursive_types(V)]
pub struct Registry<K: Key, V> {
    entries: Vec<(K, V)>,
}

/// Whether the entry at index `i` has the key `id`.
spec fn is_at<K: Key, V>(entries: Seq<(K, V)>, id: K::Identity, i: int) -> bool {
    0 <= i < entries.len() && entries[i].0.identity() == id
}

/// The map that a list of entries stands for.
spec fn as_map<K: Key, V>(entries: Seq<(K, V)>) -> Map<K::Identity, V> {
    Map::new(
        |id: K::Identity| exists|i: int| is_at(entries, id, i),
        |id: K::Identity| entries[choose|i: int| is_at(entries, id, i)].1,
    )
}

/// Whether no key occurs twice in a list of entries.
spec fn distinct<K: Key, V>(entries: Seq<(K, V)>) -> bool {
    forall|i: int, j: int|
        0 <= i < j < entries.len() ==> (#[trigger] entries[i]).0.identity() != (
        #[trigger] entries[j]).0.identity()
}

/// The entry at an index is the one that its key is bound to.
proof fn lemma_entry<K: Key, V>(entries: Seq<(K, V)>, i: int)
    requires
        distinct(entries),
        0 <= i < entries.len(),
    ensures
        as_map(entries).contains_key(entries[i].0.identity()),
        as_map(entries)[entries[i].0.identity()] == entries[i].1,
{
    let id = entries[i].0.identity();
    assert(is_at(entries, id, i));
    let j = choose|j: int| is_at(entries, id, j);
    assert(is_at(entries, id, j));
}

/// Replacing the value of an entry rebinds its key.
proof fn lemma_update<K: Key, V>(entries: Seq<(K, V)>, i: int, value: V)
    requires
        distinct(entries),
        0 <= i < entries.len(),
    ensures
        distinct(entries.update(i, (entries[i].0, value))),
        as_map(entries.update(i, (entries[i].0, value))) == as_map(entries).insert(
            entries[i].0.identity(),
            value,
        ),
{
    let id = entries[i].0.identity();
    let updated = entries.update(i, (entries[i].0, value));
    assert forall|other: K::Identity, j: int| is_at(updated, other, j) <==> is_at(
        entries,
        other,
        j,
    ) by {}
    assert(as_map(updated) =~= as_map(entries).insert(id, value)) by {
        lemma_entry(updated, i);
        assert forall|other: K::Identity| #[trigger]
            as_map(updated).contains_key(other) && other != id implies as_map(updated)[other]
            == as_map(entries)[other] by {
            let j = choose|j: int| is_at(updated, other, j);
            assert(is_at(updated, other, j));
            lemma_entry(updated, j);
            lemma_entry(entries, j);
        }
        assert forall|other: K::Identity| as_map(entries).contains_key(other) implies
            #[trigger] as_map(updated).contains_key(other) by {
            let j = choose|j: int| is_at(entries, other, j);
            assert(is_at(updated, other, j));
        }
    }
}

/// Appending an entry with a new key binds that key.
proof fn lemma_push<K: Key, V>(entries: Seq<(K, V)>, key: K, value: V)
    requires
        distinct(entries),
        !as_map(entries).contains_key(key.identity()),
    ensures
        distinct(entries.push((key, value))),
        as_map(entries.push((key, value))) == as_map(entries).insert(key.identity(), value),
{
    let id = key.identity();
    let longer = entries.push((key, value));
    assert forall|i: int| 0 <= i < entries.len() implies entries[i].0.identity() != id by {
        lemma_entry(entries, i);
    }
    assert(as_map(longer) =~= as_map(entries).insert(id, value)) by {
        lemma_entry(longer, entries.len() as int);
        assert forall|other: K::Identity| #[trigger]
            as_map(longer).contains_key(other) && other != id implies as_map(entries).contains_key(
            other,
        ) && as_map(longer)[other] == as_map(entries)[other] by {
            let j = choose|j: int| is_at(longer, other, j);
            assert(is_at(longer, other, j));
            assert(is_at(entries, other, j));
            lemma_entry(longer, j);
            lemma_entry(entries, j);
        }
        assert forall|other: K::Identity| as_map(entries).contains_key(other) implies
            #[trigger] as_map(longer).contains_key(other) by {
            let j = choose|j: int| is_at(entries, other, j);
            assert(is_at(longer, other, j));
        }
    }
}

impl<K: Key, V> View for Registry<K, V> {
    type V = Map<K::Identity, V>;

    closed spec fn view(&self) -> Map<K::Identity, V> {
        as_map(self.entries@)
    }
}

impl<K: Key, V> Registry<K, V> {
    /// No key occurs twice.
    pub closed spec fn wf(&self) -> bool {
        distinct(self.entries@)
    }

    pub fn new() -> (registry: Self)
        ensures
            registry.wf(),
            registry@ == Map::<K::Identity, V>::empty(),
    {
        let registry = Registry { entries: Vec::new() };
        assert(registry@ =~= Map::<K::Identity, V>::empty());
        registry
    }

    /// The index of the entry with the given key.
    fn find(&self, key: &K) -> (found: Option<usize>)
        requires
            self.wf(),
        ensures
            match found {
                Some(i) => {
                    &&& is_at(self.entries@, key.identity(), i as int)
                    &&& self@.contains_key(key.identity())
                    &&& self@[key.identity()] == self.entries@[i as int].1
                },
                None => !self@.contains_key(key.identity()),
            },
    {
        let mut i: usize = 0;
        while i < self.entries.len()
            invariant
                self.wf(),
                i <= self.entries@.len(),
                forall|j: int| 0 <= j < i ==> !is_at(self.entries@, key.identity(), j),
            decreases self.entries@.len() - i,
        {
            if self.entries[i].0.same(key) {
                proof {
                    lemma_entry(self.entries@, i as int);
                }
                return Some(i);
            }
            i = i + 1;
        }
        None
    }

    pub fn get(&self, key: &K) -> (value: Option<&V>)
        requires
            self.wf(),
        ensures
            match value {
                Some(v) => self@.contains_key(key.identity()) && *v == self@[key.identity()],
                None => !self@.contains_key(key.identity()),
            },
    {
        match self.find(key) {
            Some(i) => Some(&self.entries[i].1),
            None => None,
        }
    }

    pub fn get_mut(&mut self, key: &K) -> (value: Option<&mut V>)
        requires
            old(self).wf(),
        ensures
            final(self).wf(),
            match value {
                Some(v) => {
                    &&& old(self)@.contains_key(key.identity())
                    &&& *v == old(self)@[key.identity()]
                    &&& final(self)@ == old(self)@.insert(key.identity(), *final(v))
                },
                None => !old(self)@.contains_key(key.identity()) && *final(self) == *old(self),
            },
    {
        match self.find(key) {
            Some(i) => {
                proof {
                    let entries = self.entries@;
                    assert forall|v: V|
                        distinct(#[trigger] entries.update(i as int, (entries[i as int].0, v)))
                            && as_map(entries.update(i as int, (entries[i as int].0, v)))
                            == as_map(entries).insert(key.identity(), v) by {
                        lemma_update(entries, i as int, v);
                    }
                }
                Some(&mut self.entries[i].1)
            },
            None => None,
        }
    }

    /// Binds `key` to `value`, in place of what it was bound to.
    pub fn insert(&mut self, key: K, value: V)
        requires
            old(self).wf(),
        ensures
            final(self).wf(),
            final(self)@ == old(self)@.insert(key.identity(), value),
    {
        match self.find(&key) {
            Some(i) => {
                proof {
                    lemma_update(self.entries@, i as int, value);
                }
                self.entries[i].1 = value;
            },
            None => {
                proof {
                    lemma_push(self.entries@, key, value);
                }
                self.entries.push((key, value));
            },
        }
    }
}

} // verus!
