//! Small lookup tables and sets.

use crate::arena::Handle;
use crate::headers::lemma_capability_number;
use spirv_headers as spirv;
use vstd::prelude::*;

verus! {

/// What an entry of a [`Table`] can be found by.
pub trait Key: Sized {
    /// What two keys have in common that find the same entry.
    type Id;

    spec fn id(&self) -> Self::Id;

    fn same(&self, other: &Self) -> (equal: bool)
        ensures
            equal == (self.id() == other.id()),
    ;
}

impl<T> Key for Handle<T> {
    type Id = Handle<T>;

    open spec fn id(&self) -> Handle<T> {
        *self
    }

    fn same(&self, other: &Self) -> (equal: bool) {
        self.index == other.index
    }
}

/// The mapping that a list of insertions leads to: the last one for a key counts.
pub open spec fn mapping<K: Key, V>(entries: Seq<(K, V)>) -> Map<K::Id, V>
    decreases entries.len(),
{
    if entries.len() == 0 {
        Map::empty()
    } else {
        mapping(entries.drop_last()).insert(entries.last().0.id(), entries.last().1)
    }
}

/// A mapping from keys to values.
#[derive(Debug)]
pub struct Table<K, V> {
    entries: Vec<(K, V)>,
}

impl<K: Key, V> View for Table<K, V> {
    type V = Map<K::Id, V>;

    closed spec fn view(&self) -> Map<K::Id, V> {
        mapping(self.entries@)
    }
}

impl<K: Key, V: Copy> Table<K, V> {
    pub fn new() -> (table: Self)
        ensures
            table@ == Map::<K::Id, V>::empty(),
    {
        Table { entries: Vec::new() }
    }

    /// Maps `key` to `value` from now on.
    pub fn insert(&mut self, key: K, value: V)
        ensures
            final(self)@ == old(self)@.insert(key.id(), value),
    {
        let ghost before = self.entries@;
        self.entries.push((key, value));
        assert(self.entries@.drop_last() =~= before);
    }

    /// The value that `key` is mapped to, if it is mapped to one.
    pub fn get(&self, key: &K) -> (value: Option<V>)
        ensures
            value == (if self@.contains_key(key.id()) {
                Some(self@[key.id()])
            } else {
                None
            }),
    {
        let mut i: usize = self.entries.len();
        assert(self.entries@.take(i as int) =~= self.entries@);
        while i > 0
            invariant
                i <= self.entries@.len(),
                self@.contains_key(key.id()) == mapping(
                    self.entries@.take(i as int),
                ).contains_key(key.id()),
                self@.contains_key(key.id()) ==> self@[key.id()] == mapping(
                    self.entries@.take(i as int),
                )[key.id()],
            decreases i,
        {
            let ghost taken = self.entries@.take(i as int);
            i = i - 1;
            assert(taken.drop_last() =~= self.entries@.take(i as int));
            assert(taken.last() == self.entries@[i as int]);
            if self.entries[i].0.same(key) {
                return Some(self.entries[i].1);
            }
        }
        None
    }
}

/// The capabilities that a module may rely on, each once, in the order in which they were added.
#[derive(Debug)]
pub struct CapabilitySet {
    list: Vec<spirv::Capability>,
}

impl View for CapabilitySet {
    type V = Seq<spirv::Capability>;

    closed spec fn view(&self) -> Seq<spirv::Capability> {
        self.list@
    }
}

impl Default for CapabilitySet {
    /// No capabilities.
    fn default() -> (set: Self)
        ensures
            set@ == Seq::<spirv::Capability>::empty(),
    {
        CapabilitySet::new()
    }
}

impl CapabilitySet {
    /// No capability occurs twice.
    #[verifier::type_invariant]
    pub open spec fn distinct(self) -> bool {
        self@.no_duplicates()
    }

    pub fn new() -> (set: Self)
        ensures
            set@ == Seq::<spirv::Capability>::empty(),
    {
        CapabilitySet { list: Vec::new() }
    }

    pub fn contains(&self, capability: spirv::Capability) -> (found: bool)
        ensures
            found == self@.contains(capability),
    {
        let mut i: usize = 0;
        while i < self.list.len()
            invariant
                i <= self.list@.len(),
                forall|k: int| 0 <= k < i ==> self.list@[k] != capability,
            decreases self.list@.len() - i,
        {
            let other: spirv::Capability = self.list[i];
            proof {
                lemma_capability_number(other, capability);
            }
            if (other as u32) == (capability as u32) {
                assert(self.list@[i as int] == capability);
                return true;
            }
            i = i + 1;
        }
        false
    }

    /// Adds a capability, unless it is there already.
    pub fn insert(&mut self, capability: spirv::Capability)
        ensures
            final(self)@ == (if old(self)@.contains(capability) {
                old(self)@
            } else {
                old(self)@.push(capability)
            }),
    {
        if self.contains(capability) {
            return;
        }
        proof {
            use_type_invariant(&*self);
        }
        let mut whole = CapabilitySet::new();
        std::mem::swap(&mut whole, self);
        let mut list: Vec<spirv::Capability> = whole.list;
        list.push(capability);
        *self = CapabilitySet { list };
    }

    /// The number of capabilities, none of which occurs twice.
    pub fn len(&self) -> (length: usize)
        ensures
            length == self@.len(),
            self@.no_duplicates(),
    {
        proof {
            use_type_invariant(&*self);
        }
        self.list.len()
    }

    /// The capability that was added as the `i`-th, counted from zero.
    pub fn get(&self, i: usize) -> (capability: spirv::Capability)
        requires
            i < self@.len(),
        ensures
            capability == self@[i as int],
    {
        self.list[i]
    }
}

} // verus!
