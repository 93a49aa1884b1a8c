//! The storage of a lazily filled material vault: a slot is allocated under an
//! id first, and filled with its material later.

use std::collections::HashMap;
use vstd::prelude::*;

verus! {

broadcast use vstd::std_specs::hash::group_hash_axioms;

/// Material slots keyed by id; an allocated slot is empty until a material is stored in it.
pub struct LazySlots<M> {
    storage: HashMap<u64, Option<M>>,
}

impl<M> View for LazySlots<M> {
    type V = Map<u64, Option<M>>;

    closed spec fn view(&self) -> Map<u64, Option<M>> {
        self.storage@
    }
}

impl<M> LazySlots<M> {
    /// No slots.
    pub fn new() -> (r: Self)
        ensures
            r@ == Map::<u64, Option<M>>::empty(),
    {
        LazySlots { storage: HashMap::new() }
    }

    /// Allocates an empty slot under `id`, emptying any slot already there.
    pub fn allocate(&mut self, id: u64)
        ensures
            final(self)@ == old(self)@.insert(id, None),
    {
        self.storage.insert(id, None);
    }

    /// Stores `material` under `id`, allocating the slot if there is none.
    pub fn store(&mut self, id: u64, material: M)
        ensures
            final(self)@ == old(self)@.insert(id, Some(material)),
    {
        self.storage.insert(id, Some(material));
    }

    /// The material stored under `id`; `None` when the slot is missing or still empty.
    pub fn get(&self, id: u64) -> (r: Option<&M>)
        ensures
            match r {
                Some(m) => self@.contains_key(id) && self@[id] == Some(*m),
                None => !self@.contains_key(id) || self@[id] is None,
            },
    {
        match self.storage.get(&id) {
            Some(slot) => match slot {
                Some(m) => Some(m),
                None => None,
            },
            None => None,
        }
    }

    /// Removes the slot under `id`.
    pub fn remove(&mut self, id: u64)
        ensures
            final(self)@ == old(self)@.remove(id),
    {
        self.storage.remove(&id);
    }

    /// Whether a slot (filled or not) exists under `id`.
    pub fn contains(&self, id: u64) -> (r: bool)
        ensures
            r == self@.contains_key(id),
    {
        self.storage.contains_key(&id)
    }
}

} // verus!
