//! Storage for the components of one kind, keyed by entity.

use vstd::prelude::*;
use crate::entity::EntityId;

verus! {

/// The components of one kind. Each entity has at most one; an entity's slot
/// is found by its index and never moves.
pub struct Store<T> {
    slots: Vec<Option<T>>,
}

impl<T> View for Store<T> {
    type V = Map<EntityId, T>;

    /// The stored components by entity.
    closed spec fn view(&self) -> Map<EntityId, T> {
        Map::new(
            |id: EntityId|
                id.index < self.slots@.len() && self.slots@[id.index as int].is_some(),
            |id: EntityId| self.slots@[id.index as int].unwrap(),
        )
    }
}

impl<T> Store<T> {
    /// A store that holds nothing.
    pub fn new() -> (s: Store<T>)
        ensures
            s@ == Map::<EntityId, T>::empty(),
    {
        let s = Store { slots: Vec::new() };
        assert(s@ =~= Map::<EntityId, T>::empty());
        s
    }

    /// Whether `id` has a component here.
    pub fn contains(&self, id: EntityId) -> (r: bool)
        ensures
            r == self@.contains_key(id),
    {
        id.index < self.slots.len() && self.slots[id.index].is_some()
    }

    /// Gives `id` the component `value`, in place of any it had.
    pub fn insert(&mut self, id: EntityId, value: T)
        ensures
            final(self)@ == old(self)@.insert(id, value),
    {
        while self.slots.len() <= id.index
            invariant
                self@ == old(self)@,
            decreases id.index + 1 - self.slots.len(),
        {
            let ghost before = self@;
            self.slots.push(None);
            assert(self@ =~= before);
        }
        self.slots[id.index] = Some(value);
        assert(self@ =~= old(self)@.insert(id, value));
    }

    /// The component of `id`, if it has one.
    pub fn get(&self, id: EntityId) -> (r: Option<&T>)
        ensures
            r.is_some() == self@.contains_key(id),
            r.is_some() ==> *r.unwrap() == self@[id],
    {
        if id.index < self.slots.len() {
            self.slots[id.index].as_ref()
        } else {
            None
        }
    }

    /// The component of `id`, if it has one, open to change. Nothing but
    /// that component changes, and the entity keeps it.
    pub fn get_mut(&mut self, id: EntityId) -> (r: Option<&mut T>)
        ensures
            r.is_some() == old(self)@.contains_key(id),
            r.is_some() ==> *r.unwrap() == old(self)@[id],
            r.is_some() ==> final(self)@ == old(self)@.insert(id, *final(r.unwrap())),
            r.is_none() ==> final(self)@ == old(self)@,
    {
        if id.index < self.slots.len() {
            self.slots[id.index].as_mut()
        } else {
            None
        }
    }
}

} // verus!
