//! The entity registry: the genome of every kitty, and the next identifier to hand out.
use crate::types::{Error, Kitty, KittyIndex};
use std::collections::HashMap;
use vstd::prelude::*;

verus! {

broadcast use vstd::std_specs::hash::group_hash_axioms;

/// What a registry holds.
pub struct RegistryView {
    /// The genome of each kitty that exists.
    pub kitties: Map<KittyIndex, Kitty>,
    /// The next identifier to hand out.
    pub count: KittyIndex,
}

/// The stored kitties and the counter of identifiers.
#[derive(Clone, Debug, PartialEq, Eq)]
pub struct Registry {
    kitties: HashMap<KittyIndex, Kitty>,
    kitties_count: KittyIndex,
}

impl View for Registry {
    type V = RegistryView;

    closed spec fn view(&self) -> RegistryView {
        RegistryView { kitties: self.kitties@, count: self.kitties_count }
    }
}

impl Registry {
    /// The counter is strictly greater than every identifier in use.
    pub open spec fn wf(&self) -> bool {
        forall|id: KittyIndex| #[trigger] self@.kitties.contains_key(id) ==> id < self@.count
    }

    /// An empty registry whose first identifier will be zero.
    pub fn new() -> (r: Registry)
        ensures
            r.wf(),
            r@.kitties == Map::<KittyIndex, Kitty>::empty(),
            r@.count == 0,
    {
        Registry { kitties: HashMap::new(), kitties_count: 0 }
    }

    /// An empty registry whose first identifier will be `count`.
    pub fn with_count(count: KittyIndex) -> (r: Registry)
        ensures
            r.wf(),
            r@.kitties == Map::<KittyIndex, Kitty>::empty(),
            r@.count == count,
    {
        Registry { kitties: HashMap::new(), kitties_count: count }
    }

    /// The kitty stored under `id`, if there is one.
    pub fn kitties(&self, id: KittyIndex) -> (r: Option<Kitty>)
        ensures
            r == if self@.kitties.contains_key(id) {
                Some(self@.kitties[id])
            } else {
                None
            },
    {
        match self.kitties.get(&id) {
            Some(kitty) => Some(*kitty),
            None => None,
        }
    }

    /// The next identifier to hand out.
    pub fn kitties_count(&self) -> (r: KittyIndex)
        ensures
            r == self@.count,
    {
        self.kitties_count
    }

    /// The identifier that the next kitty will get. Fails once the counter has reached
    /// the largest representable value. The counter itself moves only when the kitty is
    /// stored.
    pub fn next_kitty_id(&self) -> (r: Result<KittyIndex, Error>)
        ensures
            r == if self@.count == KittyIndex::MAX {
                Err::<KittyIndex, Error>(Error::KittiesCountOverFlow)
            } else {
                Ok::<KittyIndex, Error>(self@.count)
            },
    {
        let kitty_id = self.kitties_count;
        if kitty_id == KittyIndex::MAX {
            return Err(Error::KittiesCountOverFlow);
        }
        Ok(kitty_id)
    }

    /// Stores `kitty` under `id` and moves the counter to `id + 1`.
    pub fn store(&mut self, id: KittyIndex, kitty: Kitty)
        requires
            old(self).wf(),
            old(self)@.count <= id < KittyIndex::MAX,
        ensures
            final(self).wf(),
            final(self)@.kitties == old(self)@.kitties.insert(id, kitty),
            final(self)@.count == id + 1,
    {
        self.kitties.insert(id, kitty);
        self.kitties_count = id + 1;
        proof {
            assert(self@.kitties == old(self)@.kitties.insert(id, kitty));
            assert forall|k: KittyIndex| #[trigger] self@.kitties.contains_key(k) implies k
                < self@.count by {
                if k != id {
                    assert(old(self)@.kitties.contains_key(k));
                }
            }
        }
    }
}

} // verus!
