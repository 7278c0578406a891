//! Entity ids handed out to newly created game entities.
use vstd::prelude::*;

verus! {

/// The counter from which new entity ids are drawn, one per created entity.
#[derive(Clone, Copy, Debug)]
pub struct EntityIdAllocator {
    pub next_entity_id: u64,
}

impl EntityIdAllocator {
    /// Hands out the next entity id and advances the counter.
    pub fn create_entity(&mut self) -> (id: u64)
        requires
            old(self).next_entity_id < u64::MAX,
        ensures
            id == old(self).next_entity_id,
            final(self).next_entity_id == old(self).next_entity_id + 1,
    {
        let id = self.next_entity_id;
        self.next_entity_id = self.next_entity_id + 1;
        id
    }
}

} // verus!
