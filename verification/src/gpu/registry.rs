use vstd::prelude::*;
use std::collections::HashMap;
use crate::sound_core::error::{ErrorCode, SoundError, SoundResult};

verus! {

/// Objects (shader modules, pipelines, acceleration structures) stored
/// under small integer handles. A new object gets the current object count,
/// truncated to 32 bits, as its handle.
pub struct HandleRegistry<R> {
    entries: HashMap<u32, R>,
}

impl<R> HandleRegistry<R> {
    /// Stored objects by handle.
    pub closed spec fn spec_entries(&self) -> Map<u32, R> {
        self.entries@
    }

    /// Handles are exactly `0..count` while fewer than 2^32 objects exist.
    pub open spec fn wf(&self) -> bool {
        &&& self.spec_entries().dom().finite()
        &&& self.spec_entries().len() <= u32::MAX + 1
        &&& forall|id: u32| #[trigger] self.spec_entries().contains_key(id) <==> (id as nat) < self.spec_entries().len()
    }

    /// Creates an empty registry.
    pub fn new() -> (registry: Self)
        ensures
            registry.wf(),
            registry.spec_entries() == Map::<u32, R>::empty(),
    {
        HandleRegistry { entries: HashMap::new() }
    }

    /// Returns the number of stored objects.
    pub fn len(&self) -> (len: usize)
        ensures
            len == self.spec_entries().len(),
    {
        self.entries.len()
    }

    /// Stores an object and returns its handle.
    pub fn register(&mut self, object: R) -> (id: u32)
        requires
            old(self).wf(),
        ensures
            final(self).wf(),
            id == old(self).spec_entries().len() as u32,
            final(self).spec_entries() == old(self).spec_entries().insert(id, object),
            old(self).spec_entries().len() <= u32::MAX ==> {
                &&& id == old(self).spec_entries().len()
                &&& !old(self).spec_entries().contains_key(id)
                &&& final(self).spec_entries().len() == old(self).spec_entries().len() + 1
            },
    {
        let count = self.entries.len();
        let id = count as u32;
        self.entries.insert(id, object);
        proof {
            let old_len = old(self).entries@.len();
            if old_len <= u32::MAX {
                assert(id as nat == old_len);
                assert(!old(self).spec_entries().contains_key(id));
                assert(self.entries@.dom() == old(self).entries@.dom().insert(id));
                assert forall|k: u32| #[trigger] self.entries@.contains_key(k) <==> (k as nat) < self.entries@.len() by {
                    if k != id {
                        assert(old(self).spec_entries().contains_key(k) <==> (k as nat) < old(self).spec_entries().len());
                    }
                }
            } else {
                assert(old(self).spec_entries().contains_key(id));
                assert(self.entries@.dom() =~= old(self).entries@.dom());
                assert forall|k: u32| #[trigger] self.entries@.contains_key(k) <==> (k as nat) < self.entries@.len() by {
                    assert(old(self).spec_entries().contains_key(k) <==> (k as nat) < old(self).spec_entries().len());
                }
            }
        }
        id
    }

    /// Returns the object stored under `id`, or `NotFound`.
    pub fn get(&self, id: u32) -> (result: SoundResult<&R>)
        ensures
            result is Ok <==> self.spec_entries().contains_key(id),
            result is Err ==> result->Err_0@.code == ErrorCode::NotFound,
            result matches Ok(object) ==> *object == self.spec_entries()[id],
    {
        match self.entries.get(&id) {
            Some(object) => Ok(object),
            None => Err(SoundError::not_found("Invalid handle id")),
        }
    }

    /// Drops every stored object.
    pub fn clear(&mut self)
        ensures
            final(self).wf(),
            final(self).spec_entries() == Map::<u32, R>::empty(),
    {
        self.entries.clear();
    }
}

/// A handle just registered finds the object it was given.
pub proof fn law_registered_handle_finds_object<R>(entries: Map<u32, R>, id: u32, object: R)
    ensures
        entries.insert(id, object).contains_key(id),
        entries.insert(id, object)[id] == object,
{
}

} // verus!
