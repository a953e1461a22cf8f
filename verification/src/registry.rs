use vstd::prelude::*;
use std::collections::HashMap;
use crate::device::{DeviceHandle, DeviceRecord};

verus! {

broadcast use vstd::std_specs::hash::group_hash_axioms;

// The registry is the shared map from opaque device handle to identity
// that registration writes and the polling loop reads. Lookups resolve a
// handle to the record registered for it and nothing else: an
// unregistered handle is reported absent, never answered with a stale or
// default record. The caller that shares one registry between a polling
// and a registration context wraps it in its own lock; every operation
// here is a single bounded critical section.

/// Mapping from device handle to [`DeviceRecord`], keys unique.
pub struct DeviceRegistry {
    by_handle: HashMap<u64, DeviceRecord>,
}

impl DeviceRegistry {
    /// The registry's contents: the records keyed by raw handle value.
    pub closed spec fn view(&self) -> Map<u64, DeviceRecord> {
        self.by_handle@
    }

    /// An empty registry.
    pub fn new() -> (r: Self)
        ensures
            r@ == Map::<u64, DeviceRecord>::empty(),
    {
        DeviceRegistry { by_handle: HashMap::new() }
    }

    /// Inserts the record under its own handle, overwriting any record
    /// registered for that handle before.
    pub fn register(&mut self, record: DeviceRecord)
        ensures
            final(self)@ == old(self)@.insert(record.handle.0, record),
    {
        let key = record.handle.0;
        self.by_handle.insert(key, record);
    }

    /// Removes the entry for the handle if present; a no-op otherwise.
    /// Reports whether an entry was removed.
    pub fn unregister(&mut self, handle: DeviceHandle) -> (was_present: bool)
        ensures
            final(self)@ == old(self)@.remove(handle.0),
            was_present == old(self)@.contains_key(handle.0),
    {
        self.by_handle.remove(&handle.0).is_some()
    }

    /// Looks the handle up: the record registered for it, or `None` for a
    /// handle the registry does not hold — never a stale or default
    /// record.
    pub fn resolve(&self, handle: DeviceHandle) -> (r: Option<&DeviceRecord>)
        ensures
            match r {
                Some(rec) => self@.contains_key(handle.0) && *rec == self@[handle.0],
                None => !self@.contains_key(handle.0),
            },
    {
        self.by_handle.get(&handle.0)
    }

    /// How many devices are registered.
    pub fn len(&self) -> (n: usize)
        ensures
            n == self@.dom().len(),
    {
        self.by_handle.len()
    }
}

/// Unregistering twice is a no-op the second time: the second call
/// removes nothing, reports the handle absent, and leaves the registry as
/// the first call left it.
pub proof fn lemma_unregister_idempotent(contents: Map<u64, DeviceRecord>, handle: DeviceHandle)
    ensures
        contents.remove(handle.0).remove(handle.0) == contents.remove(handle.0),
        !contents.remove(handle.0).contains_key(handle.0),
{
    assert(contents.remove(handle.0).remove(handle.0) =~= contents.remove(handle.0));
}

} // verus!
