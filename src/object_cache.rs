//! Handle-addressed store of the collection resources of one session.
//!
//! Handles are handed out in increasing order and never reused, so a freed
//! handle stays invalid for the life of the cache.

use vstd::prelude::*;

use crate::errors::FfiError;
use crate::mdata::{
    entries_map, keys_of, sorted_keys, EntryView, MDataEntries, MDataKeys, MDataValues, Value,
    ValueView,
};

verus! {

/// A handle to any resource of the cache.
pub type ObjectHandle = u64;

/// A handle to ordered entries.
pub type MDataEntriesHandle = u64;

/// A handle to a key set.
pub type MDataKeysHandle = u64;

/// A handle to a value list.
pub type MDataValuesHandle = u64;

/// A resource held by the cache.
pub enum Resource {
    Entries(MDataEntries),
    Keys(MDataKeys),
    Values(MDataValues),
}

/// What a resource holds.
pub enum ResourceView {
    Entries(Seq<EntryView>),
    Keys(Seq<Seq<u8>>),
    Values(Seq<ValueView>),
}

impl View for Resource {
    type V = ResourceView;

    open spec fn view(&self) -> ResourceView {
        match self {
            Resource::Entries(e) => ResourceView::Entries(e@),
            Resource::Keys(k) => ResourceView::Keys(k@),
            Resource::Values(v) => ResourceView::Values(v@),
        }
    }
}

/// Entries and keys are held in ascending key order.
pub open spec fn resource_wf(r: ResourceView) -> bool {
    match r {
        ResourceView::Entries(s) => sorted_keys(keys_of(s)),
        ResourceView::Keys(k) => sorted_keys(k),
        ResourceView::Values(_) => true,
    }
}

/// The session's table of resources, addressed by handle.
pub struct ObjectCache {
    slots: Vec<Option<Resource>>,
}

impl ObjectCache {
    /// The live handles and what each one addresses.
    pub closed spec fn live(&self) -> Map<ObjectHandle, ResourceView> {
        Map::new(
            |h: ObjectHandle| (h as int) < self.slots@.len() && self.slots@[h as int] is Some,
            |h: ObjectHandle| self.slots@[h as int]->Some_0@,
        )
    }

    /// The handle that the next allocation hands out.
    pub closed spec fn next(&self) -> nat {
        self.slots@.len()
    }

    /// Every live handle is below the next one and addresses a well-formed resource.
    pub open spec fn wf(&self) -> bool {
        forall|h: ObjectHandle| #[trigger]
            self.live().contains_key(h) ==> (h as nat) < self.next() && resource_wf(self.live()[h])
    }

    /// The entries at `h`, where `h` is a live entries handle.
    pub open spec fn entries_at(&self, h: ObjectHandle) -> Option<Seq<EntryView>> {
        if self.live().contains_key(h) {
            match self.live()[h] {
                ResourceView::Entries(s) => Some(s),
                _ => None,
            }
        } else {
            None
        }
    }

    /// The keys at `h`, where `h` is a live keys handle.
    pub open spec fn keys_at(&self, h: ObjectHandle) -> Option<Seq<Seq<u8>>> {
        if self.live().contains_key(h) {
            match self.live()[h] {
                ResourceView::Keys(k) => Some(k),
                _ => None,
            }
        } else {
            None
        }
    }

    /// The values at `h`, where `h` is a live values handle.
    pub open spec fn values_at(&self, h: ObjectHandle) -> Option<Seq<ValueView>> {
        if self.live().contains_key(h) {
            match self.live()[h] {
                ResourceView::Values(v) => Some(v),
                _ => None,
            }
        } else {
            None
        }
    }

    /// An empty cache.
    pub fn new() -> (r: ObjectCache)
        ensures
            r.wf(),
            r.live() == Map::<ObjectHandle, ResourceView>::empty(),
            r.next() == 0,
    {
        let r = ObjectCache { slots: Vec::new() };
        proof {
            assert(r.live() =~= Map::<ObjectHandle, ResourceView>::empty());
        }
        r
    }

    /// Stores a resource under a fresh handle.
    fn allocate(&mut self, res: Resource) -> (h: ObjectHandle)
        requires
            old(self).wf(),
            resource_wf(res@),
        ensures
            final(self).wf(),
            h as nat == old(self).next(),
            !old(self).live().contains_key(h),
            final(self).live() == old(self).live().insert(h, res@),
            final(self).next() == old(self).next() + 1,
    {
        let ghost rv = res@;
        let h = self.slots.len() as u64;
        self.slots.push(Some(res));
        proof {
            assert(self.live() =~= old(self).live().insert(h, rv));
        }
        h
    }

    /// Index of `h` in the table, where it is below the next handle.
    fn index_of(&self, h: ObjectHandle) -> (r: Option<usize>)
        ensures
            r is Some <==> (h as nat) < self.next(),
            r is Some ==> r->Some_0 as int == h as int,
    {
        if h < self.slots.len() as u64 {
            Some(h as usize)
        } else {
            None
        }
    }

    /// Stores ordered entries under a fresh handle.
    pub fn insert_mdata_entries(&mut self, entries: MDataEntries) -> (h: MDataEntriesHandle)
        requires
            old(self).wf(),
            entries.wf(),
        ensures
            final(self).wf(),
            h as nat == old(self).next(),
            !old(self).live().contains_key(h),
            final(self).live() == old(self).live().insert(h, ResourceView::Entries(entries@)),
            final(self).next() == old(self).next() + 1,
    {
        self.allocate(Resource::Entries(entries))
    }

    /// Stores a key set under a fresh handle.
    pub fn insert_mdata_keys(&mut self, keys: MDataKeys) -> (h: MDataKeysHandle)
        requires
            old(self).wf(),
            keys.wf(),
        ensures
            final(self).wf(),
            h as nat == old(self).next(),
            !old(self).live().contains_key(h),
            final(self).live() == old(self).live().insert(h, ResourceView::Keys(keys@)),
            final(self).next() == old(self).next() + 1,
    {
        self.allocate(Resource::Keys(keys))
    }

    /// Stores a value list under a fresh handle.
    pub fn insert_mdata_values(&mut self, values: MDataValues) -> (h: MDataValuesHandle)
        requires
            old(self).wf(),
        ensures
            final(self).wf(),
            h as nat == old(self).next(),
            !old(self).live().contains_key(h),
            final(self).live() == old(self).live().insert(h, ResourceView::Values(values@)),
            final(self).next() == old(self).next() + 1,
    {
        self.allocate(Resource::Values(values))
    }
}

impl ObjectCache {
    /// Frees the slot of a live handle.
    fn release(&mut self, h: ObjectHandle)
        requires
            old(self).wf(),
            old(self).live().contains_key(h),
        ensures
            final(self).wf(),
            final(self).live() == old(self).live().remove(h),
            final(self).next() == old(self).next(),
    {
        proof {
            assert((h as nat) < old(self).next());
        }
        let i = h as usize;
        self.slots.set(i, None);
        proof {
            assert forall|h2: ObjectHandle| #[trigger]
                self.live().contains_key(h2) == old(self).live().remove(h).contains_key(h2) by {
                if h2 != h && (h2 as int) < self.slots@.len() {
                    assert(self.slots@[h2 as int] == old(self).slots@[h2 as int]);
                }
            }
            assert(self.live() =~= old(self).live().remove(h));
        }
    }

    /// The entries at `h`.
    pub fn get_mdata_entries(&self, h: MDataEntriesHandle) -> (r: Result<&MDataEntries, FfiError>)
        requires
            self.wf(),
        ensures
            r is Ok <==> self.entries_at(h) is Some,
            r is Ok ==> r->Ok_0@ == self.entries_at(h)->Some_0 && r->Ok_0.wf(),
            r is Err ==> r->Err_0 == FfiError::InvalidHandle,
    {
        match self.index_of(h) {
            None => Err(FfiError::InvalidHandle),
            Some(i) => match &self.slots[i] {
                Some(Resource::Entries(e)) => {
                    proof {
                        assert(self.live().contains_key(h));
                    }
                    Ok(e)
                },
                _ => Err(FfiError::InvalidHandle),
            },
        }
    }

    /// The keys at `h`.
    pub fn get_mdata_keys(&self, h: MDataKeysHandle) -> (r: Result<&MDataKeys, FfiError>)
        requires
            self.wf(),
        ensures
            r is Ok <==> self.keys_at(h) is Some,
            r is Ok ==> r->Ok_0@ == self.keys_at(h)->Some_0 && r->Ok_0.wf(),
            r is Err ==> r->Err_0 == FfiError::InvalidHandle,
    {
        match self.index_of(h) {
            None => Err(FfiError::InvalidHandle),
            Some(i) => match &self.slots[i] {
                Some(Resource::Keys(k)) => {
                    proof {
                        assert(self.live().contains_key(h));
                    }
                    Ok(k)
                },
                _ => Err(FfiError::InvalidHandle),
            },
        }
    }

    /// The values at `h`.
    pub fn get_mdata_values(&self, h: MDataValuesHandle) -> (r: Result<&MDataValues, FfiError>)
        requires
            self.wf(),
        ensures
            r is Ok <==> self.values_at(h) is Some,
            r is Ok ==> r->Ok_0@ == self.values_at(h)->Some_0,
            r is Err ==> r->Err_0 == FfiError::InvalidHandle,
    {
        match self.index_of(h) {
            None => Err(FfiError::InvalidHandle),
            Some(i) => match &self.slots[i] {
                Some(Resource::Values(v)) => {
                    proof {
                        assert(self.live().contains_key(h));
                    }
                    Ok(v)
                },
                _ => Err(FfiError::InvalidHandle),
            },
        }
    }

    /// Sets `key` to `value` in the entries at `h`.
    pub fn insert_mdata_entry(&mut self, h: MDataEntriesHandle, key: Vec<u8>, value: Value) -> (r:
        Result<(), FfiError>)
        requires
            old(self).wf(),
        ensures
            final(self).wf(),
            final(self).next() == old(self).next(),
            r is Ok <==> old(self).entries_at(h) is Some,
            r is Err ==> r->Err_0 == FfiError::InvalidHandle
            && final(self).live() == old(self).live(),
            r is Ok ==> exists|s: Seq<EntryView>|
                #![trigger entries_map(s)]
                sorted_keys(keys_of(s)) && entries_map(s) == entries_map(
                    old(self).entries_at(h)->Some_0,
                ).insert(key@, value@) && final(self).live() == old(self).live().insert(
                    h,
                    ResourceView::Entries(s),
                ),
    {
        let i = match self.index_of(h) {
            None => {
                return Err(FfiError::InvalidHandle);
            },
            Some(i) => i,
        };
        let mut taken: Option<Resource> = None;
        std::mem::swap(&mut taken, &mut self.slots[i]);
        match taken {
            Some(Resource::Entries(mut e)) => {
                proof {
                    assert(old(self).live().contains_key(h));
                    assert(old(self).live()[h] == ResourceView::Entries(e@));
                }
                e.insert(key, value);
                let ghost s = e@;
                self.slots.set(i, Some(Resource::Entries(e)));
                proof {
                    assert(self.live() =~= old(self).live().insert(h, ResourceView::Entries(s)));
                }
                Ok(())
            },
            other => {
                self.slots.set(i, other);
                proof {
                    assert(self.slots@ =~= old(self).slots@);
                }
                Err(FfiError::InvalidHandle)
            },
        }
    }

    /// Frees the entries at `h`.
    pub fn remove_mdata_entries(&mut self, h: MDataEntriesHandle) -> (r: Result<(), FfiError>)
        requires
            old(self).wf(),
        ensures
            final(self).wf(),
            final(self).next() == old(self).next(),
            r is Ok <==> old(self).entries_at(h) is Some,
            r is Ok ==> final(self).live() == old(self).live().remove(h),
            r is Err ==> r->Err_0 == FfiError::InvalidHandle
            && final(self).live() == old(self).live(),
    {
        match self.get_mdata_entries(h) {
            Ok(_) => {
                self.release(h);
                Ok(())
            },
            Err(e) => Err(e),
        }
    }

    /// Frees the keys at `h`.
    pub fn remove_mdata_keys(&mut self, h: MDataKeysHandle) -> (r: Result<(), FfiError>)
        requires
            old(self).wf(),
        ensures
            final(self).wf(),
            final(self).next() == old(self).next(),
            r is Ok <==> old(self).keys_at(h) is Some,
            r is Ok ==> final(self).live() == old(self).live().remove(h),
            r is Err ==> r->Err_0 == FfiError::InvalidHandle
            && final(self).live() == old(self).live(),
    {
        match self.get_mdata_keys(h) {
            Ok(_) => {
                self.release(h);
                Ok(())
            },
            Err(e) => Err(e),
        }
    }

    /// Frees the values at `h`.
    pub fn remove_mdata_values(&mut self, h: MDataValuesHandle) -> (r: Result<(), FfiError>)
        requires
            old(self).wf(),
        ensures
            final(self).wf(),
            final(self).next() == old(self).next(),
            r is Ok <==> old(self).values_at(h) is Some,
            r is Ok ==> final(self).live() == old(self).live().remove(h),
            r is Err ==> r->Err_0 == FfiError::InvalidHandle
            && final(self).live() == old(self).live(),
    {
        match self.get_mdata_values(h) {
            Ok(_) => {
                self.release(h);
                Ok(())
            },
            Err(e) => Err(e),
        }
    }
}

} // verus!
