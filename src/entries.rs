//! Operations on the entries, keys and values resources of a cache, each
//! addressed by handle. A handle of the wrong kind, never issued, or freed
//! is refused with `InvalidHandle`.

use vstd::prelude::*;

use crate::errors::FfiError;
use crate::mdata::{
    entries_map, keys_of, sorted_keys, view_entries, view_keys, view_values, EntryView,
    MDataEntries, Value,
};
use crate::object_cache::{
    MDataEntriesHandle, MDataKeysHandle, MDataValuesHandle, ObjectCache, ResourceView,
};

verus! {

/// Creates empty entries and returns their handle.
pub fn mdata_entries_new(cache: &mut ObjectCache) -> (h: MDataEntriesHandle)
    requires
        old(cache).wf(),
    ensures
        final(cache).wf(),
        h as nat == old(cache).next(),
        !old(cache).live().contains_key(h),
        final(cache).live() == old(cache).live().insert(
            h,
            ResourceView::Entries(Seq::<EntryView>::empty()),
        ),
        final(cache).next() == old(cache).next() + 1,
{
    let entries = MDataEntries::new();
    cache.insert_mdata_entries(entries)
}

/// Sets `key` to `content` at version 0 in the entries at `h`, adding the
/// key where it is new.
pub fn mdata_entries_insert(
    cache: &mut ObjectCache,
    h: MDataEntriesHandle,
    key: Vec<u8>,
    content: Vec<u8>,
) -> (r: Result<(), FfiError>)
    requires
        old(cache).wf(),
    ensures
        final(cache).wf(),
        final(cache).next() == old(cache).next(),
        r is Ok <==> old(cache).entries_at(h) is Some,
        r is Err ==> r->Err_0 == FfiError::InvalidHandle
            && final(cache).live() == old(cache).live(),
        r is Ok ==> exists|s: Seq<EntryView>|
            #![trigger entries_map(s)]
            sorted_keys(keys_of(s)) && entries_map(s) == entries_map(
                old(cache).entries_at(h)->Some_0,
            ).insert(key@, (content@, 0u64)) && final(cache).live() == old(cache).live().insert(
                h,
                ResourceView::Entries(s),
            ),
{
    let value = Value::new(content, 0);
    cache.insert_mdata_entry(h, key, value)
}

/// Number of entries at `h`.
pub fn mdata_entries_len(cache: &ObjectCache, h: MDataEntriesHandle) -> (r: Result<
    usize,
    FfiError,
>)
    requires
        cache.wf(),
    ensures
        r is Ok <==> cache.entries_at(h) is Some,
        r is Ok ==> r->Ok_0 == cache.entries_at(h)->Some_0.len(),
        r is Err ==> r->Err_0 == FfiError::InvalidHandle,
{
    let entries = cache.get_mdata_entries(h)?;
    Ok(entries.len())
}

/// The content and version stored at `key` in the entries at `h`.
pub fn mdata_entries_get(cache: &ObjectCache, h: MDataEntriesHandle, key: &[u8]) -> (r: Result<
    Value,
    FfiError,
>)
    requires
        cache.wf(),
    ensures
        cache.entries_at(h) is None ==> r == Err::<Value, FfiError>(FfiError::InvalidHandle),
        cache.entries_at(h) is Some ==> {
            let m = entries_map(cache.entries_at(h)->Some_0);
            &&& r is Ok <==> m.contains_key(key@)
            &&& r is Ok ==> r->Ok_0@ == m[key@]
            &&& r is Err ==> r->Err_0 == FfiError::NoSuchEntry
        },
{
    let entries = cache.get_mdata_entries(h)?;
    match entries.get(key) {
        Some(v) => Ok(v.duplicate()),
        None => Err(FfiError::NoSuchEntry),
    }
}

/// Every entry at `h`, in ascending key order; nothing is returned when the
/// handle is refused.
pub fn mdata_entries_for_each(cache: &ObjectCache, h: MDataEntriesHandle) -> (r: Result<
    Vec<(Vec<u8>, Value)>,
    FfiError,
>)
    requires
        cache.wf(),
    ensures
        r is Ok <==> cache.entries_at(h) is Some,
        r is Ok ==> view_entries(r->Ok_0@) == cache.entries_at(h)->Some_0,
        r is Err ==> r->Err_0 == FfiError::InvalidHandle,
{
    let entries = cache.get_mdata_entries(h)?;
    Ok(entries.to_vec())
}

/// Frees the entries at `h`.
pub fn mdata_entries_free(cache: &mut ObjectCache, h: MDataEntriesHandle) -> (r: Result<
    (),
    FfiError,
>)
    requires
        old(cache).wf(),
    ensures
        final(cache).wf(),
        final(cache).next() == old(cache).next(),
        r is Ok <==> old(cache).entries_at(h) is Some,
        r is Ok ==> final(cache).live() == old(cache).live().remove(h),
        r is Err ==> r->Err_0 == FfiError::InvalidHandle
            && final(cache).live() == old(cache).live(),
{
    cache.remove_mdata_entries(h)
}

/// Number of keys at `h`.
pub fn mdata_keys_len(cache: &ObjectCache, h: MDataKeysHandle) -> (r: Result<usize, FfiError>)
    requires
        cache.wf(),
    ensures
        r is Ok <==> cache.keys_at(h) is Some,
        r is Ok ==> r->Ok_0 == cache.keys_at(h)->Some_0.len(),
        r is Err ==> r->Err_0 == FfiError::InvalidHandle,
{
    let keys = cache.get_mdata_keys(h)?;
    Ok(keys.len())
}

/// Every key at `h`, in ascending order; nothing is returned when the handle
/// is refused.
pub fn mdata_keys_for_each(cache: &ObjectCache, h: MDataKeysHandle) -> (r: Result<
    Vec<Vec<u8>>,
    FfiError,
>)
    requires
        cache.wf(),
    ensures
        r is Ok <==> cache.keys_at(h) is Some,
        r is Ok ==> view_keys(r->Ok_0@) == cache.keys_at(h)->Some_0,
        r is Err ==> r->Err_0 == FfiError::InvalidHandle,
{
    let keys = cache.get_mdata_keys(h)?;
    Ok(keys.to_vec())
}

/// Frees the keys at `h`.
pub fn mdata_keys_free(cache: &mut ObjectCache, h: MDataKeysHandle) -> (r: Result<(), FfiError>)
    requires
        old(cache).wf(),
    ensures
        final(cache).wf(),
        final(cache).next() == old(cache).next(),
        r is Ok <==> old(cache).keys_at(h) is Some,
        r is Ok ==> final(cache).live() == old(cache).live().remove(h),
        r is Err ==> r->Err_0 == FfiError::InvalidHandle
            && final(cache).live() == old(cache).live(),
{
    cache.remove_mdata_keys(h)
}

/// Number of values at `h`.
pub fn mdata_values_len(cache: &ObjectCache, h: MDataValuesHandle) -> (r: Result<
    usize,
    FfiError,
>)
    requires
        cache.wf(),
    ensures
        r is Ok <==> cache.values_at(h) is Some,
        r is Ok ==> r->Ok_0 == cache.values_at(h)->Some_0.len(),
        r is Err ==> r->Err_0 == FfiError::InvalidHandle,
{
    let values = cache.get_mdata_values(h)?;
    Ok(values.len())
}

/// Every value at `h`, in list order; nothing is returned when the handle is
/// refused.
pub fn mdata_values_for_each(cache: &ObjectCache, h: MDataValuesHandle) -> (r: Result<
    Vec<Value>,
    FfiError,
>)
    requires
        cache.wf(),
    ensures
        r is Ok <==> cache.values_at(h) is Some,
        r is Ok ==> view_values(r->Ok_0@) == cache.values_at(h)->Some_0,
        r is Err ==> r->Err_0 == FfiError::InvalidHandle,
{
    let values = cache.get_mdata_values(h)?;
    Ok(values.to_vec())
}

/// Frees the values at `h`.
pub fn mdata_values_free(cache: &mut ObjectCache, h: MDataValuesHandle) -> (r: Result<
    (),
    FfiError,
>)
    requires
        old(cache).wf(),
    ensures
        final(cache).wf(),
        final(cache).next() == old(cache).next(),
        r is Ok <==> old(cache).values_at(h) is Some,
        r is Ok ==> final(cache).live() == old(cache).live().remove(h),
        r is Err ==> r->Err_0 == FfiError::InvalidHandle
            && final(cache).live() == old(cache).live(),
{
    cache.remove_mdata_values(h)
}

/// A handle addresses one kind of resource at most: a keys or values handle
/// is never taken for an entries handle, so entries operations refuse it.
pub proof fn lemma_handle_kinds_exclusive(cache: &ObjectCache, h: u64)
    ensures
        cache.keys_at(h) is Some ==> cache.entries_at(h) is None && cache.values_at(h) is None,
        cache.values_at(h) is Some ==> cache.entries_at(h) is None && cache.keys_at(h) is None,
        cache.entries_at(h) is Some ==> cache.keys_at(h) is None && cache.values_at(h) is None,
{
}

/// Once freed, a handle addresses nothing: freeing it again, or any other
/// operation on it, is refused.
pub proof fn lemma_freed_handle_invalid(before: &ObjectCache, after: &ObjectCache, h: u64)
    requires
        after.live() == before.live().remove(h),
    ensures
        after.entries_at(h) is None,
        after.keys_at(h) is None,
        after.values_at(h) is None,
{
}

/// A handle handed out later never equals one issued earlier, freed or not,
/// since allocation takes the next handle and the next handle only grows.
pub proof fn lemma_handles_not_reused(earlier: &ObjectCache, later: &ObjectCache, h: u64)
    requires
        earlier.wf(),
        earlier.live().contains_key(h),
        earlier.next() <= later.next(),
    ensures
        (h as nat) < later.next(),
{
}

/// Entries are always walked in strictly ascending key order.
pub proof fn lemma_entries_walk_ascending(cache: &ObjectCache, h: MDataEntriesHandle)
    requires
        cache.wf(),
        cache.entries_at(h) is Some,
    ensures
        sorted_keys(keys_of(cache.entries_at(h)->Some_0)),
{
    assert(cache.live().contains_key(h));
}

} // verus!
