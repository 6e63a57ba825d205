use safe_ipc::bridge::WorkQueue;
use safe_ipc::entries::{
    mdata_entries_for_each, mdata_entries_free, mdata_entries_get, mdata_entries_insert,
    mdata_entries_len, mdata_entries_new, mdata_keys_for_each, mdata_keys_free, mdata_keys_len,
    mdata_values_for_each, mdata_values_free, mdata_values_len,
};
use safe_ipc::errors::FfiError;
use safe_ipc::lex::{compare_bytes, Order};
use safe_ipc::mdata::{MDataEntries, MDataKeys, MDataValues, Value};
use safe_ipc::object_cache::ObjectCache;

fn pseudo_random_vector(seed: u8, len: usize) -> Vec<u8> {
    let mut x = seed as u32 | 1;
    let mut v = Vec::new();
    for _ in 0..len {
        x = x.wrapping_mul(1_103_515_245).wrapping_add(12_345);
        v.push((x >> 16) as u8);
    }
    v
}

#[test]
fn entries() {
    let mut cache = ObjectCache::new();

    let key0 = b"key0".to_vec();
    let key1 = b"key1".to_vec();
    let value0 = Value::new(pseudo_random_vector(3, 10), 0);
    let value1 = Value::new(pseudo_random_vector(4, 10), 2);

    let mut entries = MDataEntries::new();
    entries.insert(key0.clone(), value0.clone());
    entries.insert(key1.clone(), value1.clone());
    let handle = cache.insert_mdata_entries(entries);

    let len = mdata_entries_len(&cache, handle).unwrap();
    assert_eq!(len, 2);

    let got0 = mdata_entries_get(&cache, handle, &key0).unwrap();
    assert_eq!(got0.content, value0.content);
    assert_eq!(got0.entry_version, value0.entry_version);

    let got1 = mdata_entries_get(&cache, handle, &key1).unwrap();
    assert_eq!(got1.content, value1.content);
    assert_eq!(got1.entry_version, value1.entry_version);

    let all = mdata_entries_for_each(&cache, handle).unwrap();
    assert_eq!(all.len(), 2);
    assert_eq!(all[0], (key0.clone(), value0.clone()));
    assert_eq!(all[1], (key1.clone(), value1.clone()));

    assert_eq!(mdata_entries_free(&mut cache, handle), Ok(()));
    assert_eq!(mdata_entries_get(&cache, handle, &key0), Err(FfiError::InvalidHandle));
}

#[test]
fn keys() {
    let mut cache = ObjectCache::new();
    let mut keys = MDataKeys::new();
    keys.insert(b"b".to_vec());
    keys.insert(b"ab".to_vec());
    keys.insert(b"a".to_vec());
    keys.insert(b"b".to_vec());
    let handle = cache.insert_mdata_keys(keys);

    assert_eq!(mdata_keys_len(&cache, handle), Ok(3));
    assert_eq!(
        mdata_keys_for_each(&cache, handle),
        Ok(vec![b"a".to_vec(), b"ab".to_vec(), b"b".to_vec()])
    );
    assert_eq!(mdata_keys_free(&mut cache, handle), Ok(()));
    assert_eq!(mdata_keys_len(&cache, handle), Err(FfiError::InvalidHandle));
    assert_eq!(mdata_keys_free(&mut cache, handle), Err(FfiError::InvalidHandle));
}

#[test]
fn values() {
    let mut cache = ObjectCache::new();
    let mut values = MDataValues::new();
    values.push(Value::new(vec![3], 1));
    values.push(Value::new(vec![1, 2], 0));
    values.push(Value::new(vec![3], 1));
    let handle = cache.insert_mdata_values(values);

    assert_eq!(mdata_values_len(&cache, handle), Ok(3));
    assert_eq!(
        mdata_values_for_each(&cache, handle),
        Ok(vec![Value::new(vec![3], 1), Value::new(vec![1, 2], 0), Value::new(vec![3], 1)])
    );
    assert_eq!(mdata_values_free(&mut cache, handle), Ok(()));
    assert_eq!(mdata_values_for_each(&cache, handle), Err(FfiError::InvalidHandle));
}

#[test]
fn entries_insert_through_handle() {
    let mut cache = ObjectCache::new();
    let h = mdata_entries_new(&mut cache);
    assert_eq!(mdata_entries_len(&cache, h), Ok(0));
    assert_eq!(mdata_entries_insert(&mut cache, h, b"k".to_vec(), vec![1]), Ok(()));
    assert_eq!(mdata_entries_insert(&mut cache, h, b"k".to_vec(), vec![2, 2]), Ok(()));
    assert_eq!(mdata_entries_len(&cache, h), Ok(1));
    assert_eq!(mdata_entries_get(&cache, h, b"k"), Ok(Value::new(vec![2, 2], 0)));
    assert_eq!(mdata_entries_get(&cache, h, b"missing"), Err(FfiError::NoSuchEntry));
}

#[test]
fn for_each_visits_keys_in_ascending_order() {
    let mut cache = ObjectCache::new();
    let h = mdata_entries_new(&mut cache);
    mdata_entries_insert(&mut cache, h, b"key1".to_vec(), vec![1]).unwrap();
    mdata_entries_insert(&mut cache, h, b"key0".to_vec(), vec![0]).unwrap();
    let all = mdata_entries_for_each(&cache, h).unwrap();
    let keys: Vec<Vec<u8>> = all.into_iter().map(|(k, _)| k).collect();
    assert_eq!(keys, vec![b"key0".to_vec(), b"key1".to_vec()]);
}

#[test]
fn keys_handle_refused_by_entries_operations() {
    let mut cache = ObjectCache::new();
    let kh = cache.insert_mdata_keys(MDataKeys::new());
    let vh = cache.insert_mdata_values(MDataValues::new());
    assert_eq!(mdata_entries_len(&cache, kh), Err(FfiError::InvalidHandle));
    assert_eq!(mdata_entries_get(&cache, kh, b"x"), Err(FfiError::InvalidHandle));
    assert_eq!(mdata_entries_insert(&mut cache, kh, b"x".to_vec(), vec![]), Err(FfiError::InvalidHandle));
    assert_eq!(mdata_entries_free(&mut cache, kh), Err(FfiError::InvalidHandle));
    assert_eq!(mdata_entries_for_each(&cache, vh), Err(FfiError::InvalidHandle));
    assert_eq!(mdata_values_len(&cache, kh), Err(FfiError::InvalidHandle));
    assert_eq!(mdata_keys_len(&cache, kh), Ok(0));
    assert_eq!(mdata_entries_len(&cache, 999), Err(FfiError::InvalidHandle));
}

#[test]
fn double_free_is_refused_and_handles_are_not_reused() {
    let mut cache = ObjectCache::new();
    let h = mdata_entries_new(&mut cache);
    assert_eq!(mdata_entries_free(&mut cache, h), Ok(()));
    assert_eq!(mdata_entries_free(&mut cache, h), Err(FfiError::InvalidHandle));
    let h2 = mdata_entries_new(&mut cache);
    assert_ne!(h2, h);
    assert_eq!(mdata_entries_len(&cache, h), Err(FfiError::InvalidHandle));
    assert_eq!(mdata_entries_len(&cache, h2), Ok(0));
}

#[test]
fn byte_order_is_lexicographic() {
    assert_eq!(compare_bytes(b"key0", b"key1"), Order::Less);
    assert_eq!(compare_bytes(b"key", b"key0"), Order::Less);
    assert_eq!(compare_bytes(b"b", b"ab"), Order::Greater);
    assert_eq!(compare_bytes(b"", b""), Order::Equal);
    assert_eq!(compare_bytes(&[255], &[0, 0]), Order::Greater);
}

#[test]
fn work_queue_is_fifo_and_rejects_after_shutdown() {
    let mut q: WorkQueue<u32> = WorkQueue::new();
    assert_eq!(q.submit(1), Ok(()));
    assert_eq!(q.submit(2), Ok(()));
    assert_eq!(q.submit(3), Ok(()));
    assert_eq!(q.next(), Some(1));
    assert_eq!(q.len(), 2);
    assert_eq!(q.shutdown(), vec![2, 3]);
    assert!(!q.accepting());
    assert_eq!(q.submit(4), Err(FfiError::Disconnected));
    assert_eq!(q.next(), None);
}
