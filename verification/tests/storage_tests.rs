use genstore::storage::Resource;
use genstore::storage::ResourceID;
use genstore::storage::Storage;
use genstore::storage::StorageError;

use rand::Rng;
use std::collections::HashMap;

#[derive(PartialEq, Debug)]
struct TestData1(i32, f64, String);

impl Resource for TestData1 {
    fn tid() -> u16 {
        1
    }
}

#[derive(PartialEq, Debug)]
struct TestData2(i32);

impl Resource for TestData2 {
    fn tid() -> u16 {
        2
    }
}

#[test]
fn test_storage_new() {
    let storage = Storage::<TestData1>::new(8).unwrap();
    assert_eq!(storage.capacity(), 8);
}

#[test]
fn test_storage_insert_get() {
    let mut storage = Storage::new(8).unwrap();

    let alice_ref = storage.insert("alice", TestData1(1, 3.0, "Alice".to_string()));

    assert_eq!(*storage.get(alice_ref).unwrap(), TestData1(1, 3.0, "Alice".to_string()));
    assert_eq!(
        *storage.get_by_name("alice").unwrap().0,
        TestData1(1, 3.0, "Alice".to_string())
    );

    assert!(storage.get_by_name("bob").is_none());
}

#[test]
fn test_storage_has() {
    let mut storage = Storage::new(8).unwrap();

    let alice_ref = storage.insert("alice", TestData1(1, 3.0, "Alice".to_string()));

    assert!(storage.has(alice_ref));
}

#[test]
fn test_storage_size() {
    let mut storage = Storage::new(8).unwrap();

    assert_eq!(storage.size(), 0);
    storage.insert("alice", TestData1(1, 1.0, "Alice".to_string()));
    assert_eq!(storage.size(), 1);
    storage.insert("bob", TestData1(2, 2.0, "Bob".to_string()));
    assert_eq!(storage.size(), 2);
    storage.insert("chris", TestData1(3, 3.0, "Chris".to_string()));
    assert_eq!(storage.size(), 3);
}

#[test]
fn test_storage_release() {
    let mut storage = Storage::<TestData1>::new(8).unwrap();

    let alice_ref = storage.insert("alice", TestData1(1, 3.0, "Alice".to_string()));
    let bob_ref = storage.insert("bob", TestData1(2, 4.0, "Bob".to_string()));

    storage.release(alice_ref).unwrap();
    assert!(storage.get_by_name("alice").is_none());
    storage.release(bob_ref).unwrap();
    assert!(storage.get_by_name("bob").is_none());
}

#[test]
fn test_storage_many() {
    let test_size: u32 = 2048;
    let mut storage = Storage::new(test_size).unwrap();
    for i in 0..test_size {
        let num_str = i.to_string();
        storage.insert(&num_str, TestData2(i as i32));
    }
    assert_eq!(storage.size(), test_size);

    let mut rng = rand::thread_rng();
    let mut vec = (0..1000)
        .into_iter()
        .map(|_| rng.gen::<u32>() % 2048)
        .collect::<Vec<_>>();
    vec.sort();
    vec.dedup();

    for i in &vec {
        storage.release_by_name(&i.to_string()).unwrap();
    }
    let removed_size = vec.len() as u32;
    assert_eq!(storage.size(), test_size - removed_size);

    for i in &vec {
        storage.insert(&i.to_string(), TestData2(*i as i32));
    }
    assert_eq!(storage.size(), test_size);
}

#[test]
fn test_storage_expand() {
    let test_size: u32 = 65536;
    let mut storage = Storage::new(1).unwrap();
    for i in 0..test_size {
        let num_str = i.to_string();
        storage.insert(&num_str, TestData2(i as i32));
    }
    assert_eq!(storage.size(), test_size);

    let mut rng = rand::thread_rng();
    let mut vec = (0..test_size)
        .into_iter()
        .map(|_| rng.gen::<u32>() % test_size)
        .collect::<Vec<_>>();
    vec.sort();
    vec.dedup();

    for i in &vec {
        storage.release_by_name(&i.to_string()).unwrap();
    }
    let removed_size = vec.len() as u32;
    assert_eq!(storage.size(), test_size - removed_size);

    for i in &vec {
        storage.insert(&i.to_string(), TestData2(*i as i32));
    }
    assert_eq!(storage.size(), test_size);
}

#[test]
fn test_storage_zero_capacity() {
    let r = Storage::<TestData2>::new(0);
    assert!(matches!(r, Err(StorageError::InvalidCapacity)));
}

#[test]
fn test_storage_get_invalid() {
    let mut storage = Storage::new(4).unwrap();
    let h = storage.insert("one", TestData2(1));
    storage.release(h).unwrap();
    assert!(!storage.has(h));
    assert!(matches!(storage.get(h), Err(StorageError::InvalidHandle)));
    assert!(matches!(storage.get_mut(h), Err(StorageError::InvalidHandle)));
    assert!(matches!(storage.release(h), Err(StorageError::InvalidHandle)));
}

#[test]
fn test_storage_release_by_name_unknown() {
    let mut storage = Storage::<TestData2>::new(4).unwrap();
    storage.insert("known", TestData2(7));
    assert!(matches!(
        storage.release_by_name("unknown"),
        Err(StorageError::NameNotFound)
    ));
    assert_eq!(storage.size(), 1);
}

#[test]
fn test_storage_stale_handle_after_reuse() {
    let mut storage = Storage::new(1).unwrap();
    let old_ref = storage.insert("first", TestData2(1));
    storage.release(old_ref).unwrap();
    let new_ref = storage.insert("second", TestData2(2));
    assert!(!storage.has(old_ref));
    assert!(storage.has(new_ref));
    assert!(matches!(storage.get(old_ref), Err(StorageError::InvalidHandle)));
    assert_eq!(*storage.get(new_ref).unwrap(), TestData2(2));
}

#[test]
fn test_storage_growth_preserves_handles() {
    let mut storage = Storage::new(2).unwrap();
    let mut handles: Vec<ResourceID<TestData2>> = Vec::new();
    for i in 0..9 {
        let name = i.to_string();
        handles.push(storage.insert(&name, TestData2(i)));
    }
    // One doubling per exhaustion: 2 -> 4 -> 8 -> 16.
    assert_eq!(storage.capacity(), 16);
    for (i, h) in handles.iter().enumerate() {
        assert!(storage.has(*h));
        assert_eq!(*storage.get(*h).unwrap(), TestData2(i as i32));
    }
}

#[test]
fn test_storage_get_mut() {
    let mut storage = Storage::new(4).unwrap();
    let h = storage.insert("alice", TestData1(1, 3.0, "Alice".to_string()));
    {
        let v = storage.get_mut(h).unwrap();
        v.0 = 2;
        v.2 = "Ashley".to_string();
    }
    assert_eq!(*storage.get(h).unwrap(), TestData1(2, 3.0, "Ashley".to_string()));
    {
        let (v, h2) = storage.get_mut_by_name("alice").unwrap();
        v.0 = 3;
        assert!(storage.has(h2));
    }
    assert_eq!(*storage.get(h).unwrap(), TestData1(3, 3.0, "Ashley".to_string()));
}

#[test]
fn test_storage_name_overwrite() {
    let mut storage = Storage::new(4).unwrap();
    let first = storage.insert("dup", TestData2(1));
    let second = storage.insert("dup", TestData2(2));
    // The newer insert silently overwrites the name mapping; the older
    // entry stays live but is only reachable by handle.
    assert_eq!(*storage.get_by_name("dup").unwrap().0, TestData2(2));
    assert_eq!(*storage.get(first).unwrap(), TestData2(1));
    storage.release(second).unwrap();
    assert!(storage.get_by_name("dup").is_none());
    assert_eq!(*storage.get(first).unwrap(), TestData2(1));
}

#[test]
fn test_storage_scenario_two_records() {
    let mut storage = Storage::new(8).unwrap();
    storage.insert("alice", TestData1(1, 3.0, "Alice".to_string()));
    storage.insert("bob", TestData1(2, 4.0, "Bob".to_string()));
    assert_eq!(storage.size(), 2);
    storage.release_by_name("alice").unwrap();
    assert!(storage.get_by_name("alice").is_none());
    assert_eq!(
        *storage.get_by_name("bob").unwrap().0,
        TestData1(2, 4.0, "Bob".to_string())
    );
    assert_eq!(storage.size(), 1);
}

#[test]
fn test_storage_regrowth_keeps_values() {
    let test_size: u32 = 65536;
    let mut storage = Storage::new(1).unwrap();
    let mut model: HashMap<String, i32> = HashMap::new();
    for i in 0..test_size {
        let name = i.to_string();
        storage.insert(&name, TestData2(i as i32));
        model.insert(name, i as i32);
    }
    assert_eq!(storage.size(), test_size);
    assert_eq!(storage.capacity(), 65536);

    let mut rng = rand::thread_rng();
    let mut released = (0..test_size)
        .into_iter()
        .map(|_| rng.gen::<u32>() % test_size)
        .collect::<Vec<_>>();
    released.sort();
    released.dedup();

    for i in &released {
        let name = i.to_string();
        storage.release_by_name(&name).unwrap();
        model.remove(&name);
    }
    assert_eq!(storage.size(), test_size - released.len() as u32);
    for i in &released {
        assert!(storage.get_by_name(&i.to_string()).is_none());
    }

    for i in &released {
        let name = i.to_string();
        storage.insert(&name, TestData2(*i as i32 + 1_000_000));
        model.insert(name, *i as i32 + 1_000_000);
    }
    assert_eq!(storage.size(), test_size);
    for (name, value) in &model {
        assert_eq!(*storage.get_by_name(name).unwrap().0, TestData2(*value));
    }
}

#[test]
fn test_storage_iterate_slot_order() {
    let mut storage = Storage::new(4).unwrap();
    let _a = storage.insert("a", TestData2(10));
    let b = storage.insert("b", TestData2(20));
    let _c = storage.insert("c", TestData2(30));
    storage.release(b).unwrap();
    let live: Vec<&TestData2> = storage.iterate();
    assert_eq!(live.len(), 2);
    assert_eq!(*live[0], TestData2(10));
    assert_eq!(*live[1], TestData2(30));
    // The freed slot is reused, so the new value appears at its slot
    // position, not at the end.
    storage.insert("d", TestData2(40));
    let live: Vec<&TestData2> = storage.iterate();
    assert_eq!(live.len(), 3);
    assert_eq!(*live[0], TestData2(10));
    assert_eq!(*live[1], TestData2(40));
    assert_eq!(*live[2], TestData2(30));
}
