use genstore::comp_storage::ComponentID;
use genstore::comp_storage::ComponentStorage;
use genstore::storage::StorageError;

use rand::Rng;
use std::collections::HashMap;
use std::mem;

type TestData1 = (i32, f64, String);

#[derive(PartialEq, Debug)]
struct TestData2(i32);

#[test]
fn test_comp_storage_new() {
    let storage: ComponentStorage<TestData1> =
        ComponentStorage::new(0, mem::size_of::<TestData1>() as u32, 8).unwrap();
    assert_eq!(storage.capacity(), 8);
}

#[test]
fn test_comp_storage_insert_get() {
    let mut storage: ComponentStorage<TestData1> =
        ComponentStorage::new(0, mem::size_of::<TestData1>() as u32, 8).unwrap();

    let alice_id = storage.insert((1, 3.0, "Alice".to_string()));
    assert!(storage.has(alice_id));
    {
        let alice: &TestData1 = storage.get(alice_id).unwrap();
        assert_eq!(*alice, (1, 3.0, "Alice".to_string()));
    }
    let alice: &mut TestData1 = storage.get_mut(alice_id).unwrap();
    alice.0 = 2;
    alice.2 = "Ashley".to_string();
    assert_eq!(*alice, (2, 3.0, "Ashley".to_string()));
}

#[test]
fn test_comp_storage_size() {
    let mut storage: ComponentStorage<TestData1> =
        ComponentStorage::new(0, mem::size_of::<TestData1>() as u32, 8).unwrap();

    assert_eq!(storage.size(), 0);
    storage.insert((1, 1.0, "Alice".to_string()));
    assert_eq!(storage.size(), 1);
    storage.insert((2, 2.0, "Bob".to_string()));
    assert_eq!(storage.size(), 2);
    storage.insert((3, 3.0, "Chris".to_string()));
    assert_eq!(storage.size(), 3);
}

#[test]
fn test_comp_storage_release() {
    let mut storage: ComponentStorage<TestData1> =
        ComponentStorage::new(0, mem::size_of::<TestData1>() as u32, 8).unwrap();

    let alice_id = storage.insert((1, 3.0, "Alice".to_string()));
    let bob_id = storage.insert((2, 4.0, "Bob".to_string()));
    assert_eq!(storage.size(), 2);

    storage.release(alice_id).unwrap();
    assert_eq!(storage.try_get(alice_id), None);
    assert_eq!(*storage.try_get(bob_id).unwrap(), (2, 4.0, "Bob".to_string()));
    assert_eq!(storage.size(), 1);

    storage.release(bob_id).unwrap();
    assert_eq!(storage.try_get(alice_id), None);
    assert_eq!(storage.try_get(bob_id), None);
    assert_eq!(storage.size(), 0);
}

#[test]
fn test_comp_storage_many() {
    let test_size: u32 = 2048;
    let mut storage: ComponentStorage<TestData2> =
        ComponentStorage::new(0, mem::size_of::<TestData2>() as u32, test_size).unwrap();
    let mut ids: Vec<ComponentID> = Vec::new();
    for i in 0..test_size {
        let id = storage.insert(TestData2(i as i32));
        ids.push(id);
    }
    assert_eq!(storage.size(), test_size);

    let mut rng = rand::thread_rng();
    let mut vec = (0..1000)
        .into_iter()
        .map(|_| rng.gen::<u32>() % test_size)
        .collect::<Vec<_>>();
    vec.sort();
    vec.dedup();

    for i in &vec {
        storage.release(ids[*i as usize]).unwrap();
    }
    let removed_size = vec.len() as u32;
    assert_eq!(storage.size(), test_size - removed_size);
    for i in &vec {
        assert_eq!(storage.try_get(ids[*i as usize]), None);
    }

    let mut new_ids: HashMap<ComponentID, TestData2> = HashMap::new();
    for i in &vec {
        let id = storage.insert(TestData2(*i as i32));
        new_ids.insert(id, TestData2(*i as i32));
    }
    assert_eq!(storage.size(), test_size);
    for (id, value) in &new_ids {
        assert_eq!(*storage.try_get(*id).unwrap(), *value);
    }
}

#[test]
fn test_comp_storage_expand() {
    let test_size: u32 = 65536;
    let mut storage: ComponentStorage<TestData2> =
        ComponentStorage::new(0, mem::size_of::<TestData2>() as u32, 1).unwrap();
    let mut ids: Vec<ComponentID> = Vec::new();
    for i in 0..test_size {
        let id = storage.insert(TestData2(i as i32));
        ids.push(id);
    }
    assert_eq!(storage.size(), test_size);

    let mut rng = rand::thread_rng();
    let mut vec = (0..test_size)
        .into_iter()
        .map(|_| rng.gen::<u32>() % test_size)
        .collect::<Vec<_>>();
    vec.sort();
    vec.dedup();

    for i in &vec {
        storage.release(ids[*i as usize]).unwrap();
    }
    let removed_size = vec.len() as u32;
    assert_eq!(storage.size(), test_size - removed_size);
    for i in &vec {
        assert_eq!(storage.try_get(ids[*i as usize]), None);
    }

    let mut new_ids: HashMap<ComponentID, TestData2> = HashMap::new();
    for i in &vec {
        let id = storage.insert(TestData2(*i as i32));
        new_ids.insert(id, TestData2(*i as i32));
    }
    assert_eq!(storage.size(), test_size);
    for (id, value) in &new_ids {
        assert_eq!(*storage.try_get(*id).unwrap(), *value);
    }
}

#[test]
fn test_comp_storage_zero_capacity() {
    let r: Result<ComponentStorage<TestData2>, StorageError> = ComponentStorage::new(0, 4, 0);
    assert!(matches!(r, Err(StorageError::InvalidCapacity)));
}

#[test]
fn test_comp_storage_handle_fields() {
    let mut storage: ComponentStorage<TestData2> = ComponentStorage::new(9, 4, 4).unwrap();
    let id = storage.insert(TestData2(1));
    assert_eq!(id.ctid(), 9);
    assert_eq!(id.index(), 0);
    assert_eq!(id.generation(), 1);
}

#[test]
fn test_comp_storage_stale_handle_after_reuse() {
    let mut storage: ComponentStorage<TestData2> = ComponentStorage::new(0, 4, 1).unwrap();
    let old_id = storage.insert(TestData2(1));
    storage.release(old_id).unwrap();
    let new_id = storage.insert(TestData2(2));
    assert_eq!(new_id.index(), old_id.index());
    assert_ne!(new_id.generation(), old_id.generation());
    assert!(!storage.has(old_id));
    assert_eq!(storage.try_get(old_id), None);
    assert_eq!(*storage.try_get(new_id).unwrap(), TestData2(2));
}

#[test]
fn test_comp_storage_dense_iteration() {
    let mut storage: ComponentStorage<TestData2> = ComponentStorage::new(0, 4, 8).unwrap();
    let _a = storage.insert(TestData2(10));
    let b = storage.insert(TestData2(20));
    let _c = storage.insert(TestData2(30));
    let _d = storage.insert(TestData2(40));
    storage.release(b).unwrap();
    // Swap-removal moved the last record into the freed position: the
    // packed prefix holds exactly the three live records.
    let live: Vec<&TestData2> = storage.iterate();
    assert_eq!(live.len(), 3);
    assert_eq!(*live[0], TestData2(10));
    assert_eq!(*live[1], TestData2(40));
    assert_eq!(*live[2], TestData2(30));
    assert_eq!(live.len() as u32, storage.size());
}

#[test]
fn test_comp_storage_release_invalid() {
    let mut storage: ComponentStorage<TestData2> = ComponentStorage::new(0, 4, 4).unwrap();
    let id = storage.insert(TestData2(5));
    storage.release(id).unwrap();
    assert!(matches!(storage.release(id), Err(StorageError::InvalidHandle)));
    assert!(matches!(storage.get(id), Err(StorageError::InvalidHandle)));
    assert_eq!(storage.try_get_mut(id), None);
}
