use lfu_cache::StorageMap;
use std::sync::Arc;

fn filled(keys: &[u64]) -> StorageMap<u64> {
    let mut storage = StorageMap::new();
    for key in keys {
        storage.insert(*key, Arc::new(*key));
    }
    storage
}

fn slots(storage: &StorageMap<u64>) -> Vec<u64> {
    (0..storage.len()).map(|index| storage.key_at(index).unwrap()).collect()
}

#[test]
fn new_storage_is_empty() {
    let storage: StorageMap<u32> = StorageMap::new();
    assert_eq!(storage.len(), 0);
    assert!(!storage.contains(&1));
    assert_eq!(storage.get(&1), None);
    assert_eq!(storage.key_at(0), None);
}

#[test]
fn storage_insert_reports_the_previous_value() {
    let mut storage = StorageMap::new();
    assert_eq!(storage.insert(1, Arc::new("a")), None);
    assert_eq!(storage.insert(2, Arc::new("b")), None);
    assert_eq!(storage.insert(1, Arc::new("c")), Some(Arc::new("a")));
    assert_eq!(storage.len(), 2);
    assert_eq!(storage.get(&1), Some(Arc::new("c")));
    assert_eq!(storage.get(&2), Some(Arc::new("b")));
    assert!(storage.contains(&1));
    assert!(!storage.contains(&3));
}

#[test]
fn storage_get_shares_the_stored_value() {
    let mut storage = StorageMap::new();
    let handle = Arc::new(String::from("shared"));
    storage.insert(1, Arc::clone(&handle));
    let first = storage.get(&1).unwrap();
    let second = storage.get(&1).unwrap();
    assert!(Arc::ptr_eq(&first, &handle));
    assert!(Arc::ptr_eq(&second, &handle));
    assert_eq!(Arc::strong_count(&handle), 4);
}

#[test]
fn new_keys_take_the_next_slot_and_known_keys_keep_theirs() {
    let mut storage = filled(&[30, 10, 20]);
    storage.insert(10, Arc::new(11));
    assert_eq!(slots(&storage), vec![30, 10, 20]);
    assert_eq!(storage.key_at(3), None);
    assert_eq!(storage.get(&10), Some(Arc::new(11)));
}

#[test]
fn last_key_takes_the_slot_of_a_removed_key() {
    let mut storage = filled(&[30, 10, 20, 40, 50]);
    assert_eq!(storage.remove(&10), Some(Arc::new(10)));
    assert_eq!(slots(&storage), vec![30, 50, 20, 40]);
    assert_eq!(storage.remove(&10), None);
    assert_eq!(storage.remove(&99), None);
    assert_eq!(slots(&storage), vec![30, 50, 20, 40]);
    assert_eq!(storage.remove(&40), Some(Arc::new(40)));
    assert_eq!(slots(&storage), vec![30, 50, 20]);
    assert_eq!(storage.remove(&30), Some(Arc::new(30)));
    assert_eq!(slots(&storage), vec![20, 50]);
    storage.insert(10, Arc::new(12));
    assert_eq!(slots(&storage), vec![20, 50, 10]);
    assert_eq!(storage.get(&10), Some(Arc::new(12)));
    assert_eq!(storage.get(&30), None);
    assert_eq!(storage.get(&50), Some(Arc::new(50)));
}

#[test]
fn storage_survives_many_insertions_and_removals() {
    let mut storage = StorageMap::new();
    let mut present = [false; 32];
    for step in 0..2_000u64 {
        let key = (step * step + 5 * step) % 32;
        if step % 3 == 0 {
            let removed = storage.remove(&key);
            assert_eq!(removed.is_some(), present[key as usize]);
            present[key as usize] = false;
        } else {
            let previous = storage.insert(key, Arc::new(step));
            assert_eq!(previous.is_some(), present[key as usize]);
            present[key as usize] = true;
        }
        let count = present.iter().filter(|held| **held).count();
        assert_eq!(storage.len(), count);
        let mut listed: Vec<u64> = slots(&storage);
        listed.sort();
        let expected: Vec<u64> = (0..32u64).filter(|key| present[*key as usize]).collect();
        assert_eq!(listed, expected);
    }
}
