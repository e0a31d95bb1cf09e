use count_min_sketch::CountMinSketch8;
use lfu_cache::{ConfigurationError, Inner, InsertOutcome};
use std::sync::Arc;

fn wide_sketch() -> CountMinSketch8<u64> {
    CountMinSketch8::new(1 << 16, 0.999, 2.0).unwrap()
}

fn cache_of(capacity: usize) -> Inner<&'static str> {
    Inner::new(capacity, wide_sketch()).unwrap()
}

#[test]
fn zero_capacity_is_a_configuration_error() {
    let built = Inner::<u32>::new(0, wide_sketch());
    assert!(matches!(built, Err(ConfigurationError::ZeroCapacity)));
}

#[test]
fn new_cache_is_empty_and_keeps_its_capacity() {
    let cache = cache_of(3);
    assert_eq!(cache.len(), 0);
    assert_eq!(cache.capacity(), 3);
    assert_eq!(cache.estimate(1), 0);
}

#[test]
fn inserted_value_is_served_until_removed() {
    let mut cache = cache_of(4);
    assert!(matches!(cache.insert(1, "one"), InsertOutcome::Inserted));
    assert!(matches!(cache.insert(2, "two"), InsertOutcome::Inserted));
    assert_eq!(cache.get(&1), Some(Arc::new("one")));
    assert_eq!(cache.get(&1), Some(Arc::new("one")));
    assert_eq!(cache.get(&2), Some(Arc::new("two")));
    assert_eq!(cache.remove(&2), Some(Arc::new("two")));
    assert_eq!(cache.get(&1), Some(Arc::new("one")));
    assert_eq!(cache.get(&2), None);
}

#[test]
fn get_of_an_unknown_key_is_none() {
    let mut cache = cache_of(2);
    assert_eq!(cache.get(&9), None);
    assert_eq!(cache.len(), 0);
}

#[test]
fn handles_outlive_the_entry() {
    let mut cache: Inner<String> = Inner::new(1, wide_sketch()).unwrap();
    cache.insert(5, String::from("kept"));
    let handle = cache.get(&5).unwrap();
    cache.remove(&5);
    assert_eq!(cache.get(&5), None);
    assert_eq!(*handle, "kept");
}

#[test]
fn known_key_is_replaced_and_the_old_value_handed_back() {
    let mut cache = cache_of(1);
    assert!(matches!(cache.insert(1, "old"), InsertOutcome::Inserted));
    match cache.insert(1, "new") {
        InsertOutcome::Replaced(previous) => assert_eq!(*previous, "old"),
        other => panic!("expected a replacement, got {:?}", other),
    }
    assert_eq!(cache.len(), 1);
    assert_eq!(cache.get(&1), Some(Arc::new("new")));
}

#[test]
fn len_never_exceeds_capacity() {
    let mut cache: Inner<u64> = Inner::new(5, wide_sketch()).unwrap();
    for round in 0..3u64 {
        for key in 0..40u64 {
            cache.insert(key, key + round);
            assert!(cache.len() <= cache.capacity());
            cache.get(&(key / 2));
            assert!(cache.len() <= cache.capacity());
        }
    }
    assert_eq!(cache.len(), 5);
    for key in 0..40u64 {
        cache.remove(&key);
        assert!(cache.len() <= cache.capacity());
    }
    assert_eq!(cache.len(), 0);
}

#[test]
fn repeated_get_raises_the_estimate_by_one() {
    let mut cache = cache_of(100);
    cache.insert(7, "seven");
    assert_eq!(cache.estimate(7), 1);
    for seen in 2..=30u8 {
        let before = cache.estimate(7);
        cache.get(&7);
        assert!(cache.estimate(7) > before);
        assert_eq!(cache.estimate(7), seen);
    }
    assert_eq!(cache.estimate(8), 0);
}

#[test]
fn estimate_does_not_count() {
    let mut cache = cache_of(2);
    cache.get(&3);
    assert_eq!(cache.estimate(3), 1);
    assert_eq!(cache.estimate(3), 1);
}

#[test]
fn remove_does_not_count() {
    let mut cache = cache_of(2);
    cache.insert(3, "three");
    cache.remove(&3);
    cache.remove(&4);
    assert_eq!(cache.estimate(3), 1);
    assert_eq!(cache.estimate(4), 0);
}

#[test]
fn estimates_are_halved_after_ten_accesses_per_unit_of_capacity() {
    let mut cache = cache_of(2);
    cache.insert(1, "one");
    for _ in 0..18 {
        cache.get(&1);
    }
    assert_eq!(cache.estimate(1), 19);
    cache.get(&1);
    assert_eq!(cache.estimate(1), 10);
    cache.get(&1);
    assert_eq!(cache.estimate(1), 11);
}

#[test]
fn frequent_key_survives_admission() {
    let mut cache = cache_of(2);
    assert!(matches!(cache.insert(1, "a"), InsertOutcome::Inserted));
    assert!(matches!(cache.insert(2, "b"), InsertOutcome::Inserted));
    assert_eq!(cache.len(), 2);
    for _ in 0..10 {
        cache.get(&1);
    }
    let outcome = cache.insert(3, "c");
    assert_eq!(cache.get(&1), Some(Arc::new("a")));
    match outcome {
        InsertOutcome::Rejected => {
            assert_eq!(cache.get(&2), Some(Arc::new("b")));
            assert_eq!(cache.get(&3), None);
        },
        InsertOutcome::Inserted => {
            assert_eq!(cache.get(&2), None);
            assert_eq!(cache.get(&3), Some(Arc::new("c")));
        },
        other => panic!("a new key cannot be {:?}", other),
    }
    assert_eq!(cache.len(), 2);
}

#[test]
fn tie_keeps_the_existing_entry() {
    let mut cache = cache_of(1);
    assert!(matches!(cache.insert(1, "a"), InsertOutcome::Inserted));
    assert!(matches!(cache.insert(2, "b"), InsertOutcome::Rejected));
    assert_eq!(cache.get(&1), Some(Arc::new("a")));
    assert_eq!(cache.get(&2), None);
    assert_eq!(cache.len(), 1);
}

#[test]
fn more_frequent_key_evicts_the_victim() {
    let mut cache = cache_of(1);
    cache.insert(1, "a");
    for _ in 0..3 {
        assert_eq!(cache.get(&2), None);
    }
    assert_eq!(cache.estimate(1), 1);
    assert_eq!(cache.estimate(2), 3);
    assert!(matches!(cache.insert(2, "b"), InsertOutcome::Inserted));
    assert_eq!(cache.get(&1), None);
    assert_eq!(cache.get(&2), Some(Arc::new("b")));
    assert_eq!(cache.len(), 1);
}

#[test]
fn victim_is_the_least_frequent_of_the_candidates() {
    let mut cache: Inner<u64> = Inner::new(3, wide_sketch()).unwrap();
    for key in [10u64, 20, 30] {
        cache.insert(key, key);
    }
    for _ in 0..4 {
        cache.get(&10);
        cache.get(&30);
    }
    cache.get(&20);
    for _ in 0..2 {
        cache.get(&40);
    }
    // 10 and 30 stand at 5, 20 at 2, and 40 comes in at 3.
    assert!(matches!(cache.insert(40, 40), InsertOutcome::Inserted));
    assert_eq!(cache.get(&20), None);
    assert_eq!(cache.get(&10), Some(Arc::new(10)));
    assert_eq!(cache.get(&30), Some(Arc::new(30)));
    assert_eq!(cache.get(&40), Some(Arc::new(40)));
}

#[test]
fn candidate_nearest_to_the_hand_leaves_on_a_tie_among_victims() {
    let mut cache: Inner<u64> = Inner::new(3, wide_sketch()).unwrap();
    for key in [10u64, 20, 30] {
        cache.insert(key, key);
    }
    cache.get(&40);
    assert!(matches!(cache.insert(40, 40), InsertOutcome::Inserted));
    assert_eq!(cache.get(&10), None);
    assert_eq!(cache.get(&20), Some(Arc::new(20)));
    assert_eq!(cache.get(&30), Some(Arc::new(30)));
    // Keys 30, 20 and 40 now fill the slots, each at 2; the hand has moved
    // on to the second slot.
    assert_eq!(cache.estimate(20), 2);
    assert_eq!(cache.estimate(30), 2);
    assert_eq!(cache.estimate(40), 2);
    cache.get(&50);
    assert!(matches!(cache.insert(50, 50), InsertOutcome::Rejected));
    cache.get(&50);
    assert!(matches!(cache.insert(50, 50), InsertOutcome::Inserted));
    assert_eq!(cache.get(&40), None);
    assert_eq!(cache.get(&20), Some(Arc::new(20)));
    assert_eq!(cache.get(&30), Some(Arc::new(30)));
    assert_eq!(cache.get(&50), Some(Arc::new(50)));
}

#[test]
fn only_eight_entries_are_candidates_and_the_hand_moves_on() {
    let mut cache: Inner<u64> = Inner::new(10, wide_sketch()).unwrap();
    for key in 0..10u64 {
        cache.insert(key, key);
    }
    for key in 0..8u64 {
        for _ in 0..5 {
            cache.get(&key);
        }
    }
    for _ in 0..3 {
        cache.get(&100);
    }
    // The candidates stand at 6; keys 8 and 9 stand at 1 but are not sampled.
    assert!(matches!(cache.insert(100, 100), InsertOutcome::Rejected));
    assert_eq!(cache.estimate(100), 4);
    assert_eq!(cache.len(), 10);
    for key in 0..10u64 {
        assert_eq!(cache.estimate(key), if key < 8 { 6 } else { 1 });
    }
    // The next sample starts one slot on and reaches key 8.
    assert!(matches!(cache.insert(100, 100), InsertOutcome::Inserted));
    assert_eq!(cache.get(&8), None);
    assert_eq!(cache.get(&0), Some(Arc::new(0)));
    assert_eq!(cache.get(&9), Some(Arc::new(9)));
    assert_eq!(cache.get(&100), Some(Arc::new(100)));
    assert_eq!(cache.len(), 10);
}

#[test]
fn rejected_insertion_leaves_the_entries_alone() {
    let mut cache: Inner<u64> = Inner::new(3, wide_sketch()).unwrap();
    for key in [1u64, 2, 3] {
        cache.insert(key, key * 10);
        cache.get(&key);
    }
    for newcomer in 10..30u64 {
        assert!(matches!(cache.insert(newcomer, 0), InsertOutcome::Rejected));
        assert_eq!(cache.len(), 3);
    }
    for key in [1u64, 2, 3] {
        assert_eq!(cache.get(&key), Some(Arc::new(key * 10)));
    }
}

#[test]
fn remove_returns_the_prior_value_and_the_key_is_gone() {
    let mut cache = cache_of(2);
    cache.insert(1, "a");
    assert_eq!(cache.remove(&1), Some(Arc::new("a")));
    assert_eq!(cache.get(&1), None);
    assert_eq!(cache.len(), 0);
}

#[test]
fn remove_of_an_absent_key_changes_nothing() {
    let mut cache = cache_of(2);
    cache.insert(1, "a");
    assert_eq!(cache.remove(&2), None);
    assert_eq!(cache.len(), 1);
    assert_eq!(cache.estimate(1), 1);
    assert_eq!(cache.estimate(2), 0);
    assert_eq!(cache.get(&1), Some(Arc::new("a")));
}

#[test]
fn removal_makes_room_again() {
    let mut cache = cache_of(1);
    cache.insert(1, "a");
    cache.remove(&1);
    assert!(matches!(cache.insert(2, "b"), InsertOutcome::Inserted));
    assert_eq!(cache.get(&2), Some(Arc::new("b")));
}
