use count_min_sketch::CountMinSketch8;
use lfu_cache::policy::{
    admission, advance, least_frequent, sample_frequencies, select_victim, slot_of, SAMPLE_SIZE,
};
use lfu_cache::{FrequencyEstimator, StorageMap};
use std::sync::Arc;

fn counted(keys: u64) -> (StorageMap<u64>, FrequencyEstimator) {
    let sketch: CountMinSketch8<u64> = CountMinSketch8::new(1 << 16, 0.999, 2.0).unwrap();
    let mut estimator = FrequencyEstimator::new(sketch, 1000);
    let mut storage = StorageMap::new();
    for key in 0..keys {
        storage.insert(key, Arc::new(key));
        for _ in 0..key + 1 {
            estimator.increment(key);
        }
    }
    (storage, estimator)
}

#[test]
fn sample_holds_eight_candidates() {
    assert_eq!(SAMPLE_SIZE, 8);
}

#[test]
fn no_frequencies_no_least() {
    assert_eq!(least_frequent(&Vec::new()), None);
}

#[test]
fn single_frequency_is_the_least() {
    assert_eq!(least_frequent(&vec![200]), Some(0));
}

#[test]
fn least_frequent_holds_the_least_frequency() {
    assert_eq!(least_frequent(&vec![5, 3, 9, 4]), Some(1));
    assert_eq!(least_frequent(&vec![5, 3, 9, 0]), Some(3));
    assert_eq!(least_frequent(&vec![0, 255, 255]), Some(0));
}

#[test]
fn first_of_equal_frequencies_is_the_least() {
    assert_eq!(least_frequent(&vec![7, 2, 2, 9, 2]), Some(1));
    assert_eq!(least_frequent(&vec![4, 4, 4]), Some(0));
}

#[test]
fn admission_needs_a_strictly_higher_frequency() {
    assert!(admission(2, 1));
    assert!(admission(255, 254));
    assert!(!admission(1, 1));
    assert!(!admission(0, 0));
    assert!(!admission(255, 255));
    assert!(!admission(1, 2));
}

#[test]
fn candidates_are_counted_from_the_hand_and_wrap() {
    assert_eq!(slot_of(10, 0, 0), Some(0));
    assert_eq!(slot_of(10, 0, 7), Some(7));
    assert_eq!(slot_of(10, 4, 5), Some(9));
    assert_eq!(slot_of(10, 4, 6), Some(0));
    assert_eq!(slot_of(10, 9, 9), Some(8));
    assert_eq!(slot_of(1, 0, 0), Some(0));
}

#[test]
fn hand_past_the_last_slot_counts_from_the_first() {
    assert_eq!(slot_of(10, 10, 3), Some(3));
    assert_eq!(slot_of(10, usize::MAX, 9), Some(9));
}

#[test]
fn no_candidate_beyond_the_number_of_slots() {
    assert_eq!(slot_of(10, 0, 10), None);
    assert_eq!(slot_of(0, 0, 0), None);
    assert_eq!(slot_of(usize::MAX, usize::MAX - 1, usize::MAX - 1), Some(usize::MAX - 2));
}

#[test]
fn hand_moves_on_by_one_and_wraps() {
    assert_eq!(advance(10, 0), 1);
    assert_eq!(advance(10, 8), 9);
    assert_eq!(advance(10, 9), 0);
    assert_eq!(advance(10, 10), 1);
    assert_eq!(advance(10, 400), 1);
    assert_eq!(advance(1, 0), 0);
    assert_eq!(advance(0, 0), 0);
    assert_eq!(advance(0, 5), 0);
    assert_eq!(advance(usize::MAX, usize::MAX - 1), 0);
}

#[test]
fn sample_reads_eight_slots_from_the_hand() {
    let (mut storage, estimator) = counted(12);
    assert_eq!(sample_frequencies(&storage, &estimator, 0), vec![1, 2, 3, 4, 5, 6, 7, 8]);
    assert_eq!(sample_frequencies(&storage, &estimator, 3), vec![4, 5, 6, 7, 8, 9, 10, 11]);
    assert_eq!(sample_frequencies(&storage, &estimator, 9), vec![10, 11, 12, 1, 2, 3, 4, 5]);
    assert_eq!(sample_frequencies(&storage, &estimator, 12), vec![1, 2, 3, 4, 5, 6, 7, 8]);
    for key in 3..12u64 {
        storage.remove(&key);
    }
    assert_eq!(sample_frequencies(&storage, &estimator, 0), vec![1, 2, 3]);
    assert_eq!(sample_frequencies(&storage, &estimator, 2), vec![3, 1, 2]);
}

#[test]
fn sample_of_an_empty_storage_is_empty() {
    let (storage, estimator) = counted(0);
    assert_eq!(sample_frequencies(&storage, &estimator, 0), Vec::<u8>::new());
    assert_eq!(select_victim(&storage, &estimator, 0), None);
}

#[test]
fn victim_is_the_least_frequent_key_of_the_sample() {
    let (storage, mut estimator) = counted(12);
    assert_eq!(select_victim(&storage, &estimator, 0), Some((0, 1)));
    assert_eq!(select_victim(&storage, &estimator, 2), Some((2, 3)));
    assert_eq!(select_victim(&storage, &estimator, 7), Some((0, 1)));
    for _ in 0..4 {
        estimator.increment(0);
    }
    assert_eq!(select_victim(&storage, &estimator, 7), Some((1, 2)));
    assert_eq!(select_victim(&storage, &estimator, 11), Some((1, 2)));
}

#[test]
fn victim_on_a_tie_is_the_nearest_to_the_hand() {
    let (storage, mut estimator) = counted(4);
    for _ in 0..3 {
        estimator.increment(0);
    }
    for _ in 0..2 {
        estimator.increment(1);
    }
    estimator.increment(2);
    // every key stands at 4
    assert_eq!(select_victim(&storage, &estimator, 0), Some((0, 4)));
    assert_eq!(select_victim(&storage, &estimator, 2), Some((2, 4)));
    assert_eq!(select_victim(&storage, &estimator, 3), Some((3, 4)));
}
