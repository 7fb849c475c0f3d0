use std::sync::atomic::Ordering;

use playground::numbers::{min_or_zero, quick_sort_numbers};
use playground::{FavoriteNumbers, WasmFavoriteNumbers};

#[test]
fn sort_with_duplicates_and_last_pivot() {
    assert_eq!(quick_sort_numbers(vec![3, 1, 3, 2]), vec![1, 2, 3, 3]);
}

#[test]
fn sort_empty_and_single() {
    assert_eq!(quick_sort_numbers(vec![]), Vec::<u64>::new());
    assert_eq!(quick_sort_numbers(vec![42]), vec![42]);
}

#[test]
fn sort_reverse_sorted_input() {
    let input: Vec<u64> = (0..200).rev().collect();
    let expected: Vec<u64> = (0..200).collect();
    assert_eq!(quick_sort_numbers(input), expected);
}

#[test]
fn sort_extreme_values() {
    assert_eq!(quick_sort_numbers(vec![u64::MAX, 0, u64::MAX, 7, 0]), vec![0, 0, 7, u64::MAX, u64::MAX]);
}

#[test]
fn sort_is_idempotent() {
    let once = quick_sort_numbers(vec![9, 4, 4, 1, 8, 0, 3]);
    let twice = quick_sort_numbers(once.clone());
    assert_eq!(once, twice);
    assert_eq!(once, vec![0, 1, 3, 4, 4, 8, 9]);
}

#[test]
fn min_of_empty_is_zero() {
    assert_eq!(min_or_zero(&vec![]), 0);
}

#[test]
fn min_of_values() {
    assert_eq!(min_or_zero(&vec![5, 2, 9]), 2);
}

#[test]
fn exclusive_collection_tracks_min_max_and_order() {
    let mut f = WasmFavoriteNumbers::new();
    assert_eq!(f.find_min(), 0);
    assert_eq!(f.max_number, 0);
    f.add_number(5);
    f.add_number(2);
    f.add_number(9);
    assert_eq!(f.numbers, vec![5, 2, 9]);
    assert_eq!(f.max_number, 9);
    assert_eq!(f.find_min(), 2);
    assert_eq!(f.quick_sort(None), vec![2, 5, 9]);
    assert_eq!(f.numbers, vec![5, 2, 9]);
    assert_eq!(f.quick_sort(Some(vec![3, 1, 3, 2])), vec![1, 2, 3, 3]);
}

#[test]
fn exclusive_collection_max_independent_of_order() {
    let mut a = WasmFavoriteNumbers::new();
    let mut b = WasmFavoriteNumbers::new();
    for v in [4, 17, 3, 17, 8] {
        a.add_number(v);
    }
    for v in [8, 17, 17, 3, 4] {
        b.add_number(v);
    }
    assert_eq!(a.max_number, 17);
    assert_eq!(b.max_number, 17);
    assert_eq!(a.quick_sort(None), b.quick_sort(None));
}

#[test]
fn shared_collection_tracks_min_max_and_order() {
    let f = FavoriteNumbers::new();
    assert_eq!(f.find_min(), 0);
    assert_eq!(f.max_number.load(Ordering::SeqCst), 0);
    f.add_number(5);
    f.add_number(2);
    f.add_number(9);
    assert_eq!(f.max_number.load(Ordering::SeqCst), 9);
    assert_eq!(f.find_min(), 2);
    assert_eq!(f.quick_sort(None), vec![2, 5, 9]);
    assert_eq!(f.quick_sort(Some(vec![3, 1, 3, 2])), vec![1, 2, 3, 3]);
}

#[test]
fn shared_collection_interleaved_adds_lose_nothing() {
    let f = FavoriteNumbers::new();
    let g = FavoriteNumbers::new();
    for k in 0..50u64 {
        for t in 0..4u64 {
            f.add_number(t * 1000 + k);
        }
    }
    for t in (0..4u64).rev() {
        for k in 0..50u64 {
            g.add_number(t * 1000 + k);
        }
    }
    let mut expected: Vec<u64> = (0..4u64).flat_map(|t| (0..50u64).map(move |k| t * 1000 + k)).collect();
    expected.sort();
    assert_eq!(f.quick_sort(None), expected);
    assert_eq!(g.quick_sort(None), expected);
    assert_eq!(f.max_number.load(Ordering::SeqCst), 3049);
    assert_eq!(g.max_number.load(Ordering::SeqCst), 3049);
    assert_eq!(f.find_min(), 0);
}
