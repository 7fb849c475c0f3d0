//! Two storage disciplines for one favourite-number collection: one owned
//! exclusively and mutated in place, one shared between threads behind a lock
//! and an atomic maximum. Both delegate their logic to `crate::numbers`.

use std::sync::atomic::{AtomicU64, Ordering};
use vstd::prelude::*;
use vstd::rwlock::{RwLock, RwLockPredicate};

use crate::numbers::{
    is_min_or_zero, is_sorted, is_sorting_of, larger, lemma_max_independent_of_order,
    lemma_max_or_zero_push, lemma_sorting_unique, max_or_zero,
    min_or_zero, quick_sort_numbers, copy_numbers,
};

verus! {

/// The values in insertion order and their running maximum, owned by one
/// caller and mutated without synchronization.
pub struct WasmFavoriteNumbers {
    pub numbers: Vec<u64>,
    pub max_number: u64,
}

impl WasmFavoriteNumbers {
    /// The maximum agrees with the stored values.
    pub open spec fn wf(&self) -> bool {
        self.max_number == max_or_zero(self.numbers@)
    }

    /// An empty collection whose maximum is `0`.
    pub fn new() -> (r: Self)
        ensures
            r.numbers@ == Seq::<u64>::empty(),
            r.max_number == 0,
            r.wf(),
    {
        WasmFavoriteNumbers { numbers: Vec::new(), max_number: 0 }
    }

    /// Appends `number` and raises the maximum to it when it is larger.
    pub fn add_number(&mut self, number: u64)
        ensures
            final(self).numbers@ == old(self).numbers@.push(number),
            final(self).max_number == larger(old(self).max_number, number),
            old(self).wf() ==> final(self).wf(),
    {
        proof {
            lemma_max_or_zero_push(self.numbers@, number);
        }
        self.numbers.push(number);
        if self.max_number < number {
            self.max_number = number;
        }
    }

    /// The least stored value, or `0` when nothing is stored.
    pub fn find_min(&self) -> (r: u64)
        ensures
            is_min_or_zero(r, self.numbers@),
    {
        min_or_zero(&self.numbers)
    }

    /// `numbers` sorted when given, else the stored values sorted; the stored
    /// values are left as they are.
    pub fn quick_sort(&self, numbers: Option<Vec<u64>>) -> (r: Vec<u64>)
        ensures
            numbers matches Some(v) ==> is_sorting_of(r@, v@),
            numbers is None ==> is_sorting_of(r@, self.numbers@),
    {
        match numbers {
            Some(v) => quick_sort_numbers(v),
            None => quick_sort_numbers(copy_numbers(&self.numbers)),
        }
    }
}

/// Two collections that were given the same values, each as often, in any
/// order, have the same maximum and sort to the same list: the order in which
/// `add_number` calls come leaves nothing behind but the insertion order.
pub proof fn lemma_add_order_irrelevant(
    a: WasmFavoriteNumbers,
    b: WasmFavoriteNumbers,
    sorted_a: Seq<u64>,
    sorted_b: Seq<u64>,
)
    requires
        a.wf(),
        b.wf(),
        a.numbers@.to_multiset() == b.numbers@.to_multiset(),
        is_sorting_of(sorted_a, a.numbers@),
        is_sorting_of(sorted_b, b.numbers@),
    ensures
        a.max_number == b.max_number,
        sorted_a == sorted_b,
{
    lemma_max_independent_of_order(a.numbers@, b.numbers@);
    lemma_sorting_unique(a.numbers@, sorted_a, sorted_b);
}

/// What the lock of a shared collection may hold: any list of values.
pub struct AnyNumbers;

impl RwLockPredicate<Vec<u64>> for AnyNumbers {
    open spec fn inv(self, v: Vec<u64>) -> bool {
        true
    }
}

/// The values in insertion order and their running maximum, shared between
/// threads: appends are mutually exclusive under a reader-writer lock, and the
/// maximum is raised atomically, so that no concurrent `add_number` loses an
/// update.
pub struct FavoriteNumbers {
    pub numbers: RwLock<Vec<u64>, AnyNumbers>,
    pub max_number: AtomicU64,
}

impl FavoriteNumbers {
    /// An empty collection whose maximum is `0`.
    pub fn new() -> (r: Self) {
        FavoriteNumbers {
            numbers: RwLock::new(Vec::new(), Ghost(AnyNumbers)),
            max_number: AtomicU64::new(0),
        }
    }

    /// Appends `number` under the write lock, then raises the maximum to it
    /// with an atomic fetch-max.
    pub fn add_number(&self, number: u64) {
        let (mut stored, handle) = self.numbers.acquire_write();
        stored.push(number);
        handle.release_write(stored);
        self.max_number.fetch_max(number, Ordering::Relaxed);
    }

    /// The least value stored at the moment of the call, or `0` when nothing
    /// is stored.
    pub fn find_min(&self) -> (r: u64) {
        let handle = self.numbers.acquire_read();
        let r = min_or_zero(handle.borrow());
        handle.release_read();
        r
    }

    /// `numbers` sorted when given, else a snapshot of the stored values
    /// sorted; the stored values are left as they are.
    pub fn quick_sort(&self, numbers: Option<Vec<u64>>) -> (r: Vec<u64>)
        ensures
            is_sorted(r@),
            numbers matches Some(v) ==> is_sorting_of(r@, v@),
    {
        match numbers {
            Some(v) => quick_sort_numbers(v),
            None => {
                let handle = self.numbers.acquire_read();
                let snapshot = copy_numbers(handle.borrow());
                handle.release_read();
                quick_sort_numbers(snapshot)
            },
        }
    }
}

} // verus!
