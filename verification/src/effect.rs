//! Effect dependencies: the hash that stands for a dependency list, and
//! the decision whether an effect runs again.

use vstd::prelude::*;
use std::collections::hash_map::DefaultHasher;
use std::hash::{Hash, Hasher};

verus! {

/// Feeds a value into a hasher (std's `Hash::hash`). What is fed depends
/// on the value's `Hash` implementation, so the contract states nothing.
#[verifier::external_body]
fn hash_into<T: Hash>(value: &T, state: &mut DefaultHasher) {
    value.hash(state)
}

/// Types that can be used as effect dependencies.
pub trait Deps {
    /// A hash standing for the dependency values.
    fn to_hash(&self) -> u64;
}

impl Deps for () {
    /// No dependencies hash to 0.
    fn to_hash(&self) -> (h: u64)
        ensures
            h == 0,
    {
        0
    }
}

impl<T: Hash> Deps for (T,) {
    fn to_hash(&self) -> u64 {
        let mut hasher = DefaultHasher::new();
        hash_into(&self.0, &mut hasher);
        hasher.finish()
    }
}

impl<T1: Hash, T2: Hash> Deps for (T1, T2) {
    fn to_hash(&self) -> u64 {
        let mut hasher = DefaultHasher::new();
        hash_into(&self.0, &mut hasher);
        hash_into(&self.1, &mut hasher);
        hasher.finish()
    }
}

impl<T1: Hash, T2: Hash, T3: Hash> Deps for (T1, T2, T3) {
    fn to_hash(&self) -> u64 {
        let mut hasher = DefaultHasher::new();
        hash_into(&self.0, &mut hasher);
        hash_into(&self.1, &mut hasher);
        hash_into(&self.2, &mut hasher);
        hasher.finish()
    }
}

impl<T1: Hash, T2: Hash, T3: Hash, T4: Hash> Deps for (T1, T2, T3, T4) {
    fn to_hash(&self) -> u64 {
        let mut hasher = DefaultHasher::new();
        hash_into(&self.0, &mut hasher);
        hash_into(&self.1, &mut hasher);
        hash_into(&self.2, &mut hasher);
        hash_into(&self.3, &mut hasher);
        hasher.finish()
    }
}

impl<T: Hash> Deps for Vec<T> {
    /// The items are fed in order, without their count.
    fn to_hash(&self) -> u64 {
        let mut hasher = DefaultHasher::new();
        let mut i: usize = 0;
        while i < self.len()
            decreases self.len() - i,
        {
            hash_into(&self[i], &mut hasher);
            i = i + 1;
        }
        hasher.finish()
    }
}

/// Whether an effect runs: on the first render (no previous hash) and
/// whenever the dependency hash differs from the previous one.
pub fn effect_should_run(previous: Option<u64>, current: u64) -> (r: bool)
    ensures
        r == (previous != Some(current)),
{
    match previous {
        None => true,
        Some(prev) => prev != current,
    }
}

} // verus!
