use std::sync::atomic::{AtomicU32, Ordering};
use vstd::prelude::*;

verus! {

/// A shared counter handing out successive identifiers, starting at 1.
///
/// The count lives in an atomic, so `next` may be called concurrently from
/// several threads through a shared reference; on overflow it wraps around.
pub struct Counter(AtomicU32);

impl Counter {
    /// Creates a counter whose first identifier is 1.
    pub fn new() -> (counter: Self) {
        Counter(AtomicU32::new(1))
    }

    /// Returns the current identifier and advances the counter by one.
    ///
    /// The value returned depends on how many calls, from any thread, came
    /// before this one, so nothing is stated of it here.
    pub fn next(&self) -> u32 {
        self.0.fetch_add(1, Ordering::Relaxed)
    }
}

} // verus!
