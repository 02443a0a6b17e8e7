//! The injected random capability.
//!
//! The engine never generates randomness itself: the host supplies a source
//! of draws, and every placement decision is verified for every value the
//! source may hand back.

use vstd::prelude::*;

verus! {

/// A host-supplied source of uniform random draws.
///
/// `rnd(max)` returns some value in `[0, max)`; nothing else is assumed of
/// it, so the engine's contracts hold for every implementation, including a
/// deterministic test double.
pub trait RandomSource {
    /// Draws a value in `[0, max)`.
    fn rnd(&mut self, max: usize) -> (r: usize)
        requires
            max >= 1,
        ensures
            r < max,
    ;
}

/// A deterministic random source: hands out a fixed list of values in
/// order, reduced modulo the requested bound, cycling when exhausted.
/// With an empty list every draw is 0.
pub struct FixedRandom {
    pub values: Vec<usize>,
    pub next: usize,
}

impl FixedRandom {
    /// A source that replays `values` from the start.
    pub fn new(values: Vec<usize>) -> (r: FixedRandom)
        ensures
            r.values@ == values@,
            r.next == 0,
    {
        FixedRandom { values, next: 0 }
    }
}

impl RandomSource for FixedRandom {
    fn rnd(&mut self, max: usize) -> (r: usize) {
        if self.values.len() == 0 {
            0
        } else {
            let idx = self.next % self.values.len();
            let val = self.values[idx];
            self.next = if self.next == usize::MAX {
                0
            } else {
                self.next + 1
            };
            val % max
        }
    }
}

} // verus!
