//! Entropy for the kernel.

pub mod hw;

use vstd::prelude::*;

verus! {

/// After how many bytes a stream generator takes a new seed.
pub const RESEED: usize = 2048;

/// Counts the bytes that a stream generator has given out since its last
/// seed.
#[derive(Clone, Copy, Debug, PartialEq, Eq, Structural)]
pub struct ReseedCounter {
    rounds: usize,
}

impl View for ReseedCounter {
    type V = int;

    closed spec fn view(&self) -> int {
        self.rounds as int
    }
}

impl ReseedCounter {
    /// The count stays below the limit.
    pub open spec fn wf(&self) -> bool {
        0 <= self@ < RESEED
    }

    /// A counter at 0.
    pub fn new() -> (counter: Self)
        ensures
            counter.wf(),
            counter@ == 0,
    {
        ReseedCounter { rounds: 0 }
    }

    /// Counts `bytes` more bytes. When that brings the count to the limit or
    /// beyond, a new seed is due: the result is `true` and the count starts
    /// again at 0.
    pub fn count(&mut self, bytes: usize) -> (due: bool)
        requires
            old(self).wf(),
        ensures
            final(self).wf(),
            due == (old(self)@ + bytes >= RESEED),
            final(self)@ == if due {
                0
            } else {
                old(self)@ + bytes
            },
    {
        match self.rounds.checked_add(bytes) {
            Some(rounds) => {
                if rounds >= RESEED {
                    self.rounds = 0;
                    true
                } else {
                    self.rounds = rounds;
                    false
                }
            },
            None => {
                self.rounds = 0;
                true
            },
        }
    }
}

} // verus!
