//! A spinlock: one atomic flag in front of one value.

use vstd::prelude::*;
use std::ops::Deref;
use std::ops::DerefMut;

verus! {

/// Where one caller of `lock` stands.
#[derive(Clone, Copy, Debug, PartialEq, Eq, Structural)]
pub enum LockPhase {
    /// Swap `true` into the flag and look at what was there.
    Acquiring,
    /// The swap found `false`: the caller holds the lock, and its guard is
    /// the only way to the value.
    Holding,
    /// The guard is gone and has stored `false` in the flag.
    Released,
}

impl LockPhase {
    /// The phase after a swap that found `previous` in the flag.
    pub open spec fn spec_after_swap(self, previous: bool) -> LockPhase {
        if previous {
            LockPhase::Acquiring
        } else {
            LockPhase::Holding
        }
    }

    /// Decides what follows a swap that found `previous` in the flag: the
    /// lock is taken if it was free, and the caller spins and swaps again
    /// if it was not. There is no queue and no fairness.
    #[verifier::when_used_as_spec(spec_after_swap)]
    pub fn after_swap(self, previous: bool) -> (next: LockPhase)
        requires
            self is Acquiring,
        ensures
            next == self.spec_after_swap(previous),
    {
        if previous {
            LockPhase::Acquiring
        } else {
            LockPhase::Holding
        }
    }
}

/// One racer's way through the lock, taken step by step: its call of `lock`
/// swap by swap, then its hold on the lock, then the release.
#[derive(Debug)]
pub struct LockCall {
    phase: LockPhase,
}

impl LockCall {
    /// Where the racer stands.
    pub closed spec fn spec_phase(&self) -> LockPhase {
        self.phase
    }

    /// A racer that is about to swap for the first time.
    pub fn new() -> (call: Self)
        ensures
            call.phase() is Acquiring,
    {
        LockCall { phase: LockPhase::Acquiring }
    }

    /// Where the racer stands.
    #[verifier::when_used_as_spec(spec_phase)]
    pub fn phase(&self) -> (phase: LockPhase)
        ensures
            phase == self.spec_phase(),
    {
        self.phase
    }
}

/// A value behind a lock flag.
#[derive(Debug)]
pub struct Mutex<T> {
    lock: bool,
    val: T,
}

/// Exclusive access to the value of a locked [`Mutex`]. It borrows the mutex
/// for as long as it lives; [`MutexGuard::unlock`] ends it and frees the lock.
pub struct MutexGuard<'a, T> {
    /// The mutex that this guard has locked.
    pub mutex: &'a mut Mutex<T>,
}

impl<T> Mutex<T> {
    /// Whether the flag is set.
    pub closed spec fn spec_is_locked(&self) -> bool {
        self.lock
    }

    /// The protected value.
    pub closed spec fn value(&self) -> T {
        self.val
    }

    /// An unlocked mutex around `val`.
    pub fn new(val: T) -> (mutex: Self)
        ensures
            !mutex.is_locked(),
            mutex.value() == val,
    {
        Mutex { lock: false, val }
    }

    /// Whether the flag is set.
    #[verifier::when_used_as_spec(spec_is_locked)]
    pub fn is_locked(&self) -> (locked: bool)
        ensures
            locked == self.spec_is_locked(),
    {
        self.lock
    }

    /// One swap of a racer that is acquiring: sets the flag, and the racer
    /// holds the lock if the flag was not set before.
    pub fn swap(&mut self, call: &mut LockCall)
        requires
            old(call).phase() is Acquiring,
        ensures
            final(self).is_locked(),
            final(self).value() == old(self).value(),
            final(call).phase() == old(call).phase().after_swap(old(self).is_locked()),
    {
        let previous = self.lock;
        self.lock = true;
        call.phase = call.phase.after_swap(previous);
    }

    /// The value, for the racer that holds the lock.
    pub fn held(&mut self, call: &LockCall) -> (value: &mut T)
        requires
            call.phase() is Holding,
            old(self).is_locked(),
        ensures
            *value == old(self).value(),
            final(self).value() == *final(value),
            final(self).is_locked(),
    {
        &mut self.val
    }

    /// The release of the racer that holds the lock: clears the flag.
    pub fn release(&mut self, call: &mut LockCall)
        requires
            old(call).phase() is Holding,
            old(self).is_locked(),
        ensures
            !final(self).is_locked(),
            final(self).value() == old(self).value(),
            final(call).phase() is Released,
    {
        self.lock = false;
        call.phase = LockPhase::Released;
    }

    /// Takes the lock and hands out the guard.
    ///
    /// The lock is not reentrant: on a mutex that is already locked the
    /// caller would swap and spin for ever, so such a call is ruled out.
    pub fn lock(&mut self) -> (guard: MutexGuard<'_, T>)
        requires
            !old(self).is_locked(),
        ensures
            guard.mutex.is_locked(),
            guard.mutex.value() == old(self).value(),
            *final(self) == *final(guard.mutex),
    {
        let mut call = LockCall::new();
        self.swap(&mut call);
        MutexGuard { mutex: self }
    }
}

impl<'a, T> MutexGuard<'a, T> {
    /// Ends the guard: stores `false` in the flag and leaves the value as
    /// the guard last had it.
    pub fn unlock(self)
        ensures
            !final(self.mutex).is_locked(),
            final(self.mutex).value() == old(self.mutex).value(),
    {
        self.mutex.lock = false;
    }
}

impl<'a, T> Deref for MutexGuard<'a, T> {
    type Target = T;

    fn deref(&self) -> (value: &T)
        ensures
            *value == old(self.mutex).value(),
    {
        &self.mutex.val
    }
}

impl<'a, T> DerefMut for MutexGuard<'a, T> {
    fn deref_mut(&mut self) -> (value: &mut T)
        ensures
            *value == old(self).mutex.value(),
            final(self).mutex.value() == *final(value),
            final(self).mutex.is_locked() == old(self).mutex.is_locked(),
            *final(final(self).mutex) == *final(old(self).mutex),
    {
        &mut self.mutex.val
    }
}

} // verus!
