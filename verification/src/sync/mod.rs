//! The two synchronization primitives every kernel singleton rests on: a
//! spinlock and a one-time initializer.
//!
//! Each primitive comes in three parts. The decisions of its protocol are
//! small functions over plain values ([`mutex::LockPhase`],
//! [`once::InitPhase`]), so that code which owns a real atomic word can ask
//! them what to do next. A single-owner cell ([`mutex::Mutex`],
//! [`once::Once`]) runs the protocol against a word of its own, as a whole
//! or one atomic step at a time, so that calls can be interleaved by hand.
//! A model of any number of concurrent callers ([`lock_race`],
//! [`once_race`]), whose steps are those same steps, carries the proofs
//! about races, and comes with a function that runs real calls in any given
//! order and is proved to keep to the model.

pub mod lock_race;
pub mod mutex;
pub mod once;
pub mod once_race;
