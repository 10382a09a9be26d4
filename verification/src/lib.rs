//! The memory-management and synchronization core of a freestanding kernel,
//! and the pure parts of the drivers around it.
//!
//! Everything here is safe Rust over plain values. A physical frame and a
//! virtual page are addresses, the page table is a list of translations, a
//! free list is a stack of block addresses, and the synchronization
//! primitives are state machines. What touches the machine is left to the
//! kernel binary: it reads the control registers and the clock, carries out
//! the atomic accesses that a protocol asks for, and writes what was
//! decided here to the page tables and the devices.
//!
//! - [`sync`]: the spinlock and the one-time initializer, each with a model
//!   of concurrent callers and the proofs about races.
//! - [`mem`]: the frame allocator over the firmware memory map, the view of
//!   the page tables, and the heap: size-class free lists in front of a
//!   first-fit allocator.
//! - [`vga`]: the text screen.
//! - [`rand`]: the entropy generator that measures the jitter of the CPU.
//! - [`interrupts`], [`qemu`], [`test`]: numbers and words that the drivers
//!   share.

pub mod interrupts;
pub mod mem;
pub mod qemu;
pub mod rand;
pub mod sync;
pub mod test;
pub mod vga;
