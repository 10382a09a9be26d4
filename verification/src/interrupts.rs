//! The numbers of the hardware interrupts.

use vstd::prelude::*;

verus! {

/// The vector at which the first interrupt controller starts.
pub const PIC_1_OFFSET: u8 = 32;

/// The vector at which the second interrupt controller starts.
pub const PIC_2_OFFSET: u8 = PIC_1_OFFSET + 8;

/// A hardware interrupt.
#[derive(Clone, Copy, Debug, PartialEq, Eq, Structural)]
pub enum InterruptIndex {
    Timer,
    Keyboard,
}

impl InterruptIndex {
    /// The interrupt's vector: the timer comes first on the first
    /// controller, the keyboard after it.
    pub open spec fn spec_vector(self) -> u8 {
        match self {
            InterruptIndex::Timer => PIC_1_OFFSET,
            InterruptIndex::Keyboard => (PIC_1_OFFSET + 1) as u8,
        }
    }

    /// The interrupt's vector.
    #[verifier::when_used_as_spec(spec_vector)]
    pub fn vector(self) -> (vector: u8)
        ensures
            vector == self.spec_vector(),
    {
        match self {
            InterruptIndex::Timer => PIC_1_OFFSET,
            InterruptIndex::Keyboard => PIC_1_OFFSET + 1,
        }
    }
}

impl From<InterruptIndex> for usize {
    fn from(i: InterruptIndex) -> (index: usize) {
        i.vector() as usize
    }
}

impl vstd::std_specs::convert::FromSpecImpl<InterruptIndex> for usize {
    open spec fn obeys_from_spec() -> bool {
        true
    }

    open spec fn from_spec(i: InterruptIndex) -> usize {
        i.spec_vector() as usize
    }
}

} // verus!
