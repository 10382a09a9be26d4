//! A cell that is read and written as a whole.

use vstd::prelude::*;

verus! {

/// A value that is only ever read or replaced as a whole. Device memory is
/// laid out in such cells; here the cell is an ordinary value, and writing
/// it through to a device is for the code that owns the device.
#[derive(Clone, Copy, Debug)]
pub struct Volatile<T: Copy>(T);

impl<T: Copy> View for Volatile<T> {
    type V = T;

    closed spec fn view(&self) -> T {
        self.0
    }
}

impl<T: Copy> Volatile<T> {
    /// A cell that holds `val`.
    pub fn new(val: T) -> (cell: Self)
        ensures
            cell@ == val,
    {
        Volatile(val)
    }

    /// The value of the cell.
    pub fn read(&self) -> (val: T)
        ensures
            val == self@,
    {
        self.0
    }

    /// Replaces the value of the cell.
    pub fn write(&mut self, val: T)
        ensures
            final(self)@ == val,
    {
        self.0 = val;
    }
}

} // verus!
