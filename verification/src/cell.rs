//! A single-value cell restricted to copyable payloads.

use vstd::prelude::*;

verus! {

/// Stores one value of a copyable type and exposes `get`/`set`.
///
/// Reads return independent copies of the interior value, never a live
/// reference into storage, so an overwrite through `set` can never
/// invalidate anything a caller still holds. The cell's view is the
/// interior value itself.
pub struct Cell<T> {
    value: T,
}

impl<T> View for Cell<T> {
    type V = T;

    closed spec fn view(&self) -> T {
        self.value
    }
}

impl<T> Cell<T> {
    /// Takes ownership of `value` and wraps it in a fresh cell.
    pub fn new(value: T) -> (cell: Self)
        ensures
            cell@ == value,
    {
        Cell { value }
    }

    /// Overwrites the interior value. There is no error condition.
    pub fn set(&mut self, value: T)
        ensures
            final(self)@ == value,
    {
        self.value = value;
    }
}

impl<T: Copy> Cell<T> {
    /// Returns a copy of the interior value; the cell itself is untouched.
    pub fn get(&self) -> (value: T)
        ensures
            value == self@,
    {
        self.value
    }
}

} // verus!
