//! A value that can be read and replaced through a shared reference.

use vstd::cell::invcell::InvCell;
use vstd::predicate::Predicate;
use vstd::prelude::*;

verus! {

/// The rule that every value may stand in a cell.
pub struct AnyValue;

impl<T> Predicate<T> for AnyValue {
    open spec fn predicate(&self, v: T) -> bool {
        true
    }
}

/// A value that can be read and replaced through a shared reference.
///
/// Whoever holds a shared reference to the cell may replace what it holds,
/// so nothing is known of what a read finds but its type.
pub struct Cell<T> {
    value: InvCell<T, AnyValue>,
}

impl<T> Cell<T> {
    /// A cell that holds `value`.
    pub fn new(value: T) -> (cell: Self) {
        Cell { value: InvCell::new(value, Ghost(AnyValue)) }
    }

    /// A copy of what the cell holds.
    pub fn get(&self) -> (value: T) where T: Copy {
        self.value.get()
    }

    /// Puts `value` in the place of what the cell holds.
    pub fn set(&self, value: T) {
        self.value.set(value);
    }
}

} // verus!
