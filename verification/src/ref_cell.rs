//! The bookkeeping of a cell that lends its value out: to any number of
//! readers, or to one writer, never to both.
//!
//! The cell itself hands out references to a value behind a shared reference,
//! which takes code that no verifier of safe Rust can follow. What it decides
//! is here: whether a loan is granted, and what the books say after it is
//! granted or returned.

use vstd::prelude::*;

verus! {

/// What the books of a cell say.
#[derive(Clone, Copy, Debug, PartialEq, Eq)]
pub enum RefState {
    /// Nothing is lent out.
    Unshared,
    /// The value is lent to this many readers.
    Shared(usize),
    /// The value is lent to one writer.
    Exclusive,
}

impl RefState {
    /// The number of readers that the value is lent to.
    pub open spec fn readers(self) -> nat {
        match self {
            RefState::Shared(count) => count as nat,
            _ => 0,
        }
    }

    /// Whether the books are in order: where they say that the value is lent
    /// to readers, there is a reader.
    pub open spec fn wf(self) -> bool {
        self matches RefState::Shared(count) ==> count >= 1
    }

    /// Whether one more reader can be granted a loan: no writer holds the
    /// value, and the count of readers can still grow.
    pub open spec fn can_borrow(self) -> bool {
        !(self is Exclusive) && self.readers() < usize::MAX
    }

    /// Whether a writer can be granted a loan: nothing is lent out.
    pub open spec fn can_borrow_mut(self) -> bool {
        self is Unshared
    }

    /// Asks for a loan to one more reader. Where it is granted, the result
    /// holds the books after it: the readers of before and one more.
    pub fn borrow(self) -> (granted: Option<RefState>)
        ensures
            granted is Some <==> self.can_borrow(),
            granted matches Some(after) ==> after == RefState::Shared(
                (self.readers() + 1) as usize,
            ) && after.wf(),
    {
        match self {
            RefState::Unshared => Some(RefState::Shared(1)),
            RefState::Shared(count) => if count < usize::MAX {
                Some(RefState::Shared(count + 1))
            } else {
                None
            },
            RefState::Exclusive => None,
        }
    }

    /// Asks for a loan to a writer. Where it is granted, the result holds the
    /// books after it.
    pub fn borrow_mut(self) -> (granted: Option<RefState>)
        ensures
            granted is Some <==> self.can_borrow_mut(),
            granted matches Some(after) ==> after == RefState::Exclusive,
    {
        match self {
            RefState::Unshared => Some(RefState::Exclusive),
            _ => None,
        }
    }

    /// The books after a reader has returned its loan: one reader less, and
    /// nothing lent out where it was the last.
    pub fn release(self) -> (after: RefState)
        requires
            self is Shared,
            self.wf(),
        ensures
            after.wf(),
            after.readers() == self.readers() - 1,
            after is Unshared <==> self.readers() == 1,
            !(after is Exclusive),
    {
        match self {
            RefState::Shared(count) => if count == 1 {
                RefState::Unshared
            } else {
                RefState::Shared(count - 1)
            },
            _ => self,
        }
    }

    /// The books after the writer has returned its loan: nothing is lent out.
    pub fn release_mut(self) -> (after: RefState)
        requires
            self is Exclusive,
        ensures
            after is Unshared,
    {
        RefState::Unshared
    }

    /// Whether the value is lent to readers: the books of a reader that
    /// returns its loan must say so.
    pub fn is_shared(self) -> (shared: bool)
        ensures
            shared == (self is Shared && self.wf()),
    {
        match self {
            RefState::Shared(count) => count >= 1,
            _ => false,
        }
    }

    /// Whether the value is lent to a writer.
    pub fn is_exclusive(self) -> (exclusive: bool)
        ensures
            exclusive == (self is Exclusive),
    {
        match self {
            RefState::Exclusive => true,
            _ => false,
        }
    }
}

/// While a writer holds the value nobody else gets it, and while readers hold
/// it no writer gets it.
pub proof fn lemma_writer_is_alone(state: RefState)
    requires
        state.wf(),
    ensures
        state is Exclusive ==> !state.can_borrow() && !state.can_borrow_mut(),
        state is Shared ==> !state.can_borrow_mut(),
{
}

} // verus!
