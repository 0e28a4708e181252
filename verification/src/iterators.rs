//! Walking a vector of vectors item by item, as if it were one sequence.

use std::collections::VecDeque;
use vstd::prelude::*;

verus! {

/// What the vectors of `nested` hold, one sequence for each, in order.
pub open spec fn contents<T>(nested: Seq<Vec<T>>) -> Seq<Seq<T>> {
    nested.map_values(|inner: Vec<T>| inner@)
}

/// The walk over `nested`: every item of its first vector, then every item of
/// its second, and so on.
pub fn flatten<T>(nested: Vec<Vec<T>>) -> (walk: Flatten<T>)
    ensures
        walk@ == contents(nested@).flatten(),
{
    Flatten::new(nested)
}

/// A walk over the items of a vector of vectors. Its view is the sequence of
/// the items still to come.
pub struct Flatten<T> {
    /// The vectors that the walk has not reached yet.
    outer: VecDeque<Vec<T>>,
    /// What is left of the vector that the walk is in.
    inner: VecDeque<T>,
}

impl<T> View for Flatten<T> {
    type V = Seq<T>;

    closed spec fn view(&self) -> Seq<T> {
        self.inner@ + contents(self.outer@).flatten()
    }
}

/// Moves the items of a vector into a queue that gives them out first to last.
fn into_queue<T>(items: Vec<T>) -> (queue: VecDeque<T>)
    ensures
        queue@ == items@,
{
    let ghost all = items@;
    let mut items = items;
    let mut queue = VecDeque::new();
    while items.len() > 0
        invariant
            items@ + queue@ == all,
        decreases items.len(),
    {
        let ghost before = items@;
        let ghost queued = queue@;
        match items.pop() {
            Some(last) => {
                queue.push_front(last);
                assert(items@ + queue@ =~= before + queued);
            },
            None => {},
        }
    }
    assert(items@ + queue@ =~= queue@);
    queue
}

impl<T> Flatten<T> {
    /// The walk over `nested`, before its first step.
    pub fn new(nested: Vec<Vec<T>>) -> (walk: Self)
        ensures
            walk@ == contents(nested@).flatten(),
    {
        let walk = Flatten { outer: into_queue(nested), inner: VecDeque::new() };
        assert(walk.inner@ + contents(walk.outer@).flatten() =~= contents(nested@).flatten());
        walk
    }

    /// Gives out the next item, or `None` where none is left. Vectors without
    /// items are passed over.
    pub fn next(&mut self) -> (item: Option<T>)
        ensures
            old(self)@.len() > 0 ==> item == Some(old(self)@[0]) && final(self)@ == old(
                self,
            )@.drop_first(),
            old(self)@.len() == 0 ==> item is None && final(self)@ == old(self)@,
    {
        loop
            invariant
                self@ == old(self)@,
            decreases self.outer.len(),
        {
            let ghost ahead = contents(self.outer@).flatten();
            let ghost here = self.inner@;
            if let Some(item) = self.inner.pop_front() {
                assert(self.inner@ + ahead =~= (here + ahead).drop_first());
                return Some(item);
            }
            let ghost waiting = self.outer@;
            match self.outer.pop_front() {
                None => {
                    assert(here + ahead =~= Seq::<T>::empty());
                    return None;
                },
                Some(next_inner) => {
                    self.inner = into_queue(next_inner);
                    assert(contents(waiting).drop_first() =~= contents(self.outer@));
                    assert(here + ahead =~= self.inner@ + contents(self.outer@).flatten());
                },
            }
        }
    }

    /// The number of items still to come, or the largest number the machine
    /// can hold where there are more. The walk is used up.
    pub fn count(self) -> (n: usize)
        ensures
            n == if self@.len() <= usize::MAX {
                self@.len()
            } else {
                usize::MAX as nat
            },
    {
        let mut walk = self;
        let mut n: usize = 0;
        loop
            invariant
                n + walk@.len() == self@.len(),
            decreases walk@.len(),
        {
            match walk.next() {
                Some(_) => {
                    if n == usize::MAX {
                        return n;
                    }
                    n = n + 1;
                },
                None => {
                    return n;
                },
            }
        }
    }
}

} // verus!
