//! Handing out numbers from a counter that many threads share.

use std::sync::atomic::{AtomicI32, AtomicU32, Ordering};
use vstd::prelude::*;

verus! {

/// The number of ids there are: the ids are the numbers below it.
pub const ID_LIMIT: u32 = 1000;

/// What a counter that stands at `id` is set to when `id` is handed out, or
/// `None` where `id` is no id any more.
pub open spec fn counter_after(id: u32) -> Option<u32> {
    if id < ID_LIMIT {
        Some((id + 1) as u32)
    } else {
        None
    }
}

/// What a counter that stands at `id` is set to when `id` is handed out.
pub fn step_counter(id: u32) -> (next: Option<u32>)
    ensures
        next == counter_after(id),
{
    if id < ID_LIMIT {
        Some(id + 1)
    } else {
        None
    }
}

/// `AtomicU32::fetch_update` with `step_counter`: reads the counter, and sets
/// it to what `step_counter` makes of what was read, again and again until no
/// other thread has come between the read and the write. It returns `Ok` and
/// the number that it replaced, or `Err` and the number that it read where
/// `step_counter` gave `None` for it, with the counter left as it was.
#[verifier::external_body]
fn claim(next_id: &AtomicU32) -> (claimed: Result<u32, u32>)
    ensures
        match claimed {
            Ok(id) => counter_after(id) is Some,
            Err(id) => counter_after(id) is None,
        },
{
    next_id.fetch_update(Ordering::Relaxed, Ordering::Relaxed, |id| step_counter(id))
}

/// Hands out the number at which the counter stands and moves the counter
/// on, in one step that no other thread can come between: no number is handed
/// out twice. Once every id has been handed out there is `None`, and the
/// counter moves no further.
pub fn allocate_new_id(next_id: &AtomicU32) -> (id: Option<u32>)
    ensures
        id matches Some(id) ==> id < ID_LIMIT,
{
    // Which number the counter gives up, if any, is for the counter to say;
    // what is made of its answer is `claimed_id`.
    let claimed = claim(next_id);
    claimed_id(claimed)
}

/// Adds to two counters of its own and reports what it saw: what the first,
/// made with 0, held before 23 was added, and after; and what the second,
/// made with the largest `i32`, held after 1 was added.
pub fn fetch_add() -> (seen: (i32, i32, i32)) {
    let a = AtomicI32::new(0);
    let b = a.fetch_add(23, Ordering::Relaxed);
    let c = a.load(Ordering::Relaxed);
    let atomic_i32_max = AtomicI32::new(i32::MAX);
    let _ = atomic_i32_max.fetch_add(1, Ordering::Relaxed);
    let atomic_i32_min = atomic_i32_max.load(Ordering::Relaxed);
    (b, c, atomic_i32_min)
}

/// What a claim on the counter has won: the number that the counter gave up,
/// or nothing where the counter had no id left and gave none up.
pub fn claimed_id(claimed: Result<u32, u32>) -> (id: Option<u32>)
    ensures
        id == match claimed {
            Ok(won) => Some(won),
            Err(_) => None::<u32>,
        },
{
    match claimed {
        Ok(won) => Some(won),
        Err(_) => None,
    }
}

} // verus!
