//! What the channel takes from `std::sync`. Verus does not look inside any of
//! it: the contracts below are taken on trust from the documentation of the
//! standard library.
//!
//! The lock itself says nothing of the state behind it: other threads change
//! that state whenever the lock is free, so what one holder leaves there is
//! not what the next one finds. What can be said is said of the lock in the
//! hands of one holder ([`Held`]): while it is held, the state behind it is
//! what that holder found, or has made of it.

use crate::channels::state::{ChannelState, Inner};
use std::sync::{Arc, Condvar, Mutex, MutexGuard};
use vstd::prelude::*;

verus! {

/// `std::sync::Mutex`.
#[verifier::external_type_specification]
#[verifier::external_body]
#[verifier::reject_recursive_types(T)]
pub struct ExMutex<T: ?Sized>(Mutex<T>);

/// `std::sync::MutexGuard`.
#[verifier::external_type_specification]
#[verifier::external_body]
#[verifier::reject_recursive_types(T)]
pub struct ExMutexGuard<'a, T: ?Sized + 'a>(MutexGuard<'a, T>);

/// `std::sync::Condvar`.
#[verifier::external_type_specification]
#[verifier::external_body]
pub struct ExCondvar(Condvar);

/// `Mutex::new`: a lock around `t`. Nothing is claimed of it.
pub assume_specification<T>[ Mutex::<T>::new ](t: T) -> (mutex: Mutex<T>);

/// `Condvar::new`: a condition signal nobody waits on yet. Nothing is claimed of it.
pub assume_specification[ Condvar::new ]() -> (signal: Condvar);

/// `Condvar::notify_one`: wakes one thread that waits on the signal, if there
/// is one. It returns nothing and does not panic.
#[verifier::external_body]
pub(crate) fn notify_one(signal: &Condvar)
    opens_invariants none
    no_unwind
{
    signal.notify_one()
}

/// The lock of a channel in the hands of one holder: the guard, and beside it
/// the state that the guard gives access to, as Verus is to see it. Only the
/// functions of this file make or change one.
#[verifier::reject_recursive_types(T)]
pub struct Held<'a, T> {
    guard: MutexGuard<'a, Inner<T>>,
    state: Ghost<ChannelState<T>>,
}

impl<'a, T> Held<'a, T> {
    /// The state behind the lock, for as long as this holder has it.
    pub closed spec fn model(&self) -> ChannelState<T> {
        self.state@
    }
}

/// `Mutex::lock`, and `Result::unwrap` on what it returns. The call sleeps
/// until the lock is free and hands it to the caller. A lock that a panicking
/// holder has left poisoned is not to be trusted again: the call then ends in
/// a panic. Nothing is claimed of the state that is found behind the lock.
#[verifier::external_body]
pub(crate) fn lock<'a, T>(mutex: &'a Mutex<Inner<T>>) -> (held: Held<'a, T>) {
    Held { guard: mutex.lock().unwrap(), state: Ghost(arbitrary()) }
}

/// `Mutex::lock` for a handle that is being dropped, where a panic is out of
/// place. The call sleeps until the lock is free and hands it to the caller,
/// or hands out `None`, with the lock free again, where it found the lock
/// poisoned. It does not panic. Nothing is claimed of the state that is
/// found behind the lock, nor of when the lock is poisoned.
#[verifier::external_body]
pub(crate) fn lock_in_drop<'a, T>(mutex: &'a Mutex<Inner<T>>) -> (held: Option<Held<'a, T>>)
    opens_invariants none
    no_unwind
{
    match mutex.lock() {
        Ok(guard) => Some(Held { guard, state: Ghost(arbitrary()) }),
        Err(_) => None,
    }
}

/// `DerefMut::deref_mut` of a `MutexGuard`: the state behind the lock, for as
/// long as the holder is borrowed. It is the state that the holder has, and
/// what the caller makes of it is the state that the holder has afterwards.
/// It does not panic.
#[verifier::external_body]
pub(crate) fn guarded<'g, 'a, T>(held: &'g mut Held<'a, T>) -> (state: &'g mut Inner<T>)
    ensures
        (*state)@ == old(held).model(),
        final(held).model() == (*final(state))@,
    opens_invariants none
    no_unwind
{
    &mut *held.guard
}

/// `Condvar::wait_while`, and `Result::unwrap` on what it returns. While
/// `Inner::must_wait` holds of the state behind the lock, the call gives up
/// the lock, sleeps until the signal is notified, takes the lock again and
/// looks again. It hands the lock back when `must_wait` no longer holds,
/// which may be at once: the state that the holder then has does not ask the
/// receiver to sleep. It may be another state than the one the call was
/// entered with. The call panics where it finds the lock poisoned.
#[verifier::external_body]
pub(crate) fn wait_while_blocked<'a, T>(signal: &Condvar, held: Held<'a, T>) -> (woken: Held<
    'a,
    T,
>)
    ensures
        !(woken.model().check() is Blocked),
{
    let guard = signal.wait_while(held.guard, |inner| inner.must_wait()).unwrap();
    Held { guard, state: held.state }
}

/// `Arc::clone`: one more handle to the same allocation.
#[verifier::external_body]
pub(crate) fn share<T>(shared: &Arc<T>) -> (other: Arc<T>)
    ensures
        other == *shared,
{
    Arc::clone(shared)
}

} // verus!
