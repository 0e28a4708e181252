//! A blocking channel from any number of senders to one receiver.
//!
//! The handles of one channel share a queue and a count of the live senders
//! behind one lock, with one condition signal beside it. A sender appends to
//! the queue and notifies the signal; the receiver takes from the front, and
//! sleeps on the signal while the queue is empty and a sender is alive.
//!
//! What each operation does to the shared state is proved in [`state`], on
//! the state as a value. The handles below reach that state through a lock of
//! the standard library ([`sync`]). While one of them holds the lock, Verus
//! follows what it does to the state; of what other threads do between two
//! holders it sees nothing, so the contracts of the handles say what holds of
//! the handles themselves.

pub mod state;
pub mod sync;

use crate::channels::state::Inner;
use crate::channels::sync::{guarded, lock, lock_in_drop, notify_one, share, wait_while_blocked};
use std::sync::{Arc, Condvar, Mutex};
use vstd::prelude::*;

verus! {

/// What the handles of one channel share: the state behind its lock, and the
/// signal that tells a sleeping receiver to look again.
#[verifier::reject_recursive_types(T)]
struct Shared<T> {
    inner: Mutex<Inner<T>>,
    signal_data_sent: Condvar,
}

/// The sending half of a channel. There may be many: `clone` makes another.
#[verifier::reject_recursive_types(T)]
pub struct Sender<T> {
    shared: Arc<Shared<T>>,
}

/// The receiving half of a channel. There is one and it cannot be cloned.
#[verifier::reject_recursive_types(T)]
pub struct Receiver<T> {
    shared: Arc<Shared<T>>,
}

impl<T> Sender<T> {
    /// Whether what this sender sends arrives at `receiver`.
    pub closed spec fn feeds(&self, receiver: &Receiver<T>) -> bool {
        self.shared == receiver.shared
    }

    /// Appends `data_to_send` to the queue of the channel and wakes the
    /// receiver if it sleeps. The call holds the lock for the one append,
    /// never waits for the receiver, and does not ask whether there still is
    /// one. The handle is left as it was.
    pub fn send(&mut self, data_to_send: T)
        ensures
            *final(self) == *old(self),
    {
        {
            let mut held = lock(&self.shared.inner);
            guarded(&mut held).push(data_to_send);
        }
        notify_one(&self.shared.signal_data_sent);
    }
}

impl<T> Clone for Sender<T> {
    /// Another sender of the same channel, counted under the lock.
    fn clone(&self) -> (other: Self)
        ensures
            other == *self,
    {
        {
            let mut held = lock(&self.shared.inner);
            guarded(&mut held).add_sender();
        }
        Sender { shared: share(&self.shared) }
    }
}

impl<T> Drop for Sender<T> {
    /// Counts this sender out under the lock. Where it was the last one, the
    /// receiver is woken, so that it finds the channel closed and does not
    /// sleep for ever. A poisoned lock is left alone, state and signal with
    /// it. The handle is left as it was.
    fn drop(&mut self)
        ensures
            *final(self) == *old(self),
        opens_invariants none
        no_unwind
    {
        let last = match lock_in_drop(&self.shared.inner) {
            Some(held) => {
                let mut held = held;
                guarded(&mut held).remove_sender()
            },
            None => false,
        };
        if last {
            notify_one(&self.shared.signal_data_sent);
        }
    }
}

impl<T> Receiver<T> {
    /// The oldest value in flight, or `None` once nothing is in flight and no
    /// sender is left. While nothing is in flight and a sender is alive, the
    /// call sleeps, with the lock released, and looks again whenever it is
    /// woken. The handle is left as it was.
    pub fn receive(&mut self) -> (received: Option<T>)
        ensures
            *final(self) == *old(self),
    {
        let held = lock(&self.shared.inner);
        let mut held = wait_while_blocked(&self.shared.signal_data_sent, held);
        guarded(&mut held).receive()
    }
}

/// A new channel: one sender and the receiver it feeds, around a state with
/// nothing in flight and a count of one.
pub fn channel<T>() -> (ends: (Sender<T>, Receiver<T>))
    ensures
        ends.0.feeds(&ends.1),
{
    let shared = Arc::new(Shared { inner: Mutex::new(Inner::new()), signal_data_sent: Condvar::new() });
    (Sender { shared: share(&shared) }, Receiver { shared })
}

} // verus!
