//! The state that the handles of one channel share, as a value: what each
//! operation of the channel does to it, and what follows for every run.

use std::collections::VecDeque;
use vstd::prelude::*;

verus! {

/// What one channel holds at one moment.
#[verifier::ext_equal]
pub struct ChannelState<T> {
    /// The values in flight, oldest first.
    pub queue: Seq<T>,
    /// The number of live senders.
    pub senders: nat,
}

/// What the receiver finds when it looks at the state under the lock.
pub enum Check<T> {
    /// A value is waiting: it is the front of the queue.
    Data(T),
    /// Nothing is waiting and no sender is left: nothing will ever come.
    Closed,
    /// Nothing is waiting but a sender is alive: the receiver has to sleep.
    Blocked,
}

impl<T> ChannelState<T> {
    /// The state of a fresh channel: nothing in flight, one sender.
    pub open spec fn fresh() -> Self {
        ChannelState { queue: Seq::empty(), senders: 1 }
    }

    /// The state after a sender has sent `value`.
    pub open spec fn sent(self, value: T) -> Self {
        ChannelState { queue: self.queue.push(value), senders: self.senders }
    }

    /// The state after a sender has been cloned. The count stops at the
    /// largest number the machine can hold.
    pub open spec fn cloned(self) -> Self {
        ChannelState {
            queue: self.queue,
            senders: if self.senders < usize::MAX { self.senders + 1 } else { self.senders },
        }
    }

    /// The state after a sender has been dropped. The count never falls below zero.
    pub open spec fn dropped(self) -> Self {
        ChannelState {
            queue: self.queue,
            senders: if self.senders > 0 { (self.senders - 1) as nat } else { 0 },
        }
    }

    /// What the receiver finds in this state.
    pub open spec fn check(self) -> Check<T> {
        if self.queue.len() > 0 {
            Check::Data(self.queue[0])
        } else if self.senders == 0 {
            Check::Closed
        } else {
            Check::Blocked
        }
    }

    /// The state after the receiver has looked: a waiting value has left the
    /// queue, and nothing else has changed.
    pub open spec fn received(self) -> Self {
        if self.queue.len() > 0 {
            ChannelState { queue: self.queue.drop_first(), senders: self.senders }
        } else {
            self
        }
    }

    /// The state after the values of `values` have been sent one by one, first to last.
    pub open spec fn sent_all(self, values: Seq<T>) -> Self
        decreases values.len(),
    {
        if values.len() == 0 {
            self
        } else {
            self.sent(values[0]).sent_all(values.drop_first())
        }
    }

    /// The state after every live sender has been dropped, one by one.
    pub open spec fn dropped_all(self) -> Self
        decreases self.senders,
    {
        if self.senders == 0 {
            self
        } else {
            self.dropped().dropped_all()
        }
    }

    /// The state after the receiver has looked `n` times in a row.
    pub open spec fn received_n(self, n: nat) -> Self
        decreases n,
    {
        if n == 0 {
            self
        } else {
            self.received().received_n((n - 1) as nat)
        }
    }
}

/// Whether `merged` holds the values of `left` and of `right`, each in its own
/// order, woven into one sequence in some way.
pub open spec fn is_interleaving<T>(merged: Seq<T>, left: Seq<T>, right: Seq<T>) -> bool
    decreases merged.len(),
{
    if merged.len() == 0 {
        left.len() == 0 && right.len() == 0
    } else {
        ||| left.len() > 0 && left[0] == merged[0] && is_interleaving(
            merged.drop_first(),
            left.drop_first(),
            right,
        )
        ||| right.len() > 0 && right[0] == merged[0] && is_interleaving(
            merged.drop_first(),
            left,
            right.drop_first(),
        )
    }
}

/// Sending a sequence of values appends it to the queue and leaves the senders alone.
pub proof fn lemma_sent_all<T>(state: ChannelState<T>, values: Seq<T>)
    ensures
        state.sent_all(values).queue == state.queue + values,
        state.sent_all(values).senders == state.senders,
    decreases values.len(),
{
    if values.len() == 0 {
        assert(state.queue + values =~= state.queue);
    } else {
        lemma_sent_all(state.sent(values[0]), values.drop_first());
        assert(state.queue.push(values[0]) + values.drop_first() =~= state.queue + values);
    }
}

/// Dropping every sender leaves none, and leaves the queue alone.
pub proof fn lemma_dropped_all<T>(state: ChannelState<T>)
    ensures
        state.dropped_all().senders == 0,
        state.dropped_all().queue == state.queue,
    decreases state.senders,
{
    if state.senders > 0 {
        lemma_dropped_all(state.dropped());
    }
}

/// Looking `n` times removes the `n` oldest values, or all of them where
/// there are fewer, and leaves the senders alone.
pub proof fn lemma_received_n<T>(state: ChannelState<T>, n: nat)
    ensures
        state.received_n(n).senders == state.senders,
        n <= state.queue.len() ==> state.received_n(n).queue == state.queue.skip(n as int),
        n > state.queue.len() ==> state.received_n(n).queue == Seq::<T>::empty(),
    decreases n,
{
    if n == 0 {
        assert(state.queue.skip(0) =~= state.queue);
    } else {
        lemma_received_n(state.received(), (n - 1) as nat);
        if state.queue.len() > 0 {
            if n <= state.queue.len() {
                assert(state.queue.drop_first().skip(n - 1) =~= state.queue.skip(n as int));
            }
        } else {
            assert(state.queue =~= Seq::<T>::empty());
        }
    }
}

/// One more look leads from the state after `n` looks to the state after
/// `n + 1`.
pub proof fn lemma_one_more_look<T>(state: ChannelState<T>, n: nat)
    ensures
        state.received_n(n).received() == state.received_n(n + 1),
    decreases n,
{
    if n == 0 {
        assert(state.received_n(1) == state.received().received_n(0));
    } else {
        lemma_one_more_look(state.received(), (n - 1) as nat);
        assert(state.received_n(n + 1) == state.received().received_n(n));
    }
}

/// First in, first out. Into a channel with nothing in flight any sequence of
/// values is sent. The receiver then looks once for each of them. It finds
/// the values that were sent, in the order in which they were sent, and after
/// the last of them nothing is left in flight.
pub proof fn lemma_fifo<T>(state: ChannelState<T>, values: Seq<T>)
    requires
        state.queue.len() == 0,
    ensures
        forall|i: nat|
            i < values.len() ==> #[trigger] state.sent_all(values).received_n(i).check()
                == Check::Data(values[i as int]),
        state.sent_all(values).received_n(values.len()).queue.len() == 0,
{
    let full = state.sent_all(values);
    lemma_sent_all(state, values);
    assert(full.queue =~= values);
    assert forall|i: nat| i < values.len() implies #[trigger] full.received_n(i).check()
        == Check::Data(values[i as int]) by {
        lemma_received_n(full, i);
    }
    lemma_received_n(full, values.len());
}

/// A channel with nothing in flight whose senders are all dropped is closed:
/// the receiver finds that at its first look, and does not sleep.
pub proof fn lemma_closed_when_senders_gone<T>(state: ChannelState<T>)
    requires
        state.queue.len() == 0,
    ensures
        state.dropped_all().check() == Check::<T>::Closed,
{
    lemma_dropped_all(state);
}

/// Values outlive their senders. Into a channel with nothing in flight any
/// sequence of values is sent, and then every sender is dropped. The receiver
/// still finds every value, in the order in which they were sent, and only
/// after the last of them, and from then on at every look, that the channel
/// is closed.
pub proof fn lemma_drained_before_closed<T>(state: ChannelState<T>, values: Seq<T>)
    requires
        state.queue.len() == 0,
    ensures
        forall|i: nat|
            i < values.len() ==> #[trigger] state.sent_all(values).dropped_all().received_n(
                i,
            ).check() == Check::Data(values[i as int]),
        forall|i: nat|
            i >= values.len() ==> #[trigger] state.sent_all(values).dropped_all().received_n(
                i,
            ).check() == Check::<T>::Closed,
{
    let full = state.sent_all(values);
    let orphaned = full.dropped_all();
    lemma_sent_all(state, values);
    lemma_dropped_all(full);
    assert(orphaned.queue =~= values);
    assert forall|i: nat| i < values.len() implies #[trigger] orphaned.received_n(i).check()
        == Check::Data(values[i as int]) by {
        lemma_received_n(orphaned, i);
    }
    assert forall|i: nat| i >= values.len() implies #[trigger] orphaned.received_n(i).check()
        == Check::<T>::Closed by {
        lemma_received_n(orphaned, i);
        assert(values.skip(values.len() as int) =~= Seq::<T>::empty());
    }
}

/// A sequence woven from two others holds what they hold, as often as they
/// hold it, and is as long as both together.
pub proof fn lemma_interleaving_keeps_all<T>(merged: Seq<T>, left: Seq<T>, right: Seq<T>)
    requires
        is_interleaving(merged, left, right),
    ensures
        merged.len() == left.len() + right.len(),
        merged.to_multiset() == left.to_multiset().add(right.to_multiset()),
    decreases merged.len(),
{
    broadcast use vstd::seq_lib::group_to_multiset_ensures;

    if merged.len() == 0 {
        assert(merged =~= Seq::<T>::empty());
        assert(left =~= Seq::<T>::empty());
        assert(right =~= Seq::<T>::empty());
        assert(merged.to_multiset() =~= left.to_multiset().add(right.to_multiset()));
    } else {
        let rest = merged.drop_first();
        assert(merged =~= seq![merged[0]] + rest);
        if left.len() > 0 && left[0] == merged[0] && is_interleaving(
            rest,
            left.drop_first(),
            right,
        ) {
            lemma_interleaving_keeps_all(rest, left.drop_first(), right);
            assert(left =~= seq![left[0]] + left.drop_first());
            lemma_to_multiset_of_front(merged);
            lemma_to_multiset_of_front(left);
            assert(merged.to_multiset() =~= left.to_multiset().add(right.to_multiset()));
        } else {
            lemma_interleaving_keeps_all(rest, left, right.drop_first());
            assert(right =~= seq![right[0]] + right.drop_first());
            lemma_to_multiset_of_front(merged);
            lemma_to_multiset_of_front(right);
            assert(merged.to_multiset() =~= left.to_multiset().add(right.to_multiset()));
        }
    }
}

/// What a sequence holds is its first value and what the rest holds.
proof fn lemma_to_multiset_of_front<T>(values: Seq<T>)
    requires
        values.len() > 0,
    ensures
        values.to_multiset() == values.drop_first().to_multiset().insert(values[0]),
{
    broadcast use vstd::seq_lib::group_to_multiset_ensures;

    let rest = values.drop_first();
    assert(values =~= seq![values[0]] + rest);
    vstd::seq_lib::lemma_multiset_commutative(seq![values[0]], rest);
    assert(seq![values[0]] =~= Seq::<T>::empty().push(values[0]));
    assert(seq![values[0]].to_multiset() =~= vstd::multiset::Multiset::<T>::empty().insert(
        values[0],
    ));
    assert(values.to_multiset() =~= rest.to_multiset().insert(values[0]));
}

/// Two producers, no loss and no copy. Two senders send `left` and `right`
/// into a channel with nothing in flight, each in its own order, while the
/// lock lets their sends through one at a time in whatever order
/// (`merged`). The receiver then looks once for each value. It finds every
/// value of both senders as often as it was sent, those of each sender in the
/// order in which that sender sent them, and nothing is left in flight.
pub proof fn lemma_two_producers<T>(
    state: ChannelState<T>,
    merged: Seq<T>,
    left: Seq<T>,
    right: Seq<T>,
)
    requires
        state.queue.len() == 0,
        is_interleaving(merged, left, right),
    ensures
        merged.len() == left.len() + right.len(),
        merged.to_multiset() == left.to_multiset().add(right.to_multiset()),
        forall|i: nat|
            i < merged.len() ==> #[trigger] state.sent_all(merged).received_n(i).check()
                == Check::Data(merged[i as int]),
        state.sent_all(merged).received_n(merged.len()).queue.len() == 0,
{
    lemma_interleaving_keeps_all(merged, left, right);
    lemma_fifo(state, merged);
}

/// The receiver sleeps exactly while nothing is in flight and a sender is
/// alive. From such a state a send wakes it to the value that was sent, the
/// drop of the last sender wakes it to a closed channel, and neither a new
/// sender nor the drop of one among several changes anything for it.
pub proof fn lemma_blocked_until_sent_or_closed<T>(state: ChannelState<T>, value: T)
    ensures
        state.check() is Blocked <==> state.queue.len() == 0 && state.senders > 0,
        state.check() is Blocked ==> state.sent(value).check() == Check::Data(value),
        state.check() is Blocked && state.senders == 1 ==> state.dropped().check()
            == Check::<T>::Closed,
        state.check() is Blocked && state.senders > 1 ==> state.dropped().check() is Blocked,
        state.check() is Blocked ==> state.cloned().check() is Blocked,
        state.check() is Blocked ==> state.received() == state,
{
}

/// The state behind the lock of a channel.
pub struct Inner<T> {
    queue: VecDeque<T>,
    senders: usize,
}

impl<T> View for Inner<T> {
    type V = ChannelState<T>;

    closed spec fn view(&self) -> ChannelState<T> {
        ChannelState { queue: self.queue@, senders: self.senders as nat }
    }
}

impl<T> Inner<T> {
    /// The state of a fresh channel.
    pub fn new() -> (inner: Self)
        ensures
            inner@ == ChannelState::<T>::fresh(),
    {
        Inner { queue: VecDeque::new(), senders: 1 }
    }

    /// Appends `value` to the tail of the queue.
    pub fn push(&mut self, value: T)
        ensures
            final(self)@ == old(self)@.sent(value),
    {
        self.queue.push_back(value);
    }

    /// Counts one more sender.
    pub fn add_sender(&mut self)
        ensures
            final(self)@ == old(self)@.cloned(),
    {
        if self.senders < usize::MAX {
            self.senders = self.senders + 1;
        }
    }

    /// Counts one sender less, and tells whether it was the last one.
    pub fn remove_sender(&mut self) -> (last: bool)
        ensures
            final(self)@ == old(self)@.dropped(),
            last == (old(self)@.senders == 1),
        opens_invariants none
        no_unwind
    {
        let last = self.senders == 1;
        if self.senders > 0 {
            self.senders = self.senders - 1;
        }
        last
    }

    /// Whether the receiver has to sleep: nothing is waiting and a sender is alive.
    pub fn must_wait(&self) -> (wait: bool)
        ensures
            wait == (self@.check() is Blocked),
    {
        self.queue.len() == 0 && self.senders > 0
    }

    /// What a receiver leaves with that need not sleep: the oldest value in
    /// flight, which leaves the queue, or `None` where the channel is closed.
    pub fn receive(&mut self) -> (received: Option<T>)
        requires
            !(old(self)@.check() is Blocked),
        ensures
            final(self)@ == old(self)@.received(),
            match old(self)@.check() {
                Check::Data(front) => received == Some(front),
                Check::Closed => received is None,
                Check::Blocked => false,
            },
    {
        self.take()
    }

    /// Takes the front of the queue, if there is one.
    pub fn take(&mut self) -> (value: Option<T>)
        ensures
            final(self)@ == old(self)@.received(),
            match old(self)@.check() {
                Check::Data(front) => value == Some(front),
                Check::Closed => value is None,
                Check::Blocked => value is None,
            },
    {
        self.queue.pop_front()
    }
}

} // verus!
