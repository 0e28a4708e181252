use crust_of_rust::channels::state::Inner;
use crust_of_rust::channels::{channel, Receiver, Sender};

#[test]
fn ping_pong() {
    let (mut sender, mut receiver) = channel();
    sender.send(42);
    assert_eq!(receiver.receive(), Some(42));
}

#[test]
fn drop_sender_instantly() {
    let (sender, mut receiver) = channel::<()>();
    drop(sender);

    assert_eq!(receiver.receive(), None);
}

#[test]
fn ping_then_closed() {
    let (mut sender, mut receiver) = channel();
    sender.send(42);
    assert_eq!(receiver.receive(), Some(42));
    drop(sender);
    assert_eq!(receiver.receive(), None);
}

#[test]
fn values_arrive_in_the_order_sent() {
    let (mut sender, mut receiver) = channel();
    for value in 0..100 {
        sender.send(value);
    }
    for value in 0..100 {
        assert_eq!(receiver.receive(), Some(value));
    }
}

#[test]
fn values_outlive_their_sender() {
    let (mut sender, mut receiver) = channel();
    sender.send("a");
    sender.send("b");
    sender.send("c");
    drop(sender);
    assert_eq!(receiver.receive(), Some("a"));
    assert_eq!(receiver.receive(), Some("b"));
    assert_eq!(receiver.receive(), Some("c"));
    assert_eq!(receiver.receive(), None);
    assert_eq!(receiver.receive(), None);
}

#[test]
fn channel_stays_open_while_a_clone_lives() {
    let (mut sender, mut receiver) = channel();
    let mut second = sender.clone();
    sender.send(1);
    drop(sender);
    second.send(2);
    assert_eq!(receiver.receive(), Some(1));
    assert_eq!(receiver.receive(), Some(2));
    drop(second);
    assert_eq!(receiver.receive(), None);
}

#[test]
fn send_after_the_receiver_is_gone_is_accepted() {
    let (mut sender, receiver) = channel();
    drop(receiver);
    sender.send(7);
    sender.send(8);
}

#[test]
fn two_senders_lose_and_copy_nothing() {
    let (mut first, mut receiver): (Sender<u32>, Receiver<u32>) = channel();
    let mut second = first.clone();
    for round in 0..500 {
        first.send(round);
        if round % 3 == 0 {
            second.send(1000 + 2 * (round / 3));
            second.send(1000 + 2 * (round / 3) + 1);
        }
    }
    drop(first);
    drop(second);
    let mut low = Vec::new();
    let mut high = Vec::new();
    while let Some(value) = receiver.receive() {
        if value < 1000 {
            low.push(value);
        } else {
            high.push(value);
        }
    }
    assert_eq!(low, (0..500).collect::<Vec<u32>>());
    assert_eq!(high, (1000..1334).collect::<Vec<u32>>());
}

#[test]
fn state_of_a_fresh_channel_makes_the_receiver_wait() {
    let mut inner = Inner::<u8>::new();
    assert!(inner.must_wait());
    assert_eq!(inner.take(), None);
}

#[test]
fn state_hands_values_out_first_in_first_out() {
    let mut inner = Inner::new();
    inner.push(1);
    inner.push(2);
    assert!(!inner.must_wait());
    assert_eq!(inner.take(), Some(1));
    assert_eq!(inner.take(), Some(2));
    assert_eq!(inner.take(), None);
    assert!(inner.must_wait());
}

#[test]
fn state_counts_senders_and_names_the_last() {
    let mut inner = Inner::<u8>::new();
    inner.add_sender();
    assert!(!inner.remove_sender());
    assert!(inner.must_wait());
    assert!(inner.remove_sender());
    assert!(!inner.must_wait());
    assert!(!inner.remove_sender());
    assert!(!inner.must_wait());
}

#[test]
fn state_gives_a_ready_receiver_the_oldest_value_or_nothing_once_closed() {
    let mut inner = Inner::new();
    inner.push("first");
    inner.push("second");
    assert!(inner.remove_sender());
    assert!(!inner.must_wait());
    assert_eq!(inner.receive(), Some("first"));
    assert_eq!(inner.receive(), Some("second"));
    assert!(!inner.must_wait());
    assert_eq!(inner.receive(), None);
    assert_eq!(inner.receive(), None);
}
