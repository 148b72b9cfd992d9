use greeter::channel::{Channel, Received, Sent};
use greeter::error::{CallError, TransportFault, Violation};

#[test]
fn items_arrive_in_the_order_sent() {
    let mut channel: Channel<u32> = Channel::new(4);
    for value in [7, 3, 9, 1] {
        assert_eq!(channel.send(value), Ok(Sent::Accepted));
    }
    for value in [7, 3, 9, 1] {
        assert_eq!(channel.receive(), Some(Received::Item(value)));
    }
    assert_eq!(channel.receive(), None);
}

#[test]
fn order_holds_across_interleaved_sends_and_receives() {
    let mut channel: Channel<u32> = Channel::new(2);
    let mut taken = Vec::new();
    let mut next = 0;
    while taken.len() < 50 {
        while next < 50 {
            match channel.send(next).unwrap() {
                Sent::Accepted => next += 1,
                Sent::Backpressure(back) => {
                    assert_eq!(back, next);
                    break;
                }
            }
        }
        match channel.receive() {
            Some(Received::Item(value)) => taken.push(value),
            other => panic!("an item was waiting, got {:?}", other),
        }
    }
    assert_eq!(taken, (0..50).collect::<Vec<u32>>());
}

#[test]
fn a_full_channel_hands_the_item_back() {
    let mut channel: Channel<String> = Channel::new(1);
    assert_eq!(channel.capacity(), 1);
    assert!(!channel.is_full());
    assert_eq!(channel.send("a".to_string()), Ok(Sent::Accepted));
    assert!(channel.is_full());
    assert_eq!(channel.len(), 1);
    assert_eq!(channel.send("b".to_string()), Ok(Sent::Backpressure("b".to_string())));
    assert_eq!(channel.len(), 1);
    assert_eq!(channel.receive(), Some(Received::Item("a".to_string())));
    assert_eq!(channel.send("b".to_string()), Ok(Sent::Accepted));
}

#[test]
fn a_channel_without_room_takes_nothing() {
    let mut channel: Channel<u8> = Channel::new(0);
    assert!(channel.is_full());
    assert_eq!(channel.send(1), Ok(Sent::Backpressure(1)));
    assert_eq!(channel.receive(), None);
    assert_eq!(channel.close(), Ok(()));
    assert_eq!(channel.receive(), Some(Received::EndOfSequence));
}

#[test]
fn an_empty_open_channel_makes_the_consumer_wait() {
    let mut channel: Channel<u8> = Channel::new(3);
    assert_eq!(channel.receive(), None);
    assert_eq!(channel.receive(), None);
    assert!(!channel.is_closed());
    assert_eq!(channel.len(), 0);
}

#[test]
fn end_of_sequence_comes_after_the_last_item() {
    let mut channel: Channel<u8> = Channel::new(3);
    channel.send(1).unwrap();
    channel.send(2).unwrap();
    assert_eq!(channel.close(), Ok(()));
    assert!(channel.is_closed());
    assert_eq!(channel.receive(), Some(Received::Item(1)));
    assert_eq!(channel.receive(), Some(Received::Item(2)));
    assert_eq!(channel.receive(), Some(Received::EndOfSequence));
    assert_eq!(channel.receive(), Some(Received::EndOfSequence));
}

#[test]
fn closing_an_empty_channel_ends_it_at_once() {
    let mut channel: Channel<u8> = Channel::new(3);
    assert_eq!(channel.close(), Ok(()));
    assert_eq!(channel.receive(), Some(Received::EndOfSequence));
}

#[test]
fn sending_after_close_is_a_violation() {
    let mut channel: Channel<u8> = Channel::new(3);
    channel.send(1).unwrap();
    channel.close().unwrap();
    let violation = CallError::Protocol(Violation::SendAfterClose);
    assert_eq!(channel.send(2), Err(violation));
    assert_eq!(channel.close(), Err(violation));
    assert_eq!(channel.len(), 1);
    assert_eq!(channel.receive(), Some(Received::Item(1)));
    assert_eq!(channel.receive(), Some(Received::EndOfSequence));
}

#[test]
fn a_failed_channel_discards_and_reports_its_error() {
    let mut channel: Channel<u8> = Channel::new(3);
    channel.send(1).unwrap();
    channel.send(2).unwrap();
    assert_eq!(channel.receive(), Some(Received::Item(1)));
    assert_eq!(channel.fault(), None);
    let lost = CallError::Transport(TransportFault::ConnectionLost);
    channel.fail(lost);
    assert_eq!(channel.fault(), Some(lost));
    assert_eq!(channel.len(), 0);
    assert_eq!(channel.receive(), Some(Received::Error(lost)));
    assert_eq!(channel.receive(), Some(Received::Error(lost)));
    assert_eq!(channel.send(3), Err(lost));
    assert_eq!(channel.close(), Err(lost));
}

#[test]
fn a_channel_fails_once() {
    let mut channel: Channel<u8> = Channel::new(3);
    let first = CallError::Transport(TransportFault::Timeout);
    let second = CallError::Transport(TransportFault::MalformedFrame);
    channel.fail(first);
    channel.fail(second);
    assert_eq!(channel.fault(), Some(first));
    assert_eq!(channel.receive(), Some(Received::Error(first)));
}

#[test]
fn a_closed_channel_that_fails_reports_the_error_not_the_end() {
    let mut channel: Channel<u8> = Channel::new(3);
    channel.close().unwrap();
    let lost = CallError::Transport(TransportFault::ConnectionLost);
    channel.fail(lost);
    assert!(channel.is_closed());
    assert_eq!(channel.receive(), Some(Received::Error(lost)));
}
