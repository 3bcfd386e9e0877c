use rether::queue::{Channel, SendError};

#[test]
fn messages_leave_in_the_order_they_were_sent() {
    let mut channel: Channel<u32> = Channel::new();
    assert!(channel.open());
    assert_eq!(channel.try_recv(), None);
    for m in [3u32, 1, 2] {
        assert!(channel.send(m).is_ok());
    }
    assert_eq!(channel.len(), 3);
    assert_eq!(channel.try_recv(), Some(3));
    assert_eq!(channel.try_recv(), Some(1));
    assert_eq!(channel.try_recv(), Some(2));
    assert_eq!(channel.try_recv(), None);
}

#[test]
fn drain_takes_everything_once() {
    let mut channel: Channel<u32> = Channel::new();
    for m in 0..5u32 {
        channel.send(m).unwrap();
    }
    assert_eq!(channel.drain(), vec![0, 1, 2, 3, 4]);
    assert_eq!(channel.len(), 0);
    assert!(channel.drain().is_empty());
    assert!(channel.open());
}

#[test]
fn a_closed_channel_hands_the_message_back() {
    let mut channel: Channel<u32> = Channel::new();
    channel.send(7).unwrap();
    channel.close();
    assert!(!channel.open());
    match channel.send(8) {
        Err(SendError(m)) => assert_eq!(m, 8),
        Ok(()) => panic!("the channel is closed"),
    }
    assert_eq!(channel.len(), 1);
    assert_eq!(channel.try_recv(), Some(7));
}
