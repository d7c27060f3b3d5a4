//! Message-channel behaviour: truncation, FIFO order, the queue bound and
//! the error cases.

use ruix::error::IpcError;
use ruix::ipc::{
    create_channel, receive_message, send_message, Channel, ChannelRegistry, Message,
    MAX_MESSAGE_SIZE, MAX_QUEUE_SIZE,
};

#[test]
fn message_keeps_payload_and_length() {
    let m = Message::new(7, 42, b"hello");
    assert_eq!(m.sender_pid, 7);
    assert_eq!(m.msg_type, 42);
    assert_eq!(m.data_len, 5);
    assert_eq!(m.data(), b"hello");
}

#[test]
fn message_truncates_to_capacity() {
    let big = vec![0xABu8; MAX_MESSAGE_SIZE + 44];
    let m = Message::new(1, 2, &big);
    assert_eq!(m.data_len, MAX_MESSAGE_SIZE);
    assert_eq!(m.data().len(), MAX_MESSAGE_SIZE);
}

#[test]
fn message_at_exact_capacity_is_kept_whole() {
    let exact = vec![0x5Au8; MAX_MESSAGE_SIZE];
    let m = Message::new(1, 2, &exact);
    assert_eq!(m.data_len, MAX_MESSAGE_SIZE);
    assert_eq!(m.data(), &exact[..]);
}

#[test]
fn create_channel_assigns_sequential_ids() {
    let mut reg = ChannelRegistry::new();
    assert_eq!(create_channel(&mut reg, 1, 2), Ok(1));
    assert_eq!(create_channel(&mut reg, 1, 3), Ok(2));
    assert_eq!(create_channel(&mut reg, 2, 3), Ok(3));
}

#[test]
fn create_channel_with_self_is_circular() {
    let mut reg = ChannelRegistry::new();
    assert_eq!(create_channel(&mut reg, 5, 5), Err(IpcError::CircularTransfer));
}

#[test]
fn send_then_receive_returns_message() {
    let mut reg = ChannelRegistry::new();
    let cid = create_channel(&mut reg, 2, 3).unwrap();
    assert_eq!(send_message(&mut reg, 2, cid, 7, b"ping"), Ok(()));
    let got = receive_message(&mut reg, 3, cid).unwrap().unwrap();
    assert_eq!(got.sender_pid, 2);
    assert_eq!(got.msg_type, 7);
    assert_eq!(got.data_len, 4);
    assert_eq!(got.data(), b"ping");
}

#[test]
fn burst_preserves_send_order() {
    let mut reg = ChannelRegistry::new();
    let cid = create_channel(&mut reg, 2, 3).unwrap();
    for i in 0..5u8 {
        send_message(&mut reg, 2, cid, i as u32, &[i]).unwrap();
    }
    for i in 0..5u8 {
        let got = receive_message(&mut reg, 3, cid).unwrap().unwrap();
        assert_eq!(got.msg_type, i as u32);
        assert_eq!(got.data(), &[i]);
    }
    assert_eq!(receive_message(&mut reg, 3, cid).unwrap(), None);
}

#[test]
fn directions_are_independent() {
    let mut reg = ChannelRegistry::new();
    let cid = create_channel(&mut reg, 2, 3).unwrap();
    send_message(&mut reg, 2, cid, 1, b"to-three").unwrap();
    send_message(&mut reg, 3, cid, 2, b"to-two").unwrap();
    let for_two = receive_message(&mut reg, 2, cid).unwrap().unwrap();
    assert_eq!(for_two.sender_pid, 3);
    assert_eq!(for_two.data(), b"to-two");
    let for_three = receive_message(&mut reg, 3, cid).unwrap().unwrap();
    assert_eq!(for_three.sender_pid, 2);
    assert_eq!(for_three.data(), b"to-three");
}

#[test]
fn send_beyond_queue_capacity_is_full() {
    let mut reg = ChannelRegistry::new();
    let cid = create_channel(&mut reg, 2, 3).unwrap();
    for _ in 0..MAX_QUEUE_SIZE {
        assert_eq!(send_message(&mut reg, 2, cid, 0, b"x"), Ok(()));
    }
    assert_eq!(send_message(&mut reg, 2, cid, 0, b"x"), Err(IpcError::ChannelFull));
    // The opposite direction still has room.
    assert_eq!(send_message(&mut reg, 3, cid, 0, b"y"), Ok(()));
}

#[test]
fn send_from_stranger_is_invalid_sender() {
    let mut reg = ChannelRegistry::new();
    let cid = create_channel(&mut reg, 2, 3).unwrap();
    assert_eq!(send_message(&mut reg, 9, cid, 0, b"x"), Err(IpcError::InvalidSender));
}

#[test]
fn send_to_unknown_channel_is_not_found() {
    let mut reg = ChannelRegistry::new();
    assert_eq!(send_message(&mut reg, 2, 77, 0, b"x"), Err(IpcError::ChannelNotFound));
    assert_eq!(
        receive_message(&mut reg, 2, 77).map(|_| ()),
        Err(IpcError::ChannelNotFound)
    );
}

#[test]
fn receive_by_stranger_is_invalid_sender() {
    let mut reg = ChannelRegistry::new();
    let cid = create_channel(&mut reg, 2, 3).unwrap();
    send_message(&mut reg, 2, cid, 0, b"x").unwrap();
    // An access failure, not an empty queue: the stranger gets an error and
    // the queued message stays for the real endpoint.
    assert_eq!(
        receive_message(&mut reg, 9, cid).map(|_| ()),
        Err(IpcError::InvalidSender)
    );
    assert!(receive_message(&mut reg, 3, cid).unwrap().is_some());
}

#[test]
fn receive_on_empty_queue_is_none() {
    let mut reg = ChannelRegistry::new();
    let cid = create_channel(&mut reg, 2, 3).unwrap();
    assert_eq!(receive_message(&mut reg, 3, cid).unwrap(), None);
}

#[test]
fn channel_has_endpoint_checks_both_sides() {
    let c = Channel::new(1, 4, 9);
    assert!(c.has_endpoint(4));
    assert!(c.has_endpoint(9));
    assert!(!c.has_endpoint(5));
}

#[test]
fn cleanup_removes_only_that_processes_channels() {
    let mut reg = ChannelRegistry::new();
    let a = create_channel(&mut reg, 2, 3).unwrap();
    let b = create_channel(&mut reg, 4, 5).unwrap();
    let c = create_channel(&mut reg, 3, 4).unwrap();
    reg.cleanup_process_channels(3);
    assert!(reg.get_channel(a).is_none());
    assert!(reg.get_channel(b).is_some());
    assert!(reg.get_channel(c).is_none());
    let ids = reg.get_channels_for_process(4);
    assert_eq!(ids, vec![b]);
}
