use notifications::{
    encode_length_prefixed, read_length_prefixed, InboundStep, NotificationsHandshakeError,
    NotificationsIn, NotificationsOut, NotificationsOutSubstream, OutboundStep, PrefixedRead,
    MAX_HANDSHAKE_SIZE, MAX_PENDING_MESSAGES,
};

const PROTO: &[u8] = b"/test/proto/1";

#[test]
fn varint_prefix_of_three_hundred() {
    let msg = vec![7u8; 300];
    let bytes = encode_length_prefixed(&msg);
    assert_eq!(&bytes[..2], &[0xac, 0x02]);
    assert_eq!(bytes.len(), 302);
}

#[test]
fn read_round_trip_with_trailing_bytes() {
    let mut bytes = encode_length_prefixed(b"abc");
    bytes.extend_from_slice(b"xyz");
    match read_length_prefixed(&bytes, false, 10) {
        PrefixedRead::Ready { message, consumed } => {
            assert_eq!(message, b"abc");
            assert_eq!(consumed, 4);
        }
        other => panic!("unexpected {:?}", other),
    }
}

#[test]
fn read_pending_and_truncated() {
    assert!(matches!(read_length_prefixed(&[], false, 10), PrefixedRead::Pending));
    assert!(matches!(read_length_prefixed(&[3, 1], false, 10), PrefixedRead::Pending));
    assert!(matches!(read_length_prefixed(&[0x80], false, 10), PrefixedRead::Pending));
    assert!(matches!(read_length_prefixed(&[3, 1], true, 10), PrefixedRead::Truncated));
    assert!(matches!(read_length_prefixed(&[], true, 10), PrefixedRead::Truncated));
}

#[test]
fn read_invalid_varints() {
    assert!(matches!(read_length_prefixed(&[0xff; 10], false, 10), PrefixedRead::InvalidVarint(_)));
    // Not minimal.
    assert!(matches!(read_length_prefixed(&[0x81, 0x00], false, 10), PrefixedRead::InvalidVarint(_)));
    // Ten bytes whose last one overflows 64 bits.
    let mut over = vec![0x80u8; 9];
    over.push(0x02);
    assert!(matches!(read_length_prefixed(&over, false, usize::MAX), PrefixedRead::InvalidVarint(_)));
}

#[test]
fn handshake_limit_is_inclusive() {
    let inn = NotificationsIn::new(PROTO);
    let at_limit = NotificationsOut::new(PROTO, vec![1; MAX_HANDSHAKE_SIZE]);
    let (msg, _) = inn.upgrade_inbound(&at_limit.initial_frame(), false).unwrap().unwrap();
    assert_eq!(msg.len(), 1024);

    let above = NotificationsOut::new(PROTO, vec![1; 1025]);
    // The length alone is enough to refuse.
    let prefix = &above.initial_frame()[..2];
    assert!(matches!(
        inn.upgrade_inbound(prefix, false),
        Some(Err(NotificationsHandshakeError::TooLarge { requested: 1025, max: 1024 }))
    ));
}

#[test]
fn handshake_errors() {
    let inn = NotificationsIn::new(PROTO);
    assert!(inn.upgrade_inbound(&[5, 1, 2], false).is_none());
    match inn.upgrade_inbound(&[5, 1, 2], true) {
        Some(Err(NotificationsHandshakeError::Io(e))) => {
            assert_eq!(e.kind(), std::io::ErrorKind::UnexpectedEof)
        }
        _ => panic!("expected an I/O error"),
    }
    assert!(matches!(
        inn.upgrade_inbound(&[0xff; 12], false),
        Some(Err(NotificationsHandshakeError::VarintDecode(_)))
    ));
}

#[test]
fn protocol_names() {
    let inn = NotificationsIn::new(PROTO);
    assert_eq!(inn.protocol_name(), PROTO);
    assert_eq!(inn.protocol_info(), vec![PROTO.to_vec()]);
    let out = NotificationsOut::new(PROTO, vec![1, 2]);
    assert_eq!(out.protocol_info(), vec![PROTO.to_vec()]);
    assert_eq!(out.initial_frame(), vec![2, 1, 2]);
}

#[test]
fn second_reply_is_ignored() {
    let inn = NotificationsIn::new(PROTO);
    let (_, mut sub) = inn.upgrade_inbound(&[0], false).unwrap().unwrap();
    assert!(matches!(sub.poll_next(true), InboundStep::Pending));
    sub.send_handshake(b"first".to_vec());
    sub.send_handshake(b"second".to_vec());
    assert!(matches!(sub.poll_next(false), InboundStep::Pending));
    match sub.poll_next(true) {
        InboundStep::Send(bytes) => assert_eq!(bytes, b"\x05first"),
        other => panic!("unexpected {:?}", other),
    }
    sub.send_handshake(b"third".to_vec());
    assert!(matches!(sub.poll_next(true), InboundStep::CloseWrite));
}

#[test]
fn no_write_after_reply() {
    let inn = NotificationsIn::new(PROTO);
    let (_, mut sub) = inn.upgrade_inbound(&[0], false).unwrap().unwrap();
    sub.send_handshake(vec![9]);
    assert!(matches!(sub.poll_next(true), InboundStep::Send(_)));
    sub.on_write_closed();
    sub.send_handshake(vec![8]);
    for _ in 0..4 {
        assert!(matches!(sub.poll_next(true), InboundStep::NeedData));
    }
    sub.push_received(&[1, 42, 0]);
    assert!(matches!(sub.poll_next(true), InboundStep::Message(ref m) if m == &vec![42u8]));
    assert!(matches!(sub.poll_next(true), InboundStep::Message(ref m) if m.is_empty()));
    sub.end_of_input();
    assert!(matches!(sub.poll_next(true), InboundStep::End));
}

#[test]
fn inbound_truncated_frame_fails() {
    let inn = NotificationsIn::new(PROTO);
    // Bytes after the initial message stay with the substream.
    let (_, mut sub) = inn.upgrade_inbound(&[0, 3, 1], false).unwrap().unwrap();
    sub.send_handshake(vec![]);
    assert!(matches!(sub.poll_next(true), InboundStep::Send(_)));
    assert!(matches!(sub.poll_next(true), InboundStep::CloseWrite));
    sub.on_write_closed();
    assert!(matches!(sub.poll_next(true), InboundStep::NeedData));
    sub.end_of_input();
    assert!(matches!(sub.poll_next(true), InboundStep::Failed(_)));
}

#[test]
fn flush_keeps_order() {
    let mut sub = NotificationsOutSubstream::new();
    sub.push_message(b"one".to_vec()).unwrap();
    sub.push_message(b"two".to_vec()).unwrap();
    sub.push_message(vec![]).unwrap();
    assert_eq!(sub.queue_len(), 3);
    assert!(matches!(sub.poll_flush(false), OutboundStep::Pending));
    let mut sent = Vec::new();
    loop {
        match sub.poll_flush(true) {
            OutboundStep::Send(b) => sent.push(b),
            OutboundStep::Flush => sub.on_flushed(),
            OutboundStep::Done => break,
            other => panic!("unexpected {:?}", other),
        }
    }
    assert_eq!(sent, vec![b"\x03one".to_vec(), b"\x03two".to_vec(), vec![0]]);
    assert_eq!(sub.queue_len(), 0);
}

#[test]
fn close_flushes_first() {
    let mut sub = NotificationsOutSubstream::new();
    sub.push_message(b"x".to_vec()).unwrap();
    assert!(matches!(sub.poll_close(true), OutboundStep::Send(ref b) if b == &vec![1u8, b'x']));
    assert!(matches!(sub.poll_close(true), OutboundStep::Flush));
    sub.on_flushed();
    assert!(matches!(sub.poll_close(true), OutboundStep::CloseWrite));
}

#[test]
fn queue_cap_refuses_exactly_at_capacity() {
    let mut sub = NotificationsOutSubstream::new();
    for i in 0..MAX_PENDING_MESSAGES {
        assert!(sub.poll_ready().is_ok());
        sub.push_message(vec![i as u8]).unwrap();
    }
    assert_eq!(sub.queue_len(), 512);
    assert!(sub.push_message(vec![]).is_err());
    assert_eq!(sub.queue_len(), 512);
    assert!(matches!(sub.poll_flush(true), OutboundStep::Send(ref b) if b == &vec![1u8, 0]));
    assert!(sub.push_message(vec![]).is_ok());
}

#[test]
fn longest_varint_is_accepted() {
    // usize::MAX on 64 bits: nine continuation bytes, then 1.
    let mut prefix = vec![0xffu8; 9];
    prefix.push(0x01);
    assert!(matches!(read_length_prefixed(&prefix, false, usize::MAX), PrefixedRead::Pending));
    assert!(matches!(read_length_prefixed(&prefix, false, 10), PrefixedRead::TooLarge(n) if n == usize::MAX));
}

#[test]
fn leftover_after_initial_message_is_kept() {
    let inn = NotificationsIn::new(PROTO);
    let mut bytes = encode_length_prefixed(b"init");
    bytes.extend_from_slice(&encode_length_prefixed(b"next"));
    let (msg, mut sub) = inn.upgrade_inbound(&bytes, false).unwrap().unwrap();
    assert_eq!(msg, b"init");
    sub.send_handshake(vec![]);
    assert!(matches!(sub.poll_next(true), InboundStep::Send(_)));
    assert!(matches!(sub.poll_next(true), InboundStep::CloseWrite));
    sub.on_write_closed();
    assert!(matches!(sub.poll_next(true), InboundStep::Message(ref m) if m == b"next"));
}

#[test]
fn errors_convert_from_io() {
    let e = NotificationsHandshakeError::from(std::io::Error::from(std::io::ErrorKind::BrokenPipe));
    assert!(matches!(e, NotificationsHandshakeError::Io(ref x) if x.kind() == std::io::ErrorKind::BrokenPipe));
    let e = notifications::NotificationsOutError::from(std::io::Error::from(std::io::ErrorKind::BrokenPipe));
    assert!(matches!(e, notifications::NotificationsOutError::Io(_)));
}
