use notifications::{
    InboundStep, NotificationsHandshakeError, NotificationsIn, NotificationsInSubstream,
    NotificationsOut, NotificationsOutError, NotificationsOutSubstream, OutboundStep,
};

const PROTO_NAME: &[u8] = b"/test/proto/1";

/// Polls the inbound substream with a writable channel until it wants data,
/// collecting what it writes and acknowledging the close of its write half.
fn drive_reply(sub: &mut NotificationsInSubstream) -> (Vec<u8>, bool) {
    let mut written = Vec::new();
    let mut closed = false;
    for _ in 0..16 {
        match sub.poll_next(true) {
            InboundStep::Send(bytes) => written.extend_from_slice(&bytes),
            InboundStep::CloseWrite => {
                closed = true;
                sub.on_write_closed();
            }
            _ => break,
        }
    }
    (written, closed)
}

/// Flushes the outbound substream on a writable channel, collecting what it
/// writes.
fn drain(sub: &mut NotificationsOutSubstream) -> Vec<u8> {
    let mut written = Vec::new();
    loop {
        match sub.poll_flush(true) {
            OutboundStep::Send(bytes) => written.extend_from_slice(&bytes),
            OutboundStep::Flush => sub.on_flushed(),
            OutboundStep::Done => return written,
            other => panic!("unexpected step {:?}", other),
        }
    }
}

#[test]
fn basic_works() {
    let out = NotificationsOut::new(PROTO_NAME, b"initial message".to_vec());
    let inn = NotificationsIn::new(PROTO_NAME);
    let to_responder = out.initial_frame();

    let (initial_message, mut substream) = inn.upgrade_inbound(&to_responder, false).unwrap().unwrap();
    assert_eq!(initial_message, b"initial message");
    substream.send_handshake(b"hello world".to_vec());
    let (to_initiator, closed) = drive_reply(&mut substream);
    assert!(closed);

    let (handshake, mut out_sub) = out.upgrade_outbound(&to_initiator, true).unwrap().unwrap();
    assert_eq!(handshake, b"hello world");
    out_sub.start_send(b"test message".to_vec()).unwrap();
    let wire = drain(&mut out_sub);

    substream.push_received(&wire);
    match substream.poll_next(true) {
        InboundStep::Message(msg) => assert_eq!(msg.as_slice(), b"test message"),
        other => panic!("unexpected step {:?}", other),
    }
}

#[test]
fn empty_handshake() {
    let out = NotificationsOut::new(PROTO_NAME, vec![]);
    let inn = NotificationsIn::new(PROTO_NAME);
    let to_responder = out.initial_frame();
    assert_eq!(to_responder, vec![0u8]);

    let (initial_message, mut substream) = inn.upgrade_inbound(&to_responder, false).unwrap().unwrap();
    assert!(initial_message.is_empty());
    substream.send_handshake(vec![]);
    let (to_initiator, _) = drive_reply(&mut substream);

    let (handshake, mut out_sub) = out.upgrade_outbound(&to_initiator, true).unwrap().unwrap();
    assert!(handshake.is_empty());
    out_sub.start_send(Vec::new()).unwrap();
    let wire = drain(&mut out_sub);

    substream.push_received(&wire);
    match substream.poll_next(true) {
        InboundStep::Message(msg) => assert!(msg.is_empty()),
        other => panic!("unexpected step {:?}", other),
    }
}

#[test]
fn refused() {
    let out = NotificationsOut::new(PROTO_NAME, b"hello".to_vec());
    let inn = NotificationsIn::new(PROTO_NAME);
    let to_responder = out.initial_frame();

    let (initial_msg, substream) = inn.upgrade_inbound(&to_responder, false).unwrap().unwrap();
    assert_eq!(initial_msg, b"hello");
    // The responder closes the substream without replying.
    drop(substream);

    let outcome = out.upgrade_outbound(&[], true).unwrap();
    assert!(outcome.is_err());
}

#[test]
fn large_initial_message_refused() {
    let out = NotificationsOut::new(PROTO_NAME, (0..32768).map(|_| 0).collect::<Vec<_>>());
    let inn = NotificationsIn::new(PROTO_NAME);
    let to_responder = out.initial_frame();

    let ret = inn.upgrade_inbound(&to_responder, false).unwrap();
    assert!(ret.is_err());
    match ret {
        Err(NotificationsHandshakeError::TooLarge { requested, max }) => {
            assert_eq!(requested, 32768);
            assert_eq!(max, 1024);
        }
        _ => panic!("expected TooLarge"),
    }

    // The responder drops the substream; the initiator sees its end.
    let ret = out.upgrade_outbound(&[], true).unwrap();
    assert!(ret.is_err());
}

#[test]
fn large_handshake_refused() {
    let out = NotificationsOut::new(PROTO_NAME, b"initial message".to_vec());
    let inn = NotificationsIn::new(PROTO_NAME);
    let to_responder = out.initial_frame();

    let (initial_message, mut substream) = inn.upgrade_inbound(&to_responder, false).unwrap().unwrap();
    assert_eq!(initial_message, b"initial message");

    substream.send_handshake((0..32768).map(|_| 0).collect::<Vec<_>>());
    let (to_initiator, _) = drive_reply(&mut substream);

    let ret = out.upgrade_outbound(&to_initiator, true).unwrap();
    assert!(ret.is_err());
    assert!(matches!(ret, Err(NotificationsHandshakeError::TooLarge { requested: 32768, max: 1024 })));
}

#[test]
fn buffer_is_full_closes_connection() {
    let out = NotificationsOut::new(PROTO_NAME, vec![]);
    let inn = NotificationsIn::new(PROTO_NAME);
    let (initial_message, mut substream) =
        inn.upgrade_inbound(&out.initial_frame(), false).unwrap().unwrap();
    assert!(initial_message.is_empty());
    substream.send_handshake(vec![]);
    let (to_initiator, _) = drive_reply(&mut substream);

    let (handshake, mut out_sub) = out.upgrade_outbound(&to_initiator, false).unwrap().unwrap();
    assert!(handshake.is_empty());

    // Push an item and flush so that the test works.
    out_sub.start_send(b"hello world".to_vec()).unwrap();
    let wire = drain(&mut out_sub);
    substream.push_received(&wire);
    assert!(matches!(substream.poll_next(true), InboundStep::Message(_)));

    let mut refused_at = None;
    for i in 0..32768 {
        // Push an item without flushing until an error happens because the
        // buffer is full.
        let message = b"hello world!".to_vec();
        if out_sub.poll_ready().is_err() {
            refused_at = Some(i);
            break;
        }
        if out_sub.start_send(message).is_err() {
            refused_at = Some(i);
            break;
        }
    }
    let refused_at = refused_at.expect("the queue never filled up");
    assert!(refused_at <= 512);
    assert_eq!(refused_at, 512);
    assert_eq!(out_sub.queue_len(), 512);
    assert!(matches!(out_sub.push_message(vec![1]), Err(NotificationsOutError::Clogged)));
}
