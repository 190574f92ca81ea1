//! The two upgrade descriptors and their handshakes: the initiator writes
//! its initial message and reads the reply; the responder reads the
//! initial message and later answers it through its substream.

use vstd::prelude::*;
use vstd::slice::{slice_subrange, slice_to_vec};
use crate::error::{unexpected_eof, NotificationsHandshakeError};
use crate::frame::{
    encode_length_prefixed, frame, read_length_prefixed, read_outcome, PrefixedRead, ReadOutcome,
    MAX_HANDSHAKE_SIZE,
};
use crate::inbound::{InboundView, NotificationsInSubstream, ReplyView};
use crate::outbound::{NotificationsOutSubstream, OutboundView};

verus! {

/// Upgrade that accepts a substream, sends back a status message, then
/// becomes a unidirectional stream of messages.
#[derive(Clone, Debug)]
pub struct NotificationsIn {
    /// Protocol name to use when negotiating the substream.
    protocol_name: Vec<u8>,
}

/// Upgrade that opens a substream, waits for the remote to accept by
/// sending back a status message, then becomes a unidirectional sink of
/// data.
#[derive(Clone, Debug)]
pub struct NotificationsOut {
    /// Protocol name to use when negotiating the substream.
    protocol_name: Vec<u8>,
    /// Message to send when we start the handshake.
    initial_message: Vec<u8>,
}

/// `e` is the error that reading a handshake with outcome `o` reports.
pub open spec fn handshake_error(o: ReadOutcome, e: NotificationsHandshakeError) -> bool {
    match o {
        ReadOutcome::TooLarge(n) => e is TooLarge && e->requested == n && e->max == MAX_HANDSHAKE_SIZE,
        ReadOutcome::Truncated => e is Io,
        ReadOutcome::InvalidVarint => e is VarintDecode,
        _ => false,
    }
}

/// Reading a handshake message from the start of `received`. On success the
/// message, and the bytes that follow it.
fn read_handshake(received: &[u8], eof: bool) -> (r: Option<Result<(Vec<u8>, Vec<u8>), NotificationsHandshakeError>>)
    ensures
        (r is None) <==> read_outcome(received@, eof, MAX_HANDSHAKE_SIZE as nat) is Pending,
        r matches Some(Err(e)) ==> handshake_error(read_outcome(received@, eof, MAX_HANDSHAKE_SIZE as nat), e),
        (r matches Some(Ok(_))) <==> read_outcome(received@, eof, MAX_HANDSHAKE_SIZE as nat) is Ready,
        r matches Some(Ok(p)) ==> read_outcome(received@, eof, MAX_HANDSHAKE_SIZE as nat)->Ready_0 == p.0@
            && p.1@ == received@.subrange(
            read_outcome(received@, eof, MAX_HANDSHAKE_SIZE as nat)->Ready_1 as int,
            received@.len() as int,
        ),
{
    match read_length_prefixed(received, eof, MAX_HANDSHAKE_SIZE) {
        PrefixedRead::Pending => None,
        PrefixedRead::Ready { message, consumed } => {
            let rest = slice_to_vec(slice_subrange(received, consumed, received.len()));
            Some(Ok((message, rest)))
        },
        PrefixedRead::TooLarge(n) => Some(
            Err(NotificationsHandshakeError::TooLarge { requested: n, max: MAX_HANDSHAKE_SIZE }),
        ),
        PrefixedRead::Truncated => Some(Err(NotificationsHandshakeError::Io(unexpected_eof()))),
        PrefixedRead::InvalidVarint(e) => Some(Err(NotificationsHandshakeError::VarintDecode(e))),
    }
}

impl NotificationsIn {
    pub closed spec fn name(&self) -> Seq<u8> {
        self.protocol_name@
    }

    /// Builds a new potential upgrade.
    pub fn new(protocol_name: &[u8]) -> (r: Self)
        ensures
            r.name() == protocol_name@,
    {
        NotificationsIn { protocol_name: slice_to_vec(protocol_name) }
    }

    /// Returns the name of the protocol that we accept.
    pub fn protocol_name(&self) -> (r: &[u8])
        ensures
            r@ == self.name(),
    {
        self.protocol_name.as_slice()
    }

    /// The protocols offered in negotiation: our one name.
    pub fn protocol_info(&self) -> (r: Vec<Vec<u8>>)
        ensures
            r@.len() == 1,
            r@[0]@ == self.name(),
    {
        let mut r = Vec::new();
        r.push(slice_to_vec(self.protocol_name.as_slice()));
        r
    }

    /// Reads the remote's initial message from the bytes `received` so far
    /// (`eof`: the remote has closed its write half after them). `None`
    /// until enough bytes have come; then the message and a substream that
    /// still owes its reply, or the error.
    pub fn upgrade_inbound(&self, received: &[u8], eof: bool) -> (r: Option<Result<(Vec<u8>, NotificationsInSubstream), NotificationsHandshakeError>>)
        ensures
            (r is None) <==> read_outcome(received@, eof, MAX_HANDSHAKE_SIZE as nat) is Pending,
            r matches Some(Err(e)) ==> handshake_error(read_outcome(received@, eof, MAX_HANDSHAKE_SIZE as nat), e),
            (r matches Some(Ok(_))) <==> read_outcome(received@, eof, MAX_HANDSHAKE_SIZE as nat) is Ready,
            r matches Some(Ok(p)) ==> read_outcome(received@, eof, MAX_HANDSHAKE_SIZE as nat)->Ready_0 == p.0@
                && p.1@ == (InboundView {
                reply: ReplyView::NotSent,
                received: received@.subrange(
                    read_outcome(received@, eof, MAX_HANDSHAKE_SIZE as nat)->Ready_1 as int,
                    received@.len() as int,
                ),
                eof,
            }),
    {
        match read_handshake(received, eof) {
            None => None,
            Some(Ok((message, rest))) => Some(Ok((message, NotificationsInSubstream::new(rest, eof)))),
            Some(Err(e)) => Some(Err(e)),
        }
    }
}

impl NotificationsOut {
    pub closed spec fn name(&self) -> Seq<u8> {
        self.protocol_name@
    }

    pub closed spec fn initial(&self) -> Seq<u8> {
        self.initial_message@
    }

    /// Builds a new potential upgrade. An initial message above the
    /// handshake limit is accepted here; the remote refuses it.
    pub fn new(protocol_name: &[u8], initial_message: Vec<u8>) -> (r: Self)
        ensures
            r.name() == protocol_name@,
            r.initial() == initial_message@,
    {
        NotificationsOut { protocol_name: slice_to_vec(protocol_name), initial_message }
    }

    /// The protocols offered in negotiation: our one name.
    pub fn protocol_info(&self) -> (r: Vec<Vec<u8>>)
        ensures
            r@.len() == 1,
            r@[0]@ == self.name(),
    {
        let mut r = Vec::new();
        r.push(slice_to_vec(self.protocol_name.as_slice()));
        r
    }

    /// The bytes that open the handshake: our initial message with its
    /// length prefix.
    pub fn initial_frame(&self) -> (r: Vec<u8>)
        ensures
            r@ == frame(self.initial()),
    {
        encode_length_prefixed(self.initial_message.as_slice())
    }

    /// Reads the remote's reply from the bytes `received` after our initial
    /// message (`eof`: the remote has closed its write half after them).
    /// `None` until enough bytes have come; then the reply and an empty
    /// outbound substream, or the error. A remote that refuses closes the
    /// substream without a reply, which gives an I/O error.
    pub fn upgrade_outbound(&self, received: &[u8], eof: bool) -> (r: Option<Result<(Vec<u8>, NotificationsOutSubstream), NotificationsHandshakeError>>)
        ensures
            (r is None) <==> read_outcome(received@, eof, MAX_HANDSHAKE_SIZE as nat) is Pending,
            r matches Some(Err(e)) ==> handshake_error(read_outcome(received@, eof, MAX_HANDSHAKE_SIZE as nat), e),
            (r matches Some(Ok(_))) <==> read_outcome(received@, eof, MAX_HANDSHAKE_SIZE as nat) is Ready,
            r matches Some(Ok(p)) ==> read_outcome(received@, eof, MAX_HANDSHAKE_SIZE as nat)->Ready_0 == p.0@
                && p.1@ == (OutboundView { queue: Seq::empty(), need_flush: false }),
    {
        match read_handshake(received, eof) {
            None => None,
            Some(Ok((message, _rest))) => Some(Ok((message, NotificationsOutSubstream::new()))),
            Some(Err(e)) => Some(Err(e)),
        }
    }
}

} // verus!
