//! The receiving end of a notifications substream: it owes the remote a
//! handshake reply, closes its write half once the reply is out, and then
//! yields the messages that arrive.

use vstd::prelude::*;
use vstd::slice::{slice_subrange, slice_to_vec};
use crate::error::{unexpected_eof, varint_io_error};
use crate::frame::{concat, encode_length_prefixed, frame, lemma_frame_round_trip, read_length_prefixed, read_outcome, PrefixedRead, ReadOutcome};

verus! {

/// State of the handshake sending back process.
pub enum HandshakeReplyState {
    /// Waiting for the user to give us the handshake message.
    NotSent,
    /// User gave us the handshake message. Trying to push it in the socket.
    PendingSend(Vec<u8>),
    /// Handshake message was pushed in the socket. Still need to close the
    /// write half.
    Closing,
    /// Handshake message sent and write half closed.
    Sent,
}

/// Model of [`HandshakeReplyState`].
pub enum ReplyView {
    NotSent,
    PendingSend(Seq<u8>),
    Closing,
    Sent,
}

impl HandshakeReplyState {
    pub open spec fn view(&self) -> ReplyView {
        match self {
            HandshakeReplyState::NotSent => ReplyView::NotSent,
            HandshakeReplyState::PendingSend(m) => ReplyView::PendingSend(m@),
            HandshakeReplyState::Closing => ReplyView::Closing,
            HandshakeReplyState::Sent => ReplyView::Sent,
        }
    }
}

/// A substream for incoming notification messages.
///
/// It starts in a state in which the handshake reply must first be sent back
/// to the remote; no message comes before that has been done.
pub struct NotificationsInSubstream {
    handshake: HandshakeReplyState,
    /// Bytes received from the remote and not yet handed out.
    received: Vec<u8>,
    /// Whether the remote has closed its write half.
    eof: bool,
}

/// Model of a [`NotificationsInSubstream`].
pub struct InboundView {
    pub reply: ReplyView,
    pub received: Seq<u8>,
    pub eof: bool,
}

/// What the driver of an inbound substream has to do next.
#[derive(Debug)]
pub enum InboundStep {
    /// Nothing until the reply is given or the channel can take a write.
    Pending,
    /// Write these bytes to the channel, then poll again.
    Send(Vec<u8>),
    /// Close the write half; report completion with `on_write_closed`.
    CloseWrite,
    /// Read more bytes from the channel and hand them over.
    NeedData,
    /// A message from the remote.
    Message(Vec<u8>),
    /// The remote ended the stream cleanly.
    End,
    /// The stream is broken.
    Failed(std::io::Error),
}

/// Model of an [`InboundStep`].
pub enum InboundStepView {
    Pending,
    Send(Seq<u8>),
    CloseWrite,
    NeedData,
    Message(Seq<u8>),
    End,
    Failed,
}

impl InboundStep {
    pub open spec fn view(&self) -> InboundStepView {
        match self {
            InboundStep::Pending => InboundStepView::Pending,
            InboundStep::Send(b) => InboundStepView::Send(b@),
            InboundStep::CloseWrite => InboundStepView::CloseWrite,
            InboundStep::NeedData => InboundStepView::NeedData,
            InboundStep::Message(m) => InboundStepView::Message(m@),
            InboundStep::End => InboundStepView::End,
            InboundStep::Failed(_) => InboundStepView::Failed,
        }
    }
}

/// The model after the user hands over the reply `message`: only the first
/// reply counts.
pub open spec fn send_handshake_spec(s: InboundView, message: Seq<u8>) -> InboundView {
    if s.reply is NotSent {
        InboundView { reply: ReplyView::PendingSend(message), ..s }
    } else {
        s
    }
}

/// The model after the write half has been closed.
pub open spec fn write_closed_spec(s: InboundView) -> InboundView {
    if s.reply is Closing {
        InboundView { reply: ReplyView::Sent, ..s }
    } else {
        s
    }
}

/// One poll of an inbound substream whose channel can (or cannot) take a
/// write: the next model and the step to take.
pub open spec fn poll_next_spec(s: InboundView, write_ready: bool) -> (InboundView, InboundStepView) {
    match s.reply {
        ReplyView::NotSent => (s, InboundStepView::Pending),
        ReplyView::PendingSend(m) => if write_ready {
            (InboundView { reply: ReplyView::Closing, ..s }, InboundStepView::Send(frame(m)))
        } else {
            (s, InboundStepView::Pending)
        },
        ReplyView::Closing => (s, InboundStepView::CloseWrite),
        ReplyView::Sent => match read_outcome(s.received, s.eof, usize::MAX as nat) {
            ReadOutcome::Pending => (s, InboundStepView::NeedData),
            ReadOutcome::Ready(m, used) => (
                InboundView { received: s.received.subrange(used as int, s.received.len() as int), ..s },
                InboundStepView::Message(m),
            ),
            ReadOutcome::Truncated => if s.received.len() == 0 {
                (s, InboundStepView::End)
            } else {
                (s, InboundStepView::Failed)
            },
            _ => (s, InboundStepView::Failed),
        },
    }
}

/// The reply has been pushed into the channel.
pub open spec fn reply_done(s: InboundView) -> bool {
    s.reply is Closing || s.reply is Sent
}

/// What the owner of an inbound substream can do to it.
pub enum InboundEvent {
    SendReply(Seq<u8>),
    Poll(bool),
    WriteClosed,
    Received(Seq<u8>),
    Eof,
}

/// The model after the events `ev`, and the steps that its polls gave.
pub open spec fn run_events(s: InboundView, ev: Seq<InboundEvent>) -> (InboundView, Seq<InboundStepView>)
    decreases ev.len(),
{
    if ev.len() == 0 {
        (s, Seq::empty())
    } else {
        let (t, steps) = run_events(s, ev.drop_last());
        match ev.last() {
            InboundEvent::SendReply(m) => (send_handshake_spec(t, m), steps),
            InboundEvent::Poll(w) => {
                let (u, step) = poll_next_spec(t, w);
                (u, steps.push(step))
            },
            InboundEvent::WriteClosed => (write_closed_spec(t), steps),
            InboundEvent::Received(d) => (InboundView { received: t.received + d, ..t }, steps),
            InboundEvent::Eof => (InboundView { eof: true, ..t }, steps),
        }
    }
}

/// Only the first reply counts: handing over a second one changes nothing.
pub proof fn lemma_reply_once(s: InboundView, first: Seq<u8>, second: Seq<u8>)
    ensures
        send_handshake_spec(send_handshake_spec(s, first), second) == send_handshake_spec(s, first),
{
}

/// Once the reply has been pushed into the channel, whatever happens the
/// substream never asks for another write.
pub proof fn lemma_no_write_after_reply(s: InboundView, ev: Seq<InboundEvent>)
    requires
        reply_done(s),
    ensures
        reply_done(run_events(s, ev).0),
        forall|i: int| 0 <= i < run_events(s, ev).1.len() ==> !(run_events(s, ev).1[i] is Send),
    decreases ev.len(),
{
    if ev.len() > 0 {
        lemma_no_write_after_reply(s, ev.drop_last());
    }
}

/// The messages that `k` polls of a substream yield, up to the first poll
/// that yields no message.
pub open spec fn messages_read(s: InboundView, k: nat) -> Seq<Seq<u8>>
    decreases k,
{
    if k == 0 {
        Seq::empty()
    } else {
        let (t, step) = poll_next_spec(s, true);
        match step {
            InboundStepView::Message(m) => seq![m] + messages_read(t, (k - 1) as nat),
            _ => Seq::empty(),
        }
    }
}

/// The model after `k` polls that each yield a message.
pub open spec fn after_reads(s: InboundView, k: nat) -> InboundView
    decreases k,
{
    if k == 0 {
        s
    } else {
        let (t, step) = poll_next_spec(s, true);
        if step is Message {
            after_reads(t, (k - 1) as nat)
        } else {
            s
        }
    }
}

/// Once the reply is sent, a substream that has received the frames of
/// `ms`, one after the other, yields exactly those messages, in order, and
/// keeps what follows them. If the remote has ended the stream right after
/// them, the next poll reports a clean end.
pub proof fn lemma_reads_in_order(s: InboundView, ms: Seq<Seq<u8>>, tail: Seq<u8>)
    requires
        s.reply is Sent,
        s.received == concat(ms.map_values(|m: Seq<u8>| frame(m))) + tail,
        forall|i: int| 0 <= i < ms.len() ==> ms[i].len() <= usize::MAX,
    ensures
        messages_read(s, ms.len()) == ms,
        after_reads(s, ms.len()) == (InboundView { received: tail, ..s }),
        (s.eof && tail.len() == 0) ==> poll_next_spec(after_reads(s, ms.len()), true).1 is End,
    decreases ms.len(),
{
    if ms.len() > 0 {
        let fs = ms.map_values(|m: Seq<u8>| frame(m));
        let rest = concat(ms.drop_first().map_values(|m: Seq<u8>| frame(m))) + tail;
        assert(fs.drop_first() == ms.drop_first().map_values(|m: Seq<u8>| frame(m)));
        assert(s.received == frame(ms[0]) + rest);
        lemma_frame_round_trip(ms[0], rest, s.eof, usize::MAX as nat);
        let t = poll_next_spec(s, true).0;
        assert(t.received == rest);
        lemma_reads_in_order(t, ms.drop_first(), tail);
        assert(seq![ms[0]] + ms.drop_first() == ms);
    } else {
        assert(ms.map_values(|m: Seq<u8>| frame(m)).len() == 0);
        assert(s.received == tail);
    }
}

impl NotificationsInSubstream {
    pub closed spec fn view(&self) -> InboundView {
        InboundView { reply: self.handshake@, received: self.received@, eof: self.eof }
    }

    /// A substream that still owes its reply, with the bytes that arrived
    /// after the initial message.
    pub fn new(received: Vec<u8>, eof: bool) -> (r: Self)
        ensures
            r@ == (InboundView { reply: ReplyView::NotSent, received: received@, eof }),
    {
        NotificationsInSubstream { handshake: HandshakeReplyState::NotSent, received, eof }
    }

    /// Sends the handshake in order to inform the remote that we accept the
    /// substream. Only the first call counts; later ones are ignored.
    pub fn send_handshake(&mut self, message: Vec<u8>)
        ensures
            final(self)@ == send_handshake_spec(old(self)@, message@),
    {
        if let HandshakeReplyState::NotSent = self.handshake {
            self.handshake = HandshakeReplyState::PendingSend(message);
        }
    }

    /// Hands over bytes read from the channel.
    pub fn push_received(&mut self, data: &[u8])
        ensures
            final(self)@ == (InboundView { received: old(self)@.received + data@, ..old(self)@ }),
    {
        let mut i: usize = 0;
        while i < data.len()
            invariant
                i <= data@.len(),
                self@ == (InboundView { received: old(self)@.received + data@.subrange(0, i as int), ..old(self)@ }),
            decreases data@.len() - i,
        {
            self.received.push(data[i]);
            i += 1;
            assert(data@.subrange(0, i as int) == data@.subrange(0, i - 1) + seq![data@[i - 1]]);
            assert(self.received@ == old(self)@.received + data@.subrange(0, i as int));
        }
        assert(data@.subrange(0, data@.len() as int) == data@);
    }

    /// Records that the remote has closed its write half.
    pub fn end_of_input(&mut self)
        ensures
            final(self)@ == (InboundView { eof: true, ..old(self)@ }),
    {
        self.eof = true;
    }

    /// Records that the write half has been closed after the reply.
    pub fn on_write_closed(&mut self)
        ensures
            final(self)@ == write_closed_spec(old(self)@),
    {
        if let HandshakeReplyState::Closing = self.handshake {
            self.handshake = HandshakeReplyState::Sent;
        }
    }

    /// Drives the substream one step: first the reply and the close of the
    /// write half, then the messages from the remote.
    pub fn poll_next(&mut self, write_ready: bool) -> (r: InboundStep)
        ensures
            (final(self)@, r@) == poll_next_spec(old(self)@, write_ready),
    {
        match self.handshake {
            HandshakeReplyState::NotSent => InboundStep::Pending,
            HandshakeReplyState::PendingSend(ref m) => {
                if write_ready {
                    let bytes = encode_length_prefixed(m.as_slice());
                    self.handshake = HandshakeReplyState::Closing;
                    InboundStep::Send(bytes)
                } else {
                    InboundStep::Pending
                }
            },
            HandshakeReplyState::Closing => InboundStep::CloseWrite,
            HandshakeReplyState::Sent => {
                match read_length_prefixed(self.received.as_slice(), self.eof, usize::MAX) {
                    PrefixedRead::Pending => InboundStep::NeedData,
                    PrefixedRead::Ready { message, consumed } => {
                        let len = self.received.len();
                        let rest = slice_to_vec(slice_subrange(self.received.as_slice(), consumed, len));
                        self.received = rest;
                        InboundStep::Message(message)
                    },
                    PrefixedRead::Truncated => {
                        if self.received.len() == 0 {
                            InboundStep::End
                        } else {
                            InboundStep::Failed(unexpected_eof())
                        }
                    },
                    // No announced length exceeds `usize::MAX`: this arm is never taken.
                    PrefixedRead::TooLarge(_) => InboundStep::Failed(unexpected_eof()),
                    PrefixedRead::InvalidVarint(e) => InboundStep::Failed(varint_io_error(e)),
                }
            },
        }
    }
}

} // verus!
