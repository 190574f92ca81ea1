//! The sending end of a notifications substream: a bounded queue of
//! messages that is drained into the channel, in order, on flush.

use vstd::prelude::*;
use std::collections::VecDeque;
use crate::error::NotificationsOutError;
use crate::frame::{concat, encode_length_prefixed, frame};
use crate::inbound::{after_reads, lemma_reads_in_order, messages_read, poll_next_spec, InboundView};

verus! {

/// Maximum number of buffered messages before we refuse to accept more.
pub const MAX_PENDING_MESSAGES: usize = 512;

/// A substream for outgoing notification messages.
pub struct NotificationsOutSubstream {
    /// Queue of messages waiting to be sent.
    messages_queue: VecDeque<Vec<u8>>,
    /// If true, we need to flush the channel.
    need_flush: bool,
}

/// Model of a [`NotificationsOutSubstream`].
pub struct OutboundView {
    pub queue: Seq<Seq<u8>>,
    pub need_flush: bool,
}

/// What the driver of an outbound substream has to do next.
#[derive(Debug)]
pub enum OutboundStep {
    /// Wait until the channel can take a write.
    Pending,
    /// Write these bytes to the channel, then poll again.
    Send(Vec<u8>),
    /// Flush the channel; report completion with `on_flushed`.
    Flush,
    /// Close the channel's write half.
    CloseWrite,
    /// Everything queued has been written and flushed.
    Done,
}

/// Model of an [`OutboundStep`].
pub enum OutboundStepView {
    Pending,
    Send(Seq<u8>),
    Flush,
    CloseWrite,
    Done,
}

impl OutboundStep {
    pub open spec fn view(&self) -> OutboundStepView {
        match self {
            OutboundStep::Pending => OutboundStepView::Pending,
            OutboundStep::Send(b) => OutboundStepView::Send(b@),
            OutboundStep::Flush => OutboundStepView::Flush,
            OutboundStep::CloseWrite => OutboundStepView::CloseWrite,
            OutboundStep::Done => OutboundStepView::Done,
        }
    }
}

/// Pushing `m`: the next model, and whether the message was taken (it is
/// refused when the queue is full).
pub open spec fn push_spec(s: OutboundView, m: Seq<u8>) -> (OutboundView, bool) {
    if s.queue.len() >= MAX_PENDING_MESSAGES {
        (s, false)
    } else {
        (OutboundView { queue: s.queue.push(m), ..s }, true)
    }
}

/// One flush step on a channel that can (or cannot) take a write.
pub open spec fn flush_spec(s: OutboundView, write_ready: bool) -> (OutboundView, OutboundStepView) {
    if s.queue.len() > 0 {
        if write_ready {
            (
                OutboundView { queue: s.queue.drop_first(), need_flush: true },
                OutboundStepView::Send(frame(s.queue[0])),
            )
        } else {
            (s, OutboundStepView::Pending)
        }
    } else if s.need_flush {
        (s, OutboundStepView::Flush)
    } else {
        (s, OutboundStepView::Done)
    }
}

/// One close step: flush everything, then close.
pub open spec fn close_spec(s: OutboundView, write_ready: bool) -> (OutboundView, OutboundStepView) {
    let (t, step) = flush_spec(s, write_ready);
    if step is Done {
        (t, OutboundStepView::CloseWrite)
    } else {
        (t, step)
    }
}

/// The model after pushing each of `ms` in turn.
pub open spec fn push_all(s: OutboundView, ms: Seq<Seq<u8>>) -> OutboundView
    decreases ms.len(),
{
    if ms.len() == 0 {
        s
    } else {
        push_all(push_spec(s, ms[0]).0, ms.drop_first())
    }
}

/// What flushing on a channel that always takes writes sends, write by
/// write, until the queue is empty.
pub open spec fn sent_by_flush(s: OutboundView) -> Seq<Seq<u8>>
    decreases s.queue.len(),
{
    if s.queue.len() == 0 {
        Seq::empty()
    } else {
        seq![frame(s.queue[0])] + sent_by_flush(flush_spec(s, true).0)
    }
}

/// Every push of `ms`, in turn, is taken.
pub open spec fn pushes_accepted(s: OutboundView, ms: Seq<Seq<u8>>) -> bool
    decreases ms.len(),
{
    ms.len() == 0 || (push_spec(s, ms[0]).1 && pushes_accepted(push_spec(s, ms[0]).0, ms.drop_first()))
}

/// The model once flushing on a channel that always takes writes has
/// written the whole queue.
pub open spec fn flushed(s: OutboundView) -> OutboundView
    decreases s.queue.len(),
{
    if s.queue.len() == 0 {
        s
    } else {
        flushed(flush_spec(s, true).0)
    }
}

proof fn lemma_sent_by_flush(s: OutboundView)
    ensures
        sent_by_flush(s) == s.queue.map_values(|m: Seq<u8>| frame(m)),
        flushed(s).queue.len() == 0,
        flushed(s).need_flush == (s.queue.len() > 0 || s.need_flush),
    decreases s.queue.len(),
{
    if s.queue.len() > 0 {
        let t = flush_spec(s, true).0;
        lemma_sent_by_flush(t);
        assert(s.queue.map_values(|m: Seq<u8>| frame(m)) == seq![frame(s.queue[0])] + t.queue.map_values(
            |m: Seq<u8>| frame(m),
        ));
    } else {
        assert(s.queue.map_values(|m: Seq<u8>| frame(m)) == Seq::<Seq<u8>>::empty());
    }
}

proof fn lemma_push_all(s: OutboundView, ms: Seq<Seq<u8>>)
    requires
        s.queue.len() + ms.len() <= MAX_PENDING_MESSAGES,
    ensures
        push_all(s, ms) == (OutboundView { queue: s.queue + ms, ..s }),
        pushes_accepted(s, ms),
    decreases ms.len(),
{
    if ms.len() == 0 {
        assert(s.queue + ms == s.queue);
    } else {
        let t = push_spec(s, ms[0]).0;
        lemma_push_all(t, ms.drop_first());
        assert(t.queue + ms.drop_first() == s.queue + ms);
    }
}

/// Messages pushed within the queue's capacity are all taken, and are
/// written to the channel in the order they were pushed, each with its own
/// length prefix, after those already queued. Then the queue is empty, the
/// channel is flushed once, and the flush is done.
pub proof fn lemma_fifo(s: OutboundView, ms: Seq<Seq<u8>>)
    requires
        s.queue.len() + ms.len() <= MAX_PENDING_MESSAGES,
    ensures
        sent_by_flush(push_all(s, ms)) == s.queue.map_values(|m: Seq<u8>| frame(m)) + ms.map_values(
            |m: Seq<u8>| frame(m),
        ),
        s.queue.len() == 0 ==> sent_by_flush(push_all(s, ms)) == ms.map_values(|m: Seq<u8>| frame(m)),
        pushes_accepted(s, ms),
        flushed(push_all(s, ms)).queue.len() == 0,
        ms.len() > 0 ==> flush_spec(flushed(push_all(s, ms)), true).1 is Flush,
        flush_spec(
            OutboundView { need_flush: false, ..flushed(push_all(s, ms)) },
            true,
        ).1 is Done,
{
    lemma_push_all(s, ms);
    lemma_sent_by_flush(push_all(s, ms));
    assert((s.queue + ms).map_values(|m: Seq<u8>| frame(m)) == s.queue.map_values(|m: Seq<u8>| frame(m))
        + ms.map_values(|m: Seq<u8>| frame(m)));
    if s.queue.len() == 0 {
        assert(s.queue.map_values(|m: Seq<u8>| frame(m)) == Seq::<Seq<u8>>::empty());
        assert(Seq::<Seq<u8>>::empty() + ms.map_values(|m: Seq<u8>| frame(m)) == ms.map_values(
            |m: Seq<u8>| frame(m),
        ));
    }
}

/// `MAX_PENDING_MESSAGES` pushes into an empty queue with no drain between
/// them are all taken; then the queue holds exactly that many messages and the next
/// push is refused without changing anything.
pub proof fn lemma_queue_cap(s: OutboundView, ms: Seq<Seq<u8>>, m: Seq<u8>)
    requires
        s.queue.len() == 0,
        ms.len() == MAX_PENDING_MESSAGES,
    ensures
        pushes_accepted(s, ms),
        push_all(s, ms).queue.len() == MAX_PENDING_MESSAGES,
        push_spec(push_all(s, ms), m) == (push_all(s, ms), false),
{
    lemma_push_all(s, ms);
}

/// Messages pushed into an empty queue within its capacity, flushed, and
/// received by the remote's substream after its reply, come out there
/// byte for byte and in the order they were pushed; if the sender then
/// closes, the remote's stream ends cleanly after them.
pub proof fn lemma_fifo_delivery(s: OutboundView, ms: Seq<Seq<u8>>, remote: InboundView, tail: Seq<u8>)
    requires
        s.queue.len() == 0,
        ms.len() <= MAX_PENDING_MESSAGES,
        forall|i: int| 0 <= i < ms.len() ==> ms[i].len() <= usize::MAX,
        remote.reply is Sent,
        remote.received == concat(sent_by_flush(push_all(s, ms))) + tail,
    ensures
        messages_read(remote, ms.len()) == ms,
        (remote.eof && tail.len() == 0) ==> poll_next_spec(after_reads(remote, ms.len()), true).1 is End,
{
    lemma_fifo(s, ms);
    lemma_reads_in_order(remote, ms, tail);
}

impl NotificationsOutSubstream {
    pub closed spec fn view(&self) -> OutboundView {
        OutboundView { queue: self.messages_queue@.map_values(|m: Vec<u8>| m@), need_flush: self.need_flush }
    }

    /// The queue never holds more than `MAX_PENDING_MESSAGES` messages: every
    /// substream starts empty, and each method keeps this.
    pub open spec fn wf(&self) -> bool {
        self@.queue.len() <= MAX_PENDING_MESSAGES
    }

    /// A substream with nothing queued.
    pub fn new() -> (r: Self)
        ensures
            r@ == (OutboundView { queue: Seq::empty(), need_flush: false }),
            r.wf(),
    {
        let r = NotificationsOutSubstream { messages_queue: VecDeque::new(), need_flush: false };
        assert(r@.queue == Seq::<Seq<u8>>::empty());
        r
    }

    /// Returns the number of items in the queue, capped to `u32::MAX`.
    pub fn queue_len(&self) -> (r: u32)
        requires
            self.wf(),
        ensures
            r as nat == if self@.queue.len() > u32::MAX { u32::MAX as nat } else { self@.queue.len() },
            r <= MAX_PENDING_MESSAGES,
    {
        let n = self.messages_queue.len();
        if n > u32::MAX as usize {
            u32::MAX
        } else {
            n as u32
        }
    }

    /// Push a message to the queue of messages; refused with `Clogged` when
    /// the queue already holds `MAX_PENDING_MESSAGES` messages.
    pub fn push_message(&mut self, item: Vec<u8>) -> (r: Result<(), NotificationsOutError>)
        requires
            old(self).wf(),
        ensures
            (final(self)@, r is Ok) == push_spec(old(self)@, item@),
            r is Err ==> r->Err_0 is Clogged,
            final(self).wf(),
    {
        if self.messages_queue.len() >= MAX_PENDING_MESSAGES {
            return Err(NotificationsOutError::Clogged);
        }
        let ghost m = item@;
        self.messages_queue.push_back(item);
        assert(self@.queue == old(self)@.queue.push(m));
        Ok(())
    }

    /// Always ready: whether a message is taken is decided by
    /// `push_message`.
    pub fn poll_ready(&self) -> (r: Result<(), NotificationsOutError>)
        ensures
            r is Ok,
    {
        Ok(())
    }

    /// Same as `push_message`.
    pub fn start_send(&mut self, item: Vec<u8>) -> (r: Result<(), NotificationsOutError>)
        requires
            old(self).wf(),
        ensures
            (final(self)@, r is Ok) == push_spec(old(self)@, item@),
            r is Err ==> r->Err_0 is Clogged,
            final(self).wf(),
    {
        self.push_message(item)
    }

    /// Drains the queue into the channel as far as it takes writes, then
    /// asks for a flush if anything was written since the last one.
    pub fn poll_flush(&mut self, write_ready: bool) -> (r: OutboundStep)
        requires
            old(self).wf(),
        ensures
            (final(self)@, r@) == flush_spec(old(self)@, write_ready),
            final(self).wf(),
    {
        if self.messages_queue.len() > 0 {
            if write_ready {
                let ghost q = self@.queue;
                let msg = self.messages_queue.pop_front();
                match msg {
                    Some(m) => {
                        let bytes = encode_length_prefixed(m.as_slice());
                        self.need_flush = true;
                        assert(self@.queue == q.drop_first());
                        OutboundStep::Send(bytes)
                    },
                    None => OutboundStep::Pending,
                }
            } else {
                OutboundStep::Pending
            }
        } else if self.need_flush {
            OutboundStep::Flush
        } else {
            OutboundStep::Done
        }
    }

    /// Records that the channel has been flushed.
    pub fn on_flushed(&mut self)
        requires
            old(self).wf(),
        ensures
            final(self)@ == (OutboundView { need_flush: false, ..old(self)@ }),
            final(self).wf(),
    {
        self.need_flush = false;
    }

    /// Flushes to completion, then closes the channel.
    pub fn poll_close(&mut self, write_ready: bool) -> (r: OutboundStep)
        requires
            old(self).wf(),
        ensures
            (final(self)@, r@) == close_spec(old(self)@, write_ready),
            final(self).wf(),
    {
        match self.poll_flush(write_ready) {
            OutboundStep::Done => OutboundStep::CloseWrite,
            step => step,
        }
    }
}

} // verus!
