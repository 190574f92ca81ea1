//! Length-prefixed messages: a varint length followed by that many bytes.
//! Handshake messages and the notifications that follow them share this
//! framing.

use vstd::prelude::*;
use vstd::slice::{slice_subrange, slice_to_vec};
use crate::varint::{
    all_continuation, begins_with_varint, decode_usize, encode_usize, lemma_varint_shape,
    lemma_varint_unique, max_varint_len, varint, VarintRead,
};

verus! {

/// Maximum allowed size of the two handshake messages, in bytes.
pub const MAX_HANDSHAKE_SIZE: usize = 1024;

/// The bytes that carry `msg` on the wire.
pub open spec fn frame(msg: Seq<u8>) -> Seq<u8> {
    varint(msg.len()) + msg
}

/// The byte sequences of `ss`, one after the other.
pub open spec fn concat(ss: Seq<Seq<u8>>) -> Seq<u8>
    decreases ss.len(),
{
    if ss.len() == 0 {
        Seq::empty()
    } else {
        ss[0] + concat(ss.drop_first())
    }
}

/// The length announced at the start of `buf`, if a `usize` is announced.
pub open spec fn announces(buf: Seq<u8>, n: nat) -> bool {
    n <= usize::MAX && begins_with_varint(buf, n)
}

/// `buf` ends inside its length prefix.
pub open spec fn prefix_incomplete(buf: Seq<u8>) -> bool {
    buf.len() < max_varint_len() && all_continuation(buf)
}

/// What reading one length-prefixed message from received bytes gives.
pub enum ReadOutcome {
    /// More bytes are needed.
    Pending,
    /// The message, and how many bytes it took with its prefix.
    Ready(Seq<u8>, nat),
    /// The announced length is above the limit.
    TooLarge(nat),
    /// The stream ended inside the message.
    Truncated,
    /// The length prefix is no valid varint.
    InvalidVarint,
}

/// Reading a message of at most `limit` bytes from `buf`; `eof` tells
/// whether the stream has ended after `buf`.
pub open spec fn read_outcome(buf: Seq<u8>, eof: bool, limit: nat) -> ReadOutcome {
    if prefix_incomplete(buf) {
        if eof { ReadOutcome::Truncated } else { ReadOutcome::Pending }
    } else if exists|n: nat| announces(buf, n) {
        let n = choose|n: nat| announces(buf, n);
        let h = varint(n).len();
        if n > limit {
            ReadOutcome::TooLarge(n)
        } else if buf.len() >= h + n {
            ReadOutcome::Ready(buf.subrange(h as int, (h + n) as int), h + n)
        } else if eof {
            ReadOutcome::Truncated
        } else {
            ReadOutcome::Pending
        }
    } else {
        ReadOutcome::InvalidVarint
    }
}

/// Result of reading one length-prefixed message.
#[derive(Debug)]
pub enum PrefixedRead {
    Pending,
    Ready { message: Vec<u8>, consumed: usize },
    TooLarge(usize),
    Truncated,
    InvalidVarint(unsigned_varint::decode::Error),
}

impl PrefixedRead {
    pub open spec fn view(&self) -> ReadOutcome {
        match self {
            PrefixedRead::Pending => ReadOutcome::Pending,
            PrefixedRead::Ready { message, consumed } => ReadOutcome::Ready(message@, *consumed as nat),
            PrefixedRead::TooLarge(n) => ReadOutcome::TooLarge(*n as nat),
            PrefixedRead::Truncated => ReadOutcome::Truncated,
            PrefixedRead::InvalidVarint(_) => ReadOutcome::InvalidVarint,
        }
    }
}

/// Relies on `unsigned_varint::decode::Error::Overflow`, the crate's error
/// for a varint that exceeds the decoded type.
#[verifier::external_body]
fn overflow_error() -> (r: unsigned_varint::decode::Error) {
    unsigned_varint::decode::Error::Overflow
}

/// Writes `msg` with its varint length prefix.
pub fn encode_length_prefixed(msg: &[u8]) -> (r: Vec<u8>)
    ensures
        r@ == frame(msg@),
{
    let mut out = encode_usize(msg.len());
    let ghost head = out@;
    let mut i: usize = 0;
    while i < msg.len()
        invariant
            i <= msg@.len(),
            head == varint(msg@.len() as nat),
            out@ == head + msg@.subrange(0, i as int),
        decreases msg@.len() - i,
    {
        out.push(msg[i]);
        i += 1;
        assert(msg@.subrange(0, i as int) == msg@.subrange(0, i - 1) + seq![msg@[i - 1]]);
    }
    assert(msg@.subrange(0, msg@.len() as int) == msg@);
    out
}

/// `a` is the first `n` bytes of `b`.
fn same_bytes(a: &[u8], b: &[u8], n: usize) -> (r: bool)
    requires
        n <= b@.len(),
    ensures
        r == (a@ == b@.subrange(0, n as int)),
{
    if a.len() != n {
        return false;
    }
    let mut i: usize = 0;
    while i < n
        invariant
            i <= n,
            n == a@.len(),
            n <= b@.len(),
            a@.subrange(0, i as int) == b@.subrange(0, i as int),
        decreases n - i,
    {
        if a[i] != b[i] {
            assert(a@[i as int] != b@.subrange(0, n as int)[i as int]);
            return false;
        }
        i += 1;
        assert(a@.subrange(0, i as int) == a@.subrange(0, i - 1) + seq![a@[i - 1]]);
        assert(b@.subrange(0, i as int) == b@.subrange(0, i - 1) + seq![b@[i - 1]]);
    }
    assert(a@.subrange(0, n as int) == a@);
    true
}

/// Reads one message of at most `limit` bytes from the start of `buf`.
pub fn read_length_prefixed(buf: &[u8], eof: bool, limit: usize) -> (r: PrefixedRead)
    ensures
        r@ == read_outcome(buf@, eof, limit as nat),
{
    match decode_usize(buf) {
        VarintRead::Incomplete => {
            if eof {
                PrefixedRead::Truncated
            } else {
                PrefixedRead::Pending
            }
        },
        VarintRead::Invalid(e) => {
            assert forall|n: nat| !announces(buf@, n) by {
                if announces(buf@, n) {
                    assert(begins_with_varint(buf@, n));
                }
            }
            PrefixedRead::InvalidVarint(e)
        },
        VarintRead::Value { value, remaining } => {
            let used = buf.len() - remaining;
            // A varint of the longest length may have lost bits in decoding:
            // accept the value only where its own encoding is what was read.
            let encoded = encode_usize(value);
            if !same_bytes(encoded.as_slice(), buf, used) {
                assert forall|n: nat| !announces(buf@, n) by {
                    if announces(buf@, n) {
                        assert(begins_with_varint(buf@, n));
                        assert(buf@.subrange(0, used as int) == varint(value as nat));
                    }
                }
                return PrefixedRead::InvalidVarint(overflow_error());
            }
            assert(buf@.subrange(0, used as int) == encoded@);
            assert(begins_with_varint(buf@, value as nat));
            assert(announces(buf@, value as nat));
            let ghost n = choose|n: nat| announces(buf@, n);
            proof {
                lemma_varint_unique(buf@, n, value as nat);
                lemma_varint_shape(value as nat);
                if prefix_incomplete(buf@) {
                    let k = varint(value as nat).len() - 1;
                    assert(buf@[k] == varint(value as nat)[k]);
                }
            }
            if value > limit {
                PrefixedRead::TooLarge(value)
            } else if remaining >= value {
                let message = slice_to_vec(slice_subrange(buf, used, used + value));
                PrefixedRead::Ready { message, consumed: used + value }
            } else if eof {
                PrefixedRead::Truncated
            } else {
                PrefixedRead::Pending
            }
        },
    }
}

/// A message within the limit, read back from its own framing followed by
/// anything, is that message, and the read takes exactly its frame.
pub proof fn lemma_frame_round_trip(msg: Seq<u8>, rest: Seq<u8>, eof: bool, limit: nat)
    requires
        msg.len() <= limit,
        msg.len() <= usize::MAX,
    ensures
        read_outcome(frame(msg) + rest, eof, limit) == ReadOutcome::Ready(msg, frame(msg).len()),
{
    let buf = frame(msg) + rest;
    let n = msg.len();
    let h = varint(n).len();
    lemma_varint_shape(n);
    assert(buf.subrange(0, h as int) == varint(n));
    assert(announces(buf, n));
    let m = choose|m: nat| announces(buf, m);
    lemma_varint_unique(buf, m, n);
    if prefix_incomplete(buf) {
        assert(buf[h - 1] == varint(n)[h - 1]);
    }
    assert(buf.subrange(h as int, (h + n) as int) == msg);
}

/// A handshake that announces more than the maximum size is refused with
/// the announced length, whatever follows and whether or not the stream
/// has ended.
pub proof fn lemma_oversized_handshake_refused(buf: Seq<u8>, n: nat, eof: bool)
    requires
        announces(buf, n),
        n > MAX_HANDSHAKE_SIZE,
    ensures
        read_outcome(buf, eof, MAX_HANDSHAKE_SIZE as nat) == ReadOutcome::TooLarge(n),
{
    let m = choose|m: nat| announces(buf, m);
    lemma_varint_unique(buf, m, n);
    lemma_varint_shape(n);
    let h = varint(n).len();
    if prefix_incomplete(buf) {
        assert(buf[h - 1] == varint(n)[h - 1]);
    }
}

/// An empty handshake message is the single byte zero, and reading that
/// byte gives back an empty message.
pub proof fn lemma_empty_handshake(eof: bool)
    ensures
        frame(Seq::<u8>::empty()) == seq![0u8],
        read_outcome(seq![0u8], eof, MAX_HANDSHAKE_SIZE as nat) == ReadOutcome::Ready(
            Seq::<u8>::empty(),
            1,
        ),
{
    let e = Seq::<u8>::empty();
    assert(frame(e) == seq![0u8]);
    lemma_frame_round_trip(e, e, eof, MAX_HANDSHAKE_SIZE as nat);
    assert(frame(e) + e == seq![0u8]);
}

} // verus!
