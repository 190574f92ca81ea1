//! Unsigned varint length prefixes (base 128, little-endian, high bit set on
//! every byte but the last).

use vstd::prelude::*;

verus! {

/// Number of bytes of the longest varint of a `usize` on this target: 10
/// where it is 64 bits wide, 5 where it is 32.
pub open spec fn max_varint_len() -> nat {
    varint(usize::MAX as nat).len()
}

/// The unsigned varint encoding of `n`.
pub open spec fn varint(n: nat) -> Seq<u8>
    decreases n,
{
    if n < 128 {
        seq![n as u8]
    } else {
        seq![(n % 128 + 128) as u8] + varint(n / 128)
    }
}

/// Every byte of `s` has its continuation bit set.
pub open spec fn all_continuation(s: Seq<u8>) -> bool {
    forall|i: int| 0 <= i < s.len() ==> s[i] >= 128
}

/// `buf` starts with the varint encoding of `n`.
pub open spec fn begins_with_varint(buf: Seq<u8>, n: nat) -> bool {
    varint(n).len() <= buf.len() && buf.subrange(0, varint(n).len() as int) == varint(n)
}

/// What decoding a varint at the start of a buffer gave.
pub enum VarintRead {
    /// A value, followed by `remaining` bytes of the buffer.
    Value { value: usize, remaining: usize },
    /// The buffer ends inside the varint.
    Incomplete,
    /// The bytes are no valid varint of a `usize`.
    Invalid(unsigned_varint::decode::Error),
}

#[verifier::external_type_specification]
#[verifier::external_body]
pub struct ExDecodeError(unsigned_varint::decode::Error);

/// Relies on `unsigned_varint::encode::usize`: it writes the base-128
/// encoding of `n`, low group first, with the high bit on all bytes but the
/// last.
#[verifier::external_body]
pub(crate) fn encode_usize(n: usize) -> (r: Vec<u8>)
    ensures
        r@ == varint(n as nat),
{
    let mut buf = unsigned_varint::encode::usize_buffer();
    unsigned_varint::encode::usize(n, &mut buf).to_vec()
}

/// Relies on `unsigned_varint::decode::usize` (through `decode::u64` or
/// `decode::u32`, by the width of `usize`): it reports too few bytes exactly
/// when fewer bytes than the longest varint of a `usize` all carry the
/// continuation bit; it decodes every minimal encoding of a `usize` to its
/// value; and any value it returns comes from a minimal encoding, unless the
/// varint is of that longest length, where it drops bits that do not fit.
#[verifier::external_body]
pub(crate) fn decode_usize(buf: &[u8]) -> (r: VarintRead)
    ensures
        (r is Incomplete) <==> (buf@.len() < max_varint_len() && all_continuation(buf@)),
        forall|n: nat|
            n <= usize::MAX && #[trigger] begins_with_varint(buf@, n) ==> r is Value && r->value == n && r->remaining == buf@.len() - varint(n).len(),
        r is Value ==> r->remaining < buf@.len() && (begins_with_varint(buf@, r->value as nat) || buf@.len() - r->remaining == max_varint_len()),
{
    match unsigned_varint::decode::usize(buf) {
        Ok((value, rest)) => VarintRead::Value { value, remaining: rest.len() },
        Err(unsigned_varint::decode::Error::Insufficient) => VarintRead::Incomplete,
        Err(e) => VarintRead::Invalid(e),
    }
}

/// The encoding of a value ends with a byte without continuation bit, and
/// all bytes before it have that bit.
pub proof fn lemma_varint_shape(n: nat)
    ensures
        varint(n).len() >= 1,
        varint(n)[varint(n).len() - 1] < 128,
        all_continuation(varint(n).subrange(0, varint(n).len() - 1)),
    decreases n,
{
    if n >= 128 {
        lemma_varint_shape(n / 128);
        let t = varint(n / 128);
        assert(varint(n) == seq![(n % 128 + 128) as u8] + t);
        assert(varint(n).subrange(0, varint(n).len() - 1) == seq![(n % 128 + 128) as u8] + t.subrange(0, t.len() - 1));
    }
}

/// No two values have encodings that both start a buffer.
pub proof fn lemma_varint_unique(buf: Seq<u8>, a: nat, b: nat)
    requires
        begins_with_varint(buf, a),
        begins_with_varint(buf, b),
    ensures
        a == b,
    decreases a,
{
    assert(buf[0] == varint(a)[0]);
    assert(buf[0] == varint(b)[0]);
    if a >= 128 && b >= 128 {
        let rest = buf.subrange(1, buf.len() as int);
        let ta = varint(a / 128);
        let tb = varint(b / 128);
        assert(rest.subrange(0, ta.len() as int) == buf.subrange(0, varint(a).len() as int).subrange(1, varint(a).len() as int));
        assert(rest.subrange(0, tb.len() as int) == buf.subrange(0, varint(b).len() as int).subrange(1, varint(b).len() as int));
        assert(varint(a).subrange(1, varint(a).len() as int) == ta);
        assert(varint(b).subrange(1, varint(b).len() as int) == tb);
        lemma_varint_unique(rest, a / 128, b / 128);
    }
}

} // verus!
