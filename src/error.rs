//! Errors of the handshakes and of the outbound substream.

use vstd::prelude::*;

verus! {

#[verifier::external_type_specification]
#[verifier::external_body]
pub struct ExIoError(std::io::Error);

/// Error of an inbound or outbound handshake.
#[derive(Debug)]
pub enum NotificationsHandshakeError {
    /// I/O error on the substream, an early end of it included.
    Io(std::io::Error),
    /// Initial message or handshake was too large.
    TooLarge {
        /// Size requested by the remote.
        requested: usize,
        /// Maximum allowed.
        max: usize,
    },
    /// Error while decoding the variable-length integer.
    VarintDecode(unsigned_varint::decode::Error),
}

/// Error generated by sending on a notifications out substream.
#[derive(Debug)]
pub enum NotificationsOutError {
    /// I/O error on the substream.
    Io(std::io::Error),
    /// Remote doesn't process our messages quickly enough.
    Clogged,
}

impl From<std::io::Error> for NotificationsHandshakeError {
    fn from(e: std::io::Error) -> Self {
        NotificationsHandshakeError::Io(e)
    }
}

impl vstd::std_specs::convert::FromSpecImpl<std::io::Error> for NotificationsHandshakeError {
    open spec fn obeys_from_spec() -> bool {
        true
    }

    open spec fn from_spec(e: std::io::Error) -> Self {
        NotificationsHandshakeError::Io(e)
    }
}

impl From<unsigned_varint::decode::Error> for NotificationsHandshakeError {
    fn from(e: unsigned_varint::decode::Error) -> Self {
        NotificationsHandshakeError::VarintDecode(e)
    }
}

impl vstd::std_specs::convert::FromSpecImpl<unsigned_varint::decode::Error> for NotificationsHandshakeError {
    open spec fn obeys_from_spec() -> bool {
        true
    }

    open spec fn from_spec(e: unsigned_varint::decode::Error) -> Self {
        NotificationsHandshakeError::VarintDecode(e)
    }
}

impl From<std::io::Error> for NotificationsOutError {
    fn from(e: std::io::Error) -> Self {
        NotificationsOutError::Io(e)
    }
}

impl vstd::std_specs::convert::FromSpecImpl<std::io::Error> for NotificationsOutError {
    open spec fn obeys_from_spec() -> bool {
        true
    }

    open spec fn from_spec(e: std::io::Error) -> Self {
        NotificationsOutError::Io(e)
    }
}

/// Relies on `std::io::Error::from(ErrorKind::UnexpectedEof)`: the error for
/// a stream that ended inside a message.
#[verifier::external_body]
pub(crate) fn unexpected_eof() -> (r: std::io::Error) {
    std::io::Error::from(std::io::ErrorKind::UnexpectedEof)
}

/// Relies on unsigned_varint's conversion of its decode error into an
/// `std::io::Error` of kind `InvalidData`.
#[verifier::external_body]
pub(crate) fn varint_io_error(e: unsigned_varint::decode::Error) -> (r: std::io::Error) {
    e.into()
}

} // verus!
