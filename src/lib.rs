//! Notifications substreams: a one-round handshake followed by a one-way
//! stream of length-prefixed messages, written as state machines that are
//! driven by the caller's I/O.

pub mod varint;
pub mod frame;
pub mod error;
pub mod inbound;
pub mod outbound;
pub mod upgrade;

pub use error::{NotificationsHandshakeError, NotificationsOutError};
pub use frame::{encode_length_prefixed, read_length_prefixed, PrefixedRead, MAX_HANDSHAKE_SIZE};
pub use inbound::{InboundStep, NotificationsInSubstream};
pub use outbound::{NotificationsOutSubstream, OutboundStep, MAX_PENDING_MESSAGES};
pub use upgrade::{NotificationsIn, NotificationsOut};
