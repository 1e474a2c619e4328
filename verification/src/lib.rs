//! Frame codec and request/response correlation for the MultiWii Serial
//! Protocol (MSP), revisions 1 and 2.
//!
//! The wire format is stated once, as functions on byte sequences, in
//! [`wire`]; the serializer, the byte-fed parser and the correlation queue
//! are proved against it.

pub mod checksum;
pub mod detection;
pub mod dispatcher;
pub mod dispatcher_lemmas;
pub mod packet;
pub mod parser;
pub mod payload;
pub mod wire;
pub mod wire_lemmas;

pub use crate::dispatcher::Delivery;
pub use crate::dispatcher::MspDispatcher;
pub use crate::dispatcher::Pending;
pub use crate::packet::MspPacket;
pub use crate::packet::MspPacketDirection;
pub use crate::packet::MspPacketParseError;
pub use crate::packet::MspVersion;
pub use crate::packet::encode;
pub use crate::parser::MspParser;
pub use crate::payload::MspPayload;
pub use crate::payload::RawPayload;
