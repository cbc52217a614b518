//! The structured values a completed packet turns into, and the errors this
//! core surfaces.
//!
//! This core does not interpret protocol-specific payloads: a decoded event
//! or error keeps its full packet bytes and exposes only the fixed header
//! fields that framing and demultiplexing need.

use vstd::prelude::*;

use crate::codec::{spec_u16, ByteOrder};
use crate::transport::IoFault;

verus! {

/// An event decoded from a completed packet.  The core is the exclusive
/// producer of events; it records the raw discriminator byte and keeps the
/// packet bytes for the consumer to interpret.
#[derive(Clone, Debug)]
pub struct Event {
    /// The first byte of the packet, including the high "generated" bit.
    pub code: u8,
    /// The complete packet bytes.
    pub bytes: Vec<u8>,
}

/// The mathematical value of an [`Event`].
pub ghost struct EventV {
    pub code: u8,
    pub bytes: Seq<u8>,
}

impl View for Event {
    type V = EventV;

    open spec fn view(&self) -> EventV {
        EventV { code: self.code, bytes: self.bytes@ }
    }
}

/// The event a completed packet decodes into.
pub open spec fn spec_event_of(bytes: Seq<u8>) -> EventV
    recommends
        bytes.len() >= 32,
{
    EventV { code: bytes[0], bytes }
}

/// Decode a completed packet into the structured event value it carries.
pub fn decode_event(bytes: Vec<u8>) -> (r: Event)
    requires
        bytes@.len() >= 32,
    ensures
        r@ == spec_event_of(bytes@),
{
    let code = bytes[0];
    Event { code, bytes }
}

/// A protocol error decoded from an error-classified packet: the error code,
/// the wire sequence number of the request it answers, and the full packet
/// bytes.
#[derive(Clone, Debug)]
pub struct ProtocolError {
    /// The error code stored in the packet's second byte.
    pub error_code: u8,
    /// The 16-bit wire sequence number in bytes 2..4.
    pub sequence: u16,
    /// The complete packet bytes.
    pub bytes: Vec<u8>,
}

/// The mathematical value of a [`ProtocolError`].
pub ghost struct ProtocolErrorV {
    pub error_code: u8,
    pub sequence: u16,
    pub bytes: Seq<u8>,
}

impl View for ProtocolError {
    type V = ProtocolErrorV;

    open spec fn view(&self) -> ProtocolErrorV {
        ProtocolErrorV { error_code: self.error_code, sequence: self.sequence, bytes: self.bytes@ }
    }
}

/// The protocol error an error-classified packet decodes into.
pub open spec fn spec_error_of(bytes: Seq<u8>, order: ByteOrder) -> ProtocolErrorV
    recommends
        bytes.len() >= 32,
{
    ProtocolErrorV {
        error_code: bytes[1],
        sequence: spec_u16(bytes[2], bytes[3], order),
        bytes,
    }
}

/// Decode an error-classified packet into its structured error value.
pub fn decode_error(bytes: Vec<u8>, order: ByteOrder) -> (r: ProtocolError)
    requires
        bytes@.len() >= 32,
    ensures
        r@ == spec_error_of(bytes@, order),
{
    let error_code = bytes[1];
    let b2 = bytes[2];
    let b3 = bytes[3];
    let sequence = crate::codec::decode_u16(b2, b3, order);
    ProtocolError { error_code, sequence, bytes }
}

/// Every failure this core can surface to a caller.
#[derive(Clone, Debug)]
pub enum CoreError {
    /// A non-retryable failure of the underlying transport primitive.
    Transport(IoFault),
    /// An error-classified packet, decoded; it terminates the `wait` call
    /// that read it.
    Protocol(ProtocolError),
    /// A buffer handed to classification that is shorter than the 32-byte
    /// base unit every packet must have.
    Malformed,
}

/// The mathematical value of a [`CoreError`].
pub ghost enum CoreErrorV {
    Transport(IoFault),
    Protocol(ProtocolErrorV),
    Malformed,
}

impl View for CoreError {
    type V = CoreErrorV;

    open spec fn view(&self) -> CoreErrorV {
        match self {
            CoreError::Transport(f) => CoreErrorV::Transport(*f),
            CoreError::Protocol(p) => CoreErrorV::Protocol(p@),
            CoreError::Malformed => CoreErrorV::Malformed,
        }
    }
}

} // verus!
