//! Transport and demultiplexing core of a client for a windowing-system wire
//! protocol.
//!
//! The protocol moves packets over a byte-stream connection.  Every packet is
//! a multiple of 32 bytes; its first byte carries a type discriminator whose
//! low seven bits classify the packet as an error, a reply, or an event.
//! Only replies are variable-length: their header carries a count of
//! additional four-byte units to read past the base 32 bytes.
//!
//! The crate is layered bottom-up:
//!
//! * [`codec`] — the fixed framing rules: header field decoding and the
//!   additional-length decision.
//! * [`transport`] — moving byte buffers and file-descriptor lists across a
//!   [`transport::Connection`], retrying transparently when the underlying
//!   primitive reports interruption.
//! * [`protocol`] — the structured values a completed packet turns into, and
//!   the errors this core surfaces.
//! * [`sequence`] — widening of 16-bit wire sequence numbers into logical
//!   64-bit sequence numbers that never repeat within a connection.
//! * [`display`] — the per-connection session state: pending requests, the
//!   pending-replies map and the ordered event queue, with `wait`, which
//!   drains exactly one packet and routes it.
//! * [`lvl2`] and [`ty`] — the type vocabulary of the companion code
//!   generator that produces typed request builders for this core.

pub mod codec;
pub mod display;
pub mod lvl2;
pub mod protocol;
pub mod sequence;
pub mod transport;
pub mod ty;
