//! Incremental decoder for a self-describing binary record protocol.
//!
//! A producer announces record schemas ("entry descriptors") over a byte
//! stream and then sends data rows against them.  This crate reassembles the
//! arbitrarily fragmented stream, recognizes frames, maintains the append-only
//! string table and descriptor registry, compiles each registered schema into
//! SQL text, and turns complete frames into storage actions.  All transport
//! and database I/O stays outside: the caller supplies raw bytes and carries
//! out the returned actions.

pub mod codec;
pub mod descriptor;
pub mod reassembler;
pub mod registry;
pub mod session;
pub mod sqltext;
pub mod string_table;

use vstd::prelude::*;

verus! {

/// Magic constant that opens every protocol frame, stored little-endian on
/// the wire.
pub const PROTOCOL: u32 = 0xFEED_BEEF;

/// Outcome classes of the decoder, one per failure policy.
///
/// `InsufficientData` is backpressure: the caller supplies more bytes and
/// retries.  `MalformedFrame` discards one frame and resynchronizes.
/// The remaining variants end the session.  `TransportFailure` and
/// `SinkFailure` never arise inside this crate; the caller that performs the
/// transport reads and storage writes reports them in the same taxonomy.
#[derive(Clone, Copy, Debug, PartialEq, Eq, Structural)]
pub enum Error {
    /// Not enough bytes buffered yet; recoverable by supplying more.
    InsufficientData,
    /// Unknown field tag or invalid UTF-8 text; the frame is discarded.
    MalformedFrame,
    /// Out-of-sequence identifier or a reference to an identifier that was
    /// never registered; fatal for the session.
    ProtocolViolation,
    /// The transport read failed or the stream closed; fatal.
    TransportFailure,
    /// The storage sink rejected a table creation or an insert; fatal.
    SinkFailure,
    /// A frame larger than the reassembly buffer can ever hold; fatal.
    FrameTooLarge,
}

} // verus!
