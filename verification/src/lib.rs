//! Stream multiplexing state for one hop of an onion-routing circuit.
//!
//! A circuit carries many logical byte-streams over one sequence of relay
//! cells; each cell is tagged with a 16-bit stream identifier.  This crate
//! owns the mapping from those identifiers to per-stream lifecycle state:
//! it allocates fresh identifiers, looks streams up for incoming data, and
//! drives each stream through its two-phase close handshake while keeping
//! flow-control accounting consistent with the peer.  It never touches the
//! network itself; the surrounding circuit loop owns all cell I/O.

use vstd::prelude::*;

pub mod halfstream;
pub mod sendme;
pub mod streammap;

pub use crate::halfstream::HalfStream;
pub use crate::streammap::{ShouldSendEnd, StreamEnt, StreamId, StreamMap};

verus! {

/// Failures that this crate reports to the circuit-processing loop.
#[derive(Clone, Copy, Debug, PartialEq, Eq, Structural)]
pub enum Error {
    /// The peer violated the stream protocol: an END cell arrived for a
    /// stream this hop does not track, or a second END cell arrived for a
    /// stream the peer had already ended.  The caller is expected to treat
    /// this as cause for tearing down the circuit.
    CircProto,
    /// Every usable stream identifier is taken by a live stream.
    IdRangeFull,
    /// A flow-control window would have gone below zero.
    WindowUnderflow,
    /// The caller terminated a stream that was never tracked: a local bug,
    /// not a remote protocol fault.
    InternalError,
}

} // verus!
