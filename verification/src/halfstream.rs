//! Bookkeeping for a stream that we have closed locally while the peer's
//! END cell is still outstanding.
//!
//! After the local side sends an END cell, late cells from the peer must
//! still be validated against the correct residual flow-control budget, so
//! the windows of the closed stream live on in a [`HalfStream`] record
//! until the peer's END is observed.

use crate::sendme::{StreamRecvWindow, StreamSendWindow};
use vstd::prelude::*;

verus! {

/// Residual state of a stream that was closed locally but whose closure
/// the peer has not yet confirmed.
pub struct HalfStream {
    /// Send window as it stood at the moment of the local close.
    pub send_window: StreamSendWindow,
    /// Receive window at the moment of the local close, with cells that
    /// were dropped undelivered already folded in.
    pub recv_window: StreamRecvWindow,
    /// Whether a CONNECTED cell from the peer would still be in order.
    pub connected_ok: bool,
}

impl HalfStream {
    /// Record the residual state of a locally closed stream.
    pub fn new(send_window: StreamSendWindow, recv_window: StreamRecvWindow, connected_ok: bool) -> (r:
        HalfStream)
        ensures
            r.send_window == send_window,
            r.recv_window == recv_window,
            r.connected_ok == connected_ok,
    {
        HalfStream { send_window, recv_window, connected_ok }
    }
}

} // verus!
