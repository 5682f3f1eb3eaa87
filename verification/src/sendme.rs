//! Flow-control windows: per-stream counters bounding how much
//! unacknowledged data may be outstanding in each direction.
//!
//! A window is a plain counter with failure-on-underflow semantics: it is
//! decremented as cells are spent against it and incremented again when the
//! peer acknowledges them.

use crate::Error;
use vstd::prelude::*;

verus! {

/// Window bounding how many cells we may send ahead of acknowledgment.
pub struct StreamSendWindow {
    /// Cells that may still be spent before the window is exhausted.
    pub window: u16,
}

impl StreamSendWindow {
    /// Make a new window with a budget of `window` cells.
    pub fn new(window: u16) -> (r: StreamSendWindow)
        ensures
            r.window == window,
    {
        StreamSendWindow { window }
    }

    /// Spend `n` cells from the window; fail without changing anything if
    /// fewer than `n` remain.
    pub fn decrement_n(&mut self, n: u16) -> (r: Result<(), Error>)
        ensures
            old(self).window >= n ==> r == Ok::<(), Error>(()) && final(self).window
                == old(self).window - n,
            old(self).window < n ==> r == Err::<(), Error>(Error::WindowUnderflow)
                && final(self).window == old(self).window,
    {
        if self.window >= n {
            self.window = self.window - n;
            Ok(())
        } else {
            Err(Error::WindowUnderflow)
        }
    }

    /// Return `n` cells of budget to the window.
    pub fn increment_n(&mut self, n: u16)
        requires
            old(self).window + n <= u16::MAX,
        ensures
            final(self).window == old(self).window + n,
    {
        self.window = self.window + n;
    }
}

/// Window bounding how many cells the peer may send us ahead of
/// acknowledgment.
pub struct StreamRecvWindow {
    /// Cells the peer may still spend before its budget is exhausted.
    pub window: u16,
}

impl StreamRecvWindow {
    /// Make a new window with a budget of `window` cells.
    pub fn new(window: u16) -> (r: StreamRecvWindow)
        ensures
            r.window == window,
    {
        StreamRecvWindow { window }
    }

    /// Spend `n` cells from the window; fail without changing anything if
    /// fewer than `n` remain.
    pub fn decrement_n(&mut self, n: u16) -> (r: Result<(), Error>)
        ensures
            old(self).window >= n ==> r == Ok::<(), Error>(()) && final(self).window
                == old(self).window - n,
            old(self).window < n ==> r == Err::<(), Error>(Error::WindowUnderflow)
                && final(self).window == old(self).window,
    {
        if self.window >= n {
            self.window = self.window - n;
            Ok(())
        } else {
            Err(Error::WindowUnderflow)
        }
    }

    /// Return `n` cells of budget to the window.
    pub fn increment_n(&mut self, n: u16)
        requires
            old(self).window + n <= u16::MAX,
        ensures
            final(self).window == old(self).window + n,
    {
        self.window = self.window + n;
    }
}

} // verus!
