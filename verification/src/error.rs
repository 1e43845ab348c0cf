//! The protocol-level error returned by the SDO state machines.

use vstd::prelude::*;

use crate::abort::SdoAbortCode;

verus! {

/// Why an SDO transfer did not complete.
#[derive(Debug, Clone, PartialEq, Eq)]
pub enum SdoError {
    /// The remote peer aborted the transfer with the given code.
    ServerAborted(SdoAbortCode),
    /// The local peer aborted the transfer (on a timeout or a protocol
    /// violation); the matching abort frame is already queued for
    /// transmission.
    ClientAborted(SdoAbortCode),
    /// A protocol violation that no abort code fits.
    Protocol(&'static str),
    /// A transfer was started while another one was in flight.
    Busy,
    /// Invalid input to `begin_*` (node id outside 1..=127, empty download).
    InvalidArgument(&'static str),
}

} // verus!
