//! The data a probe produces: one normalized HTTP exchange, or a
//! transport failure.

use vstd::prelude::*;

verus! {

/// Immutable snapshot of one HTTP exchange. `status_code` is 0 when the
/// result stands for a transport failure. `content_hash` is a fingerprint
/// of the response body, used only for equality comparison.
#[derive(Clone, Debug)]
pub struct ScanResult {
    pub url: String,
    pub status_code: u16,
    pub content_length: u64,
    pub response_time: u128,
    pub server_header: Option<String>,
    pub header_loc: Option<String>,
    pub content_type: Option<String>,
    pub content_hash: String,
}

/// Coarse reason a probe failed at the transport layer.
#[derive(Clone, Copy, Debug, PartialEq, Eq, Structural)]
pub enum FailureReason {
    Timeout,
    ConnectError,
    Other,
}

/// A probe that produced no HTTP response.
#[derive(Clone, Debug)]
pub struct TransportFailure {
    pub url: String,
    pub reason: FailureReason,
}

/// What one probe produced.
#[derive(Clone, Debug)]
pub enum ProbeOutcome {
    Response(ScanResult),
    Failure(TransportFailure),
}

} // verus!
