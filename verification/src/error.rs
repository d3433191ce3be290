//! Failure modes of a speed test.

use vstd::prelude::*;

verus! {

/// Anything that can go wrong while measuring.
///
/// Variants are the distinct situations a user can act on, not a mirror of
/// the underlying libraries: an unreachable network, a misbehaving server and
/// a deliberate cancellation each warrant a different response.
#[derive(Debug)]
pub enum Error {
    /// The request never completed: DNS, TLS, connection reset or timeout.
    /// Holds what the transport reported.
    Transport(String),
    /// A TCP connection used for latency probing could not be established.
    Connect { host: String, source: String },
    /// The host name did not resolve to any address.
    Resolve { host: String },
    /// The server answered, but not with a success status.
    UnexpectedStatus { status: u16 },
    /// The server declined to serve more requests for now (HTTP 429).
    RateLimited,
    /// The server responded in a shape the client cannot read.
    MalformedResponse { detail: String },
    /// Every latency probe failed, so no round trip time could be derived.
    NoLatencySamples,
    /// A transfer phase ran to completion without moving any bytes.
    NoData { direction: &'static str },
    /// The user interrupted the run.
    Cancelled,
}

} // verus!
