//! The closed set of failures the proxy core can report, and the HTTP
//! status each one is surfaced as.

use vstd::prelude::*;

verus! {

/// Everything that can go wrong while handling one inbound request.
#[derive(Clone, Copy, Debug, PartialEq, Eq, Structural)]
pub enum ProxyError {
    /// The path remainder is not a parseable absolute URL.
    InvalidTarget,
    /// A transport-level failure while contacting the target.
    UpstreamUnreachable,
    /// The outbound response could not be assembled from an otherwise
    /// successful upstream response.
    ResponseBuildError,
}

/// The HTTP status code that surfaces each failure to the caller.
pub open spec fn status_of(e: ProxyError) -> u16 {
    match e {
        ProxyError::InvalidTarget => 400,
        ProxyError::UpstreamUnreachable => 502,
        ProxyError::ResponseBuildError => 500,
    }
}

impl ProxyError {
    /// The status code this failure is answered with.
    pub fn status_code(&self) -> (r: u16)
        ensures
            r == status_of(*self),
    {
        match self {
            ProxyError::InvalidTarget => 400,
            ProxyError::UpstreamUnreachable => 502,
            ProxyError::ResponseBuildError => 500,
        }
    }
}

} // verus!
