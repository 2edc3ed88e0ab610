//! The Forwarding Relay's decisions: what outbound request an inbound
//! request plans (target resolution plus header sanitization), and what
//! response each upstream outcome concludes. The transport performs the
//! network call and streams the body; every choice it acts on is decided
//! here.

use vstd::prelude::*;
use crate::errors::{status_of, ProxyError};
use crate::headers::{is_host_name, models, sans_host, strip_host, Header, HeaderModel};
use crate::headers::lemma_sans_host;
use crate::route::{resolution_of, resolve_target, TargetUrl};

verus! {

/// The outbound request: the target URL and the sanitized headers. The
/// method is fixed to GET and the body empty by construction, so neither
/// is carried here.
pub struct OutboundRequest {
    pub url: TargetUrl,
    pub headers: Vec<Header>,
}

/// Status and headers of a response. Bodies are relayed as a stream by the
/// transport and never pass through the core.
pub struct ResponseHead {
    pub status: u16,
    pub headers: Vec<Header>,
}

/// What came of the one upstream attempt per inbound request.
pub enum UpstreamOutcome {
    /// The upstream answered: its status and headers, verbatim.
    Answered(ResponseHead),
    /// A transport-level failure reaching the target: DNS, connect, TLS,
    /// timeout, reset.
    Unreachable,
    /// The outbound response could not be assembled from an otherwise
    /// successful upstream answer.
    BuildFailed,
}

/// What planning decides for a captured remainder and the inbound headers:
/// the target URL text with the sanitized headers, or the failure that
/// rejects the request before any upstream call.
pub open spec fn planned(remainder: Seq<u8>, headers: Seq<HeaderModel>) -> Result<
    (Seq<u8>, Seq<HeaderModel>),
    ProxyError,
> {
    match resolution_of(remainder) {
        Some(url) => Ok((url, sans_host(headers))),
        None => Err(ProxyError::InvalidTarget),
    }
}

/// Plan the upstream call for one inbound request: resolve the target URL
/// from the captured remainder and sanitize the inbound headers. When the
/// target is invalid no outbound request exists at all.
pub fn plan_forward(remainder: &Vec<u8>, headers: &Vec<Header>) -> (r: Result<
    OutboundRequest,
    ProxyError,
>)
    ensures
        match r {
            Ok(o) => planned(remainder@, models(headers@)) == Ok::<_, ProxyError>(
                (o.url.text@, models(o.headers@)),
            ),
            Err(e) => planned(remainder@, models(headers@)) == Err::<
                (Seq<u8>, Seq<HeaderModel>),
                _,
            >(e),
        },
{
    match resolve_target(remainder) {
        Ok(url) => Ok(OutboundRequest { url, headers: strip_host(headers) }),
        Err(e) => Err(e),
    }
}

/// The response decided for each upstream outcome: an answer passes
/// through verbatim; a failure is answered with its status code and no
/// headers of the proxy's own.
pub open spec fn concluded(outcome: UpstreamOutcome) -> (u16, Seq<HeaderModel>) {
    match outcome {
        UpstreamOutcome::Answered(h) => (h.status, models(h.headers@)),
        UpstreamOutcome::Unreachable => (
            status_of(ProxyError::UpstreamUnreachable),
            Seq::empty(),
        ),
        UpstreamOutcome::BuildFailed => (status_of(ProxyError::ResponseBuildError), Seq::empty()),
    }
}

/// Decide the response for what the one upstream attempt came to.
pub fn conclude(outcome: UpstreamOutcome) -> (r: ResponseHead)
    ensures
        r.status == concluded(outcome).0,
        models(r.headers@) == concluded(outcome).1,
{
    proof {
        assert(models(Seq::<Header>::empty()) =~= Seq::<HeaderModel>::empty());
    }
    match outcome {
        UpstreamOutcome::Answered(h) => h,
        UpstreamOutcome::Unreachable => ResponseHead { status: 502, headers: Vec::new() },
        UpstreamOutcome::BuildFailed => ResponseHead { status: 500, headers: Vec::new() },
    }
}

/// A remainder that does not read as an absolute URL is rejected with
/// `InvalidTarget`, answered exactly 400, and plans no outbound request,
/// whatever headers came with it.
pub proof fn lemma_invalid_target_rejected(remainder: Seq<u8>, headers: Seq<HeaderModel>)
    requires
        resolution_of(remainder) is None,
    ensures
        planned(remainder, headers) == Err::<(Seq<u8>, Seq<HeaderModel>), ProxyError>(
            ProxyError::InvalidTarget,
        ),
        status_of(ProxyError::InvalidTarget) == 400,
{
}

/// The planned outbound request never carries a `Host` header, and carries
/// every other inbound header unchanged: its header list is exactly the
/// inbound list with the `Host` entries removed.
pub proof fn lemma_outbound_has_no_host(remainder: Seq<u8>, headers: Seq<HeaderModel>)
    requires
        planned(remainder, headers) is Ok,
    ensures
        forall|i: int|
            0 <= i < planned(remainder, headers)->Ok_0.1.len() ==> !is_host_name(
                #[trigger] planned(remainder, headers)->Ok_0.1[i].name,
            ),
        forall|i: int|
            0 <= i < headers.len() && !is_host_name(headers[i].name) ==> planned(
                remainder,
                headers,
            )->Ok_0.1.contains(#[trigger] headers[i]),
        planned(remainder, headers)->Ok_0.1 == sans_host(headers),
{
    lemma_sans_host(headers);
}

/// An unreachable upstream is answered exactly 502, with no headers and
/// hence nothing claiming a successful upstream status.
pub proof fn lemma_unreachable_is_bad_gateway()
    ensures
        concluded(UpstreamOutcome::Unreachable) == (502u16, Seq::<HeaderModel>::empty()),
{
}

/// An upstream answer passes through verbatim: the concluded response has
/// the same status and the identical header sequence.
pub proof fn lemma_answer_passes_through(h: ResponseHead)
    ensures
        concluded(UpstreamOutcome::Answered(h)) == (h.status, models(h.headers@)),
{
}

/// Relaying is repeatable: the plan and the concluded response are
/// functions of the captured remainder, the inbound headers and the
/// upstream outcome alone, so two requests alike in those — against an
/// upstream that answers alike — decide the same outbound request and the
/// same response.
pub proof fn lemma_relay_repeatable(
    rem1: Seq<u8>,
    rem2: Seq<u8>,
    hs1: Seq<HeaderModel>,
    hs2: Seq<HeaderModel>,
    out1: UpstreamOutcome,
    out2: UpstreamOutcome,
)
    requires
        rem1 == rem2,
        hs1 == hs2,
        out1 == out2,
    ensures
        planned(rem1, hs1) == planned(rem2, hs2),
        concluded(out1) == concluded(out2),
{
}

} // verus!
