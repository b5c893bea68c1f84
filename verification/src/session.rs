//! The per-request session decisions: where the authority comes from, whether
//! a request opens a CONNECT interception or is proxied plainly, and whether
//! an intercepted CONNECT is tunneled blindly (excluded host) or TLS-accepted
//! with a minted leaf. The socket work around these decisions — upgrades,
//! timeouts, the byte copying — belongs to the embedding program.

use crate::authority::spec_parse_authority;
use crate::authority::parse_authority;
use crate::authority::Authority;
use crate::exclusions::LocalExclusionStore;
use vstd::prelude::*;

verus! {

/// Where a request's authority comes from: the request URI when it parses,
/// else the `Host` header; a request with neither is answered 400.
pub open spec fn spec_extract_authority(
    uri_authority: Option<Seq<char>>,
    host_header: Option<Seq<char>>,
) -> Option<(Seq<char>, Option<u16>)> {
    match uri_authority {
        Option::Some(u) => if spec_parse_authority(u) is Some {
            spec_parse_authority(u)
        } else {
            match host_header {
                Option::Some(h) => spec_parse_authority(h),
                Option::None => Option::None,
            }
        },
        Option::None => match host_header {
            Option::Some(h) => spec_parse_authority(h),
            Option::None => Option::None,
        },
    }
}

pub open spec fn spec_opt_view(o: Option<String>) -> Option<Seq<char>> {
    match o {
        Option::Some(s) => Option::Some(s@),
        Option::None => Option::None,
    }
}

/// The authority a request addresses: the URI's when it parses, else the
/// `Host` header's.
pub fn extract_authority(uri_authority: &Option<String>, host_header: &Option<String>) -> (r:
    Option<Authority>)
    ensures
        match r {
            Option::Some(a) => {
                &&& spec_extract_authority(
                    spec_opt_view(*uri_authority),
                    spec_opt_view(*host_header),
                ) matches Option::Some(p)
                &&& a.host@ == p.0
                &&& a.port == p.1
            },
            Option::None => spec_extract_authority(
                spec_opt_view(*uri_authority),
                spec_opt_view(*host_header),
            ) is None,
        },
{
    if let Option::Some(u) = uri_authority {
        if let Option::Some(a) = parse_authority(u.as_str()) {
            return Option::Some(a);
        }
    }
    match host_header {
        Option::Some(h) => parse_authority(h.as_str()),
        Option::None => Option::None,
    }
}

/// What the session does with one parsed request.
pub enum SessionPlan {
    /// No authority: answer 400 and close the request.
    RespondBadRequest,
    /// CONNECT: mint (or fetch) the leaf for this authority, answer 200 with
    /// an empty body, and carry on on the upgraded socket.
    Intercept(Authority),
    /// Anything else: dispatch upstream under this authority.
    Proxy(Authority),
}

/// The method dispatch of the session state machine.
pub fn plan_session(is_connect: bool, authority: Option<Authority>) -> (r: SessionPlan)
    ensures
        authority is None ==> r is RespondBadRequest,
        authority matches Option::Some(a) ==> (is_connect ==> (r matches SessionPlan::Intercept(b)
            && b == a)),
        authority matches Option::Some(a) ==> (!is_connect ==> (r matches SessionPlan::Proxy(b)
            && b == a)),
{
    match authority {
        Option::None => SessionPlan::RespondBadRequest,
        Option::Some(a) => {
            if is_connect {
                SessionPlan::Intercept(a)
            } else {
                SessionPlan::Proxy(a)
            }
        },
    }
}

/// What happens on the upgraded socket of an intercepted CONNECT.
pub enum ConnectPlan {
    /// The host is excluded: copy bytes both ways to the authority, no local
    /// TLS handshake, no leaf used.
    BlindTunnel,
    /// Accept TLS with the minted leaf and serve the inner requests as HTTPS.
    TlsIntercept,
}

/// Blind-tunnel exactly the hosts the exclusion store matches.
pub fn plan_connect(exclusions: &LocalExclusionStore, authority: &Authority) -> (r: ConnectPlan)
    ensures
        (r is BlindTunnel) == exclusions.spec_contains(authority.host@),
        (r is TlsIntercept) == !exclusions.spec_contains(authority.host@),
{
    if exclusions.contains(authority.host.as_str()) {
        ConnectPlan::BlindTunnel
    } else {
        ConnectPlan::TlsIntercept
    }
}

} // verus!
