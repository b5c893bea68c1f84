//! Upstream dispatch decisions for one parsed request: the self-directed
//! status page, upgrade tunneling, URI reconstruction, the blocker
//! consultation inputs, hop-by-hop header stripping, and the shaping of the
//! upstream response (HTML detection, header forwarding).

use crate::authority::Authority;
use crate::responses::get_proxy_status_page;
use crate::responses::spec_status_page;
use crate::responses::HttpResponseData;
use crate::statistics::tops_incremented;
use crate::statistics::Statistics;
use crate::text::eq_ignore_case;
use crate::text::spec_lower;
use crate::text::str_contains;
use crate::text::str_eq;
use vstd::prelude::*;
use vstd::string::StrSliceExecFns;
use vstd::string::StringExecFns;
use vstd::utf8::encode_utf8;

verus! {

/// A request, parsed to plain values: the method, the authority it addresses,
/// whether it arrived inside an intercepted TLS session, its path and query,
/// and its header fields in order.
pub struct RequestMeta {
    pub method: String,
    pub authority: Authority,
    pub https: bool,
    pub path_and_query: Option<String>,
    pub headers: Vec<(String, String)>,
}

/// The position of the first header whose name folds to the given one.
pub open spec fn first_header_index(h: Seq<(String, String)>, name_lower: Seq<char>) -> Option<
    int,
>
    decreases h.len(),
{
    if h.len() == 0 {
        Option::None
    } else if spec_lower(h[0].0@) == name_lower {
        Option::Some(0int)
    } else {
        match first_header_index(h.skip(1), name_lower) {
            Option::Some(i) => Option::Some(i + 1),
            Option::None => Option::None,
        }
    }
}

/// The value of the first header with the given (already folded) name.
pub open spec fn spec_header_value(h: Seq<(String, String)>, name_lower: Seq<char>) -> Option<
    Seq<char>,
> {
    match first_header_index(h, name_lower) {
        Option::Some(i) => Option::Some(h[i].1@),
        Option::None => Option::None,
    }
}

proof fn lemma_first_header_index_found(
    h: Seq<(String, String)>,
    name_lower: Seq<char>,
    i: int,
)
    requires
        0 <= i < h.len(),
        spec_lower(h[i].0@) == name_lower,
        forall|j: int| 0 <= j < i ==> spec_lower(h[j].0@) != name_lower,
    ensures
        first_header_index(h, name_lower) == Option::Some(i),
    decreases i,
{
    if i > 0 {
        lemma_first_header_index_found(h.skip(1), name_lower, i - 1);
    }
}

proof fn lemma_first_header_index_missing(h: Seq<(String, String)>, name_lower: Seq<char>)
    requires
        forall|j: int| 0 <= j < h.len() ==> spec_lower(h[j].0@) != name_lower,
    ensures
        first_header_index(h, name_lower) is None,
    decreases h.len(),
{
    if h.len() > 0 {
        lemma_first_header_index_missing(h.skip(1), name_lower);
    }
}

/// The first header whose name folds to the given one, if any.
pub fn header_value<'a>(headers: &'a Vec<(String, String)>, name_lower: &str) -> (r: Option<
    &'a String,
>)
    ensures
        match r {
            Option::Some(v) => spec_header_value(headers@, name_lower@) == Option::Some(v@),
            Option::None => spec_header_value(headers@, name_lower@) is None,
        },
{
    let mut i: usize = 0;
    while i < headers.len()
        invariant
            0 <= i <= headers.len(),
            forall|j: int| 0 <= j < i ==> spec_lower(headers@[j].0@) != name_lower@,
        decreases headers.len() - i,
    {
        if eq_ignore_case(headers[i].0.as_str(), name_lower) {
            proof {
                lemma_first_header_index_found(headers@, name_lower@, i as int);
            }
            return Option::Some(&headers[i].1);
        }
        i = i + 1;
    }
    proof {
        lemma_first_header_index_missing(headers@, name_lower@);
    }
    Option::None
}

/// Requests aimed at the proxy itself: localhost on the proxy's own port.
pub open spec fn spec_is_self_directed(a: Authority) -> bool {
    &&& (a.host@ == "127.0.0.1"@ || a.host@ == "localhost"@ || a.host@ == "::1"@)
    &&& a.port == Option::Some(8100u16)
}

pub fn is_self_directed(a: &Authority) -> (r: bool)
    ensures
        r == spec_is_self_directed(*a),
{
    let port_is_proxy = match a.port {
        Option::Some(p) => p == 8100,
        Option::None => false,
    };
    port_is_proxy && (str_eq(a.host.as_str(), "127.0.0.1") || str_eq(a.host.as_str(), "localhost")
        || str_eq(a.host.as_str(), "::1"))
}

pub open spec fn spec_pq_view(pq: Option<String>) -> Option<Seq<char>> {
    match pq {
        Option::Some(p) => Option::Some(p@),
        Option::None => Option::None,
    }
}

/// The reconstructed target URI: scheme, authority, then the path and query
/// (`/` when the request carried none).
pub open spec fn spec_request_uri(https: bool, a: Authority, pq: Option<Seq<char>>) -> Seq<char> {
    (if https {
        "https://"@
    } else {
        "http://"@
    }) + a.spec_str() + (match pq {
        Option::Some(p) => p,
        Option::None => "/"@,
    })
}

pub fn build_request_uri(https: bool, a: &Authority, pq: &Option<String>) -> (r: String)
    ensures
        r@ == spec_request_uri(https, *a, spec_pq_view(*pq)),
{
    let scheme: &str = if https {
        "https://"
    } else {
        "http://"
    };
    let base = String::from_str(scheme).concat(a.to_string().as_str());
    let r = match pq {
        Option::Some(p) => base.concat(p.as_str()),
        Option::None => base.concat("/"),
    };
    proof {
        assert(r@ =~= spec_request_uri(https, *a, spec_pq_view(*pq)));
    }
    r
}

/// The target of an upgrade tunnel: the authority's host and port, with
/// `localhost` and 443 standing in where they are absent.
pub open spec fn spec_upgrade_host(a: Authority) -> Seq<char> {
    if a.host@.len() == 0 {
        "localhost"@
    } else {
        a.host@
    }
}

pub open spec fn spec_upgrade_port(a: Authority) -> u16 {
    match a.port {
        Option::Some(p) => p,
        Option::None => 443u16,
    }
}

/// What the dispatcher decides for a request before any blocker verdict.
pub enum DispatchAction {
    /// Answer at once with this response.
    Respond(HttpResponseData),
    /// Answer 101 Switching Protocols and copy bytes both ways to this target.
    UpgradeTunnel { host: String, port: u16 },
    /// Ask the blocker about this URL, with this referer.
    Consult { url: String, referer: String },
}

/// The dispatch decision for a request: self-directed traffic gets the status
/// page; a request carrying an `Upgrade` header is tunneled; anything else is
/// checked against the blocker with the referer defaulting to the URL itself.
/// The client lands in the top-clients tally only on the consult path.
pub fn begin_serve(stats: &mut Statistics, req: &RequestMeta, client_ip: String) -> (r:
    DispatchAction)
    ensures
        spec_is_self_directed(req.authority) ==> {
            &&& r matches DispatchAction::Respond(resp)
            &&& resp.status == 200
            &&& resp.body@ == encode_utf8(spec_status_page())
            &&& crate::responses::spec_html_headers(resp.headers@)
            &&& *final(stats) == *old(stats)
        },
        !spec_is_self_directed(req.authority) && spec_header_value(req.headers@, "upgrade"@)
            is Some ==> {
            &&& r matches DispatchAction::UpgradeTunnel { host, port }
            &&& host@ == spec_upgrade_host(req.authority)
            &&& port == spec_upgrade_port(req.authority)
            &&& *final(stats) == *old(stats)
        },
        !spec_is_self_directed(req.authority) && spec_header_value(req.headers@, "upgrade"@)
            is None ==> {
            &&& r matches DispatchAction::Consult { url, referer }
            &&& url@ == spec_request_uri(req.https, req.authority, spec_pq_view(req.path_and_query))
            &&& referer@ == (match spec_header_value(req.headers@, "referer"@) {
                Option::Some(v) => v,
                Option::None => url@,
            })
            &&& tops_incremented(old(stats).top_clients@, final(stats).top_clients@, client_ip@)
            &&& final(stats).proxied_requests == old(stats).proxied_requests
            &&& final(stats).blocked_requests == old(stats).blocked_requests
            &&& final(stats).modified_responses == old(stats).modified_responses
            &&& final(stats).top_blocked_paths == old(stats).top_blocked_paths
        },
{
    if is_self_directed(&req.authority) {
        return DispatchAction::Respond(get_proxy_status_page());
    }
    if header_value(&req.headers, "upgrade").is_some() {
        let host = if req.authority.host.as_str().is_empty() {
            String::from_str("localhost")
        } else {
            req.authority.host.clone()
        };
        let port = match req.authority.port {
            Option::Some(p) => p,
            Option::None => 443,
        };
        return DispatchAction::UpgradeTunnel { host, port };
    }
    let url = build_request_uri(req.https, &req.authority, &req.path_and_query);
    stats.increment_top_clients(client_ip);
    let referer = match header_value(&req.headers, "referer") {
        Option::Some(v) => v.clone(),
        Option::None => url.clone(),
    };
    DispatchAction::Consult { url, referer }
}

/// The position of the first occurrence of the character, if any.
pub open spec fn first_char_index(s: Seq<char>, c: char) -> Option<int>
    decreases s.len(),
{
    if s.len() == 0 {
        Option::None
    } else if s[0] == c {
        Option::Some(0int)
    } else {
        match first_char_index(s.skip(1), c) {
            Option::Some(i) => Option::Some(i + 1),
            Option::None => Option::None,
        }
    }
}

proof fn lemma_first_char_index_found(s: Seq<char>, c: char, i: int)
    requires
        0 <= i < s.len(),
        s[i] == c,
        forall|j: int| 0 <= j < i ==> s[j] != c,
    ensures
        first_char_index(s, c) == Option::Some(i),
    decreases i,
{
    if i > 0 {
        lemma_first_char_index_found(s.skip(1), c, i - 1);
    }
}

proof fn lemma_first_char_index_missing(s: Seq<char>, c: char)
    requires
        forall|j: int| 0 <= j < s.len() ==> s[j] != c,
    ensures
        first_char_index(s, c) is None,
    decreases s.len(),
{
    if s.len() > 0 {
        lemma_first_char_index_missing(s.skip(1), c);
    }
}

fn find_char(s: &str, c: char) -> (r: Option<usize>)
    ensures
        match r {
            Option::Some(i) => first_char_index(s@, c) == Option::Some(i as int) && i < s@.len(),
            Option::None => first_char_index(s@, c) is None,
        },
{
    let n = s.unicode_len();
    let mut i: usize = 0;
    while i < n
        invariant
            0 <= i <= n,
            forall|j: int| 0 <= j < i ==> s@[j] != c,
        decreases n - i,
    {
        if s.get_char(i) == c {
            proof {
                lemma_first_char_index_found(s@, c, i as int);
            }
            return Option::Some(i);
        }
        i = i + 1;
    }
    proof {
        lemma_first_char_index_missing(s@, c);
    }
    Option::None
}

/// The path part of a path-and-query: everything before the first `?`, or
/// `/` when the request carried no path at all.
pub open spec fn spec_path_only(pq: Option<Seq<char>>) -> Seq<char> {
    match pq {
        Option::None => "/"@,
        Option::Some(p) => match first_char_index(p, '?') {
            Option::Some(i) => p.take(i),
            Option::None => p,
        },
    }
}

fn path_only(pq: &Option<String>) -> (r: String)
    ensures
        r@ == spec_path_only(spec_pq_view(*pq)),
{
    match pq {
        Option::None => String::from_str("/"),
        Option::Some(p) => match find_char(p.as_str(), '?') {
            Option::Some(i) => {
                let cut = p.as_str().substring_char(0, i);
                assert(cut@ =~= p@.take(i as int));
                String::from_str(cut)
            },
            Option::None => p.clone(),
        },
    }
}

/// The key a blocked request is tallied under: scheme, host and path, the
/// query left off.
pub open spec fn spec_blocked_path_key(https: bool, host: Seq<char>, pq: Option<Seq<char>>) -> Seq<
    char,
> {
    (if https {
        "https://"@
    } else {
        "http://"@
    }) + host + spec_path_only(pq)
}

fn blocked_path_key(https: bool, host: &String, pq: &Option<String>) -> (r: String)
    ensures
        r@ == spec_blocked_path_key(https, host@, spec_pq_view(*pq)),
{
    let scheme: &str = if https {
        "https://"
    } else {
        "http://"
    };
    let r = String::from_str(scheme).concat(host.as_str()).concat(path_only(pq).as_str());
    proof {
        assert(r@ =~= spec_blocked_path_key(https, host@, spec_pq_view(*pq)));
    }
    r
}

/// What dispatch does once the blocker has answered.
pub enum VerdictAction {
    /// Answer at once: the redirect resource or the block page.
    Respond(HttpResponseData),
    /// Fetch the URL upstream with these headers and the client's body.
    Forward(UpstreamPlan),
}

/// The upstream fetch: the reconstructed URL and the headers to send.
pub struct UpstreamPlan {
    pub url: String,
    pub headers: Vec<(String, String)>,
}

/// Applies the blocker's verdict. Exactly one event comes out, and its
/// blocked flag equals the verdict's. A blocked request bumps the blocked tallies
/// and is answered at once — the redirect resource when the verdict carries
/// one, else the block page naming the matched filter; an allowed request
/// changes no counter and goes upstream with its hop-by-hop headers stripped.
pub fn apply_verdict(
    stats: &mut Statistics,
    req: &RequestMeta,
    url: String,
    blocked: bool,
    verdict: &crate::blocker::NetworkVerdict,
) -> (r: (crate::events::Event, VerdictAction))
    ensures
        r.0.method@ == req.method@,
        r.0.url@ == url@,
        r.0.is_request_blocked == blocked,
        blocked ==> {
            &&& final(stats).blocked_requests == crate::statistics::sat_inc(
                old(stats).blocked_requests,
            )
            &&& final(stats).proxied_requests == old(stats).proxied_requests
            &&& final(stats).modified_responses == old(stats).modified_responses
            &&& final(stats).top_clients == old(stats).top_clients
            &&& tops_incremented(
                old(stats).top_blocked_paths@,
                final(stats).top_blocked_paths@,
                spec_blocked_path_key(
                    req.https,
                    req.authority.host@,
                    spec_pq_view(req.path_and_query),
                ),
            )
            &&& r.1 matches VerdictAction::Respond(resp)
            &&& (match verdict.redirect {
                Option::Some(res) => resp.status == 200 && resp.body@ == encode_utf8(res@),
                Option::None => resp.status == 403 && resp.body@ == encode_utf8(
                    crate::responses::spec_blocked_page(
                        crate::responses::spec_filter_label(
                            crate::blocker::opt_str_view(verdict.filter),
                        ),
                    ),
                ),
            })
        },
        !blocked ==> {
            &&& *final(stats) == *old(stats)
            &&& r.1 matches VerdictAction::Forward(plan)
            &&& plan.url@ == url@
            &&& plan.headers@ == spec_strip_hop_headers(req.headers@)
        },
{
    let event = crate::events::Event {
        timestamp_ms: crate::events::now_timestamp_millis(),
        method: req.method.clone(),
        url: url.clone(),
        is_request_blocked: blocked,
    };
    if blocked {
        stats.increment_blocked_requests();
        stats.increment_top_blocked_paths(
            blocked_path_key(req.https, &req.authority.host, &req.path_and_query),
        );
        let resp = crate::responses::get_blocked_by_privaxy_response(
            &verdict.redirect,
            &verdict.filter,
        );
        (event, VerdictAction::Respond(resp))
    } else {
        let plan = UpstreamPlan { url, headers: strip_hop_headers(&req.headers) };
        (event, VerdictAction::Forward(plan))
    }
}

/// Header fields that survive the trip upstream: everything but the
/// hop-by-hop `Connection` and `Host` fields.
pub open spec fn spec_keeps_for_upstream(p: (String, String)) -> bool {
    spec_lower(p.0@) != "connection"@ && spec_lower(p.0@) != "host"@
}

pub open spec fn spec_strip_hop_headers(h: Seq<(String, String)>) -> Seq<(String, String)> {
    h.filter(|p: (String, String)| spec_keeps_for_upstream(p))
}

/// Drops the `Connection` and `Host` fields before the upstream fetch.
pub fn strip_hop_headers(headers: &Vec<(String, String)>) -> (r: Vec<(String, String)>)
    ensures
        r@ == spec_strip_hop_headers(headers@),
{
    let ghost pred = |p: (String, String)| spec_keeps_for_upstream(p);
    let mut r: Vec<(String, String)> = Vec::new();
    proof {
        reveal(Seq::filter);
        assert(r@ =~= headers@.subrange(0, 0).filter(pred));
    }
    let mut i: usize = 0;
    while i < headers.len()
        invariant
            0 <= i <= headers.len(),
            r@ == headers@.subrange(0, i as int).filter(pred),
        decreases headers.len() - i,
    {
        let keep = !(eq_ignore_case(headers[i].0.as_str(), "connection") || eq_ignore_case(
            headers[i].0.as_str(),
            "host",
        ));
        if keep {
            r.push((headers[i].0.clone(), headers[i].1.clone()));
        }
        proof {
            reveal(Seq::filter);
            assert(headers@.subrange(0, i + 1 as int).drop_last() =~= headers@.subrange(
                0,
                i as int,
            ));
            assert(headers@.subrange(0, i + 1 as int).last() == headers@[i as int]);
        }
        i = i + 1;
    }
    proof {
        assert(headers@.subrange(0, headers@.len() as int) =~= headers@);
    }
    r
}

/// Whether the response's first `Content-Type` field marks an HTML body.
pub open spec fn spec_is_html_response(h: Seq<(String, String)>) -> bool {
    match spec_header_value(h, "content-type"@) {
        Option::Some(v) => crate::text::contains_seq(v, "text/html"@),
        Option::None => false,
    }
}

pub fn response_needs_rewrite(headers: &Vec<(String, String)>) -> (r: bool)
    ensures
        r == spec_is_html_response(headers@),
{
    match header_value(headers, "content-type") {
        Option::Some(v) => str_contains(v.as_str(), "text/html"),
        Option::None => false,
    }
}

/// Header fields the client gets back from a rewritten body: the rewrite may
/// change the body's size, so the stale framing fields are dropped.
pub open spec fn spec_keeps_for_client(p: (String, String)) -> bool {
    spec_lower(p.0@) != "content-length"@ && spec_lower(p.0@) != "transfer-encoding"@
}

pub open spec fn spec_strip_framing_headers(h: Seq<(String, String)>) -> Seq<(String, String)> {
    h.filter(|p: (String, String)| spec_keeps_for_client(p))
}

/// The headers forwarded to the client: unchanged for a body passed through,
/// with `Content-Length` and `Transfer-Encoding` dropped for a rewritten one.
pub fn forward_response_headers(headers: &Vec<(String, String)>, rewritten: bool) -> (r: Vec<
    (String, String),
>)
    ensures
        rewritten ==> r@ == spec_strip_framing_headers(headers@),
        !rewritten ==> r@ =~= headers@,
{
    if !rewritten {
        let mut r: Vec<(String, String)> = Vec::new();
        let mut i: usize = 0;
        while i < headers.len()
            invariant
                0 <= i <= headers.len(),
                r@ =~= headers@.subrange(0, i as int),
            decreases headers.len() - i,
        {
            r.push((headers[i].0.clone(), headers[i].1.clone()));
            i = i + 1;
        }
        proof {
            assert(headers@.subrange(0, headers@.len() as int) =~= headers@);
        }
        return r;
    }
    let ghost pred = |p: (String, String)| spec_keeps_for_client(p);
    let mut r: Vec<(String, String)> = Vec::new();
    proof {
        reveal(Seq::filter);
        assert(r@ =~= headers@.subrange(0, 0).filter(pred));
    }
    let mut i: usize = 0;
    while i < headers.len()
        invariant
            0 <= i <= headers.len(),
            r@ == headers@.subrange(0, i as int).filter(pred),
        decreases headers.len() - i,
    {
        let keep = !(eq_ignore_case(headers[i].0.as_str(), "content-length") || eq_ignore_case(
            headers[i].0.as_str(),
            "transfer-encoding",
        ));
        if keep {
            r.push((headers[i].0.clone(), headers[i].1.clone()));
        }
        proof {
            reveal(Seq::filter);
            assert(headers@.subrange(0, i + 1 as int).drop_last() =~= headers@.subrange(
                0,
                i as int,
            ));
            assert(headers@.subrange(0, i + 1 as int).last() == headers@[i as int]);
        }
        i = i + 1;
    }
    proof {
        assert(headers@.subrange(0, headers@.len() as int) =~= headers@);
    }
    r
}

/// The response handed back to the client from an upstream answer: the status
/// is kept, the body is the one given (identical to the upstream body when no
/// rewrite happened), and the headers are forwarded as
/// `forward_response_headers` says.
pub fn build_upstream_response(
    status: u16,
    headers: &Vec<(String, String)>,
    body: Vec<u8>,
    rewritten: bool,
) -> (r: HttpResponseData)
    ensures
        r.status == status,
        r.body@ == body@,
        rewritten ==> r.headers@ == spec_strip_framing_headers(headers@),
        !rewritten ==> r.headers@ =~= headers@,
{
    let fwd = forward_response_headers(headers, rewritten);
    HttpResponseData { status, headers: fwd, body }
}

} // verus!
