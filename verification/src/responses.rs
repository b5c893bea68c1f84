//! Responses the proxy serves from its own body of HTML: the block page, the
//! upstream-error page, the self-status page, and empty responses. All pages
//! carry `Content-Type: text/html; charset=utf-8`.

use vstd::prelude::*;
use vstd::string::StrSliceExecFns;
use vstd::string::StringExecFns;
use vstd::string::StringSliceAdditionalSpecFns;
use vstd::utf8::encode_utf8;

verus! {

/// A response as plain data: status code, header fields in order, body bytes.
pub struct HttpResponseData {
    pub status: u16,
    pub headers: Vec<(String, String)>,
    pub body: Vec<u8>,
}

/// The single header carried by every page served from the proxy's own HTML.
pub open spec fn spec_html_headers(h: Seq<(String, String)>) -> bool {
    &&& h.len() == 1
    &&& h[0].0@ == "Content-Type"@
    &&& h[0].1@ == "text/html; charset=utf-8"@
}

fn html_headers() -> (r: Vec<(String, String)>)
    ensures
        spec_html_headers(r@),
{
    let mut v: Vec<(String, String)> = Vec::new();
    v.push(
        (String::from_str("Content-Type"), String::from_str("text/html; charset=utf-8")),
    );
    v
}

/// The page told clients when a request was blocked, around the matched
/// filter's label.
pub open spec fn spec_blocked_page(label: Seq<char>) -> Seq<char> {
    "<!DOCTYPE html><html><head><meta charset=\"utf-8\"><title>Privaxy</title></head><body id=\"blocked_by_privaxy\"><h1>Request blocked by Privaxy</h1><p>Matching filter: "@
        + label + "</p></body></html>"@
}

/// The page told clients when the upstream fetch failed, around the reason.
pub open spec fn spec_error_page(reason: Seq<char>) -> Seq<char> {
    "<!DOCTYPE html><html><head><meta charset=\"utf-8\"><title>Privaxy</title></head><body><h1>Bad gateway</h1><p>Privaxy could not complete the request: "@
        + reason + "</p></body></html>"@
}

/// The page served for requests aimed at the proxy itself.
pub open spec fn spec_status_page() -> Seq<char> {
    "<!DOCTYPE html><html><head><meta charset=\"utf-8\"><title>Privaxy</title></head><body><h1>Privaxy</h1><p>Proxy is running. Configure your browser to use this address as HTTP/HTTPS proxy.</p></body></html>"@
}

/// The filter label shown on the block page when the verdict names none.
pub open spec fn spec_filter_label(filter: Option<Seq<char>>) -> Seq<char> {
    match filter {
        Option::Some(f) => f,
        Option::None => "No information"@,
    }
}

/// A response with the given status and no body.
pub fn get_empty_response(status: u16) -> (r: HttpResponseData)
    ensures
        r.status == status,
        r.headers@.len() == 0,
        r.body@.len() == 0,
{
    HttpResponseData { status, headers: Vec::new(), body: Vec::new() }
}

/// The answer for a blocked request: the redirect resource with status 200
/// when the verdict carries one, else the block page with status 403 and the
/// matched filter's label (or a fixed note) substituted.
pub fn get_blocked_by_privaxy_response(redirect: &Option<String>, filter: &Option<String>) -> (r:
    HttpResponseData)
    ensures
        match redirect {
            Option::Some(res) => {
                &&& r.status == 200
                &&& r.body@ == encode_utf8(res@)
                &&& r.headers@.len() == 0
            },
            Option::None => {
                &&& r.status == 403
                &&& r.body@ == encode_utf8(
                    spec_blocked_page(
                        spec_filter_label(
                            match filter {
                                Option::Some(f) => Option::Some(f@),
                                Option::None => Option::None,
                            },
                        ),
                    ),
                )
                &&& spec_html_headers(r.headers@)
            },
        },
{
    match redirect {
        Option::Some(resource) => HttpResponseData {
            status: 200,
            headers: Vec::new(),
            body: resource.as_str().as_bytes_vec(),
        },
        Option::None => {
            let label: String = match filter {
                Option::Some(f) => f.clone(),
                Option::None => String::from_str("No information"),
            };
            let page = String::from_str(
                "<!DOCTYPE html><html><head><meta charset=\"utf-8\"><title>Privaxy</title></head><body id=\"blocked_by_privaxy\"><h1>Request blocked by Privaxy</h1><p>Matching filter: ",
            ).concat(label.as_str()).concat("</p></body></html>");
            HttpResponseData {
                status: 403,
                headers: html_headers(),
                body: page.as_str().as_bytes_vec(),
            }
        },
    }
}

/// The 502 answer for a failed upstream fetch, with the reason substituted
/// into the error page.
pub fn get_informative_error_response(reason: &str) -> (r: HttpResponseData)
    ensures
        r.status == 502,
        r.body@ == encode_utf8(spec_error_page(reason@)),
        spec_html_headers(r.headers@),
{
    let page = String::from_str(
        "<!DOCTYPE html><html><head><meta charset=\"utf-8\"><title>Privaxy</title></head><body><h1>Bad gateway</h1><p>Privaxy could not complete the request: ",
    ).concat(reason).concat("</p></body></html>");
    HttpResponseData { status: 502, headers: html_headers(), body: page.as_str().as_bytes_vec() }
}

/// The status page for requests aimed at the proxy itself.
pub fn get_proxy_status_page() -> (r: HttpResponseData)
    ensures
        r.status == 200,
        r.body@ == encode_utf8(spec_status_page()),
        spec_html_headers(r.headers@),
{
    let page = String::from_str(
        "<!DOCTYPE html><html><head><meta charset=\"utf-8\"><title>Privaxy</title></head><body><h1>Privaxy</h1><p>Proxy is running. Configure your browser to use this address as HTTP/HTTPS proxy.</p></body></html>",
    );
    HttpResponseData { status: 200, headers: html_headers(), body: page.as_str().as_bytes_vec() }
}

} // verus!
