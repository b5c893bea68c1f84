use privaxy::authority::Authority;
use privaxy::blocker::NetworkVerdict;
use privaxy::responses::get_informative_error_response;
use privaxy::responses::get_empty_response;
use privaxy::serve::apply_verdict;
use privaxy::serve::begin_serve;
use privaxy::serve::build_upstream_response;
use privaxy::serve::forward_response_headers;
use privaxy::serve::response_needs_rewrite;
use privaxy::serve::DispatchAction;
use privaxy::serve::RequestMeta;
use privaxy::serve::VerdictAction;
use privaxy::statistics::Statistics;

fn headers(pairs: &[(&str, &str)]) -> Vec<(String, String)> {
    pairs.iter().map(|(n, v)| (n.to_string(), v.to_string())).collect()
}

fn request(host: &str, port: Option<u16>, https: bool, pq: Option<&str>, hs: &[(&str, &str)]) -> RequestMeta {
    RequestMeta {
        method: "GET".to_string(),
        authority: Authority { host: host.to_string(), port },
        https,
        path_and_query: pq.map(|p| p.to_string()),
        headers: headers(hs),
    }
}

#[test]
fn self_directed_request_gets_the_status_page() {
    let mut stats = Statistics::new();
    let req = request("127.0.0.1", Some(8100), false, Some("/"), &[]);
    let action = begin_serve(&mut stats, &req, "10.0.0.1".to_string());
    match action {
        DispatchAction::Respond(resp) => {
            assert_eq!(resp.status, 200);
            let body = String::from_utf8(resp.body).unwrap();
            assert!(body.contains("Proxy is running"));
        }
        _ => panic!("expected a direct response"),
    }
    // No blocker consultation, no counter movement.
    assert_eq!(stats.proxied_requests, 0);
    assert_eq!(stats.blocked_requests, 0);
    assert!(stats.top_clients.entries().is_empty());
}

#[test]
fn self_directed_covers_every_local_name() {
    for host in ["localhost", "::1"] {
        let mut stats = Statistics::new();
        let req = request(host, Some(8100), false, Some("/"), &[]);
        let action = begin_serve(&mut stats, &req, "10.0.0.1".to_string());
        assert!(matches!(action, DispatchAction::Respond(_)));
    }
    // Case matters: the comparison is exact.
    let mut stats = Statistics::new();
    let req = request("LOCALHOST", Some(8100), false, Some("/"), &[]);
    let action = begin_serve(&mut stats, &req, "10.0.0.1".to_string());
    assert!(matches!(action, DispatchAction::Consult { .. }));
}

#[test]
fn a_missing_path_becomes_a_slash() {
    let mut stats = Statistics::new();
    let req = request("ads.example.com", None, true, None, &[]);
    let verdict = NetworkVerdict { redirect: None, filter: None };
    let (_, _) = apply_verdict(
        &mut stats,
        &req,
        "https://ads.example.com/".to_string(),
        true,
        &verdict,
    );
    assert_eq!(
        stats.top_blocked_paths.entries()[0],
        ("https://ads.example.com/".to_string(), 1)
    );
}

#[test]
fn localhost_on_another_port_is_proxied() {
    let mut stats = Statistics::new();
    let req = request("localhost", Some(8080), false, Some("/"), &[]);
    let action = begin_serve(&mut stats, &req, "10.0.0.1".to_string());
    assert!(matches!(action, DispatchAction::Consult { .. }));
}

#[test]
fn upgrade_requests_are_tunneled() {
    let mut stats = Statistics::new();
    let req = request(
        "ws.example.com",
        None,
        false,
        Some("/socket"),
        &[("Upgrade", "websocket"), ("Connection", "Upgrade")],
    );
    let action = begin_serve(&mut stats, &req, "10.0.0.1".to_string());
    match action {
        DispatchAction::UpgradeTunnel { host, port } => {
            assert_eq!(host, "ws.example.com");
            assert_eq!(port, 443);
        }
        _ => panic!("expected an upgrade tunnel"),
    }
    assert!(stats.top_clients.entries().is_empty());
}

#[test]
fn consult_reconstructs_the_uri_and_defaults_the_referer() {
    let mut stats = Statistics::new();
    let req = request("example.com", Some(8000), false, Some("/a?b=1"), &[]);
    let action = begin_serve(&mut stats, &req, "10.0.0.9".to_string());
    match action {
        DispatchAction::Consult { url, referer } => {
            assert_eq!(url, "http://example.com:8000/a?b=1");
            assert_eq!(referer, url);
        }
        _ => panic!("expected a consult"),
    }
    assert_eq!(stats.top_clients.entries()[0], ("10.0.0.9".to_string(), 1));
}

#[test]
fn consult_uses_the_referer_header_when_present() {
    let mut stats = Statistics::new();
    let req = request(
        "example.com",
        None,
        true,
        None,
        &[("Referer", "https://origin.example/")],
    );
    let action = begin_serve(&mut stats, &req, "10.0.0.9".to_string());
    match action {
        DispatchAction::Consult { url, referer } => {
            assert_eq!(url, "https://example.com/");
            assert_eq!(referer, "https://origin.example/");
        }
        _ => panic!("expected a consult"),
    }
}

#[test]
fn blocked_request_bumps_blocked_counters_only() {
    let mut stats = Statistics::new();
    let req = request("ads.example.com", None, false, Some("/banner.js?x=1"), &[]);
    let verdict = NetworkVerdict { redirect: None, filter: Some("||ads.example.com^".to_string()) };
    let url = "http://ads.example.com/banner.js?x=1".to_string();
    let (event, action) = apply_verdict(&mut stats, &req, url.clone(), true, &verdict);
    assert!(event.is_request_blocked);
    assert_eq!(event.method, "GET");
    assert_eq!(event.url, url);
    assert_eq!(stats.blocked_requests, 1);
    assert_eq!(stats.proxied_requests, 0);
    assert_eq!(
        stats.top_blocked_paths.entries()[0],
        ("http://ads.example.com/banner.js".to_string(), 1)
    );
    match action {
        VerdictAction::Respond(resp) => {
            assert_eq!(resp.status, 403);
            let body = String::from_utf8(resp.body).unwrap();
            assert!(body.contains("blocked_by_privaxy"));
            assert!(body.contains("||ads.example.com^"));
        }
        _ => panic!("expected a block response"),
    }
}

#[test]
fn blocked_request_without_label_names_no_information() {
    let mut stats = Statistics::new();
    let req = request("ads.example.com", None, false, Some("/x"), &[]);
    let verdict = NetworkVerdict { redirect: None, filter: None };
    let (_, action) = apply_verdict(
        &mut stats,
        &req,
        "http://ads.example.com/x".to_string(),
        true,
        &verdict,
    );
    match action {
        VerdictAction::Respond(resp) => {
            let body = String::from_utf8(resp.body).unwrap();
            assert!(body.contains("No information"));
        }
        _ => panic!("expected a block response"),
    }
}

#[test]
fn redirect_verdict_serves_the_resource_with_200() {
    let mut stats = Statistics::new();
    let req = request("ads.example.com", None, false, Some("/x"), &[]);
    let verdict = NetworkVerdict { redirect: Some("surrogate".to_string()), filter: None };
    let (_, action) = apply_verdict(
        &mut stats,
        &req,
        "http://ads.example.com/x".to_string(),
        true,
        &verdict,
    );
    match action {
        VerdictAction::Respond(resp) => {
            assert_eq!(resp.status, 200);
            assert_eq!(resp.body, b"surrogate".to_vec());
        }
        _ => panic!("expected a response"),
    }
}

#[test]
fn allowed_request_goes_upstream_with_hop_headers_stripped() {
    let mut stats = Statistics::new();
    let req = request(
        "example.com",
        None,
        false,
        Some("/"),
        &[("Host", "example.com"), ("Connection", "keep-alive"), ("Accept", "*/*")],
    );
    let verdict = NetworkVerdict { redirect: None, filter: None };
    let url = "http://example.com/".to_string();
    let (event, action) = apply_verdict(&mut stats, &req, url.clone(), false, &verdict);
    assert!(!event.is_request_blocked);
    assert_eq!(stats.blocked_requests, 0);
    assert_eq!(stats.proxied_requests, 0);
    match action {
        VerdictAction::Forward(plan) => {
            assert_eq!(plan.url, url);
            assert_eq!(plan.headers, headers(&[("Accept", "*/*")]));
        }
        _ => panic!("expected a forward"),
    }
}

#[test]
fn html_detection_reads_the_content_type() {
    assert!(response_needs_rewrite(&headers(&[("Content-Type", "text/html; charset=utf-8")])));
    assert!(response_needs_rewrite(&headers(&[("content-type", "text/html")])));
    assert!(!response_needs_rewrite(&headers(&[("Content-Type", "application/json")])));
    assert!(!response_needs_rewrite(&headers(&[("Accept", "text/html")])));
}

#[test]
fn rewritten_responses_lose_their_framing_headers() {
    let hs = headers(&[
        ("Content-Length", "120"),
        ("Transfer-Encoding", "chunked"),
        ("Content-Type", "text/html"),
    ]);
    let kept = forward_response_headers(&hs, true);
    assert_eq!(kept, headers(&[("Content-Type", "text/html")]));
    let untouched = forward_response_headers(&hs, false);
    assert_eq!(untouched, hs);
}

#[test]
fn passthrough_keeps_the_body_bitwise() {
    let hs = headers(&[("Content-Type", "application/json"), ("Content-Length", "7")]);
    let body = b"{\"k\":1}".to_vec();
    let resp = build_upstream_response(200, &hs, body.clone(), false);
    assert_eq!(resp.status, 200);
    assert_eq!(resp.body, body);
    assert_eq!(resp.headers, hs);
}

#[test]
fn upstream_failure_yields_the_error_page() {
    let resp = get_informative_error_response("connection refused");
    assert_eq!(resp.status, 502);
    let body = String::from_utf8(resp.body).unwrap();
    assert!(body.contains("connection refused"));
    assert!(body.contains("Bad gateway"));
}

#[test]
fn empty_response_carries_nothing() {
    let resp = get_empty_response(400);
    assert_eq!(resp.status, 400);
    assert!(resp.headers.is_empty());
    assert!(resp.body.is_empty());
}
