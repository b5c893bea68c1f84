use privaxy::authority::parse_authority;
use privaxy::authority::u16_to_string;
use privaxy::session::extract_authority;

#[test]
fn bare_host_has_no_port() {
    let a = parse_authority("example.com").unwrap();
    assert_eq!(a.host, "example.com");
    assert_eq!(a.port, None);
}

#[test]
fn host_and_port_split_at_the_colon() {
    let a = parse_authority("www.example.com:443").unwrap();
    assert_eq!(a.host, "www.example.com");
    assert_eq!(a.port, Some(443));
}

#[test]
fn bracketed_ipv6_keeps_its_brackets() {
    let a = parse_authority("[::1]:8443").unwrap();
    assert_eq!(a.host, "[::1]");
    assert_eq!(a.port, Some(8443));
    let b = parse_authority("[2001:db8::1]").unwrap();
    assert_eq!(b.host, "[2001:db8::1]");
    assert_eq!(b.port, None);
}

#[test]
fn port_bounds_are_enforced() {
    assert_eq!(parse_authority("h:65535").unwrap().port, Some(65535));
    assert!(parse_authority("h:65536").is_none());
    assert!(parse_authority("h:123456").is_none());
    assert_eq!(parse_authority("h:0").unwrap().port, Some(0));
}

#[test]
fn bad_port_suffixes_are_rejected() {
    assert!(parse_authority("h:").is_none());
    assert!(parse_authority("h:8a0").is_none());
    assert!(parse_authority(":443").is_none());
    assert!(parse_authority("").is_none());
}

#[test]
fn authority_renders_back_to_its_text() {
    let a = parse_authority("www.example.com:8443").unwrap();
    assert_eq!(a.to_string(), "www.example.com:8443");
    let b = parse_authority("example.com").unwrap();
    assert_eq!(b.to_string(), "example.com");
}

#[test]
fn decimal_rendering_is_exact() {
    assert_eq!(u16_to_string(0), "0");
    assert_eq!(u16_to_string(7), "7");
    assert_eq!(u16_to_string(80), "80");
    assert_eq!(u16_to_string(8100), "8100");
    assert_eq!(u16_to_string(65535), "65535");
}

#[test]
fn uri_authority_wins_over_host_header() {
    let a = extract_authority(
        &Some("uri.example:1".to_string()),
        &Some("header.example:2".to_string()),
    )
    .unwrap();
    assert_eq!(a.host, "uri.example");
    assert_eq!(a.port, Some(1));
}

#[test]
fn host_header_is_the_fallback() {
    let a = extract_authority(&None, &Some("header.example:2".to_string())).unwrap();
    assert_eq!(a.host, "header.example");
    assert_eq!(a.port, Some(2));
    let b = extract_authority(&Some("bad:99999".to_string()), &Some("ok.example".to_string()))
        .unwrap();
    assert_eq!(b.host, "ok.example");
}

#[test]
fn no_authority_anywhere_is_none() {
    assert!(extract_authority(&None, &None).is_none());
    assert!(extract_authority(&Some("bad:".to_string()), &None).is_none());
}
