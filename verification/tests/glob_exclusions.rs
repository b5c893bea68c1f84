use privaxy::exclusions::glob_match;
use privaxy::exclusions::LocalExclusionStore;
use privaxy::session::plan_connect;
use privaxy::session::ConnectPlan;
use privaxy::authority::Authority;

fn store(patterns: &[&str]) -> LocalExclusionStore {
    LocalExclusionStore::new(patterns.iter().map(|p| p.to_string()).collect())
}

#[test]
fn literal_pattern_matches_itself() {
    assert!(glob_match("example.com", "example.com"));
    assert!(!glob_match("example.com", "example.org"));
}

#[test]
fn matching_is_case_insensitive() {
    assert!(glob_match("Example.COM", "eXaMpLe.com"));
    assert!(glob_match("secure.bank.example", "SECURE.BANK.EXAMPLE"));
}

#[test]
fn question_mark_matches_exactly_one_character() {
    assert!(glob_match("a?c", "abc"));
    assert!(glob_match("a?c", "aXc"));
    assert!(!glob_match("a?c", "ac"));
    assert!(!glob_match("a?c", "abbc"));
}

#[test]
fn star_matches_any_run() {
    assert!(glob_match("*.example.com", "ads.example.com"));
    assert!(glob_match("*.example.com", "a.b.example.com"));
    assert!(!glob_match("*.example.com", "example.com"));
    assert!(glob_match("*", ""));
    assert!(glob_match("*", "anything"));
    assert!(glob_match("a*b*c", "aXXbYYc"));
    assert!(!glob_match("a*b*c", "aXXcYYb"));
}

#[test]
fn empty_pattern_matches_only_empty_host() {
    assert!(glob_match("", ""));
    assert!(!glob_match("", "a"));
}

#[test]
fn store_matches_any_of_its_patterns() {
    let s = store(&["secure.bank.example", "*.internal.test"]);
    assert!(s.contains("secure.bank.example"));
    assert!(s.contains("host.internal.test"));
    assert!(!s.contains("ads.example.com"));
}

#[test]
fn empty_store_matches_nothing() {
    let s = store(&[]);
    assert!(!s.contains("example.com"));
    assert!(!s.contains(""));
}

#[test]
fn replacement_swaps_the_whole_set() {
    let mut s = store(&["old.example"]);
    assert!(s.contains("old.example"));
    s.replace(vec!["new.example".to_string()]);
    assert!(!s.contains("old.example"));
    assert!(s.contains("new.example"));
}

#[test]
fn replacing_with_same_patterns_gives_same_answers() {
    let mut s = store(&["*.bank.example", "intranet.?"]);
    let before: Vec<bool> = ["a.bank.example", "intranet.x", "other.example"]
        .iter()
        .map(|h| s.contains(h))
        .collect();
    s.replace(vec!["*.bank.example".to_string(), "intranet.?".to_string()]);
    let after: Vec<bool> = ["a.bank.example", "intranet.x", "other.example"]
        .iter()
        .map(|h| s.contains(h))
        .collect();
    assert_eq!(before, after);
}

#[test]
fn excluded_connect_is_blind_tunneled() {
    let s = store(&["secure.bank.example"]);
    let a = Authority { host: "secure.bank.example".to_string(), port: Some(443) };
    assert!(matches!(plan_connect(&s, &a), ConnectPlan::BlindTunnel));
}

#[test]
fn other_connect_is_tls_intercepted() {
    let s = store(&["secure.bank.example"]);
    let a = Authority { host: "www.example.com".to_string(), port: Some(443) };
    assert!(matches!(plan_connect(&s, &a), ConnectPlan::TlsIntercept));
}
