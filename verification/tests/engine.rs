use privaxy::blocker::handle_blocker_request;
use privaxy::blocker::Blocker;
use privaxy::blocker::BlockerReply;
use privaxy::blocker::BlockerRequest;
use privaxy::configuration::apply_configuration;
use privaxy::configuration::Configuration;
use privaxy::exclusions::LocalExclusionStore;

fn strings(v: &[&str]) -> Vec<String> {
    v.iter().map(|s| s.to_string()).collect()
}

#[test]
fn a_matching_filter_blocks_the_request() {
    let blocker = Blocker::new(&strings(&["||ads.example.com^"]));
    let (blocked, verdict) = blocker.is_network_url_blocked(
        false,
        &"http://ads.example.com/banner.js".to_string(),
        &None,
    );
    assert!(blocked);
    assert!(verdict.filter.unwrap().contains("ads.example.com"));
}

#[test]
fn an_empty_rule_set_blocks_nothing() {
    let blocker = Blocker::new(&Vec::new());
    let (blocked, verdict) = blocker.is_network_url_blocked(
        false,
        &"http://example.com/".to_string(),
        &None,
    );
    assert!(!blocked);
    assert!(verdict.redirect.is_none());
    assert!(verdict.filter.is_none());
}

#[test]
fn disabled_blocking_answers_not_blocked_without_the_engine() {
    let blocker = Blocker::new(&strings(&["||ads.example.com^"]));
    let (blocked, verdict) = blocker.is_network_url_blocked(
        true,
        &"http://ads.example.com/banner.js".to_string(),
        &None,
    );
    assert!(!blocked);
    assert!(verdict.redirect.is_none());
    assert!(verdict.filter.is_none());
}

#[test]
fn hostname_rules_hide_their_selectors() {
    let blocker = Blocker::new(&strings(&["example.com##.ad-banner"]));
    let verdict = blocker.get_cosmetic_response(
        &"https://example.com/page".to_string(),
        &Vec::new(),
        &Vec::new(),
    );
    assert!(verdict.hidden_selectors.contains(&".ad-banner".to_string()));
    assert!(verdict.style_selectors.is_empty());
    assert!(verdict.injected_script.is_none());
}

#[test]
fn page_classes_pull_in_generic_hides() {
    let blocker = Blocker::new(&strings(&["##.gads"]));
    let verdict = blocker.get_cosmetic_response(
        &"https://example.com/".to_string(),
        &Vec::new(),
        &strings(&["gads"]),
    );
    assert!(verdict.hidden_selectors.contains(&".gads".to_string()));
}

#[test]
fn worker_replaces_rules_and_serves_with_the_new_engine() {
    let mut blocker = Blocker::new(&Vec::new());
    let url = "http://ads.example.com/banner.js".to_string();
    match handle_blocker_request(
        &mut blocker,
        false,
        BlockerRequest::IsBlocked { url: url.clone(), referer: None },
    ) {
        BlockerReply::Blocked(blocked, _) => assert!(!blocked),
        _ => panic!("expected a blocked reply"),
    }
    match handle_blocker_request(
        &mut blocker,
        false,
        BlockerRequest::ReplaceRules { rules: strings(&["||ads.example.com^"]) },
    ) {
        BlockerReply::Replaced => {}
        _ => panic!("expected a replaced reply"),
    }
    match handle_blocker_request(
        &mut blocker,
        false,
        BlockerRequest::IsBlocked { url, referer: None },
    ) {
        BlockerReply::Blocked(blocked, _) => assert!(blocked),
        _ => panic!("expected a blocked reply"),
    }
}

#[test]
fn worker_answers_cosmetic_queries() {
    let mut blocker = Blocker::new(&strings(&["example.com##.ad"]));
    match handle_blocker_request(
        &mut blocker,
        false,
        BlockerRequest::Cosmetic {
            url: "https://example.com/".to_string(),
            ids: Vec::new(),
            classes: Vec::new(),
        },
    ) {
        BlockerReply::Cosmetic(verdict) => {
            assert!(verdict.hidden_selectors.contains(&".ad".to_string()));
        }
        _ => panic!("expected a cosmetic reply"),
    }
}

#[test]
fn applying_the_same_configuration_twice_changes_no_verdict() {
    let configuration = Configuration {
        ca_certificate_pem: String::new(),
        ca_private_key_pem: String::new(),
        filter_rules: strings(&["||ads.example.com^"]),
        exclusions: strings(&["secure.bank.example"]),
        blocking_disabled: false,
    };
    let mut blocker = Blocker::new(&Vec::new());
    let mut exclusions = LocalExclusionStore::new(Vec::new());
    apply_configuration(&configuration, &mut blocker, &mut exclusions);
    let url = "http://ads.example.com/banner.js".to_string();
    let first = blocker.is_network_url_blocked(false, &url, &None);
    let first_excluded = exclusions.contains("secure.bank.example");
    apply_configuration(&configuration, &mut blocker, &mut exclusions);
    let second = blocker.is_network_url_blocked(false, &url, &None);
    let second_excluded = exclusions.contains("secure.bank.example");
    assert_eq!(first.0, second.0);
    assert_eq!(first.1.redirect, second.1.redirect);
    assert_eq!(first.1.filter, second.1.filter);
    assert_eq!(first_excluded, second_excluded);
    assert!(first.0);
    assert!(first_excluded);
}
