use privaxy::acceptor::ConnectionTracker;
use privaxy::events::Event;
use privaxy::events::RequestLog;
use privaxy::statistics::Statistics;

fn event(url: &str) -> Event {
    Event {
        timestamp_ms: 0,
        method: "GET".to_string(),
        url: url.to_string(),
        is_request_blocked: false,
    }
}

#[test]
fn counters_start_at_zero_and_step_by_one() {
    let mut stats = Statistics::new();
    stats.increment_proxied_requests();
    stats.increment_proxied_requests();
    stats.increment_blocked_requests();
    stats.increment_modified_responses();
    assert_eq!(stats.proxied_requests, 2);
    assert_eq!(stats.blocked_requests, 1);
    assert_eq!(stats.modified_responses, 1);
}

#[test]
fn top_counts_bump_the_first_matching_key() {
    let mut stats = Statistics::new();
    stats.increment_top_clients("10.0.0.1".to_string());
    stats.increment_top_clients("10.0.0.2".to_string());
    stats.increment_top_clients("10.0.0.1".to_string());
    assert_eq!(
        stats.top_clients.entries().as_slice(),
        &[("10.0.0.1".to_string(), 2), ("10.0.0.2".to_string(), 1)]
    );
}

#[test]
fn request_log_keeps_the_newest_first() {
    let mut log = RequestLog::new(2);
    log.push(event("http://a/"));
    log.push(event("http://b/"));
    assert_eq!(log.entries()[0].url, "http://b/");
    assert_eq!(log.entries()[1].url, "http://a/");
    log.push(event("http://c/"));
    assert_eq!(log.entries().len(), 2);
    assert_eq!(log.entries()[0].url, "http://c/");
    assert_eq!(log.entries()[1].url, "http://b/");
}

#[test]
fn a_zero_capacity_log_stays_empty() {
    let mut log = RequestLog::new(0);
    log.push(event("http://a/"));
    assert!(log.entries().is_empty());
}

#[test]
fn the_tracker_never_exceeds_its_cap() {
    let mut tracker = ConnectionTracker::new(2);
    assert!(tracker.try_acquire());
    assert!(tracker.try_acquire());
    assert!(!tracker.try_acquire());
    assert_eq!(tracker.active(), 2);
    tracker.release();
    assert!(tracker.try_acquire());
    assert!(!tracker.try_acquire());
    tracker.release();
    tracker.release();
    tracker.release();
    assert_eq!(tracker.active(), 0);
}
