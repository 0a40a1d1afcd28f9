//! Decision-path tests: rate limiting, blacklist matching, and the combined
//! gate decision.

use brigatory::entry::Status;
use brigatory::gate::{Decision, Gate};
use brigatory::ip_api;
use brigatory::limiter::{RateLimitCheck, RateLimitPolicy};
use brigatory::url_api;

fn standard_gate() -> Gate {
    Gate::new(RateLimitPolicy::standard())
}

#[test]
fn rate_window_sequence() {
    // Two requests inside the one-second window are admitted, the third is
    // rejected, and a request after the window elapses is admitted again.
    let mut g = standard_gate();
    let ip = String::from("10.0.0.1");
    let url = String::from("/home");
    assert_eq!(g.decide(&ip, &url, 100), Decision::Admit);
    assert_eq!(g.decide(&ip, &url, 100), Decision::Admit);
    assert_eq!(g.decide(&ip, &url, 100), Decision::RejectRateLimited);
    assert_eq!(g.decide(&ip, &url, 101), Decision::Admit);
}

#[test]
fn rate_burst_admits_exactly_two() {
    // Five simultaneous requests for one previously idle key: exactly two
    // admissions, three rejections.
    let mut g = standard_gate();
    let ip = String::from("10.0.0.2");
    let url = String::from("/home");
    let mut admitted = 0;
    let mut rejected = 0;
    for _ in 0..5 {
        match g.decide(&ip, &url, 50) {
            Decision::Admit => admitted += 1,
            Decision::RejectRateLimited => rejected += 1,
            other => panic!("unexpected decision: {:?}", other),
        }
    }
    assert_eq!(admitted, 2);
    assert_eq!(rejected, 3);
}

#[test]
fn unknown_ip_first_request_admits_under_load() {
    // A previously unseen key is admitted regardless of how loaded other
    // keys are.
    let mut g = standard_gate();
    let busy = String::from("10.0.0.3");
    let url = String::from("/home");
    for _ in 0..10 {
        g.decide(&busy, &url, 7);
    }
    let fresh = String::from("10.0.0.4");
    assert_eq!(g.decide(&fresh, &url, 7), Decision::Admit);
}

#[test]
fn check_rate_endpoint_record() {
    let mut g = standard_gate();
    let req = RateLimitCheck { ip_address: String::from("172.16.0.9") };
    assert!(g.check_rate(&req, 3));
    assert!(g.check_rate(&req, 3));
    assert!(!g.check_rate(&req, 3));
    assert!(g.check_rate(&req, 4));
}

#[test]
fn rate_rejection_does_not_consume_the_window() {
    // A rejected request leaves the counter untouched: the window still
    // ends one second after it was opened, not after the rejection.
    let mut g = standard_gate();
    let req = RateLimitCheck { ip_address: String::from("172.16.0.10") };
    assert!(g.check_rate(&req, 10));
    assert!(g.check_rate(&req, 10));
    assert!(!g.check_rate(&req, 10));
    assert!(!g.check_rate(&req, 10));
    assert!(g.check_rate(&req, 11));
}

#[test]
fn ip_block_exact_match_only() {
    let mut g = standard_gate();
    g.add_ip_rule(ip_api::InputData { ip_address: String::from("203.0.113.7") }, 1);
    assert!(g.is_ip_blocked(&String::from("203.0.113.7")));
    assert!(!g.is_ip_blocked(&String::from("203.0.113.8")));
    // IP matching is exact, never a prefix match.
    assert!(!g.is_ip_blocked(&String::from("203.0.113.70")));
}

#[test]
fn ip_block_lifecycle_disable_reenable() {
    let mut g = standard_gate();
    let ip = String::from("198.51.100.1");
    let id = g.add_ip_rule(ip_api::InputData { ip_address: ip.clone() }, 1);
    assert!(g.is_ip_blocked(&ip));
    // Disabling by edit unblocks without deleting.
    g.edit_ip_rule(
        &id,
        ip_api::UpdateInputData { ip_address: ip.clone(), status: Status::Disabled },
        2,
    )
    .unwrap();
    assert!(!g.is_ip_blocked(&ip));
    assert!(g.get_ip_rule(&id).is_ok());
    // Re-enabling blocks again.
    g.edit_ip_rule(
        &id,
        ip_api::UpdateInputData { ip_address: ip.clone(), status: Status::Blocked },
        3,
    )
    .unwrap();
    assert!(g.is_ip_blocked(&ip));
}

#[test]
fn blocked_ip_rejects_before_anything_else() {
    let mut g = standard_gate();
    let ip = String::from("192.0.2.44");
    g.add_ip_rule(ip_api::InputData { ip_address: ip.clone() }, 1);
    let url = String::from("/home");
    assert_eq!(g.decide(&ip, &url, 2), Decision::RejectIpBlocked);
}

#[test]
fn url_prefix_matching_case_insensitive() {
    let mut g = standard_gate();
    g.add_url_rule(url_api::InputData { url: String::from("/admin") }, 1);
    assert!(g.is_url_blocked(&String::from("/admin")));
    assert!(g.is_url_blocked(&String::from("/admin/x")));
    assert!(g.is_url_blocked(&String::from("/ADMIN/y")));
    assert!(g.is_url_blocked(&String::from("/Admin/users")));
    // Literal prefix, not segment-aware: a longer word still matches.
    assert!(g.is_url_blocked(&String::from("/administrator")));
    assert!(!g.is_url_blocked(&String::from("/public")));
}

#[test]
fn uppercase_rule_blocks_lowercase_url() {
    // The stored value is lowercased too before comparing.
    let mut g = standard_gate();
    g.add_url_rule(url_api::InputData { url: String::from("/SECRET") }, 1);
    assert!(g.is_url_blocked(&String::from("/secret/file")));
}

#[test]
fn root_rule_blocks_only_root() {
    let mut g = standard_gate();
    g.add_url_rule(url_api::InputData { url: String::from("/") }, 1);
    assert!(g.is_url_blocked(&String::from("/")));
    assert!(!g.is_url_blocked(&String::from("/home")));
    assert!(!g.is_url_blocked(&String::from("/admin")));
}

#[test]
fn non_root_rule_never_matches_root() {
    let mut g = standard_gate();
    g.add_url_rule(url_api::InputData { url: String::from("/admin") }, 1);
    assert!(!g.is_url_blocked(&String::from("/")));
}

#[test]
fn query_string_breaks_the_prefix() {
    let mut g = standard_gate();
    g.add_url_rule(url_api::InputData { url: String::from("/login") }, 1);
    assert!(g.is_url_blocked(&String::from("/login")));
    assert!(g.is_url_blocked(&String::from("/login/extra")));
    assert!(!g.is_url_blocked(&String::from("/login?x=1")));
    // A rule whose value itself reaches into the query does match it.
    let mut g2 = standard_gate();
    g2.add_url_rule(url_api::InputData { url: String::from("/login?x") }, 1);
    assert!(g2.is_url_blocked(&String::from("/login?x=1")));
}

#[test]
fn disabled_url_rule_is_inert() {
    let mut g = standard_gate();
    let id = g.add_url_rule(url_api::InputData { url: String::from("/admin") }, 1);
    g.edit_url_rule(
        &id,
        url_api::UpdateInputData { url: String::from("/admin"), status: Status::Disabled },
        2,
    )
    .unwrap();
    assert!(!g.is_url_blocked(&String::from("/admin/x")));
}

#[test]
fn blocked_url_rejects_with_url_outcome() {
    let mut g = standard_gate();
    g.add_url_rule(url_api::InputData { url: String::from("/admin") }, 1);
    let ip = String::from("10.1.1.1");
    assert_eq!(g.decide(&ip, &String::from("/admin/panel"), 2), Decision::RejectUrlBlocked);
    assert_eq!(g.decide(&ip, &String::from("/home"), 2), Decision::Admit);
}

#[test]
fn decision_outcomes_are_distinct() {
    assert_ne!(Decision::Admit, Decision::RejectIpBlocked);
    assert_ne!(Decision::RejectUrlBlocked, Decision::RejectRateLimited);
    assert_ne!(Decision::Admit, Decision::StoreError);
}
