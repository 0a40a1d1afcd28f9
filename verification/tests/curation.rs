//! Curation tests: the CRUD contract, identifier handling, and listing.

use brigatory::claims::Claims;
use brigatory::entry::Status;
use brigatory::gate::Gate;
use brigatory::ip_api;
use brigatory::limiter::RateLimitPolicy;
use brigatory::url_api;
use brigatory::GateError;

fn standard_gate() -> Gate {
    Gate::new(RateLimitPolicy::standard())
}

#[test]
fn crud_round_trip() {
    let mut g = standard_gate();
    let id = g.add_url_rule(url_api::InputData { url: String::from("/evil") }, 100);

    // add -> get returns the same value and the default status.
    let e = g.get_url_rule(&id).unwrap();
    assert_eq!(e.value, "/evil");
    assert_eq!(e.status, Status::Blocked);
    assert_eq!(e.created_at, 100);
    assert_eq!(e.updated_at, 100);

    // edit -> get reflects the new value and status, keeps the creation
    // time, and carries a strictly later update time.
    g.edit_url_rule(
        &id,
        url_api::UpdateInputData { url: String::from("/evil2"), status: Status::Disabled },
        150,
    )
    .unwrap();
    let e2 = g.get_url_rule(&id).unwrap();
    assert_eq!(e2.value, "/evil2");
    assert_eq!(e2.status, Status::Disabled);
    assert_eq!(e2.created_at, 100);
    assert_eq!(e2.updated_at, 150);
    assert!(e2.updated_at > e.updated_at);

    // delete -> get, edit and delete all report NotFound.
    g.delete_url_rule(&id).unwrap();
    assert_eq!(g.get_url_rule(&id).unwrap_err(), GateError::NotFound);
    assert_eq!(
        g.edit_url_rule(
            &id,
            url_api::UpdateInputData { url: String::from("/x"), status: Status::Blocked },
            200,
        )
        .unwrap_err(),
        GateError::NotFound
    );
    assert_eq!(g.delete_url_rule(&id).unwrap_err(), GateError::NotFound);
}

#[test]
fn identifiers_are_sequential_decimal_strings() {
    let mut g = standard_gate();
    let a = g.add_ip_rule(ip_api::InputData { ip_address: String::from("1.1.1.1") }, 1);
    let b = g.add_ip_rule(ip_api::InputData { ip_address: String::from("2.2.2.2") }, 1);
    assert_eq!(a, "0");
    assert_eq!(b, "1");
    assert_eq!(g.get_ip_rule("1").unwrap().value, "2.2.2.2");
}

#[test]
fn malformed_identifier_is_invalid_not_not_found() {
    let mut g = standard_gate();
    assert_eq!(g.get_ip_rule("abc").unwrap_err(), GateError::InvalidIdentifier);
    assert_eq!(g.get_ip_rule("").unwrap_err(), GateError::InvalidIdentifier);
    assert_eq!(g.get_ip_rule("12a").unwrap_err(), GateError::InvalidIdentifier);
    assert_eq!(g.get_ip_rule("-1").unwrap_err(), GateError::InvalidIdentifier);
    assert_eq!(
        g.delete_url_rule("deadbeef?").unwrap_err(),
        GateError::InvalidIdentifier
    );
    assert_eq!(
        g.edit_ip_rule(
            "x",
            ip_api::UpdateInputData {
                ip_address: String::from("3.3.3.3"),
                status: Status::Blocked,
            },
            5,
        )
        .unwrap_err(),
        GateError::InvalidIdentifier
    );
    // Well-formed but unknown identifiers are NotFound instead.
    assert_eq!(g.get_ip_rule("999").unwrap_err(), GateError::NotFound);
    assert_eq!(g.delete_ip_rule("999").unwrap_err(), GateError::NotFound);
}

#[test]
fn identifier_bounds() {
    let mut g = standard_gate();
    // The largest identifier the space can hold parses; one past it does not.
    assert_eq!(
        g.get_ip_rule("18446744073709551615").unwrap_err(),
        GateError::NotFound
    );
    assert_eq!(
        g.get_ip_rule("18446744073709551616").unwrap_err(),
        GateError::InvalidIdentifier
    );
    // Leading zeros are accepted digits.
    g.add_ip_rule(ip_api::InputData { ip_address: String::from("4.4.4.4") }, 1);
    assert_eq!(g.get_ip_rule("000").unwrap().value, "4.4.4.4");
}

#[test]
fn listing_is_blocked_only_newest_first() {
    let mut g = standard_gate();
    let _a = g.add_url_rule(url_api::InputData { url: String::from("/old") }, 10);
    let b = g.add_url_rule(url_api::InputData { url: String::from("/newest") }, 30);
    let _c = g.add_url_rule(url_api::InputData { url: String::from("/middle") }, 20);
    // Disable one: it must not be listed.
    g.edit_url_rule(
        &b,
        url_api::UpdateInputData { url: String::from("/newest"), status: Status::Disabled },
        40,
    )
    .unwrap();
    let listed = g.list_url_rules();
    let values: Vec<&str> = listed.iter().map(|e| e.value.as_str()).collect();
    assert_eq!(values, vec!["/middle", "/old"]);
    for w in listed.windows(2) {
        assert!(w[0].created_at >= w[1].created_at);
    }
}

#[test]
fn ip_listing_mirrors_url_listing() {
    let mut g = standard_gate();
    g.add_ip_rule(ip_api::InputData { ip_address: String::from("7.7.7.7") }, 5);
    g.add_ip_rule(ip_api::InputData { ip_address: String::from("8.8.8.8") }, 9);
    let listed = g.list_ip_rules();
    let values: Vec<&str> = listed.iter().map(|e| e.value.as_str()).collect();
    assert_eq!(values, vec!["8.8.8.8", "7.7.7.7"]);
}

#[test]
fn ip_and_url_collections_are_independent() {
    let mut g = standard_gate();
    let ip_id = g.add_ip_rule(ip_api::InputData { ip_address: String::from("5.5.5.5") }, 1);
    let url_id = g.add_url_rule(url_api::InputData { url: String::from("/blocked") }, 1);
    // Both collections start their identifiers at zero, independently.
    assert_eq!(ip_id, "0");
    assert_eq!(url_id, "0");
    assert_eq!(g.get_ip_rule("0").unwrap().value, "5.5.5.5");
    assert_eq!(g.get_url_rule("0").unwrap().value, "/blocked");
    g.delete_ip_rule(&ip_id).unwrap();
    assert_eq!(g.get_url_rule("0").unwrap().value, "/blocked");
}

#[test]
fn duplicate_values_are_tolerated() {
    let mut g = standard_gate();
    let a = g.add_ip_rule(ip_api::InputData { ip_address: String::from("6.6.6.6") }, 1);
    let b = g.add_ip_rule(ip_api::InputData { ip_address: String::from("6.6.6.6") }, 2);
    assert_ne!(a, b);
    assert!(g.is_ip_blocked(&String::from("6.6.6.6")));
    // Disabling one duplicate leaves the other in force.
    g.edit_ip_rule(
        &a,
        ip_api::UpdateInputData { ip_address: String::from("6.6.6.6"), status: Status::Disabled },
        3,
    )
    .unwrap();
    assert!(g.is_ip_blocked(&String::from("6.6.6.6")));
}

#[test]
fn error_outcomes_map_to_response_codes() {
    assert_eq!(GateError::NotFound.http_status(), 404);
    assert_eq!(GateError::InvalidIdentifier.http_status(), 400);
    assert_eq!(GateError::StoreUnavailable.http_status(), 500);
    assert_eq!(GateError::RateLimitExceeded.http_status(), 429);
}

#[test]
fn claims_expire_one_day_after_issue() {
    let c = Claims::new(String::from("admin@example.com"), 1_000_000);
    assert_eq!(c.sub, "admin@example.com");
    assert_eq!(c.exp, 1_000_000 + 86_400);
}
