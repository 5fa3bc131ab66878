use lkjagent_app::daemon_lock::{
    claim_decision, liveness, owner_fields, release_decision, stale, start_field, unix_seconds,
};
use lkjagent_app::lease_status::{
    cache_label, fmt_token, lease_line, lease_state, lease_state_at, token_text, TokenRow,
};

fn some(text: &str) -> Option<String> {
    Some(text.to_string())
}

#[test]
fn heartbeats_are_unix_seconds() {
    assert_eq!(unix_seconds("unix:1000.0"), Some(1000));
    assert_eq!(unix_seconds("unix:1000"), Some(1000));
    assert_eq!(unix_seconds("unix:.5"), None);
    assert_eq!(unix_seconds("1000.0"), None);
    assert_eq!(unix_seconds("unix:-1.0"), None);
}

#[test]
fn a_heartbeat_goes_stale_after_three_hundred_seconds() {
    assert!(!stale(&some("unix:1000.0"), "unix:1300.9", None));
    assert!(stale(&some("unix:1000.0"), "unix:1301.0", None));
    assert!(!stale(&some("unix:2000.0"), "unix:1000.0", None));
    assert!(stale(&None, "unix:1000.0", None));
    assert!(stale(&some("later"), "unix:1000.0", None));
    assert!(stale(&some("unix:1000.0"), "now", None));
    assert!(!stale(&None, "now", Some(true)));
    assert!(stale(&some("unix:1000.0"), "unix:1000.0", Some(false)));
}

#[test]
fn live_process_owner_does_not_expire() {
    let owner = "pid:42:start:777:thread:ThreadId(1)";
    assert!(claim_decision("foreign", &some(owner), &some("unix:1000.0"), "unix:2000.0", Some(true)).is_err());
}

#[test]
fn current_owner_can_release_lock() {
    let owner = "pid:42:start:777:thread:ThreadId(1)";
    assert_eq!(claim_decision(owner, &None, &None, "unix:1000.0", None), Ok(()));
    assert!(release_decision(owner, &some(owner)));
    assert_eq!(claim_decision("next", &None, &None, "unix:1001.0", None), Ok(()));
}

#[test]
fn live_foreign_owner_cannot_replace_lock() {
    assert_eq!(
        claim_decision("second", &some("first"), &some("unix:1000.0"), "unix:1001.0", None),
        Err("daemon lock held by first".into())
    );
    assert!(!release_decision("second", &some("first")));
    assert!(!release_decision("second", &None));
}

#[test]
fn holders_reclaim_and_gone_holders_yield() {
    assert_eq!(claim_decision("first", &some("first"), &some("unix:1000.0"), "unix:1001.0", Some(true)), Ok(()));
    assert_eq!(claim_decision("second", &some("first"), &some("unix:1000.0"), "unix:1400.0", None), Ok(()));
    assert_eq!(claim_decision("second", &some("first"), &some("unix:1000.0"), "unix:1001.0", Some(false)), Ok(()));
}

#[test]
fn owner_ids_name_a_process_and_its_start() {
    assert_eq!(owner_fields("pid:42:start:777:thread:ThreadId(1)"), Some((42, "777".into())));
    assert_eq!(owner_fields("pid:42:start:unknown"), Some((42, "unknown".into())));
    assert_eq!(owner_fields("first"), None);
    assert_eq!(owner_fields("pid:x:start:1"), None);
    assert_eq!(owner_fields("pid:1:begin:1"), None);
    assert_eq!(owner_fields("pid:4294967296:start:1"), None);
    assert_eq!(liveness("777", some("777")), Some(true));
    assert_eq!(liveness("777", some("778")), Some(false));
    assert_eq!(liveness("777", None), None);
}

#[test]
fn process_start_is_the_twentieth_field_after_the_name() {
    let stat = "4242 (my (odd) cmd) S 1 2 3 4 5 6 7 8 9 10 11 12 13 14 15 16 17 18 9999 20 21";
    assert_eq!(start_field(stat), Some("9999".into()));
    assert_eq!(start_field("4242 (cmd) S 1 2"), None);
    assert_eq!(start_field("no parenthesis here"), None);
}

#[test]
fn lease_lines_report_state_owner_and_heartbeat() {
    assert_eq!(lease_state_at("unix:1000.0", Some(1200)), "active");
    assert_eq!(lease_state_at("unix:1000.0", Some(1301)), "stale");
    assert_eq!(lease_state_at("unix:1000.0", None), "unknown");
    assert_eq!(lease_state_at("unknown", Some(5)), "unknown");
    assert_eq!(lease_state("unknown"), "unknown");
    assert_eq!(lease_state("unix:0.0"), "stale");
    assert_eq!(
        lease_line(&some("pid:1"), &some("unix:1000.0"), Some(1000)),
        "lease: active owner=pid:1 heartbeat=unix:1000.0"
    );
    assert_eq!(lease_line(&None, &None, Some(1000)), "lease: unknown owner=unknown heartbeat=unknown");
}

#[test]
fn token_lines_show_sums_and_the_cache_label() {
    assert_eq!(fmt_token(Some(-3)), "-3");
    assert_eq!(fmt_token(None), "unknown");
    assert_eq!(cache_label(1, 0, 1, 0), "provider_specific");
    assert_eq!(cache_label(1, 0, 0, 2), "not_supported");
    assert_eq!(cache_label(1, 1, 0, 0), "unknown");
    assert_eq!(cache_label(0, 0, 0, 0), "unknown");
    assert_eq!(cache_label(3, 0, 0, 0), "known");
    let row = TokenRow {
        total: Some(120),
        cached: Some(20),
        uncached: Some(100),
        output: None,
        known: 2,
        unknown: 0,
        provider: 0,
        unsupported: 0,
    };
    assert_eq!(token_text(0, &row), "unknown");
    assert_eq!(
        token_text(2, &row),
        "input_uncached=100 input_cached=20 input_total=120 output=unknown cache=known"
    );
}
