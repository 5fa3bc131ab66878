use lkjagent_app::config::{api_key_env, client_settings, endpoint_state, EnvRead};
use lkjagent_app::config_registry::parse_document;
use lkjagent_app::exchange_record::{
    error_files, request_json, response_json, timing_json, ExchangeRequest,
};
use lkjagent_app::history_context::history_ids;
use lkjagent_app::model_io::{call_max_tokens, CompletionRecord};
use lkjagent_app::record_identity::split_record;

#[test]
fn responses_are_logged_as_sorted_json() {
    let mut record = CompletionRecord::scripted("hello \"world\"".to_string());
    assert_eq!(
        response_json(&record),
        r#"{"anomaly":null,"cache_metrics":[],"closure_mode":"unknown","content":"hello \"world\"","finish_reason":"scripted","usage":{"cached_tokens":null,"completion_tokens":null,"prompt_tokens":null}}"#
    );
    record.prompt_tokens = Some(12);
    record.cached_tokens = Some(0);
    record.anomaly = Some("late:3s".to_string());
    record.cache_metrics = vec![("hit".to_string(), "1".to_string()), ("miss".to_string(), "2".to_string())];
    assert_eq!(
        response_json(&record),
        r#"{"anomaly":"late:3s","cache_metrics":[["hit","1"],["miss","2"]],"closure_mode":"unknown","content":"hello \"world\"","finish_reason":"scripted","usage":{"cached_tokens":0,"completion_tokens":null,"prompt_tokens":12}}"#
    );
}

#[test]
fn failed_exchanges_log_the_error() {
    let (response, outcome) = error_files("timed out");
    assert_eq!(response, r#"{"error":"timed out"}"#);
    assert_eq!(outcome, r#"{"diagnosis":"timed out","outcome":"endpoint_error"}"#);
    assert_eq!(timing_json(1250, Some(30)), r#"{"duration_ms":1250,"timeout_seconds":30}"#);
    assert_eq!(timing_json(7, None), r#"{"duration_ms":7,"timeout_seconds":null}"#);
}

#[test]
fn requests_are_logged_with_their_prompt() {
    let request = ExchangeRequest {
        context_frame_fingerprint: "c1".to_string(),
        decision_id: "d1".to_string(),
        fingerprint: "p1".to_string(),
        max_tokens: 512,
        stop: vec!["</final>".to_string()],
        system: "sys".to_string(),
        timeout_seconds: None,
        tool_view_fingerprint: "t1".to_string(),
        user: "line\nnext".to_string(),
    };
    assert_eq!(
        request_json(&request),
        r#"{"context_frame_fingerprint":"c1","decision_id":"d1","fingerprint":"p1","max_tokens":512,"stop":["</final>"],"system":"sys","timeout_seconds":null,"tool_view_fingerprint":"t1","user":"line\nnext"}"#
    );
    assert_eq!(call_max_tokens(4096), 4096);
    assert_eq!(call_max_tokens(70000), 65535);
}

#[test]
fn endpoint_settings_follow_environment_then_document() {
    let values = parse_document(
        r#"{"endpoint_url":"http://box:9000","endpoint_timeout_seconds":90,"endpoint_api_key_env":"MY_KEY"}"#,
    )
    .expect("document");
    let settings = client_settings(EnvRead::Absent, EnvRead::Absent, EnvRead::Absent, &values)
        .expect("settings");
    assert_eq!(settings.url, "http://box:9000");
    assert_eq!(settings.model, "local-model");
    assert_eq!(settings.timeout_seconds, 90);
    let overridden = client_settings(
        EnvRead::Value("http://other".to_string()),
        EnvRead::Value("m2".to_string()),
        EnvRead::Value("5".to_string()),
        &vec![],
    )
    .expect("settings");
    assert_eq!(overridden.url, "http://other");
    assert_eq!(overridden.model, "m2");
    assert_eq!(overridden.timeout_seconds, 5);
    let defaults = client_settings(EnvRead::Absent, EnvRead::Absent, EnvRead::Absent, &vec![]).expect("settings");
    assert_eq!(defaults.url, "http://127.0.0.1:8080");
    assert!(matches!(
        client_settings(EnvRead::Absent, EnvRead::Value(" ".to_string()), EnvRead::Absent, &vec![]),
        Err(ref e) if e == "LKJAGENT_MODEL must not be empty"
    ));
    assert!(client_settings(EnvRead::Absent, EnvRead::Absent, EnvRead::Value("0".to_string()), &vec![]).is_err());
    assert_eq!(api_key_env(Some(&values)), "MY_KEY");
    assert_eq!(api_key_env(None), "LKJAGENT_API_KEY");
    assert_eq!(endpoint_state("config", "absent", true), "url=config model=absent credential=env");
}

#[test]
fn long_records_split_into_linked_parts() {
    let short = split_record("notes/trip.md", "Trip", "short body", "---\nshort\n");
    assert!(short.is_none());
    let body = "word ".repeat(700);
    let original = format!("---\ntitle: Trip\n---\n{body}");
    let split = split_record("notes/trip.md", "Trip", &body, &original).expect("split");
    assert_eq!(split.parts.len(), 3);
    assert_eq!(split.parts[0].rel, "notes/trip.parts/part-001.md");
    assert!(split.parts[0].text.starts_with("# Trip Part 001\n\nSource record: [trip.md](../trip.md)\nPart: 1/3\n\n"));
    assert!(split.main_body.contains("- [part-003](trip.parts/part-003.md)"));
    assert!(split.main_body.starts_with("Size justification: original record was about 880 tokens, above target 512."));
    let one_part = "x".repeat(3000);
    assert!(split_record("a.md", "A", &one_part, &one_part).is_none());
    assert_eq!(
        history_ids("msg-4", "owner"),
        ("history-msg-4".to_string(), "conversation-msg-4".to_string(), "owner:msg-4".to_string())
    );
}
