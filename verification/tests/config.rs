use lkjagent_app::config::{
    env_integer, env_text, prompt_max_context_tokens, source, validate_document, workspace_root, workspace_root_of, root_path, EnvRead,
};
use lkjagent_app::config_registry::{number, parse_document, rule_for, text, validate, JsonScalar, Rule};

fn entries(items: Vec<(&str, JsonScalar)>) -> Vec<(String, JsonScalar)> {
    items.into_iter().map(|(key, value)| (key.to_string(), value)).collect()
}

#[test]
fn documents_are_flat_objects_of_known_keys() {
    assert_eq!(validate_document("{}"), Ok(()));
    assert_eq!(
        validate_document(r#"{"endpoint_url":"http://x","endpoint_timeout_seconds":30}"#),
        Ok(())
    );
    assert_eq!(
        validate_document("[1]"),
        Err("lkjagent.json must be a flat JSON object".into())
    );
    assert_eq!(
        validate_document(r#"{"colour":"blue"}"#),
        Err("lkjagent.json contains unknown key 'colour'".into())
    );
    assert_eq!(
        validate_document(r#"{"endpoint_url":{"a":1}}"#),
        Err("lkjagent.json key 'endpoint_url' must not be nested".into())
    );
    assert_eq!(
        validate_document(r#"{"endpoint_url":[1]}"#),
        Err("lkjagent.json key 'endpoint_url' must be scalar".into())
    );
    assert_eq!(
        validate_document(r#"{"endpoint_url":"  "}"#),
        Err("lkjagent.json key 'endpoint_url' has invalid type or value".into())
    );
    assert_eq!(
        validate_document(r#"{"endpoint_timeout_seconds":1801}"#),
        Err("lkjagent.json key 'endpoint_timeout_seconds' has invalid type or value".into())
    );
    assert_eq!(
        validate_document(r#"{"endpoint_timeout_seconds":-1}"#),
        Err("lkjagent.json key 'endpoint_timeout_seconds' has invalid type or value".into())
    );
    assert_eq!(
        validate_document(r#"{"workspace_root":"a\tb"}"#),
        Err("workspace root must not contain control characters".into())
    );
    let broken = validate_document("{not json");
    assert!(broken.is_err());
    assert!(!broken.unwrap_err().is_empty());
}

#[test]
fn members_are_checked_in_key_order() {
    assert_eq!(
        validate_document(r#"{"zeta":1,"alpha":2}"#),
        Err("lkjagent.json contains unknown key 'alpha'".into())
    );
}

#[test]
fn parsed_documents_keep_their_members() {
    let values = parse_document(r#"{"prompt_context_tokens":4096,"endpoint_model":"m"}"#).expect("valid");
    assert_eq!(values.len(), 2);
    assert_eq!(number(&values, "prompt_context_tokens"), 4096);
    assert_eq!(number(&values, "endpoint_timeout_seconds"), 300);
    assert_eq!(number(&values, "live_campaign_seconds"), 900);
    assert_eq!(number(&values, "endpoint_model"), 0);
    assert_eq!(text(&values, "endpoint_model"), Some("m".into()));
    assert_eq!(text(&values, "prompt_context_tokens"), None);
    assert_eq!(text(&values, "endpoint_url"), None);
}

#[test]
fn rules_name_the_bounds_of_each_key() {
    assert!(matches!(rule_for("endpoint_url"), Some(Rule::Text)));
    assert!(matches!(
        rule_for("prompt_context_tokens"),
        Some(Rule::Integer { min: 2048, max: 262144, default: 16384 })
    ));
    assert!(matches!(
        rule_for("live_campaign_seconds"),
        Some(Rule::Integer { min: 840, max: 7200, default: 900 })
    ));
    assert!(rule_for("colour").is_none());
    assert_eq!(
        validate(&entries(vec![("live_campaign_seconds", JsonScalar::Number(Some(839)))])),
        Err("lkjagent.json key 'live_campaign_seconds' has invalid type or value".into())
    );
    assert_eq!(validate(&entries(vec![("endpoint_model", JsonScalar::Text("m".into()))])), Ok(()));
    assert_eq!(
        validate(&entries(vec![("endpoint_model", JsonScalar::Bool(true))])),
        Err("lkjagent.json key 'endpoint_model' has invalid type or value".into())
    );
}

#[test]
fn environment_overrides_must_not_be_blank() {
    assert_eq!(env_text("X", EnvRead::Absent), Ok(None));
    assert_eq!(env_text("X", EnvRead::Value("v".into())), Ok(Some("v".into())));
    assert_eq!(env_text("X", EnvRead::Value(" \t".into())), Err("X must not be empty".into()));
    assert_eq!(
        env_text("X", EnvRead::NotUnicode("environment variable was not valid unicode".into())),
        Err("environment variable was not valid unicode".into())
    );
}

#[test]
fn integer_overrides_lie_within_their_bounds() {
    assert_eq!(env_integer("T", EnvRead::Value("30".into()), 1, 1800), Ok(Some(30)));
    assert_eq!(env_integer("T", EnvRead::Absent, 1, 1800), Ok(None));
    assert_eq!(env_integer("T", EnvRead::Value("0".into()), 1, 1800), Err("T is outside 1..1800".into()));
    assert_eq!(env_integer("T", EnvRead::Value("x".into()), 1, 1800), Err("T must be an integer".into()));
    assert_eq!(env_integer("T", EnvRead::Value(" 5".into()), 1, 1800), Err("T must be an integer".into()));
}

#[test]
fn prompt_cap_prefers_the_environment_then_the_document() {
    let values = entries(vec![("prompt_context_tokens", JsonScalar::Number(Some(4096)))]);
    assert_eq!(prompt_max_context_tokens(EnvRead::Value("8192".into()), &values), Ok(Some(8192)));
    assert_eq!(prompt_max_context_tokens(EnvRead::Absent, &values), Ok(Some(4096)));
    assert_eq!(prompt_max_context_tokens(EnvRead::Absent, &entries(vec![])), Ok(Some(16384)));
    assert_eq!(
        prompt_max_context_tokens(EnvRead::Value("100".into()), &values),
        Err("LKJAGENT_PROMPT_CONTEXT_TOKENS is outside 2048..262144".into())
    );
}

#[test]
fn setting_sources() {
    let values = entries(vec![
        ("endpoint_url", JsonScalar::Text("http://x".into())),
        ("endpoint_model", JsonScalar::Text(" ".into())),
    ]);
    assert_eq!(source(true, Some(&values), "endpoint_url"), "env");
    assert_eq!(source(false, Some(&values), "endpoint_url"), "config");
    assert_eq!(source(false, Some(&values), "endpoint_model"), "absent");
    assert_eq!(source(false, None, "endpoint_url"), "absent");
}

#[test]
fn workspace_root_prefers_the_environment_then_the_document() {
    let values = entries(vec![("workspace_root", JsonScalar::Text("/srv/ws".into()))]);
    assert_eq!(workspace_root(EnvRead::Value("/tmp/w".into()), &values), Ok(Some("/tmp/w".into())));
    assert_eq!(workspace_root(EnvRead::Absent, &values), Ok(Some("/srv/ws".into())));
    assert_eq!(workspace_root(EnvRead::Absent, &entries(vec![])), Ok(None));
    assert_eq!(
        workspace_root(EnvRead::Value("".into()), &values),
        Err("LKJAGENT_WORKSPACE_ROOT must not be empty".into())
    );
}

#[test]
fn the_workspace_root_checks_the_document_first_and_lies_under_the_data_directory() {
    assert_eq!(workspace_root_of("/data", EnvRead::Absent, None), Ok("/data/workspace".to_string()));
    assert_eq!(
        workspace_root_of("/data", EnvRead::Absent, Some(r#"{"workspace_root":"ws"}"#)),
        Ok("/data/ws".to_string())
    );
    assert_eq!(
        workspace_root_of("/data/", EnvRead::Value("/abs/root".into()), Some(r#"{"workspace_root":"ws"}"#)),
        Ok("/abs/root".to_string())
    );
    assert!(workspace_root_of("/data", EnvRead::Value("/abs".into()), Some("[1]")).is_err());
    assert_eq!(
        workspace_root_of("/data", EnvRead::Value("  ".into()), None),
        Err("LKJAGENT_WORKSPACE_ROOT must not be empty".to_string())
    );
    assert_eq!(root_path("", "ws"), "ws");
    assert_eq!(root_path("d/", "ws"), "d/ws");
}
