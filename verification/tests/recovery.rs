use lkjagent_app::endpoint_recovery::{changed_waits, credential_token};
use sha2::Digest;

fn rows(items: &[(&str, &str)]) -> Vec<(String, String)> {
    items.iter().map(|(a, b)| (a.to_string(), b.to_string())).collect()
}

#[test]
fn credentials_are_represented_by_a_tagged_digest() {
    assert_eq!(credential_token(None), "absent");
    let digest = sha2::Sha256::digest(b"lkjagent:endpoint-credential:v1\0secret-value");
    let hex: String = digest.iter().map(|byte| format!("{byte:02x}")).collect();
    assert_eq!(credential_token(Some("secret-value")), format!("sha256:{hex}"));
    assert_ne!(credential_token(Some("a")), credential_token(Some("b")));
}

#[test]
fn waits_under_another_configuration_are_released() {
    let current = "fp-2";
    let waits = rows(&[
        ("recovery:a", r#"{"endpoint_condition_fingerprint":"fp-1","next_strategy":"wait-external"}"#),
        ("recovery:b", r#"{"endpoint_condition_fingerprint":"fp-2"}"#),
        ("recovery:c", r#"{"next_strategy":"wait-external"}"#),
        ("recovery:d", r#"{"endpoint_condition_fingerprint":2}"#),
        ("recovery:e", "[1,2]"),
    ]);
    assert_eq!(
        changed_waits(current, &waits),
        Ok(vec!["recovery:a".to_string(), "recovery:c".to_string(), "recovery:d".to_string(), "recovery:e".to_string()])
    );
    assert_eq!(changed_waits(current, &rows(&[])), Ok(vec![]));
}

#[test]
fn a_payload_that_is_not_json_is_an_error() {
    let waits = rows(&[("recovery:a", r#"{"endpoint_condition_fingerprint":"fp-1"}"#), ("recovery:b", "{oops")]);
    let result = changed_waits("fp-2", &waits);
    assert!(result.is_err());
    assert!(!result.unwrap_err().is_empty());
}
