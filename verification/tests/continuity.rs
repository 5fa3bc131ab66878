use lkjagent_app::continuity::{allowed, relevant, select_managed_path};

#[test]
fn effectful_objectives_cannot_reuse_unrelated_checks() {
    assert!(!allowed(
        b"Remember this owner fact as Transit Card Location"
    ));
    assert!(!allowed(b"Write today's grounded journal"));
    assert!(allowed(
        b"Re-read the checked file, make no changes, and report it"
    ));
    assert!(relevant(
        "knowledge/notes/transit-card-location.md",
        "use saved transit-card-location memory"
    ));
    assert!(!relevant(
        "life/journal/2026/07/13/entry.md",
        "use saved transit-card-location memory"
    ));
}

#[test]
fn objectives_without_effect_words_may_reuse_checks() {
    assert!(allowed(b"Summarize the notes"));
    assert!(!allowed(b"please UPDATE the plan"));
    assert!(allowed(b"\xff\xfe read only"));
}

#[test]
fn managed_path_prefers_the_named_document() {
    let paths = vec![
        "a/first.md".to_string(),
        "knowledge/notes/transit-card-location.md".to_string(),
    ];
    assert_eq!(
        select_managed_path(&paths, b"Use saved TRANSIT-CARD-LOCATION memory"),
        Some("knowledge/notes/transit-card-location.md".to_string())
    );
    assert_eq!(
        select_managed_path(&paths, b"something else"),
        Some("a/first.md".to_string())
    );
    assert_eq!(select_managed_path(&Vec::new(), b"x"), None);
}
