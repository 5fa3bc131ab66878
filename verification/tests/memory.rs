use lkjagent_app::memory_checks::note_structure;
use lkjagent_app::memory_context::{
    byte_cut, correction_keys, parse, prohibited, select_memory, MemoryCandidate,
};
use lkjagent_app::memory_record::{render, semantic_slug};

fn strings(items: &[&str]) -> Vec<String> {
    items.iter().map(|item| item.to_string()).collect()
}

#[test]
fn slugs_are_lowercase_words_joined_by_dashes() {
    assert_eq!(semantic_slug("Transit Card Location"), Some("transit-card-location".into()));
    assert_eq!(semantic_slug("  --Owner's  Bike!! 2026 "), Some("owner-s-bike-2026".into()));
    assert_eq!(semantic_slug("¿Qué?"), Some("qu".into()));
    assert_eq!(semantic_slug("!!! ..."), None);
    assert_eq!(semantic_slug(""), None);
}

#[test]
fn slugs_stop_at_eighty_characters_without_a_trailing_dash() {
    let long = "a".repeat(79) + " b";
    assert_eq!(semantic_slug(&long), Some("a".repeat(79)));
    let longer = "a".repeat(100);
    assert_eq!(semantic_slug(&longer), Some("a".repeat(80)));
}

#[test]
fn notes_render_front_matter_title_and_trimmed_body() {
    let text = render(
        "transit-card-location",
        &strings(&["owner:abc", "owner:def"]),
        "Transit Card Location",
        "  In the blue drawer. \n",
    );
    assert_eq!(
        text,
        "---\nkind: memory\nsemantic-key: transit-card-location\nslug: transit-card-location\nsource-fingerprints:\n- owner:abc\n- owner:def\n---\n# Transit Card Location\n\nIn the blue drawer.\n"
    );
}

#[test]
fn a_rendered_note_reads_back_as_its_key_and_body() {
    let text = render("bike-lock", &strings(&["owner:1"]), "Bike Lock", "Code is in the wallet.");
    assert_eq!(
        parse("knowledge/notes/bike-lock.md", text.as_bytes()),
        Some(("bike-lock".into(), "# Bike Lock\n\nCode is in the wallet.\n".into()))
    );
    let bare = render("bike-lock", &strings(&[]), "Bike Lock", "x");
    assert_eq!(
        parse("knowledge/notes/bike-lock.md", bare.as_bytes()),
        Some(("bike-lock".into(), "# Bike Lock\n\nx\n".into()))
    );
}

#[test]
fn notes_outside_the_notes_directory_or_with_other_keys_are_refused() {
    let text = render("bike-lock", &strings(&["owner:1"]), "Bike Lock", "Code.");
    assert_eq!(parse("knowledge/bike-lock.md", text.as_bytes()), None);
    assert_eq!(parse("knowledge/notes/bike-lock.txt", text.as_bytes()), None);
    assert_eq!(parse("knowledge/notes/other-key.md", text.as_bytes()), None);
    assert_eq!(parse("knowledge/notes/Bike-Lock.md", text.as_bytes()), None);
    assert_eq!(parse("knowledge/notes/bike-lock.md", &[0xff, 0xfe]), None);
    assert_eq!(parse("knowledge/notes/bike-lock.md", b"---\nkind: memory\n"), None);
}

#[test]
fn notes_with_credentials_are_never_offered() {
    let text = render("api", &strings(&["owner:1"]), "API", "Token: abc");
    assert_eq!(parse("knowledge/notes/api.md", text.as_bytes()), None);
    assert!(prohibited("my PASSWORD=x"));
    assert!(prohibited("Authorization: Bearer abc"));
    assert!(prohibited("model-output-rejected"));
    assert!(!prohibited("the password is elsewhere"));
}

#[test]
fn corrections_name_each_key_once_in_sorted_order() {
    let objective = "Forget bike-lock: moved\n  correct Transit-Card: new place\nforget bike-lock: again\nforget bad key: x\nremember nothing";
    assert_eq!(correction_keys(objective), strings(&["bike-lock", "transit-card"]));
    assert_eq!(correction_keys("forget -x-: y\ncorrect a--b: z"), strings(&[]));
    assert_eq!(correction_keys("correct k1:\r\n"), strings(&["k1"]));
    assert_eq!(
        correction_keys("forget zeta: x\ncorrect alpha: y\nforget mid: z\nforget alpha: again"),
        strings(&["alpha", "mid", "zeta"])
    );
    assert_eq!(correction_keys("forget ab: x\nforget a: y"), strings(&["a", "ab"]));
}

#[test]
fn rendered_notes_pass_the_structure_check() {
    let text = render("bike-lock", &strings(&["owner:1", "owner:2"]), "Bike Lock", "Code is\nin the wallet.");
    let params = r#"{"slug":"bike-lock","source_fingerprints":["owner:1","owner:2"],"kind":"memory"}"#;
    assert!(note_structure(params, &text));
    assert!(!note_structure(r#"{"slug":"bike-lock","source_fingerprints":["owner:1"]}"#, &text));
    assert!(!note_structure(r#"{"slug":"other","source_fingerprints":["owner:1","owner:2"]}"#, &text));
    assert!(!note_structure(r#"{"source_fingerprints":["owner:1","owner:2"]}"#, &text));
    assert!(!note_structure("not json", &text));
    let blank_title = render("bike-lock", &strings(&["owner:1", "owner:2"]), " ", "Code.");
    assert!(!note_structure(params, &blank_title));
    let short = render("bike-lock", &strings(&[]), "Bike Lock", "Code.");
    assert!(!note_structure(r#"{"slug":"bike-lock","source_fingerprints":[]}"#, &short));
    let mixed = r#"{"slug":"bike-lock","source_fingerprints":["owner:1",7,"owner:2"]}"#;
    assert!(note_structure(mixed, &text));
}

fn candidate(slug: &str, revision: &str, body: &str, units: u64) -> MemoryCandidate {
    let text = render(slug, &strings(&["owner:1"]), "Title", body);
    MemoryCandidate {
        path: format!("knowledge/notes/{slug}.md"),
        revision: revision.to_string(),
        content: text.into_bytes(),
        units,
    }
}

#[test]
fn memory_selection_skips_corrected_and_repeated_notes_and_stops_at_a_limit() {
    let mut broken = candidate("bad", "r2", "x", 1);
    broken.content = b"not a note".to_vec();
    let rows = vec![
        candidate("a", "r1", "alpha", 10),
        broken,
        candidate("b", "r3", "beta", 10),
        candidate("a", "r1", "alpha", 10),
        candidate("c", "r4", "gamma", 600),
        candidate("d", "r5", "delta", 1),
    ];
    let picked = select_memory(&rows, &strings(&["b"]));
    assert_eq!(picked.len(), 1);
    assert_eq!(picked[0].id, "memory-r1");
    assert_eq!(picked[0].semantic_key, "a");
    assert!(picked[0].body.contains("alpha"));
    assert_eq!(picked[0].source_id, "knowledge/notes/a.md");
    assert_eq!(picked[0].source_fingerprint, "r1");
    let many: Vec<MemoryCandidate> = (0..6).map(|i| candidate("x", &format!("r{i}"), "body", 1)).collect();
    assert_eq!(select_memory(&many, &vec![]).len(), 4);
    let big = "y".repeat(1500);
    let heavy = vec![
        candidate("y", "r1", &big, 1),
        candidate("y", "r2", &big, 1),
        candidate("y", "r3", &big, 1),
        candidate("z", "r4", "small", 1),
    ];
    let cut = select_memory(&heavy, &vec![]);
    assert_eq!(cut.len(), 2);
    assert!(cut.iter().all(|item| item.body.len() <= 1024));
    assert_eq!(cut[0].body.len(), 1024);
}

#[test]
fn note_bodies_are_cut_to_whole_characters_within_the_byte_limit() {
    assert_eq!(byte_cut("abcdef", 4), "abcd");
    assert_eq!(byte_cut("abc", 4), "abc");
    assert_eq!(byte_cut("ééé", 5), "éé");
    assert_eq!(byte_cut("ééé", 1), "");
    assert_eq!(byte_cut("", 0), "");
    let long = "z".repeat(2000);
    assert_eq!(byte_cut(&long, 1024).len(), 1024);
}

#[test]
fn a_slug_is_its_own_slug() {
    for title in ["Transit Card Location", "  --Owner's  Bike!! 2026 ", "¿Qué?", &"ab ".repeat(40)] {
        let slug = semantic_slug(title).unwrap();
        assert_eq!(semantic_slug(&slug), Some(slug.clone()));
    }
}

#[test]
fn notes_with_carriage_returns_inside_their_lines_pass_the_structure_check() {
    let text = render("bike\rlock", &strings(&["owner:\r1"]), "Bike\rLock", "Code.");
    let params = r#"{"slug":"bike\rlock","source_fingerprints":["owner:\r1"]}"#;
    assert!(note_structure(params, &text));
    let closing = render("bike-lock", &strings(&["owner:1"]), "Bike Lock\r", "Code.");
    assert!(note_structure(r#"{"slug":"bike-lock","source_fingerprints":["owner:1"]}"#, &closing));
}
