use lkjagent_app::digest::{hex, id, sha256};
use lkjagent_app::journal_apply::{
    collision_message, effect_targets, exact_old, prepare_route, settled_line, stale_message,
    ExactRefusal, ManagedRow, PrepareRoute,
};
use lkjagent_app::journal_dispatch::{canonical_path, lineage_value, render};
use lkjagent_app::record_identity::{
    body_chunks, byte_count, estimated_tokens, file_name, link_prefix, main_body, normalized_kind,
    part, part_dir,
};

fn strings(items: &[&str]) -> Vec<String> {
    items.iter().map(|item| item.to_string()).collect()
}

#[test]
fn digests_are_sha256_in_lowercase_hex() {
    assert_eq!(
        hex(&sha256(b"abc")),
        "ba7816bf8f01cfea414140de5dae2223b00361a396177a9cb410ff61f20015ad"
    );
    assert_eq!(
        hex(&sha256(b"")),
        "e3b0c44298fc1c149afbf4c8996fb92427ae41e4649b934ca495991b7852b855"
    );
    assert_eq!(sha256(b"x").len(), 32);
    assert_eq!(hex(&[0, 15, 16, 255]), "000f10ff");
    assert_eq!(hex(&[]), "");
}

#[test]
fn ids_take_the_first_twenty_four_hex_digits() {
    assert_eq!(id("msg", b"abc"), "msg-ba7816bf8f01cfea414140de");
    assert_eq!(id("msg", b"abc"), id("msg", b"abc"));
    assert_ne!(id("msg", b"abc"), id("msg", b"abd"));
}

#[test]
fn journal_paths_come_from_the_local_date() {
    assert_eq!(canonical_path("2026-07-13"), Ok("life/journal/2026/07/13/entry.md".into()));
    assert_eq!(canonical_path("2026-7-13"), Err("journal local date is malformed".into()));
    assert_eq!(canonical_path("2026-07-13-01"), Err("journal local date is malformed".into()));
    assert_eq!(canonical_path("20x6-07-13"), Err("journal local date is malformed".into()));
    assert_eq!(canonical_path(""), Err("journal local date is malformed".into()));
}

#[test]
fn lineage_values_are_short_words_of_letters_digits_dashes_and_colons() {
    assert!(lineage_value("owner:abc-123"));
    assert!(!lineage_value(""));
    assert!(!lineage_value("owner abc"));
    assert!(!lineage_value("owner/abc"));
    assert!(lineage_value(&"a".repeat(256)));
    assert!(!lineage_value(&"a".repeat(257)));
    assert!(!lineage_value("é"));
}

#[test]
fn journal_entries_render_front_matter_and_trimmed_body() {
    assert_eq!(
        render("2026-07-13", &strings(&["owner:a"]), "Today", "\n Walked. \n"),
        "---\nkind: journal\ndate: 2026-07-13\nsource-fingerprints:\n- owner:a\n---\n# Today\n\nWalked.\n"
    );
}

#[test]
fn record_kinds_sizes_and_names() {
    assert_eq!(normalized_kind("today"), "journal");
    assert_eq!(normalized_kind("note"), "note");
    assert_eq!(estimated_tokens(""), 0);
    assert_eq!(estimated_tokens("abcd"), 1);
    assert_eq!(estimated_tokens("abcde"), 2);
    assert_eq!(estimated_tokens("é"), 1);
    let chars: Vec<char> = "aé€😀".chars().collect();
    assert_eq!(byte_count(&chars), 10);
    assert_eq!(file_name("a/b/c.md"), "c.md");
    assert_eq!(file_name("c.md"), "c.md");
    assert_eq!(file_name("a/"), "");
    assert_eq!(part_dir("a/b.md"), "a/b.parts");
    assert_eq!(part_dir("a/b"), "a/b.parts");
    assert_eq!(link_prefix("a/b.md.md"), "b.parts");
    assert_eq!(link_prefix("a/b.txt"), "b.txt.parts");
}

#[test]
fn long_bodies_are_cut_after_whitespace_past_sixteen_hundred_bytes() {
    assert_eq!(body_chunks("  short  "), strings(&["short"]));
    assert_eq!(body_chunks("   "), strings(&[]));
    let word = "abcdefghi ";
    let body = word.repeat(400);
    let chunks = body_chunks(&body);
    assert_eq!(chunks.len(), 3);
    assert_eq!(chunks[0].len(), 1599);
    assert_eq!(chunks[1].len(), 1599);
    assert_eq!(chunks[2].len(), 799);
    let solid = "x".repeat(4000);
    let pieces = body_chunks(&solid);
    assert_eq!(pieces.len(), 2);
    assert_eq!(pieces[0].len(), 3201);
    assert_eq!(pieces[1].len(), 799);
}

#[test]
fn split_records_link_their_parts() {
    assert_eq!(
        main_body("trip.parts", 4001, 2),
        "Size justification: original record was about 1001 tokens, above target 512.\nOwner data is split into linked part files without truncation.\n\nParts:\n- [part-001](trip.parts/part-001.md)\n- [part-002](trip.parts/part-002.md)"
    );
    let p = part("notes/trip.parts", "notes/trip.md", "Trip", "First chunk.", 0, 2);
    assert_eq!(p.rel, "notes/trip.parts/part-001.md");
    assert_eq!(
        p.text,
        "# Trip Part 001\n\nSource record: [trip.md](../trip.md)\nPart: 1/2\n\nFirst chunk.\n"
    );
}

#[test]
fn a_record_edit_replaces_only_the_managed_revision() {
    assert!(matches!(prepare_route(None), PrepareRoute::Absent));
    let row = |managed: i64, content: Option<Vec<u8>>| ManagedRow {
        managed,
        revision_id: Some("rev-1".to_string()),
        sha256: Some(vec![0xab, 0x01]),
        content,
    };
    match prepare_route(Some(row(1, Some(b"old".to_vec())))) {
        PrepareRoute::Exact { parent, revision, content } => {
            assert_eq!(parent, "rev-1");
            assert_eq!(revision, hex(&[0xab, 0x01]));
            assert_eq!(revision, "ab01");
            assert_eq!(content, b"old".to_vec());
        }
        _ => panic!("managed revision not exact"),
    }
    assert!(matches!(prepare_route(Some(row(0, Some(b"old".to_vec())))), PrepareRoute::Collision));
    assert!(matches!(prepare_route(Some(row(1, None))), PrepareRoute::Collision));
    assert_eq!(collision_message(), "unmanaged existing record collision");
    assert_eq!(stale_message(), "managed record revision is stale");

    let seen = Some(("ab01".to_string(), b"old".to_vec()));
    assert!(matches!(exact_old("ab01", b"old", &seen), Ok(t) if t == "old"));
    assert!(matches!(exact_old("ab02", b"old", &seen), Err(ExactRefusal::Stale)));
    assert!(matches!(exact_old("ab01", b"new", &seen), Err(ExactRefusal::Stale)));
    assert!(matches!(exact_old("ab01", b"old", &None), Err(ExactRefusal::Stale)));
    let raw = Some(("ab01".to_string(), vec![0xff]));
    assert!(matches!(exact_old("ab01", &[0xff], &raw), Err(ExactRefusal::NotText)));

    let parents = vec!["life/journal".to_string(), "life/journal/2026".to_string()];
    let targets = effect_targets("life/journal/2026/e.md", &None, &b"body".to_vec(), None, 0o644, "stage-1", &parents);
    assert_eq!(targets.len(), 3);
    assert_eq!(targets[0].operation, "create");
    assert_eq!(targets[0].intended, Some(b"body".to_vec()));
    assert_eq!(targets[0].intended_mode, Some(0o644));
    assert_eq!(targets[0].prior_mode, None);
    assert_eq!(targets[1].path, "life/journal");
    assert_eq!(targets[2].stage_identity, "mkdir:life/journal/2026");
    assert_eq!(targets[2].operation, "mkdir");
    assert_eq!(targets[2].intended_mode, Some(0o755));
    let replace = effect_targets("a.md", &Some(b"x".to_vec()), &b"y".to_vec(), Some(0o600), 0o644, "s", &vec![]);
    assert_eq!(replace.len(), 1);
    assert_eq!(replace[0].operation, "replace");
    assert_eq!(replace[0].prior_mode, Some(0o600));

    assert_eq!(
        settled_line("d1", "journal-abc", "a.md", 2, 3),
        "settled: decision=d1 journal=journal-abc path=a.md checks=2/3"
    );
}
