use lkjagent_app::absent_read::{mentions, observation, TargetProbe};
use lkjagent_app::admission_bridge::{
    admission_keys, commits, persistence_failed, rejected, repeat_check, repeated_reason,
};
use lkjagent_app::artifact_plan::{
    file_metadata, manifest_content, target_layout, unit_metadata, TargetRole,
};
use lkjagent_app::context_resolution_bridge::{
    conflict_edges, resolution_from_json, resolution_payload, resolve_label, resolved_message,
};
use lkjagent_app::explore::{
    dispatch, explored_inputs, memory_find, param, param_default, shell_output, write_target,
    ExploreStep, MemoryRow, ToolEffect,
};
use lkjagent_app::record_files::{
    add_link, alias_not_found, archive_audit_id, archived_message, archived_row,
    format_record_row, linked_message, not_found, record_list, record_show, written_message,
    RecordRow,
};
use lkjagent_app::record_state::{cell_payload, selector_tier};
use lkjagent_app::record_validation::{authored, unsafe_record_text};

fn strings(items: &[&str]) -> Vec<String> {
    items.iter().map(|item| item.to_string()).collect()
}

fn pairs(items: &[(&str, &str)]) -> Vec<(String, String)> {
    items
        .iter()
        .map(|(name, value)| (name.to_string(), value.to_string()))
        .collect()
}

fn record() -> RecordRow {
    RecordRow {
        id: "note-1".to_string(),
        kind: "note".to_string(),
        title: "Trip".to_string(),
        state: "active".to_string(),
        path: "notes/trip.md".to_string(),
        fingerprint: "fp1".to_string(),
        archived: false,
        updated_at: "2026-07-12".to_string(),
    }
}

#[test]
fn authored_records_follow_each_rule_in_turn() {
    assert_eq!(authored("report", "Trip", "Body text", false), Ok(()));
    assert_eq!(
        authored("report", "  ", "Body", false),
        Err("report title and body must be nonempty".to_string())
    );
    assert_eq!(
        authored("note", "Trip", "\n", false),
        Err("note title and body must be nonempty".to_string())
    );
    assert_eq!(
        authored("report", "Two\nlines", "Body", false),
        Err("report title must be one safe line".to_string())
    );
    assert_eq!(
        authored("report", "Tab\tin title", "Body", false),
        Err("report title must be one safe line".to_string())
    );
    assert_eq!(authored("report", "Trip", "Line one\n\tindented", false), Ok(()));
    assert_eq!(
        authored("report", "Trip", "bell \u{7}", false),
        Err("report body contains unsafe controls".to_string())
    );
    assert_eq!(
        authored("report", "Trip", "Body", true),
        Err("report contains a known placeholder".to_string())
    );
    assert_eq!(
        authored("report", "Trip", "my Password: hunter2", false),
        Err("report contains prohibited sensitive or raw output content".to_string())
    );
}

#[test]
fn sensitive_or_raw_output_is_refused() {
    assert!(unsafe_record_text("Keys", "api_key=abc"));
    assert!(unsafe_record_text("Authorization: Bearer x", "body"));
    assert!(unsafe_record_text("Note", "the Harness Fault was logged"));
    assert!(unsafe_record_text("Note", "  {\"a\": 1}  "));
    assert!(unsafe_record_text("Note", "[1, 2]"));
    assert!(!unsafe_record_text("Note", "{not json"));
    assert!(!unsafe_record_text("Note", "a token of thanks"));
    assert!(!unsafe_record_text("Note", "plain text"));
}

#[test]
fn record_rows_render_on_one_line() {
    let row = record();
    assert_eq!(
        format_record_row("record", &row),
        "record note-1 kind=note state=active title=Trip path=notes/trip.md fp=fp1"
    );
    assert_eq!(record_list(&vec![]), "records: none");
    let mut second = record();
    second.id = "note-2".to_string();
    assert_eq!(
        record_list(&vec![record(), second]),
        "record note-1 kind=note state=active title=Trip path=notes/trip.md fp=fp1\nrecord note-2 kind=note state=active title=Trip path=notes/trip.md fp=fp1"
    );
    assert_eq!(
        record_show(&row, "# Trip\n"),
        "record note-1 kind=note state=active title=Trip path=notes/trip.md fp=fp1\n# Trip\n"
    );
}

#[test]
fn record_messages_name_the_record() {
    assert_eq!(not_found("x"), "record not found: x");
    assert_eq!(alias_not_found("old"), "record not found for alias: old");
    assert_eq!(archived_message("note-1"), "archived record: note-1");
    assert_eq!(linked_message("note-1", "note-2"), "linked record: note-1 -> note-2");
    assert_eq!(
        written_message("note-1", "notes/trip.md", "fp1", "3"),
        "record: note-1 path=notes/trip.md fp=fp1 index=3"
    );
    assert_eq!(archive_audit_id("note-1"), "archive-note-1");
    let archived = archived_row(&record(), "archive/note-1.md", "fp2", "2026-07-13");
    assert_eq!(archived.state, "archived");
    assert_eq!(archived.path, "archive/note-1.md");
    assert_eq!(archived.fingerprint, "fp2");
    assert!(archived.archived);
    assert_eq!(archived.updated_at, "2026-07-13");
    assert_eq!(archived.title, "Trip");
}

#[test]
fn links_are_added_once() {
    let mut links = strings(&["a"]);
    add_link(&mut links, "b");
    assert_eq!(links, strings(&["a", "b"]));
    add_link(&mut links, "a");
    assert_eq!(links, strings(&["a", "b"]));
}

#[test]
fn record_cells_carry_their_selector_tier() {
    assert_eq!(selector_tier("todo:groceries"), 35);
    assert_eq!(selector_tier("calendar:dentist"), 36);
    assert_eq!(selector_tier("routine:x"), 37);
    assert_eq!(selector_tier("index:x"), 38);
    assert_eq!(selector_tier("proof:x"), 39);
    assert_eq!(selector_tier("dev:x"), 40);
    assert_eq!(selector_tier("project:orbit"), 41);
    assert_eq!(selector_tier("note:x"), 80);
    assert_eq!(selector_tier("todo"), 80);
    assert_eq!(
        cell_payload("r1", "todo", "Buy \"milk\"", "open", "todo/r1.md", "todo:r1"),
        r#"{"kind":"todo","path":"todo/r1.md","record_id":"r1","selector_tier":35,"state":"open","title":"Buy \"milk\""}"#
    );
}

#[test]
fn only_safe_absent_targets_are_observed() {
    assert!(mentions(b"create notes/new.txt", "notes/new.txt"));
    assert!(!mentions(b"create elsewhere", "notes/new.txt"));
    assert!(mentions(b"create \xff notes/new.txt", "notes/new.txt"));
    let absent = observation("notes/new.txt", TargetProbe::Absent).expect("absent");
    assert_eq!(absent.body, r#"{"absent":true,"path":"notes/new.txt","revision":"absent"}"#);
    assert!(absent.body.contains("\"absent\":true"));
    assert_eq!(absent.context, "observed absent target: notes/new.txt");
    assert!(observation("notes/current.txt", TargetProbe::Present).is_none());
    assert!(observation("nested/new.txt", TargetProbe::Unobservable { creatable: true }).is_some());
    assert!(observation("../escape", TargetProbe::Unobservable { creatable: false }).is_none());
}

#[test]
fn artifact_manifests_link_their_parts() {
    let manifest = manifest_content("notes/long.md", "fp9", 2);
    assert_eq!(
        manifest,
        "# Artifact\n\nSize justification: generated artifact body is stored in checked parts to keep this file readable.\nFull body fingerprint: `fp9`.\nPart directory: `notes/long.parts/`.\n\n## Parts\n\n- part 001: `notes/long.parts/part-001.md`\n- part 002: `notes/long.parts/part-002.md`"
    );
    let many = manifest_content("a.md", "f", 23);
    assert!(many.contains("- part 020: `a.parts/part-020.md`\n- remaining parts: 3 files in `a.parts/`"));
    assert!(!many.contains("part 021"));
    assert_eq!(file_metadata(1), "{}");
    assert_eq!(
        file_metadata(3),
        r#"{"part_count":3,"size_justification":"generated artifact body is stored in checked parts to keep this file readable"}"#
    );
    assert_eq!(
        unit_metadata("a.md", 2, None, Some(384)),
        r#"{"assembled_path":"a.md","ordinal":2,"target_tokens":null,"target_words":384}"#
    );
}

#[test]
fn artifact_targets_come_in_order() {
    let owned = strings(&["a.parts/part-001.md", "a.parts/part-002.md", "a.parts/part-003.md"]);
    let layout = target_layout("a.md", &owned, &owned, 2).expect("layout");
    let seen: Vec<(TargetRole, String)> = layout;
    let roles: Vec<bool> = vec![
        seen[0].0 == TargetRole::Membership,
        seen[1].0 == TargetRole::Part,
        seen[2].0 == TargetRole::Part,
        seen[3].0 == TargetRole::StalePart,
        seen[4].0 == TargetRole::Main,
    ];
    assert_eq!(roles, vec![true; 5]);
    let paths: Vec<&str> = seen.iter().map(|item| item.1.as_str()).collect();
    assert_eq!(
        paths,
        vec!["a.parts", "a.parts/part-001.md", "a.parts/part-002.md", "a.parts/part-003.md", "a.md"]
    );
    let single = target_layout("a.md", &owned, &vec![], 1).expect("layout");
    assert_eq!(single.len(), 5);
    assert!(single[1].0 == TargetRole::StalePart);
    assert_eq!(
        target_layout("a.md", &vec![], &strings(&["a.parts/part-009.md"]), 1).err(),
        Some("artifact part path is not managed: a.parts/part-009.md".to_string())
    );
}

#[test]
fn repeated_model_actions_are_caught() {
    let mut seen = Vec::new();
    assert!(!repeat_check(&mut seen, "read a", false));
    assert!(repeat_check(&mut seen, "read a", false));
    assert!(repeat_check(&mut seen, "read b", true));
    assert_eq!(seen, strings(&["read a"]));
    assert_eq!(repeated_reason(), "repeated tool call; state the next different tool call");
    let (id, journal, key) = admission_keys("d1", 3);
    assert_eq!(id, "d1-admission-0003");
    assert_eq!(journal, "d1-admission-0003-effect");
    assert_eq!(key, "d1:3");
    assert_eq!(rejected("no"), "admission rejected: no");
    assert_eq!(persistence_failed("busy"), "admission persistence failed: busy");
    assert!(commits(None));
    assert!(commits(Some("admission rejected: repeated")));
    assert!(!commits(Some("admission persistence failed: busy")));
}

#[test]
fn resolution_cells_name_key_and_winner() {
    let parsed = resolution_from_json(r#"{"semantic_key":"car","winning_item_id":"c2"}"#)
        .expect("json")
        .expect("resolution");
    assert_eq!(parsed.semantic_key, "car");
    assert_eq!(parsed.winning_item_id, "c2");
    assert!(resolution_from_json(r#"{"semantic_key":"car"}"#).expect("json").is_none());
    assert!(resolution_from_json("[1]").expect("json").is_none());
    assert!(resolution_from_json("{").is_err());
    assert_eq!(
        conflict_edges(&strings(&["a", "b", "c"])),
        vec![("a".to_string(), "b".to_string()), ("a".to_string(), "c".to_string())]
    );
    assert!(conflict_edges(&vec![]).is_empty());
    assert_eq!(resolve_label("car"), "resolve/car");
    assert_eq!(resolution_payload("car", "c2"), r#"{"semantic_key":"car","winning_item_id":"c2"}"#);
    assert_eq!(resolved_message("car", "c2"), "context resolved: car -> c2");
}

#[test]
fn explore_actions_map_to_their_steps() {
    let read = dispatch(Some(ToolEffect::FsRead), "fs.read", &pairs(&[("path", "a.md"), ("offset", "5")]));
    assert!(matches!(read, Ok(ExploreStep::Read { ref path, offset: 5, count: 0 }) if path == "a.md"));
    let list = dispatch(Some(ToolEffect::FsList), "fs.list", &pairs(&[("depth", "x")]));
    assert!(matches!(list, Ok(ExploreStep::List { ref path, depth: 1 }) if path == "."));
    let missing_depth = dispatch(Some(ToolEffect::FsList), "fs.list", &vec![]);
    assert!(matches!(missing_depth, Ok(ExploreStep::List { depth: 0, .. })));
    let tree = dispatch(Some(ToolEffect::FsTree), "fs.tree", &pairs(&[("path", "notes"), ("depth", "-1")]));
    assert!(matches!(tree, Ok(ExploreStep::Tree { ref path, depth: 2 }) if path == "notes"));
    assert!(matches!(
        dispatch(Some(ToolEffect::FsSearch), "fs.search", &pairs(&[("path", "notes"), ("query", "q")])),
        Err(ref message) if message == "fs.search only supports the workspace root"
    ));
    assert!(matches!(
        dispatch(Some(ToolEffect::FsSearch), "fs.search", &pairs(&[("query", "card")])),
        Ok(ExploreStep::Search { ref query }) if query == "card"
    ));
    assert!(matches!(
        dispatch(Some(ToolEffect::FsWrite), "fs.write", &pairs(&[("path", "a.md")])),
        Err(ref message) if message == "missing parameter: content"
    ));
    assert!(matches!(
        dispatch(Some(ToolEffect::MemorySave), "memory.save", &pairs(&[("topic", "keys")])),
        Ok(ExploreStep::Reply(ref text)) if text == "saved topic=keys"
    ));
    assert!(matches!(
        dispatch(Some(ToolEffect::PlanNote), "plan.note", &pairs(&[("note", "next")])),
        Ok(ExploreStep::Reply(ref text)) if text == "noted: next"
    ));
    assert!(matches!(
        dispatch(None, "fs.teleport", &vec![]),
        Err(ref message) if message == "unknown tool: fs.teleport"
    ));
}

#[test]
fn explore_parameters_and_answers() {
    let params = pairs(&[("path", "a"), ("path", "b")]);
    assert_eq!(param(&params, "path"), Ok("a".to_string()));
    assert_eq!(param(&params, "query"), Err("missing parameter: query".to_string()));
    assert_eq!(param_default(&params, "depth", "1"), "1");
    assert_eq!(
        write_target("fs.write", &pairs(&[("path", "a.md"), ("content", "x")])),
        Some(("a.md".to_string(), "x".to_string()))
    );
    assert_eq!(write_target("fs.read", &pairs(&[("path", "a.md"), ("content", "x")])), None);
    assert_eq!(write_target("fs.write", &pairs(&[("path", "a.md")])), None);
    assert_eq!(shell_output(Some(0), false, "ok"), "exit=Some(0) timed_out=false\nok");
    assert_eq!(shell_output(Some(-9), true, ""), "exit=Some(-9) timed_out=true\n");
    assert_eq!(shell_output(None, true, "x"), "exit=None timed_out=true\nx");
    assert_eq!(memory_find(&vec![]), "no matches");
    let rows = vec![
        MemoryRow { id: 1, task_id: Some(4), topic: "keys".to_string(), content: "hook".to_string() },
        MemoryRow { id: 2, task_id: None, topic: "car".to_string(), content: "garage".to_string() },
    ];
    assert_eq!(memory_find(&rows), "memory 1 matter=4 keys hook\nmemory 2 matter=none car garage");
    assert_eq!(
        explored_inputs("goal\nlast_action=read\ncount=2\nlatest_observation=old", "new"),
        "last_action=read\ncount=2\nlatest_observation=\nnew"
    );
}

#[test]
fn payload_strings_are_escaped_as_json() {
    assert_eq!(
        resolution_payload("a\"b\\c\n\u{1}\u{8}\t", "é"),
        r#"{"semantic_key":"a\"b\\c\n\u0001\b\t","winning_item_id":"é"}"#
    );
}
