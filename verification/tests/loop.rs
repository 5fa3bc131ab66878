use lkjagent_app::automatic_checks::{evaluate, EffectFact};
use lkjagent_app::context_bridge::{
    briefed, conflict_cell, objective_ids, render_context, Conflict, ContextLine,
};
use lkjagent_app::digest::{hex, sha256};
use lkjagent_app::journal_dispatch::{
    context_bound, effects_exhausted, journal_sources, journal_within_limit, lineage_rows,
    record_route, RecordFamily,
};
use lkjagent_app::memory_record::render;
use lkjagent_app::public_loop::{
    block_payload, blocked_matter, closed_message, effect_route, endpoint_failure, fault_message,
    output_limited, page_param, parse_fault_kind, selected_state_key, settled_message, status_text,
    trust_label, unfinished, EffectRoute, OutputFault, Phase, StatusFacts, Trust,
};

fn strings(items: &[&str]) -> Vec<String> {
    items.iter().map(|item| item.to_string()).collect()
}

fn pairs(items: &[(&str, &str)]) -> Vec<(String, String)> {
    items
        .iter()
        .map(|(name, value)| (name.to_string(), value.to_string()))
        .collect()
}

fn context_line(key: &str, body: &str) -> ContextLine {
    ContextLine {
        semantic_key: key.to_string(),
        source_type: "owner".to_string(),
        source_id: "m1".to_string(),
        body: body.to_string(),
    }
}

#[test]
fn prompt_context_leaves_out_conflicted_keys() {
    let items = vec![context_line("objective", "plan the trip"), context_line("car", "blue"), context_line("car", "red")];
    let conflicts = vec![Conflict { semantic_key: "car".to_string(), item_ids: strings(&["c1", "c2"]) }];
    assert_eq!(
        render_context(&items, &conflicts),
        "objective [owner:m1] plan the trip\nUnresolved conflict car items=c1,c2"
    );
    assert_eq!(render_context(&items, &vec![]), "objective [owner:m1] plan the trip\ncar [owner:m1] blue\ncar [owner:m1] red");
    assert_eq!(render_context(&vec![], &vec![]), "");
    assert_eq!(briefed("brief", ""), "brief");
    assert_eq!(briefed("brief", "a"), "brief\ncontext_items:\na");
    assert_eq!(objective_ids(12), ("case-12-objective".to_string(), "objective-12".to_string()));
    let cell = conflict_cell(&conflicts[0]);
    assert_eq!(cell.label, "conflict/car");
    assert_eq!(cell.source_event, "context-conflict/car");
    assert_eq!(cell.payload, r#"{"item_ids":["c1","c2"],"semantic_key":"car"}"#);
    assert_eq!(cell.evidence_source, "c1,c2");
    assert_eq!(cell.evidence_fingerprint, "conflict-2");
}

fn fact(bytes: &[u8]) -> EffectFact {
    EffectFact {
        path: "notes/a.md".to_string(),
        intended: bytes.to_vec(),
        mode: 0o644,
        revision: sha256(bytes),
        targets: strings(&["notes/a.md", "notes"]),
    }
}

#[test]
fn byte_checks_compare_path_digest_bytes_and_mode() {
    let bytes = b"hello\n";
    let source = sha256(bytes);
    let params = format!(r#"{{"path":"notes/a.md","sha256":"{}"}}"#, hex(&source));
    assert!(evaluate("workspace-byte", params.as_bytes(), &fact(bytes), bytes, 0o644, &source, false));
    assert!(!evaluate("workspace-byte", params.as_bytes(), &fact(bytes), bytes, 0o600, &source, false));
    let other = br#"{"path":"notes/b.md","sha256":"00"}"#;
    assert!(!evaluate("workspace-byte", other, &fact(bytes), bytes, 0o644, &source, false));
    assert!(!evaluate("workspace-byte", b"not json", &fact(bytes), bytes, 0o644, &source, false));
}

#[test]
fn content_checks_count_old_and_new_text() {
    let bytes = b"one two two";
    let source = sha256(bytes);
    let params = br#"{"path":"notes/a.md","old":"one","old_count":1,"new":"two","new_count":2}"#;
    assert!(evaluate("workspace-content", params, &fact(bytes), bytes, 0, &source, false));
    let wrong = br#"{"path":"notes/a.md","old":"one","old_count":0,"new":"two","new_count":2}"#;
    assert!(!evaluate("workspace-content", wrong, &fact(bytes), bytes, 0, &source, false));
    let empty = br#"{"path":"notes/a.md","old_count":0,"new_count":0}"#;
    assert!(evaluate("workspace-content", empty, &fact(bytes), bytes, 0, &source, false));
    assert!(!evaluate("workspace-content", params, &fact(bytes), b"\xff", 0, &source, false));
}

#[test]
fn collateral_and_delegated_checks() {
    let bytes = b"x";
    let source = sha256(bytes);
    let allowed = br#"{"allowed_paths":["notes","notes/a.md","other"]}"#;
    assert!(evaluate("workspace-collateral", allowed, &fact(bytes), bytes, 0, &source, false));
    let narrow = br#"{"allowed_paths":["notes/a.md"]}"#;
    assert!(!evaluate("workspace-collateral", narrow, &fact(bytes), bytes, 0, &source, false));
    assert!(evaluate("managed-memory", b"{}", &fact(bytes), bytes, 0, &source, true));
    assert!(!evaluate("managed-report", b"{}", &fact(bytes), bytes, 0, &source, false));
    assert!(evaluate("managed-journal", b"[1]", &fact(bytes), bytes, 0, &source, true));
    assert!(!evaluate("unknown-kind", b"{}", &fact(bytes), bytes, 0, &source, true));
}

#[test]
fn memory_notes_are_judged_against_their_check() {
    let text = render("bike-lock", &strings(&["owner:1"]), "Bike Lock", "Code is in the wallet.");
    let params = br#"{"path":"knowledge/notes/bike-lock.md","kind":"memory","max_token_units":100,"slug":"bike-lock","source_fingerprints":["owner:1"]}"#;
    let path = "knowledge/notes/bike-lock.md";
    assert!(lkjagent_app::memory_checks::evaluate(params, path, text.as_bytes(), 20, false));
    assert!(!lkjagent_app::memory_checks::evaluate(params, path, text.as_bytes(), 101, false));
    assert!(!lkjagent_app::memory_checks::evaluate(params, path, text.as_bytes(), 20, true));
    assert!(!lkjagent_app::memory_checks::evaluate(params, "knowledge/notes/other.md", text.as_bytes(), 20, false));
    assert!(!lkjagent_app::memory_checks::evaluate(params, path, b"\xff", 20, false));
    let journal = br#"{"path":"knowledge/notes/bike-lock.md","kind":"journal","max_token_units":100,"slug":"bike-lock","source_fingerprints":["owner:1"]}"#;
    assert!(!lkjagent_app::memory_checks::evaluate(journal, path, text.as_bytes(), 20, false));
}

#[test]
fn record_calls_route_by_family() {
    let memory = record_route(&pairs(&[("family", "memory"), ("title", "T"), ("body", "B")]));
    assert!(matches!(memory, Ok((RecordFamily::Memory, ref t, ref b)) if t == "T" && b == "B"));
    assert!(matches!(
        record_route(&pairs(&[("family", "report"), ("title", "T"), ("body", "B")])),
        Ok((RecordFamily::Report, _, _))
    ));
    assert!(matches!(
        record_route(&pairs(&[("family", "journal"), ("title", "T"), ("body", "B")])),
        Ok((RecordFamily::Journal, _, _))
    ));
    assert!(matches!(
        record_route(&pairs(&[("family", "diary"), ("title", "T"), ("body", "B")])),
        Err(ref e) if e == "record family is not admitted"
    ));
    assert!(matches!(
        record_route(&pairs(&[("family", "diary"), ("body", "B")])),
        Err(ref e) if e == "record title missing"
    ));
    assert!(matches!(record_route(&pairs(&[("title", "T")])), Err(ref e) if e == "record family missing"));
    assert!(!effects_exhausted(15));
    assert!(effects_exhausted(16));
}

#[test]
fn journal_lineage_needs_owner_context() {
    let rows = pairs(&[("owner", "owner:1"), ("memory", "mem:2")]);
    assert_eq!(lineage_rows(&rows), Ok(()));
    assert_eq!(lineage_rows(&vec![]), Err("record source lineage is missing or unsafe".to_string()));
    assert_eq!(
        lineage_rows(&pairs(&[("owner", "bad value")])),
        Err("record source lineage is missing or unsafe".to_string())
    );
    assert_eq!(journal_sources(&rows), Ok(strings(&["owner:1", "mem:2"])));
    assert_eq!(
        journal_sources(&pairs(&[("memory", "mem:2")])),
        Err("journal source lineage has no current owner context".to_string())
    );
    assert_eq!(context_bound("decision-context-v2", "t1", "t1"), Ok(()));
    assert_eq!(
        context_bound("decision-context-v1", "t1", "t1"),
        Err("journal decision context is not bound to selection".to_string())
    );
    assert_eq!(
        context_bound("decision-context-v2", "t1", "t2"),
        Err("journal decision context is not bound to selection".to_string())
    );
    assert_eq!(journal_within_limit(512), Ok(()));
    assert_eq!(
        journal_within_limit(513),
        Err("journal document exceeds 512 conservative token units".to_string())
    );
}

#[test]
fn run_refusals_and_answers_name_their_cause() {
    assert_eq!(
        block_payload("tokens", 1048576, 1048576, 2),
        r#"{"dimension":"tokens","limit":1048576,"schema":"matter-budget-block.v1","unknown_usage_exchanges":2,"used":1048576}"#
    );
    assert_eq!(blocked_matter("m1"), "blocked: matter m1 requires owner or config change");
    assert_eq!(unfinished("effect", "e1", "applying"), "blocked: unfinished effect e1:applying");
    assert_eq!(settled_message("d1", "o1"), "settled: decision=d1 observation=o1");
    assert_eq!(closed_message("m1", "d1", "msg-1", 4), "closed: matter=m1 decision=d1 message=msg-1 sequence=4");
    assert_eq!(fault_message("d1", "ev"), "fault: decision=d1 event=ev");
}

#[test]
fn endpoint_failures_at_the_output_limit_are_told_apart() {
    assert_eq!(endpoint_failure("endpoint completion hit max tokens"), (true, "output-limit".to_string()));
    assert_eq!(
        endpoint_failure("endpoint failure: response exceeds 65536 bytes"),
        (true, "output-limit".to_string())
    );
    assert_eq!(endpoint_failure("connection refused"), (false, "connection refused".to_string()));
    assert!(output_limited("Length"));
    assert!(!output_limited("Stop"));
    assert!(parse_fault_kind("UnknownTool(\"x\")") == OutputFault::Hidden);
    assert!(parse_fault_kind("MissingField") == OutputFault::Malformed);
}

#[test]
fn decisions_are_selected_on_their_phase_key() {
    let cells = pairs(&[("source", "current"), ("recovery", "parse/t/1"), ("recovery", "later")]);
    assert_eq!(selected_state_key(Phase::Orient, "orient.matter", &cells), "matter:opened");
    assert_eq!(selected_state_key(Phase::Modify, "modify.report/x", &cells), "report:pending");
    assert_eq!(selected_state_key(Phase::Modify, "modify.note", &cells), "recovery:parse/t/1");
    assert_eq!(selected_state_key(Phase::Modify, "modify.note", &vec![]), "source:current");
    assert_eq!(selected_state_key(Phase::Respond, "respond", &cells), "check:current-passed");
    assert_eq!(selected_state_key(Phase::Other, "verify", &cells), "edit:committed");
    assert_eq!(trust_label(Trust::Memory), "owner");
    assert_eq!(trust_label(Trust::Measured), "workspace");
    assert_eq!(trust_label(Trust::Model), "provider");
    assert_eq!(trust_label(Trust::Tool), "tool");
}

#[test]
fn admitted_effects_route_to_their_action() {
    assert!(effect_route("workspace.record") == Ok(EffectRoute::Record));
    assert!(effect_route("workspace.read") == Ok(EffectRoute::Read));
    assert!(effect_route("workspace.list") == Ok(EffectRoute::List));
    assert!(effect_route("workspace.search") == Ok(EffectRoute::Search));
    assert!(effect_route("workspace.edit") == Ok(EffectRoute::Edit));
    assert!(effect_route("workspace.create") == Ok(EffectRoute::Edit));
    assert!(effect_route("shell.run") == Err("blocked: persisted effect key shell.run".to_string()));
    assert_eq!(page_param(Some("5"), 1), 5);
    assert_eq!(page_param(Some("x"), 200), 200);
    assert_eq!(page_param(None, 20), 20);
}

#[test]
fn status_reports_roots_matters_and_conversation() {
    let facts = StatusFacts {
        data_dir: "/data".to_string(),
        workspace: "/data/workspace".to_string(),
        matters: 3,
        closed: 2,
        active: Some(("m3".to_string(), "open".to_string())),
        decisions: 1,
        exchanges: 0,
        effects: 0,
        checks_ready: 0,
        messages: vec![(1, "owner".to_string(), "msg-1".to_string()), (2, "agent".to_string(), "msg-2".to_string())],
    };
    assert_eq!(
        status_text(&facts),
        "roots: data=/data workspace=/data/workspace\nmatters: total=3 closed=2 active=m3 lifecycle=open\nunfinished: decisions=1 exchanges=0 effects=0 checks-ready=0\nconversation: 1:owner:msg-1,2:agent:msg-2"
    );
    let idle = StatusFacts { active: None, messages: vec![], ..facts };
    assert!(status_text(&idle).contains("active=none lifecycle=none"));
    assert!(status_text(&idle).ends_with("conversation: "));
}
