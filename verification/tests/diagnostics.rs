use lkjagent_app::diagnostics::{doctor_json, doctor_text, doctor_warnings, workspace_text, DoctorFacts, WorkspaceFacts};
use lkjagent_app::public_loop::{budget_block, close_body, exhausted_message, BudgetBlock};

fn strings(items: &[&str]) -> Vec<String> {
    items.iter().map(|item| item.to_string()).collect()
}

fn facts() -> DoctorFacts {
    DoctorFacts {
        missing_tables: strings(&[]),
        table_counts: vec![("matters".to_string(), 2), ("tasks".to_string(), 0)],
        lease: "lease: unknown owner=unknown heartbeat=unknown".into(),
        endpoint: "url=absent model=absent credential=absent".into(),
        workspace_root: "/srv/ws".into(),
        prompt_cap: Some(16384),
        live_seconds: None,
        missing_dirs: strings(&[]),
        unfinished: 0,
        orphan_prompts: 0,
    }
}

#[test]
fn a_healthy_doctor_report() {
    assert_eq!(
        doctor_text(&facts()),
        "doctor: ok\nschema: tables=2 missing=none\ntable_counts: matters=2,tasks=0\nlease: unknown owner=unknown heartbeat=unknown\nendpoint: url=absent model=absent credential=absent\nworkspace: root=/srv/ws missing=none prompt_cap=16384 live_seconds=unknown\ndecisions: unfinished=0\nprompt_refs: orphan=0\nwarnings: none"
    );
}

#[test]
fn doctor_warns_in_a_fixed_order() {
    let mut sick = facts();
    sick.missing_tables = strings(&["matters"]);
    sick.missing_dirs = strings(&["workspace/records"]);
    sick.orphan_prompts = 3;
    assert_eq!(
        doctor_warnings(&sick),
        strings(&["missing-tables", "missing-workspace-dirs", "orphan-prompt-refs"])
    );
    let text = doctor_text(&sick);
    assert!(text.starts_with("doctor: warn\nschema: tables=2 missing=matters\n"));
    assert!(text.ends_with("warnings: missing-tables,missing-workspace-dirs,orphan-prompt-refs"));
    let mut orphans = facts();
    orphans.orphan_prompts = 1;
    assert_eq!(doctor_warnings(&orphans), strings(&["orphan-prompt-refs"]));
}

#[test]
fn workspace_report_lines() {
    let facts = WorkspaceFacts {
        root: "/srv/ws".into(),
        total: 5,
        archived: 1,
        artifacts: 2,
        index_files: 3,
        workspace_readme: true,
        records_readme: false,
        missing_dirs: strings(&["workspace/indexes"]),
    };
    assert_eq!(
        workspace_text(&facts),
        "workspace: root=/srv/ws\nrecords: total=5 archived=1\nartifacts: total=2\nindexes: files=3\nreadmes: workspace=true,records=false\nmissing: workspace/indexes"
    );
}

#[test]
fn budgets_are_checked_in_order() {
    assert_eq!(budget_block(0, 0, 0, 0, 0), None);
    assert_eq!(budget_block(63, 1_048_575, 2, 15, 899_999), None);
    assert_eq!(
        budget_block(64, 2_000_000, 2, 16, 900_000),
        Some(BudgetBlock { dimension: "model-calls".into(), used: 64, limit: 64, unknown: 0 })
    );
    assert_eq!(
        budget_block(1, 1_048_576, 2, 16, 0),
        Some(BudgetBlock { dimension: "tokens".into(), used: 1_048_576, limit: 1_048_576, unknown: 2 })
    );
    assert_eq!(
        budget_block(1, 5, 2, 16, 0),
        Some(BudgetBlock { dimension: "recovery-cost".into(), used: 16, limit: 16, unknown: 0 })
    );
    assert_eq!(
        budget_block(1, 5, 2, 0, 900_001),
        Some(BudgetBlock { dimension: "active-milliseconds".into(), used: 900_001, limit: 900_000, unknown: 0 })
    );
}

#[test]
fn exhausted_budgets_are_named() {
    assert_eq!(
        exhausted_message("matter-1", "model-calls", 64, 64),
        "blocked: matter matter-1 exhausted model-call budget 64/64"
    );
    assert_eq!(
        exhausted_message("m", "tokens", 1_048_577, 1_048_576),
        "blocked: matter m exhausted tokens budget 1048577/1048576"
    );
}

#[test]
fn closing_messages_list_the_checked_files() {
    assert_eq!(
        close_body("  Done. \n", &vec![("a.md".to_string(), "r1".to_string()), ("b.md".to_string(), "r2".to_string())]),
        "Done.\nChecked: a.md@r1, b.md@r2"
    );
    assert_eq!(close_body("Done.", &vec![]), "Done.\nChecked: ");
}

#[test]
fn doctor_json_lists_members_in_key_order() {
    assert_eq!(
        doctor_json(&facts()),
        r#"{"endpoint":"url=absent model=absent credential=absent","lease":"lease: unknown owner=unknown heartbeat=unknown","live_campaign_seconds":null,"missing_dirs":[],"missing_tables":[],"orphan_prompt_refs":0,"prompt_max_context_tokens":16384,"schema":"ok","table_counts":[["matters",2],["tasks",0]],"unfinished_decisions":0,"warnings":[],"workspace_root":"/srv/ws"}"#
    );
    let mut sick = facts();
    sick.missing_tables = strings(&["matters", "a\"b"]);
    sick.orphan_prompts = -1;
    let json = doctor_json(&sick);
    let value: serde_json::Value = serde_json::from_str(&json).unwrap();
    assert_eq!(value["schema"], "warn");
    assert_eq!(value["missing_tables"][1], "a\"b");
    assert_eq!(value["orphan_prompt_refs"], -1);
    assert_eq!(value["warnings"][0], "missing-tables");
}
