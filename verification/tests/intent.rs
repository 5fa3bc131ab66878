use lkjagent_app::intent_tools::{narrow, ExampleParam, FieldSpec, StateCell, ToolDecision, ToolEntry};

fn entry(name: &str, fields: &[&str]) -> ToolEntry {
    ToolEntry {
        name: name.to_string(),
        purpose: format!("{name} purpose"),
        field_specs: fields
            .iter()
            .map(|field| FieldSpec { name: field.to_string(), required: false })
            .collect(),
        required_params: vec![],
        optional_params: fields.iter().map(|field| field.to_string()).collect(),
        example_params: vec![ExampleParam { name: "x".into(), value: "y".into() }],
    }
}

fn view() -> ToolDecision {
    ToolDecision {
        entries: vec![
            entry("read_file", &["path"]),
            entry("write_record", &["family", "title", "body", "slug", "unit", "children", "kind"]),
            entry("list_dir", &["path"]),
        ],
        model_budget_tokens: None,
    }
}

fn names(decision: &ToolDecision) -> Vec<String> {
    decision.entries.iter().map(|entry| entry.name.clone()).collect()
}

fn cell(namespace: &str, name: &str, payload: &str) -> StateCell {
    StateCell {
        namespace: namespace.into(),
        name: name.into(),
        active: true,
        payload_json: payload.into(),
    }
}

#[test]
fn explicit_record_intent_keeps_read_then_only_record() {
    let mut decision = view();
    narrow(&mut decision, b"Read source.md then use write_record family report", false, &vec![]);
    assert!(names(&decision).contains(&"read_file".to_string()));
    assert!(names(&decision).contains(&"write_record".to_string()));
    narrow(&mut decision, b"Read source.md then use write_record family report", true, &vec![]);
    assert_eq!(names(&decision), ["write_record"]);

    let mut memory = view();
    narrow(&mut memory, b"Remember this fact", false, &vec![]);
    assert_eq!(names(&memory), ["write_record"]);
}

#[test]
fn pending_report_descriptor_names_exact_child() {
    let cells = vec![
        cell("report", "pending", r#"{"slug":"world-history","remaining_units":["origins"]}"#),
        cell("recovery", "output-limit", "fault"),
    ];
    let mut decision = view();
    narrow(&mut decision, b"use write_record family report", true, &cells);
    let entry = decision
        .entries
        .iter()
        .find(|entry| entry.name == "write_record")
        .expect("record tool");
    assert_eq!(entry.required_params, ["family", "title", "body", "slug", "unit"]);
    assert!(entry.purpose.contains("unit=origins"));
    assert!(entry.purpose.contains("between 190 and 220 words"));
    assert_eq!(decision.model_budget_tokens, Some(4_096));
    assert!(entry.field_specs.iter().all(|field| field.name != "children"));
}

#[test]
fn objectives_without_record_intent_change_nothing() {
    let mut decision = view();
    narrow(&mut decision, b"Read the notes and summarize", true, &vec![cell("recovery", "output-limit", "x")]);
    assert_eq!(names(&decision), ["read_file", "write_record", "list_dir"]);
    assert_eq!(decision.model_budget_tokens, None);
    let mut later = view();
    narrow(&mut later, b"please remember this", false, &vec![]);
    assert_eq!(names(&later).len(), 3);
}

#[test]
fn record_intent_is_read_in_any_letter_case_and_byte() {
    let mut decision = view();
    narrow(&mut decision, b"CORRECT bike-lock: moved \xff", false, &vec![]);
    assert_eq!(names(&decision), ["write_record"]);
}

#[test]
fn a_pending_child_pins_the_record_tool() {
    let cells = vec![cell("report", "pending", r#"{"remaining_units":["day-one","day-two"],"slug":"trip"}"#)];
    let mut decision = view();
    narrow(&mut decision, b"write_record the next section", false, &cells);
    assert_eq!(decision.model_budget_tokens, None);
    let entry = &decision.entries[0];
    assert_eq!(entry.name, "write_record");
    assert_eq!(
        entry.purpose,
        "write only report child slug=trip unit=day-one; author a distinct source-linked body at least 190 words; do not rewrite the map"
    );
    let fields: Vec<(String, bool)> = entry.field_specs.iter().map(|f| (f.name.clone(), f.required)).collect();
    assert_eq!(
        fields,
        vec![
            ("family".to_string(), true),
            ("title".to_string(), true),
            ("body".to_string(), true),
            ("slug".to_string(), true),
            ("unit".to_string(), true),
        ]
    );
    assert!(entry.optional_params.is_empty());
    let examples: Vec<(String, String)> = entry.example_params.iter().map(|p| (p.name.clone(), p.value.clone())).collect();
    assert_eq!(
        examples,
        vec![
            ("family".to_string(), "report".to_string()),
            ("title".to_string(), "World History: day-one".to_string()),
            ("body".to_string(), "A distinct source-linked section about day-one.".to_string()),
            ("slug".to_string(), "trip".to_string()),
            ("unit".to_string(), "day-one".to_string()),
        ]
    );
}

#[test]
fn malformed_or_inactive_pending_cells_pin_nothing() {
    for payload in ["not json", r#"{"slug":"trip"}"#, r#"{"slug":"trip","remaining_units":[]}"#, r#"{"slug":"trip","remaining_units":[3]}"#, r#"["trip"]"#] {
        let mut decision = view();
        narrow(&mut decision, b"write_record now", false, &vec![cell("report", "pending", payload), cell("recovery", "output-limit", "")]);
        assert_eq!(decision.entries[0].purpose, "write_record purpose");
        assert_eq!(decision.model_budget_tokens, None);
    }
    let mut inactive = cell("report", "pending", r#"{"slug":"trip","remaining_units":["a"]}"#);
    inactive.active = false;
    let mut decision = view();
    narrow(&mut decision, b"write_record now", false, &vec![inactive]);
    assert_eq!(decision.entries[0].purpose, "write_record purpose");
}
