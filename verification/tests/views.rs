use lkjagent_app::daemon_owner_routes::{
    append_update, bool_text, is_inbox, option_text, trace_body, trace_path, QueueRow, StepInputs,
};
use lkjagent_app::daemon_route_effects::{
    artifact_request, inspection_summary, system_operation_summary, StepKind,
};
use lkjagent_app::log_view::{
    collect, log_output, log_row, memory_output, memory_query_ok, oldest_first, queue_line,
    queue_not_found, queue_show_line, task_line, task_not_found, LogRow,
};
use lkjagent_app::model_call::{attempt_slot, outcome_summary, CallOutcome, StepCounters};
use lkjagent_app::report_record::{
    child_match, map_replacement, map_topology, report_fields, report_target, within_limit,
    LONG_LIMIT, SHORT_LIMIT,
};
use lkjagent_app::report_shape::Shape;

fn strings(items: &[&str]) -> Vec<String> {
    items.iter().map(|item| item.to_string()).collect()
}

fn pairs(items: &[(&str, &str)]) -> Vec<(String, String)> {
    items
        .iter()
        .map(|(name, value)| (name.to_string(), value.to_string()))
        .collect()
}

fn row(id: i64, lane: Option<&str>, durability: Option<&str>) -> QueueRow {
    QueueRow {
        id,
        content: "Remember the blue notebook".to_string(),
        state: "pending".to_string(),
        task_id: None,
        force_new: false,
        route_lane: lane.map(str::to_string),
        route_durability: durability.map(str::to_string),
        route_title_seed: None,
        route_transform_allowed: None,
    }
}

#[test]
fn log_rows_render_one_line_each_or_none() {
    let first = log_row(1, 0, "notice", "queued");
    assert_eq!(first.id, 1);
    assert_eq!(first.line, "1 task=0 notice queued");
    let second = log_row(2, 7, "notice", "selected");
    assert_eq!(log_output(&vec![]), "none");
    assert_eq!(
        log_output(&vec![first, second]),
        "1 task=0 notice queued\n2 task=7 notice selected"
    );
}

#[test]
fn newest_first_rows_are_turned_around() {
    let rows = vec![
        LogRow { id: 3, line: "c".to_string() },
        LogRow { id: 2, line: "b".to_string() },
        LogRow { id: 1, line: "a".to_string() },
    ];
    let ordered = oldest_first(rows);
    let ids: Vec<i64> = ordered.iter().map(|row| row.id).collect();
    assert_eq!(ids, vec![1, 2, 3]);
    assert!(oldest_first(vec![]).is_empty());
}

#[test]
fn inspection_listings_name_each_row() {
    assert_eq!(task_line(4, "open", "journal", "write today"), "task 4 open journal write today");
    assert_eq!(task_not_found(9), "task 9: not found");
    assert_eq!(
        queue_line(3, "pending", 1, 0, "hello"),
        "queue 3 pending force_new=true task=0 hello"
    );
    assert_eq!(
        queue_show_line(3, "delivered", 0, 5, "hello"),
        "queue 3 state=delivered force_new=false task=5 content=hello"
    );
    assert_eq!(queue_not_found(-2), "queue -2: not found");
    assert_eq!(collect(&vec![]), "none");
    assert_eq!(collect(&strings(&["a", "b"])), "a\nb");
}

#[test]
fn memory_search_needs_a_query() {
    assert!(!memory_query_ok("  "));
    assert!(memory_query_ok(" card "));
    assert_eq!(memory_output(" ", &vec![]), "memory: query required");
    assert_eq!(memory_output("card", &vec![]), "none");
    let rows = vec![
        (1, "transit".to_string(), "card in the blue wallet".to_string()),
        (2, "keys".to_string(), "hook by the door".to_string()),
    ];
    assert_eq!(
        memory_output("card", &rows),
        "memory 1 transit card in the blue wallet\nmemory 2 keys hook by the door"
    );
}

#[test]
fn owner_traces_go_to_the_inbox_or_the_transcripts() {
    let inbox = row(7, Some("inbox"), None);
    assert!(is_inbox(&inbox));
    assert_eq!(trace_path(&inbox), "inbox/queue-000007.md");
    let durable = row(12, Some("record"), Some("workspace_inbox"));
    assert_eq!(trace_path(&durable), "inbox/queue-000012.md");
    let plain = row(1234567, None, None);
    assert!(!is_inbox(&plain));
    assert_eq!(trace_path(&plain), "artifacts/transcripts/queue-1234567.md");
    assert_eq!(trace_path(&row(-5, None, None)), "artifacts/transcripts/queue--00005.md");
}

#[test]
fn owner_trace_body_lists_the_route() {
    let mut turn = row(3, Some("inbox"), Some("workspace_inbox"));
    turn.task_id = Some(9);
    turn.force_new = true;
    turn.route_transform_allowed = Some(false);
    let body = trace_body(&turn, "2026-07-12T10:00:00Z", true);
    assert_eq!(
        body,
        "# Owner Turn 3\n\nPurpose: durable owner-turn workspace evidence.\n\n## Route\n\n- kind: inbox\n- queue_id: 3\n- queue_state: pending\n- task_id: 9\n- force_new: true\n- route_lane: inbox\n- route_durability: workspace_inbox\n- transform_allowed: false\n- written_at: 2026-07-12T10:00:00Z\n\n## Owner Text\n\nRemember the blue notebook\n"
    );
    let other = trace_body(&row(4, None, None), "now", false);
    assert!(other.contains("- kind: transcript\n"));
    assert!(other.contains("- task_id: none\n"));
    assert!(other.contains("- transform_allowed: none\n"));
    assert_eq!(option_text(&None), "none");
    assert_eq!(option_text(&Some("x".to_string())), "x");
    assert_eq!(bool_text(Some(true)), "true");
    assert_eq!(bool_text(None), "none");
}

#[test]
fn owner_updates_reach_the_first_open_step() {
    let mut brief = "plan the trip".to_string();
    let mut steps = vec![
        StepInputs { open: false, inputs: "done".to_string() },
        StepInputs { open: true, inputs: "a".to_string() },
        StepInputs { open: true, inputs: "b".to_string() },
    ];
    append_update(&mut brief, &mut steps, "take the train");
    assert_eq!(brief, "plan the trip\nowner_update=take the train");
    assert_eq!(steps[0].inputs, "done");
    assert_eq!(steps[1].inputs, "a\nowner_update=take the train");
    assert_eq!(steps[2].inputs, "b");
    let mut none_open = vec![StepInputs { open: false, inputs: "x".to_string() }];
    append_update(&mut brief, &mut none_open, "later");
    assert_eq!(none_open[0].inputs, "x");
}

#[test]
fn report_fields_need_title_and_body() {
    let args = pairs(&[("title", " World "), ("body", "Text"), ("title", "second")]);
    assert_eq!(report_fields(&args), Ok((" World ".to_string(), "Text".to_string())));
    assert_eq!(report_fields(&pairs(&[("body", "x")])), Err("record title missing".to_string()));
    assert_eq!(report_fields(&pairs(&[("title", "x")])), Err("record body missing".to_string()));
}

#[test]
fn report_shapes_choose_path_limit_and_mode() {
    let sources = pairs(&[("owner", "abc")]);
    let short = report_target(&Shape::Short { slug: "world".to_string() }, &sources, "World", "Body");
    assert_eq!(short.path, "artifacts/reports/world.md");
    assert_eq!(short.limit, SHORT_LIMIT);
    assert_eq!(short.mode, 0o644);
    assert_eq!(short.rendered, lkjagent_app::report_shape::short("world", &sources, "World", "Body"));
    let index = Shape::Index { slug: "trip".to_string(), children: strings(&["day-one"]), minimum_words: 300 };
    let map_target = report_target(&index, &sources, "Trip", "Overview");
    assert_eq!(map_target.path, "artifacts/documents/trip/README.md");
    assert_eq!(map_target.limit, LONG_LIMIT);
    assert_eq!(map_target.mode, 0o600);
    let child = report_target(
        &Shape::Child { slug: "trip".to_string(), unit: "day-one".to_string() },
        &sources,
        "Day one",
        "Morning",
    );
    assert_eq!(child.path, "artifacts/documents/trip/day-one.md");
    assert_eq!(child.mode, 0o644);
    assert_eq!(child.limit, 2048);
    assert_eq!(within_limit(512, 512), Ok(()));
    assert_eq!(
        within_limit(513, 512),
        Err("report document exceeds 512 conservative token units".to_string())
    );
}

#[test]
fn report_map_guards_keep_topology() {
    let children = strings(&["origins", "empires"]);
    let stored = r#"{"slug":"world","children":["origins",3,"empires"],"minimum_words":200}"#;
    assert_eq!(map_topology(stored, &children, 200), Ok(()));
    assert_eq!(
        map_topology(stored, &children, 150),
        Err("report topology change is not admitted".to_string())
    );
    assert_eq!(
        map_topology(stored, &strings(&["origins"]), 200),
        Err("report topology change is not admitted".to_string())
    );
    assert_eq!(
        map_topology("[1]", &children, 200),
        Err("report topology change is not admitted".to_string())
    );
    let broken = map_topology("{", &children, 200).unwrap_err();
    assert!(broken.starts_with("Error("));
    assert_eq!(map_replacement(0), Ok(()));
    assert_eq!(map_replacement(1), Err("report map replacement is not admitted".to_string()));
    assert_eq!(child_match(1, 1), Ok(()));
    assert_eq!(
        child_match(1, 0),
        Err("report child does not match a pending current map".to_string())
    );
}

#[test]
fn model_calls_find_their_step() {
    let steps = vec![
        StepCounters { id: 1001, ordinal: 1, actions_used: 0, attempts_used: 0 },
        StepCounters { id: 1002, ordinal: 2, actions_used: 3, attempts_used: 1 },
    ];
    assert_eq!(attempt_slot(&steps, 1002), Ok((2, 5, 1)));
    assert_eq!(attempt_slot(&steps, 1001), Ok((1, 1, 0)));
    assert_eq!(attempt_slot(&steps, 9), Err("active step missing".to_string()));
}

#[test]
fn call_outcomes_are_summarised_as_json() {
    assert_eq!(outcome_summary(&CallOutcome::Parsed), r#"{"outcome":"parsed"}"#);
    assert_eq!(
        outcome_summary(&CallOutcome::ParseFault { debug: "MissingTool".to_string() }),
        r#"{"diagnosis":"MissingTool","outcome":"parse_fault"}"#
    );
    assert_eq!(
        outcome_summary(&CallOutcome::EndpointError { error: "timed \"out\"".to_string() }),
        r#"{"diagnosis":"timed \"out\"","outcome":"endpoint_error"}"#
    );
    assert_eq!(
        outcome_summary(&CallOutcome::Other { debug: "Noop".to_string() }),
        r#"{"outcome":"Noop"}"#
    );
}

#[test]
fn artifact_requests_plan_three_steps() {
    let plan = artifact_request(7, "draft the packing list");
    assert_eq!(plan.path, "artifacts/requests/matter-7.md");
    assert_eq!(plan.steps.len(), 3);
    assert!(plan.steps[0].kind == StepKind::Write);
    assert_eq!(plan.steps[0].instruction, "draft the packing list");
    assert_eq!(plan.steps[0].output_path.as_deref(), Some("artifacts/requests/matter-7.md"));
    assert!(plan.steps[1].kind == StepKind::Verify);
    assert_eq!(plan.steps[1].checks, strings(&["artifacts/requests/matter-7.md"]));
    assert!(plan.steps[2].kind == StepKind::Respond);
    assert_eq!(plan.steps[2].instruction, "report artifact path");
    assert_eq!(
        inspection_summary(2, 1, 14),
        "inspection: pending_queue=2 active_matters=1 records=14"
    );
    assert_eq!(
        system_operation_summary(),
        "system_operation: blocked unsupported_executor no_command_run"
    );
}
