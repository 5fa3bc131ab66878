use lkjagent_app::automatic_checks::{count, identity};
use lkjagent_app::diagnostics_support::{
    bool_text, join_bools, join_counts, join_or_none, missing_dirs, option_number, option_text,
};
use lkjagent_app::history_context::{history_relevant, project_ids, select_history};
use lkjagent_app::model_call::{
    apply_record, cache_status, error_record, exchange_ref, success_record, TaskTokens, TurnCommand,
};
use lkjagent_app::model_io::{
    fill_prompt_markers, prompt_value, u32_opt, CompletionRecord, Endpoint, LlmEndpoint, Prompt,
    ScriptedEndpoint,
};
use lkjagent_app::observations::{action_state, observation_status, suspend_wake_operation};
use lkjagent_app::public_loop::{bounded, final_claims_allowed, intake_plan, receipt_output};
use sha2::Digest;

fn strings(items: &[&str]) -> Vec<String> {
    items.iter().map(|item| item.to_string()).collect()
}

fn short_id(prefix: &str, bytes: &[u8]) -> String {
    let digest = sha2::Sha256::digest(bytes);
    let hex: String = digest.iter().map(|byte| format!("{byte:02x}")).collect();
    format!("{prefix}-{}", &hex[..24])
}

#[test]
fn diagnostic_lists_and_values() {
    assert_eq!(join_or_none(&strings(&[])), "none");
    assert_eq!(join_or_none(&strings(&["a", "b"])), "a,b");
    assert_eq!(join_counts(&vec![("tasks".to_string(), 3), ("events".to_string(), -1)]), "tasks=3,events=-1");
    assert_eq!(join_counts(&vec![]), "");
    assert_eq!(join_bools(&vec![("db", true), ("logs", false)]), "db=true,logs=false");
    assert_eq!(option_number(Some(42)), "42");
    assert_eq!(option_number(None), "unknown");
    assert_eq!(option_text(&Some("x".into())), "x");
    assert_eq!(option_text(&None), "none");
    assert_eq!(bool_text(Some(true)), "true");
    assert_eq!(bool_text(Some(false)), "false");
    assert_eq!(bool_text(None), "none");
}

#[test]
fn missing_workspace_directories_are_named_in_order() {
    assert_eq!(missing_dirs([true, true, true, true]), strings(&[]));
    assert_eq!(
        missing_dirs([false, true, false, false]),
        strings(&["workspace/.", "workspace/artifacts", "workspace/indexes"])
    );
}

#[test]
fn observations_and_wake_operations() {
    assert_eq!(observation_status("<r><status>error</status></r>"), "error");
    assert_eq!(observation_status("<status>ok</status>"), "ok");
    assert!(suspend_wake_operation("owner.intake"));
    assert!(suspend_wake_operation("effect.run/7"));
    assert!(!suspend_wake_operation("effect.run"));
    assert!(!suspend_wake_operation("orient.matter"));
    assert_eq!(action_state("last_action=read\nother=1\ncount=2\r\nlast_action2"), "last_action=read\ncount=2\nlast_action2\n");
    assert_eq!(action_state(""), "");
    assert_eq!(action_state("count=1\r"), "count=1\r\n");
    assert_eq!(action_state("count=1\r\n"), "count=1\n");
}

#[test]
fn exact_project_token_excludes_prefix_neighbor_history() {
    let objective = "inspect project-orbital";
    let bodies = strings(&["facts for project-orbital", "facts for project-orbit"]);
    assert_eq!(select_history(objective, &bodies), vec![0]);
    assert!(history_relevant(objective, "facts for project-orbital"));
    assert!(!history_relevant(objective, "facts for project-orbit"));
}

#[test]
fn project_ids_are_lowered_once_each() {
    assert_eq!(project_ids("project-Moon, project-moon and Project-x project-"), strings(&["project-moon", "project-"]));
    assert_eq!(project_ids(&format!("project-{}", "a".repeat(121))), strings(&[]));
    assert!(history_relevant("no project named", "anything"));
}

#[test]
fn history_offers_at_most_four_relevant_messages() {
    let bodies = strings(&["project-a 1", "b", "project-a 2", "project-a 3", "project-a 4", "project-a 5"]);
    assert_eq!(select_history("about project-a", &bodies), vec![0, 2, 3, 4]);
    assert_eq!(select_history("anything", &bodies), vec![0, 1, 2, 3]);
    assert_eq!(select_history("about project-z", &bodies), Vec::<usize>::new());
}

#[test]
fn final_messages_may_not_claim_unrun_work() {
    assert!(final_claims_allowed("Done: the note is saved."));
    assert!(!final_claims_allowed("I will update it later."));
    assert!(!final_claims_allowed("All TESTS PASSED"));
    assert_eq!(bounded(b"abcdef", 3), b"abc".to_vec());
    assert_eq!(bounded(b"ab", 3), b"ab".to_vec());
}

#[test]
fn intake_ids_derive_from_queue_and_text() {
    let fresh = intake_plan(7, "hello", false, None);
    assert_eq!(fresh.matter, short_id("matter", b"7:hello"));
    assert_eq!(fresh.turn, short_id("turn", b"7:hello"));
    assert_eq!(fresh.event, short_id("intake", fresh.turn.as_bytes()));
    assert!(!fresh.resumed);
    let resumed = intake_plan(7, "hello", false, Some("matter-old".into()));
    assert_eq!(resumed.matter, "matter-old");
    assert_eq!(resumed.event, short_id("resume", resumed.turn.as_bytes()));
    assert!(resumed.resumed);
    let forced = intake_plan(-2, "hi", true, Some("matter-old".into()));
    assert_eq!(forced.matter, short_id("matter", b"-2:hi"));
    assert!(!forced.resumed);
    assert_eq!(
        receipt_output(&resumed, "msg-1", 9, false),
        format!("send: matter=matter-old turn={} message=msg-1 sequence=9 new=false resumed=true", resumed.turn)
    );
    assert!(receipt_output(&fresh, "m", 1, false).ends_with("new=true resumed=false"));
}

#[test]
fn scripted_endpoint_replays_and_fills_markers() {
    let prompt = Prompt {
        system: "  - context_fingerprint: ctx-9\n".into(),
        user: "task\n - decision_id: dec-1 \n- decision_id: dec-2".into(),
    };
    assert_eq!(prompt_value(&prompt, "- decision_id: "), "dec-1");
    assert_eq!(prompt_value(&prompt, "- context_fingerprint: "), "ctx-9");
    assert_eq!(prompt_value(&prompt, "- missing: "), "");
    assert_eq!(
        fill_prompt_markers("{\"id\":\"__DECISION_ID__\",\"ctx\":\"__CONTEXT_FRAME_FINGERPRINT__\"}", &prompt),
        "{\"id\":\"dec-1\",\"ctx\":\"ctx-9\"}"
    );
    let mut endpoint = ScriptedEndpoint { outputs: strings(&["one __DECISION_ID__"]), index: 0 };
    let first = endpoint.complete(&prompt).expect("first output");
    assert_eq!(first.content, "one dec-1");
    assert_eq!(first.finish_reason, "scripted");
    assert_eq!(endpoint.index, 1);
    assert_eq!(endpoint.complete(&prompt), Err("scripted endpoint exhausted".into()));
    assert_eq!(endpoint.index, 1);
    assert_eq!(LlmEndpoint::new("data").data_dir(), "data");
    assert_eq!(u32_opt(Some(5)), Some(5));
    assert_eq!(u32_opt(Some(u64::from(u32::MAX) + 1)), Some(u32::MAX));
    assert_eq!(u32_opt(None), None);
}

#[test]
fn call_records_keep_what_the_provider_said() {
    let mut record = CompletionRecord::scripted("x".into());
    assert_eq!(cache_status(&record), "unknown");
    record.cache_metrics.push(("hit".into(), "1".into()));
    assert_eq!(cache_status(&record), "provider_specific");
    record.cached_tokens = Some(3);
    assert_eq!(cache_status(&record), "known");
    record.prompt_tokens = Some(10);
    let ok = success_record(4, &record, true, "ref".into(), "{}".into(), Some(30));
    assert_eq!(ok.tokens_in, Some(10));
    assert_eq!(ok.cache_status, "known");
    assert!(ok.count_budget);
    let failed = error_record(4, "ref".into(), "{}".into(), None);
    assert_eq!(failed.cache_status, "unknown");
    assert!(!failed.count_budget);
    assert_eq!(failed.tokens_in, None);
    assert_eq!(exchange_ref(12, 3, 2), "logs/matter-12/operation-3/attempt-2");
}

#[test]
fn counts_do_not_overlap_and_identities_hash_seed_then_source() {
    assert_eq!(count("aaaa", "aa"), 2);
    assert_eq!(count("abc", ""), 0);
    assert_eq!(count("a-b-c", "-"), 2);
    assert_eq!(identity("check", "seed", b"src"), short_id("check", b"seedsrc"));
}

fn attempt(step_id: u64, ordinal: u32) -> lkjagent_app::model_call::AttemptTokens {
    lkjagent_app::model_call::AttemptTokens {
        step_id,
        ordinal,
        tokens_in: 9,
        tokens_out: 9,
        cached_tokens: 9,
        cache_status: "old".into(),
    }
}

#[test]
fn call_records_are_booked_on_the_latest_attempt_of_the_step() {
    let mut completion = CompletionRecord::scripted("x".into());
    completion.prompt_tokens = Some(100);
    completion.completion_tokens = Some(20);
    let record = success_record(2, &completion, true, "ref".into(), "{}".into(), None);
    let mut task = TaskTokens { budget_used: 3, attempts: vec![attempt(2, 1), attempt(2, 2), attempt(5, 1)] };
    let mut commands = vec![
        TurnCommand::RecordAttempt(attempt(2, 2)),
        TurnCommand::Other,
        TurnCommand::RecordAttempt(attempt(2, 1)),
    ];
    apply_record(&mut task, &mut commands, &record);
    assert_eq!(task.budget_used, 4);
    let measured: Vec<(u32, u32, u32, String)> = task
        .attempts
        .iter()
        .map(|a| (a.tokens_in, a.tokens_out, a.cached_tokens, a.cache_status.clone()))
        .collect();
    assert_eq!(
        measured,
        vec![
            (9, 9, 9, "old".to_string()),
            (100, 20, 0, "unknown".to_string()),
            (9, 9, 9, "old".to_string()),
        ]
    );
    match &commands[0] {
        TurnCommand::RecordAttempt(a) => assert_eq!((a.tokens_in, a.tokens_out), (100, 20)),
        TurnCommand::Other => panic!("attempt command expected"),
    }
    match &commands[2] {
        TurnCommand::RecordAttempt(a) => assert_eq!(a.tokens_in, 9),
        TurnCommand::Other => panic!("attempt command expected"),
    }
}

#[test]
fn budgets_saturate_and_unknown_steps_change_nothing() {
    let record = error_record(7, "ref".into(), "{}".into(), None);
    let mut task = TaskTokens { budget_used: u32::MAX, attempts: vec![attempt(2, 1)] };
    let mut commands = vec![TurnCommand::RecordAttempt(attempt(2, 1))];
    apply_record(&mut task, &mut commands, &record);
    assert_eq!(task.budget_used, u32::MAX);
    assert_eq!(task.attempts[0].tokens_in, 9);
    let fault = success_record(2, &CompletionRecord::scripted("x".into()), true, "r".into(), "{}".into(), None);
    let mut full = TaskTokens { budget_used: u32::MAX, attempts: vec![] };
    apply_record(&mut full, &mut vec![], &fault);
    assert_eq!(full.budget_used, u32::MAX);
}

#[test]
fn a_scripted_endpoint_serves_through_the_endpoint_trait() {
    let mut endpoint = ScriptedEndpoint { outputs: vec!["done".to_string()], index: 0 };
    let prompt = Prompt { system: String::new(), user: String::new() };
    let record = Endpoint::complete(&mut endpoint, &prompt, 1).unwrap();
    assert_eq!(record.content, "done");
    assert_eq!(record.closure_mode, "unknown");
    assert_eq!(record.prompt_tokens, None);
    assert!(record.cache_metrics.is_empty());
    assert_eq!(endpoint.timeout_seconds(), None);
    assert_eq!(Endpoint::complete(&mut endpoint, &prompt, 2).unwrap_err(), "scripted endpoint exhausted");
}
