use lkjagent_app::daemon::{
    load_step, turn_step, LoadAction, LoadEvent, TurnAction, TurnEvent, TurnState, WorkKind,
    pauses, prepared_action, rebalance_groups, resume_with_answer, start_decision, step_ids,
    turn_continues, PreparedAction, ResumeStep, StartDecision, StepState, TaskState,
};
use lkjagent_app::effect_dispatch::{
    external, next_step, prior_unchanged, written_body, CommandKind, DispatchStep,
};
use lkjagent_app::effect_error::{settle_effect_error, FailedStep};
use lkjagent_app::exchange_bridge::{
    contamination, dispatching_outcome, exchange_ids, interrupted_payload, prompt_frame_path,
    Contamination,
};
use lkjagent_app::observation_bridge::{
    completed_range, latest_observation, observation_id, observed_outcome, path_outcome,
    pending_split, postcondition, settled_state, target_mismatch, targets_verified,
};
use lkjagent_app::progress_bridge::{config_number, no_progress_cell, repeated};
use lkjagent_app::recovery_bridge::{
    failure_cell, prompt_fingerprint, recover_or_reuse, recovery_budget, recovery_facts,
    strategy_or_block, AttemptOutcome, TurnCommand,
};

fn strings(items: &[&str]) -> Vec<String> {
    items.iter().map(|item| item.to_string()).collect()
}

#[test]
fn startup_recovers_one_rebalance_group_at_most() {
    assert_eq!(rebalance_groups(0), Ok(()));
    assert_eq!(rebalance_groups(1), Ok(()));
    assert_eq!(rebalance_groups(2), Err("multiple active rebalance groups".to_string()));
}

#[test]
fn prepared_operations_are_recovered_archived_or_left() {
    assert!(matches!(prepared_action("rebalance", "1", ""), Ok(PreparedAction::RecoverRebalance)));
    assert!(matches!(prepared_action("rename", "2", ""), Ok(PreparedAction::Skip)));
    match prepared_action("archive", "3", r#"{"id":"note-1","path":"a.md"}"#) {
        Ok(PreparedAction::Archive(id)) => assert_eq!(id, "note-1"),
        _ => panic!("archive expected"),
    }
    assert!(matches!(
        prepared_action("archive", "4", r#"{"id":4}"#),
        Err(message) if message == "workspace operation 4 has no record id"
    ));
    assert!(matches!(
        prepared_action("archive", "5", "not json"),
        Err(message) if message == "workspace operation 5 has no record id"
    ));
}

#[test]
fn open_and_waiting_matters_are_run() {
    assert!(start_decision(Some(TaskState::Open)) == StartDecision::Run);
    assert!(start_decision(Some(TaskState::Waiting)) == StartDecision::Run);
    assert!(start_decision(Some(TaskState::Settled)) == StartDecision::Report);
    assert!(start_decision(None) == StartDecision::Idle);
    assert!(turn_continues(TaskState::Open, 0, 1));
    assert!(!turn_continues(TaskState::Open, 1, 1));
    assert!(!turn_continues(TaskState::Waiting, 0, 3));
    assert!(!pauses(TaskState::Open));
    assert!(pauses(TaskState::Settled));
}

#[test]
fn answers_resume_the_first_active_step() {
    let mut state = TaskState::Waiting;
    let mut steps = vec![
        ResumeStep { state: StepState::Done, asks: false, inputs: "x".to_string() },
        ResumeStep { state: StepState::Active, asks: true, inputs: "question".to_string() },
        ResumeStep { state: StepState::Active, asks: false, inputs: "later".to_string() },
    ];
    resume_with_answer(&mut state, &mut steps, "yes");
    assert!(state == TaskState::Open);
    assert!(steps[1].state == StepState::Done);
    assert_eq!(steps[1].inputs, "question\nowner_answer=yes");
    assert!(steps[2].state == StepState::Active);
    assert_eq!(steps[2].inputs, "later");
    assert_eq!(steps[0].inputs, "x");
}

#[test]
fn step_ids_follow_the_matter_id() {
    assert_eq!(step_ids(7, &vec![1, 2, 3]), vec![7001, 7002, 7003]);
    assert_eq!(step_ids(u64::MAX / 10, &vec![5]), vec![u64::MAX]);
}

#[test]
fn failed_commands_leave_recovery_facts() {
    let commands = vec![
        TurnCommand::RecordAttempt { outcome: AttemptOutcome::Succeeded, diagnosis: "ok".to_string() },
        TurnCommand::RecordAttempt { outcome: AttemptOutcome::ParseFault, diagnosis: "bad json".to_string() },
        TurnCommand::Other,
        TurnCommand::RecordChecks { passed: vec![true, false] },
        TurnCommand::RecordChecks { passed: vec![true] },
        TurnCommand::RecordAttempt { outcome: AttemptOutcome::EndpointError, diagnosis: "timeout".to_string() },
        TurnCommand::RecordAttempt { outcome: AttemptOutcome::EffectError, diagnosis: "denied".to_string() },
        TurnCommand::RecordAttempt { outcome: AttemptOutcome::CheckFail, diagnosis: "x".to_string() },
    ];
    let facts = recovery_facts(&commands);
    let seen: Vec<(String, String, usize)> = facts
        .into_iter()
        .map(|fact| (fact.kind, fact.detail, fact.index))
        .collect();
    assert_eq!(
        seen,
        vec![
            ("parse".to_string(), "bad json".to_string(), 1),
            ("check".to_string(), "check failed".to_string(), 3),
            ("endpoint".to_string(), "timeout".to_string(), 5),
            ("effect".to_string(), "denied".to_string(), 6),
        ]
    );
}

#[test]
fn unfinished_decisions_replay_only_without_evidence() {
    assert_eq!(recover_or_reuse(&vec![], 0), Ok(None));
    assert_eq!(recover_or_reuse(&strings(&["d1"]), 0), Ok(Some("d1".to_string())));
    assert_eq!(
        recover_or_reuse(&strings(&["d1"]), 2),
        Err("pending decision d1 has 2 durable evidence rows; automatic replay blocked".to_string())
    );
    assert_eq!(
        recover_or_reuse(&strings(&["d1", "d2"]), 0),
        Err("multiple pending decisions (2) make replay authority ambiguous; automatic replay blocked".to_string())
    );
}

#[test]
fn shrinking_strategies_halve_the_budget() {
    assert_eq!(recovery_budget(Some(1000), true), Some(500));
    assert_eq!(recovery_budget(Some(200), true), Some(128));
    assert_eq!(recovery_budget(Some(200), false), Some(200));
    assert_eq!(recovery_budget(None, true), None);
    assert_eq!(prompt_fingerprint(None, "abc"), "native:abc");
    assert_eq!(prompt_fingerprint(Some("p1".to_string()), "abc"), "p1");
    assert_eq!(strategy_or_block(None), "owner-block");
    assert_eq!(strategy_or_block(Some("reduce-unit".to_string())), "reduce-unit");
}

#[test]
fn failures_are_recorded_under_their_tuple() {
    let cell = failure_cell("parse", false, "sha:1:2", "write.note/a", 0, false);
    assert_eq!(cell.namespace, "recovery");
    assert_eq!(cell.label, "parse/sha-1-2/1");
    assert_eq!(cell.schema, "recovery.failure");
    assert_eq!(cell.operation_key.as_deref(), Some("write.note/a"));
    assert_eq!(cell.owner_action, "");
    assert_eq!(cell.retry_count, 1);
    let check = failure_cell("check", true, "t:x", "check.run/a", 2, false);
    assert_eq!(check.operation_key.as_deref(), Some("recovery.handle/check/t-x"));
    assert_eq!(check.label, "check/t-x/3");
    let blocked = failure_cell("parse", false, "t", "op", 4, true);
    assert_eq!(blocked.namespace, "completion");
    assert_eq!(blocked.label, "blocked");
    assert_eq!(blocked.schema, "completion.blocked");
    assert_eq!(blocked.operation_key, None);
    assert_eq!(
        blocked.owner_action,
        "inspect preserved failure evidence and choose a changed condition"
    );
}

#[test]
fn no_progress_needs_a_full_window_of_the_same_fingerprint() {
    assert!(repeated(&strings(&["f", "f", "f"]), "f", 3));
    assert!(!repeated(&strings(&["f", "f"]), "f", 3));
    assert!(!repeated(&strings(&["f", "g", "f"]), "f", 3));
    assert!(repeated(&vec![], "f", 0));
}

#[test]
fn no_progress_cells_suspend_redirect_or_block() {
    let suspend = no_progress_cell(Some("suspend"), "owner.intake", "d1", 0);
    assert_eq!(suspend.namespace, "recovery");
    assert_eq!(suspend.label, "no-progress/d1");
    assert_eq!(suspend.schema, "recovery.no-progress");
    assert_eq!(suspend.operation_key.as_deref(), Some("runtime.wait"));
    assert_eq!(suspend.selector_tier, 45);
    assert_eq!(suspend.wake_condition, "owner input or changed evidence");
    assert_eq!(suspend.repetition, 1);
    let check = no_progress_cell(Some("narrow-output"), "check.run/notes", "d2", 1);
    assert_eq!(check.operation_key.as_deref(), Some("recovery.handle/no-progress"));
    assert_eq!(check.selector_tier, 80);
    assert_eq!(check.recovery_policy, "narrow-output");
    let other = no_progress_cell(Some("narrow-output"), "write.note/a", "d3", 1);
    assert_eq!(other.operation_key.as_deref(), Some("write.note/a"));
    let blocked = no_progress_cell(None, "write.note/a", "d4", 2);
    assert_eq!(blocked.namespace, "completion");
    assert_eq!(blocked.label, "blocked");
    assert_eq!(blocked.operation_key, None);
    assert_eq!(blocked.recovery_policy, "owner-block");
    assert_eq!(blocked.owner_action, "change the goal, evidence, or operation strategy");
    assert_eq!(blocked.repetition, 3);
}

#[test]
fn numeric_settings_read_as_unsigned() {
    assert_eq!(config_number("3"), Ok(3));
    assert_eq!(config_number("+4"), Ok(4));
    assert_eq!(config_number(""), Err("cannot parse integer from empty string".to_string()));
    assert_eq!(config_number("-1"), Err("invalid digit found in string".to_string()));
    assert_eq!(
        config_number("18446744073709551616"),
        Err("number too large to fit in target type".to_string())
    );
}

#[test]
fn failed_effects_book_an_attempt() {
    let mut budget = 4;
    let mut steps = vec![
        FailedStep { id: 11, active: false, actions_used: 2, attempts_used: 1 },
        FailedStep { id: 12, active: false, actions_used: 0, attempts_used: 0 },
    ];
    let (attempt, notice) = settle_effect_error(&mut budget, &mut steps, Some((11, "fp")), "disk full");
    assert_eq!(notice, "effect_error: disk full");
    let attempt = attempt.expect("attempt booked");
    assert_eq!(attempt.step_id, 11);
    assert_eq!(attempt.ordinal, 4);
    assert_eq!(attempt.prompt_fingerprint, "fp");
    assert_eq!(attempt.diagnosis, "disk full");
    assert_eq!(budget, 5);
    assert!(steps[0].active);
    assert_eq!(steps[0].attempts_used, 2);
    assert!(!steps[1].active);
    let (none, _) = settle_effect_error(&mut budget, &mut steps, None, "x");
    assert!(none.is_none());
    assert_eq!(budget, 5);
    let (missing, _) = settle_effect_error(&mut budget, &mut steps, Some((99, "fp")), "x");
    assert!(missing.is_none());
}

#[test]
fn failed_dispatch_splits_its_effects() {
    assert_eq!(completed_range(3, 2), Ok(2));
    assert_eq!(completed_range(3, 4), Err("dispatch success count is invalid".to_string()));
    let split = pending_split(2, 1, true, false).expect("split");
    assert_eq!((split.completed, split.attempted, split.preserved), (1, 1, 0));
    let kept = pending_split(2, 1, true, true).expect("split");
    assert_eq!((kept.attempted, kept.preserved), (0, 1));
    let clean = pending_split(0, 3, false, false).expect("split");
    assert_eq!((clean.attempted, clean.preserved), (0, 0));
    assert_eq!(
        pending_split(0, 3, true, false).err(),
        Some("dispatch attempted too many effects".to_string())
    );
    assert_eq!(
        pending_split(0, 3, true, true).err(),
        Some("dispatch effect range is invalid".to_string())
    );
}

#[test]
fn observations_judge_postconditions() {
    assert_eq!(observation_id("d1", 0), "d1-observation-0001");
    assert_eq!(observation_id("d1", 12344), "d1-observation-12345");
    assert_eq!(settled_state("ok"), "committed");
    assert_eq!(settled_state("error"), "failed");
    assert_eq!(postcondition("ok", "x"), Ok(()));
    assert_eq!(postcondition("error", "x"), Err("effect postcondition failed: x".to_string()));
    assert_eq!(
        path_outcome("notes/a.md", Ok("f1".to_string()), "f1"),
        ("ok", "path=notes/a.md\nfingerprint=f1".to_string())
    );
    assert_eq!(
        path_outcome("notes/a.md", Ok("f2".to_string()), "f1"),
        ("error", "postcondition mismatch: f2".to_string())
    );
    assert_eq!(
        path_outcome("notes/a.md", Err("gone".to_string()), "f1"),
        ("error", "postcondition unavailable: gone".to_string())
    );
    assert_eq!(target_mismatch("a.md", "f9"), "postcondition mismatch: a.md f9");
    assert_eq!(targets_verified(None, 3, "b1"), "path=bundle\ntargets=3 bundle_fingerprint=b1");
    assert_eq!(targets_verified(Some("a.md"), 1, "b1"), "path=a.md\ntargets=1 bundle_fingerprint=b1");
}

#[test]
fn untargeted_effects_report_the_latest_observation() {
    let inputs = strings(&[
        "plain",
        "latest_observation=\n<status>error</status>",
        "latest_observation=\nfine",
    ]);
    assert_eq!(latest_observation(&inputs), "latest_observation=\n<status>error</status>");
    assert_eq!(observed_outcome(&inputs).0, "error");
    assert_eq!(observed_outcome(&strings(&["latest_observation=\nfine"])).0, "ok");
    assert_eq!(latest_observation(&strings(&["plain"])), "");
    assert_eq!(observed_outcome(&vec![]).0, "ok");
}

#[test]
fn failed_exchanges_become_recovery_context() {
    assert!(contamination(r#"{"outcome":"parse_fault"}"#) == Some(Contamination::FailedModelOutput));
    assert!(contamination(r#"{"outcome":"endpoint_error"}"#) == Some(Contamination::RecoveryOnly));
    assert!(contamination(r#"{"outcome":"parsed"}"#).is_none());
    let (row, pending, item, key) = exchange_ids("d7");
    assert_eq!(row, "exchange-d7");
    assert_eq!(pending, "unsettled-d7");
    assert_eq!(item, "context-exchange-d7");
    assert_eq!(key, "recovery/d7");
    assert_eq!(dispatching_outcome("fp1"), r#"{"prompt_fingerprint":"fp1","state":"dispatching"}"#);
    assert_eq!(prompt_frame_path("c1", "d7"), "logs/case-c1/decision-d7/prompt-frame.json");
    assert_eq!(
        interrupted_payload("crash", &strings(&["d1", "d2"])),
        r#"{"owner_action":"review the interrupted provider call and explicitly retry or replace the operation","pending_decisions":["d1","d2"],"reason":"crash"}"#
    );
}

#[test]
fn dispatch_walks_outside_commands_in_order() {
    let kinds = vec![CommandKind::Record, CommandKind::WriteFile, CommandKind::Record, CommandKind::RunExplore];
    assert!(!external(CommandKind::Record));
    assert!(external(CommandKind::AppendFile));
    assert!(matches!(next_step(&kinds, 0, 0, 2), DispatchStep::Apply { command: 1, effect: 0 }));
    assert!(matches!(next_step(&kinds, 2, 1, 2), DispatchStep::Apply { command: 3, effect: 1 }));
    assert!(matches!(next_step(&kinds, 4, 2, 2), DispatchStep::Done));
    match next_step(&kinds, 2, 1, 1) {
        DispatchStep::Missing(failure) => {
            assert_eq!(failure.error, "prepared effect is missing");
            assert_eq!(failure.attempted, 1);
        }
        _ => panic!("missing effect expected"),
    }
}

#[test]
fn changed_files_block_their_write() {
    assert_eq!(prior_unchanged("note.md", "f1", "f1"), Ok(()));
    assert_eq!(
        prior_unchanged("note.md", "f2", "f1"),
        Err("prior fingerprint changed for note.md".to_string())
    );
    assert_eq!(written_body(Some("old "), "new", true), "old new");
    assert_eq!(written_body(None, "new", true), "new");
    assert_eq!(written_body(Some("old "), "new", false), "new");
}

fn run_turn_plan(work: WorkKind, events: &[TurnEvent]) -> Vec<TurnAction> {
    let mut state = TurnState { work, has_record: false };
    let mut actions = Vec::new();
    for event in events {
        let (next, action) = turn_step(state, *event);
        state = next;
        actions.push(action);
    }
    actions
}

#[test]
fn model_turn_persists_the_frame_and_the_exchange_before_dispatch() {
    let actions = run_turn_plan(
        WorkKind::CallModel,
        &[
            TurnEvent::Began,
            TurnEvent::PromptFramePersisted,
            TurnEvent::ModelCalled(true),
            TurnEvent::TurnApplied,
            TurnEvent::RecordApplied,
            TurnEvent::ExchangePersisted,
            TurnEvent::EvidenceTagged,
            TurnEvent::Admitted(0),
            TurnEvent::EffectsMarked,
            TurnEvent::Dispatched(false),
        ],
    );
    assert_eq!(
        actions,
        vec![
            TurnAction::PersistPromptFrame,
            TurnAction::CallModel,
            TurnAction::ApplyTurn,
            TurnAction::ApplyRecord,
            TurnAction::PersistExchange,
            TurnAction::TagEvidence,
            TurnAction::PrepareAdmissions,
            TurnAction::MarkApplying,
            TurnAction::Dispatch,
            TurnAction::SettleFailedDispatch,
        ]
    );
    let without_record = run_turn_plan(
        WorkKind::CallModel,
        &[TurnEvent::Began, TurnEvent::PromptFramePersisted, TurnEvent::ModelCalled(false), TurnEvent::TurnApplied],
    );
    assert_eq!(without_record[3], TurnAction::TagEvidence);
}

#[test]
fn check_turns_dispatch_without_admissions_and_others_mark_only_real_effects() {
    let checks = run_turn_plan(
        WorkKind::RunChecks,
        &[TurnEvent::Began, TurnEvent::ChecksGathered, TurnEvent::TurnApplied, TurnEvent::EvidenceTagged, TurnEvent::Dispatched(true)],
    );
    assert_eq!(
        checks,
        vec![TurnAction::GatherChecks, TurnAction::ApplyTurn, TurnAction::TagEvidence, TurnAction::Dispatch, TurnAction::SettleDispatched]
    );
    let other = run_turn_plan(WorkKind::Other, &[TurnEvent::Began, TurnEvent::TurnApplied, TurnEvent::EvidenceTagged, TurnEvent::Admitted(0)]);
    assert_eq!(other, vec![TurnAction::ApplyTurn, TurnAction::TagEvidence, TurnAction::PrepareAdmissions, TurnAction::Dispatch]);
    assert_eq!(turn_step(TurnState { work: WorkKind::Other, has_record: false }, TurnEvent::Admitted(2)).1, TurnAction::MarkApplying);
    assert_eq!(turn_step(TurnState { work: WorkKind::Other, has_record: false }, TurnEvent::AdmissionFailed).1, TurnAction::ReturnSettled);
}

#[test]
fn loading_prefers_open_then_resumed_then_forced_then_queued() {
    assert_eq!(load_step(LoadEvent::OpenLookup(true)), LoadAction::ReturnOpen);
    assert_eq!(load_step(LoadEvent::OpenLookup(false)), LoadAction::LookupWaiting);
    assert_eq!(load_step(LoadEvent::WaitingLookup(true)), LoadAction::ResumeWaiting);
    assert_eq!(load_step(LoadEvent::WaitingLookup(false)), LoadAction::IntakeNext);
    assert_eq!(load_step(LoadEvent::Resumed(true)), LoadAction::ReturnResumed);
    assert_eq!(load_step(LoadEvent::Resumed(false)), LoadAction::IntakeForced);
    assert_eq!(load_step(LoadEvent::ForcedIntake(true)), LoadAction::ReturnIntaken);
    assert_eq!(load_step(LoadEvent::ForcedIntake(false)), LoadAction::ReturnResumed);
    assert_eq!(load_step(LoadEvent::NextIntake(true)), LoadAction::ReturnIntaken);
    assert_eq!(load_step(LoadEvent::NextIntake(false)), LoadAction::ReturnNothing);
}
