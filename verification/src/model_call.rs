//! The record kept of one model call.
use vstd::prelude::*;
use crate::config_registry::{json_quoted, json_string};
use crate::model_io::CompletionRecord;
use crate::number::{decimal, u64_text};
use crate::text::{owned, push_str};

verus! {

/// What one call to the model left behind for the task's accounting.
#[derive(Debug, Clone, PartialEq, Eq)]
pub struct CallRecord {
    pub step_id: u64,
    pub tokens_in: Option<u32>,
    pub tokens_out: Option<u32>,
    pub cached_tokens: Option<u32>,
    pub cache_status: String,
    pub count_budget: bool,
    pub exchange_ref: String,
    pub outcome_json: String,
    pub timeout_seconds: Option<u64>,
}

pub open spec fn cache_status_spec(cached: bool, metrics: nat) -> Seq<char> {
    if cached {
        "known"@
    } else if metrics == 0 {
        "unknown"@
    } else {
        "provider_specific"@
    }
}

/// What is known of prompt caching for one completion: known with a cached
/// token count, provider-specific with other metrics, else unknown.
pub fn cache_status(record: &CompletionRecord) -> (r: String)
    ensures
        r@ == cache_status_spec(record.cached_tokens is Some, record.cache_metrics@.len()),
{
    if record.cached_tokens.is_some() {
        owned("known")
    } else if record.cache_metrics.len() == 0 {
        owned("unknown")
    } else {
        owned("provider_specific")
    }
}

/// Where the exchange of an attempt is logged.
pub fn exchange_ref(task_id: u64, step_ordinal: u32, ordinal: u32) -> (r: String)
    ensures
        r@ == "logs/matter-"@ + decimal(task_id as nat) + "/operation-"@ + decimal(step_ordinal as nat)
            + "/attempt-"@ + decimal(ordinal as nat),
{
    let mut r = owned("logs/matter-");
    push_str(&mut r, u64_text(task_id).as_str());
    push_str(&mut r, "/operation-");
    push_str(&mut r, u64_text(step_ordinal as u64).as_str());
    push_str(&mut r, "/attempt-");
    push_str(&mut r, u64_text(ordinal as u64).as_str());
    r
}

/// The record of a call that returned a completion: its token counts and
/// cache status; a parse fault counts against the budget.
pub fn success_record(
    step_id: u64,
    record: &CompletionRecord,
    parse_fault: bool,
    exchange_ref: String,
    outcome_json: String,
    timeout_seconds: Option<u64>,
) -> (r: CallRecord)
    ensures
        r.step_id == step_id,
        r.tokens_in == record.prompt_tokens,
        r.tokens_out == record.completion_tokens,
        r.cached_tokens == record.cached_tokens,
        r.cache_status@ == cache_status_spec(record.cached_tokens is Some, record.cache_metrics@.len()),
        r.count_budget == parse_fault,
        r.exchange_ref@ == exchange_ref@,
        r.outcome_json@ == outcome_json@,
        r.timeout_seconds == timeout_seconds,
{
    CallRecord {
        step_id,
        tokens_in: record.prompt_tokens,
        tokens_out: record.completion_tokens,
        cached_tokens: record.cached_tokens,
        cache_status: cache_status(record),
        count_budget: parse_fault,
        exchange_ref,
        outcome_json,
        timeout_seconds,
    }
}

/// The record of a call that failed at the endpoint: nothing measured, no
/// budget counted.
pub fn error_record(step_id: u64, exchange_ref: String, outcome_json: String, timeout_seconds: Option<u64>) -> (r: CallRecord)
    ensures
        r.step_id == step_id,
        r.tokens_in is None,
        r.tokens_out is None,
        r.cached_tokens is None,
        r.cache_status@ == "unknown"@,
        !r.count_budget,
        r.exchange_ref@ == exchange_ref@,
        r.outcome_json@ == outcome_json@,
        r.timeout_seconds == timeout_seconds,
{
    CallRecord {
        step_id,
        tokens_in: None,
        tokens_out: None,
        cached_tokens: None,
        cache_status: owned("unknown"),
        count_budget: false,
        exchange_ref,
        outcome_json,
        timeout_seconds,
    }
}

/// A step's counters, as a model call reads them.
pub struct StepCounters {
    pub id: u64,
    pub ordinal: u32,
    pub actions_used: u32,
    pub attempts_used: u32,
}

/// The index of the first step with id `id`.
pub open spec fn first_step(steps: Seq<StepCounters>, id: u64, i: int) -> bool {
    &&& 0 <= i < steps.len()
    &&& steps[i].id == id
    &&& forall|j: int| 0 <= j < i ==> steps[j].id != id
}

/// Where the call of step `step_id` stands: the step's ordinal, the
/// ordinal of this attempt (one after every action and attempt it used),
/// and the attempts it used; `active step missing` when no step has the id.
pub fn attempt_slot(steps: &Vec<StepCounters>, step_id: u64) -> (r: Result<(u32, u32, u32), String>)
    requires
        forall|i: int| 0 <= i < steps@.len() && (#[trigger] steps@[i]).id == step_id
            ==> steps@[i].actions_used + steps@[i].attempts_used + 1 <= u32::MAX,
    ensures
        match r {
            Ok((ordinal, attempt, used)) => exists|i: int| #[trigger] first_step(steps@, step_id, i)
                && ordinal == steps@[i].ordinal
                && attempt == steps@[i].actions_used + steps@[i].attempts_used + 1
                && used == steps@[i].attempts_used,
            Err(e) => e@ == "active step missing"@ && forall|i: int| 0 <= i < steps@.len() ==> (#[trigger] steps@[i]).id != step_id,
        },
{
    for i in 0..steps.len()
        invariant
            forall|j: int| 0 <= j < i ==> (#[trigger] steps@[j]).id != step_id,
            forall|i: int| 0 <= i < steps@.len() && (#[trigger] steps@[i]).id == step_id
                ==> steps@[i].actions_used + steps@[i].attempts_used + 1 <= u32::MAX,
    {
        if steps[i].id == step_id {
            let s = &steps[i];
            assert(first_step(steps@, step_id, i as int));
            return Ok((s.ordinal, s.actions_used + s.attempts_used + 1, s.attempts_used));
        }
    }
    Err(owned("active step missing"))
}

/// How a turn's call ended, as far as its summary goes; the debug texts
/// are those of the parse fault and of the other outcome.
pub enum CallOutcome {
    Parsed,
    ParseFault { debug: String },
    EndpointError { error: String },
    Other { debug: String },
}

pub open spec fn outcome_summary_spec(o: CallOutcome) -> Seq<char> {
    match o {
        CallOutcome::Parsed => "{\"outcome\":\"parsed\"}"@,
        CallOutcome::ParseFault { debug } =>
            "{\"diagnosis\":"@ + json_quoted(debug@) + ",\"outcome\":\"parse_fault\"}"@,
        CallOutcome::EndpointError { error } =>
            "{\"diagnosis\":"@ + json_quoted(error@) + ",\"outcome\":\"endpoint_error\"}"@,
        CallOutcome::Other { debug } => "{\"outcome\":"@ + json_quoted(debug@) + "}"@,
    }
}

/// The JSON summary of a call's outcome (members in key order).
pub fn outcome_summary(outcome: &CallOutcome) -> (r: String)
    ensures
        r@ == outcome_summary_spec(*outcome),
{
    match outcome {
        CallOutcome::Parsed => owned("{\"outcome\":\"parsed\"}"),
        CallOutcome::ParseFault { debug } => {
            let mut r = owned("{\"diagnosis\":");
            push_str(&mut r, json_string(debug.as_str()).as_str());
            push_str(&mut r, ",\"outcome\":\"parse_fault\"}");
            r
        },
        CallOutcome::EndpointError { error } => {
            let mut r = owned("{\"diagnosis\":");
            push_str(&mut r, json_string(error.as_str()).as_str());
            push_str(&mut r, ",\"outcome\":\"endpoint_error\"}");
            r
        },
        CallOutcome::Other { debug } => {
            let mut r = owned("{\"outcome\":");
            push_str(&mut r, json_string(debug.as_str()).as_str());
            push_str(&mut r, "}");
            r
        },
    }
}

/// One model attempt of a task step and what was measured of it.
pub struct AttemptTokens {
    pub step_id: u64,
    pub ordinal: u32,
    pub tokens_in: u32,
    pub tokens_out: u32,
    pub cached_tokens: u32,
    pub cache_status: String,
}

/// A command of a turn, as far as token accounting goes.
pub enum TurnCommand {
    RecordAttempt(AttemptTokens),
    Other,
}

/// The task state that token accounting touches.
pub struct TaskTokens {
    pub budget_used: u32,
    pub attempts: Vec<AttemptTokens>,
}

pub type AttemptView = (u64, u32, u32, u32, u32, Seq<char>);

pub open spec fn attempt_view(a: AttemptTokens) -> AttemptView {
    (a.step_id, a.ordinal, a.tokens_in, a.tokens_out, a.cached_tokens, a.cache_status@)
}

pub open spec fn command_view(c: TurnCommand) -> Option<AttemptView> {
    match c {
        TurnCommand::RecordAttempt(a) => Some(attempt_view(a)),
        TurnCommand::Other => None,
    }
}

pub open spec fn or_zero(v: Option<u32>) -> u32 {
    match v {
        Some(n) => n,
        None => 0,
    }
}

/// An attempt with the measurements of a call record.
pub open spec fn with_tokens(a: AttemptView, r: CallRecord) -> AttemptView {
    (a.0, a.1, or_zero(r.tokens_in), or_zero(r.tokens_out), or_zero(r.cached_tokens), r.cache_status@)
}

/// The position of the last attempt of step `step`.
pub open spec fn last_attempt(attempts: Seq<AttemptView>, step: u64) -> Option<int> {
    if exists|k: int| 0 <= k < attempts.len() && #[trigger] attempts[k].0 == step {
        Some(choose|k: int| 0 <= k < attempts.len() && attempts[k].0 == step && forall|j: int| k < j < attempts.len() ==> #[trigger] attempts[j].0 != step)
    } else {
        None
    }
}

/// The recorded-attempt commands of attempt `a` take the record's measurements.
pub open spec fn commands_with_tokens(cs: Seq<Option<AttemptView>>, a: AttemptView, r: CallRecord) -> Seq<Option<AttemptView>> {
    Seq::new(
        cs.len(),
        |i: int|
            match cs[i] {
                Some(c) => if c.0 == a.0 && c.1 == a.1 {
                    Some(with_tokens(c, r))
                } else {
                    Some(c)
                },
                None => None,
            },
    )
}

fn tokens_of(a: &AttemptTokens, record: &CallRecord) -> (r: AttemptTokens)
    ensures
        attempt_view(r) == with_tokens(attempt_view(*a), *record),
{
    AttemptTokens {
        step_id: a.step_id,
        ordinal: a.ordinal,
        tokens_in: match record.tokens_in { Some(n) => n, None => 0 },
        tokens_out: match record.tokens_out { Some(n) => n, None => 0 },
        cached_tokens: match record.cached_tokens { Some(n) => n, None => 0 },
        cache_status: record.cache_status.clone(),
    }
}

/// The position of the step's last attempt.
fn find_last(attempts: &Vec<AttemptTokens>, step: u64) -> (r: Option<usize>)
    ensures
        match r {
            Some(k) => k < attempts@.len() && last_attempt(Seq::new(attempts@.len(), |i: int| attempt_view(attempts@[i])), step) == Some(k as int),
            None => last_attempt(Seq::new(attempts@.len(), |i: int| attempt_view(attempts@[i])), step) is None,
        },
{
    let ghost atts = Seq::new(attempts@.len(), |i: int| attempt_view(attempts@[i]));
    let mut k = attempts.len();
    while k > 0
        invariant
            k <= attempts@.len(),
            atts == Seq::new(attempts@.len(), |i: int| attempt_view(attempts@[i])),
            forall|j: int| k <= j < atts.len() ==> #[trigger] atts[j].0 != step,
        decreases k,
    {
        if attempts[k - 1].step_id == step {
            let at = k - 1;
            proof {
                assert(atts[at as int].0 == step);
                let c = choose|c: int| 0 <= c < atts.len() && atts[c].0 == step && forall|j: int| c < j < atts.len() ==> #[trigger] atts[j].0 != step;
                if c < at {
                } else if c > at {
                }
            }
            return Some(at);
        }
        k -= 1;
    }
    None
}

/// The commands that record attempt `(step, ordinal)` take the record's measurements.
fn patch_commands(commands: &mut Vec<TurnCommand>, step: u64, ordinal: u32, record: &CallRecord, target: Ghost<AttemptView>)
    requires
        target@.0 == step,
        target@.1 == ordinal,
    ensures
        Seq::new(final(commands)@.len(), |i: int| command_view(final(commands)@[i])) == commands_with_tokens(
            Seq::new(old(commands)@.len(), |i: int| command_view(old(commands)@[i])),
            target@,
            *record,
        ),
{
    let ghost cmds = Seq::new(commands@.len(), |i: int| command_view(commands@[i]));
    let ghost want = commands_with_tokens(cmds, target@, *record);
    let n = commands.len();
    for i in 0..n
        invariant
            n == cmds.len(),
            commands@.len() == n,
            target@.0 == step,
            target@.1 == ordinal,
            want == commands_with_tokens(cmds, target@, *record),
            forall|j: int| 0 <= j < i ==> command_view(#[trigger] commands@[j]) == want[j],
            forall|j: int| i <= j < n ==> command_view(#[trigger] commands@[j]) == cmds[j],
    {
        let replacement = match &commands[i] {
            TurnCommand::RecordAttempt(a) => if a.step_id == step && a.ordinal == ordinal {
                Some(tokens_of(a, record))
            } else {
                None
            },
            TurnCommand::Other => None,
        };
        match replacement {
            Some(a) => {
                commands.set(i, TurnCommand::RecordAttempt(a));
            },
            None => {},
        }
    }
    assert(Seq::new(commands@.len(), |i: int| command_view(commands@[i])) == want);
}

/// Books a call record: a parse fault counts against the budget (without
/// passing its top), and the step's latest attempt, with the commands that
/// record that attempt, takes the measured tokens and cache status.
pub fn apply_record(task: &mut TaskTokens, commands: &mut Vec<TurnCommand>, record: &CallRecord)
    ensures
        final(task).budget_used == if record.count_budget {
            if old(task).budget_used == u32::MAX { u32::MAX } else { (old(task).budget_used + 1) as u32 }
        } else {
            old(task).budget_used
        },
        ({
            let atts = Seq::new(old(task).attempts@.len(), |i: int| attempt_view(old(task).attempts@[i]));
            let cmds = Seq::new(old(commands)@.len(), |i: int| command_view(old(commands)@[i]));
            let atts2 = Seq::new(final(task).attempts@.len(), |i: int| attempt_view(final(task).attempts@[i]));
            let cmds2 = Seq::new(final(commands)@.len(), |i: int| command_view(final(commands)@[i]));
            match last_attempt(atts, record.step_id) {
                None => atts2 == atts && cmds2 == cmds,
                Some(k) => atts2 == atts.update(k, with_tokens(atts[k], *record))
                    && cmds2 == commands_with_tokens(cmds, atts[k], *record),
            }
        }),
{
    if record.count_budget {
        task.budget_used = task.budget_used.saturating_add(1);
    }
    let ghost atts = Seq::new(task.attempts@.len(), |i: int| attempt_view(task.attempts@[i]));
    let at = match find_last(&task.attempts, record.step_id) {
        None => return,
        Some(at) => at,
    };
    let step = task.attempts[at].step_id;
    let ordinal = task.attempts[at].ordinal;
    let updated = tokens_of(&task.attempts[at], record);
    task.attempts.set(at, updated);
    assert(Seq::new(task.attempts@.len(), |i: int| attempt_view(task.attempts@[i])) == atts.update(
        at as int,
        with_tokens(atts[at as int], *record),
    ));
    patch_commands(commands, step, ordinal, record, Ghost(atts[at as int]));
}
} // verus!
