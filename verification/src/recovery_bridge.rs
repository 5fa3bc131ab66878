//! The decisions taken when a turn failed: which commands leave a recovery
//! fact, whether an unfinished decision may be replayed, and which state
//! cell a failure is recorded under.
use vstd::prelude::*;
use crate::number::{decimal, i64_text, signed_decimal, u64_text};
use crate::text::{chars_of, owned, push_chars, push_str, replace_exec, replace_from};

verus! {

/// How an attempt of a matter ended.
#[derive(Clone, Copy)]
pub enum AttemptOutcome {
    /// The attempt succeeded.
    Succeeded,
    CheckFail,
    ParseFault,
    EndpointError,
    EffectError,
}

/// A command of a committed turn, as far as recovery looks at it.
pub enum TurnCommand {
    /// A recorded attempt: how it ended and its diagnosis.
    RecordAttempt { outcome: AttemptOutcome, diagnosis: String },
    /// Recorded check results: whether each passed.
    RecordChecks { passed: Vec<bool> },
    /// Any other command.
    Other,
}

/// A failure to record: its fault kind, its detail, and the index of the
/// command it came from.
pub struct RecoveryFact {
    pub kind: String,
    pub detail: String,
    pub index: usize,
}

pub open spec fn attempt_kind(o: AttemptOutcome) -> Option<Seq<char>> {
    match o {
        AttemptOutcome::ParseFault => Some("parse"@),
        AttemptOutcome::EndpointError => Some("endpoint"@),
        AttemptOutcome::EffectError => Some("effect"@),
        _ => None,
    }
}

/// The fault kind and detail that one command leaves, if any.
pub open spec fn fact_of(c: TurnCommand) -> Option<(Seq<char>, Seq<char>)> {
    match c {
        TurnCommand::RecordAttempt { outcome, diagnosis } => match attempt_kind(outcome) {
            Some(k) => Some((k, diagnosis@)),
            None => None,
        },
        TurnCommand::RecordChecks { passed } => if exists|i: int| 0 <= i < passed@.len() && !passed@[i] {
            Some(("check"@, "check failed"@))
        } else {
            None
        },
        TurnCommand::Other => None,
    }
}

/// The facts of the first `n` commands, in command order.
pub open spec fn facts_spec(cs: Seq<TurnCommand>, n: int) -> Seq<(Seq<char>, Seq<char>, int)>
    decreases n,
{
    if n <= 0 {
        Seq::empty()
    } else {
        let pre = facts_spec(cs, n - 1);
        match fact_of(cs[n - 1]) {
            Some((k, d)) => pre.push((k, d, n - 1)),
            None => pre,
        }
    }
}

pub open spec fn fact_views(v: Seq<RecoveryFact>) -> Seq<(Seq<char>, Seq<char>, int)> {
    Seq::new(v.len(), |i: int| (v[i].kind@, v[i].detail@, v[i].index as int))
}

fn any_failed(passed: &Vec<bool>) -> (r: bool)
    ensures
        r == exists|i: int| 0 <= i < passed@.len() && !passed@[i],
{
    for i in 0..passed.len()
        invariant
            forall|j: int| 0 <= j < i ==> passed@[j],
    {
        if !passed[i] {
            return true;
        }
    }
    false
}

/// The recovery facts that a turn's commands leave: parse, endpoint and
/// effect faults of attempts, and failed checks.
pub fn recovery_facts(commands: &Vec<TurnCommand>) -> (r: Vec<RecoveryFact>)
    ensures
        fact_views(r@) == facts_spec(commands@, commands@.len() as int),
{
    let mut r: Vec<RecoveryFact> = Vec::new();
    for i in 0..commands.len()
        invariant
            fact_views(r@) == facts_spec(commands@, i as int),
    {
        let ghost before = r@;
        let fact: Option<(&str, String)> = match &commands[i] {
            TurnCommand::RecordAttempt { outcome, diagnosis } => match outcome {
                AttemptOutcome::ParseFault => Some(("parse", owned(diagnosis.as_str()))),
                AttemptOutcome::EndpointError => Some(("endpoint", owned(diagnosis.as_str()))),
                AttemptOutcome::EffectError => Some(("effect", owned(diagnosis.as_str()))),
                _ => None,
            },
            TurnCommand::RecordChecks { passed } => if any_failed(passed) {
                Some(("check", owned("check failed")))
            } else {
                None
            },
            TurnCommand::Other => None,
        };
        match fact {
            Some((k, d)) => {
                r.push(RecoveryFact { kind: owned(k), detail: d, index: i });
                assert(fact_views(r@) =~= fact_views(before).push((k@, d@, i as int)));
            },
            None => {},
        }
    }
    r
}

pub open spec fn replay_spec(ids: Seq<Seq<char>>, evidence: i64) -> Result<Option<Seq<char>>, Seq<char>> {
    if ids.len() > 1 {
        Err("multiple pending decisions ("@ + decimal(ids.len()) + ") make replay authority ambiguous; automatic replay blocked"@)
    } else if ids.len() == 1 && evidence > 0 {
        Err("pending decision "@ + ids[0] + " has "@ + signed_decimal(evidence as int) + " durable evidence rows; automatic replay blocked"@)
    } else if ids.len() == 1 {
        Ok(Some(ids[0]))
    } else {
        Ok(None)
    }
}

/// Whether an unfinished decision may be replayed: none is nothing to
/// replay, several make the authority ambiguous, and one may be replayed
/// only while no durable evidence (`evidence`, its count of provider
/// exchanges, observations and tool admissions) names it.  `evidence` is
/// read only when there is exactly one decision.
pub fn recover_or_reuse(decision_ids: &Vec<String>, evidence: i64) -> (r: Result<Option<String>, String>)
    ensures
        match (r, replay_spec(crate::text::views(decision_ids@), evidence)) {
            (Ok(Some(a)), Ok(Some(b))) => a@ == b,
            (Ok(None), Ok(None)) => true,
            (Err(a), Err(b)) => a@ == b,
            _ => false,
        },
{
    if decision_ids.len() > 1 {
        let mut e = owned("multiple pending decisions (");
        push_str(&mut e, u64_text(decision_ids.len() as u64).as_str());
        push_str(&mut e, ") make replay authority ambiguous; automatic replay blocked");
        return Err(e);
    }
    if decision_ids.len() == 1 {
        if evidence > 0 {
            let mut e = owned("pending decision ");
            push_str(&mut e, decision_ids[0].as_str());
            push_str(&mut e, " has ");
            push_str(&mut e, i64_text(evidence).as_str());
            push_str(&mut e, " durable evidence rows; automatic replay blocked");
            return Err(e);
        }
        return Ok(Some(owned(decision_ids[0].as_str())));
    }
    Ok(None)
}

pub open spec fn budget_spec(current: Option<u32>, shrinks: bool) -> Option<u32> {
    match current {
        Some(v) if shrinks => Some(if v / 2 > 128 { v / 2 } else { 128 }),
        _ => current,
    }
}

/// The model budget for the next attempt: halved, but not below 128
/// tokens, when the next strategy reduces the unit, narrows the output or
/// shrinks the prompt (`shrinks`); unchanged otherwise.
pub fn recovery_budget(current: Option<u32>, shrinks: bool) -> (r: Option<u32>)
    ensures
        r == budget_spec(current, shrinks),
{
    match current {
        Some(v) => if shrinks {
            let h = v / 2;
            Some(if h > 128 { h } else { 128 })
        } else {
            Some(v)
        },
        None => None,
    }
}

/// The prompt fingerprint of a decision: the one of its latest prompt
/// frame, or the native one made from its context frame fingerprint.
pub fn prompt_fingerprint(stored: Option<String>, context_fingerprint: &str) -> (r: String)
    ensures
        r@ == match stored {
            Some(s) => s@,
            None => "native:"@ + context_fingerprint@,
        },
{
    match stored {
        Some(s) => s,
        None => {
            let mut r = owned("native:");
            push_str(&mut r, context_fingerprint);
            r
        },
    }
}

/// The strategy named for the next attempt, or `owner-block` when none is left.
pub fn strategy_or_block(next: Option<String>) -> (r: String)
    ensures
        r@ == match next {
            Some(s) => s@,
            None => "owner-block"@,
        },
{
    match next {
        Some(s) => s,
        None => owned("owner-block"),
    }
}

/// Where a failure is recorded: the state cell's namespace, label and
/// payload schema, the operation that handles it (none once the retries
/// are exhausted), the owner's action, and the retry count.
pub struct FailureCell {
    pub namespace: String,
    pub label: String,
    pub schema: String,
    pub operation_key: Option<String>,
    pub owner_action: String,
    pub retry_count: u64,
}

pub open spec fn dashed(t: Seq<char>) -> Seq<char> {
    replace_from(t, ":"@, "-"@, 0)
}

pub open spec fn failure_cell_spec(
    class: Seq<char>,
    is_check: bool,
    tuple: Seq<char>,
    operation: Seq<char>,
    prior: u64,
    exhausted: bool,
) -> (Seq<char>, Seq<char>, Seq<char>, Option<Seq<char>>, Seq<char>, int) {
    (
        if exhausted { "completion"@ } else { "recovery"@ },
        if exhausted { "blocked"@ } else { class + "/"@ + dashed(tuple) + "/"@ + decimal((prior + 1) as nat) },
        if exhausted { "completion.blocked"@ } else { "recovery.failure"@ },
        if exhausted {
            None
        } else if is_check {
            Some("recovery.handle/check/"@ + dashed(tuple))
        } else {
            Some(operation)
        },
        if exhausted { "inspect preserved failure evidence and choose a changed condition"@ } else { ""@ },
        prior + 1,
    )
}

/// The state cell of a failure of fault class `class` (`is_check` for the
/// check class) under the recovery tuple fingerprint `tuple`, after
/// `prior` earlier failures with the same signature; `exhausted` when the
/// recovery plan has no retry left.
pub fn failure_cell(
    class: &str,
    is_check: bool,
    tuple: &str,
    operation: &str,
    prior: u64,
    exhausted: bool,
) -> (r: FailureCell)
    requires
        prior < u64::MAX,
    ensures
        failure_cell_spec(class@, is_check, tuple@, operation@, prior, exhausted) == (
            r.namespace@,
            r.label@,
            r.schema@,
            match r.operation_key {
                Some(k) => Some(k@),
                None => None::<Seq<char>>,
            },
            r.owner_action@,
            r.retry_count as int,
        ),
{
    let t = chars_of(tuple);
    let colon = chars_of(":");
    let dash = chars_of("-");
    proof {
        reveal_strlit(":");
        reveal_strlit("-");
    }
    let d = replace_exec(t.as_slice(), colon.as_slice(), dash.as_slice());
    let count = prior + 1;
    if exhausted {
        return FailureCell {
            namespace: owned("completion"),
            label: owned("blocked"),
            schema: owned("completion.blocked"),
            operation_key: None,
            owner_action: owned("inspect preserved failure evidence and choose a changed condition"),
            retry_count: count,
        };
    }
    let mut label = owned(class);
    push_str(&mut label, "/");
    push_chars(&mut label, d.as_slice());
    push_str(&mut label, "/");
    push_str(&mut label, u64_text(count).as_str());
    let key = if is_check {
        let mut k = owned("recovery.handle/check/");
        push_chars(&mut k, d.as_slice());
        k
    } else {
        owned(operation)
    };
    FailureCell {
        namespace: owned("recovery"),
        label,
        schema: owned("recovery.failure"),
        operation_key: Some(key),
        owner_action: owned(""),
        retry_count: count,
    }
}

} // verus!
