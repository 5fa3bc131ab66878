//! Progress bookkeeping: when a matter has stopped making progress, and
//! which state cell records that.
use vstd::prelude::*;
use crate::number::{int_error_message, int_error_text, parse_unsigned, parse_unsigned_spec};
use crate::text::{chars_of, owned, push_str, starts_with, starts_with_exec, str_eq};

verus! {

pub open spec fn repeated_spec(values: Seq<Seq<char>>, fingerprint: Seq<char>, window: u64) -> bool {
    values.len() == window && forall|i: int| 0 <= i < values.len() ==> values[i] == fingerprint
}

/// The latest progress fingerprints (newest first, at most `window` of
/// them) show no progress: there are `window` of them and all equal the
/// current one.
pub fn repeated(values: &Vec<String>, fingerprint: &str, window: u64) -> (r: bool)
    ensures
        r == repeated_spec(crate::text::views(values@), fingerprint@, window),
{
    if values.len() as u64 != window {
        return false;
    }
    for i in 0..values.len()
        invariant
            values@.len() == window,
            forall|j: int| 0 <= j < i ==> values@[j]@ == fingerprint@,
    {
        if !str_eq(values[i].as_str(), fingerprint) {
            assert(crate::text::views(values@)[i as int] != fingerprint@);
            return false;
        }
    }
    true
}

/// The state cell that records a run without progress.
pub struct NoProgressCell {
    pub namespace: String,
    pub label: String,
    pub schema: String,
    /// The operation that handles it; none when the owner must decide.
    pub operation_key: Option<String>,
    pub recovery_policy: String,
    pub selector_tier: u64,
    pub wake_condition: String,
    pub owner_action: String,
    pub repetition: u64,
}

pub open spec fn is_suspend(strategy: Option<&str>) -> bool {
    strategy matches Some(s) && s@ == "suspend"@
}

pub open spec fn handling_operation(strategy: Option<&str>, operation: Seq<char>) -> Seq<char> {
    if is_suspend(strategy) {
        "runtime.wait"@
    } else if starts_with(operation, "check.run/"@) {
        "recovery.handle/no-progress"@
    } else {
        operation
    }
}

/// The cell for the `prior + 1`-th run without progress of decision
/// `decision_id` on `operation`, when the no-progress plan names
/// `strategy` next (none: the owner must decide).
pub fn no_progress_cell(strategy: Option<&str>, operation: &str, decision_id: &str, prior: u64) -> (r: NoProgressCell)
    requires
        prior < u64::MAX,
    ensures
        r.namespace@ == if strategy is Some { "recovery"@ } else { "completion"@ },
        r.label@ == if strategy is Some { "no-progress/"@ + decision_id@ } else { "blocked"@ },
        r.schema@ == if strategy is Some { "recovery.no-progress"@ } else { "completion.blocked"@ },
        match r.operation_key {
            Some(k) => strategy is Some && k@ == handling_operation(strategy, operation@),
            None => strategy is None,
        },
        r.recovery_policy@ == match strategy {
            Some(s) => s@,
            None => "owner-block"@,
        },
        r.selector_tier == if is_suspend(strategy) { 45u64 } else { 80u64 },
        r.wake_condition@ == if is_suspend(strategy) { "owner input or changed evidence"@ } else { ""@ },
        r.owner_action@ == if strategy is None { "change the goal, evidence, or operation strategy"@ } else { ""@ },
        r.repetition == prior + 1,
{
    let suspend = match strategy {
        Some(s) => str_eq(s, "suspend"),
        None => false,
    };
    let c = chars_of(operation);
    let p = chars_of("check.run/");
    let handler = if suspend {
        owned("runtime.wait")
    } else if starts_with_exec(c.as_slice(), p.as_slice()) {
        owned("recovery.handle/no-progress")
    } else {
        owned(operation)
    };
    let wake = if suspend { owned("owner input or changed evidence") } else { owned("") };
    let tier: u64 = if suspend { 45 } else { 80 };
    match strategy {
        Some(s) => {
            let mut label = owned("no-progress/");
            push_str(&mut label, decision_id);
            NoProgressCell {
                namespace: owned("recovery"),
                label,
                schema: owned("recovery.no-progress"),
                operation_key: Some(handler),
                recovery_policy: owned(s),
                selector_tier: tier,
                wake_condition: wake,
                owner_action: owned(""),
                repetition: prior + 1,
            }
        },
        None => NoProgressCell {
            namespace: owned("completion"),
            label: owned("blocked"),
            schema: owned("completion.blocked"),
            operation_key: None,
            recovery_policy: owned("owner-block"),
            selector_tier: tier,
            wake_condition: wake,
            owner_action: owned("change the goal, evidence, or operation strategy"),
            repetition: prior + 1,
        },
    }
}

/// A numeric setting read from its stored text (`str::parse::<u64>`).
pub fn config_number(value: &str) -> (r: Result<u64, String>)
    ensures
        match (r, parse_unsigned_spec(value@, u64::MAX as nat)) {
            (Ok(v), Ok(w)) => v as nat == w,
            (Err(e), Err(k)) => e@ == int_error_text(k),
            _ => false,
        },
{
    match parse_unsigned(value, u64::MAX) {
        Ok(v) => Ok(v),
        Err(e) => Err(int_error_message(e)),
    }
}

} // verus!
