//! Provider exchanges as the runtime records them: their ids, the payloads
//! of an exchange in flight and of interrupted decisions, and which failed
//! exchanges become recovery context.
use vstd::prelude::*;
use crate::config_registry::{json_quoted, json_string};
use crate::text::{chars_of, contains, contains_exec, join, owned, push_str, views};

verus! {

/// The contamination of a failed exchange's outcome kept as context.
#[derive(Clone, Copy, PartialEq, Eq, Structural)]
pub enum Contamination {
    /// The model's output failed to parse.
    FailedModelOutput,
    /// The endpoint failed; the outcome is only for recovery.
    RecoveryOnly,
}

pub open spec fn contamination_spec(outcome_json: Seq<char>) -> Option<Contamination> {
    if contains(outcome_json, "parse_fault"@) {
        Some(Contamination::FailedModelOutput)
    } else if contains(outcome_json, "endpoint_error"@) {
        Some(Contamination::RecoveryOnly)
    } else {
        None
    }
}

/// A parse fault or an endpoint error makes an exchange's outcome a
/// recovery context item; any other outcome does not.
pub fn contamination(outcome_json: &str) -> (r: Option<Contamination>)
    ensures
        r == contamination_spec(outcome_json@),
{
    let c = chars_of(outcome_json);
    let p = chars_of("parse_fault");
    let e = chars_of("endpoint_error");
    if contains_exec(c.as_slice(), p.as_slice()) {
        Some(Contamination::FailedModelOutput)
    } else if contains_exec(c.as_slice(), e.as_slice()) {
        Some(Contamination::RecoveryOnly)
    } else {
        None
    }
}

fn prefixed(prefix: &str, id: &str) -> (r: String)
    ensures
        r@ == prefix@ + id@,
{
    let mut r = owned(prefix);
    push_str(&mut r, id);
    r
}

/// The ids a decision's exchange is kept under: the exchange row, the
/// reference of an exchange still in flight, the context item of a failed
/// exchange and that item's semantic key.
pub fn exchange_ids(decision_id: &str) -> (r: (String, String, String, String))
    ensures
        r.0@ == "exchange-"@ + decision_id@,
        r.1@ == "unsettled-"@ + decision_id@,
        r.2@ == "context-exchange-"@ + decision_id@,
        r.3@ == "recovery/"@ + decision_id@,
{
    (
        prefixed("exchange-", decision_id),
        prefixed("unsettled-", decision_id),
        prefixed("context-exchange-", decision_id),
        prefixed("recovery/", decision_id),
    )
}

/// The outcome recorded while an exchange is being dispatched (members in
/// key order).
pub fn dispatching_outcome(prompt_fingerprint: &str) -> (r: String)
    ensures
        r@ == "{\"prompt_fingerprint\":"@ + json_quoted(prompt_fingerprint@) + ",\"state\":\"dispatching\"}"@,
{
    let mut r = owned("{\"prompt_fingerprint\":");
    push_str(&mut r, json_string(prompt_fingerprint).as_str());
    push_str(&mut r, ",\"state\":\"dispatching\"}");
    r
}

/// Where a decision's prompt frame is logged, relative to the data directory.
pub fn prompt_frame_path(case_id: &str, decision_id: &str) -> (r: String)
    ensures
        r@ == "logs/case-"@ + case_id@ + "/decision-"@ + decision_id@ + "/prompt-frame.json"@,
{
    let mut r = owned("logs/case-");
    push_str(&mut r, case_id);
    push_str(&mut r, "/decision-");
    push_str(&mut r, decision_id);
    push_str(&mut r, "/prompt-frame.json");
    r
}

pub open spec fn quoted_all(ids: Seq<Seq<char>>) -> Seq<Seq<char>> {
    Seq::new(ids.len(), |i: int| json_quoted(ids[i]))
}

/// The payload that blocks a matter whose provider calls were interrupted
/// (members in key order).
pub fn interrupted_payload(reason: &str, decision_ids: &Vec<String>) -> (r: String)
    ensures
        r@ == "{\"owner_action\":\"review the interrupted provider call and explicitly retry or replace the operation\",\"pending_decisions\":["@
            + join(quoted_all(views(decision_ids@)), ","@) + "],\"reason\":"@ + json_quoted(reason@) + "}"@,
{
    let mut r = owned("{\"owner_action\":\"review the interrupted provider call and explicitly retry or replace the operation\",\"pending_decisions\":[");
    let ghost all = quoted_all(views(decision_ids@));
    let ghost start = r@;
    for i in 0..decision_ids.len()
        invariant
            all == quoted_all(views(decision_ids@)),
            r@ == start + join(all.take(i as int), ","@),
    {
        assert(all.take(i + 1).drop_last() == all.take(i as int));
        if i > 0 {
            push_str(&mut r, ",");
        }
        push_str(&mut r, json_string(decision_ids[i].as_str()).as_str());
        assert(all.take(i + 1).last() == json_quoted(decision_ids@[i as int]@));
    }
    assert(all.take(decision_ids@.len() as int) == all);
    push_str(&mut r, "],\"reason\":");
    push_str(&mut r, json_string(reason).as_str());
    push_str(&mut r, "}");
    r
}

} // verus!
