//! The files an exchange with the model leaves in the logs: the request
//! sent, the response (or error) received, and the timing (members in key
//! order, as `serde_json` writes maps).
use vstd::prelude::*;
use crate::config_registry::{json_quoted, json_string};
use crate::model_io::CompletionRecord;
use crate::number::{decimal, u64_text};
use crate::text::{join, owned, push_str};

verus! {

pub open spec fn json_opt_count(v: Option<u64>) -> Seq<char> {
    match v {
        Some(n) => decimal(n as nat),
        None => "null"@,
    }
}

fn opt_count(v: Option<u64>) -> (r: String)
    ensures
        r@ == json_opt_count(v),
{
    match v {
        Some(n) => u64_text(n),
        None => owned("null"),
    }
}

pub open spec fn json_opt_text(v: Option<String>) -> Seq<char> {
    match v {
        Some(t) => json_quoted(t@),
        None => "null"@,
    }
}

fn opt_text(v: &Option<String>) -> (r: String)
    ensures
        r@ == json_opt_text(*v),
{
    match v {
        Some(t) => json_string(t.as_str()),
        None => owned("null"),
    }
}

pub open spec fn u32_count(v: Option<u32>) -> Option<u64> {
    match v {
        Some(n) => Some(n as u64),
        None => None,
    }
}

pub open spec fn metric_items(metrics: Seq<(String, String)>) -> Seq<Seq<char>> {
    Seq::new(metrics.len(), |i: int| "["@ + json_quoted(metrics[i].0@) + ","@ + json_quoted(metrics[i].1@) + "]"@)
}

pub open spec fn quoted_list(items: Seq<String>) -> Seq<Seq<char>> {
    Seq::new(items.len(), |i: int| json_quoted(items[i]@))
}

/// The response file of a completed exchange.
pub open spec fn response_spec(r: CompletionRecord) -> Seq<char> {
    "{\"anomaly\":"@ + json_opt_text(r.anomaly) + ",\"cache_metrics\":["@ + join(metric_items(r.cache_metrics@), ","@)
        + "],\"closure_mode\":"@ + json_quoted(r.closure_mode@) + ",\"content\":"@ + json_quoted(r.content@)
        + ",\"finish_reason\":"@ + json_quoted(r.finish_reason@) + ",\"usage\":{\"cached_tokens\":"@
        + json_opt_count(u32_count(r.cached_tokens)) + ",\"completion_tokens\":"@
        + json_opt_count(u32_count(r.completion_tokens)) + ",\"prompt_tokens\":"@
        + json_opt_count(u32_count(r.prompt_tokens)) + "}}"@
}

fn widen(v: Option<u32>) -> (r: Option<u64>)
    ensures
        r == u32_count(v),
{
    match v {
        Some(n) => Some(n as u64),
        None => None,
    }
}

/// The response file of an exchange that returned a completion.
pub fn response_json(record: &CompletionRecord) -> (r: String)
    ensures
        r@ == response_spec(*record),
{
    let mut r = owned("{\"anomaly\":");
    push_str(&mut r, opt_text(&record.anomaly).as_str());
    push_str(&mut r, ",\"cache_metrics\":[");
    let ghost items = metric_items(record.cache_metrics@);
    let ghost start = r@;
    for i in 0..record.cache_metrics.len()
        invariant
            items == metric_items(record.cache_metrics@),
            r@ == start + join(items.take(i as int), ","@),
    {
        assert(items.take(i + 1).drop_last() == items.take(i as int));
        if i > 0 {
            push_str(&mut r, ",");
        }
        push_str(&mut r, "[");
        push_str(&mut r, json_string(record.cache_metrics[i].0.as_str()).as_str());
        push_str(&mut r, ",");
        push_str(&mut r, json_string(record.cache_metrics[i].1.as_str()).as_str());
        push_str(&mut r, "]");
        assert(items.take(i + 1).last() == items[i as int]);
    }
    assert(items.take(record.cache_metrics@.len() as int) == items);
    push_str(&mut r, "],\"closure_mode\":");
    push_str(&mut r, json_string(record.closure_mode.as_str()).as_str());
    push_str(&mut r, ",\"content\":");
    push_str(&mut r, json_string(record.content.as_str()).as_str());
    push_str(&mut r, ",\"finish_reason\":");
    push_str(&mut r, json_string(record.finish_reason.as_str()).as_str());
    push_str(&mut r, ",\"usage\":{\"cached_tokens\":");
    push_str(&mut r, opt_count(widen(record.cached_tokens)).as_str());
    push_str(&mut r, ",\"completion_tokens\":");
    push_str(&mut r, opt_count(widen(record.completion_tokens)).as_str());
    push_str(&mut r, ",\"prompt_tokens\":");
    push_str(&mut r, opt_count(widen(record.prompt_tokens)).as_str());
    push_str(&mut r, "}}");
    r
}

/// The response and outcome files of an exchange that failed at the endpoint.
pub fn error_files(error: &str) -> (r: (String, String))
    ensures
        r.0@ == "{\"error\":"@ + json_quoted(error@) + "}"@,
        r.1@ == "{\"diagnosis\":"@ + json_quoted(error@) + ",\"outcome\":\"endpoint_error\"}"@,
{
    let q = json_string(error);
    let mut response = owned("{\"error\":");
    push_str(&mut response, q.as_str());
    push_str(&mut response, "}");
    let mut outcome = owned("{\"diagnosis\":");
    push_str(&mut outcome, q.as_str());
    push_str(&mut outcome, ",\"outcome\":\"endpoint_error\"}");
    (response, outcome)
}

/// The timing file of an exchange: how long it took, and its timeout.
pub fn timing_json(duration_ms: u64, timeout_seconds: Option<u64>) -> (r: String)
    ensures
        r@ == "{\"duration_ms\":"@ + decimal(duration_ms as nat) + ",\"timeout_seconds\":"@
            + json_opt_count(timeout_seconds) + "}"@,
{
    let mut r = owned("{\"duration_ms\":");
    push_str(&mut r, u64_text(duration_ms).as_str());
    push_str(&mut r, ",\"timeout_seconds\":");
    push_str(&mut r, opt_count(timeout_seconds).as_str());
    push_str(&mut r, "}");
    r
}

/// What the request file of an exchange records.
pub struct ExchangeRequest {
    pub context_frame_fingerprint: String,
    pub decision_id: String,
    pub fingerprint: String,
    pub max_tokens: u64,
    pub stop: Vec<String>,
    pub system: String,
    pub timeout_seconds: Option<u64>,
    pub tool_view_fingerprint: String,
    pub user: String,
}

pub open spec fn request_spec(q: ExchangeRequest) -> Seq<char> {
    "{\"context_frame_fingerprint\":"@ + json_quoted(q.context_frame_fingerprint@) + ",\"decision_id\":"@
        + json_quoted(q.decision_id@) + ",\"fingerprint\":"@ + json_quoted(q.fingerprint@) + ",\"max_tokens\":"@
        + decimal(q.max_tokens as nat) + ",\"stop\":["@ + join(quoted_list(q.stop@), ","@) + "],\"system\":"@
        + json_quoted(q.system@) + ",\"timeout_seconds\":"@ + json_opt_count(q.timeout_seconds)
        + ",\"tool_view_fingerprint\":"@ + json_quoted(q.tool_view_fingerprint@) + ",\"user\":"@
        + json_quoted(q.user@) + "}"@
}

/// The request file of an exchange.
pub fn request_json(q: &ExchangeRequest) -> (r: String)
    ensures
        r@ == request_spec(*q),
{
    let mut r = owned("{\"context_frame_fingerprint\":");
    push_str(&mut r, json_string(q.context_frame_fingerprint.as_str()).as_str());
    push_str(&mut r, ",\"decision_id\":");
    push_str(&mut r, json_string(q.decision_id.as_str()).as_str());
    push_str(&mut r, ",\"fingerprint\":");
    push_str(&mut r, json_string(q.fingerprint.as_str()).as_str());
    push_str(&mut r, ",\"max_tokens\":");
    push_str(&mut r, u64_text(q.max_tokens).as_str());
    push_str(&mut r, ",\"stop\":[");
    let ghost items = quoted_list(q.stop@);
    let ghost start = r@;
    for i in 0..q.stop.len()
        invariant
            items == quoted_list(q.stop@),
            r@ == start + join(items.take(i as int), ","@),
    {
        assert(items.take(i + 1).drop_last() == items.take(i as int));
        if i > 0 {
            push_str(&mut r, ",");
        }
        push_str(&mut r, json_string(q.stop[i].as_str()).as_str());
        assert(items.take(i + 1).last() == items[i as int]);
    }
    assert(items.take(q.stop@.len() as int) == items);
    push_str(&mut r, "],\"system\":");
    push_str(&mut r, json_string(q.system.as_str()).as_str());
    push_str(&mut r, ",\"timeout_seconds\":");
    push_str(&mut r, opt_count(q.timeout_seconds).as_str());
    push_str(&mut r, ",\"tool_view_fingerprint\":");
    push_str(&mut r, json_string(q.tool_view_fingerprint.as_str()).as_str());
    push_str(&mut r, ",\"user\":");
    push_str(&mut r, json_string(q.user.as_str()).as_str());
    push_str(&mut r, "}");
    r
}

} // verus!
