//! The status lines about the daemon lease and token use.
use vstd::prelude::*;
use crate::daemon_lock::{opt_str, unix_seconds, unix_seconds_spec};
use crate::number::{i64_text, signed_decimal};
use crate::text::{owned, push_str};

verus! {

/// The lease is stale past 300 seconds without a heartbeat, active within
/// them, unknown when the heartbeat or the clock cannot be read.
pub open spec fn lease_state_spec(heartbeat: Seq<char>, now: Option<u64>) -> Seq<char> {
    match (unix_seconds_spec(heartbeat), now) {
        (Some(previous), Some(current)) => if current > previous && current - previous > 300 {
            "stale"@
        } else {
            "active"@
        },
        _ => "unknown"@,
    }
}

/// The state of the lease whose last heartbeat is `heartbeat`, at `now`
/// seconds since the epoch.
pub fn lease_state_at(heartbeat: &str, now: Option<u64>) -> (r: &'static str)
    ensures
        r@ == lease_state_spec(heartbeat@, now),
{
    let previous = match unix_seconds(heartbeat) {
        None => return "unknown",
        Some(p) => p,
    };
    let current = match now {
        None => return "unknown",
        Some(c) => c,
    };
    if current.saturating_sub(previous) > 300 {
        "stale"
    } else {
        "active"
    }
}

/// Seconds since the epoch by the system clock, when it reads after the epoch.
#[verifier::external_body]
fn now_seconds() -> (r: Option<u64>) {
    std::time::SystemTime::now().duration_since(std::time::UNIX_EPOCH).ok().map(
        |duration| duration.as_secs(),
    )
}

/// The state of the lease now; what the clock reads decides between the
/// outcomes of `lease_state_at`.
pub fn lease_state(heartbeat: &str) -> (r: &'static str)
    ensures
        exists|now: Option<u64>| r@ == lease_state_spec(heartbeat@, now),
{
    let now = now_seconds();
    lease_state_at(heartbeat, now)
}

pub open spec fn or_unknown(v: Option<Seq<char>>) -> Seq<char> {
    match v {
        Some(s) => s,
        None => "unknown"@,
    }
}

pub open spec fn lease_line_spec(owner: Option<Seq<char>>, heartbeat: Option<Seq<char>>, now: Option<u64>) -> Seq<char> {
    "lease: "@ + lease_state_spec(or_unknown(heartbeat), now) + " owner="@ + or_unknown(owner)
        + " heartbeat="@ + or_unknown(heartbeat)
}

fn or_unknown_text(v: &Option<String>) -> (r: String)
    ensures
        r@ == or_unknown(opt_str(*v)),
{
    match v {
        Some(s) => s.clone(),
        None => owned("unknown"),
    }
}

/// `lease: STATE owner=OWNER heartbeat=HEARTBEAT` from the values read from
/// the store (absent ones shown as `unknown`).
pub fn lease_line(owner: &Option<String>, heartbeat: &Option<String>, now: Option<u64>) -> (r: String)
    ensures
        r@ == lease_line_spec(opt_str(*owner), opt_str(*heartbeat), now),
{
    let o = or_unknown_text(owner);
    let h = or_unknown_text(heartbeat);
    let state = lease_state_at(h.as_str(), now);
    let mut r = owned("lease: ");
    push_str(&mut r, state);
    push_str(&mut r, " owner=");
    push_str(&mut r, o.as_str());
    push_str(&mut r, " heartbeat=");
    push_str(&mut r, h.as_str());
    r
}

/// Sums over the recorded token usage; a sum is `None` where no row had a value.
pub struct TokenRow {
    pub total: Option<i64>,
    pub cached: Option<i64>,
    pub uncached: Option<i64>,
    pub output: Option<i64>,
    pub known: i64,
    pub unknown: i64,
    pub provider: i64,
    pub unsupported: i64,
}

pub open spec fn fmt_token_spec(value: Option<i64>) -> Seq<char> {
    match value {
        Some(v) => signed_decimal(v as int),
        None => "unknown"@,
    }
}

/// A token count, or `unknown`.
pub fn fmt_token(value: Option<i64>) -> (r: String)
    ensures
        r@ == fmt_token_spec(value),
{
    match value {
        Some(v) => i64_text(v),
        None => owned("unknown"),
    }
}

pub open spec fn cache_label_spec(known: i64, unknown: i64, provider: i64, unsupported: i64) -> Seq<char> {
    if provider > 0 {
        "provider_specific"@
    } else if unsupported > 0 {
        "not_supported"@
    } else if unknown > 0 || known == 0 {
        "unknown"@
    } else {
        "known"@
    }
}

/// What is known of prompt caching across the exchanges: provider-specific
/// metrics win, then unsupported, then unknown; known only when every
/// exchange reported it.
pub fn cache_label(known: i64, unknown: i64, provider: i64, unsupported: i64) -> (r: &'static str)
    ensures
        r@ == cache_label_spec(known, unknown, provider, unsupported),
{
    if provider > 0 {
        "provider_specific"
    } else if unsupported > 0 {
        "not_supported"
    } else if unknown > 0 || known == 0 {
        "unknown"
    } else {
        "known"
    }
}

pub open spec fn token_text_spec(count: i64, row: TokenRow) -> Seq<char> {
    if count == 0 {
        "unknown"@
    } else {
        "input_uncached="@ + fmt_token_spec(row.uncached) + " input_cached="@ + fmt_token_spec(
            row.cached,
        ) + " input_total="@ + fmt_token_spec(row.total) + " output="@ + fmt_token_spec(row.output)
            + " cache="@ + cache_label_spec(row.known, row.unknown, row.provider, row.unsupported)
    }
}

/// The token line: `unknown` with no usage recorded, else the sums and the
/// cache label.
pub fn token_text(count: i64, row: &TokenRow) -> (r: String)
    ensures
        r@ == token_text_spec(count, *row),
{
    if count == 0 {
        return owned("unknown");
    }
    let mut r = owned("input_uncached=");
    push_str(&mut r, fmt_token(row.uncached).as_str());
    push_str(&mut r, " input_cached=");
    push_str(&mut r, fmt_token(row.cached).as_str());
    push_str(&mut r, " input_total=");
    push_str(&mut r, fmt_token(row.total).as_str());
    push_str(&mut r, " output=");
    push_str(&mut r, fmt_token(row.output).as_str());
    push_str(&mut r, " cache=");
    push_str(&mut r, cache_label(row.known, row.unknown, row.provider, row.unsupported));
    r
}

} // verus!
