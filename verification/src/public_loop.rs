//! The public loop: how an owner message is filed, the receipt it gets,
//! and the checks on a model's final wording.
use vstd::prelude::*;
use crate::digest::{id, id_spec};
use crate::memory_context::contains_any_exec;
use crate::number::{i64_text, signed_decimal};
use crate::text::{chars_of, contains, contains_any, lower, lower_exec, owned, push_str};

verus! {

/// The receipt of a sent message.
#[derive(Clone, Debug, PartialEq, Eq)]
pub struct SendReceipt {
    pub message_id: String,
    pub output: String,
}

pub open spec fn future_claims() -> Seq<Seq<char>> {
    seq![
        "i will "@,
        "will update"@,
        "will create"@,
        "going to "@,
        "ready to "@,
        "command ran"@,
        "command passed"@,
        "tests passed"@,
        "test suite passed"@,
    ]
}

pub open spec fn final_claims_allowed_spec(body: Seq<char>) -> bool {
    !contains_any(lower(body), future_claims())
}

/// A final message may not promise future work or claim commands or tests
/// that the harness did not run.
pub fn final_claims_allowed(body: &str) -> (r: bool)
    ensures
        r == final_claims_allowed_spec(body@),
{
    let c = chars_of(body);
    let l = lower_exec(c.as_slice());
    let claims: Vec<&str> = vec![
        "i will ",
        "will update",
        "will create",
        "going to ",
        "ready to ",
        "command ran",
        "command passed",
        "tests passed",
        "test suite passed",
    ];
    let any = contains_any_exec(l.as_slice(), &claims);
    proof {
        let ws = future_claims();
        assert(ws.len() == claims@.len());
        assert forall|k: int| 0 <= k < ws.len() implies ws[k] == (#[trigger] claims@[k])@ by {}
        if any {
            let k = choose|k: int| 0 <= k < claims@.len() && contains(l@, (#[trigger] claims@[k])@);
            assert(contains(l@, ws[k]));
        }
        if contains_any(l@, ws) {
            let k = choose|k: int| 0 <= k < ws.len() && contains(l@, #[trigger] ws[k]);
            assert(contains(l@, claims@[k]@));
        }
    }
    !any
}

/// At most the first `n` bytes.
pub fn bounded(v: &[u8], n: usize) -> (r: Vec<u8>)
    ensures
        r@ == v@.take(if v@.len() < n { v@.len() as int } else { n as int }),
{
    let end = if v.len() < n { v.len() } else { n };
    let mut r: Vec<u8> = Vec::new();
    for i in 0..end
        invariant
            end <= v@.len(),
            r@ == v@.take(i as int),
    {
        r.push(v[i]);
        assert(v@.take(i + 1) == v@.take(i as int).push(v@[i as int]));
    }
    r
}

/// The identifiers under which an owner message is filed.
pub struct IntakePlan {
    pub matter: String,
    pub turn: String,
    pub event: String,
    pub resumed: bool,
}

/// `{queue}:{text}` as UTF-8: the seed of the matter and turn ids.
pub open spec fn seed_spec(queue: i64, text: Seq<char>) -> Seq<char> {
    signed_decimal(queue as int) + ":"@ + text
}

pub open spec fn utf8(s: Seq<char>) -> Seq<u8> {
    vstd::utf8::encode_utf8(s)
}

/// Filing a message: it resumes the blocked matter unless a new matter is
/// forced or none is blocked; ids derive from the queue sequence and text.
pub open spec fn intake_spec(queue: i64, text: Seq<char>, force_new: bool, blocked: Option<Seq<char>>) -> (Seq<char>, Seq<char>, Seq<char>, bool) {
    let seed = utf8(seed_spec(queue, text));
    let b = if force_new { None } else { blocked };
    let resumed = b is Some;
    let matter = match b {
        Some(m) => m,
        None => id_spec("matter"@, seed),
    };
    let turn = id_spec("turn"@, seed);
    let event = id_spec(if resumed { "resume"@ } else { "intake"@ }, utf8(turn));
    (matter, turn, event, resumed)
}

/// The matter, turn and event ids under which a message is filed.
pub fn intake_plan(queue: i64, text: &str, force_new: bool, blocked: Option<String>) -> (r: IntakePlan)
    ensures
        (r.matter@, r.turn@, r.event@, r.resumed) == intake_spec(queue, text@, force_new, match blocked {
            Some(b) => Some(b@),
            None => None,
        }),
{
    let mut seed = i64_text(queue);
    push_str(&mut seed, ":");
    push_str(&mut seed, text);
    let seed_bytes = seed.as_str().as_bytes();
    let b = if force_new { None } else { blocked };
    let resumed = b.is_some();
    let matter = match b {
        Some(m) => m,
        None => id("matter", seed_bytes),
    };
    let turn = id("turn", seed_bytes);
    let event = id(if resumed { "resume" } else { "intake" }, turn.as_str().as_bytes());
    IntakePlan { matter, turn, event, resumed }
}

pub open spec fn bool_word(b: bool) -> Seq<char> {
    if b {
        "true"@
    } else {
        "false"@
    }
}

/// The line printed once a message is filed.
pub fn receipt_output(plan: &IntakePlan, message_id: &str, sequence: i64, force_new: bool) -> (r: String)
    ensures
        r@ == "send: matter="@ + plan.matter@ + " turn="@ + plan.turn@ + " message="@ + message_id@
            + " sequence="@ + signed_decimal(sequence as int) + " new="@ + bool_word(
            force_new || !plan.resumed,
        ) + " resumed="@ + bool_word(plan.resumed),
{
    let mut r = owned("send: matter=");
    push_str(&mut r, plan.matter.as_str());
    push_str(&mut r, " turn=");
    push_str(&mut r, plan.turn.as_str());
    push_str(&mut r, " message=");
    push_str(&mut r, message_id);
    push_str(&mut r, " sequence=");
    push_str(&mut r, i64_text(sequence).as_str());
    push_str(&mut r, " new=");
    push_str(&mut r, if force_new || !plan.resumed { "true" } else { "false" });
    push_str(&mut r, " resumed=");
    push_str(&mut r, if plan.resumed { "true" } else { "false" });
    r
}

/// Model calls a matter may make in one budget epoch.
pub const MODEL_CALL_LIMIT: i64 = 64;
/// Tokens a matter may spend in one budget epoch.
pub const TOKEN_BUDGET_LIMIT: i64 = 1_048_576;
/// Recovery cost a matter may incur in one budget epoch.
pub const RECOVERY_COST_LIMIT: i64 = 16;
/// Active milliseconds a matter may run in one budget epoch.
pub const ACTIVE_MILLISECONDS_LIMIT: i64 = 900_000;

/// A budget that a matter has used up: which one, how much was used, its
/// limit, and the exchanges whose token use is unknown.
#[derive(Debug, PartialEq, Eq)]
pub struct BudgetBlock {
    pub dimension: String,
    pub used: i64,
    pub limit: i64,
    pub unknown: i64,
}

pub open spec fn block_spec(calls: i64, tokens: i64, unknown: i64, recovery: i64, active: i64) -> Option<(Seq<char>, i64, i64, i64)> {
    if calls >= 64 {
        Some(("model-calls"@, calls, 64, 0))
    } else if tokens >= 1_048_576 {
        Some(("tokens"@, tokens, 1_048_576, unknown))
    } else if recovery >= 16 {
        Some(("recovery-cost"@, recovery, 16, 0))
    } else if active >= 900_000 {
        Some(("active-milliseconds"@, active, 900_000, 0))
    } else {
        None
    }
}

/// The first budget of the epoch that is used up, checked in the order
/// model calls, tokens, recovery cost, active time; `None` while all last.
pub fn budget_block(calls: i64, tokens: i64, unknown: i64, recovery: i64, active: i64) -> (r: Option<BudgetBlock>)
    ensures
        match r {
            Some(b) => block_spec(calls, tokens, unknown, recovery, active) == Some((b.dimension@, b.used, b.limit, b.unknown)),
            None => block_spec(calls, tokens, unknown, recovery, active) is None,
        },
{
    if calls >= MODEL_CALL_LIMIT {
        Some(BudgetBlock { dimension: owned("model-calls"), used: calls, limit: MODEL_CALL_LIMIT, unknown: 0 })
    } else if tokens >= TOKEN_BUDGET_LIMIT {
        Some(BudgetBlock { dimension: owned("tokens"), used: tokens, limit: TOKEN_BUDGET_LIMIT, unknown })
    } else if recovery >= RECOVERY_COST_LIMIT {
        Some(BudgetBlock { dimension: owned("recovery-cost"), used: recovery, limit: RECOVERY_COST_LIMIT, unknown: 0 })
    } else if active >= ACTIVE_MILLISECONDS_LIMIT {
        Some(BudgetBlock { dimension: owned("active-milliseconds"), used: active, limit: ACTIVE_MILLISECONDS_LIMIT, unknown: 0 })
    } else {
        None
    }
}

pub open spec fn exhausted_spec(matter: Seq<char>, dimension: Seq<char>, used: i64, limit: i64) -> Seq<char> {
    "blocked: matter "@ + matter + " exhausted "@ + (if dimension == "model-calls"@ {
        "model-call"@
    } else {
        dimension
    }) + " budget "@ + signed_decimal(used as int) + "/"@ + signed_decimal(limit as int)
}

/// The refusal once a budget is used up.
pub fn exhausted_message(matter: &str, dimension: &str, used: i64, limit: i64) -> (r: String)
    ensures
        r@ == exhausted_spec(matter@, dimension@, used, limit),
{
    let mut r = owned("blocked: matter ");
    push_str(&mut r, matter);
    push_str(&mut r, " exhausted ");
    push_str(&mut r, if crate::text::str_eq(dimension, "model-calls") { "model-call" } else { dimension });
    push_str(&mut r, " budget ");
    push_str(&mut r, i64_text(used).as_str());
    push_str(&mut r, "/");
    push_str(&mut r, i64_text(limit).as_str());
    r
}

/// `path@revision` for each checked file, joined by `, `.
pub open spec fn checked_facts(checked: Seq<(Seq<char>, Seq<char>)>) -> Seq<char> {
    crate::text::join(Seq::new(checked.len(), |i: int| checked[i].0 + "@"@ + checked[i].1), ", "@)
}

/// The closing message of a matter: its trimmed body, then the files the
/// harness checked.
pub fn close_body(body: &str, checked: &Vec<(String, String)>) -> (r: String)
    ensures
        r@ == crate::text::trim(body@) + "\nChecked: "@ + checked_facts(
            Seq::new(checked@.len(), |i: int| (checked@[i].0@, checked@[i].1@)),
        ),
{
    let ghost all = Seq::new(checked@.len(), |i: int| (checked@[i].0@, checked@[i].1@));
    let ghost items = Seq::new(all.len(), |i: int| all[i].0 + "@"@ + all[i].1);
    let mut facts = String::new();
    for i in 0..checked.len()
        invariant
            all == Seq::new(checked@.len(), |i: int| (checked@[i].0@, checked@[i].1@)),
            items == Seq::new(all.len(), |i: int| all[i].0 + "@"@ + all[i].1),
            facts@ == crate::text::join(items.take(i as int), ", "@),
    {
        assert(items.take(i + 1).drop_last() == items.take(i as int));
        if i > 0 {
            push_str(&mut facts, ", ");
        }
        push_str(&mut facts, checked[i].0.as_str());
        push_str(&mut facts, "@");
        push_str(&mut facts, checked[i].1.as_str());
        assert(items.take(i + 1).last() == items[i as int]);
    }
    assert(items.take(checked@.len() as int) == items);
    let b = chars_of(body);
    let t = crate::text::trim_exec(b.as_slice());
    let mut r = String::new();
    crate::text::push_chars(&mut r, t.as_slice());
    push_str(&mut r, "\nChecked: ");
    push_str(&mut r, facts.as_str());
    r
}

/// The payload of a budget block (members in key order).
pub fn block_payload(dimension: &str, used: i64, limit: i64, unknown: i64) -> (r: String)
    ensures
        r@ == "{\"dimension\":"@ + crate::config_registry::json_quoted(dimension@) + ",\"limit\":"@
            + signed_decimal(limit as int) + ",\"schema\":\"matter-budget-block.v1\",\"unknown_usage_exchanges\":"@
            + signed_decimal(unknown as int) + ",\"used\":"@ + signed_decimal(used as int) + "}"@,
{
    let mut r = owned("{\"dimension\":");
    push_str(&mut r, crate::config_registry::json_string(dimension).as_str());
    push_str(&mut r, ",\"limit\":");
    push_str(&mut r, i64_text(limit).as_str());
    push_str(&mut r, ",\"schema\":\"matter-budget-block.v1\",\"unknown_usage_exchanges\":");
    push_str(&mut r, i64_text(unknown).as_str());
    push_str(&mut r, ",\"used\":");
    push_str(&mut r, i64_text(used).as_str());
    push_str(&mut r, "}");
    r
}

/// Why a run stops before selecting a decision: a blocked matter, or an
/// effect or decision left unfinished (its id and status).
pub fn blocked_matter(matter: &str) -> (r: String)
    ensures
        r@ == "blocked: matter "@ + matter@ + " requires owner or config change"@,
{
    let mut r = owned("blocked: matter ");
    push_str(&mut r, matter);
    push_str(&mut r, " requires owner or config change");
    r
}

/// The refusal while an effect (`what` is `effect`) or a decision (`what`
/// is `decision`) is unfinished.
pub fn unfinished(what: &str, id: &str, status: &str) -> (r: String)
    ensures
        r@ == "blocked: unfinished "@ + what@ + " "@ + id@ + ":"@ + status@,
{
    let mut r = owned("blocked: unfinished ");
    push_str(&mut r, what);
    push_str(&mut r, " ");
    push_str(&mut r, id);
    push_str(&mut r, ":");
    push_str(&mut r, status);
    r
}

/// An endpoint failure as the exchange records it: whether the model hit
/// its output limit, and the detail kept.
pub fn endpoint_failure(error: &str) -> (r: (bool, String))
    ensures
        r.0 == (error@ == "endpoint completion hit max tokens"@
            || crate::text::starts_with(error@, "endpoint failure: response exceeds "@)),
        r.1@ == if r.0 { "output-limit"@ } else { error@ },
{
    let c = chars_of(error);
    let p = chars_of("endpoint failure: response exceeds ");
    let limited = crate::text::str_eq(error, "endpoint completion hit max tokens")
        || crate::text::starts_with_exec(c.as_slice(), p.as_slice());
    (limited, if limited { owned("output-limit") } else { owned(error) })
}

/// A completion that stopped at its length limit.
pub fn output_limited(finish_reason: &str) -> (r: bool)
    ensures
        r == (finish_reason@ == "Length"@),
{
    crate::text::str_eq(finish_reason, "Length")
}

/// The kind of fault a model output that does not parse is recorded as.
#[derive(Clone, Copy, PartialEq, Eq, Structural)]
pub enum OutputFault {
    /// The output names a tool the decision does not show.
    Hidden,
    Malformed,
}

/// An output naming an unknown tool is a hidden-tool fault; any other
/// parse failure is malformed output.
pub fn parse_fault_kind(debug: &str) -> (r: OutputFault)
    ensures
        r == if contains(debug@, "UnknownTool"@) { OutputFault::Hidden } else { OutputFault::Malformed },
{
    let c = chars_of(debug);
    let p = chars_of("UnknownTool");
    if crate::text::contains_exec(c.as_slice(), p.as_slice()) {
        OutputFault::Hidden
    } else {
        OutputFault::Malformed
    }
}

/// The phase of a selected decision.
#[derive(Clone, Copy, PartialEq, Eq, Structural)]
pub enum Phase {
    Orient,
    Modify,
    Respond,
    /// Any later phase.
    Other,
}

pub open spec fn first_recovery(cells: Seq<(Seq<char>, Seq<char>)>) -> Option<Seq<char>>
    decreases cells.len(),
{
    if cells.len() == 0 {
        None
    } else if cells[0].0 == "recovery"@ {
        Some(cells[0].1)
    } else {
        first_recovery(cells.drop_first())
    }
}

pub open spec fn selected_key_spec(phase: Phase, operation: Seq<char>, cells: Seq<(Seq<char>, Seq<char>)>) -> Seq<char> {
    match phase {
        Phase::Orient => "matter:opened"@,
        Phase::Modify => if crate::text::starts_with(operation, "modify.report"@) {
            "report:pending"@
        } else {
            match first_recovery(cells) {
                Some(name) => "recovery:"@ + name,
                None => "source:current"@,
            }
        },
        Phase::Respond => "check:current-passed"@,
        Phase::Other => "edit:committed"@,
    }
}

/// The state key a decision is selected on: the matter's opening, the
/// pending report, the first recovery cell (`cells` are the matter's state
/// keys as namespace and name, in order) or the current source, the
/// current check, or the committed edit.
pub fn selected_state_key(phase: Phase, operation: &str, cells: &Vec<(String, String)>) -> (r: String)
    ensures
        r@ == selected_key_spec(phase, operation@, Seq::new(cells@.len(), |i: int| (cells@[i].0@, cells@[i].1@))),
{
    match phase {
        Phase::Orient => owned("matter:opened"),
        Phase::Modify => {
            let c = chars_of(operation);
            let p = chars_of("modify.report");
            if crate::text::starts_with_exec(c.as_slice(), p.as_slice()) {
                return owned("report:pending");
            }
            let ghost all = Seq::new(cells@.len(), |i: int| (cells@[i].0@, cells@[i].1@));
            assert(all.skip(0) == all);
            for i in 0..cells.len()
                invariant
                    all == Seq::new(cells@.len(), |i: int| (cells@[i].0@, cells@[i].1@)),
                    phase == Phase::Modify,
                    !crate::text::starts_with(operation@, "modify.report"@),
                    first_recovery(all) == first_recovery(all.skip(i as int)),
            {
                assert(all.skip(i as int).drop_first() == all.skip(i + 1));
                if crate::text::str_eq(cells[i].0.as_str(), "recovery") {
                    let mut r = owned("recovery:");
                    push_str(&mut r, cells[i].1.as_str());
                    return r;
                }
            }
            owned("source:current")
        },
        Phase::Respond => owned("check:current-passed"),
        Phase::Other => owned("edit:committed"),
    }
}

/// The trust class of a context item.
#[derive(Clone, Copy, PartialEq, Eq, Structural)]
pub enum Trust {
    Owner,
    Memory,
    Measured,
    External,
    Model,
    /// Any other class.
    Tool,
}

/// The trust label stored with a context reference.
pub fn trust_label(trust: Trust) -> (r: &'static str)
    ensures
        r@ == match trust {
            Trust::Owner | Trust::Memory => "owner"@,
            Trust::Measured => "workspace"@,
            Trust::External | Trust::Model => "provider"@,
            Trust::Tool => "tool"@,
        },
{
    match trust {
        Trust::Owner | Trust::Memory => "owner",
        Trust::Measured => "workspace",
        Trust::External | Trust::Model => "provider",
        Trust::Tool => "tool",
    }
}

/// What an admitted action does, by its effect key.
#[derive(Clone, Copy, PartialEq, Eq, Structural)]
pub enum EffectRoute {
    Record,
    Read,
    List,
    Search,
    Edit,
}

/// The route of an admitted effect key; any other key is refused.
pub fn effect_route(key: &str) -> (r: Result<EffectRoute, String>)
    ensures
        match r {
            Ok(route) => route == if key@ == "workspace.record"@ {
                EffectRoute::Record
            } else if key@ == "workspace.read"@ {
                EffectRoute::Read
            } else if key@ == "workspace.list"@ {
                EffectRoute::List
            } else if key@ == "workspace.search"@ {
                EffectRoute::Search
            } else {
                EffectRoute::Edit
            } && (key@ == "workspace.record"@ || key@ == "workspace.read"@ || key@ == "workspace.list"@
                || key@ == "workspace.search"@ || key@ == "workspace.edit"@ || key@ == "workspace.create"@),
            Err(e) => !(key@ == "workspace.record"@ || key@ == "workspace.read"@ || key@ == "workspace.list"@
                || key@ == "workspace.search"@ || key@ == "workspace.edit"@ || key@ == "workspace.create"@)
                && e@ == "blocked: persisted effect key "@ + key@,
        },
{
    if crate::text::str_eq(key, "workspace.record") {
        Ok(EffectRoute::Record)
    } else if crate::text::str_eq(key, "workspace.read") {
        Ok(EffectRoute::Read)
    } else if crate::text::str_eq(key, "workspace.list") {
        Ok(EffectRoute::List)
    } else if crate::text::str_eq(key, "workspace.search") {
        Ok(EffectRoute::Search)
    } else if crate::text::str_eq(key, "workspace.edit") || crate::text::str_eq(key, "workspace.create") {
        Ok(EffectRoute::Edit)
    } else {
        let mut e = owned("blocked: persisted effect key ");
        push_str(&mut e, key);
        Err(e)
    }
}

/// A paging parameter: its value when it reads as a count, else the default.
pub fn page_param(value: Option<&str>, default: usize) -> (r: usize)
    ensures
        r == match value {
            Some(v) => match crate::number::parse_unsigned_spec(v@, usize::MAX as nat) {
                Ok(n) => n as usize,
                Err(_) => default,
            },
            None => default,
        },
{
    match value {
        Some(v) => match crate::number::parse_unsigned(v, usize::MAX as u64) {
            Ok(n) => n as usize,
            Err(_) => default,
        },
        None => default,
    }
}

/// The answer of a settled direct action.
pub fn settled_message(decision: &str, observation: &str) -> (r: String)
    ensures
        r@ == "settled: decision="@ + decision@ + " observation="@ + observation@,
{
    let mut r = owned("settled: decision=");
    push_str(&mut r, decision);
    push_str(&mut r, " observation=");
    push_str(&mut r, observation);
    r
}

/// The answer of a closed matter.
pub fn closed_message(matter: &str, decision: &str, message: &str, sequence: i64) -> (r: String)
    ensures
        r@ == "closed: matter="@ + matter@ + " decision="@ + decision@ + " message="@ + message@
            + " sequence="@ + signed_decimal(sequence as int),
{
    let mut r = owned("closed: matter=");
    push_str(&mut r, matter);
    push_str(&mut r, " decision=");
    push_str(&mut r, decision);
    push_str(&mut r, " message=");
    push_str(&mut r, message);
    push_str(&mut r, " sequence=");
    push_str(&mut r, i64_text(sequence).as_str());
    r
}

/// The answer of a recorded model fault.
pub fn fault_message(decision: &str, event: &str) -> (r: String)
    ensures
        r@ == "fault: decision="@ + decision@ + " event="@ + event@,
{
    let mut r = owned("fault: decision=");
    push_str(&mut r, decision);
    push_str(&mut r, " event=");
    push_str(&mut r, event);
    r
}

/// What `status` reports: the roots, the matters, the unfinished work of
/// the current matter, and the latest conversation messages.
pub struct StatusFacts {
    pub data_dir: String,
    pub workspace: String,
    pub matters: i64,
    pub closed: i64,
    /// The current matter's id and lifecycle, if there is one.
    pub active: Option<(String, String)>,
    pub decisions: u64,
    pub exchanges: u64,
    pub effects: u64,
    pub checks_ready: i64,
    /// The messages as sequence, role and id.
    pub messages: Vec<(i64, String, String)>,
}

pub open spec fn message_item(m: (i64, String, String)) -> Seq<char> {
    signed_decimal(m.0 as int) + ":"@ + m.1@ + ":"@ + m.2@
}

pub open spec fn status_spec(f: StatusFacts) -> Seq<char> {
    "roots: data="@ + f.data_dir@ + " workspace="@ + f.workspace@
        + "\nmatters: total="@ + signed_decimal(f.matters as int) + " closed="@ + signed_decimal(f.closed as int)
        + " active="@ + (match f.active { Some(a) => a.0@, None => "none"@ })
        + " lifecycle="@ + (match f.active { Some(a) => a.1@, None => "none"@ })
        + "\nunfinished: decisions="@ + crate::number::decimal(f.decisions as nat) + " exchanges="@
        + crate::number::decimal(f.exchanges as nat) + " effects="@ + crate::number::decimal(f.effects as nat)
        + " checks-ready="@ + signed_decimal(f.checks_ready as int)
        + "\nconversation: "@ + crate::text::join(Seq::new(f.messages@.len(), |i: int| message_item(f.messages@[i])), ","@)
}

/// The `status` report.
pub fn status_text(f: &StatusFacts) -> (r: String)
    ensures
        r@ == status_spec(*f),
{
    let mut r = owned("roots: data=");
    push_str(&mut r, f.data_dir.as_str());
    push_str(&mut r, " workspace=");
    push_str(&mut r, f.workspace.as_str());
    push_str(&mut r, "\nmatters: total=");
    push_str(&mut r, i64_text(f.matters).as_str());
    push_str(&mut r, " closed=");
    push_str(&mut r, i64_text(f.closed).as_str());
    push_str(&mut r, " active=");
    match &f.active {
        Some(a) => push_str(&mut r, a.0.as_str()),
        None => push_str(&mut r, "none"),
    }
    push_str(&mut r, " lifecycle=");
    match &f.active {
        Some(a) => push_str(&mut r, a.1.as_str()),
        None => push_str(&mut r, "none"),
    }
    push_str(&mut r, "\nunfinished: decisions=");
    push_str(&mut r, crate::number::u64_text(f.decisions).as_str());
    push_str(&mut r, " exchanges=");
    push_str(&mut r, crate::number::u64_text(f.exchanges).as_str());
    push_str(&mut r, " effects=");
    push_str(&mut r, crate::number::u64_text(f.effects).as_str());
    push_str(&mut r, " checks-ready=");
    push_str(&mut r, i64_text(f.checks_ready).as_str());
    push_str(&mut r, "\nconversation: ");
    let ghost items = Seq::new(f.messages@.len(), |i: int| message_item(f.messages@[i]));
    let ghost start = r@;
    for i in 0..f.messages.len()
        invariant
            items == Seq::new(f.messages@.len(), |i: int| message_item(f.messages@[i])),
            r@ == start + crate::text::join(items.take(i as int), ","@),
    {
        assert(items.take(i + 1).drop_last() == items.take(i as int));
        if i > 0 {
            push_str(&mut r, ",");
        }
        push_str(&mut r, i64_text(f.messages[i].0).as_str());
        push_str(&mut r, ":");
        push_str(&mut r, f.messages[i].1.as_str());
        push_str(&mut r, ":");
        push_str(&mut r, f.messages[i].2.as_str());
        assert(items.take(i + 1).last() == message_item(f.messages@[i as int]));
    }
    assert(items.take(f.messages@.len() as int) == items);
    r
}

/// A final message is accepted exactly when its lowered text holds none of
/// the promises of future work ("i will ", "will update", "will create",
/// "going to ", "ready to ") and none of the claims of commands or tests
/// run ("command ran", "command passed", "tests passed", "test suite
/// passed").
pub proof fn lemma_final_claims_refused(body: Seq<char>)
    ensures
        final_claims_allowed_spec(body) <==> !(
            contains(lower(body), "i will "@)
            || contains(lower(body), "will update"@)
            || contains(lower(body), "will create"@)
            || contains(lower(body), "going to "@)
            || contains(lower(body), "ready to "@)
            || contains(lower(body), "command ran"@)
            || contains(lower(body), "command passed"@)
            || contains(lower(body), "tests passed"@)
            || contains(lower(body), "test suite passed"@)
        ),
{
    let l = lower(body);
    let ws = future_claims();
    assert(ws[0] == "i will "@);
    assert(ws[1] == "will update"@);
    assert(ws[2] == "will create"@);
    assert(ws[3] == "going to "@);
    assert(ws[4] == "ready to "@);
    assert(ws[5] == "command ran"@);
    assert(ws[6] == "command passed"@);
    assert(ws[7] == "tests passed"@);
    assert(ws[8] == "test suite passed"@);
    if contains_any(l, ws) {
        let k = choose|k: int| 0 <= k < ws.len() && contains(l, #[trigger] ws[k]);
        assert(0 <= k < 9);
    }
}

} // verus!
