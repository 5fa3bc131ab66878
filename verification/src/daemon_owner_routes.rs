//! The workspace trace of an owner turn: where it is written and what it
//! says, and how a turn delivered to a running matter extends its brief.
use vstd::prelude::*;
use crate::diagnostics_support::bool_text_spec;
use crate::number::{i64_text, padded, padded_chars, signed_decimal};
use crate::text::{owned, push_chars, push_str, str_eq};

verus! {

/// An owner turn as the queue stores it, with the route it was given.
pub struct QueueRow {
    pub id: i64,
    pub content: String,
    pub state: String,
    pub task_id: Option<i64>,
    pub force_new: bool,
    pub route_lane: Option<String>,
    pub route_durability: Option<String>,
    pub route_title_seed: Option<String>,
    pub route_transform_allowed: Option<bool>,
}

/// `{:0width$}` of a signed integer: the sign counts towards the width.
pub open spec fn signed_padded(n: int, width: nat) -> Seq<char> {
    if n < 0 {
        seq!['-'] + padded((-n) as nat, if width > 0 { (width - 1) as nat } else { 0 })
    } else {
        padded(n as nat, width)
    }
}

/// `{:0width$}` of a signed integer.
pub fn signed_padded_text(n: i64, width: usize) -> (r: String)
    requires
        width > 0,
    ensures
        r@ == signed_padded(n as int, width as nat),
{
    if n < 0 {
        let m: u64 = if n == i64::MIN {
            0x8000_0000_0000_0000
        } else {
            (-n) as u64
        };
        let mut r = String::new();
        crate::text::push_char(&mut r, '-');
        let d = padded_chars(m, width - 1);
        assert(m as int == -(n as int));
        push_chars(&mut r, d.as_slice());
        r
    } else {
        let mut r = String::new();
        let d = padded_chars(n as u64, width);
        push_chars(&mut r, d.as_slice());
        r
    }
}

pub open spec fn opt_eq(v: Option<String>, t: Seq<char>) -> bool {
    v matches Some(s) && s@ == t
}

/// The turn goes to the workspace inbox rather than the transcripts.
pub open spec fn inbox_route(row: QueueRow) -> bool {
    opt_eq(row.route_lane, "inbox"@) || opt_eq(row.route_durability, "workspace_inbox"@)
}

/// The workspace-relative path of a turn's trace.
pub open spec fn trace_path_spec(row: QueueRow) -> Seq<char> {
    if inbox_route(row) {
        "inbox/queue-"@ + signed_padded(row.id as int, 6) + ".md"@
    } else {
        "artifacts/transcripts/queue-"@ + signed_padded(row.id as int, 6) + ".md"@
    }
}

fn opt_is(v: &Option<String>, t: &str) -> (r: bool)
    ensures
        r == opt_eq(*v, t@),
{
    match v {
        Some(s) => str_eq(s.as_str(), t),
        None => false,
    }
}

/// Whether the turn's trace goes to the inbox.
pub fn is_inbox(row: &QueueRow) -> (r: bool)
    ensures
        r == inbox_route(*row),
{
    opt_is(&row.route_lane, "inbox") || opt_is(&row.route_durability, "workspace_inbox")
}

/// Where the trace of a turn is written, under the workspace.
pub fn trace_path(row: &QueueRow) -> (r: String)
    ensures
        r@ == trace_path_spec(*row),
{
    let mut r = if is_inbox(row) {
        owned("inbox/queue-")
    } else {
        owned("artifacts/transcripts/queue-")
    };
    push_str(&mut r, signed_padded_text(row.id, 6).as_str());
    push_str(&mut r, ".md");
    r
}

pub open spec fn option_text_spec(v: Option<String>) -> Seq<char> {
    match v {
        Some(s) => s@,
        None => "none"@,
    }
}

/// An optional text, or `none`.
pub fn option_text(v: &Option<String>) -> (r: String)
    ensures
        r@ == option_text_spec(*v),
{
    match v {
        Some(s) => owned(s.as_str()),
        None => owned("none"),
    }
}

pub open spec fn flag_text_spec(v: Option<bool>) -> Seq<char> {
    match v {
        Some(b) => bool_text_spec(b),
        None => "none"@,
    }
}

/// An optional flag: `true`, `false` or `none`.
pub fn bool_text(v: Option<bool>) -> (r: &'static str)
    ensures
        r@ == flag_text_spec(v),
{
    match v {
        Some(true) => "true",
        Some(false) => "false",
        None => "none",
    }
}

pub open spec fn task_text(t: Option<i64>) -> Seq<char> {
    match t {
        Some(id) => signed_decimal(id as int),
        None => "none"@,
    }
}

/// The trace document of an owner turn written at `written_at`.
pub open spec fn trace_body_spec(row: QueueRow, written_at: Seq<char>, inbox: bool) -> Seq<char> {
    "# Owner Turn "@ + signed_decimal(row.id as int)
        + "\n\nPurpose: durable owner-turn workspace evidence.\n\n## Route\n\n- kind: "@
        + (if inbox { "inbox"@ } else { "transcript"@ })
        + "\n- queue_id: "@ + signed_decimal(row.id as int)
        + "\n- queue_state: "@ + row.state@
        + "\n- task_id: "@ + task_text(row.task_id)
        + "\n- force_new: "@ + bool_text_spec(row.force_new)
        + "\n- route_lane: "@ + option_text_spec(row.route_lane)
        + "\n- route_durability: "@ + option_text_spec(row.route_durability)
        + "\n- transform_allowed: "@ + flag_text_spec(row.route_transform_allowed)
        + "\n- written_at: "@ + written_at
        + "\n\n## Owner Text\n\n"@ + row.content@ + "\n"@
}

/// Renders the trace of an owner turn.
pub fn trace_body(row: &QueueRow, written_at: &str, inbox: bool) -> (r: String)
    ensures
        r@ == trace_body_spec(*row, written_at@, inbox),
{
    let id = i64_text(row.id);
    let mut r = owned("# Owner Turn ");
    push_str(&mut r, id.as_str());
    push_str(&mut r, "\n\nPurpose: durable owner-turn workspace evidence.\n\n## Route\n\n- kind: ");
    push_str(&mut r, if inbox { "inbox" } else { "transcript" });
    push_str(&mut r, "\n- queue_id: ");
    push_str(&mut r, id.as_str());
    push_str(&mut r, "\n- queue_state: ");
    push_str(&mut r, row.state.as_str());
    push_str(&mut r, "\n- task_id: ");
    match row.task_id {
        Some(t) => push_str(&mut r, i64_text(t).as_str()),
        None => push_str(&mut r, "none"),
    }
    push_str(&mut r, "\n- force_new: ");
    push_str(&mut r, if row.force_new { "true" } else { "false" });
    push_str(&mut r, "\n- route_lane: ");
    push_str(&mut r, option_text(&row.route_lane).as_str());
    push_str(&mut r, "\n- route_durability: ");
    push_str(&mut r, option_text(&row.route_durability).as_str());
    push_str(&mut r, "\n- transform_allowed: ");
    push_str(&mut r, bool_text(row.route_transform_allowed));
    push_str(&mut r, "\n- written_at: ");
    push_str(&mut r, written_at);
    push_str(&mut r, "\n\n## Owner Text\n\n");
    push_str(&mut r, row.content.as_str());
    push_str(&mut r, "\n");
    r
}

/// A step of a matter as far as owner updates reach it: whether it is
/// still pending or active, and its inputs.
pub struct StepInputs {
    pub open: bool,
    pub inputs: String,
}

pub open spec fn update_line(content: Seq<char>) -> Seq<char> {
    "\nowner_update="@ + content
}

/// Appends an owner update to a matter's brief and to the inputs of its
/// first pending or active step.
pub fn append_update(brief: &mut String, steps: &mut Vec<StepInputs>, content: &str)
    ensures
        final(brief)@ == old(brief)@ + update_line(content@),
        final(steps)@.len() == old(steps)@.len(),
        forall|i: int| 0 <= i < old(steps)@.len() ==> (#[trigger] final(steps)@[i]).open == old(steps)@[i].open,
        forall|i: int| 0 <= i < old(steps)@.len() ==> (#[trigger] final(steps)@[i]).inputs@ == if (exists|j: int| 0 <= j < i && old(steps)@[j].open) || !old(steps)@[i].open {
            old(steps)@[i].inputs@
        } else {
            old(steps)@[i].inputs@ + update_line(content@)
        },
{
    push_str(brief, "\nowner_update=");
    push_str(brief, content);
    assert(brief@ =~= old(brief)@ + update_line(content@));
    let mut i: usize = 0;
    while i < steps.len()
        invariant
            steps@ == old(steps)@,
            brief@ == old(brief)@ + update_line(content@),
            i <= steps@.len(),
            forall|j: int| 0 <= j < i ==> !(#[trigger] steps@[j]).open,
        decreases steps.len() - i,
    {
        if steps[i].open {
            let mut inputs = owned(steps[i].inputs.as_str());
            push_str(&mut inputs, "\nowner_update=");
            push_str(&mut inputs, content);
            steps.set(i, StepInputs { open: true, inputs });
            return;
        }
        i = i + 1;
    }
}

} // verus!
