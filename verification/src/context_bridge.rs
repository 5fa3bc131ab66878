//! The context placed in a prompt: its text, the brief that carries it,
//! the objective item every matter starts from, and the cell that records
//! an unresolved conflict.
use vstd::prelude::*;
use crate::config_registry::{json_quoted, json_string};
use crate::exchange_bridge::quoted_all;
use crate::number::{decimal, u64_text};
use crate::text::{join, join_strings, owned, push_str, str_eq, views};

verus! {

/// Rendered prompt context and the fingerprint of its text.
#[derive(Debug, Clone, PartialEq, Eq)]
pub struct PromptContext {
    pub text: String,
    pub fingerprint: String,
}

/// A context item selected for the prompt.
pub struct ContextLine {
    pub semantic_key: String,
    pub source_type: String,
    pub source_id: String,
    pub body: String,
}

/// Items that contradict each other on one semantic key.
pub struct Conflict {
    pub semantic_key: String,
    pub item_ids: Vec<String>,
}

pub open spec fn item_line(c: ContextLine) -> Seq<char> {
    c.semantic_key@ + " ["@ + c.source_type@ + ":"@ + c.source_id@ + "] "@ + c.body@
}

pub open spec fn conflict_line(c: Conflict) -> Seq<char> {
    "Unresolved conflict "@ + c.semantic_key@ + " items="@ + join(views(c.item_ids@), ","@)
}

pub open spec fn conflicted(key: Seq<char>, conflicts: Seq<Conflict>) -> bool {
    exists|k: int| 0 <= k < conflicts.len() && #[trigger] conflicts[k].semantic_key@ == key
}

/// The lines of the selected items whose key is not in conflict, in order.
pub open spec fn clean_lines(items: Seq<ContextLine>, conflicts: Seq<Conflict>) -> Seq<Seq<char>>
    decreases items.len(),
{
    if items.len() == 0 {
        Seq::empty()
    } else {
        let pre = clean_lines(items.drop_last(), conflicts);
        if conflicted(items.last().semantic_key@, conflicts) {
            pre
        } else {
            pre.push(item_line(items.last()))
        }
    }
}

pub open spec fn render_spec(items: Seq<ContextLine>, conflicts: Seq<Conflict>) -> Seq<char> {
    join(clean_lines(items, conflicts) + Seq::new(conflicts.len(), |i: int| conflict_line(conflicts[i])), "\n"@)
}

fn in_conflict(key: &str, conflicts: &Vec<Conflict>) -> (r: bool)
    ensures
        r == conflicted(key@, conflicts@),
{
    for k in 0..conflicts.len()
        invariant
            forall|j: int| 0 <= j < k ==> conflicts@[j].semantic_key@ != key@,
    {
        if str_eq(conflicts[k].semantic_key.as_str(), key) {
            return true;
        }
    }
    false
}

/// The context text of a prompt: each selected item whose key is not in
/// conflict, then a line for each unresolved conflict.
pub fn render_context(items: &Vec<ContextLine>, conflicts: &Vec<Conflict>) -> (r: String)
    ensures
        r@ == render_spec(items@, conflicts@),
{
    let mut lines: Vec<String> = Vec::new();
    for i in 0..items.len()
        invariant
            views(lines@) == clean_lines(items@.take(i as int), conflicts@),
    {
        assert(items@.take(i + 1).drop_last() == items@.take(i as int));
        assert(items@.take(i + 1).last() == items@[i as int]);
        let item = &items[i];
        if !in_conflict(item.semantic_key.as_str(), conflicts) {
            let ghost before = views(lines@);
            let mut l = owned(item.semantic_key.as_str());
            push_str(&mut l, " [");
            push_str(&mut l, item.source_type.as_str());
            push_str(&mut l, ":");
            push_str(&mut l, item.source_id.as_str());
            push_str(&mut l, "] ");
            push_str(&mut l, item.body.as_str());
            lines.push(l);
            assert(views(lines@) =~= before.push(item_line(items@[i as int])));
        }
    }
    assert(items@.take(items@.len() as int) == items@);
    let ghost clean = views(lines@);
    for k in 0..conflicts.len()
        invariant
            views(lines@) == clean + Seq::new(k as nat, |i: int| conflict_line(conflicts@[i])),
    {
        let ghost before = views(lines@);
        let mut l = owned("Unresolved conflict ");
        push_str(&mut l, conflicts[k].semantic_key.as_str());
        push_str(&mut l, " items=");
        push_str(&mut l, join_strings(&conflicts[k].item_ids, ",").as_str());
        assert(l@ == conflict_line(conflicts@[k as int]));
        lines.push(l);
        assert(views(lines@) == before.push(conflict_line(conflicts@[k as int])));
        assert(views(lines@) =~= clean + Seq::new((k + 1) as nat, |i: int| conflict_line(conflicts@[i])));
    }
    join_strings(&lines, "\n")
}

/// A matter's brief with its prompt context appended (unchanged when the
/// context is empty).
pub fn briefed(brief: &str, context_text: &str) -> (r: String)
    ensures
        r@ == if context_text@.len() == 0 { brief@ } else { brief@ + "\ncontext_items:\n"@ + context_text@ },
{
    let mut r = owned(brief);
    if crate::text::chars_of(context_text).len() > 0 {
        push_str(&mut r, "\ncontext_items:\n");
        push_str(&mut r, context_text);
    }
    r
}

/// The ids of a matter's objective item: the item's own, and the
/// fingerprint that stands for its source.
pub fn objective_ids(task_id: u64) -> (r: (String, String))
    ensures
        r.0@ == "case-"@ + decimal(task_id as nat) + "-objective"@,
        r.1@ == "objective-"@ + decimal(task_id as nat),
{
    let id = u64_text(task_id);
    let mut item = owned("case-");
    push_str(&mut item, id.as_str());
    push_str(&mut item, "-objective");
    let mut source = owned("objective-");
    push_str(&mut source, id.as_str());
    (item, source)
}

/// How an unresolved conflict is recorded: the state key's label, the
/// source event named for it, its payload (members in key order), and its
/// evidence (the item ids joined, and their count).
pub struct ConflictCell {
    pub label: String,
    pub source_event: String,
    pub payload: String,
    pub evidence_source: String,
    pub evidence_fingerprint: String,
}

pub fn conflict_cell(conflict: &Conflict) -> (r: ConflictCell)
    ensures
        r.label@ == "conflict/"@ + conflict.semantic_key@,
        r.source_event@ == "context-conflict/"@ + conflict.semantic_key@,
        r.payload@ == "{\"item_ids\":["@ + join(quoted_all(views(conflict.item_ids@)), ","@)
            + "],\"semantic_key\":"@ + json_quoted(conflict.semantic_key@) + "}"@,
        r.evidence_source@ == join(views(conflict.item_ids@), ","@),
        r.evidence_fingerprint@ == "conflict-"@ + decimal(conflict.item_ids@.len()),
{
    let key = conflict.semantic_key.as_str();
    let mut label = owned("conflict/");
    push_str(&mut label, key);
    let mut source_event = owned("context-conflict/");
    push_str(&mut source_event, key);
    let mut payload = owned("{\"item_ids\":[");
    let ghost all = quoted_all(views(conflict.item_ids@));
    let ghost start = payload@;
    for i in 0..conflict.item_ids.len()
        invariant
            all == quoted_all(views(conflict.item_ids@)),
            payload@ == start + join(all.take(i as int), ","@),
    {
        assert(all.take(i + 1).drop_last() == all.take(i as int));
        if i > 0 {
            push_str(&mut payload, ",");
        }
        push_str(&mut payload, json_string(conflict.item_ids[i].as_str()).as_str());
        assert(all.take(i + 1).last() == json_quoted(conflict.item_ids@[i as int]@));
    }
    assert(all.take(conflict.item_ids@.len() as int) == all);
    push_str(&mut payload, "],\"semantic_key\":");
    push_str(&mut payload, json_string(key).as_str());
    push_str(&mut payload, "}");
    let mut evidence_fingerprint = owned("conflict-");
    push_str(&mut evidence_fingerprint, u64_text(conflict.item_ids.len() as u64).as_str());
    ConflictCell {
        label,
        source_event,
        payload,
        evidence_source: join_strings(&conflict.item_ids, ","),
        evidence_fingerprint,
    }
}

} // verus!
