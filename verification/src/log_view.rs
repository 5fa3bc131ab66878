//! The event log and the inspection listings, as text: one line per row,
//! or `none` when there is no row.
use vstd::prelude::*;
use crate::diagnostics_support::bool_text_spec;
use crate::number::{i64_text, signed_decimal};
use crate::text::{join, join_strings, owned, push_str, trim, views};

verus! {

/// One event of the log: its id and its rendered line.
pub struct LogRow {
    pub id: i64,
    pub line: String,
}

pub open spec fn log_line(id: i64, task: i64, kind: Seq<char>, content: Seq<char>) -> Seq<char> {
    signed_decimal(id as int) + " task="@ + signed_decimal(task as int) + " "@ + kind + " "@ + content
}

/// The log row of event `id` of task `task` (0 for none).
pub fn log_row(id: i64, task: i64, kind: &str, content: &str) -> (r: LogRow)
    ensures
        r.id == id,
        r.line@ == log_line(id, task, kind@, content@),
{
    let mut line = i64_text(id);
    push_str(&mut line, " task=");
    push_str(&mut line, i64_text(task).as_str());
    push_str(&mut line, " ");
    push_str(&mut line, kind);
    push_str(&mut line, " ");
    push_str(&mut line, content);
    LogRow { id, line }
}

/// Lines joined by newlines, or `none` when there is none.
pub open spec fn listing(lines: Seq<Seq<char>>) -> Seq<char> {
    if lines.len() == 0 {
        "none"@
    } else {
        join(lines, "\n"@)
    }
}

pub open spec fn row_lines(rows: Seq<LogRow>) -> Seq<Seq<char>> {
    Seq::new(rows.len(), |i: int| rows[i].line@)
}

/// The rows, newest last, in the order the query returned them newest first.
pub fn oldest_first(rows: Vec<LogRow>) -> (r: Vec<LogRow>)
    ensures
        r@ == rows@.reverse(),
{
    let mut rows = rows;
    let ghost all = rows@;
    let mut r: Vec<LogRow> = Vec::new();
    while rows.len() > 0
        invariant
            all.len() == rows@.len() + r@.len(),
            rows@ == all.take(rows@.len() as int),
            forall|k: int| 0 <= k < r@.len() ==> #[trigger] r@[k] == all[all.len() - 1 - k],
        decreases rows.len(),
    {
        let ghost n = rows@.len() as int;
        let row = rows.pop().unwrap();
        assert(row == all[n - 1]);
        assert(rows@ =~= all.take(n - 1));
        r.push(row);
    }
    assert(r@ =~= all.reverse());
    r
}

/// The log as text: each row's line, or `none`.
pub fn log_output(rows: &Vec<LogRow>) -> (r: String)
    ensures
        r@ == listing(row_lines(rows@)),
{
    if rows.len() == 0 {
        return owned("none");
    }
    let mut lines: Vec<String> = Vec::new();
    for i in 0..rows.len()
        invariant
            lines@.len() == i,
            forall|k: int| 0 <= k < i ==> (#[trigger] lines@[k])@ == rows@[k].line@,
    {
        lines.push(owned(rows[i].line.as_str()));
    }
    assert(views(lines@) == row_lines(rows@));
    join_strings(&lines, "\n")
}

/// Rendered lines as a listing: joined by newlines, or `none`.
pub fn collect(lines: &Vec<String>) -> (r: String)
    ensures
        r@ == listing(views(lines@)),
{
    if lines.len() == 0 {
        owned("none")
    } else {
        join_strings(lines, "\n")
    }
}

pub open spec fn task_line_spec(id: i64, state: Seq<char>, template: Seq<char>, summary: Seq<char>) -> Seq<char> {
    "task "@ + signed_decimal(id as int) + " "@ + state + " "@ + template + " "@ + summary
}

/// A task of the task list.
pub fn task_line(id: i64, state: &str, template: &str, summary: &str) -> (r: String)
    ensures
        r@ == task_line_spec(id, state@, template@, summary@),
{
    let mut r = owned("task ");
    push_str(&mut r, i64_text(id).as_str());
    push_str(&mut r, " ");
    push_str(&mut r, state);
    push_str(&mut r, " ");
    push_str(&mut r, template);
    push_str(&mut r, " ");
    push_str(&mut r, summary);
    r
}

/// The answer for a task id that no task has.
pub fn task_not_found(id: u64) -> (r: String)
    ensures
        r@ == "task "@ + crate::number::decimal(id as nat) + ": not found"@,
{
    let mut r = owned("task ");
    push_str(&mut r, crate::number::u64_text(id).as_str());
    push_str(&mut r, ": not found");
    r
}

pub open spec fn queue_line_spec(id: i64, state: Seq<char>, force_new: i64, task: i64, content: Seq<char>) -> Seq<char> {
    "queue "@ + signed_decimal(id as int) + " "@ + state + " force_new="@ + bool_text_spec(force_new != 0)
        + " task="@ + signed_decimal(task as int) + " "@ + content
}

/// An owner turn of the queue list; `force_new` is the stored flag (0 or not).
pub fn queue_line(id: i64, state: &str, force_new: i64, task: i64, content: &str) -> (r: String)
    ensures
        r@ == queue_line_spec(id, state@, force_new, task, content@),
{
    let mut r = owned("queue ");
    push_str(&mut r, i64_text(id).as_str());
    push_str(&mut r, " ");
    push_str(&mut r, state);
    push_str(&mut r, " force_new=");
    push_str(&mut r, if force_new != 0 { "true" } else { "false" });
    push_str(&mut r, " task=");
    push_str(&mut r, i64_text(task).as_str());
    push_str(&mut r, " ");
    push_str(&mut r, content);
    r
}

pub open spec fn queue_show_spec(id: i64, state: Seq<char>, force_new: i64, task: i64, content: Seq<char>) -> Seq<char> {
    "queue "@ + signed_decimal(id as int) + " state="@ + state + " force_new="@ + bool_text_spec(force_new != 0)
        + " task="@ + signed_decimal(task as int) + " content="@ + content
}

/// One owner turn shown in full.
pub fn queue_show_line(id: i64, state: &str, force_new: i64, task: i64, content: &str) -> (r: String)
    ensures
        r@ == queue_show_spec(id, state@, force_new, task, content@),
{
    let mut r = owned("queue ");
    push_str(&mut r, i64_text(id).as_str());
    push_str(&mut r, " state=");
    push_str(&mut r, state);
    push_str(&mut r, " force_new=");
    push_str(&mut r, if force_new != 0 { "true" } else { "false" });
    push_str(&mut r, " task=");
    push_str(&mut r, i64_text(task).as_str());
    push_str(&mut r, " content=");
    push_str(&mut r, content);
    r
}

/// The answer for a queue id that no owner turn has.
pub fn queue_not_found(id: i64) -> (r: String)
    ensures
        r@ == "queue "@ + signed_decimal(id as int) + ": not found"@,
{
    let mut r = owned("queue ");
    push_str(&mut r, i64_text(id).as_str());
    push_str(&mut r, ": not found");
    r
}

pub open spec fn memory_line(id: i64, topic: Seq<char>, content: Seq<char>) -> Seq<char> {
    "memory "@ + signed_decimal(id as int) + " "@ + topic + " "@ + content
}

/// Whether a memory search may run: its query is not blank.
pub fn memory_query_ok(query: &str) -> (r: bool)
    ensures
        r == (trim(query@).len() > 0),
{
    let c = crate::text::chars_of(query);
    crate::text::trim_exec(c.as_slice()).len() > 0
}

/// The memory search answer for the rows `(id, topic, content)` found:
/// `memory: query required` for a blank query, `none` for no row.
pub fn memory_output(query: &str, rows: &Vec<(i64, String, String)>) -> (r: String)
    ensures
        r@ == if trim(query@).len() == 0 {
            "memory: query required"@
        } else {
            listing(Seq::new(rows@.len(), |i: int| memory_line(rows@[i].0, rows@[i].1@, rows@[i].2@)))
        },
{
    if !memory_query_ok(query) {
        return owned("memory: query required");
    }
    let ghost want = Seq::new(rows@.len(), |i: int| memory_line(rows@[i].0, rows@[i].1@, rows@[i].2@));
    let mut lines: Vec<String> = Vec::new();
    for i in 0..rows.len()
        invariant
            lines@.len() == i,
            want == Seq::new(rows@.len(), |i: int| memory_line(rows@[i].0, rows@[i].1@, rows@[i].2@)),
            forall|k: int| 0 <= k < i ==> (#[trigger] lines@[k])@ == want[k],
    {
        let mut l = owned("memory ");
        push_str(&mut l, i64_text(rows[i].0).as_str());
        push_str(&mut l, " ");
        push_str(&mut l, rows[i].1.as_str());
        push_str(&mut l, " ");
        push_str(&mut l, rows[i].2.as_str());
        lines.push(l);
    }
    assert(views(lines@) == want);
    collect(&lines)
}

} // verus!
