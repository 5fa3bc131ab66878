//! Explore actions of the model: which workspace, shell or memory step a
//! tool call asks for, read from its parameters, and how the answers are
//! rendered back into the active step.
use vstd::prelude::*;
use crate::number::{parse_unsigned, parse_unsigned_spec, signed_decimal, IntError, i64_text};
use crate::observations::action_state_spec;
use crate::text::{join, join_strings, owned, push_str, str_eq, views};

verus! {

/// The effect class of a tool, as the tool catalog names it.
#[derive(Clone, Copy, PartialEq, Eq, Structural)]
pub enum ToolEffect {
    FsRead,
    FsList,
    FsTree,
    FsSearch,
    FsWrite,
    ShellRun,
    MemoryFind,
    MemorySave,
    PlanNote,
}

/// The step an explore action asks for.
pub enum ExploreStep {
    Read { path: String, offset: usize, count: usize },
    List { path: String, depth: usize },
    Tree { path: String, depth: usize },
    Search { query: String },
    Write { path: String, content: String },
    Shell { command: String },
    FindMemory { query: String },
    /// Answered at once with this text.
    Reply(String),
}

pub enum StepView {
    Read { path: Seq<char>, offset: usize, count: usize },
    List { path: Seq<char>, depth: usize },
    Tree { path: Seq<char>, depth: usize },
    Search { query: Seq<char> },
    Write { path: Seq<char>, content: Seq<char> },
    Shell { command: Seq<char> },
    FindMemory { query: Seq<char> },
    Reply(Seq<char>),
}

impl View for ExploreStep {
    type V = StepView;

    open spec fn view(&self) -> StepView {
        match self {
            ExploreStep::Read { path, offset, count } => StepView::Read { path: path@, offset: *offset, count: *count },
            ExploreStep::List { path, depth } => StepView::List { path: path@, depth: *depth },
            ExploreStep::Tree { path, depth } => StepView::Tree { path: path@, depth: *depth },
            ExploreStep::Search { query } => StepView::Search { query: query@ },
            ExploreStep::Write { path, content } => StepView::Write { path: path@, content: content@ },
            ExploreStep::Shell { command } => StepView::Shell { command: command@ },
            ExploreStep::FindMemory { query } => StepView::FindMemory { query: query@ },
            ExploreStep::Reply(t) => StepView::Reply(t@),
        }
    }
}

pub open spec fn param_views(params: Seq<(String, String)>) -> Seq<(Seq<char>, Seq<char>)> {
    Seq::new(params.len(), |i: int| (params[i].0@, params[i].1@))
}

/// The value of the first parameter called `name`.
pub open spec fn param_value(params: Seq<(Seq<char>, Seq<char>)>, name: Seq<char>) -> Option<Seq<char>>
    decreases params.len(),
{
    if params.len() == 0 {
        None
    } else if params[0].0 == name {
        Some(params[0].1)
    } else {
        param_value(params.drop_first(), name)
    }
}

fn find_param(params: &Vec<(String, String)>, name: &str) -> (r: Option<String>)
    ensures
        match r {
            Some(v) => param_value(param_views(params@), name@) == Some(v@),
            None => param_value(param_views(params@), name@) is None,
        },
{
    let ghost all = param_views(params@);
    assert(all.skip(0) == all);
    for i in 0..params.len()
        invariant
            all == param_views(params@),
            param_value(all, name@) == param_value(all.skip(i as int), name@),
    {
        assert(all.skip(i as int).drop_first() == all.skip(i + 1));
        if str_eq(params[i].0.as_str(), name) {
            return Some(owned(params[i].1.as_str()));
        }
    }
    None
}

pub open spec fn param_spec(params: Seq<(Seq<char>, Seq<char>)>, name: Seq<char>) -> Result<Seq<char>, Seq<char>> {
    match param_value(params, name) {
        Some(v) => Ok(v),
        None => Err("missing parameter: "@ + name),
    }
}

/// A required parameter.
pub fn param(params: &Vec<(String, String)>, name: &str) -> (r: Result<String, String>)
    ensures
        match (r, param_spec(param_views(params@), name@)) {
            (Ok(v), Ok(s)) => v@ == s,
            (Err(e), Err(s)) => e@ == s,
            _ => false,
        },
{
    match find_param(params, name) {
        Some(v) => Ok(v),
        None => {
            let mut e = owned("missing parameter: ");
            push_str(&mut e, name);
            Err(e)
        },
    }
}

pub open spec fn or_default(params: Seq<(Seq<char>, Seq<char>)>, name: Seq<char>, default: Seq<char>) -> Seq<char> {
    match param_value(params, name) {
        Some(v) => v,
        None => default,
    }
}

/// An optional parameter with a default.
pub fn param_default(params: &Vec<(String, String)>, name: &str, default: &str) -> (r: String)
    ensures
        r@ == or_default(param_views(params@), name@, default@),
{
    match find_param(params, name) {
        Some(v) => v,
        None => owned(default),
    }
}

/// A count parameter: 0 when absent, its value when it reads as a
/// `usize`, else the reading's error.
pub open spec fn number_spec(params: Seq<(Seq<char>, Seq<char>)>, name: Seq<char>) -> Result<nat, IntError> {
    match param_value(params, name) {
        None => Ok(0),
        Some(v) => parse_unsigned_spec(v, usize::MAX as nat),
    }
}

pub fn number(params: &Vec<(String, String)>, name: &str) -> (r: Result<usize, IntError>)
    ensures
        match (r, number_spec(param_views(params@), name@)) {
            (Ok(v), Ok(n)) => v as nat == n,
            (Err(e), Err(k)) => e == k,
            _ => false,
        },
{
    match find_param(params, name) {
        None => Ok(0),
        Some(v) => match parse_unsigned(v.as_str(), usize::MAX as u64) {
            Ok(n) => Ok(n as usize),
            Err(e) => Err(e),
        },
    }
}

/// A count parameter that falls back to `fallback` when it does not read.
pub open spec fn count_or(params: Seq<(Seq<char>, Seq<char>)>, name: Seq<char>, fallback: usize) -> usize {
    match number_spec(params, name) {
        Ok(n) => n as usize,
        Err(_) => fallback,
    }
}

fn count_param(params: &Vec<(String, String)>, name: &str, fallback: usize) -> (r: usize)
    ensures
        r == count_or(param_views(params@), name@, fallback),
{
    match number(params, name) {
        Ok(n) => n,
        Err(_) => fallback,
    }
}

pub open spec fn step_spec(effect: ToolEffect, params: Seq<(Seq<char>, Seq<char>)>) -> Result<StepView, Seq<char>> {
    match effect {
        ToolEffect::FsRead => match param_spec(params, "path"@) {
            Ok(p) => Ok(StepView::Read { path: p, offset: count_or(params, "offset"@, 0), count: count_or(params, "count"@, 0) }),
            Err(e) => Err(e),
        },
        ToolEffect::FsList => Ok(StepView::List { path: or_default(params, "path"@, "."@), depth: count_or(params, "depth"@, 1) }),
        ToolEffect::FsTree => Ok(StepView::Tree { path: or_default(params, "path"@, "."@), depth: count_or(params, "depth"@, 2) }),
        ToolEffect::FsSearch => if or_default(params, "path"@, "."@) != "."@ {
            Err("fs.search only supports the workspace root"@)
        } else {
            match param_spec(params, "query"@) {
                Ok(q) => Ok(StepView::Search { query: q }),
                Err(e) => Err(e),
            }
        },
        ToolEffect::FsWrite => match param_spec(params, "path"@) {
            Ok(p) => match param_spec(params, "content"@) {
                Ok(c) => Ok(StepView::Write { path: p, content: c }),
                Err(e) => Err(e),
            },
            Err(e) => Err(e),
        },
        ToolEffect::ShellRun => match param_spec(params, "command"@) {
            Ok(c) => Ok(StepView::Shell { command: c }),
            Err(e) => Err(e),
        },
        ToolEffect::MemoryFind => match param_spec(params, "query"@) {
            Ok(q) => Ok(StepView::FindMemory { query: q }),
            Err(e) => Err(e),
        },
        ToolEffect::MemorySave => match param_spec(params, "topic"@) {
            Ok(t) => Ok(StepView::Reply("saved topic="@ + t)),
            Err(e) => Err(e),
        },
        ToolEffect::PlanNote => match param_spec(params, "note"@) {
            Ok(n) => Ok(StepView::Reply("noted: "@ + n)),
            Err(e) => Err(e),
        },
    }
}

pub open spec fn dispatch_spec(effect: Option<ToolEffect>, tool: Seq<char>, params: Seq<(Seq<char>, Seq<char>)>) -> Result<StepView, Seq<char>> {
    match effect {
        None => Err("unknown tool: "@ + tool),
        Some(e) => step_spec(e, params),
    }
}

/// The step that the explore action `tool` with `params` asks for, given
/// the effect class the catalog gives the tool (none: unknown tool).
pub fn dispatch(effect: Option<ToolEffect>, tool: &str, params: &Vec<(String, String)>) -> (r: Result<ExploreStep, String>)
    ensures
        match (r, dispatch_spec(effect, tool@, param_views(params@))) {
            (Ok(s), Ok(v)) => s@ == v,
            (Err(e), Err(v)) => e@ == v,
            _ => false,
        },
{
    let effect = match effect {
        None => {
            let mut e = owned("unknown tool: ");
            push_str(&mut e, tool);
            return Err(e);
        },
        Some(e) => e,
    };
    match effect {
        ToolEffect::FsRead => {
            let path = param(params, "path")?;
            Ok(ExploreStep::Read { path, offset: count_param(params, "offset", 0), count: count_param(params, "count", 0) })
        },
        ToolEffect::FsList => Ok(ExploreStep::List { path: param_default(params, "path", "."), depth: count_param(params, "depth", 1) }),
        ToolEffect::FsTree => Ok(ExploreStep::Tree { path: param_default(params, "path", "."), depth: count_param(params, "depth", 2) }),
        ToolEffect::FsSearch => {
            let p = param_default(params, "path", ".");
            if !str_eq(p.as_str(), ".") {
                return Err(owned("fs.search only supports the workspace root"));
            }
            let query = param(params, "query")?;
            Ok(ExploreStep::Search { query })
        },
        ToolEffect::FsWrite => {
            let path = param(params, "path")?;
            let content = param(params, "content")?;
            Ok(ExploreStep::Write { path, content })
        },
        ToolEffect::ShellRun => {
            let command = param(params, "command")?;
            Ok(ExploreStep::Shell { command })
        },
        ToolEffect::MemoryFind => {
            let query = param(params, "query")?;
            Ok(ExploreStep::FindMemory { query })
        },
        ToolEffect::MemorySave => {
            let topic = param(params, "topic")?;
            let mut r = owned("saved topic=");
            push_str(&mut r, topic.as_str());
            Ok(ExploreStep::Reply(r))
        },
        ToolEffect::PlanNote => {
            let note = param(params, "note")?;
            let mut r = owned("noted: ");
            push_str(&mut r, note.as_str());
            Ok(ExploreStep::Reply(r))
        },
    }
}

/// The file an `fs.write` action writes: its path and content, when both
/// are given.
pub fn write_target(tool: &str, params: &Vec<(String, String)>) -> (r: Option<(String, String)>)
    ensures
        match r {
            Some((p, c)) => tool@ == "fs.write"@
                && param_value(param_views(params@), "path"@) == Some(p@)
                && param_value(param_views(params@), "content"@) == Some(c@),
            None => tool@ != "fs.write"@
                || param_value(param_views(params@), "path"@) is None
                || param_value(param_views(params@), "content"@) is None,
        },
{
    if !str_eq(tool, "fs.write") {
        return None;
    }
    let path = find_param(params, "path")?;
    let content = find_param(params, "content")?;
    Some((path, content))
}

pub open spec fn exit_text(code: Option<i32>) -> Seq<char> {
    match code {
        Some(c) => "Some("@ + signed_decimal(c as int) + ")"@,
        None => "None"@,
    }
}

/// The answer of a shell run: its exit code (as `{:?}` shows an
/// `Option<i32>`), whether it timed out, then its output.
pub fn shell_output(exit_code: Option<i32>, timed_out: bool, output: &str) -> (r: String)
    ensures
        r@ == "exit="@ + exit_text(exit_code) + " timed_out="@
            + crate::diagnostics_support::bool_text_spec(timed_out) + "\n"@ + output@,
{
    let mut r = owned("exit=");
    match exit_code {
        Some(c) => {
            push_str(&mut r, "Some(");
            push_str(&mut r, i64_text(c as i64).as_str());
            push_str(&mut r, ")");
        },
        None => push_str(&mut r, "None"),
    }
    push_str(&mut r, " timed_out=");
    push_str(&mut r, if timed_out { "true" } else { "false" });
    push_str(&mut r, "\n");
    push_str(&mut r, output);
    r
}

/// A memory found by an explore search.
pub struct MemoryRow {
    pub id: i64,
    pub task_id: Option<i64>,
    pub topic: String,
    pub content: String,
}

pub open spec fn memory_line(row: MemoryRow) -> Seq<char> {
    "memory "@ + signed_decimal(row.id as int) + " matter="@
        + match row.task_id {
            Some(t) => signed_decimal(t as int),
            None => "none"@,
        } + " "@ + row.topic@ + " "@ + row.content@
}

/// The answer of a memory search: one line per memory, or `no matches`.
pub fn memory_find(rows: &Vec<MemoryRow>) -> (r: String)
    ensures
        r@ == if rows@.len() == 0 {
            "no matches"@
        } else {
            join(Seq::new(rows@.len(), |i: int| memory_line(rows@[i])), "\n"@)
        },
{
    if rows.len() == 0 {
        return owned("no matches");
    }
    let ghost want = Seq::new(rows@.len(), |i: int| memory_line(rows@[i]));
    let mut lines: Vec<String> = Vec::new();
    for i in 0..rows.len()
        invariant
            lines@.len() == i,
            want == Seq::new(rows@.len(), |i: int| memory_line(rows@[i])),
            forall|k: int| 0 <= k < i ==> (#[trigger] lines@[k])@ == want[k],
    {
        let row = &rows[i];
        let mut l = owned("memory ");
        push_str(&mut l, i64_text(row.id).as_str());
        push_str(&mut l, " matter=");
        match row.task_id {
            Some(t) => push_str(&mut l, i64_text(t).as_str()),
            None => push_str(&mut l, "none"),
        }
        push_str(&mut l, " ");
        push_str(&mut l, row.topic.as_str());
        push_str(&mut l, " ");
        push_str(&mut l, row.content.as_str());
        lines.push(l);
    }
    assert(views(lines@) == want);
    join_strings(&lines, "\n")
}

/// The active step's inputs after an explore action: its action-state
/// lines kept, then the rendered observation.
pub fn explored_inputs(inputs: &str, rendered: &str) -> (r: String)
    ensures
        r@ == action_state_spec(inputs@) + "latest_observation=\n"@ + rendered@,
{
    let mut r = crate::observations::action_state(inputs);
    push_str(&mut r, "latest_observation=\n");
    push_str(&mut r, rendered);
    r
}

} // verus!
