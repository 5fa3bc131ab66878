//! The command line: `[--data DIR] COMMAND [ARGS...]`.
use vstd::prelude::*;
use crate::text::{has, join, join_strings, owned, push_str, str_eq, views, without};

verus! {

/// A parsed command line.
#[derive(Debug, Clone, PartialEq, Eq)]
pub struct Invocation {
    pub data_dir: String,
    pub command: Command,
}

/// The commands the agent understands.
#[allow(inconsistent_fields)]
#[derive(Debug, Clone, PartialEq, Eq)]
pub enum Command {
    Help,
    Run { once: bool },
    Send { text: String, force_new: bool },
    Status,
    Doctor { json: bool },
    MatterList,
    MatterShow { id: u64 },
    QueueList,
    QueueShow { id: i64 },
    ContextResolve { case_id: String, semantic_key: String, winning_item_id: String },
    Log { limit: usize, follow: bool },
    Workspace { json: bool, rebuild: bool },
    WorkspaceSearch {
        query: String,
        kind: Option<String>,
        state: Option<String>,
        project: Option<String>,
        date: Option<String>,
        mode: String,
    },
    WorkspacePlanRebalance { json: bool },
    WorkspaceApplyRebalance { json: bool },
    WorkspaceValidate { json: bool },
    Memory { query: String },
    RecordAdd { kind: String, title: String, body: String },
    RecordList { kind: Option<String> },
    RecordShow { id: String },
    RecordArchive { id: String },
    RecordLink { id: String, target: String },
}

/// A command with its texts taken as character sequences.
#[allow(inconsistent_fields)]
pub enum CommandView {
    Help,
    Run { once: bool },
    Send { text: Seq<char>, force_new: bool },
    Status,
    Doctor { json: bool },
    MatterList,
    MatterShow { id: u64 },
    QueueList,
    QueueShow { id: i64 },
    ContextResolve { case_id: Seq<char>, semantic_key: Seq<char>, winning_item_id: Seq<char> },
    Log { limit: usize, follow: bool },
    Workspace { json: bool, rebuild: bool },
    WorkspaceSearch {
        query: Seq<char>,
        kind: Option<Seq<char>>,
        state: Option<Seq<char>>,
        project: Option<Seq<char>>,
        date: Option<Seq<char>>,
        mode: Seq<char>,
    },
    WorkspacePlanRebalance { json: bool },
    WorkspaceApplyRebalance { json: bool },
    WorkspaceValidate { json: bool },
    Memory { query: Seq<char> },
    RecordAdd { kind: Seq<char>, title: Seq<char>, body: Seq<char> },
    RecordList { kind: Option<Seq<char>> },
    RecordShow { id: Seq<char> },
    RecordArchive { id: Seq<char> },
    RecordLink { id: Seq<char>, target: Seq<char> },
}

pub open spec fn opt_view(o: Option<String>) -> Option<Seq<char>> {
    match o {
        Some(s) => Some(s@),
        None => None,
    }
}

impl View for Command {
    type V = CommandView;

    open spec fn view(&self) -> CommandView {
        match self {
            Command::Help => CommandView::Help,
            Command::Run { once } => CommandView::Run { once: *once },
            Command::Send { text, force_new } => CommandView::Send {
                text: text@,
                force_new: *force_new,
            },
            Command::Status => CommandView::Status,
            Command::Doctor { json } => CommandView::Doctor { json: *json },
            Command::MatterList => CommandView::MatterList,
            Command::MatterShow { id } => CommandView::MatterShow { id: *id },
            Command::QueueList => CommandView::QueueList,
            Command::QueueShow { id } => CommandView::QueueShow { id: *id },
            Command::ContextResolve { case_id, semantic_key, winning_item_id } =>
                CommandView::ContextResolve {
                case_id: case_id@,
                semantic_key: semantic_key@,
                winning_item_id: winning_item_id@,
            },
            Command::Log { limit, follow } => CommandView::Log { limit: *limit, follow: *follow },
            Command::Workspace { json, rebuild } => CommandView::Workspace {
                json: *json,
                rebuild: *rebuild,
            },
            Command::WorkspaceSearch { query, kind, state, project, date, mode } =>
                CommandView::WorkspaceSearch {
                query: query@,
                kind: opt_view(*kind),
                state: opt_view(*state),
                project: opt_view(*project),
                date: opt_view(*date),
                mode: mode@,
            },
            Command::WorkspacePlanRebalance { json } => CommandView::WorkspacePlanRebalance {
                json: *json,
            },
            Command::WorkspaceApplyRebalance { json } => CommandView::WorkspaceApplyRebalance {
                json: *json,
            },
            Command::WorkspaceValidate { json } => CommandView::WorkspaceValidate { json: *json },
            Command::Memory { query } => CommandView::Memory { query: query@ },
            Command::RecordAdd { kind, title, body } => CommandView::RecordAdd {
                kind: kind@,
                title: title@,
                body: body@,
            },
            Command::RecordList { kind } => CommandView::RecordList { kind: opt_view(*kind) },
            Command::RecordShow { id } => CommandView::RecordShow { id: id@ },
            Command::RecordArchive { id } => CommandView::RecordArchive { id: id@ },
            Command::RecordLink { id, target } => CommandView::RecordLink {
                id: id@,
                target: target@,
            },
        }
    }
}

/// A result with its texts taken as character sequences.
pub open spec fn result_view(r: Result<Command, String>) -> Result<CommandView, Seq<char>> {
    match r {
        Ok(c) => Ok(c@),
        Err(e) => Err(e@),
    }
}

pub open spec fn no_args_spec(rest: Seq<Seq<char>>, command: CommandView) -> Result<
    CommandView,
    Seq<char>,
> {
    if rest.len() == 0 {
        Ok(command)
    } else {
        Err("command takes no arguments"@)
    }
}

pub open spec fn parse_run_spec(rest: Seq<Seq<char>>) -> Result<CommandView, Seq<char>> {
    if rest.len() == 0 {
        Ok(CommandView::Run { once: false })
    } else if rest.len() == 1 && rest[0] == "--once"@ {
        Ok(CommandView::Run { once: true })
    } else {
        Err("run accepts --once"@)
    }
}

pub open spec fn parse_send_spec(rest: Seq<Seq<char>>) -> Result<CommandView, Seq<char>> {
    let text = join(without(rest, "--new"@), " "@);
    if text.len() == 0 {
        Err("send requires text"@)
    } else {
        Ok(CommandView::Send { text, force_new: has(rest, "--new"@) })
    }
}

pub open spec fn parse_doctor_spec(rest: Seq<Seq<char>>) -> Result<CommandView, Seq<char>> {
    if rest.len() == 0 {
        Ok(CommandView::Doctor { json: false })
    } else if rest.len() == 1 && rest[0] == "--json"@ {
        Ok(CommandView::Doctor { json: true })
    } else {
        Err("use doctor [--json]"@)
    }
}

pub open spec fn parse_command_spec(command: Seq<char>, rest: Seq<Seq<char>>) -> Result<
    CommandView,
    Seq<char>,
> {
    if command == "help"@ {
        no_args_spec(rest, CommandView::Help)
    } else if command == "run"@ {
        parse_run_spec(rest)
    } else if command == "send"@ {
        parse_send_spec(rest)
    } else if command == "status"@ {
        no_args_spec(rest, CommandView::Status)
    } else if command == "doctor"@ {
        parse_doctor_spec(rest)
    } else {
        Err("unknown command: "@ + command)
    }
}

/// What `parse` gives for arguments `a`: the data directory and the command.
pub open spec fn parse_spec(a: Seq<Seq<char>>) -> Result<(Seq<char>, CommandView), Seq<char>> {
    if a.len() > 0 && a[0] == "--data"@ && a.len() < 3 {
        Err("--data requires a directory and command"@)
    } else {
        let (dir, items) = if a.len() > 0 && a[0] == "--data"@ {
            (a[1], a.skip(2))
        } else {
            ("data"@, a)
        };
        if items.len() == 0 {
            Ok((dir, CommandView::Help))
        } else {
            match parse_command_spec(items[0], items.skip(1)) {
                Ok(c) => Ok((dir, c)),
                Err(e) => Err(e),
            }
        }
    }
}

/// Splits off the global `--data DIR` option and parses the command after it;
/// with no command, the command is `help`.
pub fn parse(args: Vec<String>) -> (r: Result<Invocation, String>)
    ensures
        match r {
            Ok(inv) => parse_spec(views(args@)) == Ok::<(Seq<char>, CommandView), Seq<char>>(
                (inv.data_dir@, inv.command@),
            ),
            Err(e) => parse_spec(views(args@)) == Err::<(Seq<char>, CommandView), Seq<char>>(e@),
        },
{
    let mut data_dir = owned("data");
    let mut items = args;
    let ghost a = views(items@);
    if items.len() > 0 && str_eq(items[0].as_str(), "--data") {
        if items.len() < 3 {
            return Err(owned("--data requires a directory and command"));
        }
        data_dir = items[1].clone();
        let rest = tail_from(&items, 2);
        assert(views(rest@) == a.skip(2));
        items = rest;
    }
    if items.len() == 0 {
        return Ok(Invocation { data_dir, command: Command::Help });
    }
    let command = items[0].clone();
    let rest = tail_from(&items, 1);
    assert(views(rest@) == views(items@).skip(1));
    match parse_command(command.as_str(), rest) {
        Ok(c) => Ok(Invocation { data_dir, command: c }),
        Err(e) => Err(e),
    }
}

/// A copy of `v[from..]`.
pub fn tail_from(v: &Vec<String>, from: usize) -> (r: Vec<String>)
    requires
        from <= v@.len(),
    ensures
        r@ == v@.skip(from as int),
        views(r@) == views(v@).skip(from as int),
{
    let mut r: Vec<String> = Vec::new();
    let mut i = from;
    while i < v.len()
        invariant
            from <= i <= v@.len(),
            r@ == v@.subrange(from as int, i as int),
        decreases v.len() - i,
    {
        r.push(v[i].clone());
        assert(v@.subrange(from as int, i + 1) == v@.subrange(from as int, i as int).push(v@[i as int]));
        i = i + 1;
    }
    assert(v@.subrange(from as int, v@.len() as int) == v@.skip(from as int));
    r
}

fn parse_command(command: &str, rest: Vec<String>) -> (r: Result<Command, String>)
    ensures
        result_view(r) == parse_command_spec(command@, views(rest@)),
{
    if str_eq(command, "help") {
        no_args(rest, Command::Help)
    } else if str_eq(command, "run") {
        parse_run(rest)
    } else if str_eq(command, "send") {
        parse_send(rest)
    } else if str_eq(command, "status") {
        no_args(rest, Command::Status)
    } else if str_eq(command, "doctor") {
        parse_doctor(rest)
    } else {
        let mut e = owned("unknown command: ");
        push_str(&mut e, command);
        Err(e)
    }
}

fn parse_run(rest: Vec<String>) -> (r: Result<Command, String>)
    ensures
        result_view(r) == parse_run_spec(views(rest@)),
{
    if rest.len() == 0 {
        Ok(Command::Run { once: false })
    } else if rest.len() == 1 && str_eq(rest[0].as_str(), "--once") {
        Ok(Command::Run { once: true })
    } else {
        Err(owned("run accepts --once"))
    }
}

fn parse_send(rest: Vec<String>) -> (r: Result<Command, String>)
    ensures
        result_view(r) == parse_send_spec(views(rest@)),
{
    let mut force_new = false;
    let mut words: Vec<String> = Vec::new();
    let ghost all = views(rest@);
    for i in 0..rest.len()
        invariant
            all == views(rest@),
            views(words@) == without(all.take(i as int), "--new"@),
            force_new == has(all.take(i as int), "--new"@),
    {
        let ghost pre = all.take(i as int);
        let ghost next = all.take(i + 1);
        assert(next.drop_last() == pre);
        assert(next.last() == rest@[i as int]@);
        if str_eq(rest[i].as_str(), "--new") {
            force_new = true;
            assert(next[i as int] == "--new"@);
        } else {
            words.push(rest[i].clone());
            assert(views(words@) == without(pre, "--new"@).push(rest@[i as int]@));
            assert(has(next, "--new"@) == has(pre, "--new"@)) by {
                if has(next, "--new"@) {
                    let k = choose|k: int| 0 <= k < next.len() && next[k] == "--new"@;
                    assert(k < i);
                    assert(pre[k] == "--new"@);
                }
            }
        }
    }
    assert(all.take(rest.len() as int) == all);
    let text = join_strings(&words, " ");
    if text.as_str().is_empty() {
        Err(owned("send requires text"))
    } else {
        Ok(Command::Send { text, force_new })
    }
}

fn parse_doctor(rest: Vec<String>) -> (r: Result<Command, String>)
    ensures
        result_view(r) == parse_doctor_spec(views(rest@)),
{
    if rest.len() == 0 {
        Ok(Command::Doctor { json: false })
    } else if rest.len() == 1 && str_eq(rest[0].as_str(), "--json") {
        Ok(Command::Doctor { json: true })
    } else {
        Err(owned("use doctor [--json]"))
    }
}

/// `command`, when no arguments follow it.
pub fn no_args(rest: Vec<String>, command: Command) -> (r: Result<Command, String>)
    ensures
        result_view(r) == no_args_spec(views(rest@), command@),
{
    if rest.len() == 0 {
        Ok(command)
    } else {
        Err(owned("command takes no arguments"))
    }
}

} // verus!
