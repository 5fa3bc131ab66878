//! Grammars of the inspection commands: matters, queue, context, log,
//! workspace and memory.
use vstd::prelude::*;
use crate::args::{Command, CommandView, result_view, no_args_spec};
use crate::number::{int_error_message, int_error_text, parse_i64, parse_i64_spec, parse_unsigned, parse_unsigned_spec};
use crate::text::{has, is_ws, is_ws_exec, join, join_strings, chars_of, owned, push_str, str_eq, views};

verus! {

pub open spec fn matter_spec(rest: Seq<Seq<char>>) -> Result<CommandView, Seq<char>> {
    if rest.len() == 1 && rest[0] == "list"@ {
        Ok(CommandView::MatterList)
    } else if rest.len() == 2 && rest[0] == "show"@ {
        match parse_unsigned_spec(rest[1], 0xffff_ffff_ffff_ffff) {
            Ok(v) => Ok(CommandView::MatterShow { id: v as u64 }),
            Err(e) => Err(int_error_text(e)),
        }
    } else {
        Err("use matter list | matter show REF"@)
    }
}

/// `matter list` or `matter show ID`, the id a `u64`.
pub fn parse_matter(rest: Vec<String>) -> (r: Result<Command, String>)
    ensures
        result_view(r) == matter_spec(views(rest@)),
{
    if rest.len() == 1 && str_eq(rest[0].as_str(), "list") {
        Ok(Command::MatterList)
    } else if rest.len() == 2 && str_eq(rest[0].as_str(), "show") {
        match parse_unsigned(rest[1].as_str(), 0xffff_ffff_ffff_ffff) {
            Ok(id) => Ok(Command::MatterShow { id }),
            Err(e) => Err(int_error_message(e)),
        }
    } else {
        Err(owned("use matter list | matter show REF"))
    }
}

pub open spec fn queue_spec(rest: Seq<Seq<char>>) -> Result<CommandView, Seq<char>> {
    if rest.len() == 1 && rest[0] == "list"@ {
        Ok(CommandView::QueueList)
    } else if rest.len() == 2 && rest[0] == "show"@ {
        match parse_i64_spec(rest[1]) {
            Ok(v) => Ok(CommandView::QueueShow { id: v as i64 }),
            Err(e) => Err(int_error_text(e)),
        }
    } else {
        Err("use queue list | queue show ID"@)
    }
}

/// `queue list` or `queue show ID`, the id an `i64`.
pub fn parse_queue(rest: Vec<String>) -> (r: Result<Command, String>)
    ensures
        result_view(r) == queue_spec(views(rest@)),
{
    if rest.len() == 1 && str_eq(rest[0].as_str(), "list") {
        Ok(Command::QueueList)
    } else if rest.len() == 2 && str_eq(rest[0].as_str(), "show") {
        match parse_i64(rest[1].as_str()) {
            Ok(id) => Ok(Command::QueueShow { id }),
            Err(e) => Err(int_error_message(e)),
        }
    } else {
        Err(owned("use queue list | queue show ID"))
    }
}

pub open spec fn context_spec(rest: Seq<Seq<char>>) -> Result<CommandView, Seq<char>> {
    if rest.len() == 4 && rest[0] == "resolve"@ {
        Ok(
            CommandView::ContextResolve {
                case_id: rest[1],
                semantic_key: rest[2],
                winning_item_id: rest[3],
            },
        )
    } else {
        Err("use context resolve CASE_ID KEY WINNING_ITEM_ID"@)
    }
}

/// `context resolve CASE_ID KEY WINNING_ITEM_ID`.
pub fn parse_context(rest: Vec<String>) -> (r: Result<Command, String>)
    ensures
        result_view(r) == context_spec(views(rest@)),
{
    if rest.len() == 4 && str_eq(rest[0].as_str(), "resolve") {
        Ok(
            Command::ContextResolve {
                case_id: rest[1].clone(),
                semantic_key: rest[2].clone(),
                winning_item_id: rest[3].clone(),
            },
        )
    } else {
        Err(owned("use context resolve CASE_ID KEY WINNING_ITEM_ID"))
    }
}

/// Reading the `log` options from position `index` on.
pub open spec fn log_spec(rest: Seq<Seq<char>>, index: int, limit: usize, follow: bool) -> Result<
    CommandView,
    Seq<char>,
>
    decreases rest.len() - index,
{
    if index < 0 || index >= rest.len() {
        Ok(CommandView::Log { limit, follow })
    } else if rest[index] == "--follow"@ {
        log_spec(rest, index + 1, limit, true)
    } else if rest[index] == "--limit"@ {
        if index + 1 >= rest.len() {
            Err("use log [--limit N] [--follow]"@)
        } else {
            match parse_unsigned_spec(rest[index + 1], usize::MAX as nat) {
                Ok(v) => log_spec(rest, index + 2, v as usize, follow),
                Err(e) => Err(int_error_text(e)),
            }
        }
    } else {
        Err("use log [--limit N] [--follow]"@)
    }
}

/// `log [--limit N] [--follow]`, any number of times each; the last limit wins,
/// 20 by default.
pub fn parse_log(rest: Vec<String>) -> (r: Result<Command, String>)
    ensures
        result_view(r) == log_spec(views(rest@), 0, 20, false),
{
    let mut limit: usize = 20;
    let mut follow = false;
    let mut index: usize = 0;
    let ghost all = views(rest@);
    while index < rest.len()
        invariant
            all == views(rest@),
            index <= rest@.len(),
            log_spec(all, 0, 20, false) == log_spec(all, index as int, limit, follow),
        decreases rest.len() - index,
    {
        if str_eq(rest[index].as_str(), "--follow") {
            follow = true;
            index += 1;
        } else if str_eq(rest[index].as_str(), "--limit") {
            if index + 1 >= rest.len() {
                return Err(owned("use log [--limit N] [--follow]"));
            }
            match parse_unsigned(rest[index + 1].as_str(), usize::MAX as u64) {
                Ok(v) => {
                    limit = v as usize;
                },
                Err(e) => {
                    return Err(int_error_message(e));
                },
            }
            index += 2;
        } else {
            return Err(owned("use log [--limit N] [--follow]"));
        }
    }
    Ok(Command::Log { limit, follow })
}

pub open spec fn usage_text() -> Seq<char> {
    "use workspace [--json] [--rebuild] | search QUERY [--kind KIND] [--state STATE] [--project PROJECT] [--date DATE] [--mode lexical|trigram] | plan-rebalance [--json] | apply-rebalance [--json] | validate [--json]"@
}

/// The usage line of the `workspace` command.
pub fn workspace_usage() -> (r: String)
    ensures
        r@ == usage_text(),
{
    owned(
        "use workspace [--json] [--rebuild] | search QUERY [--kind KIND] [--state STATE] [--project PROJECT] [--date DATE] [--mode lexical|trigram] | plan-rebalance [--json] | apply-rebalance [--json] | validate [--json]",
    )
}

pub open spec fn only_json_spec(flags: Seq<Seq<char>>) -> Result<bool, Seq<char>> {
    if flags.len() == 0 {
        Ok(false)
    } else if flags.len() == 1 && flags[0] == "--json"@ {
        Ok(true)
    } else {
        Err(usage_text())
    }
}

/// No flags, or the single flag `--json`.
pub fn only_json(flags: &[String]) -> (r: Result<bool, String>)
    ensures
        match r {
            Ok(b) => only_json_spec(views(flags@)) == Ok::<bool, Seq<char>>(b),
            Err(e) => only_json_spec(views(flags@)) == Err::<bool, Seq<char>>(e@),
        },
{
    if flags.len() == 0 {
        Ok(false)
    } else if flags.len() == 1 && str_eq(flags[0].as_str(), "--json") {
        Ok(true)
    } else {
        Err(workspace_usage())
    }
}

/// The search filters read from position `index` on.
pub open spec fn search_spec(
    values: Seq<Seq<char>>,
    index: int,
    kind: Option<Seq<char>>,
    state: Option<Seq<char>>,
    project: Option<Seq<char>>,
    date: Option<Seq<char>>,
    mode: Seq<char>,
) -> Result<CommandView, Seq<char>>
    decreases values.len() - index,
{
    if index < 1 || index >= values.len() {
        Ok(
            CommandView::WorkspaceSearch {
                query: values[0],
                kind,
                state,
                project,
                date,
                mode,
            },
        )
    } else if index + 1 >= values.len() {
        Err(usage_text())
    } else {
        let flag = values[index];
        let value = values[index + 1];
        if flag == "--kind"@ {
            search_spec(values, index + 2, Some(value), state, project, date, mode)
        } else if flag == "--state"@ {
            search_spec(values, index + 2, kind, Some(value), project, date, mode)
        } else if flag == "--project"@ {
            search_spec(values, index + 2, kind, state, Some(value), date, mode)
        } else if flag == "--date"@ {
            search_spec(values, index + 2, kind, state, project, Some(value), mode)
        } else if flag == "--mode"@ {
            search_spec(values, index + 2, kind, state, project, date, value)
        } else {
            Err(usage_text())
        }
    }
}

pub open spec fn workspace_search_spec(values: Seq<Seq<char>>) -> Result<CommandView, Seq<char>> {
    if values.len() == 0 {
        Err(usage_text())
    } else {
        search_spec(values, 1, None, None, None, None, "lexical"@)
    }
}

pub open spec fn optv(o: Option<String>) -> Option<Seq<char>> {
    crate::args::opt_view(o)
}

/// `search QUERY` followed by `--kind`, `--state`, `--project`, `--date` and
/// `--mode` options, each with a value; the last of each wins.
pub fn parse_workspace_search(values: &[String]) -> (r: Result<Command, String>)
    ensures
        result_view(r) == workspace_search_spec(views(values@)),
{
    if values.len() == 0 {
        return Err(workspace_usage());
    }
    let query = values[0].clone();
    let mut kind: Option<String> = None;
    let mut state: Option<String> = None;
    let mut project: Option<String> = None;
    let mut date: Option<String> = None;
    let mut mode = owned("lexical");
    let mut index: usize = 1;
    let ghost all = views(values@);
    while index < values.len()
        invariant
            all == views(values@),
            1 <= index,
            all.len() > 0,
            query@ == all[0],
            workspace_search_spec(all) == search_spec(
                all,
                index as int,
                optv(kind),
                optv(state),
                optv(project),
                optv(date),
                mode@,
            ),
        decreases values.len() - index,
    {
        if index + 1 >= values.len() {
            return Err(workspace_usage());
        }
        let value = values[index + 1].clone();
        let flag = values[index].as_str();
        if str_eq(flag, "--kind") {
            kind = Some(value);
        } else if str_eq(flag, "--state") {
            state = Some(value);
        } else if str_eq(flag, "--project") {
            project = Some(value);
        } else if str_eq(flag, "--date") {
            date = Some(value);
        } else if str_eq(flag, "--mode") {
            mode = value;
        } else {
            return Err(workspace_usage());
        }
        index += 2;
    }
    Ok(Command::WorkspaceSearch { query, kind, state, project, date, mode })
}

pub open spec fn report_flags_ok(rest: Seq<Seq<char>>) -> bool {
    forall|i: int| 0 <= i < rest.len() ==> (rest[i] == "--json"@ || rest[i] == "--rebuild"@)
}

pub open spec fn workspace_report_spec(rest: Seq<Seq<char>>) -> Result<CommandView, Seq<char>> {
    if report_flags_ok(rest) {
        Ok(
            CommandView::Workspace {
                json: has(rest, "--json"@),
                rebuild: has(rest, "--rebuild"@),
            },
        )
    } else {
        Err(usage_text())
    }
}

/// `workspace [--json] [--rebuild]`.
pub fn parse_workspace_report(rest: Vec<String>) -> (r: Result<Command, String>)
    ensures
        result_view(r) == workspace_report_spec(views(rest@)),
{
    let mut json = false;
    let mut rebuild = false;
    let ghost all = views(rest@);
    for i in 0..rest.len()
        invariant
            all == views(rest@),
            report_flags_ok(all.take(i as int)),
            json == has(all.take(i as int), "--json"@),
            rebuild == has(all.take(i as int), "--rebuild"@),
    {
        let ghost pre = all.take(i as int);
        let ghost next = all.take(i + 1);
        assert(next.drop_last() == pre);
        assert(next[i as int] == rest@[i as int]@);
        proof {
            reveal_strlit("--json");
            reveal_strlit("--rebuild");
        }
        if str_eq(rest[i].as_str(), "--json") {
            json = true;
        } else if str_eq(rest[i].as_str(), "--rebuild") {
            rebuild = true;
        } else {
            assert(!report_flags_ok(all));
            return Err(workspace_usage());
        }
        assert(forall|w: Seq<char>| has(next, w) <==> (has(pre, w) || next[i as int] == w)) by {
            assert forall|w: Seq<char>| has(next, w) implies (has(pre, w) || next[i as int]
                == w) by {
                let k = choose|k: int| 0 <= k < next.len() && next[k] == w;
                if k < i {
                    assert(pre[k] == w);
                }
            }
            assert forall|w: Seq<char>| has(pre, w) implies has(next, w) by {
                let k = choose|k: int| 0 <= k < pre.len() && pre[k] == w;
                assert(next[k] == w);
            }
        }
    }
    assert(all.take(rest.len() as int) == all);
    Ok(Command::Workspace { json, rebuild })
}

pub open spec fn json_result(r: Result<bool, Seq<char>>, make: spec_fn(bool) -> CommandView) -> Result<
    CommandView,
    Seq<char>,
> {
    match r {
        Ok(b) => Ok(make(b)),
        Err(e) => Err(e),
    }
}

pub open spec fn workspace_spec(rest: Seq<Seq<char>>) -> Result<CommandView, Seq<char>> {
    if rest.len() >= 1 && rest[0] == "search"@ {
        workspace_search_spec(rest.skip(1))
    } else if rest.len() >= 1 && rest[0] == "plan-rebalance"@ {
        json_result(only_json_spec(rest.skip(1)), |b: bool| CommandView::WorkspacePlanRebalance { json: b })
    } else if rest.len() >= 1 && rest[0] == "apply-rebalance"@ {
        json_result(only_json_spec(rest.skip(1)), |b: bool| CommandView::WorkspaceApplyRebalance { json: b })
    } else if rest.len() >= 1 && rest[0] == "validate"@ {
        json_result(only_json_spec(rest.skip(1)), |b: bool| CommandView::WorkspaceValidate { json: b })
    } else {
        workspace_report_spec(rest)
    }
}

/// `workspace` and its subcommands `search`, `plan-rebalance`,
/// `apply-rebalance` and `validate`.
pub fn parse_workspace(rest: Vec<String>) -> (r: Result<Command, String>)
    ensures
        result_view(r) == workspace_spec(views(rest@)),
{
    if rest.len() >= 1 {
        let tail = crate::args::tail_from(&rest, 1);
        let first = rest[0].as_str();
        if str_eq(first, "search") {
            return parse_workspace_search(tail.as_slice());
        } else if str_eq(first, "plan-rebalance") {
            return match only_json(tail.as_slice()) {
                Ok(json) => Ok(Command::WorkspacePlanRebalance { json }),
                Err(e) => Err(e),
            };
        } else if str_eq(first, "apply-rebalance") {
            return match only_json(tail.as_slice()) {
                Ok(json) => Ok(Command::WorkspaceApplyRebalance { json }),
                Err(e) => Err(e),
            };
        } else if str_eq(first, "validate") {
            return match only_json(tail.as_slice()) {
                Ok(json) => Ok(Command::WorkspaceValidate { json }),
                Err(e) => Err(e),
            };
        }
    }
    parse_workspace_report(rest)
}

pub open spec fn json_flag_spec(command: Seq<char>, rest: Seq<Seq<char>>) -> Result<bool, Seq<char>> {
    if rest.len() == 0 {
        Ok(false)
    } else if rest.len() == 1 && rest[0] == "--json"@ {
        Ok(true)
    } else {
        Err("use "@ + command + " [--json]"@)
    }
}

/// No arguments, or the single flag `--json`, after `command`.
pub fn parse_json_flag(command: &str, rest: Vec<String>) -> (r: Result<bool, String>)
    ensures
        match r {
            Ok(b) => json_flag_spec(command@, views(rest@)) == Ok::<bool, Seq<char>>(b),
            Err(e) => json_flag_spec(command@, views(rest@)) == Err::<bool, Seq<char>>(e@),
        },
{
    if rest.len() == 0 {
        Ok(false)
    } else if rest.len() == 1 && str_eq(rest[0].as_str(), "--json") {
        Ok(true)
    } else {
        let mut e = owned("use ");
        push_str(&mut e, command);
        push_str(&mut e, " [--json]");
        Err(e)
    }
}

pub open spec fn all_ws(s: Seq<char>) -> bool {
    forall|i: int| 0 <= i < s.len() ==> is_ws(s[i])
}

pub open spec fn memory_spec(rest: Seq<Seq<char>>) -> Result<CommandView, Seq<char>> {
    let query = join(rest, " "@);
    if all_ws(query) {
        Err("memory requires QUERY"@)
    } else {
        Ok(CommandView::Memory { query })
    }
}

/// `memory QUERY...`: the words joined by spaces, refused when blank.
pub fn parse_memory(rest: Vec<String>) -> (r: Result<Command, String>)
    ensures
        result_view(r) == memory_spec(views(rest@)),
{
    let query = join_strings(&rest, " ");
    let c = chars_of(query.as_str());
    let mut blank = true;
    for i in 0..c.len()
        invariant
            c@ == query@,
            blank == all_ws(c@.take(i as int)),
    {
        assert(c@.take(i + 1).drop_last() == c@.take(i as int));
        assert(c@.take(i + 1)[i as int] == c@[i as int]);
        assert(all_ws(c@.take(i + 1)) == (all_ws(c@.take(i as int)) && is_ws(c@[i as int])));
        if !is_ws_exec(c[i]) {
            blank = false;
        }
    }
    assert(c@.take(c@.len() as int) == c@);
    if blank {
        Err(owned("memory requires QUERY"))
    } else {
        Ok(Command::Memory { query })
    }
}

/// `command`, when no arguments follow it.
pub fn no_args(rest: Vec<String>, command: Command) -> (r: Result<Command, String>)
    ensures
        result_view(r) == no_args_spec(views(rest@), command@),
{
    if rest.len() == 0 {
        Ok(command)
    } else {
        Err(owned("command takes no arguments"))
    }
}

} // verus!
