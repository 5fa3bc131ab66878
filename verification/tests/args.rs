use lkjagent_app::arg_helpers::{
    no_args, only_json, parse_context, parse_json_flag, parse_log, parse_matter, parse_memory,
    parse_queue, parse_workspace, parse_workspace_report, parse_workspace_search, workspace_usage,
};
use lkjagent_app::args::{parse, tail_from, Command, Invocation};
use lkjagent_app::record_args::{parse_record, title_body};

fn words(items: &[&str]) -> Vec<String> {
    items.iter().map(|item| item.to_string()).collect()
}

#[test]
fn no_command_means_help_in_the_default_data_dir() {
    assert_eq!(
        parse(words(&[])),
        Ok(Invocation { data_dir: "data".into(), command: Command::Help })
    );
}

#[test]
fn data_option_moves_the_data_dir() {
    assert_eq!(
        parse(words(&["--data", "/tmp/agent", "status"])),
        Ok(Invocation { data_dir: "/tmp/agent".into(), command: Command::Status })
    );
    assert_eq!(
        parse(words(&["--data", "/tmp/agent"])),
        Err("--data requires a directory and command".into())
    );
    assert_eq!(
        parse(words(&["--data"])),
        Err("--data requires a directory and command".into())
    );
}

#[test]
fn commands_parse_their_arguments() {
    assert_eq!(parse(words(&["run"])).map(|i| i.command), Ok(Command::Run { once: false }));
    assert_eq!(parse(words(&["run", "--once"])).map(|i| i.command), Ok(Command::Run { once: true }));
    assert_eq!(parse(words(&["run", "--twice"])), Err("run accepts --once".into()));
    assert_eq!(parse(words(&["doctor"])).map(|i| i.command), Ok(Command::Doctor { json: false }));
    assert_eq!(parse(words(&["doctor", "--json"])).map(|i| i.command), Ok(Command::Doctor { json: true }));
    assert_eq!(parse(words(&["doctor", "-j"])), Err("use doctor [--json]".into()));
    assert_eq!(parse(words(&["status", "now"])), Err("command takes no arguments".into()));
    assert_eq!(parse(words(&["help"])).map(|i| i.command), Ok(Command::Help));
    assert_eq!(parse(words(&["fly"])), Err("unknown command: fly".into()));
}

#[test]
fn send_joins_its_words_and_takes_new_anywhere() {
    assert_eq!(
        parse(words(&["send", "hello", "--new", "world"])).map(|i| i.command),
        Ok(Command::Send { text: "hello world".into(), force_new: true })
    );
    assert_eq!(
        parse(words(&["send", "hello"])).map(|i| i.command),
        Ok(Command::Send { text: "hello".into(), force_new: false })
    );
    assert_eq!(parse(words(&["send", "--new"])), Err("send requires text".into()));
    assert_eq!(parse(words(&["send"])), Err("send requires text".into()));
}

#[test]
fn tail_copies_the_rest() {
    assert_eq!(tail_from(&words(&["a", "b", "c"]), 1), words(&["b", "c"]));
    assert_eq!(tail_from(&words(&["a"]), 1), words(&[]));
}

#[test]
fn matter_and_queue_take_list_or_show() {
    assert_eq!(parse_matter(words(&["list"])), Ok(Command::MatterList));
    assert_eq!(parse_matter(words(&["show", "12"])), Ok(Command::MatterShow { id: 12 }));
    assert_eq!(parse_matter(words(&["show", "x"])), Err("invalid digit found in string".into()));
    assert_eq!(parse_matter(words(&["show", ""])), Err("cannot parse integer from empty string".into()));
    assert_eq!(
        parse_matter(words(&["show", "18446744073709551616"])),
        Err("number too large to fit in target type".into())
    );
    assert_eq!(parse_matter(words(&[])), Err("use matter list | matter show REF".into()));
    assert_eq!(parse_queue(words(&["list"])), Ok(Command::QueueList));
    assert_eq!(parse_queue(words(&["show", "-3"])), Ok(Command::QueueShow { id: -3 }));
    assert_eq!(
        parse_queue(words(&["show", "-9223372036854775809"])),
        Err("number too small to fit in target type".into())
    );
    assert_eq!(parse_queue(words(&["show"])), Err("use queue list | queue show ID".into()));
}

#[test]
fn context_resolve_takes_three_values() {
    assert_eq!(
        parse_context(words(&["resolve", "c1", "key", "item-2"])),
        Ok(Command::ContextResolve {
            case_id: "c1".into(),
            semantic_key: "key".into(),
            winning_item_id: "item-2".into(),
        })
    );
    assert_eq!(
        parse_context(words(&["resolve", "c1"])),
        Err("use context resolve CASE_ID KEY WINNING_ITEM_ID".into())
    );
}

#[test]
fn log_reads_limit_and_follow() {
    assert_eq!(parse_log(words(&[])), Ok(Command::Log { limit: 20, follow: false }));
    assert_eq!(
        parse_log(words(&["--limit", "5", "--follow"])),
        Ok(Command::Log { limit: 5, follow: true })
    );
    assert_eq!(parse_log(words(&["--limit"])), Err("use log [--limit N] [--follow]".into()));
    assert_eq!(parse_log(words(&["--limit", "-1"])), Err("invalid digit found in string".into()));
    assert_eq!(parse_log(words(&["--tail"])), Err("use log [--limit N] [--follow]".into()));
}

#[test]
fn workspace_subcommands_and_report_flags() {
    assert_eq!(parse_workspace(words(&[])), Ok(Command::Workspace { json: false, rebuild: false }));
    assert_eq!(
        parse_workspace(words(&["--rebuild", "--json"])),
        Ok(Command::Workspace { json: true, rebuild: true })
    );
    assert_eq!(parse_workspace(words(&["validate", "--json"])), Ok(Command::WorkspaceValidate { json: true }));
    assert_eq!(parse_workspace(words(&["plan-rebalance"])), Ok(Command::WorkspacePlanRebalance { json: false }));
    assert_eq!(
        parse_workspace(words(&["apply-rebalance", "--json"])),
        Ok(Command::WorkspaceApplyRebalance { json: true })
    );
    assert_eq!(parse_workspace(words(&["validate", "--yaml"])), Err(workspace_usage()));
    assert_eq!(parse_workspace(words(&["--verbose"])), Err(workspace_usage()));
    assert_eq!(parse_workspace_report(words(&["--json"])), Ok(Command::Workspace { json: true, rebuild: false }));
    assert!(workspace_usage().starts_with("use workspace [--json] [--rebuild] | search QUERY"));
}

#[test]
fn workspace_search_reads_its_options() {
    assert_eq!(
        parse_workspace_search(&words(&["moon", "--kind", "note", "--mode", "trigram"])),
        Ok(Command::WorkspaceSearch {
            query: "moon".into(),
            kind: Some("note".into()),
            state: None,
            project: None,
            date: None,
            mode: "trigram".into(),
        })
    );
    assert_eq!(
        parse_workspace(words(&["search", "moon", "--date", "2026-07-12", "--state", "open", "--project", "p"])),
        Ok(Command::WorkspaceSearch {
            query: "moon".into(),
            kind: None,
            state: Some("open".into()),
            project: Some("p".into()),
            date: Some("2026-07-12".into()),
            mode: "lexical".into(),
        })
    );
    assert_eq!(parse_workspace_search(&words(&[])), Err(workspace_usage()));
    assert_eq!(parse_workspace_search(&words(&["moon", "--kind"])), Err(workspace_usage()));
    assert_eq!(parse_workspace_search(&words(&["moon", "--color", "red"])), Err(workspace_usage()));
}

#[test]
fn json_flags_and_memory_queries() {
    assert_eq!(only_json(&words(&[])), Ok(false));
    assert_eq!(only_json(&words(&["--json"])), Ok(true));
    assert_eq!(only_json(&words(&["--json", "--json"])), Err(workspace_usage()));
    assert_eq!(parse_json_flag("status", words(&[])), Ok(false));
    assert_eq!(parse_json_flag("status", words(&["--json"])), Ok(true));
    assert_eq!(parse_json_flag("status", words(&["-x"])), Err("use status [--json]".into()));
    assert_eq!(parse_memory(words(&["transit", "card"])), Ok(Command::Memory { query: "transit card".into() }));
    assert_eq!(parse_memory(words(&[" ", ""])), Err("memory requires QUERY".into()));
    assert_eq!(parse_memory(words(&[])), Err("memory requires QUERY".into()));
    assert_eq!(no_args(words(&[]), Command::QueueList), Ok(Command::QueueList));
    assert_eq!(no_args(words(&["x"]), Command::QueueList), Err("command takes no arguments".into()));
}

#[test]
fn record_add_splits_title_and_body() {
    assert_eq!(
        parse_record(words(&["add", "note", "Transit", "card", "--body", "in", "the", "drawer"])),
        Ok(Command::RecordAdd {
            kind: "note".into(),
            title: "Transit card".into(),
            body: "in the drawer".into(),
        })
    );
    assert_eq!(
        title_body(&words(&["a", "--body", "b", "--body", "c"])),
        Ok(("a".into(), "b c".into()))
    );
    assert_eq!(title_body(&words(&["--body", "b"])), Err("record add requires TITLE".into()));
    assert_eq!(
        parse_record(words(&["add", "note", "--body", "x"])),
        Err("record add requires TITLE".into())
    );
}

#[test]
fn record_list_show_link_archive() {
    let usage = "use record add KIND TITLE [--body TEXT] | list [KIND] | show ID | link ID REF | archive ID";
    assert_eq!(parse_record(words(&["list"])), Ok(Command::RecordList { kind: None }));
    assert_eq!(parse_record(words(&["list", "note"])), Ok(Command::RecordList { kind: Some("note".into()) }));
    assert_eq!(parse_record(words(&["show", "r1"])), Ok(Command::RecordShow { id: "r1".into() }));
    assert_eq!(parse_record(words(&["archive", "r1"])), Ok(Command::RecordArchive { id: "r1".into() }));
    assert_eq!(
        parse_record(words(&["link", "r1", "r2"])),
        Ok(Command::RecordLink { id: "r1".into(), target: "r2".into() })
    );
    assert_eq!(parse_record(words(&["add", "note"])), Err(usage.into()));
    assert_eq!(parse_record(words(&["show"])), Err(usage.into()));
}
