use lkjagent_app::cli::{help, run, Outcome};
use lkjagent_app::console::{banner, command, handle_line, queued_reply, reply, ConsoleAction, ConsoleReply};

fn words(items: &[&str]) -> Vec<String> {
    items.iter().map(|item| item.to_string()).collect()
}

fn printed(action: ConsoleAction) -> Option<ConsoleReply> {
    match action {
        ConsoleAction::Reply(reply) => Some(reply),
        _ => None,
    }
}

#[test]
fn help_is_local_console_output() {
    let reply = printed(handle_line("/help")).expect("local reply");
    assert!(!reply.quit);
    assert!(reply.output.contains("/status"));
    assert!(reply.output.contains("/send TEXT"));
}

#[test]
fn quit_and_exit_stop_the_console() {
    assert_eq!(printed(handle_line("/quit")), Some(ConsoleReply { output: "console: bye".into(), quit: true }));
    assert_eq!(printed(handle_line("  /exit now ")), Some(ConsoleReply { output: "console: bye".into(), quit: true }));
}

#[test]
fn plain_text_and_send_lines_queue_messages() {
    assert!(matches!(
        handle_line("  hello there  "),
        ConsoleAction::Enqueue { ref text, force_new: false } if text == "hello there"
    ));
    assert!(matches!(
        handle_line("/new  fresh start "),
        ConsoleAction::Enqueue { ref text, force_new: true } if text == "fresh start"
    ));
    assert!(matches!(
        handle_line("/send again"),
        ConsoleAction::Enqueue { ref text, force_new: false } if text == "again"
    ));
    assert_eq!(
        printed(handle_line("/send   ")),
        Some(ConsoleReply { output: "console: message text required".into(), quit: false })
    );
    assert_eq!(
        printed(handle_line("/new")),
        Some(ConsoleReply { output: "console: message text required".into(), quit: false })
    );
}

#[test]
fn blank_lines_print_nothing_and_unknown_commands_are_named() {
    assert_eq!(printed(handle_line("   ")), Some(ConsoleReply { output: String::new(), quit: false }));
    assert_eq!(
        printed(handle_line("/dance now")),
        Some(ConsoleReply { output: "console: unknown command /dance".into(), quit: false })
    );
}

#[test]
fn inspection_commands_are_left_to_the_store() {
    assert!(matches!(handle_line("/status"), ConsoleAction::Status));
    assert!(matches!(handle_line("/watch"), ConsoleAction::Watch));
    assert!(matches!(handle_line("/log"), ConsoleAction::Log));
    assert!(matches!(handle_line("/queue"), ConsoleAction::Queue));
    assert!(matches!(handle_line("/task"), ConsoleAction::Task));
}

#[test]
fn slash_commands_split_at_the_first_space() {
    assert_eq!(command("/send a  b "), Some(("/send".into(), "a  b".into())));
    assert_eq!(command("/help"), Some(("/help".into(), String::new())));
    assert_eq!(command("hello /x"), None);
    assert_eq!(command(""), None);
}

#[test]
fn replies_and_queue_receipts() {
    assert_eq!(reply("x".into(), true), ConsoleReply { output: "x".into(), quit: true });
    assert_eq!(queued_reply(1, false), ConsoleReply { output: "queue: 1 new=false".into(), quit: false });
    assert_eq!(queued_reply(-7, true).output, "queue: -7 new=true");
    assert_eq!(banner(), "lkjagent console: type text to send, /help for commands, /quit to exit");
}

#[test]
fn command_line_outcomes() {
    assert!(matches!(run(words(&[])), Ok(Outcome::Output(ref text)) if *text == help()));
    assert!(help().starts_with("lkjagent commands:\n  help\n"));
    assert!(matches!(
        run(words(&["--data", "d", "send", "--new", "hi"])),
        Ok(Outcome::Send { ref data_dir, ref text, force_new: true }) if data_dir == "d" && text == "hi"
    ));
    assert!(matches!(run(words(&["status"])), Ok(Outcome::Status { ref data_dir }) if data_dir == "data"));
    assert!(matches!(run(words(&["doctor", "--json"])), Ok(Outcome::Doctor { json: true, .. })));
    assert!(matches!(run(words(&["run", "--once"])), Ok(Outcome::RunOnce { .. })));
    assert!(matches!(run(words(&["run"])), Ok(Outcome::RunForever { .. })));
    assert!(matches!(run(words(&["jump"])), Err(ref e) if e == "unknown command: jump"));
}
