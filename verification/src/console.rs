//! The interactive console: what each input line asks for.  Replies that
//! need the store are left to the caller as actions.
use vstd::prelude::*;
use crate::number::{i64_text, signed_decimal};
use crate::text::{chars_of, owned, push_str, split_once, split_once_exec, str_eq, string_of, trim, trim_exec};

verus! {

/// What the console prints for a line, and whether it then stops.
#[derive(Debug, Clone, PartialEq, Eq)]
pub struct ConsoleReply {
    pub output: String,
    pub quit: bool,
}

pub open spec fn banner_text() -> Seq<char> {
    "lkjagent console: type text to send, /help for commands, /quit to exit"@
}

pub open spec fn help_text() -> Seq<char> {
    "lkjagent console commands: text | /help | /status | /watch | /log | /queue | /task | /send TEXT | /new TEXT | /quit"@
}

/// The greeting printed when the console starts.
pub fn banner() -> (r: String)
    ensures
        r@ == banner_text(),
{
    owned("lkjagent console: type text to send, /help for commands, /quit to exit")
}

/// A reply.
pub fn reply(output: String, quit: bool) -> (r: ConsoleReply)
    ensures
        r.output@ == output@,
        r.quit == quit,
{
    ConsoleReply { output, quit }
}

/// A slash command's name and its trimmed argument text.
pub open spec fn command_spec(line: Seq<char>) -> Option<(Seq<char>, Seq<char>)> {
    if line.len() == 0 || line[0] != '/' {
        None
    } else {
        match split_once(line, " "@) {
            Some((name, rest)) => Some((name, trim(rest))),
            None => Some((line, Seq::empty())),
        }
    }
}

/// Splits a `/command rest` line; `None` for plain text.
pub fn command(line: &str) -> (r: Option<(String, String)>)
    ensures
        match r {
            Some((n, a)) => command_spec(line@) == Some((n@, a@)),
            None => command_spec(line@) is None,
        },
{
    let c = chars_of(line);
    if c.len() == 0 || c[0] != '/' {
        return None;
    }
    let space = chars_of(" ");
    match split_once_exec(c.as_slice(), space.as_slice()) {
        Some((name, rest)) => {
            let t = trim_exec(rest.as_slice());
            Some((string_of(name.as_slice()), string_of(t.as_slice())))
        },
        None => Some((owned(line), String::new())),
    }
}

/// What a console line asks for.
pub enum ConsoleAction {
    /// Print this reply.
    Reply(ConsoleReply),
    Status,
    Watch,
    /// The last 20 log rows.
    Log,
    Queue,
    Task,
    /// Queue a message.
    Enqueue { text: String, force_new: bool },
}

pub enum ActionView {
    Reply(Seq<char>, bool),
    Status,
    Watch,
    Log,
    Queue,
    Task,
    Enqueue(Seq<char>, bool),
}

impl View for ConsoleAction {
    type V = ActionView;

    open spec fn view(&self) -> ActionView {
        match self {
            ConsoleAction::Reply(r) => ActionView::Reply(r.output@, r.quit),
            ConsoleAction::Status => ActionView::Status,
            ConsoleAction::Watch => ActionView::Watch,
            ConsoleAction::Log => ActionView::Log,
            ConsoleAction::Queue => ActionView::Queue,
            ConsoleAction::Task => ActionView::Task,
            ConsoleAction::Enqueue { text, force_new } => ActionView::Enqueue(text@, *force_new),
        }
    }
}

pub open spec fn enqueue_spec(text: Seq<char>, force_new: bool) -> ActionView {
    if trim(text).len() == 0 {
        ActionView::Reply("console: message text required"@, false)
    } else {
        ActionView::Enqueue(text, force_new)
    }
}

pub open spec fn action_spec(line: Seq<char>) -> ActionView {
    let t = trim(line);
    if t.len() == 0 {
        ActionView::Reply(Seq::empty(), false)
    } else {
        match command_spec(t) {
            None => enqueue_spec(t, false),
            Some((name, rest)) => if name == "/quit"@ || name == "/exit"@ {
                ActionView::Reply("console: bye"@, true)
            } else if name == "/help"@ {
                ActionView::Reply(help_text(), false)
            } else if name == "/status"@ {
                ActionView::Status
            } else if name == "/watch"@ {
                ActionView::Watch
            } else if name == "/log"@ {
                ActionView::Log
            } else if name == "/queue"@ {
                ActionView::Queue
            } else if name == "/task"@ {
                ActionView::Task
            } else if name == "/new"@ {
                enqueue_spec(rest, true)
            } else if name == "/send"@ {
                enqueue_spec(rest, false)
            } else {
                ActionView::Reply("console: unknown command "@ + name, false)
            },
        }
    }
}

fn enqueue(text: String, force_new: bool) -> (r: ConsoleAction)
    ensures
        r@ == enqueue_spec(text@, force_new),
{
    let c = chars_of(text.as_str());
    let t = trim_exec(c.as_slice());
    if t.len() == 0 {
        ConsoleAction::Reply(reply(owned("console: message text required"), false))
    } else {
        ConsoleAction::Enqueue { text, force_new }
    }
}

/// The action for one input line: `/quit` and `/exit` stop, `/help` lists
/// the commands, `/new` and `/send` (or plain text) queue a message, the
/// inspection commands are left to the caller, and other commands are unknown.
pub fn handle_line(line: &str) -> (r: ConsoleAction)
    ensures
        r@ == action_spec(line@),
{
    let trimmed = crate::text::trim_str(line);
    if trimmed.as_str().is_empty() {
        return ConsoleAction::Reply(reply(String::new(), false));
    }
    match command(trimmed.as_str()) {
        None => enqueue(trimmed, false),
        Some((name, rest)) => {
            let n = name.as_str();
            if str_eq(n, "/quit") || str_eq(n, "/exit") {
                ConsoleAction::Reply(reply(owned("console: bye"), true))
            } else if str_eq(n, "/help") {
                ConsoleAction::Reply(
                    reply(
                        owned(
                            "lkjagent console commands: text | /help | /status | /watch | /log | /queue | /task | /send TEXT | /new TEXT | /quit",
                        ),
                        false,
                    ),
                )
            } else if str_eq(n, "/status") {
                ConsoleAction::Status
            } else if str_eq(n, "/watch") {
                ConsoleAction::Watch
            } else if str_eq(n, "/log") {
                ConsoleAction::Log
            } else if str_eq(n, "/queue") {
                ConsoleAction::Queue
            } else if str_eq(n, "/task") {
                ConsoleAction::Task
            } else if str_eq(n, "/new") {
                enqueue(rest, true)
            } else if str_eq(n, "/send") {
                enqueue(rest, false)
            } else {
                let mut e = owned("console: unknown command ");
                push_str(&mut e, n);
                ConsoleAction::Reply(reply(e, false))
            }
        },
    }
}

/// The reply once a message has been queued under `id`.
pub fn queued_reply(id: i64, force_new: bool) -> (r: ConsoleReply)
    ensures
        r.output@ == "queue: "@ + signed_decimal(id as int) + " new="@ + (if force_new {
            "true"@
        } else {
            "false"@
        }),
        !r.quit,
{
    let mut e = owned("queue: ");
    push_str(&mut e, i64_text(id).as_str());
    push_str(&mut e, " new=");
    push_str(&mut e, if force_new { "true" } else { "false" });
    reply(e, false)
}

} // verus!
