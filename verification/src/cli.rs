//! The top of the command line: what each command asks the program to do.
use vstd::prelude::*;
use crate::args::{parse, parse_spec, Command, CommandView};
use crate::text::{owned, views};

verus! {

pub open spec fn help_text() -> Seq<char> {
    "lkjagent commands:\n  help\n  send [--new] TEXT\n  run [--once]\n  status\n  doctor [--json]"@
}

/// The list of commands, one per line.
pub fn help() -> (r: String)
    ensures
        r@ == help_text(),
{
    owned("lkjagent commands:\n  help\n  send [--new] TEXT\n  run [--once]\n  status\n  doctor [--json]")
}

/// What the program is to do for a command line: print a text, or act on
/// the data directory.
pub enum Outcome {
    Output(String),
    Send { data_dir: String, text: String, force_new: bool },
    Status { data_dir: String },
    Doctor { data_dir: String, json: bool },
    RunOnce { data_dir: String },
    RunForever { data_dir: String },
    /// A command this program parses but does not serve from the command line.
    Unserved { data_dir: String },
}

pub enum OutcomeView {
    Output(Seq<char>),
    Send { data_dir: Seq<char>, text: Seq<char>, force_new: bool },
    Status { data_dir: Seq<char> },
    Doctor { data_dir: Seq<char>, json: bool },
    RunOnce { data_dir: Seq<char> },
    RunForever { data_dir: Seq<char> },
    Unserved { data_dir: Seq<char> },
}

impl View for Outcome {
    type V = OutcomeView;

    open spec fn view(&self) -> OutcomeView {
        match self {
            Outcome::Output(s) => OutcomeView::Output(s@),
            Outcome::Send { data_dir, text, force_new } => OutcomeView::Send {
                data_dir: data_dir@,
                text: text@,
                force_new: *force_new,
            },
            Outcome::Status { data_dir } => OutcomeView::Status { data_dir: data_dir@ },
            Outcome::Doctor { data_dir, json } => OutcomeView::Doctor {
                data_dir: data_dir@,
                json: *json,
            },
            Outcome::RunOnce { data_dir } => OutcomeView::RunOnce { data_dir: data_dir@ },
            Outcome::RunForever { data_dir } => OutcomeView::RunForever { data_dir: data_dir@ },
            Outcome::Unserved { data_dir } => OutcomeView::Unserved { data_dir: data_dir@ },
        }
    }
}

pub open spec fn outcome_spec(dir: Seq<char>, command: CommandView) -> OutcomeView {
    match command {
        CommandView::Help => OutcomeView::Output(help_text()),
        CommandView::Send { text, force_new } => OutcomeView::Send { data_dir: dir, text, force_new },
        CommandView::Status => OutcomeView::Status { data_dir: dir },
        CommandView::Doctor { json } => OutcomeView::Doctor { data_dir: dir, json },
        CommandView::Run { once } => if once {
            OutcomeView::RunOnce { data_dir: dir }
        } else {
            OutcomeView::RunForever { data_dir: dir }
        },
        _ => OutcomeView::Unserved { data_dir: dir },
    }
}

pub open spec fn run_spec(args: Seq<Seq<char>>) -> Result<OutcomeView, Seq<char>> {
    match parse_spec(args) {
        Err(e) => Err(e),
        Ok((dir, command)) => Ok(outcome_spec(dir, command)),
    }
}

/// Parses the command line and says what to do: `help` prints the command
/// list; `send`, `status`, `doctor` and `run` act on the data directory.
pub fn run(args: Vec<String>) -> (r: Result<Outcome, String>)
    ensures
        match r {
            Ok(o) => run_spec(views(args@)) == Ok::<OutcomeView, Seq<char>>(o@),
            Err(e) => run_spec(views(args@)) == Err::<OutcomeView, Seq<char>>(e@),
        },
{
    let invocation = match parse(args) {
        Ok(i) => i,
        Err(e) => return Err(e),
    };
    let data_dir = invocation.data_dir;
    Ok(
        match invocation.command {
            Command::Help => Outcome::Output(help()),
            Command::Send { text, force_new } => Outcome::Send { data_dir, text, force_new },
            Command::Status => Outcome::Status { data_dir },
            Command::Doctor { json } => Outcome::Doctor { data_dir, json },
            Command::Run { once } => if once {
                Outcome::RunOnce { data_dir }
            } else {
                Outcome::RunForever { data_dir }
            },
            _ => Outcome::Unserved { data_dir },
        },
    )
}

} // verus!
