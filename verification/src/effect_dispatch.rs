//! Dispatching a turn's effects: which commands have outside effects, the
//! order in which they meet their prepared effects, the guard that a file
//! has not changed since it was planned, and what a failure reports.
use vstd::prelude::*;
use crate::text::{owned, push_str, str_eq};

verus! {

/// Why dispatch stopped, and how many effects had been attempted by then.
pub struct DispatchFailure {
    pub error: String,
    pub attempted: usize,
}

/// A command of a turn, as far as dispatch tells them apart.
#[derive(Clone, Copy, PartialEq, Eq, Structural)]
pub enum CommandKind {
    WriteFile,
    AppendFile,
    RunExplore,
    /// A command that only records (attempts, events, memories, checks, steps).
    Record,
}

/// Writes, appends and explore actions act outside; the rest only record.
pub open spec fn external_spec(kind: CommandKind) -> bool {
    kind != CommandKind::Record
}

pub fn external(kind: CommandKind) -> (r: bool)
    ensures
        r == external_spec(kind),
{
    kind != CommandKind::Record
}

/// The next move of a dispatch that has looked at the commands before
/// `from` and attempted `attempted` effects.
pub enum DispatchStep {
    /// Check and apply command `command` with prepared effect `effect`.
    Apply { command: usize, effect: usize },
    /// Every outside command has been dispatched.
    Done,
    /// An outside command has no prepared effect.
    Missing(DispatchFailure),
}

/// The first outside command at or after `from`, if any.
pub open spec fn next_external(kinds: Seq<CommandKind>, from: int, i: int) -> bool {
    &&& from <= i < kinds.len()
    &&& external_spec(kinds[i])
    &&& forall|j: int| from <= j < i ==> !external_spec(kinds[j])
}

/// The next dispatch step after the commands before `from`, with
/// `attempted` effects attempted out of `effects` prepared.
pub fn next_step(kinds: &Vec<CommandKind>, from: usize, attempted: usize, effects: usize) -> (r: DispatchStep)
    requires
        from <= kinds@.len(),
    ensures
        match r {
            DispatchStep::Apply { command, effect } => next_external(kinds@, from as int, command as int)
                && effect == attempted && attempted < effects,
            DispatchStep::Done => forall|j: int| from <= j < kinds@.len() ==> !external_spec(#[trigger] kinds@[j]),
            DispatchStep::Missing(f) => (exists|i: int| #[trigger] next_external(kinds@, from as int, i))
                && attempted >= effects && f.attempted == attempted
                && f.error@ == "prepared effect is missing"@,
        },
{
    let mut i = from;
    while i < kinds.len()
        invariant
            from <= i <= kinds@.len(),
            forall|j: int| from <= j < i ==> !external_spec(#[trigger] kinds@[j]),
        decreases kinds.len() - i,
    {
        if external(kinds[i]) {
            assert(next_external(kinds@, from as int, i as int));
            if attempted < effects {
                return DispatchStep::Apply { command: i, effect: attempted };
            }
            return DispatchStep::Missing(DispatchFailure { error: owned("prepared effect is missing"), attempted });
        }
        i = i + 1;
    }
    DispatchStep::Done
}

/// A planned file must still hold what it held when the effect was
/// planned: its current fingerprint against the planned prior one.
pub fn prior_unchanged(path: &str, current: &str, prior: &str) -> (r: Result<(), String>)
    ensures
        match r {
            Ok(()) => current@ == prior@,
            Err(e) => current@ != prior@ && e@ == "prior fingerprint changed for "@ + path@,
        },
{
    if str_eq(current, prior) {
        Ok(())
    } else {
        let mut e = owned("prior fingerprint changed for ");
        push_str(&mut e, path);
        Err(e)
    }
}

/// The body a write leaves: the content, or for an append the existing
/// text (empty for a new file) followed by the content.
pub fn written_body(existing: Option<&str>, content: &str, append: bool) -> (r: String)
    ensures
        r@ == if append {
            match existing {
                Some(e) => e@ + content@,
                None => content@,
            }
        } else {
            content@
        },
{
    if !append {
        return owned(content);
    }
    let mut r = match existing {
        Some(e) => owned(e),
        None => String::new(),
    };
    push_str(&mut r, content);
    r
}

} // verus!
