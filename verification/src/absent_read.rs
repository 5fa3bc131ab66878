//! Observing that a file an objective means to create does not exist yet.
use vstd::prelude::*;
use crate::config_registry::{json_quoted, json_string};
use crate::text::{chars_of, contains, contains_exec, lossy_text, owned, push_str, utf8_lossy};

verus! {

/// The objective names the target: its text (invalid UTF-8 replaced)
/// holds the path.
pub fn mentions(objective: &[u8], path: &str) -> (r: bool)
    ensures
        r == contains(lossy_text(objective@), path@),
{
    let text = utf8_lossy(objective);
    let t = chars_of(text.as_str());
    let p = chars_of(path);
    contains_exec(t.as_slice(), p.as_slice())
}

/// What the workspace says of a target that an objective names.
pub enum TargetProbe {
    /// Nothing exists at the path.
    Absent,
    /// A file exists at the path.
    Present,
    /// The path could not be observed; `creatable` tells whether an
    /// absent-file edit could still be prepared there.
    Unobservable { creatable: bool },
}

/// The observation recorded for an absent target.
pub struct AbsentObservation {
    pub body: String,
    pub context: String,
}

pub open spec fn is_absent(probe: TargetProbe) -> bool {
    match probe {
        TargetProbe::Absent => true,
        TargetProbe::Present => false,
        TargetProbe::Unobservable { creatable } => creatable,
    }
}

pub open spec fn absent_body(path: Seq<char>) -> Seq<char> {
    "{\"absent\":true,\"path\":"@ + json_quoted(path) + ",\"revision\":\"absent\"}"@
}

/// The observation of `path` after the workspace was probed: present only
/// when the target is absent or could be created as a new file.
pub fn observation(path: &str, probe: TargetProbe) -> (r: Option<AbsentObservation>)
    ensures
        match r {
            Some(o) => is_absent(probe) && o.body@ == absent_body(path@)
                && o.context@ == "observed absent target: "@ + path@,
            None => !is_absent(probe),
        },
{
    let absent = match probe {
        TargetProbe::Absent => true,
        TargetProbe::Present => false,
        TargetProbe::Unobservable { creatable } => creatable,
    };
    if !absent {
        return None;
    }
    let mut body = owned("{\"absent\":true,\"path\":");
    push_str(&mut body, json_string(path).as_str());
    push_str(&mut body, ",\"revision\":\"absent\"}");
    let mut context = owned("observed absent target: ");
    push_str(&mut context, path);
    Some(AbsentObservation { body, context })
}

} // verus!
