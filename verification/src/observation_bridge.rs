//! Settling dispatched effects as observations: which effects a failed
//! dispatch observed, attempted or compensates, how a write's
//! postcondition is judged, and the texts recorded for each.
use vstd::prelude::*;

use crate::number::{decimal, padded, padded_chars, u64_text};
use crate::observations::{observation_status, observation_status_spec};
use crate::text::{chars_of, contains, contains_exec, owned, push_chars, push_str, str_eq};

verus! {

/// How the effects of a failed dispatch are settled: the first `completed`
/// are observed as done; of the rest, the first `attempted` (the current
/// one, unless it needs recovery) is observed as failed, the next
/// `preserved` (the current one, when it needs recovery) is left as it is,
/// and all after are compensated.
pub struct FailureRanges {
    pub completed: usize,
    pub attempted: usize,
    pub preserved: usize,
}

/// Checks the count of effects that succeeded against the effects prepared.
pub fn completed_range(total: usize, succeeded: usize) -> (r: Result<usize, String>)
    ensures
        match r {
            Ok(n) => succeeded <= total && n == succeeded,
            Err(e) => succeeded > total && e@ == "dispatch success count is invalid"@,
        },
{
    if succeeded > total {
        Err(owned("dispatch success count is invalid"))
    } else {
        Ok(succeeded)
    }
}

/// Splits the effects left after the completed ones (`pending` of them).
pub fn pending_split(pending: usize, completed: usize, failed_current: bool, recovery_required: bool) -> (r: Result<FailureRanges, String>)
    ensures
        match r {
            Ok(f) => f.completed == completed
                && f.attempted == (if failed_current && !recovery_required { 1usize } else { 0usize })
                && f.preserved == (if failed_current && recovery_required { 1usize } else { 0usize })
                && f.attempted + f.preserved <= pending,
            Err(e) => failed_current && pending == 0 && e@ == if recovery_required {
                "dispatch effect range is invalid"@
            } else {
                "dispatch attempted too many effects"@
            },
        },
{
    let attempted: usize = if failed_current && !recovery_required { 1 } else { 0 };
    if attempted > pending {
        return Err(owned("dispatch attempted too many effects"));
    }
    let preserved: usize = if failed_current && recovery_required { 1 } else { 0 };
    if attempted + preserved > pending {
        return Err(owned("dispatch effect range is invalid"));
    }
    Ok(FailureRanges { completed, attempted, preserved })
}

pub open spec fn observation_id_spec(decision_id: Seq<char>, index: nat) -> Seq<char> {
    decision_id + "-observation-"@ + padded(index + 1, 4)
}

/// The id of the observation of a decision's `index`-th effect (counted
/// from one, four digits at least).
pub fn observation_id(decision_id: &str, index: usize) -> (r: String)
    requires
        index < usize::MAX,
    ensures
        r@ == observation_id_spec(decision_id@, index as nat),
{
    let mut r = owned(decision_id);
    push_str(&mut r, "-observation-");
    let d = padded_chars((index + 1) as u64, 4);
    push_chars(&mut r, d.as_slice());
    r
}

/// The journal state that an observation settles its effect in.
pub fn settled_state(status: &str) -> (r: &'static str)
    ensures
        r@ == if status@ == "ok"@ { "committed"@ } else { "failed"@ },
{
    if str_eq(status, "ok") {
        "committed"
    } else {
        "failed"
    }
}

/// An observation other than `ok` fails its effect's postcondition.
pub fn postcondition(status: &str, raw_content: &str) -> (r: Result<(), String>)
    ensures
        match r {
            Ok(()) => status@ == "ok"@,
            Err(e) => status@ != "ok"@ && e@ == "effect postcondition failed: "@ + raw_content@,
        },
{
    if str_eq(status, "ok") {
        Ok(())
    } else {
        let mut e = owned("effect postcondition failed: ");
        push_str(&mut e, raw_content);
        Err(e)
    }
}

/// The inputs of the first step that holds an observation, or nothing.
pub open spec fn latest_observation_spec(inputs: Seq<Seq<char>>) -> Seq<char>
    decreases inputs.len(),
{
    if inputs.len() == 0 {
        Seq::empty()
    } else if contains(inputs[0], "latest_observation="@) {
        inputs[0]
    } else {
        latest_observation_spec(inputs.drop_first())
    }
}

/// The latest observation among the steps' inputs.
pub fn latest_observation(inputs: &Vec<String>) -> (r: String)
    ensures
        r@ == latest_observation_spec(crate::text::views(inputs@)),
{
    let ghost all = crate::text::views(inputs@);
    let p = chars_of("latest_observation=");
    assert(all.skip(0) == all);
    for i in 0..inputs.len()
        invariant
            all == crate::text::views(inputs@),
            p@ == "latest_observation="@,
            latest_observation_spec(all) == latest_observation_spec(all.skip(i as int)),
    {
        assert(all.skip(i as int).drop_first() == all.skip(i + 1));
        let c = chars_of(inputs[i].as_str());
        if contains_exec(c.as_slice(), p.as_slice()) {
            return owned(inputs[i].as_str());
        }
    }
    String::new()
}

/// The outcome of an effect with no target: the latest observation, as
/// its status says.
pub fn observed_outcome(inputs: &Vec<String>) -> (r: (&'static str, String))
    ensures
        r.1@ == latest_observation_spec(crate::text::views(inputs@)),
        r.0@ == observation_status_spec(r.1@),
{
    let content = latest_observation(inputs);
    (observation_status(content.as_str()), content)
}

/// The outcome of a single-file effect: the file's fingerprint as read
/// (or why it could not be read) against the intended one.
pub fn path_outcome(path: &str, read: Result<String, String>, intended: &str) -> (r: (&'static str, String))
    ensures
        match read {
            Ok(fp) => if fp@ == intended@ {
                r.0@ == "ok"@ && r.1@ == "path="@ + path@ + "\nfingerprint="@ + fp@
            } else {
                r.0@ == "error"@ && r.1@ == "postcondition mismatch: "@ + fp@
            },
            Err(e) => r.0@ == "error"@ && r.1@ == "postcondition unavailable: "@ + e@,
        },
{
    match read {
        Ok(fp) => if str_eq(fp.as_str(), intended) {
            let mut c = owned("path=");
            push_str(&mut c, path);
            push_str(&mut c, "\nfingerprint=");
            push_str(&mut c, fp.as_str());
            ("ok", c)
        } else {
            let mut c = owned("postcondition mismatch: ");
            push_str(&mut c, fp.as_str());
            ("error", c)
        },
        Err(e) => {
            let mut c = owned("postcondition unavailable: ");
            push_str(&mut c, e.as_str());
            ("error", c)
        },
    }
}

/// A bundle target whose fingerprint is not the intended one.
pub fn target_mismatch(path: &str, fingerprint: &str) -> (r: String)
    ensures
        r@ == "postcondition mismatch: "@ + path@ + " "@ + fingerprint@,
{
    let mut r = owned("postcondition mismatch: ");
    push_str(&mut r, path);
    push_str(&mut r, " ");
    push_str(&mut r, fingerprint);
    r
}

/// The observation of a bundle whose targets all hold their intended
/// fingerprints.
pub fn targets_verified(target_path: Option<&str>, targets: usize, bundle_fingerprint: &str) -> (r: String)
    ensures
        r@ == "path="@ + match target_path {
            Some(p) => p@,
            None => "bundle"@,
        } + "\ntargets="@ + decimal(targets as nat) + " bundle_fingerprint="@ + bundle_fingerprint@,
{
    let mut r = owned("path=");
    match target_path {
        Some(p) => push_str(&mut r, p),
        None => push_str(&mut r, "bundle"),
    }
    push_str(&mut r, "\ntargets=");
    push_str(&mut r, u64_text(targets as u64).as_str());
    push_str(&mut r, " bundle_fingerprint=");
    push_str(&mut r, bundle_fingerprint);
    r
}

} // verus!
