//! Tool admissions of a turn: their ids, the repeat guard that rejects a
//! second identical model action, and when a batch of admissions commits.
use vstd::prelude::*;
use crate::daemon_owner_routes::signed_padded;
use crate::number::{i64_text, signed_decimal};
use crate::text::{chars_of, owned, push_str, starts_with, starts_with_exec, str_eq, views};

verus! {

/// The reason given when a model repeats an admitted action.
pub fn repeated_reason() -> (r: &'static str)
    ensures
        r@ == "repeated tool call; state the next different tool call"@,
{
    "repeated tool call; state the next different tool call"
}

/// Whether a model action is a repeat: already admitted for the decision
/// (`admitted_before`, as stored) or earlier in this turn (`seen`).  A new
/// action is added to `seen`; `seen` is not consulted once the stored
/// admissions show a repeat.
pub fn repeat_check(seen: &mut Vec<String>, parsed: &str, admitted_before: bool) -> (r: bool)
    ensures
        r == (admitted_before || views(old(seen)@).contains(parsed@)),
        views(final(seen)@) == seen_after(views(old(seen)@), parsed@, admitted_before),
{
    if admitted_before {
        return true;
    }
    let mut i: usize = 0;
    while i < seen.len()
        invariant
            seen@ == old(seen)@,
            i <= seen@.len(),
            forall|j: int| 0 <= j < i ==> seen@[j]@ != parsed@,
        decreases seen.len() - i,
    {
        if str_eq(seen[i].as_str(), parsed) {
            assert(views(seen@)[i as int] == parsed@);
            return true;
        }
        i = i + 1;
    }
    assert(!views(seen@).contains(parsed@));
    seen.push(owned(parsed));
    assert(views(seen@) =~= views(old(seen)@).push(parsed@));
    false
}

/// The ids of the `ordinal`-th admission of a decision: the admission (at
/// least four digits), its effect journal, and its idempotency key.
pub fn admission_keys(decision_id: &str, ordinal: i64) -> (r: (String, String, String))
    ensures
        r.0@ == decision_id@ + "-admission-"@ + signed_padded(ordinal as int, 4),
        r.1@ == r.0@ + "-effect"@,
        r.2@ == decision_id@ + ":"@ + signed_decimal(ordinal as int),
{
    let mut id = owned(decision_id);
    push_str(&mut id, "-admission-");
    let padded = crate::daemon_owner_routes::signed_padded_text(ordinal, 4);
    push_str(&mut id, padded.as_str());
    let mut journal = owned(id.as_str());
    push_str(&mut journal, "-effect");
    let mut key = owned(decision_id);
    push_str(&mut key, ":");
    push_str(&mut key, i64_text(ordinal).as_str());
    (id, journal, key)
}

/// The error that stops a turn at a rejected admission.
pub fn rejected(reason: &str) -> (r: String)
    ensures
        r@ == "admission rejected: "@ + reason@,
{
    let mut r = owned("admission rejected: ");
    push_str(&mut r, reason);
    r
}

/// The error of a failed admission write.
pub fn persistence_failed(error: &str) -> (r: String)
    ensures
        r@ == "admission persistence failed: "@ + error@,
{
    let mut r = owned("admission persistence failed: ");
    push_str(&mut r, error);
    r
}

/// A batch of admissions commits when it succeeded, or when it stopped at
/// a rejection (which must stay on record); any other failure rolls back.
pub fn commits(error: Option<&str>) -> (r: bool)
    ensures
        r == match error {
            None => true,
            Some(e) => starts_with(e@, "admission rejected:"@),
        },
{
    match error {
        None => true,
        Some(e) => {
            let c = chars_of(e);
            let p = chars_of("admission rejected:");
            starts_with_exec(c.as_slice(), p.as_slice())
        },
    }
}

/// What the repeat guard leaves of `seen` after checking `parsed`.
pub open spec fn seen_after(seen: Seq<Seq<char>>, parsed: Seq<char>, admitted_before: bool) -> Seq<Seq<char>> {
    if admitted_before || seen.contains(parsed) {
        seen
    } else {
        seen.push(parsed)
    }
}

/// The actions the guard has let through in a turn are all different: a
/// list of distinct actions stays distinct after any check.
pub proof fn lemma_seen_stays_distinct(seen: Seq<Seq<char>>, parsed: Seq<char>, admitted_before: bool)
    requires
        seen.no_duplicates(),
    ensures
        seen_after(seen, parsed, admitted_before).no_duplicates(),
{
    if !(admitted_before || seen.contains(parsed)) {
        let n = seen.push(parsed);
        assert forall|i: int, j: int| 0 <= i < n.len() && 0 <= j < n.len() && i != j implies n[i] != n[j] by {
            if i == seen.len() as int {
                assert(seen[j] == n[j]);
            } else if j == seen.len() as int {
                assert(seen[i] == n[i]);
            }
        }
    }
}

/// An action is either a repeat when checked, or recorded by the check, so
/// that checking it again in the same turn finds it a repeat.
pub proof fn lemma_second_check_repeats(seen: Seq<Seq<char>>, parsed: Seq<char>, admitted_before: bool)
    ensures
        (admitted_before || seen.contains(parsed)) || seen_after(seen, parsed, admitted_before).contains(parsed),
{
    if !(admitted_before || seen.contains(parsed)) {
        assert(seen.push(parsed)[seen.len() as int] == parsed);
    }
}

} // verus!
