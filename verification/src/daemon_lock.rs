//! The daemon lock: who may take it, when a holder counts as gone, and who
//! may let it go.  The database reads and writes stand outside the library;
//! these functions decide on the values read.
use vstd::prelude::*;
use crate::number::{parse_unsigned, parse_unsigned_spec};
use crate::report_shape::{split_chars, split_on};
use crate::text::{chars_of, is_ws, is_ws_exec, owned, push_str, slice_chars, str_eq, string_of, strip_prefix, strip_prefix_exec};

verus! {

/// A heartbeat older than this many seconds is stale.
pub const STALE_SECONDS: u64 = 300;

/// The whole seconds of a `unix:SECONDS[.FRACTION]` stamp.
pub open spec fn unix_seconds_spec(value: Seq<char>) -> Option<u64> {
    match strip_prefix(value, "unix:"@) {
        None => None,
        Some(rest) => match parse_unsigned_spec(split_on(rest, '.')[0], 0xffff_ffff_ffff_ffff) {
            Ok(v) => Some(v as u64),
            Err(_) => None,
        },
    }
}

proof fn lemma_split_first(s: Seq<char>, sep: char)
    ensures
        split_on(s, sep).len() >= 1,
    decreases s.len(),
{
    if s.len() > 0 {
        lemma_split_first(s.drop_last(), sep);
    }
}

/// The seconds of a `unix:` stamp, when it has that form.
pub fn unix_seconds(value: &str) -> (r: Option<u64>)
    ensures
        r == unix_seconds_spec(value@),
{
    let c = chars_of(value);
    let pre = chars_of("unix:");
    let rest = match strip_prefix_exec(c.as_slice(), pre.as_slice()) {
        None => return None,
        Some(r) => r,
    };
    let pieces = split_chars(rest.as_slice(), '.');
    proof {
        lemma_split_first(rest@, '.');
    }
    let first = string_of(pieces[0].as_slice());
    match parse_unsigned(first.as_str(), 0xffff_ffff_ffff_ffff) {
        Ok(v) => Some(v),
        Err(_) => None,
    }
}

/// A holder has gone: its process is known dead, or (its process unknown)
/// its heartbeat is missing, unreadable, or more than 300 seconds older
/// than `now`.
pub open spec fn stale_spec(
    heartbeat: Option<Seq<char>>,
    now: Seq<char>,
    live: Option<bool>,
) -> bool {
    match live {
        Some(l) => !l,
        None => match heartbeat {
            None => true,
            Some(h) => match (unix_seconds_spec(h), unix_seconds_spec(now)) {
                (Some(previous), Some(current)) => current > previous && current - previous > 300,
                _ => true,
            },
        },
    }
}

pub open spec fn opt_str(o: Option<String>) -> Option<Seq<char>> {
    match o {
        Some(s) => Some(s@),
        None => None,
    }
}

/// Whether the lock's holder counts as gone; `live` is what is known of the
/// holder's process.
pub fn stale(heartbeat: &Option<String>, now: &str, live: Option<bool>) -> (r: bool)
    ensures
        r == stale_spec(opt_str(*heartbeat), now@, live),
{
    if let Some(l) = live {
        return !l;
    }
    let heartbeat = match heartbeat {
        None => return true,
        Some(h) => h,
    };
    let previous = match unix_seconds(heartbeat.as_str()) {
        None => return true,
        Some(p) => p,
    };
    let current = match unix_seconds(now) {
        None => return true,
        Some(c) => c,
    };
    current.saturating_sub(previous) > STALE_SECONDS
}

/// The decision on a claim of the lock by `owner` at `now`: refused only
/// when another owner holds it and has not gone.
pub open spec fn claim_spec(
    owner: Seq<char>,
    held_by: Option<Seq<char>>,
    heartbeat: Option<Seq<char>>,
    now: Seq<char>,
    live: Option<bool>,
) -> Result<(), Seq<char>> {
    match held_by {
        Some(held) => if held != owner && !stale_spec(heartbeat, now, live) {
            Err("daemon lock held by "@ + held)
        } else {
            Ok(())
        },
        None => Ok(()),
    }
}

/// Whether `owner` may take the lock that `held_by` holds (with the
/// heartbeat read beside it and what is known of the holder's process);
/// on `Ok` the caller writes `owner` and `now` as the new holder and
/// heartbeat.
pub fn claim_decision(
    owner: &str,
    held_by: &Option<String>,
    heartbeat: &Option<String>,
    now: &str,
    live: Option<bool>,
) -> (r: Result<(), String>)
    ensures
        match r {
            Ok(()) => claim_spec(owner@, opt_str(*held_by), opt_str(*heartbeat), now@, live) == Ok::<
                (),
                Seq<char>,
            >(()),
            Err(e) => claim_spec(owner@, opt_str(*held_by), opt_str(*heartbeat), now@, live) == Err::<
                (),
                Seq<char>,
            >(e@),
        },
{
    match held_by {
        Some(held) => {
            if !str_eq(held.as_str(), owner) && !stale(heartbeat, now, live) {
                let mut e = owned("daemon lock held by ");
                push_str(&mut e, held.as_str());
                Err(e)
            } else {
                Ok(())
            }
        },
        None => Ok(()),
    }
}

/// Releasing deletes the lock only when `owner` is the one holding it.
pub fn release_decision(owner: &str, held_by: &Option<String>) -> (r: bool)
    ensures
        r == (opt_str(*held_by) == Some(owner@)),
{
    match held_by {
        Some(held) => str_eq(held.as_str(), owner),
        None => false,
    }
}

/// The lock as the store holds it: owner and heartbeat.
pub struct LockState {
    pub owner: Option<Seq<char>>,
    pub heartbeat: Option<Seq<char>>,
}

/// The lock after a claim by `owner` at `now`.
pub open spec fn after_claim(s: LockState, owner: Seq<char>, now: Seq<char>, live: Option<bool>) -> LockState {
    match claim_spec(owner, s.owner, s.heartbeat, now, live) {
        Ok(()) => LockState { owner: Some(owner), heartbeat: Some(now) },
        Err(_) => s,
    }
}

/// The lock after `owner` releases it.
pub open spec fn after_release(s: LockState, owner: Seq<char>) -> LockState {
    if s.owner == Some(owner) {
        LockState { owner: None, heartbeat: None }
    } else {
        s
    }
}

/// The lock is exclusive: a claim by anyone else fails while a live holder
/// holds it, and leaves the holder in place.
pub proof fn lemma_live_holder_keeps_lock(
    s: LockState,
    other: Seq<char>,
    now: Seq<char>,
)
    requires
        s.owner matches Some(held) && held != other,
    ensures
        claim_spec(other, s.owner, s.heartbeat, now, Some(true)) is Err,
        after_claim(s, other, now, Some(true)) == s,
{
}

/// A holder can always claim its own lock again, which refreshes the heartbeat.
pub proof fn lemma_holder_reclaims(s: LockState, owner: Seq<char>, now: Seq<char>, live: Option<bool>)
    requires
        s.owner == Some(owner),
    ensures
        claim_spec(owner, s.owner, s.heartbeat, now, live) is Ok,
        after_claim(s, owner, now, live) == (LockState { owner: Some(owner), heartbeat: Some(now) }),
{
}

/// After its holder releases the lock, anyone may claim it.
pub proof fn lemma_release_frees(s: LockState, owner: Seq<char>, next: Seq<char>, now: Seq<char>, live: Option<bool>)
    requires
        s.owner == Some(owner),
    ensures
        after_release(s, owner).owner is None,
        after_claim(after_release(s, owner), next, now, live).owner == Some(next),
{
}

/// Releasing a lock that someone else holds changes nothing.
pub proof fn lemma_foreign_release_is_noop(s: LockState, owner: Seq<char>)
    requires
        s.owner != Some(owner),
    ensures
        after_release(s, owner) == s,
{
}

/// A holder whose heartbeat is more than 300 seconds old, with its process
/// unknown, may be replaced.
pub proof fn lemma_stale_heartbeat_yields(
    s: LockState,
    other: Seq<char>,
    now: Seq<char>,
    previous: u64,
    current: u64,
)
    requires
        s.heartbeat matches Some(h) && unix_seconds_spec(h) == Some(previous),
        unix_seconds_spec(now) == Some(current),
        current > previous + 300,
    ensures
        claim_spec(other, s.owner, s.heartbeat, now, None) is Ok,
{
}

/// The fields `pid:PID:start:START` that open an owner id.
pub open spec fn owner_fields_spec(owner: Seq<char>) -> Option<(u32, Seq<char>)> {
    let f = split_on(owner, ':');
    if f.len() < 4 || f[0] != "pid"@ || f[2] != "start"@ {
        None
    } else {
        match parse_unsigned_spec(f[1], 0xffff_ffff) {
            Ok(pid) => Some((pid as u32, f[3])),
            Err(_) => None,
        }
    }
}

/// The process id and start time named by an owner id, when it names them;
/// the caller compares the start time with the process's current one.
pub fn owner_fields(owner: &str) -> (r: Option<(u32, String)>)
    ensures
        match r {
            Some((pid, start)) => owner_fields_spec(owner@) == Some((pid, start@)),
            None => owner_fields_spec(owner@) is None,
        },
{
    let c = chars_of(owner);
    let f = split_chars(c.as_slice(), ':');
    if f.len() < 4 {
        return None;
    }
    let first = string_of(f[0].as_slice());
    let third = string_of(f[2].as_slice());
    if !str_eq(first.as_str(), "pid") || !str_eq(third.as_str(), "start") {
        return None;
    }
    let pid_text = string_of(f[1].as_slice());
    match parse_unsigned(pid_text.as_str(), 0xffff_ffff) {
        Ok(pid) => Some((pid as u32, string_of(f[3].as_slice()))),
        Err(_) => None,
    }
}

/// The whitespace-separated words of `s` (`str::split_whitespace`).
pub open spec fn words(s: Seq<char>) -> Seq<Seq<char>>
    decreases s.len(),
{
    if s.len() == 0 {
        Seq::empty()
    } else {
        let pre = words(s.drop_last());
        let c = s.last();
        if is_ws(c) {
            pre
        } else if s.len() >= 2 && !is_ws(s[s.len() - 2]) {
            pre.update(pre.len() - 1, pre.last().push(c))
        } else {
            pre.push(seq![c])
        }
    }
}

proof fn lemma_words_nonempty(s: Seq<char>)
    ensures
        s.len() > 0 && !is_ws(s.last()) ==> words(s).len() > 0,
    decreases s.len(),
{
    if s.len() > 0 {
        lemma_words_nonempty(s.drop_last());
    }
}

/// `) ` stands at position `i` of `s`.
pub open spec fn paren_at(s: Seq<char>, i: int) -> bool {
    0 <= i && i + 1 < s.len() && s[i] == ')' && s[i + 1] == ' '
}

/// The position just after the last `) ` in `s`.
pub open spec fn after_last_paren(s: Seq<char>) -> Option<int> {
    if exists|i: int| #[trigger] paren_at(s, i) {
        let i = choose|i: int|
            paren_at(s, i) && forall|j: int| i < j ==> !#[trigger] paren_at(s, j);
        Some(i + 2)
    } else {
        None
    }
}

/// The process start time in `/proc/PID/stat`: the 20th field after the
/// command name, which ends at the last `) `.
pub open spec fn start_field_spec(stat: Seq<char>) -> Option<Seq<char>> {
    match after_last_paren(stat) {
        None => None,
        Some(k) => {
            let w = words(stat.skip(k));
            if w.len() > 19 {
                Some(w[19])
            } else {
                None
            }
        },
    }
}

fn words_exec(s: &[char]) -> (r: Vec<Vec<char>>)
    ensures
        r@.len() == words(s@).len(),
        forall|i: int| 0 <= i < r@.len() ==> #[trigger] r@[i]@ == words(s@)[i],
{
    let mut r: Vec<Vec<char>> = Vec::new();
    let mut i: usize = 0;
    while i < s.len()
        invariant
            i <= s@.len(),
            r@.len() == words(s@.take(i as int)).len(),
            forall|k: int| 0 <= k < r@.len() ==> #[trigger] r@[k]@ == words(s@.take(i as int))[k],
        decreases s.len() - i,
    {
        let ghost t = s@.take(i + 1);
        assert(t.drop_last() == s@.take(i as int));
        assert(t.last() == s@[i as int]);
        let c = s[i];
        if is_ws_exec(c) {
        } else if i >= 1 && !is_ws_exec(s[i - 1]) {
            assert(t[t.len() - 2] == s@[i - 1]);
            proof {
                lemma_words_nonempty(s@.take(i as int));
                assert(s@.take(i as int).last() == s@[i - 1]);
            }
            let last = r.len() - 1;
            let mut w = r.pop().unwrap();
            w.push(c);
            r.push(w);
            assert(r@.len() == last + 1);
        } else {
            let mut w: Vec<char> = Vec::new();
            w.push(c);
            assert(w@ == seq![c]);
            r.push(w);
        }
        i += 1;
    }
    assert(s@.take(s@.len() as int) == s@);
    r
}

/// The start time of a process, read from the text of its `stat` file.
pub fn start_field(stat: &str) -> (r: Option<String>)
    ensures
        match r {
            Some(v) => start_field_spec(stat@) == Some(v@),
            None => start_field_spec(stat@) is None,
        },
{
    let c = chars_of(stat);
    let n = c.len();
    if n < 2 {
        assert(!exists|i: int| #[trigger] paren_at(c@, i));
        return None;
    }
    let mut i: usize = n - 1;
    let mut found: Option<usize> = None;
    while i > 0
        invariant_except_break
            found is None,
            forall|j: int| i <= j ==> !#[trigger] paren_at(c@, j),
        invariant
            c@ == stat@,
            n == c@.len(),
            i < n,
        ensures
            found matches Some(k) ==> paren_at(c@, k as int) && forall|j: int| k < j ==> !#[trigger] paren_at(c@, j),
            found is None ==> forall|j: int| 0 <= j ==> !#[trigger] paren_at(c@, j),
        decreases i,
    {
        i -= 1;
        if c[i] == ')' && c[i + 1] == ' ' {
            assert(paren_at(c@, i as int));
            found = Some(i);
            break;
        }
    }
    let k = match found {
        None => {
            assert(!exists|j: int| #[trigger] paren_at(c@, j)) by {
                assert forall|j: int| !#[trigger] paren_at(c@, j) by {
                    if j >= 0 {
                    }
                }
            }
            return None;
        },
        Some(k) => k,
    };
    proof {
        assert(paren_at(c@, k as int));
        let w = choose|j: int| paren_at(c@, j) && forall|m: int| j < m ==> !#[trigger] paren_at(c@, m);
        if w < k {
        } else if w > k {
        }
        assert(w == k);
    }
    let rest = slice_chars(c.as_slice(), k + 2, n);
    assert(rest@ == stat@.skip(k + 2));
    let w = words_exec(rest.as_slice());
    if w.len() > 19 {
        Some(string_of(w[19].as_slice()))
    } else {
        None
    }
}

/// Whether the holder's process still runs: the recorded start time equals
/// the current one; unknown when the process could not be read.
pub fn liveness(expected: &str, found: Option<String>) -> (r: Option<bool>)
    ensures
        r == match found {
            Some(f) => Some(f@ == expected@),
            None => None::<bool>,
        },
{
    match found {
        Some(f) => Some(str_eq(f.as_str(), expected)),
        None => None,
    }
}

} // verus!
