//! Small judgements made while recording observations and progress.
use vstd::prelude::*;
use crate::text::{chars_of, contains, contains_exec, lines, lines_exec, push_chars, push_str, starts_with, starts_with_exec};

verus! {

pub open spec fn observation_status_spec(content: Seq<char>) -> Seq<char> {
    if contains(content, "<status>error</status>"@) {
        "error"@
    } else {
        "ok"@
    }
}

/// An observation is an error when it carries `<status>error</status>`.
pub fn observation_status(content: &str) -> (r: &'static str)
    ensures
        r@ == observation_status_spec(content@),
{
    let c = chars_of(content);
    let p = chars_of("<status>error</status>");
    if contains_exec(c.as_slice(), p.as_slice()) {
        "error"
    } else {
        "ok"
    }
}

/// The operations that may suspend a matter and wake it later.
pub open spec fn wake_prefixes() -> Seq<Seq<char>> {
    seq![
        "owner.intake"@,
        "owner.answer"@,
        "recovery.handle/"@,
        "effect.run/"@,
        "todo.review/"@,
        "calendar.review/"@,
        "routine.run/"@,
        "index.rebuild/"@,
        "proof.collect/"@,
        "dev.review/"@,
        "project.advance/"@,
        "finance.review/"@,
    ]
}

/// The operation key starts with one of the suspending prefixes.
pub fn suspend_wake_operation(key: &str) -> (r: bool)
    ensures
        r == exists|k: int| 0 <= k < wake_prefixes().len() && starts_with(key@, #[trigger] wake_prefixes()[k]),
{
    let c = chars_of(key);
    let prefixes: Vec<&str> = vec![
        "owner.intake",
        "owner.answer",
        "recovery.handle/",
        "effect.run/",
        "todo.review/",
        "calendar.review/",
        "routine.run/",
        "index.rebuild/",
        "proof.collect/",
        "dev.review/",
        "project.advance/",
        "finance.review/",
    ];
    let ghost ws = wake_prefixes();
    assert(ws.len() == prefixes@.len());
    assert(forall|k: int| 0 <= k < ws.len() ==> ws[k] == (#[trigger] prefixes@[k])@);
    for k in 0..prefixes.len()
        invariant
            c@ == key@,
            ws == wake_prefixes(),
            ws.len() == prefixes@.len(),
            forall|k: int| 0 <= k < ws.len() ==> ws[k] == (#[trigger] prefixes@[k])@,
            forall|j: int| 0 <= j < k ==> !starts_with(key@, #[trigger] ws[j]),
    {
        let p = chars_of(prefixes[k]);
        if starts_with_exec(c.as_slice(), p.as_slice()) {
            assert(starts_with(key@, ws[k as int]));
            return true;
        }
    }
    false
}

/// The lines of a step's inputs that keep its action state
/// (`last_action...` and `count=...`), each ended by a newline.
pub open spec fn action_state_spec(inputs: Seq<char>) -> Seq<char> {
    kept_lines(lines(inputs))
}

pub open spec fn kept_lines(ls: Seq<Seq<char>>) -> Seq<char>
    decreases ls.len(),
{
    if ls.len() == 0 {
        Seq::empty()
    } else {
        let pre = kept_lines(ls.drop_last());
        let l = ls.last();
        if starts_with(l, "last_action"@) || starts_with(l, "count="@) {
            pre + l + "\n"@
        } else {
            pre
        }
    }
}

/// The action-state lines of a step's inputs.
pub fn action_state(inputs: &str) -> (r: String)
    ensures
        r@ == action_state_spec(inputs@),
{
    let c = chars_of(inputs);
    let ls = lines_exec(c.as_slice());
    let a = chars_of("last_action");
    let b = chars_of("count=");
    let ghost all = lines(inputs@);
    let mut r = String::new();
    for i in 0..ls.len()
        invariant
            ls@.len() == all.len(),
            all == lines(inputs@),
            forall|k: int| 0 <= k < ls@.len() ==> #[trigger] ls@[k]@ == all[k],
            a@ == "last_action"@,
            b@ == "count="@,
            r@ == kept_lines(all.take(i as int)),
    {
        assert(all.take(i + 1).drop_last() == all.take(i as int));
        assert(all.take(i + 1).last() == ls@[i as int]@);
        if starts_with_exec(ls[i].as_slice(), a.as_slice()) || starts_with_exec(ls[i].as_slice(), b.as_slice()) {
            push_chars(&mut r, ls[i].as_slice());
            push_str(&mut r, "\n");
        }
    }
    assert(all.take(all.len() as int) == all);
    r
}

} // verus!
