//! Whether an earlier check may be reused for an objective, and which
//! managed document an objective is about.
use vstd::prelude::*;
use crate::memory_context::contains_any_exec;
use crate::text::{chars_of, contains, contains_any, contains_exec, lower, lower_exec, string_of, strip_suffix, views};

verus! {

/// The bytes read one character each (ASCII stays ASCII, other bytes never
/// match an ASCII pattern).
pub open spec fn byte_chars(b: Seq<u8>) -> Seq<char> {
    Seq::new(b.len(), |i: int| b[i] as char)
}

pub open spec fn effect_words() -> Seq<Seq<char>> {
    seq![
        "write "@,
        "remember "@,
        "correct "@,
        "edit "@,
        "replace "@,
        "create "@,
        "update "@,
        "journal"@,
    ]
}

/// The objective, lowered, asks for no changes, or names no effect.
pub open spec fn allowed_spec(objective: Seq<u8>) -> bool {
    let text = lower(byte_chars(objective));
    contains(text, "no changes"@) || contains(text, "make no changes"@) || !contains_any(
        text,
        effect_words(),
    )
}

fn byte_chars_exec(b: &[u8]) -> (r: Vec<char>)
    ensures
        r@ == byte_chars(b@),
{
    let mut r: Vec<char> = Vec::new();
    for i in 0..b.len()
        invariant
            r@.len() == i,
            forall|j: int| 0 <= j < i ==> r@[j] == b@[j] as char,
    {
        r.push(b[i] as char);
    }
    assert(r@ == byte_chars(b@));
    r
}

/// An objective may reuse an unrelated check only when it makes no
/// changes: it says "no changes", or it has none of the effect words
/// (write, remember, correct, edit, replace, create, update, journal).
pub fn allowed(objective: &[u8]) -> (r: bool)
    ensures
        r == allowed_spec(objective@),
{
    let c = byte_chars_exec(objective);
    let text = lower_exec(c.as_slice());
    let a = chars_of("no changes");
    let b = chars_of("make no changes");
    if contains_exec(text.as_slice(), a.as_slice()) || contains_exec(text.as_slice(), b.as_slice()) {
        return true;
    }
    let words: Vec<&str> = vec![
        "write ",
        "remember ",
        "correct ",
        "edit ",
        "replace ",
        "create ",
        "update ",
        "journal",
    ];
    let any = contains_any_exec(text.as_slice(), &words);
    proof {
        let ws = effect_words();
        assert(ws.len() == words@.len());
        assert forall|k: int| 0 <= k < ws.len() implies ws[k] == (#[trigger] words@[k])@ by {}
        if any {
            let k = choose|k: int| 0 <= k < words@.len() && contains(text@, (#[trigger] words@[k])@);
            assert(contains(text@, ws[k]));
        }
        if contains_any(text@, ws) {
            let k = choose|k: int| 0 <= k < ws.len() && contains(text@, #[trigger] ws[k]);
            assert(contains(text@, words@[k]@));
        }
    }
    !any
}

/// The part of `s` after its last `/` (all of it when there is none).
pub open spec fn last_segment(s: Seq<char>) -> Seq<char>
    decreases s.len(),
{
    if s.len() == 0 {
        s
    } else if s.last() == '/' {
        Seq::empty()
    } else {
        last_segment(s.drop_last()).push(s.last())
    }
}

/// The lowered path, or its file stem, appears in the objective.
pub open spec fn relevant_spec(path: Seq<char>, objective: Seq<char>) -> bool {
    let p = lower(path);
    let slug = match strip_suffix(last_segment(p), ".md"@) {
        Some(s) => s,
        None => Seq::empty(),
    };
    contains(objective, p) || (slug.len() > 0 && contains(objective, slug))
}

fn last_segment_exec(s: &[char]) -> (r: Vec<char>)
    ensures
        r@ == last_segment(s@),
{
    let mut r: Vec<char> = Vec::new();
    for i in 0..s.len()
        invariant
            r@ == last_segment(s@.take(i as int)),
    {
        assert(s@.take(i + 1).drop_last() == s@.take(i as int));
        assert(s@.take(i + 1).last() == s@[i as int]);
        if s[i] == '/' {
            r = Vec::new();
        } else {
            r.push(s[i]);
        }
    }
    assert(s@.take(s@.len() as int) == s@);
    r
}

/// The objective (already lowered) mentions the path or the file's stem.
pub fn relevant(path: &str, objective: &str) -> (r: bool)
    ensures
        r == relevant_spec(path@, objective@),
{
    let c = chars_of(path);
    let p = lower_exec(c.as_slice());
    let seg = last_segment_exec(p.as_slice());
    let md = chars_of(".md");
    let slug = if crate::text::ends_with_exec(seg.as_slice(), md.as_slice()) {
        crate::text::slice_chars(seg.as_slice(), 0, seg.len() - md.len())
    } else {
        Vec::new()
    };
    assert(seg@.len() >= md@.len() ==> seg@.subrange(0, seg@.len() - md@.len()) == seg@.take(
        seg@.len() - md@.len(),
    ));
    let o = chars_of(objective);
    contains_exec(o.as_slice(), p.as_slice()) || (slug.len() > 0 && contains_exec(
        o.as_slice(),
        slug.as_slice(),
    ))
}

/// The first path that the objective names, else the first path.
pub open spec fn select_spec(paths: Seq<Seq<char>>, objective: Seq<char>) -> Option<Seq<char>> {
    if exists|i: int| 0 <= i < paths.len() && relevant_spec(paths[i], objective) {
        let i = choose|i: int|
            0 <= i < paths.len() && relevant_spec(paths[i], objective) && forall|j: int|
                0 <= j < i ==> !relevant_spec(paths[j], objective);
        Some(paths[i])
    } else if paths.len() > 0 {
        Some(paths[0])
    } else {
        None
    }
}

/// Of the active documents (in path order), the one an objective is about:
/// the first whose path or stem it mentions, else the first of all.
pub fn select_managed_path(paths: &Vec<String>, objective: &[u8]) -> (r: Option<String>)
    ensures
        match r {
            Some(p) => select_spec(views(paths@), lower(byte_chars(objective@))) == Some(p@),
            None => select_spec(views(paths@), lower(byte_chars(objective@))) is None,
        },
{
    let c = byte_chars_exec(objective);
    let o = lower_exec(c.as_slice());
    let text = string_of(o.as_slice());
    let ghost ps = views(paths@);
    for i in 0..paths.len()
        invariant
            ps == views(paths@),
            text@ == lower(byte_chars(objective@)),
            forall|j: int| 0 <= j < i ==> !relevant_spec(ps[j], text@),
    {
        if relevant(paths[i].as_str(), text.as_str()) {
            proof {
                let k = choose|k: int|
                    0 <= k < ps.len() && relevant_spec(ps[k], text@) && forall|j: int|
                        0 <= j < k ==> !relevant_spec(ps[j], text@);
                assert(relevant_spec(ps[i as int], text@));
                if k < i {
                } else if k > i {
                }
                assert(k == i);
            }
            return Some(paths[i].clone());
        }
    }
    if paths.len() > 0 {
        Some(paths[0].clone())
    } else {
        None
    }
}

/// An objective may reuse an unrelated check exactly when its lowered text
/// says "no changes" (or "make no changes"), or holds none of the effect
/// words "write ", "remember ", "correct ", "edit ", "replace ", "create ",
/// "update " and "journal".
pub proof fn lemma_effect_words_refuse_reuse(objective: Seq<u8>)
    ensures
        allowed_spec(objective) <==> (
            contains(lower(byte_chars(objective)), "no changes"@)
            || contains(lower(byte_chars(objective)), "make no changes"@)
            || !(
                contains(lower(byte_chars(objective)), "write "@)
                || contains(lower(byte_chars(objective)), "remember "@)
                || contains(lower(byte_chars(objective)), "correct "@)
                || contains(lower(byte_chars(objective)), "edit "@)
                || contains(lower(byte_chars(objective)), "replace "@)
                || contains(lower(byte_chars(objective)), "create "@)
                || contains(lower(byte_chars(objective)), "update "@)
                || contains(lower(byte_chars(objective)), "journal"@)
            )
        ),
{
    let t = lower(byte_chars(objective));
    let ws = effect_words();
    assert(ws[0] == "write "@);
    assert(ws[1] == "remember "@);
    assert(ws[2] == "correct "@);
    assert(ws[3] == "edit "@);
    assert(ws[4] == "replace "@);
    assert(ws[5] == "create "@);
    assert(ws[6] == "update "@);
    assert(ws[7] == "journal"@);
    if contains_any(t, ws) {
        let k = choose|k: int| 0 <= k < ws.len() && contains(t, #[trigger] ws[k]);
        assert(0 <= k < 8);
    }
}

} // verus!
