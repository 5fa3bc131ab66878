//! Which earlier conversation belongs to the project an objective names.
use vstd::prelude::*;
use crate::text::{chars_of, is_ascii_alnum, lower, lower_exec, owned, push_str, starts_with, starts_with_exec, string_of, views, chars_eq};

verus! {

/// The distinct values among the first `n` entries of `opts`, in order of
/// first appearance.
pub open spec fn distinct_upto(opts: Seq<Option<Seq<char>>>, n: int) -> Seq<Seq<char>>
    decreases n,
{
    if n <= 0 || n > opts.len() {
        Seq::empty()
    } else {
        let ks = distinct_upto(opts, n - 1);
        match opts[n - 1] {
            Some(k) => if ks.contains(k) {
                ks
            } else {
                ks.push(k)
            },
            None => ks,
        }
    }
}

/// A character that belongs to a project token: ASCII letter, digit or `-`.
pub open spec fn token_char(c: char) -> bool {
    is_ascii_alnum(c) || c == '-'
}

/// `s` cut at every character that is not a token character.
pub open spec fn token_pieces(s: Seq<char>) -> Seq<Seq<char>>
    decreases s.len(),
{
    if s.len() == 0 {
        seq![Seq::empty()]
    } else {
        let pre = token_pieces(s.drop_last());
        if !token_char(s.last()) {
            pre.push(Seq::empty())
        } else {
            pre.update(pre.len() - 1, pre.last().push(s.last()))
        }
    }
}

proof fn lemma_token_pieces_nonempty(s: Seq<char>)
    ensures
        token_pieces(s).len() >= 1,
    decreases s.len(),
{
    if s.len() > 0 {
        lemma_token_pieces_nonempty(s.drop_last());
    }
}

/// The project id a token names: `project-...`, at most 128 characters, lowered.
pub open spec fn project_id(piece: Seq<char>) -> Option<Seq<char>> {
    if starts_with(piece, "project-"@) && piece.len() <= 128 {
        Some(lower(piece))
    } else {
        None
    }
}

/// The distinct project ids that a text names, in order of first mention.
pub open spec fn project_ids_spec(text: Seq<char>) -> Seq<Seq<char>> {
    let p = token_pieces(text);
    distinct_upto(Seq::new(p.len(), |i: int| project_id(p[i])), p.len() as int)
}

fn token_pieces_exec(s: &[char]) -> (r: Vec<Vec<char>>)
    ensures
        r@.len() == token_pieces(s@).len(),
        forall|i: int| 0 <= i < r@.len() ==> #[trigger] r@[i]@ == token_pieces(s@)[i],
{
    let mut r: Vec<Vec<char>> = Vec::new();
    let mut cur: Vec<char> = Vec::new();
    for i in 0..s.len()
        invariant
            r@.len() + 1 == token_pieces(s@.take(i as int)).len(),
            forall|k: int| 0 <= k < r@.len() ==> #[trigger] r@[k]@ == token_pieces(s@.take(i as int))[k],
            cur@ == token_pieces(s@.take(i as int)).last(),
    {
        proof {
            lemma_token_pieces_nonempty(s@.take(i as int));
        }
        assert(s@.take(i + 1).drop_last() == s@.take(i as int));
        assert(s@.take(i + 1).last() == s@[i as int]);
        let c = s[i];
        if !(('a' <= c && c <= 'z') || ('A' <= c && c <= 'Z') || ('0' <= c && c <= '9') || c == '-') {
            let done = cur;
            r.push(done);
            cur = Vec::new();
        } else {
            cur.push(c);
        }
    }
    assert(s@.take(s@.len() as int) == s@);
    r.push(cur);
    r
}

fn has_chars(v: &Vec<Vec<char>>, k: &[char]) -> (r: bool)
    ensures
        r == Seq::new(v@.len(), |i: int| v@[i]@).contains(k@),
{
    let ghost vs = Seq::new(v@.len(), |i: int| v@[i]@);
    for i in 0..v.len()
        invariant
            vs == Seq::new(v@.len(), |i: int| v@[i]@),
            forall|j: int| 0 <= j < i ==> v@[j]@ != k@,
    {
        if chars_eq(v[i].as_slice(), k) {
            assert(vs[i as int] == k@);
            return true;
        }
    }
    false
}

fn project_ids_chars(text: &[char]) -> (r: Vec<Vec<char>>)
    ensures
        Seq::new(r@.len(), |i: int| r@[i]@) == project_ids_spec(text@),
{
    let pieces = token_pieces_exec(text);
    let ghost p = token_pieces(text@);
    let ghost opts = Seq::new(p.len(), |i: int| project_id(p[i]));
    let prefix = chars_of("project-");
    let mut ids: Vec<Vec<char>> = Vec::new();
    for i in 0..pieces.len()
        invariant
            p == token_pieces(text@),
            opts == Seq::new(p.len(), |i: int| project_id(p[i])),
            pieces@.len() == p.len(),
            forall|k: int| 0 <= k < pieces@.len() ==> #[trigger] pieces@[k]@ == p[k],
            prefix@ == "project-"@,
            Seq::new(ids@.len(), |j: int| ids@[j]@) == distinct_upto(opts, i as int),
    {
        let ghost before = Seq::new(ids@.len(), |j: int| ids@[j]@);
        assert(opts[i as int] == project_id(pieces@[i as int]@));
        let w = pieces[i].as_slice();
        if starts_with_exec(w, prefix.as_slice()) && w.len() <= 128 {
            let l = lower_exec(w);
            if !has_chars(&ids, l.as_slice()) {
                ids.push(l);
                assert(Seq::new(ids@.len(), |j: int| ids@[j]@) == before.push(lower(p[i as int])));
            }
        }
    }
    ids
}

/// The project ids (`project-...` tokens, lowered) that a text names, each once.
pub fn project_ids(text: &str) -> (r: Vec<String>)
    ensures
        views(r@) == project_ids_spec(text@),
{
    let c = chars_of(text);
    let ids = project_ids_chars(c.as_slice());
    let mut r: Vec<String> = Vec::new();
    for i in 0..ids.len()
        invariant
            r@.len() == i,
            forall|j: int| 0 <= j < i ==> #[trigger] r@[j]@ == ids@[j]@,
    {
        r.push(string_of(ids[i].as_slice()));
    }
    assert(views(r@) == Seq::new(ids@.len(), |i: int| ids@[i]@));
    r
}

/// Some id is in both lists.
pub open spec fn share_id(a: Seq<Seq<char>>, b: Seq<Seq<char>>) -> bool {
    exists|i: int| 0 <= i < a.len() && b.contains(#[trigger] a[i])
}

/// An earlier message is history for an objective when the objective names
/// no project, or the message names one of its projects.
pub open spec fn history_relevant_spec(objective: Seq<char>, body: Seq<char>) -> bool {
    let wanted = project_ids_spec(objective);
    wanted.len() == 0 || share_id(wanted, project_ids_spec(body))
}

/// Whether an earlier message belongs to the objective's projects.
pub fn history_relevant(objective: &str, body: &str) -> (r: bool)
    ensures
        r == history_relevant_spec(objective@, body@),
{
    let oc = chars_of(objective);
    let bc = chars_of(body);
    let wanted = project_ids_chars(oc.as_slice());
    if wanted.len() == 0 {
        return true;
    }
    let found = project_ids_chars(bc.as_slice());
    let ghost ws = Seq::new(wanted@.len(), |i: int| wanted@[i]@);
    let ghost fs = Seq::new(found@.len(), |i: int| found@[i]@);
    for i in 0..wanted.len()
        invariant
            ws == Seq::new(wanted@.len(), |i: int| wanted@[i]@),
            fs == Seq::new(found@.len(), |i: int| found@[i]@),
            ws == project_ids_spec(objective@),
            fs == project_ids_spec(body@),
            ws.len() > 0,
            forall|j: int| 0 <= j < i ==> !fs.contains(#[trigger] ws[j]),
    {
        if has_chars(&found, wanted[i].as_slice()) {
            assert(fs.contains(ws[i as int]));
            return true;
        }
    }
    false
}

/// The positions of the relevant messages among the first `n`, in order.
pub open spec fn relevant_upto(objective: Seq<char>, bodies: Seq<Seq<char>>, n: int) -> Seq<int>
    decreases n,
{
    if n <= 0 {
        Seq::empty()
    } else if history_relevant_spec(objective, bodies[n - 1]) {
        relevant_upto(objective, bodies, n - 1).push(n - 1)
    } else {
        relevant_upto(objective, bodies, n - 1)
    }
}

/// The history offered for an objective: of the recent messages (newest
/// first), the positions of the first four that are relevant to it.
pub open spec fn history_selection(objective: Seq<char>, bodies: Seq<Seq<char>>) -> Seq<int> {
    let all = relevant_upto(objective, bodies, bodies.len() as int);
    if all.len() <= 4 {
        all
    } else {
        all.take(4)
    }
}

proof fn lemma_relevant_prefix(objective: Seq<char>, bodies: Seq<Seq<char>>, n: int, m: int)
    requires
        0 <= n <= m <= bodies.len(),
    ensures
        relevant_upto(objective, bodies, m).len() >= relevant_upto(objective, bodies, n).len(),
        relevant_upto(objective, bodies, m).take(relevant_upto(objective, bodies, n).len() as int)
            == relevant_upto(objective, bodies, n),
    decreases m - n,
{
    if n < m {
        lemma_relevant_prefix(objective, bodies, n, m - 1);
        let a = relevant_upto(objective, bodies, m - 1);
        let k = relevant_upto(objective, bodies, n).len() as int;
        if history_relevant_spec(objective, bodies[m - 1]) {
            assert(a.push(m - 1).take(k) == a.take(k));
        }
    }
}

/// The positions of the messages offered as history: the first four
/// relevant ones.
pub fn select_history(objective: &str, bodies: &Vec<String>) -> (r: Vec<usize>)
    ensures
        r@.len() == history_selection(objective@, views(bodies@)).len(),
        forall|i: int| 0 <= i < r@.len() ==> r@[i] as int == #[trigger] history_selection(objective@, views(bodies@))[i],
{
    let ghost b = views(bodies@);
    let mut r: Vec<usize> = Vec::new();
    let mut i: usize = 0;
    while i < bodies.len() && r.len() < 4
        invariant
            i <= bodies@.len(),
            b == views(bodies@),
            r@.len() <= 4,
            r@.len() == relevant_upto(objective@, b, i as int).len(),
            forall|j: int| 0 <= j < r@.len() ==> r@[j] as int == #[trigger] relevant_upto(objective@, b, i as int)[j],
        decreases bodies.len() - i,
    {
        if history_relevant(objective, bodies[i].as_str()) {
            r.push(i);
        }
        i += 1;
    }
    proof {
        let all = relevant_upto(objective@, b, b.len() as int);
        lemma_relevant_prefix(objective@, b, i as int, b.len() as int);
        if r@.len() < 4 {
            assert(i == b.len());
        } else {
            assert(all.take(4) == relevant_upto(objective@, b, i as int));
            if all.len() == 4 {
                assert(all.take(4) == all);
            }
        }
        assert(history_selection(objective@, b) == relevant_upto(objective@, b, i as int));
    }
    r
}

/// The ids a conversation message from another matter is kept under as
/// context: the item's own, its semantic key, and its source (`role:id`).
pub fn history_ids(id: &str, role: &str) -> (r: (String, String, String))
    ensures
        r.0@ == "history-"@ + id@,
        r.1@ == "conversation-"@ + id@,
        r.2@ == role@ + ":"@ + id@,
{
    let mut item = owned("history-");
    push_str(&mut item, id);
    let mut key = owned("conversation-");
    push_str(&mut key, id);
    let mut source = owned(role);
    push_str(&mut source, ":");
    push_str(&mut source, id);
    (item, key, source)
}

} // verus!
