//! A memory note as it is rendered passes the structure check made with the
//! parameters it was written from.
use vstd::prelude::*;
use crate::config_registry::{member, ScalarView};
use crate::memory_checks::{
    closing_line, expected_sources, front_spec, listed, sources_spec, structure_spec, tail_spec,
};
use crate::memory_record::render_spec;
use crate::text::{
    is_ws, join, lemma_line_pieces_nonempty, line_pieces, lines, prefixed, strip_cr, strip_prefix,
    trim, trim_end, trim_start,
};

verus! {

/// `s` holds no line feed and does not end with a carriage return, so it
/// reads back as one whole line.
pub open spec fn one_line(s: Seq<char>) -> bool {
    &&& forall|q: int| 0 <= q < s.len() ==> s[q] != '\n'
    &&& !(s.len() > 0 && s.last() == '\r')
}

/// `s` holds no line feed.
pub open spec fn no_line_feed(s: Seq<char>) -> bool {
    forall|q: int| 0 <= q < s.len() ==> s[q] != '\n'
}

proof fn lemma_trim_start_keeps(x: Seq<char>)
    ensures
        (exists|q: int| 0 <= q < x.len() && !is_ws(x[q])) ==> trim_start(x).len() > 0 && !is_ws(trim_start(x)[0]),
        (forall|q: int| 0 <= q < x.len() ==> is_ws(x[q])) ==> trim_start(x).len() == 0,
    decreases x.len(),
{
    if x.len() > 0 {
        lemma_trim_start_keeps(x.drop_first());
        if is_ws(x[0]) {
            if exists|q: int| 0 <= q < x.len() && !is_ws(x[q]) {
                let q = choose|q: int| 0 <= q < x.len() && !is_ws(x[q]);
                assert(!is_ws(x.drop_first()[q - 1]));
            }
            if forall|q: int| 0 <= q < x.len() ==> is_ws(x[q]) {
                assert forall|q: int| 0 <= q < x.drop_first().len() implies is_ws(x.drop_first()[q]) by {
                    assert(x.drop_first()[q] == x[q + 1]);
                }
            }
        }
    }
}

proof fn lemma_trim_end_keeps(y: Seq<char>)
    requires
        y.len() > 0,
        !is_ws(y[0]),
    ensures
        trim_end(y).len() > 0,
    decreases y.len(),
{
    if y.len() > 1 && is_ws(y.last()) {
        lemma_trim_end_keeps(y.drop_last());
    }
}

/// A text trims to something exactly when it holds a character that is not
/// white space.
pub proof fn lemma_trim_nonempty(x: Seq<char>)
    ensures
        trim(x).len() > 0 <==> exists|q: int| 0 <= q < x.len() && !is_ws(x[q]),
{
    lemma_trim_start_keeps(x);
    if exists|q: int| 0 <= q < x.len() && !is_ws(x[q]) {
        lemma_trim_end_keeps(trim_start(x));
    } else {
        assert(trim_start(x).len() == 0);
    }
}

/// Dropping a closing carriage return keeps a title non-blank.
proof fn lemma_trim_strip_cr(t: Seq<char>)
    requires
        trim(t).len() > 0,
    ensures
        trim(strip_cr(t)).len() > 0,
{
    lemma_trim_nonempty(t);
    let q = choose|q: int| 0 <= q < t.len() && !is_ws(t[q]);
    if t.len() > 0 && t.last() == '\r' {
        assert(q < t.len() - 1);
        assert(strip_cr(t)[q] == t[q]);
    }
    lemma_trim_nonempty(strip_cr(t));
}

proof fn lemma_pieces_single(x: Seq<char>)
    requires
        forall|q: int| 0 <= q < x.len() ==> x[q] != '\n',
    ensures
        x.len() > 0 ==> line_pieces(x) == seq![x],
        x.len() == 0 ==> line_pieces(x) == Seq::<Seq<char>>::empty(),
    decreases x.len(),
{
    if x.len() > 1 {
        let d = x.drop_last();
        assert forall|q: int| 0 <= q < d.len() implies d[q] != '\n' by {
            assert(d[q] == x[q]);
        }
        lemma_pieces_single(d);
        assert(x[x.len() - 2] == d.last());
        assert(x[x.len() - 2] != '\n');
        assert(x.last() == x[x.len() - 1]);
        assert(x.last() != '\n');
        assert(line_pieces(d) == seq![d]);
        assert(d.push(x.last()) == x);
        assert(seq![d].update(0, d.push(x.last())) == seq![x]);
        assert(line_pieces(x) == line_pieces(d).update(line_pieces(d).len() - 1, line_pieces(d).last().push(x.last())));
    } else if x.len() == 1 {
        assert(x.drop_last() == Seq::<char>::empty());
        assert(line_pieces(x.drop_last()) == Seq::<Seq<char>>::empty());
        assert(x.last() == x[0]);
        assert(x.last() != '\n');
        assert(seq![x.last()] == x);
        assert(line_pieces(x) == Seq::<Seq<char>>::empty().push(seq![x.last()]));
    }
}

/// A line without a break, then a break: its pieces come first.
proof fn lemma_pieces_front(x: Seq<char>, y: Seq<char>)
    requires
        forall|q: int| 0 <= q < x.len() ==> x[q] != '\n',
    ensures
        line_pieces(x + seq!['\n'] + y) == seq![x] + line_pieces(y),
    decreases y.len(),
{
    let head = x + seq!['\n'];
    lemma_pieces_single(x);
    if y.len() == 0 {
        assert(x + seq!['\n'] + y == head);
        assert(head.drop_last() == x);
        assert(head.last() == '\n');
        if x.len() == 0 {
            assert(head.len() == 1);
            assert(line_pieces(head) == Seq::<Seq<char>>::empty().push(Seq::<char>::empty()));
            assert(x == Seq::<char>::empty());
            assert(seq![x] == seq![Seq::<char>::empty()]);
        } else {
            assert(head[head.len() - 2] == x[x.len() - 1]);
            assert(line_pieces(head) == line_pieces(x));
        }
        assert(line_pieces(y) == Seq::<Seq<char>>::empty());
        assert(seq![x] + line_pieces(y) == seq![x]);
    } else {
        let y0 = y.drop_last();
        let c = y.last();
        lemma_pieces_front(x, y0);
        let s = x + seq!['\n'] + y;
        assert(s.drop_last() == x + seq!['\n'] + y0);
        assert(s.last() == c);
        let p0 = line_pieces(y0);
        let pre = seq![x] + p0;
        assert(line_pieces(s.drop_last()) == pre);
        let ended_s = s.len() == 1 || s[s.len() - 2] == '\n';
        let ended_y = y.len() == 1 || y[y.len() - 2] == '\n';
        if y0.len() == 0 {
            assert(s[s.len() - 2] == '\n');
            assert(p0 == Seq::<Seq<char>>::empty());
        } else {
            assert(s[s.len() - 2] == y0.last());
            assert(y[y.len() - 2] == y0.last());
            lemma_line_pieces_nonempty(y0);
        }
        assert(ended_s == ended_y);
        if ended_s {
            if c == '\n' {
                assert(line_pieces(s) == pre.push(Seq::empty()));
                assert(line_pieces(y) == p0.push(Seq::empty()));
                assert(pre.push(Seq::empty()) == seq![x] + p0.push(Seq::empty()));
            } else {
                assert(line_pieces(s) == pre.push(seq![c]));
                assert(line_pieces(y) == p0.push(seq![c]));
                assert(pre.push(seq![c]) == seq![x] + p0.push(seq![c]));
            }
        } else if c == '\n' {
            assert(line_pieces(s) == pre);
            assert(line_pieces(y) == p0);
        } else {
            assert(p0.len() > 0);
            assert(line_pieces(s) == pre.update(pre.len() - 1, pre.last().push(c)));
            assert(line_pieces(y) == p0.update(p0.len() - 1, p0.last().push(c)));
            assert(pre.last() == p0.last());
            assert(pre.update(pre.len() - 1, pre.last().push(c)) == seq![x] + p0.update(p0.len() - 1, p0.last().push(c)));
        }
    }
}

/// The lines of a text that starts with a line without a break.
proof fn lemma_lines_front(x: Seq<char>, y: Seq<char>)
    requires
        forall|q: int| 0 <= q < x.len() ==> x[q] != '\n',
    ensures
        lines(x + seq!['\n'] + y) == seq![strip_cr(x)] + lines(y),
{
    lemma_pieces_front(x, y);
    let s = x + seq!['\n'] + y;
    let p = line_pieces(y);
    let ps = line_pieces(s);
    if y.len() > 0 {
        assert(s.last() == y.last());
        lemma_line_pieces_nonempty(y);
    } else {
        assert(s.last() == '\n');
        assert(p == Seq::<Seq<char>>::empty());
    }
    assert(ps == seq![x] + p);
    let a = lines(s);
    let b = seq![strip_cr(x)] + lines(y);
    assert(a.len() == b.len());
    assert forall|i: int| 0 <= i < a.len() implies a[i] == b[i] by {
        if i == 0 {
            assert(ps[0] == x);
        } else {
            assert(ps[i] == p[i - 1]);
            assert(b[i] == lines(y)[i - 1]);
        }
    }
    assert(a =~= b);
}

proof fn lemma_join_front(parts: Seq<Seq<char>>, sep: Seq<char>)
    requires
        parts.len() >= 2,
    ensures
        join(parts, sep) == parts[0] + sep + join(parts.drop_first(), sep),
    decreases parts.len(),
{
    assert(join(parts, sep) == join(parts.drop_last(), sep) + sep + parts.last());
    if parts.len() == 2 {
        assert(parts.drop_last() == seq![parts[0]]);
        assert(parts.drop_first() == seq![parts[1]]);
        assert(join(parts.drop_last(), sep) == parts[0]);
        assert(join(parts.drop_first(), sep) == parts[1]);
        assert(parts.last() == parts[1]);
    } else {
        lemma_join_front(parts.drop_last(), sep);
        let t = parts.drop_first();
        assert(parts.drop_last().drop_first() == t.drop_last());
        assert(t.last() == parts.last());
        assert(parts.drop_last()[0] == parts[0]);
        assert(join(t, sep) == join(t.drop_last(), sep) + sep + t.last());
    }
}

/// The lines of lines without breaks, each ended by a break, then more text.
proof fn lemma_lines_join(ls: Seq<Seq<char>>, rest: Seq<char>)
    requires
        ls.len() >= 1,
        forall|i: int, q: int| 0 <= i < ls.len() && 0 <= q < ls[i].len() ==> #[trigger] ls[i][q] != '\n',
    ensures
        lines(join(ls, seq!['\n']) + seq!['\n'] + rest) == Seq::new(ls.len(), |i: int| strip_cr(ls[i])) + lines(rest),
    decreases ls.len(),
{
    if ls.len() == 1 {
        assert(join(ls, seq!['\n']) == ls[0]);
        assert forall|q: int| 0 <= q < ls[0].len() implies ls[0][q] != '\n' by {}
        lemma_lines_front(ls[0], rest);
        assert(Seq::new(ls.len(), |i: int| strip_cr(ls[i])) == seq![strip_cr(ls[0])]);
    } else {
        let tail = ls.drop_first();
        lemma_join_front(ls, seq!['\n']);
        assert forall|i: int, q: int| 0 <= i < tail.len() && 0 <= q < tail[i].len() implies #[trigger] tail[i][q] != '\n' by {
            assert(tail[i] == ls[i + 1]);
        }
        lemma_lines_join(tail, rest);
        assert forall|q: int| 0 <= q < ls[0].len() implies ls[0][q] != '\n' by {}
        let inner = join(tail, seq!['\n']) + seq!['\n'] + rest;
        assert(join(ls, seq!['\n']) + seq!['\n'] + rest == ls[0] + seq!['\n'] + inner);
        lemma_lines_front(ls[0], inner);
        assert(Seq::new(ls.len(), |i: int| strip_cr(ls[i])) == seq![strip_cr(ls[0])] + Seq::new(
            tail.len(),
            |i: int| strip_cr(tail[i]),
        ));
    }
}

/// The first piece of a text starts with the text's first character.
proof fn lemma_first_piece(s: Seq<char>)
    requires
        s.len() > 0,
        s[0] != '\n',
    ensures
        line_pieces(s).len() >= 1,
        line_pieces(s)[0].len() >= 1,
        line_pieces(s)[0][0] == s[0],
    decreases s.len(),
{
    if s.len() > 1 {
        let d = s.drop_last();
        lemma_first_piece(d);
        let pre = line_pieces(d);
        let c = s.last();
        let ended = s[s.len() - 2] == '\n';
        if ended {
            if c == '\n' {
                assert(line_pieces(s) == pre.push(Seq::empty()));
            } else {
                assert(line_pieces(s) == pre.push(seq![c]));
            }
        } else if c == '\n' {
            assert(line_pieces(s) == pre);
        } else {
            assert(line_pieces(s) == pre.update(pre.len() - 1, pre.last().push(c)));
            if pre.len() == 1 {
                assert(pre.last().push(c)[0] == pre[0][0]);
            }
        }
    } else {
        assert(s.drop_last() == Seq::<char>::empty());
        assert(line_pieces(s.drop_last()) == Seq::<Seq<char>>::empty());
        assert(s.last() == s[0]);
        assert(line_pieces(s) == Seq::<Seq<char>>::empty().push(seq![s[0]]));
    }
}

proof fn lemma_join_head(parts: Seq<Seq<char>>, sep: Seq<char>)
    requires
        parts.len() >= 1,
        parts[0].len() > 0,
    ensures
        join(parts, sep).len() > 0,
        join(parts, sep)[0] == parts[0][0],
    decreases parts.len(),
{
    if parts.len() > 1 {
        lemma_join_head(parts.drop_last(), sep);
    }
}

proof fn lemma_trim_start_head(s: Seq<char>)
    ensures
        trim_start(s).len() > 0 ==> !is_ws(trim_start(s)[0]),
    decreases s.len(),
{
    if s.len() > 0 && is_ws(s[0]) {
        lemma_trim_start_head(s.drop_first());
    }
}

proof fn lemma_trim_end_prefix(u: Seq<char>)
    ensures
        trim_end(u).len() <= u.len(),
        forall|i: int| 0 <= i < trim_end(u).len() ==> trim_end(u)[i] == u[i],
    decreases u.len(),
{
    if u.len() > 0 && is_ws(u.last()) {
        let d = u.drop_last();
        lemma_trim_end_prefix(d);
        assert forall|i: int| 0 <= i < trim_end(u).len() implies trim_end(u)[i] == u[i] by {
            assert(trim_end(u) == trim_end(d));
            assert(d[i] == u[i]);
        }
    }
}

/// A text that is not blank after trimming starts, trimmed, with a
/// non-space character.
proof fn lemma_trim_head(s: Seq<char>)
    requires
        trim(s).len() > 0,
    ensures
        !is_ws(trim(s)[0]),
{
    lemma_trim_start_head(s);
    lemma_trim_end_prefix(trim_start(s));
}

/// The body lines of a rendered note hold more than whitespace.
proof fn lemma_body_lines(b: Seq<char>)
    requires
        b.len() > 0,
        !is_ws(b[0]),
    ensures
        lines(b + seq!['\n']).len() >= 1,
        trim(join(lines(b + seq!['\n']), "\n"@)).len() > 0,
{
    let s = b + seq!['\n'];
    assert(s[0] == b[0]);
    lemma_first_piece(s);
    let p = line_pieces(s);
    let ls = lines(s);
    assert(ls[0] == strip_cr(p[0]));
    if p[0].len() == 1 {
        assert(p[0].last() == p[0][0]);
    }
    assert(ls[0].len() > 0 && ls[0][0] == b[0]);
    lemma_join_head(ls, "\n"@);
    let t = join(ls, "\n"@);
    assert(trim_start(t) == t);
    crate::note_round_trip::lemma_trim_end_keeps_head(t);
}


proof fn lemma_join_concat(a: Seq<Seq<char>>, b: Seq<Seq<char>>, sep: Seq<char>)
    requires
        a.len() >= 1,
        b.len() >= 1,
    ensures
        join(a + b, sep) == join(a, sep) + sep + join(b, sep),
    decreases b.len(),
{
    if b.len() == 1 {
        assert((a + b).drop_last() == a);
        assert((a + b).last() == b[0]);
        assert(join(b, sep) == b[0]);
    } else {
        lemma_join_concat(a, b.drop_last(), sep);
        assert((a + b).drop_last() == a + b.drop_last());
        assert((a + b).last() == b.last());
    }
}

/// The lines of a memory note's front matter and heading, before its body.
pub open spec fn note_head(slug: Seq<char>, sources: Seq<Seq<char>>, title: Seq<char>) -> Seq<Seq<char>> {
    seq!["---"@, "kind: memory"@, "semantic-key: "@ + slug, "slug: "@ + slug, "source-fingerprints:"@]
        + prefixed(sources, "- "@) + seq!["---"@, "# "@ + title, Seq::empty()]
}

/// A rendered note is its head lines and its trimmed body, each ended by a break.
proof fn lemma_note_text(slug: Seq<char>, sources: Seq<Seq<char>>, title: Seq<char>, body: Seq<char>)
    requires
        sources.len() >= 1,
    ensures
        render_spec(slug, sources, title, body) == join(note_head(slug, sources, title), seq!['\n'])
            + seq!['\n'] + (trim(body) + seq!['\n']),
{
    reveal_strlit("---\nkind: memory\nsemantic-key: ");
    reveal_strlit("\nslug: ");
    reveal_strlit("\nsource-fingerprints:\n");
    reveal_strlit("\n---\n# ");
    reveal_strlit("\n\n");
    reveal_strlit("\n");
    reveal_strlit("---");
    reveal_strlit("kind: memory");
    reveal_strlit("semantic-key: ");
    reveal_strlit("slug: ");
    reveal_strlit("source-fingerprints:");
    reveal_strlit("# ");
    let nl = seq!['\n'];
    let front = seq!["---"@, "kind: memory"@, "semantic-key: "@ + slug, "slug: "@ + slug, "source-fingerprints:"@];
    let mid = prefixed(sources, "- "@);
    let back = seq!["---"@, "# "@ + title, Seq::<char>::empty()];
    assert(note_head(slug, sources, title) == front + mid + back);
    lemma_join_concat(front, mid, nl);
    lemma_join_concat(front + mid, back, nl);
    assert(join(front, nl) == "---"@ + nl + "kind: memory"@ + nl + ("semantic-key: "@ + slug) + nl + (
    "slug: "@ + slug) + nl + "source-fingerprints:"@) by {
        reveal_with_fuel(join, 6);
    }
    assert(join(back, nl) == "---"@ + nl + ("# "@ + title) + nl + Seq::<char>::empty()) by {
        reveal_with_fuel(join, 4);
    }
    assert("\n"@ == nl);
    assert(join(mid, "\n"@) == join(mid, nl));
    assert(render_spec(slug, sources, title, body) =~= join(front, nl) + nl + join(mid, nl) + nl + join(back, nl)
        + nl + (trim(body) + nl));
}

/// The head lines hold no line break and do not end with a carriage return.
proof fn lemma_head_lines(slug: Seq<char>, sources: Seq<Seq<char>>, title: Seq<char>)
    requires
        one_line(slug),
        forall|i: int| 0 <= i < sources.len() ==> one_line(#[trigger] sources[i]),
        no_line_feed(title),
    ensures
        forall|i: int, q: int|
            0 <= i < note_head(slug, sources, title).len() && 0 <= q < note_head(slug, sources, title)[i].len()
                ==> #[trigger] note_head(slug, sources, title)[i][q] != '\n',
        Seq::new(note_head(slug, sources, title).len(), |i: int| strip_cr(note_head(slug, sources, title)[i]))
            == note_head(slug, sources, title).update(6 + sources.len() as int, "# "@ + strip_cr(title)),
{
    reveal_strlit("---");
    reveal_strlit("kind: memory");
    reveal_strlit("semantic-key: ");
    reveal_strlit("slug: ");
    reveal_strlit("source-fingerprints:");
    reveal_strlit("# ");
    reveal_strlit("- ");
    let h = note_head(slug, sources, title);
    let n = sources.len();
    assert forall|i: int, q: int| 0 <= i < h.len() && 0 <= q < h[i].len() implies #[trigger] h[i][q] != '\n' by {
        if i == 2 {
            if q >= 14 {
                assert(h[i][q] == slug[q - 14]);
            }
        } else if i == 3 {
            if q >= 6 {
                assert(h[i][q] == slug[q - 6]);
            }
        } else if 5 <= i < 5 + n {
            assert(h[i] == "- "@ + sources[i - 5]);
            if q >= 2 {
                assert(h[i][q] == sources[i - 5][q - 2]);
                assert(one_line(sources[i - 5]));
            }
        } else if i == 6 + n {
            assert(h[i] == "# "@ + title);
            if q >= 2 {
                assert(h[i][q] == title[q - 2]);
            }
        }
    }
    assert forall|i: int| 0 <= i < h.len() && i != 6 + n implies strip_cr(#[trigger] h[i]) == h[i] by {
        if h[i].len() > 0 {
            let q = h[i].len() - 1;
            if i == 2 {
                if q >= 14 {
                    assert(h[i][q] == slug[q - 14]);
                }
            } else if i == 3 {
                if q >= 6 {
                    assert(h[i][q] == slug[q - 6]);
                }
            } else if 5 <= i < 5 + n {
                assert(h[i] == "- "@ + sources[i - 5]);
                assert(one_line(sources[i - 5]));
                if q >= 2 {
                    assert(h[i][q] == sources[i - 5][q - 2]);
                }
            }
            assert(h[i][h[i].len() - 1] != '\r');
        }
    }
    assert(h[6 + n as int] == "# "@ + title);
    if title.len() > 0 && title.last() == '\r' {
        assert(("# "@ + title).drop_last() =~= "# "@ + title.drop_last());
    } else if title.len() == 0 {
        assert("# "@ + title =~= "# "@);
    }
    assert(strip_cr(h[6 + n as int]) == "# "@ + strip_cr(title));
    assert(Seq::new(h.len(), |i: int| strip_cr(h[i])) =~= h.update(6 + n as int, "# "@ + strip_cr(title)));
}

/// The source lines of a note, stripped of their `- `, are its sources.
proof fn lemma_listed_sources(ls: Seq<Seq<char>>, sources: Seq<Seq<char>>, k: int)
    requires
        0 <= k <= sources.len(),
        5 + sources.len() <= ls.len(),
        forall|i: int| 0 <= i < sources.len() ==> #[trigger] ls[5 + i] == "- "@ + sources[i],
    ensures
        listed(ls, 5, 5 + k) == sources.take(k),
    decreases k,
{
    reveal_strlit("- ");
    if k > 0 {
        lemma_listed_sources(ls, sources, k - 1);
        let line = ls[5 + k - 1];
        assert(line == "- "@ + sources[k - 1]);
        assert(line.take(2) == "- "@);
        assert(line.skip(2) == sources[k - 1]);
        assert(strip_prefix(line, "- "@) == Some(sources[k - 1]));
        assert(sources.take(k) == sources.take(k - 1).push(sources[k - 1]));
    }
}

/// A memory note as `render` writes it passes the structure check made with
/// the parameters it was written from, when it has at least one source,
/// the slug and the sources each read back as one line (no line feed, no
/// carriage return at the end), the title holds no line feed, and neither
/// the title nor the body is blank.
pub proof fn lemma_rendered_note_passes(
    values: Seq<(Seq<char>, ScalarView)>,
    slug: Seq<char>,
    sources: Seq<Seq<char>>,
    title: Seq<char>,
    body: Seq<char>,
)
    requires
        member(values, "slug"@) == Some(ScalarView::Text(slug)),
        expected_sources(values) == sources,
        one_line(slug),
        sources.len() >= 1,
        forall|i: int| 0 <= i < sources.len() ==> one_line(#[trigger] sources[i]),
        no_line_feed(title),
        trim(title).len() > 0,
        trim(body).len() > 0,
    ensures
        structure_spec(values, render_spec(slug, sources, title, body)),
{
    reveal_strlit("---");
    reveal_strlit("- ");
    reveal_strlit("# ");
    let h = note_head(slug, sources, title);
    let b = trim(body);
    let n = sources.len() as int;
    lemma_note_text(slug, sources, title, body);
    lemma_head_lines(slug, sources, title);
    lemma_lines_join(h, b + seq!['\n']);
    lemma_trim_head(body);
    lemma_body_lines(b);
    let rest = lines(b + seq!['\n']);
    let ls = lines(render_spec(slug, sources, title, body));
    let hs = h.update(6 + n, "# "@ + strip_cr(title));
    assert(ls == hs + rest);
    assert(h.len() == 8 + n);
    assert forall|i: int| 0 <= i < h.len() && i != 6 + n implies #[trigger] ls[i] == h[i] by {
        assert(ls[i] == hs[i]);
    }
    assert forall|i: int| 0 <= i < n implies #[trigger] ls[5 + i] == "- "@ + sources[i] by {
        assert(ls[5 + i] == h[5 + i]);
    }
    let end: int = 5 + n;
    assert(ls[end] == "---"@);
    assert forall|j: int| 5 <= j < end implies #[trigger] ls[j] != "---"@ by {
        assert(ls[j] == "- "@ + sources[j - 5]);
        assert(ls[j][1] == ' ');
        assert("---"@[1] == '-');
    }
    assert(closing_line(ls, 5) == Some(end)) by {
        let k = choose|k: int| 5 <= k < ls.len() && ls[k] == "---"@ && forall|j: int| 5 <= j < k ==> #[trigger] ls[j] != "---"@;
        if k < end {
        } else if k > end {
        }
    }
    lemma_listed_sources(ls, sources, n);
    assert(sources.take(n) == sources);
    assert(sources_spec(ls, end, expected_sources(values)));
    let title_line = ls[end + 1];
    assert(title_line == hs[6 + n]);
    assert(title_line == "# "@ + strip_cr(title));
    assert(title_line.take(2) == "# "@);
    assert(title_line.skip(2) == strip_cr(title));
    lemma_trim_strip_cr(title);
    assert(ls[end + 2] == h[7 + n]);
    assert(ls[end + 2] == Seq::<char>::empty());
    assert(ls.skip(end + 3) == rest);
    assert(tail_spec(ls, end));
    assert(front_spec(ls, slug));
}

} // verus!
