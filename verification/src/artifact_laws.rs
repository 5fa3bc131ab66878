//! What the artifact path rules and the word chunks keep: a normalized path
//! normalizes to itself, and the chunks of a body put together are the body.
use vstd::prelude::*;
use crate::artifact_effects::{
    chunk_count, chunk_end, chunk_start, escapes, lemma_starts_upto, normal_parts, normalize_spec,
    word_starts,
};
use crate::report_shape::split_on;
use crate::text::join;

verus! {

/// Cutting at a separator splits the pieces of both sides apart.
proof fn lemma_split_concat(x: Seq<char>, y: Seq<char>, sep: char)
    ensures
        split_on(x + seq![sep] + y, sep) == split_on(x, sep) + split_on(y, sep),
    decreases y.len(),
{
    let s = x + seq![sep] + y;
    if y.len() == 0 {
        assert(s.drop_last() == x);
        assert(split_on(y, sep) == seq![Seq::<char>::empty()]);
    } else {
        let y0 = y.drop_last();
        lemma_split_concat(x, y0, sep);
        lemma_split_len(y0, sep);
        assert(s.drop_last() == x + seq![sep] + y0);
        assert(s.last() == y.last());
        let a = split_on(x, sep);
        let b = split_on(y0, sep);
        if y.last() == sep {
            assert((a + b).push(Seq::empty()) == a + b.push(Seq::empty()));
        } else {
            assert((a + b).update((a + b).len() - 1, (a + b).last().push(y.last())) == a + b.update(
                b.len() - 1,
                b.last().push(y.last()),
            ));
        }
    }
}

proof fn lemma_split_len(s: Seq<char>, sep: char)
    ensures
        split_on(s, sep).len() >= 1,
    decreases s.len(),
{
    if s.len() > 0 {
        lemma_split_len(s.drop_last(), sep);
    }
}

/// Text without the separator is one piece.
proof fn lemma_split_single(p: Seq<char>, sep: char)
    requires
        forall|q: int| 0 <= q < p.len() ==> p[q] != sep,
    ensures
        split_on(p, sep) == seq![p],
    decreases p.len(),
{
    if p.len() > 0 {
        let d = p.drop_last();
        assert forall|q: int| 0 <= q < d.len() implies d[q] != sep by {
            assert(d[q] == p[q]);
        }
        lemma_split_single(d, sep);
        assert(p.last() == p[p.len() - 1]);
        assert(d.push(p.last()) == p);
        assert(seq![d].update(0, d.push(p.last())) == seq![p]);
    } else {
        assert(p == Seq::<char>::empty());
    }
}

/// No piece holds the separator.
proof fn lemma_split_pieces(s: Seq<char>, sep: char)
    ensures
        forall|i: int, q: int|
            0 <= i < split_on(s, sep).len() && 0 <= q < split_on(s, sep)[i].len() ==> #[trigger] split_on(
                s,
                sep,
            )[i][q] != sep,
    decreases s.len(),
{
    if s.len() > 0 {
        lemma_split_pieces(s.drop_last(), sep);
        lemma_split_len(s.drop_last(), sep);
        let pre = split_on(s.drop_last(), sep);
        let out = split_on(s, sep);
        assert forall|i: int, q: int|
            0 <= i < out.len() && 0 <= q < out[i].len() implies #[trigger] out[i][q] != sep by {
            if s.last() != sep && i == pre.len() - 1 {
                if q < pre.last().len() {
                    assert(out[i][q] == pre[i][q]);
                }
            } else if i < pre.len() {
                assert(out[i] == pre[i]);
            }
        }
    }
}

/// Pieces without the separator, joined by it, split back into themselves.
proof fn lemma_split_join(parts: Seq<Seq<char>>, sep: char)
    requires
        parts.len() >= 1,
        forall|i: int, q: int|
            0 <= i < parts.len() && 0 <= q < parts[i].len() ==> #[trigger] parts[i][q] != sep,
    ensures
        split_on(join(parts, seq![sep]), sep) == parts,
    decreases parts.len(),
{
    if parts.len() == 1 {
        lemma_split_single(parts[0], sep);
        assert(seq![parts[0]] == parts);
    } else {
        let pre = parts.drop_last();
        assert forall|i: int, q: int|
            0 <= i < pre.len() && 0 <= q < pre[i].len() implies #[trigger] pre[i][q] != sep by {
            assert(pre[i] == parts[i]);
        }
        lemma_split_join(pre, sep);
        let last = parts.last();
        assert forall|q: int| 0 <= q < last.len() implies last[q] != sep by {
            assert(parts[parts.len() - 1][q] != sep);
        }
        lemma_split_single(last, sep);
        lemma_split_concat(join(pre, seq![sep]), last, sep);
        assert(pre + seq![last] == parts);
    }
}

/// The kept components are pieces of the input that are neither empty nor `.`.
proof fn lemma_normal_parts_from(pieces: Seq<Seq<char>>)
    ensures
        forall|i: int|
            0 <= i < normal_parts(pieces).len() ==> exists|j: int|
                0 <= j < pieces.len() && #[trigger] normal_parts(pieces)[i] == pieces[j],
        forall|i: int|
            0 <= i < normal_parts(pieces).len() ==> (#[trigger] normal_parts(pieces)[i]).len() > 0
                && normal_parts(pieces)[i] != "."@,
    decreases pieces.len(),
{
    if pieces.len() > 0 {
        let pre = pieces.drop_last();
        lemma_normal_parts_from(pre);
        let out = normal_parts(pieces);
        assert forall|i: int| 0 <= i < out.len() implies exists|j: int|
            0 <= j < pieces.len() && #[trigger] out[i] == pieces[j] by {
            if i < normal_parts(pre).len() {
                let j = choose|j: int| 0 <= j < pre.len() && normal_parts(pre)[i] == pre[j];
                assert(out[i] == pieces[j]);
            } else {
                assert(out[i] == pieces[pieces.len() - 1]);
            }
        }
    }
}

/// Components that are neither empty nor `.` are all kept.
proof fn lemma_normal_parts_keep(parts: Seq<Seq<char>>)
    requires
        forall|i: int| 0 <= i < parts.len() ==> (#[trigger] parts[i]).len() > 0 && parts[i] != "."@,
    ensures
        normal_parts(parts) == parts,
    decreases parts.len(),
{
    if parts.len() > 0 {
        lemma_normal_parts_keep(parts.drop_last());
        assert(parts[parts.len() - 1] == parts.last());
    }
}

proof fn lemma_join_head(parts: Seq<Seq<char>>, sep: Seq<char>)
    requires
        parts.len() >= 1,
        parts[0].len() > 0,
    ensures
        join(parts, sep).len() > 0,
        join(parts, sep)[0] == parts[0][0],
    decreases parts.len(),
{
    if parts.len() > 1 {
        lemma_join_head(parts.drop_last(), sep);
    }
}

/// A listing of paths, one per line, splits back into the same paths when
/// there is at least one and none holds a line feed.
pub proof fn lemma_listing_round_trip(paths: Seq<Seq<char>>)
    requires
        paths.len() >= 1,
        forall|i: int, q: int| 0 <= i < paths.len() && 0 <= q < paths[i].len() ==> #[trigger] paths[i][q] != '\n',
    ensures
        split_on(join(paths, "\n"@), '\n') == paths,
{
    reveal_strlit("\n");
    assert("\n"@ == seq!['\n']);
    lemma_split_join(paths, '\n');
}

/// A normalized path is a non-empty relative path whose segments are all
/// non-empty and none is `.` or `..`.
pub proof fn lemma_normalized_shape(path: Seq<char>)
    ensures
        normalize_spec(path) matches Ok(p) ==> {
            &&& p.len() > 0
            &&& p[0] != '/'
            &&& forall|i: int|
                0 <= i < split_on(p, '/').len() ==> (#[trigger] split_on(p, '/')[i]).len() > 0
                    && split_on(p, '/')[i] != "."@ && split_on(p, '/')[i] != ".."@
        },
{
    reveal_strlit("/");
    if let Ok(p) = normalize_spec(path) {
        let pieces = split_on(path, '/');
        let parts = normal_parts(pieces);
        assert("/"@ == seq!['/']);
        lemma_split_pieces(path, '/');
        lemma_normal_parts_from(pieces);
        assert forall|i: int, q: int|
            0 <= i < parts.len() && 0 <= q < parts[i].len() implies #[trigger] parts[i][q] != '/' by {
            let j = choose|j: int| 0 <= j < pieces.len() && parts[i] == pieces[j];
            assert(pieces[j][q] != '/');
        }
        lemma_split_join(parts, '/');
        assert(split_on(p, '/') == parts);
        lemma_join_head(parts, seq!['/']);
        assert(p[0] != '/') by {
            assert(parts[0][0] != '/');
        }
        assert forall|i: int| 0 <= i < split_on(p, '/').len() implies (#[trigger] split_on(p, '/')[i]).len() > 0
            && split_on(p, '/')[i] != "."@ && split_on(p, '/')[i] != ".."@ by {
            let j = choose|j: int| 0 <= j < pieces.len() && parts[i] == pieces[j];
            assert(!escapes(path));
            assert(pieces[j] != ".."@);
        }
    }
}

/// A normalized path is already normal: normalizing it again gives it back.
pub proof fn lemma_normalize_idempotent(path: Seq<char>)
    ensures
        normalize_spec(path) matches Ok(p) ==> normalize_spec(p) == Ok::<Seq<char>, Seq<char>>(p),
{
    reveal_strlit("/");
    if let Ok(p) = normalize_spec(path) {
        let pieces = split_on(path, '/');
        let parts = normal_parts(pieces);
        assert("/"@ == seq!['/']);
        assert(p == join(parts, seq!['/']));
        lemma_split_pieces(path, '/');
        lemma_normal_parts_from(pieces);
        assert forall|i: int, q: int|
            0 <= i < parts.len() && 0 <= q < parts[i].len() implies #[trigger] parts[i][q] != '/' by {
            let j = choose|j: int| 0 <= j < pieces.len() && parts[i] == pieces[j];
            assert(pieces[j][q] != '/');
        }
        lemma_split_join(parts, '/');
        assert(split_on(p, '/') == parts);
        lemma_normal_parts_keep(parts);
        lemma_join_head(parts, seq!['/']);
        assert(p[0] != '/') by {
            assert(parts[0][0] != '/');
        }
        assert forall|i: int| 0 <= i < split_on(p, '/').len() implies #[trigger] split_on(p, '/')[i] != ".."@ by {
            let j = choose|j: int| 0 <= j < pieces.len() && parts[i] == pieces[j];
            assert(!escapes(path));
            assert(pieces[j] != ".."@);
        }
        assert(!escapes(p));
    }
}

/// The chunks of `c`, in order.
pub open spec fn chunks_of(c: Seq<char>) -> Seq<Seq<char>> {
    Seq::new(chunk_count(c) as nat, |k: int| c.subrange(chunk_start(c, k), chunk_end(c, k)))
}

/// Each chunk ends where the next begins, and the last at the end of the text.
proof fn lemma_chunk_bounds(c: Seq<char>, k: int)
    requires
        0 <= k < chunk_count(c),
    ensures
        0 <= chunk_start(c, k) <= chunk_end(c, k) <= c.len(),
        k + 1 < chunk_count(c) ==> chunk_end(c, k) == chunk_start(c, k + 1),
        k + 1 == chunk_count(c) ==> chunk_end(c, k) == c.len(),
{
    lemma_starts_upto(c, c.len() as int);
    let w = word_starts(c);
    let n = w.len();
    if n > 384 {
        assert(384 * k < n) by (nonlinear_arith)
            requires
                0 <= k < chunk_count(c),
                chunk_count(c) == (n - 1) / 384 + 1,
        ;
        if k + 1 < chunk_count(c) {
            assert(384 * (k + 1) < n) by (nonlinear_arith)
                requires
                    k + 1 < chunk_count(c),
                    chunk_count(c) == (n - 1) / 384 + 1,
            ;
            if k > 0 {
                assert(w[384 * k] < w[384 * (k + 1)]);
            }
        }
        if k > 0 {
            assert(0 <= w[384 * k] < c.len());
        }
    }
}

/// The first `m` chunks put together are the text up to the end of chunk `m - 1`.
proof fn lemma_chunks_prefix(c: Seq<char>, m: int)
    requires
        1 <= m <= chunk_count(c),
    ensures
        join(chunks_of(c).take(m), Seq::empty()) == c.subrange(0, chunk_end(c, m - 1)),
    decreases m,
{
    let parts = chunks_of(c);
    lemma_chunk_bounds(c, m - 1);
    if m == 1 {
        assert(parts.take(1) == seq![parts[0]]);
    } else {
        lemma_chunks_prefix(c, m - 1);
        lemma_chunk_bounds(c, m - 2);
        assert(parts.take(m).drop_last() == parts.take(m - 1));
        assert(parts.take(m).last() == parts[m - 1]);
        assert(c.subrange(0, chunk_end(c, m - 2)) + Seq::<char>::empty() + c.subrange(
            chunk_start(c, m - 1),
            chunk_end(c, m - 1),
        ) == c.subrange(0, chunk_end(c, m - 1)));
    }
}

/// The chunks of a body put together, with nothing between them, are the body.
pub proof fn lemma_chunks_cover(c: Seq<char>)
    ensures
        join(chunks_of(c), Seq::empty()) == c,
{
    let parts = chunks_of(c);
    let count = chunk_count(c);
    lemma_chunks_prefix(c, count);
    lemma_chunk_bounds(c, count - 1);
    assert(parts.take(count) == parts);
    assert(c.subrange(0, c.len() as int) == c);
}

} // verus!
