//! What a memory note gives back when it is read from where it was stored.
use vstd::prelude::*;
use crate::memory_context::{note_prefix, parse_spec, prohibited_spec};
use crate::memory_record::{canonical_key, render_spec};
use crate::text::{
    contains, first_index, is_ws, join, occurs_at, prefixed, split_once, strip_prefix,
    strip_suffix, trim, trim_end, trim_start,
};

verus! {

/// Every line break of the source list is followed by `- `.
proof fn lemma_source_lines(sources: Seq<Seq<char>>)
    requires
        forall|i: int, q: int|
            0 <= i < sources.len() && 0 <= q < sources[i].len() ==> #[trigger] sources[i][q] != '\n',
    ensures
        forall|q: int|
            0 <= q < join(prefixed(sources, "- "@), "\n"@).len() && #[trigger] join(
                prefixed(sources, "- "@),
                "\n"@,
            )[q] == '\n' ==> q + 2 < join(prefixed(sources, "- "@), "\n"@).len() && join(
                prefixed(sources, "- "@),
                "\n"@,
            )[q + 1] == '-' && join(prefixed(sources, "- "@), "\n"@)[q + 2] == ' ',
    decreases sources.len(),
{
    reveal_strlit("- ");
    reveal_strlit("\n");
    let parts = prefixed(sources, "- "@);
    let l = join(parts, "\n"@);
    if sources.len() == 1 {
        assert(l == "- "@ + sources[0]);
        assert forall|q: int| 0 <= q < l.len() implies #[trigger] l[q] != '\n' by {
            if q >= 2 {
                assert(l[q] == sources[0][q - 2]);
            }
        }
    } else if sources.len() > 1 {
        let pre = sources.drop_last();
        assert(prefixed(pre, "- "@) == parts.drop_last());
        assert forall|i: int, q: int|
            0 <= i < pre.len() && 0 <= q < pre[i].len() implies #[trigger] pre[i][q] != '\n' by {
            assert(pre[i] == sources[i]);
        }
        lemma_source_lines(pre);
        let j = join(parts.drop_last(), "\n"@);
        let last = sources.last();
        assert(parts.last() == "- "@ + last);
        assert(l == j + "\n"@ + ("- "@ + last));
        assert forall|q: int| 0 <= q < l.len() && #[trigger] l[q] == '\n' implies q + 2 < l.len()
            && l[q + 1] == '-' && l[q + 2] == ' ' by {
            if q < j.len() {
                assert(l[q] == j[q]);
                assert(l[q + 1] == j[q + 1]);
                assert(l[q + 2] == j[q + 2]);
            } else if q > j.len() + 2 {
                assert(l[q] == last[q - j.len() - 3]);
                assert(sources[sources.len() - 1] == last);
            }
        }
    }
}

/// A text that starts with a non-space character keeps at least that
/// character when trimmed at the end.
pub proof fn lemma_trim_end_keeps_head(s: Seq<char>)
    requires
        s.len() > 0,
        !is_ws(s[0]),
    ensures
        trim_end(s).len() > 0,
    decreases s.len(),
{
    if s.len() > 1 && is_ws(s.last()) {
        lemma_trim_end_keeps_head(s.drop_last());
    }
}

/// The first separator after a source list is the one that closes it.
proof fn lemma_split_after_sources(l: Seq<char>, tail: Seq<char>)
    requires
        forall|q: int|
            0 <= q < l.len() && #[trigger] l[q] == '\n' ==> q + 2 < l.len() && l[q + 1] == '-'
                && l[q + 2] == ' ',
    ensures
        split_once(l + "\n---\n"@ + tail, "\n---\n"@) == Some((l, tail)),
{
    reveal_strlit("\n---\n");
    let sep = "\n---\n"@;
    let rest = l + sep + tail;
    assert(occurs_at(rest, sep, l.len() as int)) by {
        assert(rest.subrange(l.len() as int, l.len() + 5int) == sep);
    }
    assert forall|j: int| 0 <= j < l.len() implies !occurs_at(rest, sep, j) by {
        if occurs_at(rest, sep, j) {
            assert(rest.subrange(j, j + 5)[0] == sep[0]);
            assert(rest[j] == l[j]);
            assert(l[j] == '\n');
            assert(rest.subrange(j, j + 5)[2] == sep[2]);
            assert(rest[j + 2] == l[j + 2]);
        }
    }
    assert(contains(rest, sep));
    let i = first_index(rest, sep);
    assert(occurs_at(rest, sep, i) && forall|j: int| 0 <= j < i ==> !occurs_at(rest, sep, j));
    assert(i == l.len()) by {
        if i > l.len() {
            assert(!occurs_at(rest, sep, l.len() as int));
        }
    }
    assert(rest.take(i) == l);
    assert(rest.skip(i + sep.len()) == tail);
}

/// The stored path of a note names its key.
proof fn lemma_note_path(slug: Seq<char>)
    ensures
        strip_prefix("knowledge/notes/"@ + slug + ".md"@, "knowledge/notes/"@) == Some(slug + ".md"@),
        strip_suffix(slug + ".md"@, ".md"@) == Some(slug),
{
    let path = "knowledge/notes/"@ + slug + ".md"@;
    let dir = "knowledge/notes/"@;
    let md = ".md"@;
    assert(path.take(dir.len() as int) == dir);
    assert(path.skip(dir.len() as int) == slug + md);
    assert((slug + md).skip((slug + md).len() - md.len()) == md);
    assert((slug + md).take((slug + md).len() - md.len()) == slug);
}

/// The rendered note is its front matter, the source list, the closing
/// separator and the rest.
proof fn lemma_note_layout(slug: Seq<char>, sources: Seq<Seq<char>>, title: Seq<char>, body: Seq<char>)
    ensures
        strip_prefix(render_spec(slug, sources, title, body), note_prefix(slug)) == Some(
            join(prefixed(sources, "- "@), "\n"@) + "\n---\n"@ + ("# "@ + title + "\n\n"@ + trim(body)
                + "\n"@),
        ),
{
    reveal_strlit("\n---\n# ");
    reveal_strlit("\n---\n");
    reveal_strlit("# ");
    let text = render_spec(slug, sources, title, body);
    let pre = note_prefix(slug);
    let rest = join(prefixed(sources, "- "@), "\n"@) + "\n---\n"@ + ("# "@ + title + "\n\n"@
        + trim(body) + "\n"@);
    assert(text == pre + rest);
    assert(text.take(pre.len() as int) == pre);
    assert(text.skip(pre.len() as int) == rest);
}

/// A memory note read back from where it is stored gives its key and its
/// body, when the note is clean and no source fingerprint holds a line break.
#[verifier::spinoff_prover]
pub proof fn lemma_note_round_trip(
    slug: Seq<char>,
    sources: Seq<Seq<char>>,
    title: Seq<char>,
    body: Seq<char>,
)
    requires
        canonical_key(slug),
        forall|i: int, q: int|
            0 <= i < sources.len() && 0 <= q < sources[i].len() ==> #[trigger] sources[i][q] != '\n',
        !prohibited_spec(render_spec(slug, sources, title, body)),
    ensures
        parse_spec(
            "knowledge/notes/"@ + slug + ".md"@,
            vstd::utf8::encode_utf8(render_spec(slug, sources, title, body)),
        ) == Some((slug, "# "@ + title + "\n\n"@ + trim(body) + "\n"@)),
{
    broadcast use {vstd::utf8::encode_utf8_valid_utf8, vstd::utf8::encode_utf8_decode_utf8};

    let text = render_spec(slug, sources, title, body);
    let l = join(prefixed(sources, "- "@), "\n"@);
    let tail = "# "@ + title + "\n\n"@ + trim(body) + "\n"@;
    lemma_note_path(slug);
    lemma_note_layout(slug, sources, title, body);
    lemma_source_lines(sources);
    lemma_split_after_sources(l, tail);
    assert(trim(tail).len() > 0) by {
        reveal_strlit("# ");
        assert(tail[0] == '#');
        assert(trim_start(tail) == tail);
        lemma_trim_end_keeps_head(tail);
    }
}

} // verus!
