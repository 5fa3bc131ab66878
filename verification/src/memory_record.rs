//! Memory notes: the semantic slug of a title and the rendered note.
use vstd::prelude::*;
use crate::text::{
    chars_of, is_ascii_alnum, is_ascii_digit, is_ascii_lower, join, join_prefixed, lower_char,
    lower_char_exec, owned, prefixed, push_chars, push_str, string_of, trim, trim_exec, views,
};

verus! {

/// The longest slug, in characters.
pub const SLUG_LIMIT: usize = 80;

/// The slug built so far from `title` and whether a separator is pending:
/// runs of characters other than ASCII letters and digits become one `-`,
/// letters are lowered, and nothing is added past 80 characters.
pub open spec fn slug_fold(title: Seq<char>) -> (Seq<char>, bool)
    decreases title.len(),
{
    if title.len() == 0 {
        (Seq::empty(), false)
    } else {
        let (slug, separator) = slug_fold(title.drop_last());
        let c = title.last();
        if is_ascii_alnum(c) {
            let with_dash = if separator && slug.len() > 0 && slug.len() < 80 {
                slug.push('-')
            } else {
                slug
            };
            let with_char = if with_dash.len() < 80 {
                with_dash.push(lower_char(c))
            } else {
                with_dash
            };
            (with_char, false)
        } else {
            (slug, true)
        }
    }
}

/// `s` without its trailing dashes.
pub open spec fn strip_dashes(s: Seq<char>) -> Seq<char>
    decreases s.len(),
{
    if s.len() > 0 && s.last() == '-' {
        strip_dashes(s.drop_last())
    } else {
        s
    }
}

/// The semantic slug of a title, when it has any letter or digit.
pub open spec fn slug_spec(title: Seq<char>) -> Option<Seq<char>> {
    let s = strip_dashes(slug_fold(title).0);
    if s.len() == 0 {
        None
    } else {
        Some(s)
    }
}

/// Two dashes in a row start at `i`.
pub open spec fn dash_pair(v: Seq<char>, i: int) -> bool {
    v[i] == '-' && v[i + 1] == '-'
}

/// A canonical key: 1 to 80 lowercase ASCII letters, digits and single
/// inner dashes.
pub open spec fn canonical_key(v: Seq<char>) -> bool {
    &&& v.len() > 0
    &&& v.len() <= 80
    &&& v[0] != '-'
    &&& v.last() != '-'
    &&& forall|i: int| 0 <= i < v.len() ==> (is_ascii_lower(v[i]) || is_ascii_digit(v[i]) || v[i] == '-')
    &&& forall|i: int| 0 <= i < v.len() - 1 ==> !#[trigger] dash_pair(v, i)
}

/// What the slug under construction always satisfies.
spec fn slug_shape(s: Seq<char>) -> bool {
    &&& s.len() <= 80
    &&& (s.len() > 0 ==> s[0] != '-')
    &&& forall|i: int| 0 <= i < s.len() ==> (is_ascii_lower(s[i]) || is_ascii_digit(s[i]) || s[i] == '-')
    &&& forall|i: int| 0 <= i < s.len() - 1 ==> !#[trigger] dash_pair(s, i)
    &&& (s.len() > 0 && s.last() == '-' ==> s.len() == 80)
}

proof fn lemma_slug_fold_shape(title: Seq<char>)
    ensures
        slug_shape(slug_fold(title).0),
    decreases title.len(),
{
    if title.len() > 0 {
        lemma_slug_fold_shape(title.drop_last());
        let (slug, sep) = slug_fold(title.drop_last());
        let out = slug_fold(title).0;
        assert forall|i: int| 0 <= i < out.len() - 1 implies !#[trigger] dash_pair(out, i) by {
            if i < slug.len() - 1 {
                assert(!dash_pair(slug, i));
            }
        }
    }
}

proof fn lemma_strip_dashes(s: Seq<char>)
    requires
        slug_shape(s),
    ensures
        strip_dashes(s) == s || (s.len() == 80 && strip_dashes(s) == s.drop_last()),
        strip_dashes(s).len() > 0 ==> canonical_key(strip_dashes(s)),
{
    if s.len() > 0 && s.last() == '-' {
        let t = s.drop_last();
        assert(t.len() == 79);
        if t.len() > 0 {
            assert(t.last() != '-') by {
                assert(!dash_pair(s, s.len() - 2));
            }
        }
        assert(strip_dashes(t) == t);
        assert forall|i: int| 0 <= i < t.len() - 1 implies !#[trigger] dash_pair(t, i) by {
            assert(!dash_pair(s, i));
        }
    }
}

/// A slug from a title always is a canonical key.
pub proof fn lemma_slug_is_canonical(title: Seq<char>)
    ensures
        slug_spec(title) matches Some(s) ==> canonical_key(s),
{
    lemma_slug_fold_shape(title);
    lemma_strip_dashes(slug_fold(title).0);
}

/// Folding a prefix of a canonical key gives the prefix back, a trailing
/// dash held back as a pending separator.
proof fn lemma_fold_canonical_prefix(k: Seq<char>, n: int)
    requires
        canonical_key(k),
        0 <= n <= k.len(),
    ensures
        n > 0 && k[n - 1] == '-' ==> slug_fold(k.take(n)) == (k.take(n - 1), true),
        !(n > 0 && k[n - 1] == '-') ==> slug_fold(k.take(n)) == (k.take(n), false),
    decreases n,
{
    if n > 0 {
        lemma_fold_canonical_prefix(k, n - 1);
        let p = k.take(n);
        assert(p.drop_last() =~= k.take(n - 1));
        assert(p.last() == k[n - 1]);
        let c = k[n - 1];
        if c == '-' {
            assert(n - 1 > 0);
            assert(!dash_pair(k, n - 2));
        } else {
            assert(is_ascii_lower(c) || is_ascii_digit(c));
            assert(lower_char(c) == c);
            if n - 1 > 0 && k[n - 2] == '-' {
                assert(n - 2 > 0);
                assert(k.take(n - 2).push('-') =~= k.take(n - 1));
                assert(k.take(n - 1).push(c) =~= p);
            } else {
                assert(k.take(n - 1).push(c) =~= p);
            }
        }
    } else {
        assert(k.take(0) =~= Seq::<char>::empty());
    }
}

/// A canonical key is its own slug.
pub proof fn lemma_key_is_own_slug(k: Seq<char>)
    requires
        canonical_key(k),
    ensures
        slug_spec(k) == Some(k),
{
    lemma_fold_canonical_prefix(k, k.len() as int);
    assert(k.take(k.len() as int) =~= k);
}

/// Slugging is idempotent: the slug of a title is its own slug.
pub proof fn lemma_slug_idempotent(title: Seq<char>)
    ensures
        slug_spec(title) matches Some(s) ==> slug_spec(s) == Some(s),
{
    lemma_slug_is_canonical(title);
    if let Some(s) = slug_spec(title) {
        lemma_key_is_own_slug(s);
    }
}

/// The semantic slug of a title: lowercase ASCII letters and digits, with
/// one dash for each run of other characters between them, at most 80
/// characters; `None` when the title has no letter or digit.
pub fn semantic_slug(title: &str) -> (r: Option<String>)
    ensures
        match r {
            Some(s) => slug_spec(title@) == Some(s@),
            None => slug_spec(title@) is None,
        },
        r matches Some(s) ==> canonical_key(s@),
{
    let t = chars_of(title);
    let mut slug: Vec<char> = Vec::new();
    let mut separator = false;
    for i in 0..t.len()
        invariant
            t@ == title@,
            slug_fold(t@.take(i as int)) == (slug@, separator),
    {
        assert(t@.take(i + 1).drop_last() == t@.take(i as int));
        assert(t@.take(i + 1).last() == t@[i as int]);
        let c = t[i];
        if ('a' <= c && c <= 'z') || ('A' <= c && c <= 'Z') || ('0' <= c && c <= '9') {
            if separator && slug.len() > 0 && slug.len() < SLUG_LIMIT {
                slug.push('-');
            }
            separator = false;
            if slug.len() < SLUG_LIMIT {
                slug.push(lower_char_exec(c));
            }
        } else {
            separator = true;
        }
    }
    assert(t@.take(t@.len() as int) == t@);
    proof {
        lemma_slug_is_canonical(title@);
    }
    while slug.len() > 0 && slug[slug.len() - 1] == '-'
        invariant
            strip_dashes(slug_fold(title@).0) == strip_dashes(slug@),
        decreases slug.len(),
    {
        let _ = slug.pop();
    }
    if slug.len() == 0 {
        None
    } else {
        Some(string_of(slug.as_slice()))
    }
}

/// The text of a memory note.
pub open spec fn render_spec(slug: Seq<char>, sources: Seq<Seq<char>>, title: Seq<char>, body: Seq<char>) -> Seq<char> {
    "---\nkind: memory\nsemantic-key: "@ + slug + "\nslug: "@ + slug + "\nsource-fingerprints:\n"@
        + join(prefixed(sources, "- "@), "\n"@) + "\n---\n# "@ + title + "\n\n"@ + trim(body)
        + "\n"@
}

/// A memory note: front matter with the key and the source fingerprints,
/// then the title as a heading and the trimmed body.
pub fn render(slug: &str, sources: &Vec<String>, title: &str, body: &str) -> (r: String)
    ensures
        r@ == render_spec(slug@, views(sources@), title@, body@),
{
    let lineage = join_prefixed(sources, "- ", "\n");
    let b = chars_of(body);
    let trimmed = trim_exec(b.as_slice());
    let mut r = owned("---\nkind: memory\nsemantic-key: ");
    push_str(&mut r, slug);
    push_str(&mut r, "\nslug: ");
    push_str(&mut r, slug);
    push_str(&mut r, "\nsource-fingerprints:\n");
    push_str(&mut r, lineage.as_str());
    push_str(&mut r, "\n---\n# ");
    push_str(&mut r, title);
    push_str(&mut r, "\n\n");
    push_chars(&mut r, trimmed.as_slice());
    push_str(&mut r, "\n");
    r
}

} // verus!
