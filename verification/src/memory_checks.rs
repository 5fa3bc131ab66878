//! The structure check of a memory note against the parameters it was
//! written with: front matter, source list, title and body.
use vstd::prelude::*;
use crate::config_registry::{entry_views, json_document, member, member_exec, parse_json, DocumentView, FlatDocument, JsonScalar, ScalarView};
use crate::text::{
    chars_eq, chars_of, join, lines, lines_exec, push_chars, push_str, strip_prefix,
    strip_prefix_exec, trim, trim_exec, is_ws,
};

verus! {

/// The source lines among `ls[from..to]` (each `- ` and a fingerprint),
/// stripped of their `- `.
pub open spec fn listed(ls: Seq<Seq<char>>, from: int, to: int) -> Seq<Seq<char>>
    decreases to - from,
{
    if to <= from {
        Seq::empty()
    } else {
        match strip_prefix(ls[to - 1], "- "@) {
            Some(v) => listed(ls, from, to - 1).push(v),
            None => listed(ls, from, to - 1),
        }
    }
}

/// The texts among the elements of an array (other elements are skipped).
pub open spec fn texts(items: Seq<Option<Seq<char>>>) -> Seq<Seq<char>>
    decreases items.len(),
{
    if items.len() == 0 {
        Seq::empty()
    } else {
        match items.last() {
            Some(t) => texts(items.drop_last()).push(t),
            None => texts(items.drop_last()),
        }
    }
}

/// The fingerprints the parameters expect, none when they name no array.
pub open spec fn expected_sources(values: Seq<(Seq<char>, ScalarView)>) -> Seq<Seq<char>> {
    match member(values, "source_fingerprints"@) {
        Some(ScalarView::Array(items)) => texts(items),
        _ => Seq::empty(),
    }
}

/// The first line from `from` on that is `---`.
pub open spec fn closing_line(ls: Seq<Seq<char>>, from: int) -> Option<int> {
    if exists|k: int| from <= k < ls.len() && #[trigger] ls[k] == "---"@ {
        Some(choose|k: int| from <= k < ls.len() && ls[k] == "---"@ && forall|j: int| from <= j < k ==> #[trigger] ls[j] != "---"@)
    } else {
        None
    }
}

/// The opening lines of the front matter name the slug.
pub open spec fn front_spec(ls: Seq<Seq<char>>, slug: Seq<char>) -> bool {
    &&& ls.len() >= 10
    &&& ls[0] == "---"@
    &&& ls[1] == "kind: memory"@
    &&& ls[2] == "semantic-key: "@ + slug
    &&& ls[3] == "slug: "@ + slug
    &&& ls[4] == "source-fingerprints:"@
}

/// Every line of the source list is a listed fingerprint, and they are the
/// expected ones, in order.
pub open spec fn sources_spec(ls: Seq<Seq<char>>, end: int, expected: Seq<Seq<char>>) -> bool {
    listed(ls, 5, end).len() == end - 5 && listed(ls, 5, end) == expected
}

/// After the front matter: a non-blank `# ` title, a blank line, a non-blank body.
pub open spec fn tail_spec(ls: Seq<Seq<char>>, end: int) -> bool {
    &&& end + 2 < ls.len()
    &&& (strip_prefix(ls[end + 1], "# "@) matches Some(t) && trim(t).len() > 0)
    &&& ls[end + 2].len() == 0
    &&& trim(join(ls.skip(end + 3), "\n"@)).len() > 0
}

/// A memory note is well formed for its parameters: the front matter names
/// the slug, lists exactly the expected source fingerprints and closes; a
/// non-blank `# ` title, a blank line and a non-blank body follow.
pub open spec fn structure_spec(values: Seq<(Seq<char>, ScalarView)>, text: Seq<char>) -> bool {
    let ls = lines(text);
    match member(values, "slug"@) {
        Some(ScalarView::Text(slug)) => front_spec(ls, slug) && match closing_line(ls, 5) {
            None => false,
            Some(end) => sources_spec(ls, end, expected_sources(values)) && tail_spec(ls, end),
        },
        _ => false,
    }
}

pub open spec fn line_views(ls: Seq<Vec<char>>) -> Seq<Seq<char>> {
    Seq::new(ls.len(), |i: int| ls[i]@)
}

fn eq_text(a: &Vec<char>, b: &str) -> (r: bool)
    ensures
        r == (a@ == b@),
{
    let c = chars_of(b);
    chars_eq(a.as_slice(), c.as_slice())
}

fn prefixed_text(prefix: &str, slug: &String) -> (r: Vec<char>)
    ensures
        r@ == prefix@ + slug@,
{
    let mut s = crate::text::owned(prefix);
    push_str(&mut s, slug.as_str());
    chars_of(s.as_str())
}

/// The strings among the elements of an array.
pub(crate) fn texts_exec(items: &Vec<Option<String>>) -> (r: Vec<Vec<char>>)
    ensures
        Seq::new(r@.len(), |i: int| r@[i]@) == texts(Seq::new(items@.len(), |i: int| crate::args::opt_view(items@[i]))),
{
    let ghost all = Seq::new(items@.len(), |i: int| crate::args::opt_view(items@[i]));
    let mut r: Vec<Vec<char>> = Vec::new();
    for i in 0..items.len()
        invariant
            all == Seq::new(items@.len(), |i: int| crate::args::opt_view(items@[i])),
            Seq::new(r@.len(), |j: int| r@[j]@) == texts(all.take(i as int)),
    {
        let ghost before = Seq::new(r@.len(), |j: int| r@[j]@);
        assert(all.take(i + 1).drop_last() == all.take(i as int));
        assert(all.take(i + 1).last() == all[i as int]);
        match &items[i] {
            Some(t) => {
                r.push(chars_of(t.as_str()));
                assert(Seq::new(r@.len(), |j: int| r@[j]@) == before.push(t@));
            },
            None => {},
        }
    }
    assert(all.take(items@.len() as int) == all);
    r
}

fn expected_exec(values: &Vec<(String, JsonScalar)>) -> (r: Vec<Vec<char>>)
    ensures
        line_views(r@) == expected_sources(entry_views(values@)),
{
    match member_exec(values, "source_fingerprints") {
        Some(JsonScalar::Array(items)) => texts_exec(items),
        _ => {
            let r: Vec<Vec<char>> = Vec::new();
            assert(line_views(r@) == Seq::<Seq<char>>::empty());
            r
        },
    }
}

/// Whether the lines from `end + 3` on hold more than whitespace.
fn body_present(ls: &Vec<Vec<char>>, from: usize) -> (r: bool)
    requires
        from <= ls@.len(),
    ensures
        r == (trim(join(line_views(ls@).skip(from as int), "\n"@)).len() > 0),
{
    let ghost all = line_views(ls@);
    let ghost tail = all.skip(from as int);
    let mut joined = String::new();
    let mut k = from;
    while k < ls.len()
        invariant
            from <= k <= ls@.len(),
            all == line_views(ls@),
            tail == all.skip(from as int),
            joined@ == join(tail.take(k - from), "\n"@),
        decreases ls.len() - k,
    {
        assert(tail.take(k + 1 - from).drop_last() == tail.take(k - from));
        assert(tail.take(k + 1 - from).last() == all[k as int]);
        if k > from {
            push_str(&mut joined, "\n");
        }
        push_chars(&mut joined, ls[k].as_slice());
        k += 1;
    }
    assert(tail.take(ls@.len() - from) == tail);
    let c = chars_of(joined.as_str());
    trim_exec(c.as_slice()).len() > 0
}

fn front_ok(ls: &Vec<Vec<char>>, slug: &String) -> (r: bool)
    ensures
        r == front_spec(line_views(ls@), slug@),
{
    if ls.len() < 10 || !eq_text(&ls[0], "---") || !eq_text(&ls[1], "kind: memory") || !eq_text(&ls[4], "source-fingerprints:") {
        return false;
    }
    let key_line = prefixed_text("semantic-key: ", slug);
    let slug_line = prefixed_text("slug: ", slug);
    chars_eq(ls[2].as_slice(), key_line.as_slice()) && chars_eq(ls[3].as_slice(), slug_line.as_slice())
}

fn closing_exec(ls: &Vec<Vec<char>>) -> (r: Option<usize>)
    ensures
        match r {
            Some(end) => 5 <= end < ls@.len() && closing_line(line_views(ls@), 5) == Some(end as int),
            None => closing_line(line_views(ls@), 5) is None,
        },
{
    let ghost all = line_views(ls@);
    let mut end: usize = 5;
    while end < ls.len()
        invariant
            5 <= end,
            all == line_views(ls@),
            forall|m: int| 5 <= m < end && m < all.len() ==> #[trigger] all[m] != "---"@,
        decreases ls.len() - end,
    {
        if eq_text(&ls[end], "---") {
            proof {
                assert(all[end as int] == "---"@);
                let n = choose|n: int| 5 <= n < all.len() && #[trigger] all[n] == "---"@ && forall|m: int| 5 <= m < n ==> #[trigger] all[m] != "---"@;
                if n < end {
                } else if n > end {
                }
            }
            return Some(end);
        }
        end += 1;
    }
    None
}

fn sources_ok(ls: &Vec<Vec<char>>, end: usize, expected: &Vec<Vec<char>>) -> (r: bool)
    requires
        5 <= end < ls@.len(),
    ensures
        r == sources_spec(line_views(ls@), end as int, line_views(expected@)),
{
    let ghost all = line_views(ls@);
    let dash = chars_of("- ");
    let mut actual: Vec<Vec<char>> = Vec::new();
    for k in 5..end
        invariant
            end < ls@.len(),
            all == line_views(ls@),
            dash@ == "- "@,
            line_views(actual@) == listed(all, 5, k as int),
    {
        let ghost before = line_views(actual@);
        match strip_prefix_exec(ls[k].as_slice(), dash.as_slice()) {
            Some(v) => {
                actual.push(v);
                assert(line_views(actual@) == before.push(v@));
            },
            None => {},
        }
    }
    if actual.len() != end - 5 || actual.len() != expected.len() {
        return false;
    }
    for k in 0..actual.len()
        invariant
            actual@.len() == expected@.len(),
            actual@.len() == end - 5,
            all == line_views(ls@),
            line_views(actual@) == listed(all, 5, end as int),
            forall|j: int| 0 <= j < k ==> actual@[j]@ == expected@[j]@,
    {
        if !chars_eq(actual[k].as_slice(), expected[k].as_slice()) {
            assert(line_views(actual@)[k as int] != line_views(expected@)[k as int]);
            return false;
        }
    }
    assert(line_views(actual@) == line_views(expected@));
    true
}

fn tail_ok(ls: &Vec<Vec<char>>, end: usize) -> (r: bool)
    requires
        end < ls@.len(),
    ensures
        r == tail_spec(line_views(ls@), end as int),
{
    if ls.len() - end <= 2 {
        return false;
    }
    let hash = chars_of("# ");
    let titled = match strip_prefix_exec(ls[end + 1].as_slice(), hash.as_slice()) {
        Some(t) => trim_exec(t.as_slice()).len() > 0,
        None => false,
    };
    if !titled || ls[end + 2].len() != 0 {
        return false;
    }
    body_present(ls, end + 3)
}

/// Checks a memory note's text against the parameters it was written with.
#[verifier::rlimit(40)]
pub fn structure(values: &Vec<(String, JsonScalar)>, text: &str) -> (r: bool)
    ensures
        r == structure_spec(entry_views(values@), text@),
{
    let slug = match member_exec(values, "slug") {
        Some(JsonScalar::Text(s)) => s,
        _ => return false,
    };
    let c = chars_of(text);
    let ls = lines_exec(c.as_slice());
    assert(line_views(ls@) == lines(text@));
    if !front_ok(&ls, slug) {
        return false;
    }
    let end = match closing_exec(&ls) {
        None => return false,
        Some(end) => end,
    };
    let expected = expected_exec(values);
    sources_ok(&ls, end, &expected) && tail_ok(&ls, end)
}

/// Reads the parameters of a memory check and checks the note against them;
/// parameters that are not a JSON object fail the check.
pub fn note_structure(parameters: &str, text: &str) -> (r: bool)
    ensures
        r == match json_document(parameters@) {
            DocumentView::Object(values) => structure_spec(values, text@),
            _ => false,
        },
{
    match parse_json(parameters) {
        FlatDocument::Object(values) => structure(&values, text),
        _ => false,
    }
}

/// The verdict on a memory note written at `path` as `bytes`, against the
/// JSON `parameters` of its check: a UTF-8 note at that path, of kind
/// `memory`, within the token budget (`units` is the note's count of token
/// units), not a known placeholder (`placeholder`), and well structured.
pub open spec fn evaluate_spec(parameters: Seq<u8>, path: Seq<char>, bytes: Seq<u8>, units: usize, placeholder: bool) -> bool {
    match crate::report_pending::json_bytes_document(parameters) {
        DocumentView::Object(values) => {
            &&& vstd::utf8::valid_utf8(bytes)
            &&& crate::automatic_checks::text_member(values, "path"@) == Some(path)
            &&& crate::automatic_checks::text_member(values, "kind"@) == Some("memory"@)
            &&& units <= max_units(values)
            &&& !placeholder
            &&& structure_spec(values, vstd::utf8::decode_utf8(bytes))
        },
        _ => false,
    }
}

/// The `max_token_units` parameter (0 when it is not a non-negative
/// integer), as the machine's `usize` takes it.
pub open spec fn max_units(values: Seq<(Seq<char>, ScalarView)>) -> usize {
    match member(values, "max_token_units"@) {
        Some(ScalarView::Number(Some(n))) => n as usize,
        _ => 0,
    }
}

/// Judges a memory note (see `evaluate_spec`).
pub fn evaluate(parameters: &[u8], path: &str, bytes: &[u8], units: usize, placeholder: bool) -> (r: bool)
    ensures
        r == evaluate_spec(parameters@, path@, bytes@, units, placeholder),
{
    let values = match crate::report_pending::parse_json_bytes(parameters) {
        FlatDocument::Object(values) => values,
        _ => return false,
    };
    let text = match crate::text::utf8_text(bytes) {
        Some(t) => t,
        None => return false,
    };
    let path_ok = match member_exec(&values, "path") {
        Some(JsonScalar::Text(p)) => crate::text::str_eq(p.as_str(), path),
        _ => false,
    };
    let kind_ok = match member_exec(&values, "kind") {
        Some(JsonScalar::Text(k)) => crate::text::str_eq(k.as_str(), "memory"),
        _ => false,
    };
    let max: usize = match member_exec(&values, "max_token_units") {
        Some(JsonScalar::Number(Some(n))) => *n as usize,
        _ => 0,
    };
    if !path_ok || !kind_ok || units > max || placeholder {
        return false;
    }
    structure(&values, text.as_str())
}

/// A `---` line from `from` on has a first one.
proof fn lemma_first_closing(ls: Seq<Seq<char>>, from: int, k: int)
    requires
        from <= k < ls.len(),
        ls[k] == "---"@,
    ensures
        exists|m: int| from <= m < ls.len() && ls[m] == "---"@ && forall|j: int| from <= j < m ==> #[trigger] ls[j] != "---"@,
    decreases k - from,
{
    if exists|j: int| from <= j < k && #[trigger] ls[j] == "---"@ {
        let j = choose|j: int| from <= j < k && #[trigger] ls[j] == "---"@;
        lemma_first_closing(ls, from, j);
    } else {
        assert(forall|j: int| from <= j < k ==> #[trigger] ls[j] != "---"@);
    }
}

/// Every line of a fully listed range carries its `- `.
proof fn lemma_all_listed(ls: Seq<Seq<char>>, from: int, to: int)
    requires
        from <= to <= ls.len(),
    ensures
        listed(ls, from, to).len() <= to - from,
        listed(ls, from, to).len() == to - from ==> forall|j: int| from <= j < to ==> strip_prefix(#[trigger] ls[j], "- "@) is Some,
    decreases to - from,
{
    if to > from {
        lemma_all_listed(ls, from, to - 1);
    }
}

/// A character of a join whose separator is white space, and that is not
/// white space itself, comes from one of the parts.
proof fn lemma_join_keeps_text(parts: Seq<Seq<char>>, sep: Seq<char>, p: int)
    requires
        forall|q: int| 0 <= q < sep.len() ==> is_ws(#[trigger] sep[q]),
        0 <= p < join(parts, sep).len(),
        !is_ws(join(parts, sep)[p]),
    ensures
        exists|i: int, q: int| 0 <= i < parts.len() && 0 <= q < parts[i].len() && !is_ws(#[trigger] parts[i][q]),
    decreases parts.len(),
{
    if parts.len() == 1 {
        assert(!is_ws(parts[0][p]));
    } else if parts.len() > 1 {
        let front = join(parts.drop_last(), sep);
        assert(join(parts, sep) == front + sep + parts.last());
        if p < front.len() {
            lemma_join_keeps_text(parts.drop_last(), sep, p);
            let (i, q) = choose|i: int, q: int| 0 <= i < parts.drop_last().len() && 0 <= q < parts.drop_last()[i].len() && !is_ws(#[trigger] parts.drop_last()[i][q]);
            assert(parts[i][q] == parts.drop_last()[i][q]);
        } else if p < front.len() + sep.len() {
            assert(join(parts, sep)[p] == sep[p - front.len()]);
        } else {
            let q = p - front.len() - sep.len();
            assert(parts[parts.len() - 1][q] == join(parts, sep)[p]);
        }
    }
}

/// A note passes the structure check only when it is well formed for its
/// parameters: the parameters name a slug; the lines open with `---`,
/// `kind: memory`, `semantic-key: SLUG`, `slug: SLUG` and
/// `source-fingerprints:`; a first closing `---` follows the source lines,
/// each of which is `- ` and a fingerprint, the fingerprints being exactly
/// the expected ones; then a `# ` title that is not blank, an empty line,
/// and a body with at least one character that is not white space.
pub proof fn lemma_passing_note_is_well_formed(values: Seq<(Seq<char>, ScalarView)>, text: Seq<char>)
    requires
        structure_spec(values, text),
    ensures
        member(values, "slug"@) is Some,
        member(values, "slug"@) matches Some(v) ==> v is Text,
        member(values, "slug"@) matches Some(ScalarView::Text(slug)) ==> lines(text)[2] == "semantic-key: "@ + slug
            && lines(text)[3] == "slug: "@ + slug,
        lines(text).len() >= 10,
        lines(text)[0] == "---"@,
        lines(text)[1] == "kind: memory"@,
        lines(text)[4] == "source-fingerprints:"@,
        exists|end: int| {
            &&& 5 <= end
            &&& end + 3 < lines(text).len()
            &&& #[trigger] lines(text)[end] == "---"@
            &&& forall|j: int| 5 <= j < end ==> #[trigger] lines(text)[j] != "---"@
            &&& forall|j: int| 5 <= j < end ==> strip_prefix(#[trigger] lines(text)[j], "- "@) is Some
            &&& listed(lines(text), 5, end) == expected_sources(values)
            &&& strip_prefix(lines(text)[end + 1], "# "@) is Some
            &&& exists|q: int| 0 <= q < strip_prefix(lines(text)[end + 1], "# "@)->0.len()
                && !is_ws(#[trigger] strip_prefix(lines(text)[end + 1], "# "@)->0[q])
            &&& lines(text)[end + 2].len() == 0
            &&& exists|i: int, q: int| end + 3 <= i < lines(text).len() && 0 <= q < lines(text)[i].len()
                && !is_ws(#[trigger] lines(text)[i][q])
        },
{
    let ls = lines(text);
    let k = choose|k: int| 5 <= k < ls.len() && #[trigger] ls[k] == "---"@;
    lemma_first_closing(ls, 5, k);
    let end = closing_line(ls, 5)->0;
    lemma_all_listed(ls, 5, end);
    let t = strip_prefix(ls[end + 1], "# "@)->0;
    crate::note_check::lemma_trim_nonempty(t);
    let body = join(ls.skip(end + 3), "\n"@);
    crate::note_check::lemma_trim_nonempty(body);
    reveal_strlit("\n");
    let p = choose|p: int| 0 <= p < body.len() && !is_ws(body[p]);
    assert(is_ws("\n"@[0]));
    lemma_join_keeps_text(ls.skip(end + 3), "\n"@, p);
    let (i, q) = choose|i: int, q: int| 0 <= i < ls.skip(end + 3).len() && 0 <= q < ls.skip(end + 3)[i].len()
        && !is_ws(#[trigger] ls.skip(end + 3)[i][q]);
    assert(ls[end + 3 + i][q] == ls.skip(end + 3)[i][q]);
    assert(end + 3 < ls.len());
}

} // verus!
