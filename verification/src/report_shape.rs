//! The shapes of a managed report: a short report, a map of child sections,
//! or one child section; and the documents each one renders.
use vstd::prelude::*;
use crate::memory_record::{canonical_key, dash_pair, semantic_slug, slug_spec};
use crate::number::parse_unsigned_spec;
use crate::text::{
    chars_of, is_ascii_digit, is_ascii_lower, join, owned, prefixed, push_chars, push_str,
    str_eq, string_of, trim, trim_exec, trim_str, views,
};

verus! {

/// The largest admitted `minimum_words`.
pub const WORD_LIMIT: u32 = 20_000;

/// The shape that a report's arguments ask for.
pub enum Shape {
    Short { slug: String },
    Index { slug: String, children: Vec<String>, minimum_words: u32 },
    Child { slug: String, unit: String },
}

pub enum ShapeView {
    Short { slug: Seq<char> },
    Index { slug: Seq<char>, children: Seq<Seq<char>>, minimum_words: u32 },
    Child { slug: Seq<char>, unit: Seq<char> },
}

impl View for Shape {
    type V = ShapeView;

    open spec fn view(&self) -> ShapeView {
        match self {
            Shape::Short { slug } => ShapeView::Short { slug: slug@ },
            Shape::Index { slug, children, minimum_words } => ShapeView::Index {
                slug: slug@,
                children: views(children@),
                minimum_words: *minimum_words,
            },
            Shape::Child { slug, unit } => ShapeView::Child { slug: slug@, unit: unit@ },
        }
    }
}

/// `part-` followed by one or more digits: the name of a part file.
pub open spec fn part_number(v: Seq<char>) -> bool {
    v.len() > 5 && v.take(5) == "part-"@ && forall|i: int| 5 <= i < v.len() ==> is_ascii_digit(v[i])
}

/// A canonical report name: the trimmed value is a canonical key that has a
/// lowercase letter and is not the name of a part file.
pub open spec fn canonical_spec(value: Seq<char>) -> Option<Seq<char>> {
    let v = trim(value);
    if canonical_key(v) && (exists|i: int| 0 <= i < v.len() && is_ascii_lower(v[i])) && !part_number(v) {
        Some(v)
    } else {
        None
    }
}

/// A canonical name other than `index`.
pub open spec fn part_spec(value: Seq<char>) -> Option<Seq<char>> {
    match canonical_spec(value) {
        Some(v) => if v == "index"@ {
            None
        } else {
            Some(v)
        },
        None => None,
    }
}

pub fn canonical_key_exec(v: &[char]) -> (r: bool)
    ensures
        r == canonical_key(v@),
{
    let n = v.len();
    if n == 0 || n > 80 || v[0] == '-' || v[n - 1] == '-' {
        return false;
    }
    for i in 0..n
        invariant
            n == v@.len(),
            forall|j: int| 0 <= j < i ==> (is_ascii_lower(v@[j]) || is_ascii_digit(v@[j]) || v@[j] == '-'),
            forall|j: int| 0 <= j < i && j < n - 1 ==> !#[trigger] dash_pair(v@, j),
    {
        let c = v[i];
        if !(('a' <= c && c <= 'z') || ('0' <= c && c <= '9') || c == '-') {
            return false;
        }
        if i + 1 < n && c == '-' && v[i + 1] == '-' {
            assert(dash_pair(v@, i as int));
            return false;
        }
    }
    true
}

fn part_number_exec(v: &[char]) -> (r: bool)
    ensures
        r == part_number(v@),
{
    proof {
        reveal_strlit("part-");
    }
    if v.len() <= 5 || !(v[0] == 'p' && v[1] == 'a' && v[2] == 'r' && v[3] == 't' && v[4] == '-') {
        proof {
            if v@.len() > 5 && v@.take(5) == "part-"@ {
                assert(v@[0] == v@.take(5)[0]);
                assert(v@[1] == v@.take(5)[1]);
                assert(v@[2] == v@.take(5)[2]);
                assert(v@[3] == v@.take(5)[3]);
                assert(v@[4] == v@.take(5)[4]);
            }
        }
        return false;
    }
    assert(v@.take(5) == "part-"@);
    for i in 5..v.len()
        invariant
            forall|j: int| 5 <= j < i ==> is_ascii_digit(v@[j]),
    {
        if !('0' <= v[i] && v[i] <= '9') {
            return false;
        }
    }
    true
}

/// The trimmed value when it is a canonical report name.
pub fn canonical(value: &str) -> (r: Option<String>)
    ensures
        match r {
            Some(s) => canonical_spec(value@) == Some(s@),
            None => canonical_spec(value@) is None,
        },
{
    let c = chars_of(value);
    let v = trim_exec(c.as_slice());
    if !canonical_key_exec(v.as_slice()) {
        return None;
    }
    let mut lower = false;
    for i in 0..v.len()
        invariant
            lower == exists|j: int| 0 <= j < i && is_ascii_lower(v@[j]),
    {
        if 'a' <= v[i] && v[i] <= 'z' {
            lower = true;
        }
    }
    if !lower || part_number_exec(v.as_slice()) {
        return None;
    }
    Some(string_of(v.as_slice()))
}

/// A canonical name other than `index` (a report slug).
pub fn part(value: &str) -> (r: Option<String>)
    ensures
        match r {
            Some(s) => part_spec(value@) == Some(s@),
            None => part_spec(value@) is None,
        },
{
    match canonical(value) {
        Some(v) => if str_eq(v.as_str(), "index") {
            None
        } else {
            Some(v)
        },
        None => None,
    }
}

/// A canonical name other than `index` (a report unit).
pub fn unit_part(value: &str) -> (r: Option<String>)
    ensures
        match r {
            Some(s) => part_spec(value@) == Some(s@),
            None => part_spec(value@) is None,
        },
{
    part(value)
}

/// `s` cut at every `sep` (`str::split` with a character pattern).
pub open spec fn split_on(s: Seq<char>, sep: char) -> Seq<Seq<char>>
    decreases s.len(),
{
    if s.len() == 0 {
        seq![Seq::empty()]
    } else {
        let pre = split_on(s.drop_last(), sep);
        if s.last() == sep {
            pre.push(Seq::empty())
        } else {
            pre.update(pre.len() - 1, pre.last().push(s.last()))
        }
    }
}

pub proof fn lemma_split_nonempty(s: Seq<char>, sep: char)
    ensures
        split_on(s, sep).len() >= 1,
    decreases s.len(),
{
    if s.len() > 0 {
        lemma_split_nonempty(s.drop_last(), sep);
    }
}

/// The pieces of `s` between the separators.
pub fn split_chars(s: &[char], sep: char) -> (r: Vec<Vec<char>>)
    ensures
        r@.len() == split_on(s@, sep).len(),
        forall|i: int| 0 <= i < r@.len() ==> #[trigger] r@[i]@ == split_on(s@, sep)[i],
{
    let mut r: Vec<Vec<char>> = Vec::new();
    let mut cur: Vec<char> = Vec::new();
    for i in 0..s.len()
        invariant
            r@.len() + 1 == split_on(s@.take(i as int), sep).len(),
            forall|k: int| 0 <= k < r@.len() ==> #[trigger] r@[k]@ == split_on(s@.take(i as int), sep)[k],
            cur@ == split_on(s@.take(i as int), sep).last(),
    {
        proof {
            lemma_split_nonempty(s@.take(i as int), sep);
        }
        assert(s@.take(i + 1).drop_last() == s@.take(i as int));
        assert(s@.take(i + 1).last() == s@[i as int]);
        if s[i] == sep {
            let done = cur;
            r.push(done);
            cur = Vec::new();
        } else {
            cur.push(s[i]);
        }
    }
    assert(s@.take(s@.len() as int) == s@);
    r.push(cur);
    r
}

/// Reading the children list piece by piece.
pub open spec fn children_fold(pieces: Seq<Seq<char>>) -> Result<Seq<Seq<char>>, Seq<char>>
    decreases pieces.len(),
{
    if pieces.len() == 0 {
        Ok(Seq::empty())
    } else {
        match children_fold(pieces.drop_last()) {
            Err(e) => Err(e),
            Ok(out) => match part_spec(pieces.last()) {
                None => Err("report children are not canonical"@),
                Some(c) => if out.contains(c) {
                    Err("report children must be unique"@)
                } else {
                    Ok(out.push(c))
                },
            },
        }
    }
}

pub open spec fn children_spec(value: Seq<char>) -> Result<Seq<Seq<char>>, Seq<char>> {
    match children_fold(split_on(value, ',')) {
        Err(e) => Err(e),
        Ok(out) => if out.len() >= 2 {
            Ok(out)
        } else {
            Err("report map requires at least two children"@)
        },
    }
}

fn contains_string(v: &Vec<String>, s: &String) -> (r: bool)
    ensures
        r == views(v@).contains(s@),
{
    for i in 0..v.len()
        invariant
            forall|j: int| 0 <= j < i ==> v@[j]@ != s@,
    {
        if str_eq(v[i].as_str(), s.as_str()) {
            assert(views(v@)[i as int] == s@);
            return true;
        }
    }
    proof {
        if views(v@).contains(s@) {
            let j = choose|j: int| 0 <= j < views(v@).len() && views(v@)[j] == s@;
            assert(v@[j]@ == s@);
        }
    }
    false
}

/// The comma-separated children of a report map: each a canonical unit,
/// no two the same, at least two of them.
pub fn parse_children(value: &str) -> (r: Result<Vec<String>, String>)
    ensures
        match r {
            Ok(v) => children_spec(value@) == Ok::<Seq<Seq<char>>, Seq<char>>(views(v@)),
            Err(e) => children_spec(value@) == Err::<Seq<Seq<char>>, Seq<char>>(e@),
        },
{
    let c = chars_of(value);
    let pieces = split_chars(c.as_slice(), ',');
    let ghost all = split_on(value@, ',');
    let mut out: Vec<String> = Vec::new();
    assert(all.take(0) == Seq::<Seq<char>>::empty());
    assert(views(out@) == Seq::<Seq<char>>::empty());
    for i in 0..pieces.len()
        invariant
            c@ == value@,
            all == split_on(value@, ','),
            pieces@.len() == all.len(),
            forall|k: int| 0 <= k < pieces@.len() ==> #[trigger] pieces@[k]@ == all[k],
            children_fold(all.take(i as int)) == Ok::<Seq<Seq<char>>, Seq<char>>(views(out@)),
    {
        assert(all.take(i + 1).drop_last() == all.take(i as int));
        assert(all.take(i + 1).last() == pieces@[i as int]@);
        let piece = string_of(pieces[i].as_slice());
        let child = match unit_part(piece.as_str()) {
            Some(child) => child,
            None => {
                proof {
                    lemma_fold_error_persists(all, (i + 1) as nat);
                }
                return Err(owned("report children are not canonical"));
            },
        };
        if contains_string(&out, &child) {
            proof {
                lemma_fold_error_persists(all, (i + 1) as nat);
            }
            return Err(owned("report children must be unique"));
        }
        let ghost before = views(out@);
        out.push(child);
        assert(views(out@) == before.push(child@));
    }
    assert(all.take(pieces@.len() as int) == all);
    if out.len() >= 2 {
        Ok(out)
    } else {
        Err(owned("report map requires at least two children"))
    }
}

proof fn lemma_fold_error_persists(pieces: Seq<Seq<char>>, n: nat)
    requires
        n <= pieces.len(),
        children_fold(pieces.take(n as int)) is Err,
    ensures
        children_fold(pieces) == children_fold(pieces.take(n as int)),
    decreases pieces.len() - n,
{
    if n < pieces.len() {
        assert(pieces.take(n + 1 as int).drop_last() == pieces.take(n as int));
        lemma_fold_error_persists(pieces, n + 1);
    } else {
        assert(pieces.take(n as int) == pieces);
    }
}

pub open spec fn words_spec(value: Seq<char>) -> Result<u32, Seq<char>> {
    match parse_unsigned_spec(value, 0xffff_ffff) {
        Err(_) => Err("minimum_words is invalid"@),
        Ok(w) => if 1 <= w <= 20000 {
            Ok(w as u32)
        } else {
            Err("minimum_words is out of bounds"@)
        },
    }
}

/// The minimum word count of a report map: a `u32` from 1 to 20000.
pub fn parse_words(value: &str) -> (r: Result<u32, String>)
    ensures
        match r {
            Ok(w) => words_spec(value@) == Ok::<u32, Seq<char>>(w),
            Err(e) => words_spec(value@) == Err::<u32, Seq<char>>(e@),
        },
{
    match crate::number::parse_unsigned(value, 0xffff_ffff) {
        Err(_) => Err(owned("minimum_words is invalid")),
        Ok(w) => if 1 <= w && w <= WORD_LIMIT as u64 {
            Ok(w as u32)
        } else {
            Err(owned("minimum_words is out of bounds"))
        },
    }
}

/// The trimmed value of the first argument called `name`.
pub open spec fn lookup(args: Seq<(Seq<char>, Seq<char>)>, name: Seq<char>) -> Option<Seq<char>>
    decreases args.len(),
{
    if args.len() == 0 {
        None
    } else if args[0].0 == name {
        Some(trim(args[0].1))
    } else {
        lookup(args.drop_first(), name)
    }
}

pub open spec fn pair_views(args: Seq<(String, String)>) -> Seq<(Seq<char>, Seq<char>)> {
    Seq::new(args.len(), |i: int| (args[i].0@, args[i].1@))
}

fn get(args: &[(String, String)], name: &str) -> (r: Option<String>)
    ensures
        match r {
            Some(v) => lookup(pair_views(args@), name@) == Some(v@),
            None => lookup(pair_views(args@), name@) is None,
        },
{
    let ghost all = pair_views(args@);
    assert(all.skip(0) == all);
    for i in 0..args.len()
        invariant
            all == pair_views(args@),
            lookup(all, name@) == lookup(all.skip(i as int), name@),
    {
        assert(all.skip(i as int).drop_first() == all.skip(i + 1));
        if str_eq(args[i].0.as_str(), name) {
            return Some(trim_str(args[i].1.as_str()));
        }
    }
    None
}

pub open spec fn shape_spec(args: Seq<(Seq<char>, Seq<char>)>) -> Result<ShapeView, Seq<char>> {
    let slug = lookup(args, "slug"@);
    let unit = lookup(args, "unit"@);
    let children = lookup(args, "children"@);
    let words = lookup(args, "minimum_words"@);
    if slug is None && unit is None && children is None && words is None {
        match lookup(args, "title"@) {
            None => Err("record title missing"@),
            Some(title) => match slug_spec(title) {
                None => Err("report title cannot produce a semantic slug"@),
                Some(s) => Ok(ShapeView::Short { slug: s }),
            },
        }
    } else if slug is Some && unit == Some("index"@) && children is Some && words is Some {
        match part_spec(slug->0) {
            None => Err("report slug is not canonical"@),
            Some(s) => match children_spec(children->0) {
                Err(e) => Err(e),
                Ok(c) => match words_spec(words->0) {
                    Err(e) => Err(e),
                    Ok(w) => Ok(ShapeView::Index { slug: s, children: c, minimum_words: w }),
                },
            },
        }
    } else if slug is Some && unit is Some && unit != Some("index"@) && children is None
        && words is None {
        match part_spec(slug->0) {
            None => Err("report slug is not canonical"@),
            Some(s) => match part_spec(unit->0) {
                None => Err("report unit is not canonical"@),
                Some(u) => Ok(ShapeView::Child { slug: s, unit: u }),
            },
        }
    } else {
        Err("report shape is not admitted"@)
    }
}

/// The shape asked for by the `slug`, `unit`, `children` and
/// `minimum_words` arguments (or, with none of them, by the `title`).
pub fn parse(args: &[(String, String)]) -> (r: Result<Shape, String>)
    ensures
        match r {
            Ok(s) => shape_spec(pair_views(args@)) == Ok::<ShapeView, Seq<char>>(s@),
            Err(e) => shape_spec(pair_views(args@)) == Err::<ShapeView, Seq<char>>(e@),
        },
{
    let slug = get(args, "slug");
    let unit = get(args, "unit");
    let children = get(args, "children");
    let words = get(args, "minimum_words");
    if slug.is_none() && unit.is_none() && children.is_none() && words.is_none() {
        let title = match get(args, "title") {
            None => return Err(owned("record title missing")),
            Some(t) => t,
        };
        return match semantic_slug(title.as_str()) {
            None => Err(owned("report title cannot produce a semantic slug")),
            Some(s) => Ok(Shape::Short { slug: s }),
        };
    }
    let unit_is_index = match &unit {
        Some(u) => str_eq(u.as_str(), "index"),
        None => false,
    };
    match (slug, unit, children, words) {
        (Some(slug), Some(_), Some(children), Some(words)) if unit_is_index => {
            let s = match part(slug.as_str()) {
                None => return Err(owned("report slug is not canonical")),
                Some(s) => s,
            };
            let c = match parse_children(children.as_str()) {
                Err(e) => return Err(e),
                Ok(c) => c,
            };
            let w = match parse_words(words.as_str()) {
                Err(e) => return Err(e),
                Ok(w) => w,
            };
            Ok(Shape::Index { slug: s, children: c, minimum_words: w })
        },
        (Some(slug), Some(unit), None, None) if !unit_is_index => {
            let s = match part(slug.as_str()) {
                None => return Err(owned("report slug is not canonical")),
                Some(s) => s,
            };
            match unit_part(unit.as_str()) {
                None => Err(owned("report unit is not canonical")),
                Some(u) => Ok(Shape::Child { slug: s, unit: u }),
            }
        },
        _ => Err(owned("report shape is not admitted")),
    }
}

/// `- KIND:FINGERPRINT`.
pub open spec fn line_spec(source: (Seq<char>, Seq<char>)) -> Seq<char> {
    "- "@ + source.0 + ":"@ + source.1
}

pub open spec fn lineage(sources: Seq<(Seq<char>, Seq<char>)>) -> Seq<char> {
    join(Seq::new(sources.len(), |i: int| line_spec(sources[i])), "\n"@)
}

/// One source-lineage line.
pub fn line(source: &(String, String)) -> (r: String)
    ensures
        r@ == line_spec((source.0@, source.1@)),
{
    let mut r = owned("- ");
    push_str(&mut r, source.0.as_str());
    push_str(&mut r, ":");
    push_str(&mut r, source.1.as_str());
    r
}

fn lineage_text(sources: &[(String, String)]) -> (r: String)
    ensures
        r@ == lineage(pair_views(sources@)),
{
    let ghost all = Seq::new(sources@.len(), |i: int| line_spec(pair_views(sources@)[i]));
    let mut r = String::new();
    for i in 0..sources.len()
        invariant
            all == Seq::new(sources@.len(), |i: int| line_spec(pair_views(sources@)[i])),
            r@ == join(all.take(i as int), "\n"@),
    {
        assert(all.take(i + 1).drop_last() == all.take(i as int));
        if i > 0 {
            push_str(&mut r, "\n");
        }
        let l = line(&sources[i]);
        push_str(&mut r, l.as_str());
    }
    assert(all.take(sources@.len() as int) == all);
    r
}

pub open spec fn short_spec(slug: Seq<char>, sources: Seq<(Seq<char>, Seq<char>)>, title: Seq<char>, body: Seq<char>) -> Seq<char> {
    "---\nkind: report\nsemantic-key: "@ + slug + "\nslug: "@ + slug + "\nsource-lineage:\n"@
        + lineage(sources) + "\n---\n# "@ + title + "\n\n"@ + trim(body) + "\n"@
}

/// A short report document.
pub fn short(slug: &str, sources: &[(String, String)], title: &str, body: &str) -> (r: String)
    ensures
        r@ == short_spec(slug@, pair_views(sources@), title@, body@),
{
    let lines = lineage_text(sources);
    let b = chars_of(body);
    let t = trim_exec(b.as_slice());
    let mut r = owned("---\nkind: report\nsemantic-key: ");
    push_str(&mut r, slug);
    push_str(&mut r, "\nslug: ");
    push_str(&mut r, slug);
    push_str(&mut r, "\nsource-lineage:\n");
    push_str(&mut r, lines.as_str());
    push_str(&mut r, "\n---\n# ");
    push_str(&mut r, title);
    push_str(&mut r, "\n\n");
    push_chars(&mut r, t.as_slice());
    push_str(&mut r, "\n");
    r
}

pub open spec fn child_spec(slug: Seq<char>, unit: Seq<char>, sources: Seq<(Seq<char>, Seq<char>)>, title: Seq<char>, body: Seq<char>) -> Seq<char> {
    "---\nkind: report\nsemantic-key: "@ + slug + "\nslug: "@ + slug + "\nunit: "@ + unit
        + "\nsource-lineage:\n"@ + lineage(sources) + "\n---\n# "@ + title + "\n\n"@ + trim(body)
        + "\n"@
}

/// A child section of a report map.
pub fn child(slug: &str, unit: &str, sources: &[(String, String)], title: &str, body: &str) -> (r: String)
    ensures
        r@ == child_spec(slug@, unit@, pair_views(sources@), title@, body@),
{
    let lines = lineage_text(sources);
    let b = chars_of(body);
    let t = trim_exec(b.as_slice());
    let mut r = owned("---\nkind: report\nsemantic-key: ");
    push_str(&mut r, slug);
    push_str(&mut r, "\nslug: ");
    push_str(&mut r, slug);
    push_str(&mut r, "\nunit: ");
    push_str(&mut r, unit);
    push_str(&mut r, "\nsource-lineage:\n");
    push_str(&mut r, lines.as_str());
    push_str(&mut r, "\n---\n# ");
    push_str(&mut r, title);
    push_str(&mut r, "\n\n");
    push_chars(&mut r, t.as_slice());
    push_str(&mut r, "\n");
    r
}

/// `- [unit](unit.md)` for each child.
pub open spec fn section_links(children: Seq<Seq<char>>) -> Seq<char> {
    join(Seq::new(children.len(), |i: int| "- ["@ + children[i] + "]("@ + children[i] + ".md)"@), "\n"@)
}

pub open spec fn map_spec(slug: Seq<char>, sources: Seq<(Seq<char>, Seq<char>)>, title: Seq<char>, body: Seq<char>, children: Seq<Seq<char>>, minimum_words: u32) -> Seq<char> {
    "---\nkind: report\nsemantic-key: "@ + slug + "\nslug: "@ + slug + "\nunit: index\nminimum-words: "@
        + crate::number::decimal(minimum_words as nat) + "\nchildren:\n"@ + join(
        prefixed(children, "- "@),
        "\n"@,
    ) + "\nsource-lineage:\n"@ + lineage(sources) + "\n---\n# "@ + title + "\n\n"@ + trim(body)
        + "\n\n## Sections\n"@ + section_links(children) + "\n"@
}

fn section_links_text(children: &Vec<String>) -> (r: String)
    ensures
        r@ == section_links(views(children@)),
{
    let ghost cs = views(children@);
    let ghost all = Seq::new(cs.len(), |i: int| "- ["@ + cs[i] + "]("@ + cs[i] + ".md)"@);
    let mut r = String::new();
    for i in 0..children.len()
        invariant
            cs == views(children@),
            all == Seq::new(cs.len(), |i: int| "- ["@ + cs[i] + "]("@ + cs[i] + ".md)"@),
            r@ == join(all.take(i as int), "\n"@),
    {
        assert(all.take(i + 1).drop_last() == all.take(i as int));
        if i > 0 {
            push_str(&mut r, "\n");
        }
        push_str(&mut r, "- [");
        push_str(&mut r, children[i].as_str());
        push_str(&mut r, "](");
        push_str(&mut r, children[i].as_str());
        push_str(&mut r, ".md)");
        assert(all.take(i + 1).last() == "- ["@ + cs[i as int] + "]("@ + cs[i as int] + ".md)"@);
    }
    assert(all.take(children@.len() as int) == all);
    r
}

/// A report map: the index document that lists the child sections.
pub fn map(
    slug: &str,
    sources: &[(String, String)],
    title: &str,
    body: &str,
    children: &Vec<String>,
    minimum_words: u32,
) -> (r: String)
    ensures
        r@ == map_spec(slug@, pair_views(sources@), title@, body@, views(children@), minimum_words),
{
    let rows = crate::text::join_prefixed(children, "- ", "\n");
    let links = section_links_text(children);
    let lines = lineage_text(sources);
    let b = chars_of(body);
    let t = trim_exec(b.as_slice());
    let words = crate::number::u64_text(minimum_words as u64);
    let mut r = owned("---\nkind: report\nsemantic-key: ");
    push_str(&mut r, slug);
    push_str(&mut r, "\nslug: ");
    push_str(&mut r, slug);
    push_str(&mut r, "\nunit: index\nminimum-words: ");
    push_str(&mut r, words.as_str());
    push_str(&mut r, "\nchildren:\n");
    push_str(&mut r, rows.as_str());
    push_str(&mut r, "\nsource-lineage:\n");
    push_str(&mut r, lines.as_str());
    push_str(&mut r, "\n---\n# ");
    push_str(&mut r, title);
    push_str(&mut r, "\n\n");
    push_chars(&mut r, t.as_slice());
    push_str(&mut r, "\n\n## Sections\n");
    push_str(&mut r, links.as_str());
    push_str(&mut r, "\n");
    r
}

proof fn lemma_children_fold(pieces: Seq<Seq<char>>)
    ensures
        children_fold(pieces) matches Ok(out) ==> (forall|a: int, b: int|
            0 <= a < b < out.len() ==> out[a] != out[b]) && (forall|a: int|
            0 <= a < out.len() ==> canonical_key(#[trigger] out[a]) && out[a] != "index"@),
    decreases pieces.len(),
{
    if pieces.len() > 0 {
        lemma_children_fold(pieces.drop_last());
    }
}

/// The children of an accepted report map are at least two, pairwise
/// different, and each a canonical key other than `index`.
pub proof fn lemma_children_admitted(value: Seq<char>)
    ensures
        children_spec(value) matches Ok(out) ==> out.len() >= 2 && (forall|a: int, b: int|
            0 <= a < b < out.len() ==> out[a] != out[b]) && (forall|a: int|
            0 <= a < out.len() ==> canonical_key(#[trigger] out[a]) && out[a] != "index"@),
{
    lemma_children_fold(split_on(value, ','));
}

} // verus!
