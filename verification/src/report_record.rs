//! Writing a report through `write_record`: its fields, where each report
//! shape is stored and under which limits, and the guards that keep a
//! managed report map from changing under its children.
use vstd::prelude::*;
use crate::config_registry::{
    json_document, member, member_exec, parse_json, DocumentView, FlatDocument, JsonScalar,
    ScalarView,
};
use crate::memory_checks::{texts, texts_exec};
use crate::number::{decimal, u64_text};
use crate::report_shape::{
    child, child_spec, map_spec, pair_views, short, short_spec, Shape, ShapeView,
};
use crate::text::{chars_eq, owned, push_str, str_eq, views};

verus! {

/// Token units allowed for a short report.
pub const SHORT_LIMIT: usize = 512;
/// Token units allowed for a document map or chapter.
pub const LONG_LIMIT: usize = 2048;

/// The untrimmed value of the first argument called `name`.
pub open spec fn raw_field(args: Seq<(Seq<char>, Seq<char>)>, name: Seq<char>) -> Option<Seq<char>>
    decreases args.len(),
{
    if args.len() == 0 {
        None
    } else if args[0].0 == name {
        Some(args[0].1)
    } else {
        raw_field(args.drop_first(), name)
    }
}

/// The untrimmed value of the first argument called `name`.
pub fn field_value(args: &[(String, String)], name: &str) -> (r: Option<String>)
    ensures
        match r {
            Some(v) => raw_field(pair_views(args@), name@) == Some(v@),
            None => raw_field(pair_views(args@), name@) is None,
        },
{
    let ghost all = pair_views(args@);
    assert(all.skip(0) == all);
    for i in 0..args.len()
        invariant
            all == pair_views(args@),
            raw_field(all, name@) == raw_field(all.skip(i as int), name@),
    {
        assert(all.skip(i as int).drop_first() == all.skip(i + 1));
        if str_eq(args[i].0.as_str(), name) {
            return Some(owned(args[i].1.as_str()));
        }
    }
    None
}

pub open spec fn fields_spec(args: Seq<(Seq<char>, Seq<char>)>) -> Result<(Seq<char>, Seq<char>), Seq<char>> {
    match raw_field(args, "title"@) {
        None => Err("record title missing"@),
        Some(t) => match raw_field(args, "body"@) {
            None => Err("record body missing"@),
            Some(b) => Ok((t, b)),
        },
    }
}

/// The title and body that a report's arguments carry.
pub fn report_fields(args: &[(String, String)]) -> (r: Result<(String, String), String>)
    ensures
        match (r, fields_spec(pair_views(args@))) {
            (Ok((t, b)), Ok((ts, bs))) => t@ == ts && b@ == bs,
            (Err(e), Err(es)) => e@ == es,
            _ => false,
        },
{
    let title = match field_value(args, "title") {
        Some(t) => t,
        None => return Err(owned("record title missing")),
    };
    let body = match field_value(args, "body") {
        Some(b) => b,
        None => return Err(owned("record body missing")),
    };
    Ok((title, body))
}

/// Where a report goes: its workspace path, its text, its token-unit
/// limit and its file mode.
pub struct ReportTarget {
    pub path: String,
    pub rendered: String,
    pub limit: usize,
    pub mode: u32,
}

pub open spec fn target_spec(
    shape: ShapeView,
    sources: Seq<(Seq<char>, Seq<char>)>,
    title: Seq<char>,
    body: Seq<char>,
) -> (Seq<char>, Seq<char>, usize, u32) {
    match shape {
        ShapeView::Short { slug } => (
            "artifacts/reports/"@ + slug + ".md"@,
            short_spec(slug, sources, title, body),
            SHORT_LIMIT,
            0o644u32,
        ),
        ShapeView::Index { slug, children, minimum_words } => (
            "artifacts/documents/"@ + slug + "/README.md"@,
            map_spec(slug, sources, title, body, children, minimum_words),
            LONG_LIMIT,
            0o600u32,
        ),
        ShapeView::Child { slug, unit } => (
            "artifacts/documents/"@ + slug + "/"@ + unit + ".md"@,
            child_spec(slug, unit, sources, title, body),
            LONG_LIMIT,
            0o644u32,
        ),
    }
}

/// The target of a report of the given shape, rendered with its sources.
pub fn report_target(shape: &Shape, sources: &[(String, String)], title: &str, body: &str) -> (r: ReportTarget)
    ensures
        target_spec(shape@, pair_views(sources@), title@, body@) == (r.path@, r.rendered@, r.limit, r.mode),
{
    match shape {
        Shape::Short { slug } => {
            let mut path = owned("artifacts/reports/");
            push_str(&mut path, slug.as_str());
            push_str(&mut path, ".md");
            ReportTarget { path, rendered: short(slug.as_str(), sources, title, body), limit: SHORT_LIMIT, mode: 0o644 }
        },
        Shape::Index { slug, children, minimum_words } => {
            let mut path = owned("artifacts/documents/");
            push_str(&mut path, slug.as_str());
            push_str(&mut path, "/README.md");
            ReportTarget {
                path,
                rendered: crate::report_shape::map(slug.as_str(), sources, title, body, children, *minimum_words),
                limit: LONG_LIMIT,
                mode: 0o600,
            }
        },
        Shape::Child { slug, unit } => {
            let mut path = owned("artifacts/documents/");
            push_str(&mut path, slug.as_str());
            push_str(&mut path, "/");
            push_str(&mut path, unit.as_str());
            push_str(&mut path, ".md");
            ReportTarget { path, rendered: child(slug.as_str(), unit.as_str(), sources, title, body), limit: LONG_LIMIT, mode: 0o644 }
        },
    }
}

/// A rendered report must stay within its limit of token units.
pub fn within_limit(units: usize, limit: usize) -> (r: Result<(), String>)
    ensures
        match r {
            Ok(()) => units <= limit,
            Err(e) => units > limit && e@ == "report document exceeds "@ + decimal(limit as nat) + " conservative token units"@,
        },
{
    if units > limit {
        let mut e = owned("report document exceeds ");
        push_str(&mut e, u64_text(limit as u64).as_str());
        push_str(&mut e, " conservative token units");
        return Err(e);
    }
    Ok(())
}

/// The stored map obligation names exactly these children, in order, and
/// this word minimum.
pub open spec fn same_topology(values: Seq<(Seq<char>, ScalarView)>, children: Seq<Seq<char>>, minimum_words: u32) -> bool {
    &&& member(values, "children"@) matches Some(ScalarView::Array(items)) && texts(items) == children
    &&& member(values, "minimum_words"@) == Some(ScalarView::Number(Some(minimum_words as u64)))
}

pub open spec fn topology_guard_spec(stored: Seq<char>, children: Seq<Seq<char>>, minimum_words: u32) -> Result<(), Seq<char>> {
    match json_document(stored) {
        DocumentView::Invalid(_, detail) => Err(detail),
        DocumentView::NotObject => Err("report topology change is not admitted"@),
        DocumentView::Object(values) => if same_topology(values, children, minimum_words) {
            Ok(())
        } else {
            Err("report topology change is not admitted"@)
        },
    }
}

fn same_texts(a: &Vec<Vec<char>>, b: &Vec<String>) -> (r: bool)
    ensures
        r == (Seq::new(a@.len(), |i: int| a@[i]@) == views(b@)),
{
    let ghost sa = Seq::new(a@.len(), |i: int| a@[i]@);
    if a.len() != b.len() {
        assert(sa.len() != views(b@).len());
        return false;
    }
    for i in 0..a.len()
        invariant
            a@.len() == b@.len(),
            sa == Seq::new(a@.len(), |i: int| a@[i]@),
            forall|j: int| 0 <= j < i ==> sa[j] == views(b@)[j],
    {
        let t = crate::text::chars_of(b[i].as_str());
        if !chars_eq(a[i].as_slice(), t.as_slice()) {
            assert(sa[i as int] != views(b@)[i as int]);
            return false;
        }
    }
    assert(sa =~= views(b@));
    true
}

/// A report map that an obligation already records (`stored`, its
/// payload) may be written again only with the same children and word
/// minimum.
pub fn map_topology(stored: &str, children: &Vec<String>, minimum_words: u32) -> (r: Result<(), String>)
    ensures
        match (r, topology_guard_spec(stored@, views(children@), minimum_words)) {
            (Ok(()), Ok(())) => true,
            (Err(e), Err(s)) => e@ == s,
            _ => false,
        },
{
    let values = match parse_json(stored) {
        FlatDocument::Invalid(_, detail) => return Err(detail),
        FlatDocument::NotObject => return Err(owned("report topology change is not admitted")),
        FlatDocument::Object(values) => values,
    };
    let same_children = match member_exec(&values, "children") {
        Some(JsonScalar::Array(items)) => {
            let t = texts_exec(items);
            same_texts(&t, children)
        },
        _ => false,
    };
    let same_words = match member_exec(&values, "minimum_words") {
        Some(JsonScalar::Number(Some(n))) => *n == minimum_words as u64,
        _ => false,
    };
    if same_children && same_words {
        Ok(())
    } else {
        Err(owned("report topology change is not admitted"))
    }
}

/// A report map whose current check already passed is not replaced.
pub fn map_replacement(passed: i64) -> (r: Result<(), String>)
    ensures
        match r {
            Ok(()) => passed == 0,
            Err(e) => passed != 0 && e@ == "report map replacement is not admitted"@,
        },
{
    if passed == 0 {
        Ok(())
    } else {
        Err(owned("report map replacement is not admitted"))
    }
}

/// A chapter is written only under exactly one passed current map that
/// names it as exactly one member.
pub fn child_match(maps: i64, members: i64) -> (r: Result<(), String>)
    ensures
        match r {
            Ok(()) => maps == 1 && members == 1,
            Err(e) => !(maps == 1 && members == 1) && e@ == "report child does not match a pending current map"@,
        },
{
    if maps == 1 && members == 1 {
        Ok(())
    } else {
        Err(owned("report child does not match a pending current map"))
    }
}

} // verus!
