//! Managed reports written over several turns: which check kinds belong to
//! them, and the body of a child section read back.
use vstd::prelude::*;
use serde_json::Value as V;
use crate::config_registry::{json_document, member, member_exec, parse_json, DocumentView, FlatDocument, JsonScalar, ScalarView};
use crate::memory_checks::texts;
use crate::text::{chars_of, join, lines, lines_exec, owned, str_eq, string_of, trim, trim_exec, push_chars, push_str, views};

verus! {

pub open spec fn long_kind_spec(kind: Seq<char>) -> bool {
    kind == "managed-report-map"@ || kind == "managed-report-member"@ || kind
        == "managed-report-complete"@
}

/// The check kinds of a report written over several turns.
pub fn long_kind(kind: &str) -> (r: bool)
    ensures
        r == long_kind_spec(kind@),
{
    str_eq(kind, "managed-report-map") || str_eq(kind, "managed-report-member") || str_eq(
        kind,
        "managed-report-complete",
    )
}

/// The first line from the seventh on that is `---`: where front matter ends.
pub open spec fn front_matter_end(ls: Seq<Seq<char>>) -> Option<int> {
    if exists|n: int| 6 <= n < ls.len() && #[trigger] ls[n] == "---"@ {
        Some(choose|n: int| 6 <= n < ls.len() && #[trigger] ls[n] == "---"@ && forall|m: int| 6 <= m < n ==> #[trigger] ls[m] != "---"@)
    } else {
        None
    }
}

/// The body of a child section: its lines from the third after the end of
/// the front matter on, joined and trimmed.
pub open spec fn child_body_spec(text: Seq<char>) -> Option<Seq<char>> {
    let ls = lines(text);
    match front_matter_end(ls) {
        None => None,
        Some(end) => if end + 3 <= ls.len() {
            Some(trim(join(ls.skip(end + 3), "\n"@)))
        } else {
            None
        },
    }
}

/// The body of a child section of a report (after its front matter and heading).
pub fn child_body(text: &str) -> (r: Option<String>)
    ensures
        match r {
            Some(b) => child_body_spec(text@) == Some(b@),
            None => child_body_spec(text@) is None,
        },
{
    let c = chars_of(text);
    let ls = lines_exec(c.as_slice());
    let ghost all = lines(text@);
    let dashes = chars_of("---");
    let mut end: usize = 6;
    let mut found = false;
    while end < ls.len()
        invariant_except_break
            !found,
        invariant
            c@ == text@,
            all == lines(text@),
            ls@.len() == all.len(),
            forall|k: int| 0 <= k < ls@.len() ==> #[trigger] ls@[k]@ == all[k],
            dashes@ == "---"@,
            6 <= end,
            forall|m: int| 6 <= m < end && m < all.len() ==> #[trigger] all[m] != "---"@,
        ensures
            found ==> end < all.len() && all[end as int] == "---"@,
            !found ==> forall|m: int| 6 <= m < all.len() ==> #[trigger] all[m] != "---"@,
        decreases ls.len() - end,
    {
        if crate::text::chars_eq(ls[end].as_slice(), dashes.as_slice()) {
            found = true;
            break;
        }
        end += 1;
    }
    if !found {
        return None;
    }
    proof {
        let n = choose|n: int| 6 <= n < all.len() && #[trigger] all[n] == "---"@ && forall|m: int| 6 <= m < n ==> #[trigger] all[m] != "---"@;
        assert(all[end as int] == "---"@);
        if n < end {
        } else if n > end {
        }
        assert(n == end);
    }
    if ls.len() - end < 3 {
        return None;
    }
    let mut joined = String::new();
    let start = end + 3;
    let ghost tail = all.skip(start as int);
    let mut k = start;
    while k < ls.len()
        invariant
            start <= k <= ls@.len(),
            ls@.len() == all.len(),
            forall|j: int| 0 <= j < ls@.len() ==> #[trigger] ls@[j]@ == all[j],
            tail == all.skip(start as int),
            joined@ == join(tail.take(k - start), "\n"@),
        decreases ls.len() - k,
    {
        assert(tail.take(k + 1 - start).drop_last() == tail.take(k - start));
        assert(tail.take(k + 1 - start).last() == all[k as int]);
        if k > start {
            push_str(&mut joined, "\n");
        }
        push_chars(&mut joined, ls[k].as_slice());
        k += 1;
    }
    assert(tail.take(ls@.len() - start) == tail);
    let jc = chars_of(joined.as_str());
    let t = trim_exec(jc.as_slice());
    Some(string_of(t.as_slice()))
}

/// The slug and children that a report map's obligation names.
pub open spec fn topology_spec(payload: Seq<char>) -> Result<(Seq<char>, Seq<Seq<char>>), Seq<char>> {
    match json_document(payload) {
        DocumentView::Invalid(e, _) => Err(e),
        DocumentView::NotObject => Err("report topology payload is malformed"@),
        DocumentView::Object(values) => match member(values, "slug"@) {
            Some(ScalarView::Text(slug)) => match member(values, "children"@) {
                Some(ScalarView::Array(items)) => Ok((slug, texts(items))),
                _ => Err("report topology payload is malformed"@),
            },
            _ => Err("report topology payload is malformed"@),
        },
    }
}

/// Reads a report map's obligation payload: its slug, and the children
/// that are texts, in order.
pub fn topology(payload: &str) -> (r: Result<(String, Vec<String>), String>)
    ensures
        match r {
            Ok((slug, children)) => topology_spec(payload@) == Ok::<(Seq<char>, Seq<Seq<char>>), Seq<char>>((slug@, views(children@))),
            Err(e) => topology_spec(payload@) == Err::<(Seq<char>, Seq<Seq<char>>), Seq<char>>(e@),
        },
{
    let values = match parse_json(payload) {
        FlatDocument::Invalid(e, _) => return Err(e),
        FlatDocument::NotObject => return Err(owned("report topology payload is malformed")),
        FlatDocument::Object(values) => values,
    };
    let slug = match member_exec(&values, "slug") {
        Some(JsonScalar::Text(s)) => s.clone(),
        _ => return Err(owned("report topology payload is malformed")),
    };
    let items = match member_exec(&values, "children") {
        Some(JsonScalar::Array(items)) => items,
        _ => return Err(owned("report topology payload is malformed")),
    };
    let ghost all = Seq::new(items@.len(), |i: int| crate::args::opt_view(items@[i]));
    let mut children: Vec<String> = Vec::new();
    for i in 0..items.len()
        invariant
            all == Seq::new(items@.len(), |i: int| crate::args::opt_view(items@[i])),
            views(children@) == texts(all.take(i as int)),
    {
        assert(all.take(i + 1).drop_last() == all.take(i as int));
        assert(all.take(i + 1).last() == all[i as int]);
        match &items[i] {
            Some(t) => {
                let ghost before = views(children@);
                children.push(t.clone());
                assert(views(children@) == before.push(t@));
            },
            None => {},
        }
    }
    assert(all.take(items@.len() as int) == all);
    Ok((slug, children))
}

/// The units of a report that still need work, in order: `index` when the
/// map is stale or its check has not passed, then each child that is stale
/// or whose check has not passed.
pub open spec fn remaining_spec(
    map_stale: bool,
    map_passed: bool,
    children: Seq<Seq<char>>,
    stale: Seq<Seq<char>>,
    passed: Seq<bool>,
) -> Seq<Seq<char>> {
    let head: Seq<Seq<char>> = if map_stale || !map_passed { seq!["index"@] } else { Seq::empty() };
    head + remaining_children(children, stale, passed, children.len() as int)
}

pub open spec fn remaining_children(children: Seq<Seq<char>>, stale: Seq<Seq<char>>, passed: Seq<bool>, n: int) -> Seq<Seq<char>>
    decreases n,
{
    if n <= 0 {
        Seq::empty()
    } else {
        let pre = remaining_children(children, stale, passed, n - 1);
        if stale.contains(children[n - 1]) || !passed[n - 1] {
            pre.push(children[n - 1])
        } else {
            pre
        }
    }
}

/// What is pending of a report: the units that still need work, or
/// nothing once all are done and the whole report's check has passed.
pub fn pending_units(
    map_stale: bool,
    map_passed: bool,
    children: &Vec<String>,
    stale: &Vec<String>,
    passed: &Vec<bool>,
    complete_passed: bool,
) -> (r: Option<Vec<String>>)
    requires
        passed@.len() == children@.len(),
    ensures
        ({
            let rem = remaining_spec(map_stale, map_passed, views(children@), views(stale@), passed@);
            match r {
                None => rem.len() == 0 && complete_passed,
                Some(units) => views(units@) == rem && !(rem.len() == 0 && complete_passed),
            }
        }),
{
    let ghost cs = views(children@);
    let ghost ss = views(stale@);
    let mut units: Vec<String> = Vec::new();
    if map_stale || !map_passed {
        units.push(owned("index"));
    }
    let ghost head = views(units@);
    for i in 0..children.len()
        invariant
            cs == views(children@),
            ss == views(stale@),
            passed@.len() == children@.len(),
            views(units@) == head + remaining_children(cs, ss, passed@, i as int),
    {
        let ghost before = views(units@);
        let mut is_stale = false;
        for j in 0..stale.len()
            invariant
                is_stale == exists|k: int| 0 <= k < j && ss[k] == cs[i as int],
                ss == views(stale@),
                cs == views(children@),
                i < children@.len(),
        {
            if str_eq(stale[j].as_str(), children[i].as_str()) {
                is_stale = true;
                assert(ss[j as int] == cs[i as int]);
            }
            assert(is_stale == exists|k: int| 0 <= k < j + 1 && ss[k] == cs[i as int]) by {
                if exists|k: int| 0 <= k < j + 1 && ss[k] == cs[i as int] {
                    let k = choose|k: int| 0 <= k < j + 1 && ss[k] == cs[i as int];
                    if k < j {
                    } else {
                        assert(stale@[j as int]@ == children@[i as int]@);
                    }
                }
            }
        }
        assert(is_stale == ss.contains(cs[i as int]));
        if is_stale || !passed[i] {
            units.push(children[i].clone());
            assert(views(units@) == before.push(cs[i as int]));
        }
    }
    assert(views(units@) == remaining_spec(map_stale, map_passed, cs, ss, passed@));
    if units.len() == 0 && complete_passed {
        None
    } else {
        Some(units)
    }
}

/// How a check of a managed report kind is evaluated.
#[derive(Clone, Copy, PartialEq, Eq, Structural)]
pub enum Evaluator {
    /// The report's map.
    Index,
    Member,
    Complete,
}

/// The evaluator of a check kind; none for kinds that are not managed
/// report kinds.
pub fn evaluator(kind: &str) -> (r: Option<Evaluator>)
    ensures
        r == if kind@ == "managed-report-map"@ {
            Some(Evaluator::Index)
        } else if kind@ == "managed-report-member"@ {
            Some(Evaluator::Member)
        } else if kind@ == "managed-report-complete"@ {
            Some(Evaluator::Complete)
        } else {
            None
        },
{
    if str_eq(kind, "managed-report-map") {
        Some(Evaluator::Index)
    } else if str_eq(kind, "managed-report-member") {
        Some(Evaluator::Member)
    } else if str_eq(kind, "managed-report-complete") {
        Some(Evaluator::Complete)
    } else {
        None
    }
}

/// What `serde_json` reads from a check's parameter bytes.
pub uninterp spec fn json_bytes_document(bytes: Seq<u8>) -> DocumentView;

/// Reads JSON bytes with `serde_json::from_slice` into a
/// `serde_json::Value`, reduced as `parse_json` reduces a text: the error's
/// message and debug form, or an object's members with each value reduced
/// to its kind.  The contract only names the outcome, a function of the
/// bytes.
#[verifier::external_body]
pub(crate) fn parse_json_bytes(bytes: &[u8]) -> (r: FlatDocument)
    ensures
        r@ == json_bytes_document(bytes@),
{
    match serde_json::from_slice::<V>(bytes) {
        Err(error) => FlatDocument::Invalid(error.to_string(), format!("{error:?}")),
        Ok(V::Object(map)) => FlatDocument::Object(map.into_iter().map(|(key, value)| (key, match value {
            V::Null => JsonScalar::Null, V::Bool(b) => JsonScalar::Bool(b),
            V::Number(n) => JsonScalar::Number(n.as_u64()), V::String(s) => JsonScalar::Text(s),
            V::Array(items) => JsonScalar::Array(items.iter().map(|i| i.as_str().map(String::from)).collect()),
            V::Object(_) => JsonScalar::Object,
        })).collect()),
        Ok(_) => FlatDocument::NotObject,
    }
}

/// The `paths` array of a check's parameters, each element's text if it
/// is one; none unless the parameters are a JSON object with such an array.
pub open spec fn paths_array(parameters: Seq<u8>) -> Option<Seq<Option<Seq<char>>>> {
    match json_bytes_document(parameters) {
        DocumentView::Object(values) => match member(values, "paths"@) {
            Some(ScalarView::Array(items)) => Some(items),
            _ => None,
        },
        _ => None,
    }
}

fn paths_exec(parameters: &[u8]) -> (r: Option<Vec<Option<String>>>)
    ensures
        match r {
            Some(items) => paths_array(parameters@) == Some(Seq::new(items@.len(), |i: int| crate::args::opt_view(items@[i]))),
            None => paths_array(parameters@) is None,
        },
{
    match parse_json_bytes(parameters) {
        FlatDocument::Object(values) => match member_exec(&values, "paths") {
            Some(JsonScalar::Array(items)) => {
                let mut copy: Vec<Option<String>> = Vec::new();
                for i in 0..items.len()
                    invariant
                        copy@.len() == i,
                        forall|k: int| 0 <= k < i ==> crate::args::opt_view(#[trigger] copy@[k]) == crate::args::opt_view(items@[k]),
                {
                    copy.push(match &items[i] {
                        Some(t) => Some(owned(t.as_str())),
                        None => None,
                    });
                }
                assert(Seq::new(copy@.len(), |i: int| crate::args::opt_view(copy@[i])) =~= Seq::new(items@.len(), |i: int| crate::args::opt_view(items@[i])));
                Some(copy)
            },
            _ => None,
        },
        _ => None,
    }
}

/// Some element of the `paths` array is not a text (or there is no array).
pub open spec fn has_non_text(items: Option<Seq<Option<Seq<char>>>>) -> bool {
    match items {
        Some(items) => exists|i: int| 0 <= i < items.len() && #[trigger] items[i] is None,
        None => true,
    }
}

/// The paths a completeness check compares, when its parameters name them
/// all as texts; none when they are not JSON, have no `paths` array, or
/// the array holds anything but texts.
pub fn all_paths(parameters: &[u8]) -> (r: Option<Vec<String>>)
    ensures
        match r {
            Some(ps) => paths_array(parameters@) == Some(Seq::new(ps@.len(), |i: int| Some(ps@[i]@))),
            None => has_non_text(paths_array(parameters@)),
        },
{
    let items = paths_exec(parameters)?;
    let ghost all = Seq::new(items@.len(), |i: int| crate::args::opt_view(items@[i]));
    let mut ps: Vec<String> = Vec::new();
    for i in 0..items.len()
        invariant
            all == Seq::new(items@.len(), |i: int| crate::args::opt_view(items@[i])),
            paths_array(parameters@) == Some(all),
            ps@.len() == i,
            forall|k: int| 0 <= k < i ==> all[k] == Some((#[trigger] ps@[k])@),
    {
        match &items[i] {
            Some(t) => ps.push(owned(t.as_str())),
            None => {
                assert(all[i as int] is None);
                assert(has_non_text(Some(all)));
                return None;
            },
        }
    }
    assert(Seq::new(ps@.len(), |i: int| Some(ps@[i]@)) =~= all);
    Some(ps)
}

pub open spec fn aggregate_paths_spec(parameters: Seq<u8>) -> Result<Seq<Seq<char>>, Seq<char>> {
    match json_bytes_document(parameters) {
        DocumentView::Invalid(e, _) => Err(e),
        _ => match paths_array(parameters) {
            Some(items) => Ok(texts(items)),
            None => Err("report topology payload is malformed"@),
        },
    }
}

/// The texts of a completeness check's `paths` array, in order.
pub fn aggregate_paths(parameters: &[u8]) -> (r: Result<Vec<String>, String>)
    ensures
        match (r, aggregate_paths_spec(parameters@)) {
            (Ok(ps), Ok(s)) => views(ps@) == s,
            (Err(e), Err(s)) => e@ == s,
            _ => false,
        },
{
    if let FlatDocument::Invalid(e, _) = parse_json_bytes(parameters) {
        return Err(e);
    }
    let items = match paths_exec(parameters) {
        Some(items) => items,
        None => return Err(owned("report topology payload is malformed")),
    };
    let t = crate::memory_checks::texts_exec(&items);
    let mut ps: Vec<String> = Vec::new();
    for i in 0..t.len()
        invariant
            ps@.len() == i,
            forall|k: int| 0 <= k < i ==> (#[trigger] ps@[k])@ == t@[k]@,
    {
        ps.push(string_of(t[i].as_slice()));
    }
    assert(views(ps@) =~= Seq::new(t@.len(), |i: int| t@[i]@));
    Ok(ps)
}

pub open spec fn seed_line(path: Seq<char>, revision: Option<String>) -> Seq<char> {
    path + "@"@ + match revision {
        Some(r) => r@,
        None => "missing"@,
    } + "\n"@
}

pub open spec fn seed_spec(paths: Seq<Seq<char>>, revisions: Seq<Option<String>>, n: int) -> Seq<char>
    decreases n,
{
    if n <= 0 {
        Seq::empty()
    } else {
        seed_spec(paths, revisions, n - 1) + seed_line(paths[n - 1], revisions[n - 1])
    }
}

/// The text whose digest stands for the revisions of a report's documents:
/// a `path@revision` line per path (`missing` for a path with none).
pub fn revision_seed(paths: &Vec<String>, revisions: &Vec<Option<String>>) -> (r: String)
    requires
        paths@.len() == revisions@.len(),
    ensures
        r@ == seed_spec(views(paths@), revisions@, paths@.len() as int),
{
    let mut r = String::new();
    for i in 0..paths.len()
        invariant
            paths@.len() == revisions@.len(),
            r@ == seed_spec(views(paths@), revisions@, i as int),
    {
        push_str(&mut r, paths[i].as_str());
        push_str(&mut r, "@");
        match &revisions[i] {
            Some(v) => push_str(&mut r, v.as_str()),
            None => push_str(&mut r, "missing"),
        }
        push_str(&mut r, "\n");
        assert(views(paths@)[i as int] == paths@[i as int]@);
    }
    r
}

/// The payload of a report's pending state (members in key order).
pub fn pending_payload(slug: &str, units: &Vec<String>) -> (r: String)
    ensures
        r@ == "{\"remaining_units\":["@ + join(crate::exchange_bridge::quoted_all(views(units@)), ","@)
            + "],\"slug\":"@ + crate::config_registry::json_quoted(slug@) + "}"@,
{
    let mut r = owned("{\"remaining_units\":[");
    let ghost all = crate::exchange_bridge::quoted_all(views(units@));
    let ghost start = r@;
    for i in 0..units.len()
        invariant
            all == crate::exchange_bridge::quoted_all(views(units@)),
            r@ == start + join(all.take(i as int), ","@),
    {
        assert(all.take(i + 1).drop_last() == all.take(i as int));
        if i > 0 {
            push_str(&mut r, ",");
        }
        push_str(&mut r, crate::config_registry::json_string(units[i].as_str()).as_str());
        assert(all.take(i + 1).last() == crate::config_registry::json_quoted(units@[i as int]@));
    }
    assert(all.take(units@.len() as int) == all);
    push_str(&mut r, "],\"slug\":");
    push_str(&mut r, crate::config_registry::json_string(slug).as_str());
    push_str(&mut r, "}");
    r
}

/// Which state a report's check settles: its pending units, else (for a
/// current check) that the check passed, else nothing.
#[derive(Clone, Copy, PartialEq, Eq, Structural)]
pub enum StateWrite {
    Pending,
    CurrentPassed,
    Nothing,
}

pub fn state_write(pending: bool, current: bool) -> (r: StateWrite)
    ensures
        r == if pending { StateWrite::Pending } else if current { StateWrite::CurrentPassed } else { StateWrite::Nothing },
{
    if pending {
        StateWrite::Pending
    } else if current {
        StateWrite::CurrentPassed
    } else {
        StateWrite::Nothing
    }
}

} // verus!
