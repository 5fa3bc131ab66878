//! Whether a report's documents are still the revisions the journal last
//! wrote, and which of its obligations reopen when they are not.
use vstd::prelude::*;
use crate::automatic_checks::same_bytes;
use crate::digest::{sha256, sha256_of};
use crate::text::{owned, push_str, sorted_insert, chars_of, strictly_sorted, views};

verus! {

/// A managed document's current revision as the journal holds it.
pub struct StoredRevision {
    pub content: Vec<u8>,
    pub mode: i64,
    pub sha256: Vec<u8>,
}

/// A document as found in the workspace.
pub struct ObservedFile {
    pub bytes: Vec<u8>,
    pub mode: u32,
}

/// The workspace holds exactly the stored revision: the same bytes, the
/// same mode, and bytes whose digest is the stored one.
pub open spec fn matches_spec(stored: Option<StoredRevision>, observed: Option<ObservedFile>) -> bool {
    match (stored, observed) {
        (Some(s), Some(o)) => o.bytes@ == s.content@ && o.mode as int == s.mode as int
            && sha256_of(o.bytes@) == s.sha256@,
        _ => false,
    }
}

/// Whether a managed document is current: none when the journal has no
/// active revision of it or the workspace has no such file.
pub fn path_matches(stored: &Option<StoredRevision>, observed: &Option<ObservedFile>) -> (r: bool)
    ensures
        r == matches_spec(*stored, *observed),
{
    match (stored, observed) {
        (Some(s), Some(o)) => {
            if !same_bytes(o.bytes.as_slice(), s.content.as_slice()) {
                return false;
            }
            if o.mode as i64 != s.mode {
                return false;
            }
            let digest = sha256(o.bytes.as_slice());
            same_bytes(digest.as_slice(), s.sha256.as_slice())
        },
        _ => false,
    }
}

pub open spec fn map_path_spec(slug: Seq<char>) -> Seq<char> {
    "artifacts/documents/"@ + slug + "/README.md"@
}

pub open spec fn member_path_spec(slug: Seq<char>, unit: Seq<char>) -> Seq<char> {
    "artifacts/documents/"@ + slug + "/"@ + unit + ".md"@
}

/// The path of a report's map.
pub fn map_path(slug: &str) -> (r: String)
    ensures
        r@ == map_path_spec(slug@),
{
    let mut s = owned("artifacts/documents/");
    push_str(&mut s, slug);
    push_str(&mut s, "/README.md");
    s
}

/// The path of one member of a report.
pub fn member_path(slug: &str, unit: &str) -> (r: String)
    ensures
        r@ == member_path_spec(slug@, unit@),
{
    let mut s = owned("artifacts/documents/");
    push_str(&mut s, slug);
    push_str(&mut s, "/");
    push_str(&mut s, unit);
    push_str(&mut s, ".md");
    s
}

pub open spec fn map_obligation(matter: Seq<char>, slug: Seq<char>) -> Seq<char> {
    matter + "/report-map/"@ + slug
}

pub open spec fn member_obligation(matter: Seq<char>, slug: Seq<char>, unit: Seq<char>) -> Seq<char> {
    matter + "/report-member/"@ + slug + "/"@ + unit
}

/// The member obligations to reopen: one for each child that is not
/// current, in the children's order.
pub open spec fn member_reopens(
    matter: Seq<char>,
    slug: Seq<char>,
    children: Seq<Seq<char>>,
    current: Seq<bool>,
) -> Seq<Seq<char>>
    decreases children.len(),
{
    if children.len() == 0 {
        Seq::empty()
    } else {
        let rest = member_reopens(matter, slug, children.drop_last(), current.take(children.len() - 1));
        if current[children.len() - 1] {
            rest
        } else {
            rest.push(member_obligation(matter, slug, children.last()))
        }
    }
}

/// What a report's staleness asks of its obligations.
pub struct StalePlan {
    /// The map is not current.
    pub map_stale: bool,
    /// The obligations to reopen, in order.
    pub reopen: Vec<String>,
    /// The children that are not current, each once, in ascending order.
    pub stale: Vec<String>,
}

fn obligation(matter: &str, middle: &str, slug: &str) -> (r: String)
    ensures
        r@ == matter@ + middle@ + slug@,
{
    let mut s = owned(matter);
    push_str(&mut s, middle);
    push_str(&mut s, slug);
    s
}

/// Given which of a report's documents are current (`map_current` for the
/// map, `child_current[i]` for `children[i]`), the obligations to reopen
/// (`MATTER/report-map/SLUG` first when the map is stale, then
/// `MATTER/report-member/SLUG/UNIT` for each stale child) and the set of
/// stale children.
pub fn stale_plan(
    matter: &str,
    slug: &str,
    children: &Vec<String>,
    map_current: bool,
    child_current: &Vec<bool>,
) -> (r: StalePlan)
    requires
        children.len() == child_current.len(),
    ensures
        r.map_stale == !map_current,
        views(r.reopen@) == (if map_current {
            Seq::<Seq<char>>::empty()
        } else {
            seq![map_obligation(matter@, slug@)]
        }) + member_reopens(matter@, slug@, views(children@), child_current@),
        strictly_sorted(views(r.stale@)),
        forall|u: Seq<char>|
            views(r.stale@).contains(u) <==> exists|i: int|
                0 <= i < children.len() && !child_current@[i] && #[trigger] children@[i]@ == u,
{
    let mut reopen: Vec<String> = Vec::new();
    if !map_current {
        reopen.push(obligation(matter, "/report-map/", slug));
    }
    let ghost head = views(reopen@);
    let mut stale: Vec<String> = Vec::new();
    for i in 0..children.len()
        invariant
            children.len() == child_current.len(),
            views(reopen@) == head + member_reopens(
                matter@,
                slug@,
                views(children@).take(i as int),
                child_current@.take(i as int),
            ),
            strictly_sorted(views(stale@)),
            forall|u: Seq<char>|
                views(stale@).contains(u) <==> exists|j: int|
                    0 <= j < i && !child_current@[j] && #[trigger] children@[j]@ == u,
    {
        let ghost before = views(stale@);
        let ghost prev = views(reopen@);
        assert(child_current@.take(i + 1)[i as int] == child_current@[i as int]);
        let ghost cs = views(children@).take(i + 1);
        assert(cs.drop_last() == views(children@).take(i as int));
        assert(child_current@.take(i + 1).take(i as int) == child_current@.take(i as int));
        assert(cs.last() == children@[i as int]@);
        if !child_current[i] {
            let mut s = obligation(matter, "/report-member/", slug);
            push_str(&mut s, "/");
            push_str(&mut s, children[i].as_str());
            reopen.push(s);
            assert(views(reopen@) =~= prev.push(member_obligation(matter@, slug@, cs.last())));
            let c = chars_of(children[i].as_str());
            sorted_insert(&mut stale, c.as_slice());
        }
        assert(views(reopen@) == head + member_reopens(
            matter@,
            slug@,
            views(children@).take(i + 1),
            child_current@.take(i + 1),
        ));
        assert forall|u: Seq<char>|
            views(stale@).contains(u) implies exists|j: int|
                0 <= j < i + 1 && !child_current@[j] && #[trigger] children@[j]@ == u by {
            if !before.contains(u) {
                assert(children@[i as int]@ == u);
            } else {
                let j = choose|j: int| 0 <= j < i && !child_current@[j] && #[trigger] children@[j]@ == u;
                assert(children@[j]@ == u);
            }
        }
        assert forall|u: Seq<char>|
            (exists|j: int| 0 <= j < i + 1 && !child_current@[j] && #[trigger] children@[j]@ == u)
                implies views(stale@).contains(u) by {
            let j = choose|j: int| 0 <= j < i + 1 && !child_current@[j] && #[trigger] children@[j]@ == u;
            if j < i {
                assert(before.contains(u));
            }
        }
    }
    assert(views(children@).take(children.len() as int) == views(children@));
    assert(child_current@.take(children.len() as int) == child_current@);
    StalePlan { map_stale: !map_current, reopen, stale }
}

} // verus!
