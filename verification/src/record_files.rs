//! Workspace records as the command line shows them, and the link list
//! that `link` extends.
use vstd::prelude::*;

use crate::text::{join, join_strings, owned, push_str, str_eq, views};

verus! {

/// A stored workspace record.
pub struct RecordRow {
    pub id: String,
    pub kind: String,
    pub title: String,
    pub state: String,
    pub path: String,
    pub fingerprint: String,
    pub archived: bool,
    pub updated_at: String,
}

pub open spec fn row_line(prefix: Seq<char>, row: RecordRow) -> Seq<char> {
    prefix + " "@ + row.id@ + " kind="@ + row.kind@ + " state="@ + row.state@ + " title="@
        + row.title@ + " path="@ + row.path@ + " fp="@ + row.fingerprint@
}

/// One record on one line, after `prefix`.
pub fn format_record_row(prefix: &str, row: &RecordRow) -> (r: String)
    ensures
        r@ == row_line(prefix@, *row),
{
    let mut r = owned(prefix);
    push_str(&mut r, " ");
    push_str(&mut r, row.id.as_str());
    push_str(&mut r, " kind=");
    push_str(&mut r, row.kind.as_str());
    push_str(&mut r, " state=");
    push_str(&mut r, row.state.as_str());
    push_str(&mut r, " title=");
    push_str(&mut r, row.title.as_str());
    push_str(&mut r, " path=");
    push_str(&mut r, row.path.as_str());
    push_str(&mut r, " fp=");
    push_str(&mut r, row.fingerprint.as_str());
    r
}

pub open spec fn record_list_spec(rows: Seq<RecordRow>) -> Seq<char> {
    if rows.len() == 0 {
        "records: none"@
    } else {
        join(Seq::new(rows.len(), |i: int| row_line("record"@, rows[i])), "\n"@)
    }
}

/// The record list: one line per record, or `records: none`.
pub fn record_list(rows: &Vec<RecordRow>) -> (r: String)
    ensures
        r@ == record_list_spec(rows@),
{
    if rows.len() == 0 {
        return owned("records: none");
    }
    let ghost want = Seq::new(rows@.len(), |i: int| row_line("record"@, rows@[i]));
    let mut lines: Vec<String> = Vec::new();
    for i in 0..rows.len()
        invariant
            lines@.len() == i,
            want == Seq::new(rows@.len(), |i: int| row_line("record"@, rows@[i])),
            forall|k: int| 0 <= k < i ==> (#[trigger] lines@[k])@ == want[k],
    {
        lines.push(format_record_row("record", &rows[i]));
    }
    assert(views(lines@) == want);
    join_strings(&lines, "\n")
}

/// A record shown in full: its line, then its stored text.
pub fn record_show(row: &RecordRow, text: &str) -> (r: String)
    ensures
        r@ == row_line("record"@, *row) + "\n"@ + text@,
{
    let mut r = format_record_row("record", row);
    push_str(&mut r, "\n");
    push_str(&mut r, text);
    r
}

/// Adds `target` to a record's links unless it is already there.
pub fn add_link(links: &mut Vec<String>, target: &str)
    ensures
        views(final(links)@) == links_after(views(old(links)@), target@),
{
    let mut i: usize = 0;
    while i < links.len()
        invariant
            links@ == old(links)@,
            i <= links@.len(),
            forall|j: int| 0 <= j < i ==> links@[j]@ != target@,
        decreases links.len() - i,
    {
        if str_eq(links[i].as_str(), target) {
            assert(views(links@)[i as int] == target@);
            return;
        }
        i = i + 1;
    }
    assert(!views(links@).contains(target@));
    links.push(owned(target));
    assert(views(links@) =~= views(old(links)@).push(target@));
}

/// The message for an id that no record has.
pub fn not_found(id: &str) -> (r: String)
    ensures
        r@ == "record not found: "@ + id@,
{
    let mut r = owned("record not found: ");
    push_str(&mut r, id);
    r
}

/// The message for an alias whose record is gone.
pub fn alias_not_found(id: &str) -> (r: String)
    ensures
        r@ == "record not found for alias: "@ + id@,
{
    let mut r = owned("record not found for alias: ");
    push_str(&mut r, id);
    r
}

/// The answer of `archive`.
pub fn archived_message(id: &str) -> (r: String)
    ensures
        r@ == "archived record: "@ + id@,
{
    let mut r = owned("archived record: ");
    push_str(&mut r, id);
    r
}

/// The answer of `link`.
pub fn linked_message(id: &str, target: &str) -> (r: String)
    ensures
        r@ == "linked record: "@ + id@ + " -> "@ + target@,
{
    let mut r = owned("linked record: ");
    push_str(&mut r, id);
    push_str(&mut r, " -> ");
    push_str(&mut r, target);
    r
}

/// The answer of a stored record: its id, path, fingerprint and the
/// workspace index it rebuilt.
pub fn written_message(id: &str, path: &str, fingerprint: &str, index: &str) -> (r: String)
    ensures
        r@ == "record: "@ + id@ + " path="@ + path@ + " fp="@ + fingerprint@ + " index="@ + index@,
{
    let mut r = owned("record: ");
    push_str(&mut r, id);
    push_str(&mut r, " path=");
    push_str(&mut r, path);
    push_str(&mut r, " fp=");
    push_str(&mut r, fingerprint);
    push_str(&mut r, " index=");
    push_str(&mut r, index);
    r
}

/// The row of a record moved to its archive path `path`, with the
/// fingerprint of its text there.
pub fn archived_row(original: &RecordRow, path: &str, fingerprint: &str, now: &str) -> (r: RecordRow)
    ensures
        r.id@ == original.id@,
        r.kind@ == original.kind@,
        r.title@ == original.title@,
        r.state@ == "archived"@,
        r.path@ == path@,
        r.fingerprint@ == fingerprint@,
        r.archived,
        r.updated_at@ == now@,
{
    RecordRow {
        id: owned(original.id.as_str()),
        kind: owned(original.kind.as_str()),
        title: owned(original.title.as_str()),
        state: owned("archived"),
        path: owned(path),
        fingerprint: owned(fingerprint),
        archived: true,
        updated_at: owned(now),
    }
}

/// The audit entry of a record's archiving.
pub fn archive_audit_id(id: &str) -> (r: String)
    ensures
        r@ == "archive-"@ + id@,
{
    let mut r = owned("archive-");
    push_str(&mut r, id);
    r
}

/// The links after adding `target`.
pub open spec fn links_after(links: Seq<Seq<char>>, target: Seq<char>) -> Seq<Seq<char>> {
    if links.contains(target) {
        links
    } else {
        links.push(target)
    }
}

/// Linking a record to the same target twice links it once.
pub proof fn lemma_link_idempotent(links: Seq<Seq<char>>, target: Seq<char>)
    ensures
        links_after(links_after(links, target), target) == links_after(links, target),
        links_after(links, target).contains(target),
{
    if !links.contains(target) {
        assert(links.push(target)[links.len() as int] == target);
    }
}

} // verus!
