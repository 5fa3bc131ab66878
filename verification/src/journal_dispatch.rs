//! Journal entries: where a day's entry lives, which lineage values are
//! safe to record, and the entry's text.
use vstd::prelude::*;
use crate::report_shape::{split_chars, split_on};
use crate::text::{
    chars_of, is_ascii_alnum, is_ascii_digit, join, join_prefixed, owned, prefixed, push_chars,
    push_str, trim, trim_exec, views,
};

verus! {

/// A lineage value: 1 to 256 ASCII letters, digits, `-` and `:`.
pub open spec fn lineage_value_spec(value: Seq<char>) -> bool {
    value.len() > 0 && value.len() <= 256 && forall|i: int|
        0 <= i < value.len() ==> (is_ascii_alnum(value[i]) || value[i] == '-' || value[i] == ':')
}

/// Whether a source kind or fingerprint may be written into a record.
pub fn lineage_value(value: &str) -> (r: bool)
    ensures
        r == lineage_value_spec(value@),
{
    let c = chars_of(value);
    if c.len() == 0 || c.len() > 256 {
        return false;
    }
    for i in 0..c.len()
        invariant
            c@ == value@,
            forall|j: int| 0 <= j < i ==> (is_ascii_alnum(c@[j]) || c@[j] == '-' || c@[j] == ':'),
    {
        let b = c[i];
        if !(('a' <= b && b <= 'z') || ('A' <= b && b <= 'Z') || ('0' <= b && b <= '9') || b == '-'
            || b == ':') {
            return false;
        }
    }
    true
}

pub open spec fn digits_of_len(s: Seq<char>, n: nat) -> bool {
    s.len() == n && forall|i: int| 0 <= i < s.len() ==> is_ascii_digit(s[i])
}

pub open spec fn canonical_path_spec(date: Seq<char>) -> Result<Seq<char>, Seq<char>> {
    let parts = split_on(date, '-');
    if parts.len() == 3 && digits_of_len(parts[0], 4) && digits_of_len(parts[1], 2) && digits_of_len(
        parts[2],
        2,
    ) {
        Ok("life/journal/"@ + parts[0] + "/"@ + parts[1] + "/"@ + parts[2] + "/entry.md"@)
    } else {
        Err("journal local date is malformed"@)
    }
}

fn digits_of_len_exec(s: &[char], n: usize) -> (r: bool)
    ensures
        r == digits_of_len(s@, n as nat),
{
    if s.len() != n {
        return false;
    }
    for i in 0..s.len()
        invariant
            forall|j: int| 0 <= j < i ==> is_ascii_digit(s@[j]),
    {
        if !('0' <= s[i] && s[i] <= '9') {
            return false;
        }
    }
    true
}

/// The workspace path of the journal entry for a `YYYY-MM-DD` date.
pub fn canonical_path(date: &str) -> (r: Result<String, String>)
    ensures
        match r {
            Ok(p) => canonical_path_spec(date@) == Ok::<Seq<char>, Seq<char>>(p@),
            Err(e) => canonical_path_spec(date@) == Err::<Seq<char>, Seq<char>>(e@),
        },
{
    let c = chars_of(date);
    let parts = split_chars(c.as_slice(), '-');
    if parts.len() != 3 || !digits_of_len_exec(parts[0].as_slice(), 4) || !digits_of_len_exec(
        parts[1].as_slice(),
        2,
    ) || !digits_of_len_exec(parts[2].as_slice(), 2) {
        return Err(owned("journal local date is malformed"));
    }
    let mut r = owned("life/journal/");
    push_chars(&mut r, parts[0].as_slice());
    push_str(&mut r, "/");
    push_chars(&mut r, parts[1].as_slice());
    push_str(&mut r, "/");
    push_chars(&mut r, parts[2].as_slice());
    push_str(&mut r, "/entry.md");
    Ok(r)
}

pub open spec fn render_spec(date: Seq<char>, sources: Seq<Seq<char>>, title: Seq<char>, body: Seq<char>) -> Seq<char> {
    "---\nkind: journal\ndate: "@ + date + "\nsource-fingerprints:\n"@ + join(
        prefixed(sources, "- "@),
        "\n"@,
    ) + "\n---\n# "@ + title + "\n\n"@ + trim(body) + "\n"@
}

/// A journal entry: front matter with the date and the source fingerprints,
/// then the title as a heading and the trimmed body.
pub fn render(date: &str, sources: &Vec<String>, title: &str, body: &str) -> (r: String)
    ensures
        r@ == render_spec(date@, views(sources@), title@, body@),
{
    let lineage = join_prefixed(sources, "- ", "\n");
    let b = chars_of(body);
    let t = trim_exec(b.as_slice());
    let mut r = owned("---\nkind: journal\ndate: ");
    push_str(&mut r, date);
    push_str(&mut r, "\nsource-fingerprints:\n");
    push_str(&mut r, lineage.as_str());
    push_str(&mut r, "\n---\n# ");
    push_str(&mut r, title);
    push_str(&mut r, "\n\n");
    push_chars(&mut r, t.as_slice());
    push_str(&mut r, "\n");
    r
}

/// The most record effects a matter may apply in one budget epoch.
pub const EFFECT_BUDGET: i64 = 16;

/// The matter has spent its record effects for this budget epoch.
pub fn effects_exhausted(applied: i64) -> (r: bool)
    ensures
        r == (applied >= EFFECT_BUDGET),
{
    applied >= EFFECT_BUDGET
}

/// The family a `write_record` call writes.
#[derive(Clone, Copy, PartialEq, Eq, Structural)]
pub enum RecordFamily {
    Memory,
    Report,
    Journal,
}

pub open spec fn family_of(family: Seq<char>) -> Option<RecordFamily> {
    if family == "memory"@ {
        Some(RecordFamily::Memory)
    } else if family == "report"@ {
        Some(RecordFamily::Report)
    } else if family == "journal"@ {
        Some(RecordFamily::Journal)
    } else {
        None
    }
}

pub open spec fn route_spec(args: Seq<(Seq<char>, Seq<char>)>) -> Result<(RecordFamily, Seq<char>, Seq<char>), Seq<char>> {
    match crate::report_record::raw_field(args, "family"@) {
        None => Err("record family missing"@),
        Some(f) => match crate::report_record::raw_field(args, "title"@) {
            None => Err("record title missing"@),
            Some(t) => match crate::report_record::raw_field(args, "body"@) {
                None => Err("record body missing"@),
                Some(b) => match family_of(f) {
                    Some(k) => Ok((k, t, b)),
                    None => Err("record family is not admitted"@),
                },
            },
        },
    }
}

/// Where a `write_record` call goes: its family, title and body, read
/// from its arguments in that order.
pub fn record_route(args: &[(String, String)]) -> (r: Result<(RecordFamily, String, String), String>)
    ensures
        match (r, route_spec(crate::report_shape::pair_views(args@))) {
            (Ok((k, t, b)), Ok((ks, ts, bs))) => k == ks && t@ == ts && b@ == bs,
            (Err(e), Err(es)) => e@ == es,
            _ => false,
        },
{
    let family = match crate::report_record::field_value(args, "family") {
        Some(f) => f,
        None => return Err(owned("record family missing")),
    };
    let (title, body) = crate::report_record::report_fields(args)?;
    let kind = if crate::text::str_eq(family.as_str(), "memory") {
        RecordFamily::Memory
    } else if crate::text::str_eq(family.as_str(), "report") {
        RecordFamily::Report
    } else if crate::text::str_eq(family.as_str(), "journal") {
        RecordFamily::Journal
    } else {
        return Err(owned("record family is not admitted"));
    };
    Ok((kind, title, body))
}

/// The lineage rows of a decision, `(source kind, fingerprint)`, may be
/// recorded: there is one at least, and each value is a lineage value.
pub fn lineage_rows(rows: &Vec<(String, String)>) -> (r: Result<(), String>)
    ensures
        match r {
            Ok(()) => rows@.len() > 0 && forall|i: int| 0 <= i < rows@.len()
                ==> lineage_value_spec((#[trigger] rows@[i]).0@) && lineage_value_spec(rows@[i].1@),
            Err(e) => e@ == "record source lineage is missing or unsafe"@ && !(rows@.len() > 0
                && forall|i: int| 0 <= i < rows@.len()
                ==> lineage_value_spec((#[trigger] rows@[i]).0@) && lineage_value_spec(rows@[i].1@)),
        },
{
    if rows.len() == 0 {
        return Err(owned("record source lineage is missing or unsafe"));
    }
    for i in 0..rows.len()
        invariant
            forall|j: int| 0 <= j < i ==> lineage_value_spec((#[trigger] rows@[j]).0@) && lineage_value_spec(rows@[j].1@),
    {
        if !lineage_value(rows[i].0.as_str()) || !lineage_value(rows[i].1.as_str()) {
            return Err(owned("record source lineage is missing or unsafe"));
        }
    }
    Ok(())
}

/// The fingerprints a journal entry cites, once the lineage holds the
/// owner's current context.
pub fn journal_sources(rows: &Vec<(String, String)>) -> (r: Result<Vec<String>, String>)
    ensures
        match r {
            Ok(fps) => (exists|i: int| 0 <= i < rows@.len() && (#[trigger] rows@[i]).0@ == "owner"@)
                && views(fps@) == Seq::new(rows@.len(), |i: int| rows@[i].1@),
            Err(e) => e@ == "journal source lineage has no current owner context"@
                && forall|i: int| 0 <= i < rows@.len() ==> (#[trigger] rows@[i]).0@ != "owner"@,
        },
{
    let mut owner = false;
    for i in 0..rows.len()
        invariant
            owner == exists|j: int| 0 <= j < i && (#[trigger] rows@[j]).0@ == "owner"@,
    {
        if crate::text::str_eq(rows[i].0.as_str(), "owner") {
            owner = true;
        }
    }
    if !owner {
        return Err(owned("journal source lineage has no current owner context"));
    }
    let mut fps: Vec<String> = Vec::new();
    for i in 0..rows.len()
        invariant
            fps@.len() == i,
            forall|k: int| 0 <= k < i ==> (#[trigger] fps@[k])@ == rows@[k].1@,
    {
        fps.push(owned(rows[i].1.as_str()));
    }
    assert(views(fps@) =~= Seq::new(rows@.len(), |i: int| rows@[i].1@));
    Ok(fps)
}

/// A journal decision's context must be bound to the selection that made
/// it: the current schema, and the wall time of the selecting event.
pub fn context_bound(schema: &str, selected_wall_time: &str, event_wall_time: &str) -> (r: Result<(), String>)
    ensures
        match r {
            Ok(()) => schema@ == "decision-context-v2"@ && selected_wall_time@ == event_wall_time@,
            Err(e) => !(schema@ == "decision-context-v2"@ && selected_wall_time@ == event_wall_time@)
                && e@ == "journal decision context is not bound to selection"@,
        },
{
    if !crate::text::str_eq(schema, "decision-context-v2") || !crate::text::str_eq(selected_wall_time, event_wall_time) {
        return Err(owned("journal decision context is not bound to selection"));
    }
    Ok(())
}

/// A journal entry must stay within 512 token units.
pub fn journal_within_limit(units: usize) -> (r: Result<(), String>)
    ensures
        match r {
            Ok(()) => units <= 512,
            Err(e) => units > 512 && e@ == "journal document exceeds 512 conservative token units"@,
        },
{
    if units > 512 {
        Err(owned("journal document exceeds 512 conservative token units"))
    } else {
        Ok(())
    }
}

} // verus!
