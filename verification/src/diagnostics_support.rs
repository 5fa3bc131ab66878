//! Pieces of the diagnostic reports: lists and counts written on one line.
use vstd::prelude::*;
use crate::number::{decimal, i64_text, signed_decimal, u64_text};
use crate::text::{join, join_strings, owned, push_str, views};

verus! {

pub open spec fn join_or_none_spec(values: Seq<Seq<char>>) -> Seq<char> {
    if values.len() == 0 {
        "none"@
    } else {
        join(values, ","@)
    }
}

/// The values joined by commas, or `none`.
pub fn join_or_none(values: &Vec<String>) -> (r: String)
    ensures
        r@ == join_or_none_spec(views(values@)),
{
    if values.len() == 0 {
        owned("none")
    } else {
        join_strings(values, ",")
    }
}

pub open spec fn count_item(name: Seq<char>, count: i64) -> Seq<char> {
    name + "="@ + signed_decimal(count as int)
}

/// `name=count` items joined by commas.
pub fn join_counts(values: &Vec<(String, i64)>) -> (r: String)
    ensures
        r@ == join(Seq::new(values@.len(), |i: int| count_item(values@[i].0@, values@[i].1)), ","@),
{
    let ghost all = Seq::new(values@.len(), |i: int| count_item(values@[i].0@, values@[i].1));
    let mut r = String::new();
    for i in 0..values.len()
        invariant
            all == Seq::new(values@.len(), |i: int| count_item(values@[i].0@, values@[i].1)),
            r@ == join(all.take(i as int), ","@),
    {
        assert(all.take(i + 1).drop_last() == all.take(i as int));
        if i > 0 {
            push_str(&mut r, ",");
        }
        push_str(&mut r, values[i].0.as_str());
        push_str(&mut r, "=");
        push_str(&mut r, i64_text(values[i].1).as_str());
    }
    assert(all.take(values@.len() as int) == all);
    r
}

pub open spec fn bool_text_spec(b: bool) -> Seq<char> {
    if b {
        "true"@
    } else {
        "false"@
    }
}

/// `name=true|false` items joined by commas.
pub fn join_bools(values: &Vec<(&str, bool)>) -> (r: String)
    ensures
        r@ == join(Seq::new(values@.len(), |i: int| values@[i].0@ + "="@ + bool_text_spec(values@[i].1)), ","@),
{
    let ghost all = Seq::new(values@.len(), |i: int| values@[i].0@ + "="@ + bool_text_spec(values@[i].1));
    let mut r = String::new();
    for i in 0..values.len()
        invariant
            all == Seq::new(values@.len(), |i: int| values@[i].0@ + "="@ + bool_text_spec(values@[i].1)),
            r@ == join(all.take(i as int), ","@),
    {
        assert(all.take(i + 1).drop_last() == all.take(i as int));
        if i > 0 {
            push_str(&mut r, ",");
        }
        push_str(&mut r, values[i].0);
        push_str(&mut r, "=");
        push_str(&mut r, if values[i].1 { "true" } else { "false" });
    }
    assert(all.take(values@.len() as int) == all);
    r
}

/// A count, or `unknown`.
pub fn option_number(value: Option<u64>) -> (r: String)
    ensures
        r@ == match value {
            Some(n) => decimal(n as nat),
            None => "unknown"@,
        },
{
    match value {
        Some(n) => u64_text(n),
        None => owned("unknown"),
    }
}

/// A text, or `none`.
pub fn option_text(value: &Option<String>) -> (r: String)
    ensures
        r@ == match value {
            Some(s) => s@,
            None => "none"@,
        },
{
    match value {
        Some(s) => s.clone(),
        None => owned("none"),
    }
}

/// `true`, `false`, or `none`.
pub fn bool_text(value: Option<bool>) -> (r: &'static str)
    ensures
        r@ == match value {
            Some(true) => "true"@,
            Some(false) => "false"@,
            None => "none"@,
        },
{
    match value {
        Some(true) => "true",
        Some(false) => "false",
        None => "none",
    }
}

/// The workspace directories that must exist, relative to the data directory.
pub open spec fn required_dirs() -> Seq<Seq<char>> {
    seq!["."@, "records"@, "artifacts"@, "indexes"@]
}

/// `workspace/DIR` for each of the first `n` required directories found absent.
pub open spec fn missing_upto(present: Seq<bool>, n: int) -> Seq<Seq<char>>
    decreases n,
{
    if n <= 0 {
        Seq::empty()
    } else {
        let pre = missing_upto(present, n - 1);
        if !present[n - 1] {
            pre.push("workspace/"@ + required_dirs()[n - 1])
        } else {
            pre
        }
    }
}

/// `workspace/DIR` for each required directory found absent, in order;
/// `present[i]` says whether the i-th of `.`, `records`, `artifacts` and
/// `indexes` exists.
pub fn missing_dirs(present: [bool; 4]) -> (r: Vec<String>)
    ensures
        views(r@) == missing_upto(present@, 4),
{
    let names: [&str; 4] = [".", "records", "artifacts", "indexes"];
    let mut r: Vec<String> = Vec::new();
    for i in 0..4usize
        invariant
            names@.len() == 4,
            forall|k: int| 0 <= k < 4 ==> (#[trigger] names@[k])@ == required_dirs()[k],
            views(r@) == missing_upto(present@, i as int),
    {
        if !present[i] {
            let mut s = owned("workspace/");
            push_str(&mut s, names[i]);
            let ghost before = views(r@);
            r.push(s);
            assert(views(r@) == before.push("workspace/"@ + required_dirs()[i as int]));
        }
    }
    r
}

} // verus!
