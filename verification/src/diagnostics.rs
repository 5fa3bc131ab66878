//! The `doctor` and `workspace` reports, from the facts the caller gathered
//! from the store, the configuration and the file system.
use vstd::prelude::*;
use crate::diagnostics_support::{
    bool_text_spec, count_item, join_bools, join_counts, join_or_none, join_or_none_spec,
    option_number,
};
use crate::number::{decimal, i64_text, signed_decimal, u64_text};
use crate::config_registry::{json_quoted, json_string};
use crate::text::{join, owned, push_str, views};

verus! {

/// What `doctor` reports on.
pub struct DoctorFacts {
    pub missing_tables: Vec<String>,
    pub table_counts: Vec<(String, i64)>,
    pub lease: String,
    pub endpoint: String,
    pub workspace_root: String,
    pub prompt_cap: Option<u64>,
    pub live_seconds: Option<u64>,
    pub missing_dirs: Vec<String>,
    pub unfinished: i64,
    pub orphan_prompts: i64,
}

/// The warnings: missing tables, missing workspace directories, prompt
/// frames whose decision is gone.
pub open spec fn warnings_spec(missing_tables: nat, missing_dirs: nat, orphans: i64) -> Seq<Seq<char>> {
    let a: Seq<Seq<char>> = if missing_tables > 0 { seq!["missing-tables"@] } else { Seq::empty() };
    let b: Seq<Seq<char>> = if missing_dirs > 0 { seq!["missing-workspace-dirs"@] } else { Seq::empty() };
    let c: Seq<Seq<char>> = if orphans > 0 { seq!["orphan-prompt-refs"@] } else { Seq::empty() };
    a + b + c
}

/// What `doctor` warns about.
pub fn doctor_warnings(facts: &DoctorFacts) -> (r: Vec<String>)
    ensures
        views(r@) == warnings_spec(facts.missing_tables@.len(), facts.missing_dirs@.len(), facts.orphan_prompts),
{
    let mut r: Vec<String> = Vec::new();
    if facts.missing_tables.len() > 0 {
        r.push(owned("missing-tables"));
    }
    if facts.missing_dirs.len() > 0 {
        r.push(owned("missing-workspace-dirs"));
    }
    if facts.orphan_prompts > 0 {
        r.push(owned("orphan-prompt-refs"));
    }
    assert(views(r@) == warnings_spec(facts.missing_tables@.len(), facts.missing_dirs@.len(), facts.orphan_prompts));
    r
}

pub open spec fn number_or_unknown(v: Option<u64>) -> Seq<char> {
    match v {
        Some(n) => decimal(n as nat),
        None => "unknown"@,
    }
}

/// The text report of `doctor`, one line per concern.
pub open spec fn doctor_spec(
    missing_tables: Seq<Seq<char>>,
    counts: Seq<(Seq<char>, i64)>,
    lease: Seq<char>,
    endpoint: Seq<char>,
    root: Seq<char>,
    prompt_cap: Option<u64>,
    live_seconds: Option<u64>,
    missing_dirs: Seq<Seq<char>>,
    unfinished: i64,
    orphans: i64,
) -> Seq<char> {
    let warnings = warnings_spec(missing_tables.len(), missing_dirs.len(), orphans);
    "doctor: "@ + (if warnings.len() == 0 { "ok"@ } else { "warn"@ }) + "\nschema: tables="@
        + decimal(counts.len()) + " missing="@ + join_or_none_spec(missing_tables)
        + "\ntable_counts: "@ + join(Seq::new(counts.len(), |i: int| count_item(counts[i].0, counts[i].1)), ","@)
        + "\n"@ + lease + "\nendpoint: "@ + endpoint + "\nworkspace: root="@ + root + " missing="@
        + join_or_none_spec(missing_dirs) + " prompt_cap="@ + number_or_unknown(prompt_cap)
        + " live_seconds="@ + number_or_unknown(live_seconds) + "\ndecisions: unfinished="@
        + signed_decimal(unfinished as int) + "\nprompt_refs: orphan="@ + signed_decimal(orphans as int)
        + "\nwarnings: "@ + join_or_none_spec(warnings)
}

/// The `doctor` report as text.
pub fn doctor_text(facts: &DoctorFacts) -> (r: String)
    ensures
        r@ == doctor_spec(
            views(facts.missing_tables@),
            Seq::new(facts.table_counts@.len(), |i: int| (facts.table_counts@[i].0@, facts.table_counts@[i].1)),
            facts.lease@,
            facts.endpoint@,
            facts.workspace_root@,
            facts.prompt_cap,
            facts.live_seconds,
            views(facts.missing_dirs@),
            facts.unfinished,
            facts.orphan_prompts,
        ),
{
    let warnings = doctor_warnings(facts);
    let mut r = owned("doctor: ");
    push_str(&mut r, if warnings.len() == 0 { "ok" } else { "warn" });
    push_str(&mut r, "\nschema: tables=");
    push_str(&mut r, u64_text(facts.table_counts.len() as u64).as_str());
    push_str(&mut r, " missing=");
    push_str(&mut r, join_or_none(&facts.missing_tables).as_str());
    push_str(&mut r, "\ntable_counts: ");
    let counts = join_counts(&facts.table_counts);
    proof {
        let cs = Seq::new(facts.table_counts@.len(), |i: int| (facts.table_counts@[i].0@, facts.table_counts@[i].1));
        assert(Seq::new(cs.len(), |i: int| count_item(cs[i].0, cs[i].1)) == Seq::new(
            facts.table_counts@.len(),
            |i: int| count_item(facts.table_counts@[i].0@, facts.table_counts@[i].1),
        ));
    }
    push_str(&mut r, counts.as_str());
    push_str(&mut r, "\n");
    push_str(&mut r, facts.lease.as_str());
    push_str(&mut r, "\nendpoint: ");
    push_str(&mut r, facts.endpoint.as_str());
    push_str(&mut r, "\nworkspace: root=");
    push_str(&mut r, facts.workspace_root.as_str());
    push_str(&mut r, " missing=");
    push_str(&mut r, join_or_none(&facts.missing_dirs).as_str());
    push_str(&mut r, " prompt_cap=");
    push_str(&mut r, option_number(facts.prompt_cap).as_str());
    push_str(&mut r, " live_seconds=");
    push_str(&mut r, option_number(facts.live_seconds).as_str());
    push_str(&mut r, "\ndecisions: unfinished=");
    push_str(&mut r, i64_text(facts.unfinished).as_str());
    push_str(&mut r, "\nprompt_refs: orphan=");
    push_str(&mut r, i64_text(facts.orphan_prompts).as_str());
    push_str(&mut r, "\nwarnings: ");
    push_str(&mut r, join_or_none(&warnings).as_str());
    r
}

/// What `workspace` reports on.
pub struct WorkspaceFacts {
    pub root: String,
    pub total: i64,
    pub archived: i64,
    pub artifacts: i64,
    pub index_files: u64,
    pub workspace_readme: bool,
    pub records_readme: bool,
    pub missing_dirs: Vec<String>,
}

pub open spec fn workspace_spec(
    root: Seq<char>,
    total: i64,
    archived: i64,
    artifacts: i64,
    index_files: u64,
    workspace_readme: bool,
    records_readme: bool,
    missing: Seq<Seq<char>>,
) -> Seq<char> {
    "workspace: root="@ + root + "\nrecords: total="@ + signed_decimal(total as int) + " archived="@
        + signed_decimal(archived as int) + "\nartifacts: total="@ + signed_decimal(artifacts as int)
        + "\nindexes: files="@ + decimal(index_files as nat) + "\nreadmes: "@ + ("workspace"@
        + "="@ + bool_text_spec(workspace_readme) + ","@ + ("records"@ + "="@ + bool_text_spec(
        records_readme,
    ))) + "\nmissing: "@ + join_or_none_spec(missing)
}

/// The `workspace` report as text.
pub fn workspace_text(facts: &WorkspaceFacts) -> (r: String)
    ensures
        r@ == workspace_spec(
            facts.root@,
            facts.total,
            facts.archived,
            facts.artifacts,
            facts.index_files,
            facts.workspace_readme,
            facts.records_readme,
            views(facts.missing_dirs@),
        ),
{
    let readmes: Vec<(&str, bool)> = vec![("workspace", facts.workspace_readme), ("records", facts.records_readme)];
    let listed = join_bools(&readmes);
    proof {
        let items = Seq::new(readmes@.len(), |i: int| readmes@[i].0@ + "="@ + bool_text_spec(readmes@[i].1));
        assert(readmes@.len() == 2);
        assert(items.len() == 2);
        assert(items.drop_last() == seq![items[0]]);
        assert(join(seq![items[0]], ","@) == items[0]);
        assert(items.last() == items[1]);
        assert(join(items, ","@) == join(items.drop_last(), ","@) + ","@ + items.last());
        assert(join(items, ","@) == items[0] + ","@ + items[1]);
        assert(listed@ == ("workspace"@ + "="@ + bool_text_spec(facts.workspace_readme)) + ","@ + (
        "records"@ + "="@ + bool_text_spec(facts.records_readme)));
    }
    let mut r = owned("workspace: root=");
    push_str(&mut r, facts.root.as_str());
    push_str(&mut r, "\nrecords: total=");
    push_str(&mut r, i64_text(facts.total).as_str());
    push_str(&mut r, " archived=");
    push_str(&mut r, i64_text(facts.archived).as_str());
    push_str(&mut r, "\nartifacts: total=");
    push_str(&mut r, i64_text(facts.artifacts).as_str());
    push_str(&mut r, "\nindexes: files=");
    push_str(&mut r, u64_text(facts.index_files).as_str());
    push_str(&mut r, "\nreadmes: ");
    push_str(&mut r, listed.as_str());
    push_str(&mut r, "\nmissing: ");
    push_str(&mut r, join_or_none(&facts.missing_dirs).as_str());
    r
}

/// A JSON array of strings.
pub open spec fn quoted_list(items: Seq<Seq<char>>) -> Seq<char> {
    "["@ + join(Seq::new(items.len(), |i: int| json_quoted(items[i])), ","@) + "]"@
}

/// A JSON array of `[name, count]` pairs.
pub open spec fn count_pairs(counts: Seq<(Seq<char>, i64)>) -> Seq<char> {
    "["@ + join(
        Seq::new(counts.len(), |i: int| "["@ + json_quoted(counts[i].0) + ","@ + signed_decimal(counts[i].1 as int) + "]"@),
        ","@,
    ) + "]"@
}

pub open spec fn number_or_null(v: Option<u64>) -> Seq<char> {
    match v {
        Some(n) => decimal(n as nat),
        None => "null"@,
    }
}

/// The `doctor` report as a compact JSON object, members in key order.
pub open spec fn doctor_json_spec(
    missing_tables: Seq<Seq<char>>,
    counts: Seq<(Seq<char>, i64)>,
    lease: Seq<char>,
    endpoint: Seq<char>,
    root: Seq<char>,
    prompt_cap: Option<u64>,
    live_seconds: Option<u64>,
    missing_dirs: Seq<Seq<char>>,
    unfinished: i64,
    orphans: i64,
) -> Seq<char> {
    "{\"endpoint\":"@ + json_quoted(endpoint) + ",\"lease\":"@ + json_quoted(lease)
        + ",\"live_campaign_seconds\":"@ + number_or_null(live_seconds) + ",\"missing_dirs\":"@
        + quoted_list(missing_dirs) + ",\"missing_tables\":"@ + quoted_list(missing_tables)
        + ",\"orphan_prompt_refs\":"@ + signed_decimal(orphans as int) + ",\"prompt_max_context_tokens\":"@
        + number_or_null(prompt_cap) + ",\"schema\":"@ + (if missing_tables.len() == 0 { "\"ok\""@ } else { "\"warn\""@ })
        + ",\"table_counts\":"@ + count_pairs(counts) + ",\"unfinished_decisions\":"@
        + signed_decimal(unfinished as int) + ",\"warnings\":"@
        + quoted_list(warnings_spec(missing_tables.len(), missing_dirs.len(), orphans))
        + ",\"workspace_root\":"@ + json_quoted(root) + "}"@
}

fn quoted_list_exec(items: &Vec<String>) -> (r: String)
    ensures
        r@ == quoted_list(views(items@)),
{
    let ghost all = Seq::new(items@.len(), |i: int| json_quoted(items@[i]@));
    let mut body = String::new();
    for i in 0..items.len()
        invariant
            all == Seq::new(items@.len(), |k: int| json_quoted(items@[k]@)),
            body@ == join(all.take(i as int), ","@),
    {
        let q = json_string(items[i].as_str());
        if i > 0 {
            push_str(&mut body, ",");
        }
        push_str(&mut body, q.as_str());
        assert(all.take(i + 1).drop_last() == all.take(i as int));
        assert(all.take(i + 1).last() == q@);
        if i == 0 {
            assert(all.take(0) == Seq::<Seq<char>>::empty());
        }
    }
    assert(all.take(items@.len() as int) == all);
    assert(all == Seq::new(views(items@).len(), |k: int| json_quoted(views(items@)[k])));
    let mut r = owned("[");
    push_str(&mut r, body.as_str());
    push_str(&mut r, "]");
    r
}

fn count_pairs_exec(counts: &Vec<(String, i64)>) -> (r: String)
    ensures
        r@ == count_pairs(Seq::new(counts@.len(), |i: int| (counts@[i].0@, counts@[i].1))),
{
    let ghost cs = Seq::new(counts@.len(), |i: int| (counts@[i].0@, counts@[i].1));
    let ghost all = Seq::new(cs.len(), |i: int| "["@ + json_quoted(cs[i].0) + ","@ + signed_decimal(cs[i].1 as int) + "]"@);
    let mut body = String::new();
    for i in 0..counts.len()
        invariant
            cs == Seq::new(counts@.len(), |k: int| (counts@[k].0@, counts@[k].1)),
            all == Seq::new(cs.len(), |k: int| "["@ + json_quoted(cs[k].0) + ","@ + signed_decimal(cs[k].1 as int) + "]"@),
            body@ == join(all.take(i as int), ","@),
    {
        let mut item = owned("[");
        let q = json_string(counts[i].0.as_str());
        push_str(&mut item, q.as_str());
        push_str(&mut item, ",");
        push_str(&mut item, i64_text(counts[i].1).as_str());
        push_str(&mut item, "]");
        assert(item@ == all[i as int]);
        if i > 0 {
            push_str(&mut body, ",");
        }
        push_str(&mut body, item.as_str());
        assert(all.take(i + 1).drop_last() == all.take(i as int));
        assert(all.take(i + 1).last() == item@);
        if i == 0 {
            assert(all.take(0) == Seq::<Seq<char>>::empty());
        }
    }
    assert(all.take(counts@.len() as int) == all);
    let mut r = owned("[");
    push_str(&mut r, body.as_str());
    push_str(&mut r, "]");
    r
}

fn number_or_null_exec(v: Option<u64>) -> (r: String)
    ensures
        r@ == number_or_null(v),
{
    match v {
        Some(n) => u64_text(n),
        None => owned("null"),
    }
}

/// The `doctor` report as JSON: `schema` is `ok` when no table is missing,
/// else `warn`, beside the facts and the warnings.
pub fn doctor_json(facts: &DoctorFacts) -> (r: String)
    ensures
        r@ == doctor_json_spec(
            views(facts.missing_tables@),
            Seq::new(facts.table_counts@.len(), |i: int| (facts.table_counts@[i].0@, facts.table_counts@[i].1)),
            facts.lease@,
            facts.endpoint@,
            facts.workspace_root@,
            facts.prompt_cap,
            facts.live_seconds,
            views(facts.missing_dirs@),
            facts.unfinished,
            facts.orphan_prompts,
        ),
{
    let warnings = doctor_warnings(facts);
    let mut r = owned("{\"endpoint\":");
    push_str(&mut r, json_string(facts.endpoint.as_str()).as_str());
    push_str(&mut r, ",\"lease\":");
    push_str(&mut r, json_string(facts.lease.as_str()).as_str());
    push_str(&mut r, ",\"live_campaign_seconds\":");
    push_str(&mut r, number_or_null_exec(facts.live_seconds).as_str());
    push_str(&mut r, ",\"missing_dirs\":");
    push_str(&mut r, quoted_list_exec(&facts.missing_dirs).as_str());
    push_str(&mut r, ",\"missing_tables\":");
    push_str(&mut r, quoted_list_exec(&facts.missing_tables).as_str());
    push_str(&mut r, ",\"orphan_prompt_refs\":");
    push_str(&mut r, i64_text(facts.orphan_prompts).as_str());
    push_str(&mut r, ",\"prompt_max_context_tokens\":");
    push_str(&mut r, number_or_null_exec(facts.prompt_cap).as_str());
    push_str(&mut r, ",\"schema\":");
    push_str(&mut r, if facts.missing_tables.len() == 0 { "\"ok\"" } else { "\"warn\"" });
    push_str(&mut r, ",\"table_counts\":");
    push_str(&mut r, count_pairs_exec(&facts.table_counts).as_str());
    push_str(&mut r, ",\"unfinished_decisions\":");
    push_str(&mut r, i64_text(facts.unfinished).as_str());
    push_str(&mut r, ",\"warnings\":");
    push_str(&mut r, quoted_list_exec(&warnings).as_str());
    push_str(&mut r, ",\"workspace_root\":");
    push_str(&mut r, json_string(facts.workspace_root.as_str()).as_str());
    push_str(&mut r, "}");
    r
}

} // verus!
