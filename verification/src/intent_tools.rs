//! Narrowing the tools offered for a turn to what an explicit record intent
//! asks for, and pinning a pending report child when one is due.
use vstd::prelude::*;
use crate::config_registry::{json_document, member, member_exec, parse_json, DocumentView, FlatDocument, JsonScalar, ScalarView};
use crate::text::{chars_of, contains, contains_exec, lower, owned, push_str, starts_with, starts_with_exec, str_eq};

verus! {

/// One parameter field of a tool and whether it is required.
pub struct FieldSpec {
    pub name: String,
    pub required: bool,
}

/// An example value of a tool parameter.
pub struct ExampleParam {
    pub name: String,
    pub value: String,
}

/// A tool as the model is offered it.
pub struct ToolEntry {
    pub name: String,
    pub purpose: String,
    pub field_specs: Vec<FieldSpec>,
    pub required_params: Vec<String>,
    pub optional_params: Vec<String>,
    pub example_params: Vec<ExampleParam>,
}

/// The part of a turn's decision that narrowing touches: the offered
/// tools and the model's token budget.
pub struct ToolDecision {
    pub entries: Vec<ToolEntry>,
    pub model_budget_tokens: Option<u32>,
}

/// A state cell of the matter, as narrowing reads it.
pub struct StateCell {
    pub namespace: String,
    pub name: String,
    pub active: bool,
    pub payload_json: String,
}

pub struct EntryView {
    pub name: Seq<char>,
    pub purpose: Seq<char>,
    pub fields: Seq<(Seq<char>, bool)>,
    pub required: Seq<Seq<char>>,
    pub optional: Seq<Seq<char>>,
    pub examples: Seq<(Seq<char>, Seq<char>)>,
}

pub struct DecisionView {
    pub entries: Seq<EntryView>,
    pub budget: Option<u32>,
}

pub struct CellView {
    pub namespace: Seq<char>,
    pub name: Seq<char>,
    pub active: bool,
    pub payload: Seq<char>,
}

pub open spec fn string_views(v: Seq<String>) -> Seq<Seq<char>> {
    Seq::new(v.len(), |i: int| v[i]@)
}

impl View for ToolEntry {
    type V = EntryView;

    open spec fn view(&self) -> EntryView {
        EntryView {
            name: self.name@,
            purpose: self.purpose@,
            fields: Seq::new(
                self.field_specs@.len(),
                |i: int| (self.field_specs@[i].name@, self.field_specs@[i].required),
            ),
            required: string_views(self.required_params@),
            optional: string_views(self.optional_params@),
            examples: Seq::new(
                self.example_params@.len(),
                |i: int| (self.example_params@[i].name@, self.example_params@[i].value@),
            ),
        }
    }
}

pub open spec fn entry_views(v: Seq<ToolEntry>) -> Seq<EntryView> {
    Seq::new(v.len(), |i: int| v[i]@)
}

impl View for ToolDecision {
    type V = DecisionView;

    open spec fn view(&self) -> DecisionView {
        DecisionView { entries: entry_views(self.entries@), budget: self.model_budget_tokens }
    }
}

pub open spec fn cell_views(v: Seq<StateCell>) -> Seq<CellView> {
    Seq::new(
        v.len(),
        |i: int|
            CellView {
                namespace: v[i].namespace@,
                name: v[i].name@,
                active: v[i].active,
                payload: v[i].payload_json@,
            },
    )
}

/// The objective's bytes read one character per byte, lowered: the ASCII
/// patterns below occur here exactly where they occur in the lossily
/// decoded text.
pub open spec fn byte_text(objective: Seq<u8>) -> Seq<char> {
    lower(Seq::new(objective.len(), |i: int| objective[i] as char))
}

/// The objective asks for a record to be written.
pub open spec fn record_intent(t: Seq<char>) -> bool {
    contains(t, "write_record"@) || starts_with(t, "remember "@) || starts_with(t, "correct "@)
}

/// The entries named `name`, in order.
pub open spec fn named(es: Seq<EntryView>, name: Seq<char>) -> Seq<EntryView>
    decreases es.len(),
{
    if es.len() == 0 {
        Seq::empty()
    } else if es.last().name == name {
        named(es.drop_last(), name).push(es.last())
    } else {
        named(es.drop_last(), name)
    }
}

/// The position of the first entry named `name`.
pub open spec fn first_named(es: Seq<EntryView>, name: Seq<char>) -> Option<int> {
    if exists|k: int| 0 <= k < es.len() && #[trigger] es[k].name == name {
        Some(choose|k: int| 0 <= k < es.len() && es[k].name == name && forall|j: int| 0 <= j < k ==> #[trigger] es[j].name != name)
    } else {
        None
    }
}

/// The payload of the active `report/pending` cell, when there is one.
pub open spec fn pending_payload(cells: Seq<CellView>) -> Option<Seq<char>> {
    if exists|k: int| 0 <= k < cells.len() && pending_cell(#[trigger] cells[k]) {
        let k = choose|k: int| 0 <= k < cells.len() && pending_cell(cells[k]) && forall|j: int| 0 <= j < k ==> !pending_cell(#[trigger] cells[j]);
        Some(cells[k].payload)
    } else {
        None
    }
}

pub open spec fn pending_cell(c: CellView) -> bool {
    c.namespace == "report"@ && c.name == "pending"@ && c.active
}

pub open spec fn limit_cell(c: CellView) -> bool {
    c.namespace == "recovery"@ && c.name == "output-limit"@ && c.active
}

/// The model's output was cut at its limit: replies must be shorter.
pub open spec fn reducing(cells: Seq<CellView>) -> bool {
    exists|k: int| 0 <= k < cells.len() && limit_cell(#[trigger] cells[k])
}

/// The report slug and its first remaining unit, read from a pending payload.
pub open spec fn pending_target(payload: Seq<char>) -> Option<(Seq<char>, Seq<char>)> {
    match json_document(payload) {
        DocumentView::Object(values) => match (member(values, "slug"@), member(values, "remaining_units"@)) {
            (Some(ScalarView::Text(slug)), Some(ScalarView::Array(units))) => if units.len() > 0 {
                match units[0] {
                    Some(unit) => Some((slug, unit)),
                    None => None,
                }
            } else {
                None
            },
            _ => None,
        },
        _ => None,
    }
}

/// The fields a report child is written with.
pub open spec fn child_fields() -> Seq<Seq<char>> {
    seq!["family"@, "title"@, "body"@, "slug"@, "unit"@]
}

/// The kept fields, each now required.
pub open spec fn kept_fields(fs: Seq<(Seq<char>, bool)>) -> Seq<(Seq<char>, bool)>
    decreases fs.len(),
{
    if fs.len() == 0 {
        Seq::empty()
    } else if child_fields().contains(fs.last().0) {
        kept_fields(fs.drop_last()).push((fs.last().0, true))
    } else {
        kept_fields(fs.drop_last())
    }
}

pub open spec fn child_purpose(slug: Seq<char>, unit: Seq<char>, reducing: bool) -> Seq<char> {
    "write only report child slug="@ + slug + " unit="@ + unit
        + "; author a distinct source-linked body "@ + (if reducing {
        "between 190 and 220 words"@
    } else {
        "at least 190 words"@
    }) + "; do not rewrite the map"@
}

pub open spec fn child_examples(slug: Seq<char>, unit: Seq<char>) -> Seq<(Seq<char>, Seq<char>)> {
    seq![
        ("family"@, "report"@),
        ("title"@, "World History: "@ + unit),
        ("body"@, "A distinct source-linked section about "@ + unit + "."@),
        ("slug"@, slug),
        ("unit"@, unit),
    ]
}

/// The record tool pinned to one report child.
pub open spec fn pinned_entry(e: EntryView, slug: Seq<char>, unit: Seq<char>, reducing: bool) -> EntryView {
    EntryView {
        name: e.name,
        purpose: child_purpose(slug, unit, reducing),
        fields: kept_fields(e.fields),
        required: child_fields(),
        optional: Seq::empty(),
        examples: child_examples(slug, unit),
    }
}

/// A pending report child, when one is due, pins the record tool to it.
pub open spec fn pin_spec(d: DecisionView, cells: Seq<CellView>) -> DecisionView {
    match pending_payload(cells) {
        None => d,
        Some(p) => match pending_target(p) {
            None => d,
            Some((slug, unit)) => {
                let r = reducing(cells);
                let d2 = if r {
                    DecisionView { entries: d.entries, budget: Some(4096) }
                } else {
                    d
                };
                match first_named(d2.entries, "write_record"@) {
                    None => d2,
                    Some(k) => DecisionView {
                        entries: d2.entries.update(k, pinned_entry(d2.entries[k], slug, unit, r)),
                        budget: d2.budget,
                    },
                }
            },
        },
    }
}

/// What narrowing makes of a decision.
pub open spec fn narrow_spec(d: DecisionView, objective: Seq<u8>, modify: bool, cells: Seq<CellView>) -> DecisionView {
    let t = byte_text(objective);
    if !record_intent(t) {
        d
    } else if modify || !contains(t, "read "@) {
        pin_spec(DecisionView { entries: named(d.entries, "write_record"@), budget: d.budget }, cells)
    } else {
        pin_spec(d, cells)
    }
}

fn objective_text(objective: &[u8]) -> (r: Vec<char>)
    ensures
        r@ == byte_text(objective@),
{
    let mut r: Vec<char> = Vec::new();
    for i in 0..objective.len()
        invariant
            r@ == byte_text(objective@.take(i as int)),
    {
        let c = objective[i] as char;
        r.push(crate::text::lower_char_exec(c));
        assert(byte_text(objective@.take(i + 1)) == byte_text(objective@.take(i as int)).push(
            crate::text::lower_char(objective@[i as int] as char),
        ));
    }
    assert(objective@.take(objective@.len() as int) == objective@);
    r
}

/// Keeps the entries named `name`, in order.
fn keep_named(entries: &mut Vec<ToolEntry>, name: &str)
    ensures
        entry_views(final(entries)@) == named(entry_views(old(entries)@), name@),
{
    let ghost orig = entry_views(entries@);
    let mut rest: Vec<ToolEntry> = Vec::new();
    std::mem::swap(&mut rest, entries);
    let mut kept: Vec<ToolEntry> = Vec::new();
    let mut i: usize = 0;
    let n = rest.len();
    while rest.len() > 0
        invariant
            orig.len() == n,
            i <= orig.len(),
            rest@.len() + i == orig.len(),
            entry_views(rest@) == orig.skip(i as int),
            entry_views(kept@) == named(orig.take(i as int), name@),
        decreases rest.len(),
    {
        let ghost before = rest@;
        assert(entry_views(before)[0] == orig.skip(i as int)[0]);
        let e = rest.remove(0);
        assert(e@ == orig[i as int]);
        assert(entry_views(rest@) == orig.skip(i + 1)) by {
            assert(rest@ == before.remove(0));
            assert forall|j: int| 0 <= j < rest@.len() implies #[trigger] entry_views(rest@)[j] == orig.skip(i + 1)[j] by {
                assert(rest@[j] == before[j + 1]);
                assert(entry_views(before)[j + 1] == orig.skip(i as int)[j + 1]);
            }
        }
        assert(orig.take(i + 1).drop_last() == orig.take(i as int));
        assert(orig.take(i + 1).last() == orig[i as int]);
        if str_eq(e.name.as_str(), name) {
            let ghost kb = kept@;
            kept.push(e);
            assert(entry_views(kept@) == entry_views(kb).push(orig[i as int]));
        }
        i += 1;
    }
    assert(orig.take(i as int) == orig);
    std::mem::swap(&mut kept, entries);
}

/// The position of the first entry named `name`.
fn first_named_exec(entries: &Vec<ToolEntry>, name: &str) -> (r: Option<usize>)
    ensures
        match r {
            Some(k) => first_named(entry_views(entries@), name@) == Some(k as int),
            None => first_named(entry_views(entries@), name@) is None,
        },
        r matches Some(k) ==> k < entries@.len(),
{
    let ghost es = entry_views(entries@);
    for k in 0..entries.len()
        invariant
            es == entry_views(entries@),
            forall|j: int| 0 <= j < k ==> #[trigger] es[j].name != name@,
    {
        if str_eq(entries[k].name.as_str(), name) {
            assert(es[k as int].name == name@);
            proof {
                let c = choose|c: int| 0 <= c < es.len() && es[c].name == name@ && forall|j: int| 0 <= j < c ==> #[trigger] es[j].name != name@;
                if c < k {
                } else if c > k {
                }
            }
            return Some(k);
        }
    }
    None
}

/// The payload of the active `report/pending` cell.
fn pending_payload_exec(cells: &Vec<StateCell>) -> (r: Option<&String>)
    ensures
        match r {
            Some(p) => pending_payload(cell_views(cells@)) == Some(p@),
            None => pending_payload(cell_views(cells@)) is None,
        },
{
    let ghost cs = cell_views(cells@);
    for k in 0..cells.len()
        invariant
            cs == cell_views(cells@),
            forall|j: int| 0 <= j < k ==> !pending_cell(#[trigger] cs[j]),
    {
        let c = &cells[k];
        if str_eq(c.namespace.as_str(), "report") && str_eq(c.name.as_str(), "pending") && c.active {
            assert(pending_cell(cs[k as int]));
            proof {
                let m = choose|m: int| 0 <= m < cs.len() && pending_cell(cs[m]) && forall|j: int| 0 <= j < m ==> !pending_cell(#[trigger] cs[j]);
                if m < k {
                } else if m > k {
                }
            }
            return Some(&c.payload_json);
        }
    }
    None
}

/// Whether an active `recovery/output-limit` cell is present.
fn reducing_exec(cells: &Vec<StateCell>) -> (r: bool)
    ensures
        r == reducing(cell_views(cells@)),
{
    let ghost cs = cell_views(cells@);
    for k in 0..cells.len()
        invariant
            cs == cell_views(cells@),
            forall|j: int| 0 <= j < k ==> !limit_cell(#[trigger] cs[j]),
    {
        let c = &cells[k];
        if str_eq(c.namespace.as_str(), "recovery") && str_eq(c.name.as_str(), "output-limit") && c.active {
            assert(limit_cell(cs[k as int]));
            return true;
        }
    }
    false
}

/// The slug and first remaining unit named by a pending payload.
fn pending_target_exec(payload: &str) -> (r: Option<(String, String)>)
    ensures
        match r {
            Some((s, u)) => pending_target(payload@) == Some((s@, u@)),
            None => pending_target(payload@) is None,
        },
{
    let values = match parse_json(payload) {
        FlatDocument::Object(values) => values,
        _ => return None,
    };
    let slug = match member_exec(&values, "slug") {
        Some(JsonScalar::Text(s)) => s.clone(),
        _ => return None,
    };
    match member_exec(&values, "remaining_units") {
        Some(JsonScalar::Array(units)) => {
            if units.len() == 0 {
                return None;
            }
            match &units[0] {
                Some(unit) => Some((slug, unit.clone())),
                None => None,
            }
        },
        _ => None,
    }
}

fn child_field(name: &str) -> (r: bool)
    ensures
        r == child_fields().contains(name@),
{
    let ghost fs = child_fields();
    let r = str_eq(name, "family") || str_eq(name, "title") || str_eq(name, "body") || str_eq(
        name,
        "slug",
    ) || str_eq(name, "unit");
    proof {
        if r {
            if name@ == "family"@ {
                assert(fs[0] == name@);
            } else if name@ == "title"@ {
                assert(fs[1] == name@);
            } else if name@ == "body"@ {
                assert(fs[2] == name@);
            } else if name@ == "slug"@ {
                assert(fs[3] == name@);
            } else {
                assert(fs[4] == name@);
            }
        } else {
            assert forall|i: int| 0 <= i < fs.len() implies fs[i] != name@ by {}
        }
    }
    r
}

/// The kept fields of a record tool, each required.
fn kept_field_specs(fields: &Vec<FieldSpec>) -> (r: Vec<FieldSpec>)
    ensures
        Seq::new(r@.len(), |i: int| (r@[i].name@, r@[i].required)) == kept_fields(
            Seq::new(fields@.len(), |i: int| (fields@[i].name@, fields@[i].required)),
        ),
{
    let ghost all = Seq::new(fields@.len(), |i: int| (fields@[i].name@, fields@[i].required));
    let mut r: Vec<FieldSpec> = Vec::new();
    for i in 0..fields.len()
        invariant
            all == Seq::new(fields@.len(), |i: int| (fields@[i].name@, fields@[i].required)),
            Seq::new(r@.len(), |j: int| (r@[j].name@, r@[j].required)) == kept_fields(all.take(i as int)),
    {
        let ghost before = Seq::new(r@.len(), |j: int| (r@[j].name@, r@[j].required));
        assert(all.take(i + 1).drop_last() == all.take(i as int));
        assert(all.take(i + 1).last() == all[i as int]);
        if child_field(fields[i].name.as_str()) {
            r.push(FieldSpec { name: fields[i].name.clone(), required: true });
            assert(Seq::new(r@.len(), |j: int| (r@[j].name@, r@[j].required)) == before.push((all[i as int].0, true)));
        }
    }
    assert(all.take(fields@.len() as int) == all);
    r
}

fn example(name: &str, value: String) -> (r: ExampleParam)
    ensures
        r.name@ == name@,
        r.value@ == value@,
{
    ExampleParam { name: owned(name), value }
}

/// The record tool pinned to the report child `unit` of `slug`.
fn pin_entry(e: &ToolEntry, slug: &str, unit: &str, reducing: bool) -> (r: ToolEntry)
    ensures
        r@ == pinned_entry(e@, slug@, unit@, reducing),
{
    let fields = kept_field_specs(&e.field_specs);
    let required: Vec<String> = vec![
        owned("family"),
        owned("title"),
        owned("body"),
        owned("slug"),
        owned("unit"),
    ];
    let mut purpose = owned("write only report child slug=");
    push_str(&mut purpose, slug);
    push_str(&mut purpose, " unit=");
    push_str(&mut purpose, unit);
    push_str(&mut purpose, "; author a distinct source-linked body ");
    push_str(&mut purpose, if reducing { "between 190 and 220 words" } else { "at least 190 words" });
    push_str(&mut purpose, "; do not rewrite the map");
    let mut title = owned("World History: ");
    push_str(&mut title, unit);
    let mut body = owned("A distinct source-linked section about ");
    push_str(&mut body, unit);
    push_str(&mut body, ".");
    let examples: Vec<ExampleParam> = vec![
        example("family", owned("report")),
        example("title", title),
        example("body", body),
        example("slug", owned(slug)),
        example("unit", owned(unit)),
    ];
    let r = ToolEntry {
        name: e.name.clone(),
        purpose,
        field_specs: fields,
        required_params: required,
        optional_params: Vec::new(),
        example_params: examples,
    };
    assert(r@.required == child_fields());
    assert(r@.examples == child_examples(slug@, unit@));
    assert(r@.optional == Seq::<Seq<char>>::empty());
    r
}

/// Pins the record tool to the pending report child, when one is due.
#[verifier::spinoff_prover]
#[verifier::rlimit(50)]
fn pin_pending(decision: &mut ToolDecision, cells: &Vec<StateCell>)
    ensures
        final(decision)@ == pin_spec(old(decision)@, cell_views(cells@)),
{
    let payload = match pending_payload_exec(cells) {
        None => return,
        Some(p) => p,
    };
    let (slug, unit) = match pending_target_exec(payload.as_str()) {
        None => return,
        Some(t) => t,
    };
    let reducing = reducing_exec(cells);
    if reducing {
        decision.model_budget_tokens = Some(4096);
    }
    let k = match first_named_exec(&decision.entries, "write_record") {
        None => return,
        Some(k) => k,
    };
    let pinned = pin_entry(&decision.entries[k], slug.as_str(), unit.as_str(), reducing);
    let mut entries: Vec<ToolEntry> = Vec::new();
    std::mem::swap(&mut entries, &mut decision.entries);
    let ghost before = entries@;
    entries.set(k, pinned);
    assert(entry_views(entries@) == entry_views(before).update(k as int, pinned@));
    std::mem::swap(&mut entries, &mut decision.entries);
}

/// Narrows the tools of a turn whose objective asks for a record: only the
/// record tool stays unless the objective also asks to read first (and the
/// phase is not modification); with a pending report child, the record tool
/// is pinned to that child and, after an output-limit fault, the model's
/// budget drops to 4096 tokens.
pub fn narrow(decision: &mut ToolDecision, objective: &[u8], modify_phase: bool, cells: &Vec<StateCell>)
    ensures
        final(decision)@ == narrow_spec(old(decision)@, objective@, modify_phase, cell_views(cells@)),
{
    let text = objective_text(objective);
    let wr = chars_of("write_record");
    let remember = chars_of("remember ");
    let correct = chars_of("correct ");
    let read = chars_of("read ");
    let record = contains_exec(text.as_slice(), wr.as_slice()) || starts_with_exec(
        text.as_slice(),
        remember.as_slice(),
    ) || starts_with_exec(text.as_slice(), correct.as_slice());
    if !record {
        return;
    }
    let needs_read = contains_exec(text.as_slice(), read.as_slice());
    if modify_phase || !needs_read {
        keep_named(&mut decision.entries, "write_record");
    }
    pin_pending(decision, cells);
}

} // verus!
