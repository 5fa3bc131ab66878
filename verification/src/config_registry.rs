//! The rules of `lkjagent.json`: a flat JSON object of known keys, each a
//! non-blank text or an integer within its bounds.
use vstd::prelude::*;
use serde_json::Value as V;
use crate::text::{chars_of, is_control, is_control_exec, owned, push_str, str_eq, trim};

verus! {

/// A JSON value as far as the configuration rules look into it; a number
/// keeps its value when it is a non-negative integer that fits a `u64`.
pub enum JsonScalar {
    Null,
    Bool(bool),
    Number(Option<u64>),
    Text(String),
    /// An array: for each element, its text when it is a string.
    Array(Vec<Option<String>>),
    Object,
}

/// The result of reading a configuration document as JSON.
pub enum FlatDocument {
    /// A JSON object: its members in key order.
    Object(Vec<(String, JsonScalar)>),
    /// Valid JSON that is not an object.
    NotObject,
    /// Not JSON: the parser's message (`Display`) and its debug form (`Debug`).
    Invalid(String, String),
}

pub enum ScalarView {
    Null,
    Bool(bool),
    Number(Option<u64>),
    Text(Seq<char>),
    Array(Seq<Option<Seq<char>>>),
    Object,
}

pub enum DocumentView {
    Object(Seq<(Seq<char>, ScalarView)>),
    NotObject,
    Invalid(Seq<char>, Seq<char>),
}

impl View for JsonScalar {
    type V = ScalarView;

    open spec fn view(&self) -> ScalarView {
        match self {
            JsonScalar::Null => ScalarView::Null,
            JsonScalar::Bool(b) => ScalarView::Bool(*b),
            JsonScalar::Number(n) => ScalarView::Number(*n),
            JsonScalar::Text(s) => ScalarView::Text(s@),
            JsonScalar::Array(items) => ScalarView::Array(
                Seq::new(items@.len(), |i: int| crate::args::opt_view(items@[i])),
            ),
            JsonScalar::Object => ScalarView::Object,
        }
    }
}

pub open spec fn entry_views(v: Seq<(String, JsonScalar)>) -> Seq<(Seq<char>, ScalarView)> {
    Seq::new(v.len(), |i: int| (v[i].0@, v[i].1@))
}

impl View for FlatDocument {
    type V = DocumentView;

    open spec fn view(&self) -> DocumentView {
        match self {
            FlatDocument::Object(v) => DocumentView::Object(entry_views(v@)),
            FlatDocument::NotObject => DocumentView::NotObject,
            FlatDocument::Invalid(e, d) => DocumentView::Invalid(e@, d@),
        }
    }
}

/// What `serde_json` reads from a document's text.
pub uninterp spec fn json_document(text: Seq<char>) -> DocumentView;

/// Reads `text` with `serde_json::from_str` into a `serde_json::Value`:
/// its error's message and debug form when that fails, and for an object its members (in
/// the key order of `serde_json::Map`) with each value reduced to its kind,
/// numbers to `Number::as_u64` and arrays to the texts of their string
/// elements.  The contract only names the outcome: it is
/// a function of the text.
#[verifier::external_body]
pub(crate) fn parse_json(text: &str) -> (r: FlatDocument)
    ensures
        r@ == json_document(text@),
{
    match serde_json::from_str::<V>(text) {
        Err(error) => FlatDocument::Invalid(error.to_string(), format!("{error:?}")),
        Ok(V::Object(map)) => FlatDocument::Object(map.into_iter().map(|(key, value)| (key, match value {
            V::Null => JsonScalar::Null, V::Bool(b) => JsonScalar::Bool(b),
            V::Number(n) => JsonScalar::Number(n.as_u64()), V::String(s) => JsonScalar::Text(s),
            V::Array(items) => JsonScalar::Array(items.iter().map(|i| i.as_str().map(String::from)).collect()),
            V::Object(_) => JsonScalar::Object,
        })).collect()),
        Ok(_) => FlatDocument::NotObject,
    }
}

/// How `serde_json` writes one character inside a string: `"` and `\\`
/// behind a backslash, backspace, tab, line feed, form feed and carriage
/// return as `\\b \\t \\n \\f \\r`, any other control character below
/// 0x20 as `\\u00XX` in lowercase hex, everything else as it is.
pub open spec fn json_escape(c: char) -> Seq<char> {
    if c == '"' {
        seq!['\\', '"']
    } else if c == '\\' {
        seq!['\\', '\\']
    } else if c == '\u{8}' {
        seq!['\\', 'b']
    } else if c == '\t' {
        seq!['\\', 't']
    } else if c == '\n' {
        seq!['\\', 'n']
    } else if c == '\u{c}' {
        seq!['\\', 'f']
    } else if c == '\r' {
        seq!['\\', 'r']
    } else if (c as u32) < 0x20 {
        seq!['\\', 'u', '0', '0', crate::digest::hex_digit(((c as u32) / 16) as u8),
            crate::digest::hex_digit(((c as u32) % 16) as u8)]
    } else {
        seq![c]
    }
}

/// The characters of `text`, each written as `json_escape` writes it.
pub open spec fn json_escaped(text: Seq<char>) -> Seq<char>
    decreases text.len(),
{
    if text.len() == 0 {
        Seq::empty()
    } else {
        json_escaped(text.drop_last()) + json_escape(text.last())
    }
}

/// What `serde_json` writes for a string: the escaped text between quotes.
pub open spec fn json_quoted(text: Seq<char>) -> Seq<char> {
    seq!['"'] + json_escaped(text) + seq!['"']
}

/// The JSON string literal of `text` (`serde_json::to_string` of a `&str`,
/// which cannot fail for a string): the text between quotes, escaped by
/// the table of `serde_json::ser::ESCAPE` and `write_char_escape`.
#[verifier::external_body]
pub(crate) fn json_string(text: &str) -> (r: String)
    ensures
        r@ == json_quoted(text@),
{
    serde_json::to_string(text).unwrap_or_default()
}

/// The rule of a configuration key.
#[derive(Clone, Copy)]
pub enum Rule {
    Text,
    Integer { min: u64, max: u64, default: u64 },
}

pub open spec fn rule_spec(key: Seq<char>) -> Option<Rule> {
    if key == "endpoint_url"@ || key == "endpoint_model"@ || key == "endpoint_api_key_env"@ || key
        == "workspace_root"@ {
        Some(Rule::Text)
    } else if key == "endpoint_timeout_seconds"@ {
        Some(Rule::Integer { min: 1, max: 1800, default: 300 })
    } else if key == "live_campaign_seconds"@ {
        Some(Rule::Integer { min: 840, max: 7200, default: 900 })
    } else if key == "prompt_context_tokens"@ {
        Some(Rule::Integer { min: 2048, max: 262144, default: 16384 })
    } else {
        None
    }
}

/// The rule that governs `key`, for the keys the document may hold.
pub fn rule_for(key: &str) -> (r: Option<Rule>)
    ensures
        r == rule_spec(key@),
{
    if str_eq(key, "endpoint_url") || str_eq(key, "endpoint_model") || str_eq(
        key,
        "endpoint_api_key_env",
    ) || str_eq(key, "workspace_root") {
        Some(Rule::Text)
    } else if str_eq(key, "endpoint_timeout_seconds") {
        Some(Rule::Integer { min: 1, max: 1800, default: 300 })
    } else if str_eq(key, "live_campaign_seconds") {
        Some(Rule::Integer { min: 840, max: 7200, default: 900 })
    } else if str_eq(key, "prompt_context_tokens") {
        Some(Rule::Integer { min: 2048, max: 262144, default: 16384 })
    } else {
        None
    }
}

/// The value satisfies the rule: a text that is not blank, or an integer
/// within the bounds.
pub open spec fn fits(rule: Rule, value: ScalarView) -> bool {
    match (rule, value) {
        (Rule::Text, ScalarView::Text(t)) => trim(t).len() > 0,
        (Rule::Integer { min, max, .. }, ScalarView::Number(Some(n))) => min <= n <= max,
        _ => false,
    }
}

/// The complaint about one member, if any.
pub open spec fn entry_error(key: Seq<char>, value: ScalarView) -> Option<Seq<char>> {
    if value is Object {
        Some("lkjagent.json key '"@ + key + "' must not be nested"@)
    } else if value is Array {
        Some("lkjagent.json key '"@ + key + "' must be scalar"@)
    } else {
        match rule_spec(key) {
            None => Some("lkjagent.json contains unknown key '"@ + key + "'"@),
            Some(rule) => if fits(rule, value) {
                None
            } else {
                Some("lkjagent.json key '"@ + key + "' has invalid type or value"@)
            },
        }
    }
}

/// The value of the first member called `key`.
pub open spec fn member(values: Seq<(Seq<char>, ScalarView)>, key: Seq<char>) -> Option<ScalarView>
    decreases values.len(),
{
    if values.len() == 0 {
        None
    } else if values[0].0 == key {
        Some(values[0].1)
    } else {
        member(values.drop_first(), key)
    }
}

/// The first complaint, in member order.
pub open spec fn first_error(values: Seq<(Seq<char>, ScalarView)>) -> Option<Seq<char>>
    decreases values.len(),
{
    if values.len() == 0 {
        None
    } else {
        match entry_error(values[0].0, values[0].1) {
            Some(e) => Some(e),
            None => first_error(values.drop_first()),
        }
    }
}

/// Some character of `t` is a control character.
pub open spec fn has_control(t: Seq<char>) -> bool {
    exists|k: int| 0 <= k < t.len() && #[trigger] is_control(t[k])
}

/// The first complaint in member order, then the check on the workspace root.
pub open spec fn validate_spec(values: Seq<(Seq<char>, ScalarView)>) -> Result<(), Seq<char>> {
    match first_error(values) {
        Some(e) => Err(e),
        None => match member(values, "workspace_root"@) {
            Some(ScalarView::Text(t)) => if has_control(t) {
                Err("workspace root must not contain control characters"@)
            } else {
                Ok(())
            },
            _ => Ok(()),
        },
    }
}

fn blank(s: &str) -> (r: bool)
    ensures
        r == (trim(s@).len() == 0),
{
    let c = chars_of(s);
    let t = crate::text::trim_exec(c.as_slice());
    t.len() == 0
}

fn entry_error_exec(key: &String, value: &JsonScalar) -> (r: Option<String>)
    ensures
        match r {
            Some(e) => entry_error(key@, value@) == Some(e@),
            None => entry_error(key@, value@) is None,
        },
{
    let quoted = |tail: &str| -> (e: String)
        ensures
            e@ == "lkjagent.json key '"@ + key@ + tail@,
        {
            let mut e = owned("lkjagent.json key '");
            push_str(&mut e, key.as_str());
            push_str(&mut e, tail);
            e
        };
    match value {
        JsonScalar::Object => return Some(quoted("' must not be nested")),
        JsonScalar::Array(_) => return Some(quoted("' must be scalar")),
        _ => {},
    }
    match rule_for(key.as_str()) {
        None => {
            let mut e = owned("lkjagent.json contains unknown key '");
            push_str(&mut e, key.as_str());
            push_str(&mut e, "'");
            Some(e)
        },
        Some(rule) => {
            let ok = match (rule, value) {
                (Rule::Text, JsonScalar::Text(t)) => !blank(t.as_str()),
                (Rule::Integer { min, max, .. }, JsonScalar::Number(Some(n))) => *n >= min && *n
                    <= max,
                _ => false,
            };
            if ok {
                None
            } else {
                Some(quoted("' has invalid type or value"))
            }
        },
    }
}

pub fn member_exec<'a>(values: &'a Vec<(String, JsonScalar)>, key: &str) -> (r: Option<&'a JsonScalar>)
    ensures
        match r {
            Some(v) => member(entry_views(values@), key@) == Some(v@),
            None => member(entry_views(values@), key@) is None,
        },
{
    let ghost all = entry_views(values@);
    assert(all.skip(0) == all);
    for i in 0..values.len()
        invariant
            all == entry_views(values@),
            member(all, key@) == member(all.skip(i as int), key@),
    {
        assert(all.skip(i as int).drop_first() == all.skip(i + 1));
        if str_eq(values[i].0.as_str(), key) {
            return Some(&values[i].1);
        }
    }
    None
}

/// Checks the members of a configuration document in order, then that the
/// workspace root holds no control character.
pub fn validate(values: &Vec<(String, JsonScalar)>) -> (r: Result<(), String>)
    ensures
        match r {
            Ok(()) => validate_spec(entry_views(values@)) == Ok::<(), Seq<char>>(()),
            Err(e) => validate_spec(entry_views(values@)) == Err::<(), Seq<char>>(e@),
        },
{
    let ghost all = entry_views(values@);
    assert(all.skip(0) == all);
    let mut i: usize = 0;
    while i < values.len()
        invariant
            i <= values@.len(),
            all == entry_views(values@),
            first_error(all) == first_error(all.skip(i as int)),
        decreases values.len() - i,
    {
        assert(all.skip(i as int).drop_first() == all.skip(i + 1));
        match entry_error_exec(&values[i].0, &values[i].1) {
            Some(e) => {
                return Err(e);
            },
            None => {},
        }
        i += 1;
    }
    assert(first_error(all) is None);
    if let Some(JsonScalar::Text(root)) = member_exec(values, "workspace_root") {
        let c = chars_of(root.as_str());
        for k in 0..c.len()
            invariant
                c@ == root@,
                all == entry_views(values@),
                first_error(all) is None,
                member(all, "workspace_root"@) == Some(ScalarView::Text(root@)),
                forall|j: int| 0 <= j < k ==> !is_control(c@[j]),
        {
            if is_control_exec(c[k]) {
                assert(is_control(root@[k as int]));
                assert(has_control(root@));
                return Err(owned("workspace root must not contain control characters"));
            }
        }
    }
    Ok(())
}

pub open spec fn parse_document_spec(text: Seq<char>) -> Result<Seq<(Seq<char>, ScalarView)>, Seq<char>> {
    match json_document(text) {
        DocumentView::Invalid(e, _) => Err(e),
        DocumentView::NotObject => Err("lkjagent.json must be a flat JSON object"@),
        DocumentView::Object(values) => match validate_spec(values) {
            Err(e) => Err(e),
            Ok(()) => Ok(values),
        },
    }
}

/// The members of a configuration document that follows the rules.
pub fn parse_document(text: &str) -> (r: Result<Vec<(String, JsonScalar)>, String>)
    ensures
        match r {
            Ok(v) => parse_document_spec(text@) == Ok::<Seq<(Seq<char>, ScalarView)>, Seq<char>>(entry_views(v@)),
            Err(e) => parse_document_spec(text@) == Err::<Seq<(Seq<char>, ScalarView)>, Seq<char>>(e@),
        },
{
    match parse_json(text) {
        FlatDocument::Invalid(e, _) => Err(e),
        FlatDocument::NotObject => Err(owned("lkjagent.json must be a flat JSON object")),
        FlatDocument::Object(values) => match validate(&values) {
            Err(e) => Err(e),
            Ok(()) => Ok(values),
        },
    }
}

pub open spec fn number_spec(values: Seq<(Seq<char>, ScalarView)>, key: Seq<char>) -> u64 {
    match member(values, key) {
        Some(ScalarView::Number(Some(n))) => n,
        _ => match rule_spec(key) {
            Some(Rule::Integer { default, .. }) => default,
            _ => 0,
        },
    }
}

/// An integer setting: its value in the document, else its default
/// (0 for a key that is not an integer setting).
pub fn number(values: &Vec<(String, JsonScalar)>, key: &str) -> (r: u64)
    ensures
        r == number_spec(entry_views(values@), key@),
{
    match member_exec(values, key) {
        Some(JsonScalar::Number(Some(n))) => *n,
        _ => match rule_for(key) {
            Some(Rule::Integer { default, .. }) => default,
            _ => 0,
        },
    }
}

/// A text setting, when the document holds it as text.
pub fn text(values: &Vec<(String, JsonScalar)>, key: &str) -> (r: Option<String>)
    ensures
        match r {
            Some(t) => member(entry_views(values@), key@) == Some(ScalarView::Text(t@)),
            None => !(member(entry_views(values@), key@) matches Some(ScalarView::Text(_))),
        },
{
    match member_exec(values, key) {
        Some(JsonScalar::Text(t)) => Some(t.clone()),
        _ => None,
    }
}

} // verus!
