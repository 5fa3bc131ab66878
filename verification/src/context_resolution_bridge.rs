//! Owner resolutions of contradicting context: reading a resolution cell,
//! and the edges that record a conflict or its resolution.
use vstd::prelude::*;
use crate::config_registry::{
    json_document, json_quoted, json_string, member, member_exec, parse_json, DocumentView,
    FlatDocument, JsonScalar, ScalarView,
};
use crate::text::{owned, push_str};

verus! {

/// A resolution: the semantic key it settles and the item that wins.
pub struct Resolution {
    pub semantic_key: String,
    pub winning_item_id: String,
}

pub open spec fn resolution_spec(raw: Seq<char>) -> Result<Option<(Seq<char>, Seq<char>)>, Seq<char>> {
    match json_document(raw) {
        DocumentView::Invalid(e, _) => Err(e),
        DocumentView::NotObject => Ok(None),
        DocumentView::Object(values) => match member(values, "semantic_key"@) {
            Some(ScalarView::Text(k)) => match member(values, "winning_item_id"@) {
                Some(ScalarView::Text(w)) => Ok(Some((k, w))),
                _ => Ok(None),
            },
            _ => Ok(None),
        },
    }
}

/// Reads a resolution cell's payload: none when it does not name both a
/// semantic key and a winning item as texts; the parser's message when it
/// is not JSON.
pub fn resolution_from_json(raw: &str) -> (r: Result<Option<Resolution>, String>)
    ensures
        match (r, resolution_spec(raw@)) {
            (Ok(Some(a)), Ok(Some((k, w)))) => a.semantic_key@ == k && a.winning_item_id@ == w,
            (Ok(None), Ok(None)) => true,
            (Err(e), Err(s)) => e@ == s,
            _ => false,
        },
{
    let values = match parse_json(raw) {
        FlatDocument::Invalid(e, _) => return Err(e),
        FlatDocument::NotObject => return Ok(None),
        FlatDocument::Object(values) => values,
    };
    let semantic_key = match member_exec(&values, "semantic_key") {
        Some(JsonScalar::Text(k)) => owned(k.as_str()),
        _ => return Ok(None),
    };
    let winning_item_id = match member_exec(&values, "winning_item_id") {
        Some(JsonScalar::Text(w)) => owned(w.as_str()),
        _ => return Ok(None),
    };
    Ok(Some(Resolution { semantic_key, winning_item_id }))
}

/// The `contradicts` edges of a conflict: from its first item to each
/// other item, in order.
pub fn conflict_edges(item_ids: &Vec<String>) -> (r: Vec<(String, String)>)
    ensures
        r@.len() == if item_ids@.len() == 0 { 0 } else { item_ids@.len() - 1 },
        forall|i: int| 0 <= i < r@.len() ==> (#[trigger] r@[i]).0@ == item_ids@[0]@
            && r@[i].1@ == item_ids@[i + 1]@,
{
    let mut r: Vec<(String, String)> = Vec::new();
    if item_ids.len() == 0 {
        return r;
    }
    let mut i: usize = 1;
    while i < item_ids.len()
        invariant
            1 <= i <= item_ids@.len(),
            r@.len() == i - 1,
            forall|k: int| 0 <= k < r@.len() ==> (#[trigger] r@[k]).0@ == item_ids@[0]@
                && r@[k].1@ == item_ids@[k + 1]@,
        decreases item_ids.len() - i,
    {
        r.push((owned(item_ids[0].as_str()), owned(item_ids[i].as_str())));
        i = i + 1;
    }
    r
}

/// The label of the state key that resolves `semantic_key` (in the
/// `context` namespace).
pub fn resolve_label(semantic_key: &str) -> (r: String)
    ensures
        r@ == "resolve/"@ + semantic_key@,
{
    let mut r = owned("resolve/");
    push_str(&mut r, semantic_key);
    r
}

/// The payload of a resolution cell (members in key order).
pub fn resolution_payload(semantic_key: &str, winning_item_id: &str) -> (r: String)
    ensures
        r@ == "{\"semantic_key\":"@ + json_quoted(semantic_key@) + ",\"winning_item_id\":"@
            + json_quoted(winning_item_id@) + "}"@,
{
    let mut r = owned("{\"semantic_key\":");
    push_str(&mut r, json_string(semantic_key).as_str());
    push_str(&mut r, ",\"winning_item_id\":");
    push_str(&mut r, json_string(winning_item_id).as_str());
    push_str(&mut r, "}");
    r
}

/// The answer to an owner's resolution.
pub fn resolved_message(semantic_key: &str, winning_item_id: &str) -> (r: String)
    ensures
        r@ == "context resolved: "@ + semantic_key@ + " -> "@ + winning_item_id@,
{
    let mut r = owned("context resolved: ");
    push_str(&mut r, semantic_key);
    push_str(&mut r, " -> ");
    push_str(&mut r, winning_item_id);
    r
}

} // verus!
