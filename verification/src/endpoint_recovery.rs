//! Waits on the endpoint that a changed endpoint configuration releases,
//! and the token that stands for the endpoint credential.
use vstd::prelude::*;
use crate::config_registry::{json_document, member, member_exec, parse_json, DocumentView, FlatDocument, JsonScalar, ScalarView};
use crate::digest::{hex, hex_spec, sha256, sha256_of};
use crate::text::{owned, push_str, str_eq, views};

verus! {

/// The bytes hashed for a credential: a fixed domain tag, a zero byte, the credential.
pub open spec fn credential_bytes(value: Seq<char>) -> Seq<u8> {
    vstd::utf8::encode_utf8("lkjagent:endpoint-credential:v1\0"@) + vstd::utf8::encode_utf8(value)
}

/// `absent`, or `sha256:` and the hex digest of the tagged credential: the
/// configuration fingerprint changes with the credential without holding it.
pub fn credential_token(value: Option<&str>) -> (r: String)
    ensures
        r@ == match value {
            None => "absent"@,
            Some(v) => "sha256:"@ + hex_spec(sha256_of(credential_bytes(v@))),
        },
{
    match value {
        None => owned("absent"),
        Some(v) => {
            let mut bytes = vstd::slice::slice_to_vec("lkjagent:endpoint-credential:v1\0".as_bytes());
            let mut tail = vstd::slice::slice_to_vec(v.as_bytes());
            bytes.append(&mut tail);
            let mut r = owned("sha256:");
            push_str(&mut r, hex(sha256(bytes.as_slice()).as_slice()).as_str());
            r
        },
    }
}

/// A wait recorded under another endpoint configuration: its payload does
/// not name the current configuration fingerprint.
pub open spec fn wait_changed(current: Seq<char>, payload: Seq<char>) -> Result<bool, Seq<char>> {
    match json_document(payload) {
        DocumentView::Invalid(e, _) => Err(e),
        DocumentView::NotObject => Ok(true),
        DocumentView::Object(values) => Ok(
            member(values, "endpoint_condition_fingerprint"@) != Some(ScalarView::Text(current)),
        ),
    }
}

/// The labels of the changed waits among the first `n` rows, or the first
/// payload that is not JSON.
pub open spec fn changed_upto(current: Seq<char>, rows: Seq<(Seq<char>, Seq<char>)>, n: int) -> Result<Seq<Seq<char>>, Seq<char>>
    decreases n,
{
    if n <= 0 {
        Ok(Seq::empty())
    } else {
        match changed_upto(current, rows, n - 1) {
            Err(e) => Err(e),
            Ok(labels) => match wait_changed(current, rows[n - 1].1) {
                Err(e) => Err(e),
                Ok(true) => Ok(labels.push(rows[n - 1].0)),
                Ok(false) => Ok(labels),
            },
        }
    }
}

pub open spec fn row_views(rows: Seq<(String, String)>) -> Seq<(Seq<char>, Seq<char>)> {
    Seq::new(rows.len(), |i: int| (rows[i].0@, rows[i].1@))
}

proof fn lemma_error_persists(current: Seq<char>, rows: Seq<(Seq<char>, Seq<char>)>, n: int)
    requires
        0 <= n <= rows.len(),
        changed_upto(current, rows, n) is Err,
    ensures
        changed_upto(current, rows, rows.len() as int) == changed_upto(current, rows, n),
    decreases rows.len() - n,
{
    if n < rows.len() {
        lemma_error_persists(current, rows, n + 1);
    }
}

/// Of the waiting recovery cells (label and payload), those recorded under
/// another endpoint configuration than `current`; an error for a payload
/// that is not JSON.
pub fn changed_waits(current: &str, rows: &Vec<(String, String)>) -> (r: Result<Vec<String>, String>)
    ensures
        match r {
            Ok(labels) => changed_upto(current@, row_views(rows@), rows@.len() as int) == Ok::<Seq<Seq<char>>, Seq<char>>(views(labels@)),
            Err(e) => changed_upto(current@, row_views(rows@), rows@.len() as int) == Err::<Seq<Seq<char>>, Seq<char>>(e@),
        },
{
    let ghost rv = row_views(rows@);
    let mut labels: Vec<String> = Vec::new();
    assert(views(labels@) == Seq::<Seq<char>>::empty());
    for i in 0..rows.len()
        invariant
            rv == row_views(rows@),
            changed_upto(current@, rv, i as int) == Ok::<Seq<Seq<char>>, Seq<char>>(views(labels@)),
    {
        let changed = match parse_json(rows[i].1.as_str()) {
            FlatDocument::Invalid(e, _) => {
                proof {
                    lemma_error_persists(current@, rv, i + 1);
                }
                return Err(e);
            },
            FlatDocument::NotObject => true,
            FlatDocument::Object(values) => match member_exec(&values, "endpoint_condition_fingerprint") {
                Some(JsonScalar::Text(saved)) => !str_eq(saved.as_str(), current),
                _ => true,
            },
        };
        if changed {
            let ghost before = views(labels@);
            labels.push(rows[i].0.clone());
            assert(views(labels@) == before.push(rv[i as int].0));
        }
    }
    Ok(labels)
}

} // verus!
