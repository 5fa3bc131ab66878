//! The state cells that workspace records keep: the selector tier of a
//! state key, and the payload a record's cell carries.
use vstd::prelude::*;
use crate::config_registry::{json_quoted, json_string};
use crate::number::{decimal, u64_text};
use crate::text::{chars_of, owned, push_str, split_once, split_once_exec, string_of};

verus! {

/// The tier of a namespace (the part of a state key label before `:`).
pub open spec fn tier_of(namespace: Option<Seq<char>>) -> u8 {
    match namespace {
        Some(n) => if n == "todo"@ {
            35
        } else if n == "calendar"@ {
            36
        } else if n == "routine"@ {
            37
        } else if n == "index"@ {
            38
        } else if n == "proof"@ {
            39
        } else if n == "dev"@ {
            40
        } else if n == "project"@ {
            41
        } else {
            80
        },
        None => 80,
    }
}

pub open spec fn namespace_of(label: Seq<char>) -> Option<Seq<char>> {
    match split_once(label, ":"@) {
        Some((n, _)) => Some(n),
        None => None,
    }
}

/// The selector tier of a record's state key: the planning namespaces
/// come first, in a fixed order; everything else after them.
pub fn selector_tier(label: &str) -> (r: u8)
    ensures
        r == tier_of(namespace_of(label@)),
{
    let c = chars_of(label);
    let colon = chars_of(":");
    let ns = match split_once_exec(c.as_slice(), colon.as_slice()) {
        Some((n, _)) => n,
        None => return 80,
    };
    let n = string_of(ns.as_slice());
    if crate::text::str_eq(n.as_str(), "todo") {
        35
    } else if crate::text::str_eq(n.as_str(), "calendar") {
        36
    } else if crate::text::str_eq(n.as_str(), "routine") {
        37
    } else if crate::text::str_eq(n.as_str(), "index") {
        38
    } else if crate::text::str_eq(n.as_str(), "proof") {
        39
    } else if crate::text::str_eq(n.as_str(), "dev") {
        40
    } else if crate::text::str_eq(n.as_str(), "project") {
        41
    } else {
        80
    }
}

pub open spec fn cell_payload_spec(
    id: Seq<char>,
    kind: Seq<char>,
    title: Seq<char>,
    state: Seq<char>,
    path: Seq<char>,
    label: Seq<char>,
) -> Seq<char> {
    "{\"kind\":"@ + json_quoted(kind) + ",\"path\":"@ + json_quoted(path) + ",\"record_id\":"@
        + json_quoted(id) + ",\"selector_tier\":"@ + decimal(tier_of(namespace_of(label)) as nat)
        + ",\"state\":"@ + json_quoted(state) + ",\"title\":"@ + json_quoted(title) + "}"@
}

/// The JSON payload of a record's state cell for key `label` (members in
/// key order).
pub fn cell_payload(id: &str, kind: &str, title: &str, state: &str, path: &str, label: &str) -> (r: String)
    ensures
        r@ == cell_payload_spec(id@, kind@, title@, state@, path@, label@),
{
    let mut r = owned("{\"kind\":");
    push_str(&mut r, json_string(kind).as_str());
    push_str(&mut r, ",\"path\":");
    push_str(&mut r, json_string(path).as_str());
    push_str(&mut r, ",\"record_id\":");
    push_str(&mut r, json_string(id).as_str());
    push_str(&mut r, ",\"selector_tier\":");
    push_str(&mut r, u64_text(selector_tier(label) as u64).as_str());
    push_str(&mut r, ",\"state\":");
    push_str(&mut r, json_string(state).as_str());
    push_str(&mut r, ",\"title\":");
    push_str(&mut r, json_string(title).as_str());
    push_str(&mut r, "}");
    r
}

} // verus!
