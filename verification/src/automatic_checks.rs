//! Automatic checks after a committed edit: their tally, and the counting
//! and identities they rely on.
use vstd::prelude::*;
use crate::config_registry::{member, member_exec, DocumentView, FlatDocument, JsonScalar, ScalarView};
use crate::digest::{hex, hex_spec, id_spec};
use crate::report_pending::{json_bytes_document, parse_json_bytes};
use crate::text::{chars_of, count_exec, count_from, str_eq, utf8_text};

verus! {

/// How many checks were scheduled and how many passed.
#[derive(Debug, PartialEq, Eq)]
pub struct CheckReduction {
    pub scheduled: usize,
    pub passed: usize,
}

/// How many times `needle` occurs in `text`, counted left to right
/// without overlap; zero for an empty needle.
pub fn count(text: &str, needle: &str) -> (r: usize)
    ensures
        r == count_from(text@, needle@, 0),
{
    let t = chars_of(text);
    let n = chars_of(needle);
    count_exec(t.as_slice(), n.as_slice())
}

/// `PREFIX-` and 24 hex digits of the SHA-256 of the seed's bytes followed by `source`.
pub fn identity(prefix: &str, seed: &str, source: &[u8]) -> (r: String)
    ensures
        r@ == id_spec(prefix@, vstd::utf8::encode_utf8(seed@) + source@),
{
    let mut bytes = vstd::slice::slice_to_vec(seed.as_bytes());
    let mut tail = vstd::slice::slice_to_vec(source);
    bytes.append(&mut tail);
    crate::digest::id(prefix, bytes.as_slice())
}

/// What a committed edit left: the file it wrote (with the bytes and mode
/// it intended and the revision recorded), and every path it touched.
pub struct EffectFact {
    pub path: String,
    pub intended: Vec<u8>,
    pub mode: u32,
    pub revision: Vec<u8>,
    pub targets: Vec<String>,
}

/// A member of the parameters, as a text.
pub open spec fn text_member(values: Seq<(Seq<char>, ScalarView)>, key: Seq<char>) -> Option<Seq<char>> {
    match member(values, key) {
        Some(ScalarView::Text(t)) => Some(t),
        _ => None,
    }
}

/// A member of the parameters, as a count (`u64::MAX` when it is not a
/// non-negative integer), as the machine's `usize` takes it.
pub open spec fn count_member(values: Seq<(Seq<char>, ScalarView)>, key: Seq<char>) -> usize {
    match member(values, key) {
        Some(ScalarView::Number(Some(n))) => n as usize,
        _ => u64::MAX as usize,
    }
}

pub open spec fn or_empty(t: Option<Seq<char>>) -> Seq<char> {
    match t {
        Some(t) => t,
        None => Seq::empty(),
    }
}

/// `path` is one of the texts of `items`.
pub open spec fn allowed(items: Seq<Option<Seq<char>>>, path: Seq<char>) -> bool {
    exists|k: int| 0 <= k < items.len() && #[trigger] items[k] == Some(path)
}

/// Every target is among the texts of the `allowed_paths` array.
pub open spec fn collateral_ok(values: Seq<(Seq<char>, ScalarView)>, targets: Seq<Seq<char>>) -> bool {
    match member(values, "allowed_paths"@) {
        Some(ScalarView::Array(items)) => forall|t: int| 0 <= t < targets.len() ==> allowed(items, #[trigger] targets[t]),
        _ => false,
    }
}

/// The verdict of an obligation of kind `kind` with JSON `parameters` on a
/// committed edit that left `bytes` with `mode` (whose digest is `source`).
/// The journal, memory and report kinds are judged by their own checks,
/// whose verdict is `delegated`; unknown kinds fail.
pub open spec fn evaluate_spec(
    kind: Seq<char>,
    parameters: Seq<u8>,
    fact: EffectFact,
    bytes: Seq<u8>,
    mode: u32,
    source: Seq<u8>,
    delegated: bool,
) -> bool {
    match json_bytes_document(parameters) {
        DocumentView::Invalid(_, _) => false,
        DocumentView::NotObject => if kind == "workspace-byte"@ || kind == "workspace-content"@ || kind == "workspace-collateral"@ {
            false
        } else if kind == "managed-journal"@ || kind == "managed-memory"@ || kind == "managed-report"@ {
            delegated
        } else {
            false
        },
        DocumentView::Object(values) => if kind == "workspace-byte"@ {
            &&& text_member(values, "path"@) == Some(fact.path@)
            &&& text_member(values, "sha256"@) == Some(hex_spec(source))
            &&& bytes == fact.intended@
            &&& mode == fact.mode
            &&& source == fact.revision@
        } else if kind == "workspace-content"@ {
            &&& text_member(values, "path"@) == Some(fact.path@)
            &&& vstd::utf8::valid_utf8(bytes)
            &&& count_from(vstd::utf8::decode_utf8(bytes), or_empty(text_member(values, "old"@)), 0) == count_member(values, "old_count"@)
            &&& count_from(vstd::utf8::decode_utf8(bytes), or_empty(text_member(values, "new"@)), 0) == count_member(values, "new_count"@)
        } else if kind == "workspace-collateral"@ {
            collateral_ok(values, crate::text::views(fact.targets@))
        } else if kind == "managed-journal"@ || kind == "managed-memory"@ || kind == "managed-report"@ {
            delegated
        } else {
            false
        },
    }
}

fn text_of(values: &Vec<(String, JsonScalar)>, key: &str) -> (r: Option<String>)
    ensures
        match r {
            Some(t) => text_member(crate::config_registry::entry_views(values@), key@) == Some(t@),
            None => text_member(crate::config_registry::entry_views(values@), key@) is None,
        },
{
    match member_exec(values, key) {
        Some(JsonScalar::Text(t)) => Some(crate::text::owned(t.as_str())),
        _ => None,
    }
}

fn count_of(values: &Vec<(String, JsonScalar)>, key: &str) -> (r: usize)
    ensures
        r == count_member(crate::config_registry::entry_views(values@), key@),
{
    match member_exec(values, key) {
        Some(JsonScalar::Number(Some(n))) => *n as usize,
        _ => u64::MAX as usize,
    }
}

pub(crate) fn same_bytes(a: &[u8], b: &[u8]) -> (r: bool)
    ensures
        r == (a@ == b@),
{
    if a.len() != b.len() {
        return false;
    }
    for i in 0..a.len()
        invariant
            a@.len() == b@.len(),
            forall|j: int| 0 <= j < i ==> a@[j] == b@[j],
    {
        if a[i] != b[i] {
            return false;
        }
    }
    assert(a@ =~= b@);
    true
}

fn collateral_exec(values: &Vec<(String, JsonScalar)>, targets: &Vec<String>) -> (r: bool)
    ensures
        r == collateral_ok(crate::config_registry::entry_views(values@), crate::text::views(targets@)),
{
    let items = match member_exec(values, "allowed_paths") {
        Some(JsonScalar::Array(items)) => items,
        _ => return false,
    };
    let ghost iv = Seq::new(items@.len(), |i: int| crate::args::opt_view(items@[i]));
    let ghost tv = crate::text::views(targets@);
    for t in 0..targets.len()
        invariant
            iv == Seq::new(items@.len(), |i: int| crate::args::opt_view(items@[i])),
            tv == crate::text::views(targets@),
            member(crate::config_registry::entry_views(values@), "allowed_paths"@) == Some(ScalarView::Array(iv)),
            forall|u: int| 0 <= u < t ==> allowed(iv, #[trigger] tv[u]),
    {
        let mut found = false;
        for k in 0..items.len()
            invariant
                iv == Seq::new(items@.len(), |i: int| crate::args::opt_view(items@[i])),
                tv == crate::text::views(targets@),
                t < targets@.len(),
                found == exists|j: int| 0 <= j < k && #[trigger] iv[j] == Some(tv[t as int]),
        {
            if let Some(a) = &items[k] {
                if str_eq(a.as_str(), targets[t].as_str()) {
                    found = true;
                }
            }
            assert(found == exists|j: int| 0 <= j < k + 1 && #[trigger] iv[j] == Some(tv[t as int])) by {
                if iv[k as int] == Some(tv[t as int]) {
                    assert(items@[k as int] is Some);
                }
            }
        }
        if !found {
            assert(!allowed(iv, tv[t as int]));
            return false;
        }
        assert(allowed(iv, tv[t as int]));
    }
    true
}

/// Judges one obligation against a committed edit (see `evaluate_spec`).
pub fn evaluate(
    kind: &str,
    parameters: &[u8],
    fact: &EffectFact,
    bytes: &[u8],
    mode: u32,
    source: &[u8],
    delegated: bool,
) -> (r: bool)
    ensures
        r == evaluate_spec(kind@, parameters@, *fact, bytes@, mode, source@, delegated),
{
    let values = match parse_json_bytes(parameters) {
        FlatDocument::Invalid(_, _) => return false,
        FlatDocument::NotObject => {
            if str_eq(kind, "workspace-byte") || str_eq(kind, "workspace-content") || str_eq(kind, "workspace-collateral") {
                return false;
            }
            if str_eq(kind, "managed-journal") || str_eq(kind, "managed-memory") || str_eq(kind, "managed-report") {
                return delegated;
            }
            return false;
        },
        FlatDocument::Object(values) => values,
    };
    if str_eq(kind, "workspace-byte") {
        let path_ok = match text_of(&values, "path") {
            Some(p) => str_eq(p.as_str(), fact.path.as_str()),
            None => false,
        };
        let digest_ok = match text_of(&values, "sha256") {
            Some(h) => str_eq(h.as_str(), hex(source).as_str()),
            None => false,
        };
        path_ok && digest_ok && same_bytes(bytes, fact.intended.as_slice()) && mode == fact.mode
            && same_bytes(source, fact.revision.as_slice())
    } else if str_eq(kind, "workspace-content") {
        let path_ok = match text_of(&values, "path") {
            Some(p) => str_eq(p.as_str(), fact.path.as_str()),
            None => false,
        };
        if !path_ok {
            return false;
        }
        let text = match utf8_text(bytes) {
            Some(t) => t,
            None => return false,
        };
        let old = match text_of(&values, "old") {
            Some(t) => t,
            None => String::new(),
        };
        let new = match text_of(&values, "new") {
            Some(t) => t,
            None => String::new(),
        };
        count(text.as_str(), old.as_str()) == count_of(&values, "old_count")
            && count(text.as_str(), new.as_str()) == count_of(&values, "new_count")
    } else if str_eq(kind, "workspace-collateral") {
        collateral_exec(&values, &fact.targets)
    } else if str_eq(kind, "managed-journal") || str_eq(kind, "managed-memory") || str_eq(kind, "managed-report") {
        delegated
    } else {
        false
    }
}

/// A workspace-byte obligation passes only on the file it names: its
/// parameters are a JSON object whose `path` is the edited file's path and
/// whose `sha256` is the hex digest of the source, and the committed bytes,
/// mode and revision are the intended ones.
pub proof fn lemma_byte_check_needs_the_edited_file(
    parameters: Seq<u8>,
    fact: EffectFact,
    bytes: Seq<u8>,
    mode: u32,
    source: Seq<u8>,
    delegated: bool,
)
    requires
        evaluate_spec("workspace-byte"@, parameters, fact, bytes, mode, source, delegated),
    ensures
        match json_bytes_document(parameters) {
            DocumentView::Object(values) => {
                &&& member(values, "path"@) == Some(ScalarView::Text(fact.path@))
                &&& member(values, "sha256"@) == Some(ScalarView::Text(hex_spec(source)))
            },
            _ => false,
        },
        bytes == fact.intended@,
        mode == fact.mode,
        source == fact.revision@,
{
}

/// A workspace-content obligation passes only on UTF-8 bytes of the file
/// it names.
pub proof fn lemma_content_check_needs_the_edited_file(
    parameters: Seq<u8>,
    fact: EffectFact,
    bytes: Seq<u8>,
    mode: u32,
    source: Seq<u8>,
    delegated: bool,
)
    requires
        evaluate_spec("workspace-content"@, parameters, fact, bytes, mode, source, delegated),
    ensures
        match json_bytes_document(parameters) {
            DocumentView::Object(values) => {
                &&& member(values, "path"@) == Some(ScalarView::Text(fact.path@))
                &&& count_from(vstd::utf8::decode_utf8(bytes), or_empty(text_member(values, "old"@)), 0)
                    == count_member(values, "old_count"@)
                &&& count_from(vstd::utf8::decode_utf8(bytes), or_empty(text_member(values, "new"@)), 0)
                    == count_member(values, "new_count"@)
            },
            _ => false,
        },
        vstd::utf8::valid_utf8(bytes),
{
    reveal_strlit("workspace-byte");
    reveal_strlit("workspace-content");
    assert("workspace-content"@[10] != "workspace-byte"@[10]);
}

/// A workspace-collateral obligation passes only when every target of the
/// edit is a text of the parameters' `allowed_paths` array (`allowed`: some
/// element of the array is that text).
pub proof fn lemma_collateral_targets_are_allowed(
    parameters: Seq<u8>,
    fact: EffectFact,
    bytes: Seq<u8>,
    mode: u32,
    source: Seq<u8>,
    delegated: bool,
)
    requires
        evaluate_spec("workspace-collateral"@, parameters, fact, bytes, mode, source, delegated),
    ensures
        match json_bytes_document(parameters) {
            DocumentView::Object(values) => match member(values, "allowed_paths"@) {
                Some(ScalarView::Array(items)) => forall|t: int|
                    0 <= t < fact.targets@.len() ==> allowed(items, #[trigger] fact.targets@[t]@),
                _ => false,
            },
            _ => false,
        },
{
    reveal_strlit("workspace-byte");
    reveal_strlit("workspace-content");
    reveal_strlit("workspace-collateral");
    assert("workspace-collateral"@[10] != "workspace-byte"@[10]);
    assert("workspace-collateral"@[12] != "workspace-content"@[12]);
    reveal_strlit("managed-journal");
    reveal_strlit("managed-memory");
    reveal_strlit("managed-report");
    assert("managed-journal"@[0] != "workspace-collateral"@[0]);
    assert("managed-memory"@[0] != "workspace-collateral"@[0]);
    assert("managed-report"@[0] != "workspace-collateral"@[0]);
    if let DocumentView::Object(values) = json_bytes_document(parameters) {
        if let Some(ScalarView::Array(items)) = member(values, "allowed_paths"@) {
            assert forall|t: int| 0 <= t < fact.targets@.len() implies allowed(items, #[trigger] fact.targets@[t]@) by {
                assert(crate::text::views(fact.targets@)[t] == fact.targets@[t]@);
                assert(allowed(items, crate::text::views(fact.targets@)[t]));
            }
        }
    }
}

/// Parameters that are not JSON fail every obligation, and an obligation
/// of a kind no evaluator knows never passes.
pub proof fn lemma_unreadable_or_unknown_fails(
    kind: Seq<char>,
    parameters: Seq<u8>,
    fact: EffectFact,
    bytes: Seq<u8>,
    mode: u32,
    source: Seq<u8>,
    delegated: bool,
)
    ensures
        json_bytes_document(parameters) is Invalid ==> !evaluate_spec(kind, parameters, fact, bytes, mode, source, delegated),
        (kind != "workspace-byte"@ && kind != "workspace-content"@ && kind != "workspace-collateral"@
            && kind != "managed-journal"@ && kind != "managed-memory"@ && kind != "managed-report"@)
            ==> !evaluate_spec(kind, parameters, fact, bytes, mode, source, delegated),
        (kind == "managed-journal"@ || kind == "managed-memory"@ || kind == "managed-report"@)
            && evaluate_spec(kind, parameters, fact, bytes, mode, source, delegated) ==> delegated,
{
    reveal_strlit("workspace-byte");
    reveal_strlit("workspace-content");
    reveal_strlit("workspace-collateral");
    reveal_strlit("managed-journal");
    reveal_strlit("managed-memory");
    reveal_strlit("managed-report");
    assert("managed-journal"@[0] != "workspace-byte"@[0]);
    assert("managed-memory"@[0] != "workspace-byte"@[0]);
    assert("managed-report"@[0] != "workspace-byte"@[0]);
    assert("managed-journal"@[0] != "workspace-content"@[0]);
    assert("managed-memory"@[0] != "workspace-content"@[0]);
    assert("managed-report"@[0] != "workspace-content"@[0]);
    assert("managed-journal"@[0] != "workspace-collateral"@[0]);
    assert("managed-memory"@[0] != "workspace-collateral"@[0]);
    assert("managed-report"@[0] != "workspace-collateral"@[0]);
}

} // verus!
