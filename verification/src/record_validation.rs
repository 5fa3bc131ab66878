//! What an authored record (a title and a body written for the workspace)
//! must satisfy before it is stored.
use vstd::prelude::*;
use crate::config_registry::{json_document, parse_json, FlatDocument};
use crate::memory_context::contains_any_exec;
use crate::text::{chars_of, contains, contains_any, is_control, is_control_exec, lower, lower_exec, owned, push_str, trim, trim_exec};

verus! {

/// Credential markers that no stored record may hold (compared in lower case).
pub open spec fn sensitive_markers() -> Seq<Seq<char>> {
    seq![
        "password:"@,
        "password="@,
        "secret:"@,
        "secret="@,
        "token:"@,
        "token="@,
        "api_key:"@,
        "api_key="@,
        "authorization: bearer"@,
    ]
}

/// Markers of rejected or raw harness output (compared in lower case).
pub open spec fn raw_output_markers() -> Seq<Seq<char>> {
    seq![
        "model-output-rejected"@,
        "failed model output"@,
        "harness fault"@,
        "raw harness json"@,
    ]
}

/// The trimmed body opens like a JSON object or array and parses as JSON.
pub open spec fn raw_json_body(body: Seq<char>) -> bool {
    let raw = trim(body);
    &&& raw.len() > 0
    &&& (raw[0] == '{' || raw[0] == '[')
    &&& !(json_document(raw) is Invalid)
}

/// The record holds a credential, a raw JSON body, or rejected output.
pub open spec fn unsafe_record_spec(title: Seq<char>, body: Seq<char>) -> bool {
    let text = lower(title + "\n"@ + body);
    ||| contains_any(text, sensitive_markers())
    ||| raw_json_body(body)
    ||| contains_any(text, raw_output_markers())
}

proof fn lemma_markers(pats: Seq<&str>, ms: Seq<Seq<char>>, l: Seq<char>)
    requires
        pats.len() == ms.len(),
        forall|k: int| 0 <= k < ms.len() ==> ms[k] == (#[trigger] pats[k])@,
    ensures
        (exists|k: int| 0 <= k < pats.len() && contains(l, (#[trigger] pats[k])@))
            == contains_any(l, ms),
{
    if exists|k: int| 0 <= k < pats.len() && contains(l, (#[trigger] pats[k])@) {
        let k = choose|k: int| 0 <= k < pats.len() && contains(l, (#[trigger] pats[k])@);
        assert(contains(l, ms[k]));
    }
    if contains_any(l, ms) {
        let k = choose|k: int| 0 <= k < ms.len() && contains(l, #[trigger] ms[k]);
        assert(contains(l, pats[k]@));
    }
}

/// Whether a record's title and body hold prohibited sensitive or raw
/// output content.
pub fn unsafe_record_text(title: &str, body: &str) -> (r: bool)
    ensures
        r == unsafe_record_spec(title@, body@),
{
    let mut joined = owned(title);
    push_str(&mut joined, "\n");
    push_str(&mut joined, body);
    let c = chars_of(joined.as_str());
    let l = lower_exec(c.as_slice());
    let sensitive: Vec<&str> = vec![
        "password:",
        "password=",
        "secret:",
        "secret=",
        "token:",
        "token=",
        "api_key:",
        "api_key=",
        "authorization: bearer",
    ];
    let raw_markers: Vec<&str> = vec![
        "model-output-rejected",
        "failed model output",
        "harness fault",
        "raw harness json",
    ];
    proof {
        lemma_markers(sensitive@, sensitive_markers(), l@);
        lemma_markers(raw_markers@, raw_output_markers(), l@);
    }
    if contains_any_exec(l.as_slice(), &sensitive) {
        return true;
    }
    let b = chars_of(body);
    let raw = trim_exec(b.as_slice());
    if raw.len() > 0 && (raw[0] == '{' || raw[0] == '[') {
        let mut text = String::new();
        crate::text::push_chars(&mut text, raw.as_slice());
        let parsed = parse_json(text.as_str());
        let valid = match parsed {
            FlatDocument::Invalid(..) => false,
            _ => true,
        };
        if valid {
            return true;
        }
    }
    contains_any_exec(l.as_slice(), &raw_markers)
}

/// Some character of `s` is a control character (a line break among them).
pub open spec fn has_unsafe_title_char(s: Seq<char>) -> bool {
    exists|i: int| 0 <= i < s.len() && #[trigger] is_control(s[i])
}

/// Some control character of `s` other than a newline or a tab.
pub open spec fn has_unsafe_body_char(s: Seq<char>) -> bool {
    exists|i: int| 0 <= i < s.len() && #[trigger] is_control(s[i]) && s[i] != '\n' && s[i] != '\t'
}

/// The verdict on an authored record: `Ok` or the first rule it breaks,
/// named after its `family`.  `has_placeholder` says whether the title or
/// the body is a known placeholder text.
pub open spec fn authored_spec(
    family: Seq<char>,
    title: Seq<char>,
    body: Seq<char>,
    has_placeholder: bool,
) -> Result<(), Seq<char>> {
    if trim(title).len() == 0 || trim(body).len() == 0 {
        Err(family + " title and body must be nonempty"@)
    } else if has_unsafe_title_char(title) {
        Err(family + " title must be one safe line"@)
    } else if has_unsafe_body_char(body) {
        Err(family + " body contains unsafe controls"@)
    } else if has_placeholder {
        Err(family + " contains a known placeholder"@)
    } else if unsafe_record_spec(title, body) {
        Err(family + " contains prohibited sensitive or raw output content"@)
    } else {
        Ok(())
    }
}

fn family_error(family: &str, rest: &str) -> (r: Result<(), String>)
    ensures
        r matches Err(e) && e@ == family@ + rest@,
{
    let mut e = owned(family);
    push_str(&mut e, rest);
    Err(e)
}

/// Checks an authored record's title and body.
pub fn authored(family: &str, title: &str, body: &str, has_placeholder: bool) -> (r: Result<(), String>)
    ensures
        match (r, authored_spec(family@, title@, body@, has_placeholder)) {
            (Ok(()), Ok(())) => true,
            (Err(e), Err(s)) => e@ == s,
            _ => false,
        },
{
    let t = chars_of(title);
    let b = chars_of(body);
    let tt = trim_exec(t.as_slice());
    let bt = trim_exec(b.as_slice());
    if tt.len() == 0 || bt.len() == 0 {
        return family_error(family, " title and body must be nonempty");
    }
    let mut i: usize = 0;
    while i < t.len()
        invariant
            t@ == title@,
            trim(title@).len() > 0,
            trim(body@).len() > 0,
            i <= t.len(),
            forall|j: int| 0 <= j < i ==> !is_control(#[trigger] t@[j]),
        decreases t.len() - i,
    {
        if is_control_exec(t[i]) {
            assert(is_control(title@[i as int]));
            return family_error(family, " title must be one safe line");
        }
        i = i + 1;
    }
    let mut k: usize = 0;
    while k < b.len()
        invariant
            b@ == body@,
            trim(title@).len() > 0,
            trim(body@).len() > 0,
            !has_unsafe_title_char(title@),
            k <= b.len(),
            forall|j: int| 0 <= j < k ==> !(#[trigger] is_control(b@[j]) && b@[j] != '\n' && b@[j] != '\t'),
        decreases b.len() - k,
    {
        if is_control_exec(b[k]) && b[k] != '\n' && b[k] != '\t' {
            assert(is_control(body@[k as int]) && body@[k as int] != '\n' && body@[k as int] != '\t');
            return family_error(family, " body contains unsafe controls");
        }
        k = k + 1;
    }
    if has_placeholder {
        return family_error(family, " contains a known placeholder");
    }
    if unsafe_record_text(title, body) {
        return family_error(family, " contains prohibited sensitive or raw output content");
    }
    Ok(())
}

} // verus!
