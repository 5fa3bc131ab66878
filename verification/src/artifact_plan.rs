//! Planning an artifact write: the manifest that stands in for a body
//! split into parts, the metadata of files and parts, and the order of the
//! targets the write revises.
use vstd::prelude::*;
use crate::artifact_effects::{part_dir, part_dir_spec, part_path, part_path_spec};
use crate::config_registry::{json_quoted, json_string};
use crate::number::{decimal, padded, padded_chars, u64_text};
use crate::text::{join, owned, push_chars, push_str, views};

verus! {

/// The most parts a manifest links one by one.
pub const PART_LINK_LIMIT: usize = 20;

pub open spec fn size_justification() -> Seq<char> {
    "generated artifact body is stored in checked parts to keep this file readable"@
}

pub open spec fn part_link(path: Seq<char>, ordinal: nat) -> Seq<char> {
    "- part "@ + padded(ordinal, 3) + ": `"@ + part_path_spec(path, ordinal as u32) + "`"@
}

pub open spec fn manifest_links(path: Seq<char>, parts: nat) -> Seq<Seq<char>> {
    let shown: nat = if parts > PART_LINK_LIMIT { PART_LINK_LIMIT as nat } else { parts };
    Seq::new(shown, |i: int| part_link(path, (i + 1) as nat)) + if parts > PART_LINK_LIMIT {
        seq!["- remaining parts: "@ + decimal((parts - PART_LINK_LIMIT) as nat) + " files in `"@ + part_dir_spec(path) + "/`"@]
    } else {
        Seq::<Seq<char>>::empty()
    }
}

pub open spec fn manifest_spec(path: Seq<char>, fingerprint: Seq<char>, parts: nat) -> Seq<char> {
    "# Artifact\n\nSize justification: "@ + size_justification() + ".\nFull body fingerprint: `"@
        + fingerprint + "`.\nPart directory: `"@ + part_dir_spec(path) + "/`.\n\n## Parts\n\n"@
        + join(manifest_links(path, parts), "\n"@)
}

/// The body written in place of an artifact split into `parts` checked
/// parts (numbered from one): why it is split, the full body's
/// fingerprint, the part directory, and links to the first parts.
pub fn manifest_content(path: &str, fingerprint: &str, parts: usize) -> (r: String)
    requires
        parts <= u32::MAX,
    ensures
        r@ == manifest_spec(path@, fingerprint@, parts as nat),
{
    let dir = part_dir(path);
    let shown: usize = if parts > PART_LINK_LIMIT { PART_LINK_LIMIT } else { parts };
    let ghost links = manifest_links(path@, parts as nat);
    let mut body = String::new();
    for i in 0..shown
        invariant
            shown <= parts <= u32::MAX,
            shown == if parts > PART_LINK_LIMIT { PART_LINK_LIMIT } else { parts },
            links == manifest_links(path@, parts as nat),
            body@ == join(links.take(i as int), "\n"@),
    {
        assert(links.take(i + 1).drop_last() == links.take(i as int));
        assert(links[i as int] == part_link(path@, (i + 1) as nat));
        if i > 0 {
            push_str(&mut body, "\n");
        }
        let ordinal = (i + 1) as u32;
        push_str(&mut body, "- part ");
        let d = padded_chars(ordinal as u64, 3);
        push_chars(&mut body, d.as_slice());
        push_str(&mut body, ": `");
        push_str(&mut body, part_path(path, ordinal).as_str());
        push_str(&mut body, "`");
    }
    if parts > PART_LINK_LIMIT {
        assert(links.take(shown + 1).drop_last() == links.take(shown as int));
        push_str(&mut body, "\n");
        push_str(&mut body, "- remaining parts: ");
        push_str(&mut body, u64_text((parts - PART_LINK_LIMIT) as u64).as_str());
        push_str(&mut body, " files in `");
        push_str(&mut body, dir.as_str());
        push_str(&mut body, "/`");
        assert(links.take(shown + 1) == links);
    } else {
        assert(links.take(shown as int) == links);
    }
    let mut r = owned("# Artifact\n\nSize justification: ");
    push_str(&mut r, "generated artifact body is stored in checked parts to keep this file readable");
    push_str(&mut r, ".\nFull body fingerprint: `");
    push_str(&mut r, fingerprint);
    push_str(&mut r, "`.\nPart directory: `");
    push_str(&mut r, dir.as_str());
    push_str(&mut r, "/`.\n\n## Parts\n\n");
    push_str(&mut r, body.as_str());
    r
}

/// The metadata of an artifact file: empty unless it is split into parts.
pub fn file_metadata(parts: usize) -> (r: String)
    ensures
        r@ == if parts <= 1 {
            "{}"@
        } else {
            "{\"part_count\":"@ + decimal(parts as nat) + ",\"size_justification\":\""@ + size_justification() + "\"}"@
        },
{
    if parts <= 1 {
        return owned("{}");
    }
    let mut r = owned("{\"part_count\":");
    push_str(&mut r, u64_text(parts as u64).as_str());
    push_str(&mut r, ",\"size_justification\":\"");
    push_str(&mut r, "generated artifact body is stored in checked parts to keep this file readable");
    push_str(&mut r, "\"}");
    r
}

pub open spec fn json_count(v: Option<u64>) -> Seq<char> {
    match v {
        Some(n) => decimal(n as nat),
        None => "null"@,
    }
}

fn json_count_exec(v: Option<u64>) -> (r: String)
    ensures
        r@ == json_count(v),
{
    match v {
        Some(n) => u64_text(n),
        None => owned("null"),
    }
}

/// The metadata of one checked part of the artifact at `path` (members in
/// key order).
pub fn unit_metadata(path: &str, ordinal: u32, target_tokens: Option<u64>, target_words: Option<u64>) -> (r: String)
    ensures
        r@ == "{\"assembled_path\":"@ + json_quoted(path@) + ",\"ordinal\":"@ + decimal(ordinal as nat)
            + ",\"target_tokens\":"@ + json_count(target_tokens) + ",\"target_words\":"@
            + json_count(target_words) + "}"@,
{
    let mut r = owned("{\"assembled_path\":");
    push_str(&mut r, json_string(path).as_str());
    push_str(&mut r, ",\"ordinal\":");
    push_str(&mut r, u64_text(ordinal as u64).as_str());
    push_str(&mut r, ",\"target_tokens\":");
    push_str(&mut r, json_count_exec(target_tokens).as_str());
    push_str(&mut r, ",\"target_words\":");
    push_str(&mut r, json_count_exec(target_words).as_str());
    push_str(&mut r, "}");
    r
}

/// The role of a target that an artifact write revises.
#[derive(Clone, Copy, PartialEq, Eq, Structural)]
pub enum TargetRole {
    /// The list of the artifact's parts.
    Membership,
    /// One part of a split artifact.
    Part,
    /// A part that the new body no longer has.
    StalePart,
    /// The artifact's own file.
    Main,
}

/// The part paths a write of `parts` parts intends: none unless it splits.
pub open spec fn intended_parts(path: Seq<char>, parts: nat) -> Seq<Seq<char>> {
    if parts > 1 {
        Seq::new(parts, |i: int| part_path_spec(path, (i + 1) as u32))
    } else {
        Seq::empty()
    }
}

/// The owned parts that are not intended, in order.
pub open spec fn stale_parts(owned: Seq<Seq<char>>, intended: Seq<Seq<char>>) -> Seq<Seq<char>>
    decreases owned.len(),
{
    if owned.len() == 0 {
        Seq::empty()
    } else {
        let pre = stale_parts(owned.drop_last(), intended);
        if intended.contains(owned.last()) {
            pre
        } else {
            pre.push(owned.last())
        }
    }
}

pub open spec fn layout_spec(path: Seq<char>, owned: Seq<Seq<char>>, parts: nat) -> Seq<(TargetRole, Seq<char>)> {
    let intended = intended_parts(path, parts);
    let stale = stale_parts(owned, intended);
    seq![(TargetRole::Membership, part_dir_spec(path))]
        + Seq::new(intended.len(), |i: int| (TargetRole::Part, intended[i]))
        + Seq::new(stale.len(), |i: int| (TargetRole::StalePart, stale[i]))
        + seq![(TargetRole::Main, path)]
}

pub open spec fn first_unmanaged(current: Seq<Seq<char>>, owned: Seq<Seq<char>>) -> Option<Seq<char>>
    decreases current.len(),
{
    if current.len() == 0 {
        None
    } else if !owned.contains(current[0]) {
        Some(current[0])
    } else {
        first_unmanaged(current.drop_first(), owned)
    }
}

fn holds(list: &Vec<String>, item: &Vec<char>) -> (r: bool)
    ensures
        r == views(list@).contains(item@),
{
    for i in 0..list.len()
        invariant
            forall|j: int| 0 <= j < i ==> list@[j]@ != item@,
    {
        let c = crate::text::chars_of(list[i].as_str());
        if crate::text::chars_eq(c.as_slice(), item.as_slice()) {
            assert(views(list@)[i as int] == item@);
            return true;
        }
    }
    false
}

/// The targets an artifact write revises, in order: the part list, each
/// intended part, each owned part no longer intended (in the order of
/// `owned_parts`), then the artifact itself.  Refused when the part directory
/// holds a part (`current`) that the artifact does not own.
pub fn target_layout(path: &str, owned_parts: &Vec<String>, current: &Vec<String>, parts: usize) -> (r: Result<Vec<(TargetRole, String)>, String>)
    requires
        parts <= u32::MAX,
    ensures
        match r {
            Ok(ts) => first_unmanaged(views(current@), views(owned_parts@)) is None
                && Seq::new(ts@.len(), |i: int| (ts@[i].0, ts@[i].1@)) == layout_spec(path@, views(owned_parts@), parts as nat),
            Err(e) => first_unmanaged(views(current@), views(owned_parts@)) matches Some(p)
                && e@ == "artifact part path is not managed: "@ + p,
        },
{
    let ghost cv = views(current@);
    let ghost ov = views(owned_parts@);
    assert(cv.skip(0) == cv);
    for i in 0..current.len()
        invariant
            cv == views(current@),
            ov == views(owned_parts@),
            first_unmanaged(cv, ov) == first_unmanaged(cv.skip(i as int), ov),
    {
        assert(cv.skip(i as int).drop_first() == cv.skip(i + 1));
        let c = crate::text::chars_of(current[i].as_str());
        if !holds(owned_parts, &c) {
            let mut e = owned("artifact part path is not managed: ");
            push_str(&mut e, current[i].as_str());
            return Err(e);
        }
    }
    let ghost intended = intended_parts(path@, parts as nat);
    let mut intended_exec: Vec<String> = Vec::new();
    if parts > 1 {
        for k in 0..parts
            invariant
                parts <= u32::MAX,
                parts > 1,
                intended == intended_parts(path@, parts as nat),
                intended_exec@.len() == k,
                forall|j: int| 0 <= j < k ==> (#[trigger] intended_exec@[j])@ == intended[j],
        {
            intended_exec.push(part_path(path, (k + 1) as u32));
        }
    }
    assert(views(intended_exec@) == intended);
    let ghost want = layout_spec(path@, ov, parts as nat);
    let mut ts: Vec<(TargetRole, String)> = Vec::new();
    ts.push((TargetRole::Membership, part_dir(path)));
    for k in 0..intended_exec.len()
        invariant
            views(intended_exec@) == intended,
            ts@.len() == k + 1,
            ts@[0].0 == TargetRole::Membership && ts@[0].1@ == part_dir_spec(path@),
            forall|j: int| 1 <= j <= k ==> (#[trigger] ts@[j]).0 == TargetRole::Part && ts@[j].1@ == intended[j - 1],
    {
        ts.push((TargetRole::Part, owned(intended_exec[k].as_str())));
    }
    let ghost head_len = ts@.len();
    let mut m: usize = 0;
    while m < owned_parts.len()
        invariant
            views(intended_exec@) == intended,
            ov == views(owned_parts@),
            m <= owned_parts@.len(),
            head_len == intended.len() + 1,
            ts@.len() == head_len + stale_parts(ov.take(m as int), intended).len(),
            ts@[0].0 == TargetRole::Membership && ts@[0].1@ == part_dir_spec(path@),
            forall|j: int| 1 <= j < head_len ==> (#[trigger] ts@[j]).0 == TargetRole::Part && ts@[j].1@ == intended[j - 1],
            forall|j: int| 0 <= j < stale_parts(ov.take(m as int), intended).len() ==>
                (#[trigger] ts@[head_len + j]).0 == TargetRole::StalePart
                && ts@[head_len + j].1@ == stale_parts(ov.take(m as int), intended)[j],
        decreases owned_parts.len() - m,
    {
        assert(ov.take(m + 1).drop_last() == ov.take(m as int));
        assert(ov.take(m + 1).last() == owned_parts@[m as int]@);
        let c = crate::text::chars_of(owned_parts[m].as_str());
        if !holds(&intended_exec, &c) {
            ts.push((TargetRole::StalePart, owned(owned_parts[m].as_str())));
        }
        m = m + 1;
    }
    assert(ov.take(owned_parts@.len() as int) == ov);
    ts.push((TargetRole::Main, owned(path)));
    let ghost stale = stale_parts(ov, intended);
    assert(ts@.len() == want.len());
    assert forall|i: int| 0 <= i < ts@.len() implies (ts@[i].0, ts@[i].1@) == want[i] by {
        if i == 0 {
        } else if i < head_len {
        } else if i < head_len + stale.len() {
            assert(ts@[head_len + (i - head_len)] == ts@[i]);
        } else {
        }
    }
    assert(Seq::new(ts@.len(), |i: int| (ts@[i].0, ts@[i].1@)) =~= want);
    Ok(ts)
}

} // verus!
