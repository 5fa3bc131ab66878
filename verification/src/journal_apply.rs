//! Writing a managed record as a journaled effect: how its edit is
//! prepared from what the journal holds for the path, the targets the
//! effect declares, and the line that reports it settled.
use vstd::prelude::*;
use crate::automatic_checks::same_bytes;
use crate::digest::{hex, hex_spec};
use crate::number::{decimal, u64_text};
use crate::text::{owned, push_str, str_eq, utf8_text};

verus! {

/// What the journal holds for a path: whether the document is managed,
/// and its current revision's id, digest and bytes.
pub struct ManagedRow {
    pub managed: i64,
    pub revision_id: Option<String>,
    pub sha256: Option<Vec<u8>>,
    pub content: Option<Vec<u8>>,
}

/// How a record's edit is prepared.
pub enum PrepareRoute {
    /// Nothing is recorded at the path: the edit creates it.
    Absent,
    /// The path holds a managed revision: the edit replaces exactly it.
    Exact {
        /// The current revision's id, the new revision's parent.
        parent: String,
        /// The current revision's digest in hex.
        revision: String,
        /// The current revision's bytes.
        content: Vec<u8>,
    },
    /// Anything else is an existing file that the journal does not manage.
    Collision,
}

/// A managed row with a current revision whose digest and bytes are known.
pub open spec fn exact_row(row: ManagedRow) -> bool {
    row.managed == 1 && row.revision_id is Some && row.sha256 is Some && row.content is Some
}

/// The route for a path given the journal's row for it.
pub fn prepare_route(row: Option<ManagedRow>) -> (r: PrepareRoute)
    ensures
        match row {
            None => r is Absent,
            Some(m) => if exact_row(m) {
                r matches PrepareRoute::Exact { parent, revision, content }
                    && parent@ == m.revision_id->0@
                    && revision@ == hex_spec(m.sha256->0@)
                    && content@ == m.content->0@
            } else {
                r is Collision
            },
        },
{
    match row {
        None => PrepareRoute::Absent,
        Some(m) => {
            if m.managed != 1 {
                return PrepareRoute::Collision;
            }
            match (m.revision_id, m.sha256, m.content) {
                (Some(parent), Some(hash), Some(content)) => {
                    let revision = hex(hash.as_slice());
                    PrepareRoute::Exact { parent, revision, content }
                },
                _ => PrepareRoute::Collision,
            }
        },
    }
}

/// The message of a path that holds a file the journal does not manage.
pub fn collision_message() -> (r: String)
    ensures
        r@ == "unmanaged existing record collision"@,
{
    owned("unmanaged existing record collision")
}

/// Why an exact edit cannot be prepared.
pub enum ExactRefusal {
    /// The workspace file is not the revision the journal holds.
    Stale,
    /// The revision's bytes are not UTF-8 text.
    NotText,
}

/// The message of a stale revision.
pub fn stale_message() -> (r: String)
    ensures
        r@ == "managed record revision is stale"@,
{
    owned("managed record revision is stale")
}

/// The text an exact edit replaces: the stored revision, provided the
/// workspace file (`observed`: its revision and bytes, none when absent)
/// is exactly that revision.
pub fn exact_old(revision: &str, content: &[u8], observed: &Option<(String, Vec<u8>)>) -> (r: Result<String, ExactRefusal>)
    ensures
        match observed {
            Some((rev, bytes)) if rev@ == revision@ && bytes@ == content@ => match r {
                Ok(t) => vstd::utf8::valid_utf8(content@) && t@ == vstd::utf8::decode_utf8(content@),
                Err(e) => e is NotText && !vstd::utf8::valid_utf8(content@),
            },
            _ => r matches Err(ExactRefusal::Stale),
        },
{
    let current = match observed {
        Some((rev, bytes)) => str_eq(rev.as_str(), revision) && same_bytes(bytes.as_slice(), content),
        None => false,
    };
    if !current {
        return Err(ExactRefusal::Stale);
    }
    match utf8_text(content) {
        Some(t) => Ok(t),
        None => Err(ExactRefusal::NotText),
    }
}

/// One target an effect declares.
pub struct EffectTarget {
    pub path: String,
    pub prior: Option<Vec<u8>>,
    pub intended: Option<Vec<u8>>,
    pub operation: String,
    pub prior_mode: Option<i64>,
    pub intended_mode: Option<i64>,
    pub stage_identity: String,
}

pub open spec fn opt_bytes(v: Option<Vec<u8>>) -> Option<Seq<u8>> {
    match v {
        Some(b) => Some(b@),
        None => None,
    }
}

/// The targets of a record's edit: the record itself (replaced when it had
/// prior bytes, else created), then each missing parent directory in
/// order, made with mode 0o755 under the stage `mkdir:PARENT`.
pub fn effect_targets(
    path: &str,
    prior: &Option<Vec<u8>>,
    intended: &Vec<u8>,
    expected_mode: Option<u32>,
    intended_mode: u32,
    stage_identity: &str,
    parents: &Vec<String>,
) -> (r: Vec<EffectTarget>)
    ensures
        r@.len() == parents@.len() + 1,
        r@[0].path@ == path@,
        opt_bytes(r@[0].prior) == opt_bytes(*prior),
        opt_bytes(r@[0].intended) == Some(intended@),
        r@[0].operation@ == (if prior is Some { "replace"@ } else { "create"@ }),
        r@[0].prior_mode == (match expected_mode {
            Some(m) => Some(m as i64),
            None => None::<i64>,
        }),
        r@[0].intended_mode == Some(intended_mode as i64),
        r@[0].stage_identity@ == stage_identity@,
        forall|i: int|
            0 <= i < parents@.len() ==> {
                let t = #[trigger] r@[i + 1];
                &&& t.path@ == parents@[i]@
                &&& t.prior is None
                &&& t.intended is None
                &&& t.operation@ == "mkdir"@
                &&& t.prior_mode is None
                &&& t.intended_mode == Some(0o755i64)
                &&& t.stage_identity@ == "mkdir:"@ + parents@[i]@
            },
{
    let prior_copy = match prior {
        Some(b) => Some(b.clone()),
        None => None,
    };
    let operation = match prior {
        Some(_) => owned("replace"),
        None => owned("create"),
    };
    let prior_mode = match expected_mode {
        Some(m) => Some(m as i64),
        None => None,
    };
    let first = EffectTarget {
        path: owned(path),
        prior: prior_copy,
        intended: Some(intended.clone()),
        operation,
        prior_mode,
        intended_mode: Some(intended_mode as i64),
        stage_identity: owned(stage_identity),
    };
    let mut out: Vec<EffectTarget> = Vec::new();
    out.push(first);
    for i in 0..parents.len()
        invariant
            out@.len() == i + 1,
            out@[0].path@ == path@,
            opt_bytes(out@[0].prior) == opt_bytes(*prior),
            opt_bytes(out@[0].intended) == Some(intended@),
            out@[0].operation@ == (if prior is Some { "replace"@ } else { "create"@ }),
            out@[0].prior_mode == (match expected_mode {
                Some(m) => Some(m as i64),
                None => None::<i64>,
            }),
            out@[0].intended_mode == Some(intended_mode as i64),
            out@[0].stage_identity@ == stage_identity@,
            forall|k: int|
                0 <= k < i ==> {
                    let t = #[trigger] out@[k + 1];
                    &&& t.path@ == parents@[k]@
                    &&& t.prior is None
                    &&& t.intended is None
                    &&& t.operation@ == "mkdir"@
                    &&& t.prior_mode is None
                    &&& t.intended_mode == Some(0o755i64)
                    &&& t.stage_identity@ == "mkdir:"@ + parents@[k]@
                },
    {
        let mut stage = owned("mkdir:");
        push_str(&mut stage, parents[i].as_str());
        out.push(EffectTarget {
            path: owned(parents[i].as_str()),
            prior: None,
            intended: None,
            operation: owned("mkdir"),
            prior_mode: None,
            intended_mode: Some(0o755),
            stage_identity: stage,
        });
        assert(out@[i + 1].path@ == parents@[i as int]@);
    }
    out
}

/// The line that reports a record's effect settled, with how many of its
/// scheduled checks passed.
pub fn settled_line(decision: &str, journal: &str, path: &str, passed: u64, scheduled: u64) -> (r: String)
    ensures
        r@ == "settled: decision="@ + decision@ + " journal="@ + journal@ + " path="@ + path@
            + " checks="@ + decimal(passed as nat) + "/"@ + decimal(scheduled as nat),
{
    let mut s = owned("settled: decision=");
    push_str(&mut s, decision);
    push_str(&mut s, " journal=");
    push_str(&mut s, journal);
    push_str(&mut s, " path=");
    push_str(&mut s, path);
    push_str(&mut s, " checks=");
    let p = u64_text(passed);
    push_str(&mut s, p.as_str());
    push_str(&mut s, "/");
    let q = u64_text(scheduled);
    push_str(&mut s, q.as_str());
    s
}

} // verus!
