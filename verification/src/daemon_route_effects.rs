//! Owner turns that the daemon settles without the model: a request for
//! an artifact, an inspection, and a system operation it cannot run.
use vstd::prelude::*;
use crate::number::{decimal, i64_text, signed_decimal, u64_text};
use crate::text::{owned, push_str};

verus! {

/// The kind of a planned step.
#[derive(Clone, Copy, PartialEq, Eq, Structural)]
pub enum StepKind {
    Write,
    Verify,
    Respond,
}

/// A step of a planned matter: its ordinal, kind, title and instruction,
/// the file it writes, and the files whose existence it checks.
pub struct PlannedStep {
    pub ordinal: u32,
    pub kind: StepKind,
    pub title: String,
    pub instruction: String,
    pub output_path: Option<String>,
    pub checks: Vec<String>,
}

/// The plan of an artifact request: the file to produce (also the matter's
/// own existence check) and its three steps.
pub struct ArtifactRequest {
    pub path: String,
    pub steps: Vec<PlannedStep>,
}

pub open spec fn request_path(task_id: u64) -> Seq<char> {
    "artifacts/requests/matter-"@ + decimal(task_id as nat) + ".md"@
}

/// Plans a matter that writes the requested artifact, verifies that it
/// exists, and responds with its path.
pub fn artifact_request(task_id: u64, objective: &str) -> (r: ArtifactRequest)
    ensures
        r.path@ == request_path(task_id),
        r.steps@.len() == 3,
        r.steps@[0].ordinal == 1 && r.steps@[0].kind == StepKind::Write
            && r.steps@[0].title@ == "write artifact"@ && r.steps@[0].instruction@ == objective@
            && r.steps@[0].checks@.len() == 0,
        r.steps@[0].output_path matches Some(p) && p@ == request_path(task_id),
        r.steps@[1].ordinal == 2 && r.steps@[1].kind == StepKind::Verify
            && r.steps@[1].title@ == "verify artifact"@ && r.steps@[1].instruction@ == "run checks"@
            && r.steps@[1].output_path is None
            && r.steps@[1].checks@.len() == 1 && r.steps@[1].checks@[0]@ == request_path(task_id),
        r.steps@[2].ordinal == 3 && r.steps@[2].kind == StepKind::Respond
            && r.steps@[2].title@ == "respond"@ && r.steps@[2].instruction@ == "report artifact path"@
            && r.steps@[2].output_path is None && r.steps@[2].checks@.len() == 0,
{
    let mut path = owned("artifacts/requests/matter-");
    push_str(&mut path, u64_text(task_id).as_str());
    push_str(&mut path, ".md");
    let mut steps: Vec<PlannedStep> = Vec::new();
    steps.push(PlannedStep {
        ordinal: 1,
        kind: StepKind::Write,
        title: owned("write artifact"),
        instruction: owned(objective),
        output_path: Some(owned(path.as_str())),
        checks: Vec::new(),
    });
    let mut checks: Vec<String> = Vec::new();
    checks.push(owned(path.as_str()));
    steps.push(PlannedStep {
        ordinal: 2,
        kind: StepKind::Verify,
        title: owned("verify artifact"),
        instruction: owned("run checks"),
        output_path: None,
        checks,
    });
    steps.push(PlannedStep {
        ordinal: 3,
        kind: StepKind::Respond,
        title: owned("respond"),
        instruction: owned("report artifact path"),
        output_path: None,
        checks: Vec::new(),
    });
    ArtifactRequest { path, steps }
}

/// The summary of an inspection turn: the owner turns still pending, the
/// matters open or waiting, and the records kept.
pub fn inspection_summary(pending: i64, active: i64, records: i64) -> (r: String)
    ensures
        r@ == "inspection: pending_queue="@ + signed_decimal(pending as int) + " active_matters="@
            + signed_decimal(active as int) + " records="@ + signed_decimal(records as int),
{
    let mut r = owned("inspection: pending_queue=");
    push_str(&mut r, i64_text(pending).as_str());
    push_str(&mut r, " active_matters=");
    push_str(&mut r, i64_text(active).as_str());
    push_str(&mut r, " records=");
    push_str(&mut r, i64_text(records).as_str());
    r
}

/// The summary of a system operation, which no executor here runs.
pub fn system_operation_summary() -> (r: &'static str)
    ensures
        r@ == "system_operation: blocked unsupported_executor no_command_run"@,
{
    "system_operation: blocked unsupported_executor no_command_run"
}

} // verus!
