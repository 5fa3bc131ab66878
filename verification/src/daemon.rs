//! The daemon's decisions between its outside steps: what a startup does
//! with the workspace operations left prepared, whether a matter is run,
//! how a waiting matter resumes with the owner's answer, and how step ids
//! are assigned.
use vstd::prelude::*;
use crate::config_registry::{member, member_exec, parse_json, json_document, DocumentView, FlatDocument, JsonScalar, ScalarView};
use crate::text::{owned, push_str, str_eq};

verus! {

/// A matter's state as the daemon decides on it.
#[derive(Clone, Copy, PartialEq, Eq, Structural)]
pub enum TaskState {
    Open,
    Waiting,
    /// Any other state: closed, blocked and the like.
    Settled,
}

/// A startup may recover at most one active rebalance group.
pub fn rebalance_groups(count: usize) -> (r: Result<(), String>)
    ensures
        match r {
            Ok(()) => count <= 1,
            Err(e) => count > 1 && e@ == "multiple active rebalance groups"@,
        },
{
    if count > 1 {
        Err(owned("multiple active rebalance groups"))
    } else {
        Ok(())
    }
}

/// What a startup does with a workspace operation left prepared.
pub enum PreparedAction {
    /// Recover the prepared rebalance.
    RecoverRebalance,
    /// Archive the record with this id.
    Archive(String),
    /// Leave it.
    Skip,
}

pub enum PreparedView {
    RecoverRebalance,
    Archive(Seq<char>),
    Skip,
}

impl View for PreparedAction {
    type V = PreparedView;

    open spec fn view(&self) -> PreparedView {
        match self {
            PreparedAction::RecoverRebalance => PreparedView::RecoverRebalance,
            PreparedAction::Archive(id) => PreparedView::Archive(id@),
            PreparedAction::Skip => PreparedView::Skip,
        }
    }
}

/// The record id that an archive operation's preimage names.
pub open spec fn preimage_id(preimage: Seq<char>) -> Option<Seq<char>> {
    match json_document(preimage) {
        DocumentView::Object(values) => match member(values, "id"@) {
            Some(ScalarView::Text(id)) => Some(id),
            _ => None,
        },
        _ => None,
    }
}

pub open spec fn prepared_spec(kind: Seq<char>, operation_id: Seq<char>, preimage: Seq<char>) -> Result<PreparedView, Seq<char>> {
    if kind == "rebalance"@ {
        Ok(PreparedView::RecoverRebalance)
    } else if kind != "archive"@ {
        Ok(PreparedView::Skip)
    } else {
        match preimage_id(preimage) {
            Some(id) => Ok(PreparedView::Archive(id)),
            None => Err("workspace operation "@ + operation_id + " has no record id"@),
        }
    }
}

/// The startup action for a prepared operation of `kind`, whose id reads
/// `operation_id` and whose preimage is the JSON text `preimage`.
pub fn prepared_action(kind: &str, operation_id: &str, preimage: &str) -> (r: Result<PreparedAction, String>)
    ensures
        match (r, prepared_spec(kind@, operation_id@, preimage@)) {
            (Ok(a), Ok(b)) => a@ == b,
            (Err(e), Err(s)) => e@ == s,
            _ => false,
        },
{
    if str_eq(kind, "rebalance") {
        return Ok(PreparedAction::RecoverRebalance);
    }
    if !str_eq(kind, "archive") {
        return Ok(PreparedAction::Skip);
    }
    let id = match parse_json(preimage) {
        FlatDocument::Object(values) => match member_exec(&values, "id") {
            Some(JsonScalar::Text(id)) => Some(owned(id.as_str())),
            _ => None,
        },
        _ => None,
    };
    match id {
        Some(id) => Ok(PreparedAction::Archive(id)),
        None => {
            let mut e = owned("workspace operation ");
            push_str(&mut e, operation_id);
            push_str(&mut e, " has no record id");
            Err(e)
        },
    }
}

/// What a run does with the matter it loaded.
#[derive(Clone, Copy, PartialEq, Eq, Structural)]
pub enum StartDecision {
    /// Run turns on it.
    Run,
    /// Report it as it stands.
    Report,
    /// There is no matter: report the idle snapshot.
    Idle,
}

/// Open and waiting matters are run; any other is reported as it stands.
pub fn start_decision(loaded: Option<TaskState>) -> (r: StartDecision)
    ensures
        r == match loaded {
            Some(TaskState::Open) | Some(TaskState::Waiting) => StartDecision::Run,
            Some(TaskState::Settled) => StartDecision::Report,
            None => StartDecision::Idle,
        },
{
    match loaded {
        Some(TaskState::Open) | Some(TaskState::Waiting) => StartDecision::Run,
        Some(TaskState::Settled) => StartDecision::Report,
        None => StartDecision::Idle,
    }
}

/// Another turn is taken while the matter is open and the turn budget of
/// the run is not spent.
pub fn turn_continues(state: TaskState, turns_taken: usize, max_turns: usize) -> (r: bool)
    ensures
        r == (turns_taken < max_turns && state == TaskState::Open),
{
    turns_taken < max_turns && state == TaskState::Open
}

/// The daemon pauses between runs unless the matter is still open.
pub fn pauses(state: TaskState) -> (r: bool)
    ensures
        r == (state != TaskState::Open),
{
    state != TaskState::Open
}

/// What loading the matter to run has found out so far.
#[derive(Clone, Copy, Debug, PartialEq, Eq, Structural)]
pub enum LoadEvent {
    /// Whether an open matter was found.
    OpenLookup(bool),
    /// Whether a waiting matter was found.
    WaitingLookup(bool),
    /// The waiting matter was offered the owner's answer: whether it is
    /// open now.
    Resumed(bool),
    /// Whether a forced new objective was taken from the queue.
    ForcedIntake(bool),
    /// Whether any queued objective was taken.
    NextIntake(bool),
}

/// What loading does next.
#[derive(Clone, Copy, Debug, PartialEq, Eq, Structural)]
pub enum LoadAction {
    LookupWaiting,
    ResumeWaiting,
    /// Take a forced new objective from the queue.
    IntakeForced,
    /// Take the next queued objective.
    IntakeNext,
    ReturnOpen,
    ReturnResumed,
    ReturnIntaken,
    ReturnNothing,
}

/// The next step of loading a matter: an open matter comes first; a
/// waiting one is resumed, and when it stays waiting a forced new
/// objective may take its place; without either, the queue is read.
pub fn load_step(event: LoadEvent) -> (r: LoadAction)
    ensures
        r == match event {
            LoadEvent::OpenLookup(true) => LoadAction::ReturnOpen,
            LoadEvent::OpenLookup(false) => LoadAction::LookupWaiting,
            LoadEvent::WaitingLookup(true) => LoadAction::ResumeWaiting,
            LoadEvent::WaitingLookup(false) => LoadAction::IntakeNext,
            LoadEvent::Resumed(true) => LoadAction::ReturnResumed,
            LoadEvent::Resumed(false) => LoadAction::IntakeForced,
            LoadEvent::ForcedIntake(true) => LoadAction::ReturnIntaken,
            LoadEvent::ForcedIntake(false) => LoadAction::ReturnResumed,
            LoadEvent::NextIntake(true) => LoadAction::ReturnIntaken,
            LoadEvent::NextIntake(false) => LoadAction::ReturnNothing,
        },
{
    match event {
        LoadEvent::OpenLookup(found) => if found {
            LoadAction::ReturnOpen
        } else {
            LoadAction::LookupWaiting
        },
        LoadEvent::WaitingLookup(found) => if found {
            LoadAction::ResumeWaiting
        } else {
            LoadAction::IntakeNext
        },
        LoadEvent::Resumed(open) => if open {
            LoadAction::ReturnResumed
        } else {
            LoadAction::IntakeForced
        },
        LoadEvent::ForcedIntake(found) => if found {
            LoadAction::ReturnIntaken
        } else {
            LoadAction::ReturnResumed
        },
        LoadEvent::NextIntake(found) => if found {
            LoadAction::ReturnIntaken
        } else {
            LoadAction::ReturnNothing
        },
    }
}

/// The kind of work a turn does.
#[derive(Clone, Copy, Debug, PartialEq, Eq, Structural)]
pub enum WorkKind {
    CallModel,
    RunChecks,
    /// Closing, resolving state, a native effect, blocking or waiting: the
    /// turn's outcome is a no-op.
    Other,
}

/// What a turn has just finished.
#[derive(Clone, Copy, Debug, PartialEq, Eq, Structural)]
pub enum TurnEvent {
    Began,
    PromptFramePersisted,
    /// The model answered; whether an exchange record came with it.
    ModelCalled(bool),
    ChecksGathered,
    TurnApplied,
    RecordApplied,
    ExchangePersisted,
    EvidenceTagged,
    /// The admissions were prepared, this many effects.
    Admitted(usize),
    /// Preparing the admissions settled the turn as failed.
    AdmissionFailed,
    EffectsMarked,
    /// The effects were dispatched; whether that succeeded.
    Dispatched(bool),
}

/// What a turn does next.
#[derive(Clone, Copy, Debug, PartialEq, Eq, Structural)]
pub enum TurnAction {
    PersistPromptFrame,
    CallModel,
    GatherChecks,
    ApplyTurn,
    ApplyRecord,
    PersistExchange,
    TagEvidence,
    PrepareAdmissions,
    MarkApplying,
    Dispatch,
    SettleDispatched,
    SettleFailedDispatch,
    /// Return the matter as the failed admission settled it.
    ReturnSettled,
}

/// What a turn remembers between its steps.
#[derive(Clone, Copy, Debug, PartialEq, Eq, Structural)]
pub struct TurnState {
    pub work: WorkKind,
    /// The model's answer came with an exchange record.
    pub has_record: bool,
}

/// The next step of a turn.
pub open spec fn turn_next(state: TurnState, event: TurnEvent) -> TurnAction {
    match event {
        TurnEvent::Began => match state.work {
            WorkKind::CallModel => TurnAction::PersistPromptFrame,
            WorkKind::RunChecks => TurnAction::GatherChecks,
            WorkKind::Other => TurnAction::ApplyTurn,
        },
        TurnEvent::PromptFramePersisted => TurnAction::CallModel,
        TurnEvent::ModelCalled(_) => TurnAction::ApplyTurn,
        TurnEvent::ChecksGathered => TurnAction::ApplyTurn,
        TurnEvent::TurnApplied => if state.work == WorkKind::CallModel && state.has_record {
            TurnAction::ApplyRecord
        } else {
            TurnAction::TagEvidence
        },
        TurnEvent::RecordApplied => TurnAction::PersistExchange,
        TurnEvent::ExchangePersisted => TurnAction::TagEvidence,
        TurnEvent::EvidenceTagged => if state.work == WorkKind::RunChecks {
            TurnAction::Dispatch
        } else {
            TurnAction::PrepareAdmissions
        },
        TurnEvent::Admitted(n) => if state.work == WorkKind::CallModel || n > 0 {
            TurnAction::MarkApplying
        } else {
            TurnAction::Dispatch
        },
        TurnEvent::AdmissionFailed => TurnAction::ReturnSettled,
        TurnEvent::EffectsMarked => TurnAction::Dispatch,
        TurnEvent::Dispatched(ok) => if ok {
            TurnAction::SettleDispatched
        } else {
            TurnAction::SettleFailedDispatch
        },
    }
}

/// One step of a turn: a model call persists its prompt frame, calls the
/// model, applies the turn and any exchange record, then tags evidence,
/// admits, marks the effects as applying and dispatches them; a check run
/// gathers the checks and dispatches without admissions; other work
/// applies a no-op.  Effects of other work are marked only when there are
/// any.  The dispatch's outcome decides how the turn settles.
pub fn turn_step(state: TurnState, event: TurnEvent) -> (r: (TurnState, TurnAction))
    ensures
        r.1 == turn_next(state, event),
        r.0.work == state.work,
        r.0.has_record == match event {
            TurnEvent::ModelCalled(record) => record,
            _ => state.has_record,
        },
{
    let next = match event {
        TurnEvent::ModelCalled(record) => TurnState { work: state.work, has_record: record },
        _ => state,
    };
    let action = match event {
        TurnEvent::Began => match state.work {
            WorkKind::CallModel => TurnAction::PersistPromptFrame,
            WorkKind::RunChecks => TurnAction::GatherChecks,
            WorkKind::Other => TurnAction::ApplyTurn,
        },
        TurnEvent::PromptFramePersisted => TurnAction::CallModel,
        TurnEvent::ModelCalled(_) => TurnAction::ApplyTurn,
        TurnEvent::ChecksGathered => TurnAction::ApplyTurn,
        TurnEvent::TurnApplied => if state.work == WorkKind::CallModel && state.has_record {
            TurnAction::ApplyRecord
        } else {
            TurnAction::TagEvidence
        },
        TurnEvent::RecordApplied => TurnAction::PersistExchange,
        TurnEvent::ExchangePersisted => TurnAction::TagEvidence,
        TurnEvent::EvidenceTagged => if state.work == WorkKind::RunChecks {
            TurnAction::Dispatch
        } else {
            TurnAction::PrepareAdmissions
        },
        TurnEvent::Admitted(n) => if state.work == WorkKind::CallModel || n > 0 {
            TurnAction::MarkApplying
        } else {
            TurnAction::Dispatch
        },
        TurnEvent::AdmissionFailed => TurnAction::ReturnSettled,
        TurnEvent::EffectsMarked => TurnAction::Dispatch,
        TurnEvent::Dispatched(ok) => if ok {
            TurnAction::SettleDispatched
        } else {
            TurnAction::SettleFailedDispatch
        },
    };
    (next, action)
}


/// The state after a step.
pub open spec fn turn_after(state: TurnState, event: TurnEvent) -> TurnState {
    match event {
        TurnEvent::ModelCalled(record) => TurnState { work: state.work, has_record: record },
        _ => state,
    }
}

/// The actions a turn takes on a run of events.
pub open spec fn turn_trace(state: TurnState, events: Seq<TurnEvent>) -> Seq<TurnAction>
    decreases events.len(),
{
    if events.len() == 0 {
        Seq::empty()
    } else {
        seq![turn_next(state, events[0])] + turn_trace(turn_after(state, events[0]), events.drop_first())
    }
}

proof fn lemma_trace_len(state: TurnState, events: Seq<TurnEvent>)
    ensures
        turn_trace(state, events).len() == events.len(),
    decreases events.len(),
{
    if events.len() > 0 {
        lemma_trace_len(turn_after(state, events[0]), events.drop_first());
    }
}

/// `event` is what finishing `action` reports.
pub open spec fn answers(action: TurnAction, event: TurnEvent) -> bool {
    match action {
        TurnAction::PersistPromptFrame => event is PromptFramePersisted,
        TurnAction::CallModel => event is ModelCalled,
        TurnAction::GatherChecks => event is ChecksGathered,
        TurnAction::ApplyTurn => event is TurnApplied,
        TurnAction::ApplyRecord => event is RecordApplied,
        TurnAction::PersistExchange => event is ExchangePersisted,
        TurnAction::TagEvidence => event is EvidenceTagged,
        TurnAction::PrepareAdmissions => event is Admitted || event is AdmissionFailed,
        TurnAction::MarkApplying => event is EffectsMarked,
        TurnAction::Dispatch => event is Dispatched,
        _ => false,
    }
}

/// How far into a turn an action stands.
pub open spec fn stage(action: TurnAction) -> int {
    match action {
        TurnAction::PersistPromptFrame => 1,
        TurnAction::CallModel => 2,
        TurnAction::GatherChecks => 2,
        TurnAction::ApplyTurn => 3,
        TurnAction::ApplyRecord => 4,
        TurnAction::PersistExchange => 5,
        TurnAction::TagEvidence => 6,
        TurnAction::PrepareAdmissions => 7,
        TurnAction::MarkApplying => 8,
        TurnAction::Dispatch => 9,
        _ => 10,
    }
}

/// Each event that answers an action leads further into the turn.
proof fn lemma_answer_advances(state: TurnState, action: TurnAction, event: TurnEvent)
    requires
        answers(action, event),
    ensures
        stage(turn_next(state, event)) > stage(action),
{
}

/// A turn driven by events that each answer its previous action moves
/// strictly forward: every action comes later in the turn than the one
/// before it, so no action (a model call among them) happens twice in a
/// turn.
pub proof fn lemma_turn_moves_forward(state: TurnState, events: Seq<TurnEvent>)
    requires
        forall|i: int| 0 < i < events.len() ==> answers(turn_trace(state, events)[i - 1], #[trigger] events[i]),
    ensures
        turn_trace(state, events).len() == events.len(),
        forall|i: int, j: int|
            0 <= i < j < events.len() ==> stage(#[trigger] turn_trace(state, events)[i]) < stage(
                #[trigger] turn_trace(state, events)[j],
            ),
        forall|i: int, j: int|
            0 <= i < j < events.len() ==> turn_trace(state, events)[i] != turn_trace(state, events)[j],
    decreases events.len(),
{
    let t = turn_trace(state, events);
    lemma_trace_len(state, events);
    if events.len() > 0 {
        let next = turn_after(state, events[0]);
        let rest_events = events.drop_first();
        let rest = turn_trace(next, rest_events);
        lemma_trace_len(next, rest_events);
        assert(t == seq![turn_next(state, events[0])] + rest);
        assert forall|i: int| 0 < i < rest_events.len() implies answers(rest[i - 1], #[trigger] rest_events[i]) by {
            assert(rest_events[i] == events[i + 1]);
            assert(t[i] == rest[i - 1]);
        }
        lemma_turn_moves_forward(next, rest_events);
        if events.len() > 1 {
            assert(answers(t[0], events[1]));
            assert(rest[0] == turn_next(next, rest_events[0]));
            lemma_answer_advances(next, t[0], events[1]);
        }
        assert forall|i: int, j: int| 0 <= i < j < events.len() implies stage(#[trigger] t[i]) < stage(#[trigger] t[j]) by {
            assert(t[j] == rest[j - 1]);
            if i > 0 {
                assert(t[i] == rest[i - 1]);
            } else if j > 1 {
                assert(stage(rest[0]) < stage(rest[j - 1]));
            }
        }
        assert forall|i: int, j: int| 0 <= i < j < events.len() implies t[i] != t[j] by {
            assert(stage(t[i]) < stage(t[j]));
        }
    }
}


/// A step's state.
#[derive(Clone, Copy, PartialEq, Eq, Structural)]
pub enum StepState {
    Pending,
    Active,
    Done,
    /// Any other state.
    Other,
}

/// A step as resuming reads and changes it.
pub struct ResumeStep {
    pub state: StepState,
    /// The step asks the owner a question.
    pub asks: bool,
    pub inputs: String,
}

pub open spec fn first_active(steps: Seq<ResumeStep>, i: int) -> bool {
    &&& 0 <= i < steps.len()
    &&& steps[i].state == StepState::Active
    &&& forall|j: int| 0 <= j < i ==> steps[j].state != StepState::Active
}

/// Resumes a waiting matter with the owner's answer: the matter opens,
/// its first active step takes the answer as input, and a question step
/// is done.
pub fn resume_with_answer(state: &mut TaskState, steps: &mut Vec<ResumeStep>, answer: &str)
    ensures
        *final(state) == TaskState::Open,
        final(steps)@.len() == old(steps)@.len(),
        forall|i: int| 0 <= i < old(steps)@.len() ==> {
            let o = #[trigger] old(steps)@[i];
            let n = final(steps)@[i];
            if first_active(old(steps)@, i) {
                n.inputs@ == o.inputs@ + "\nowner_answer="@ + answer@
                    && n.asks == o.asks
                    && n.state == if o.asks { StepState::Done } else { StepState::Active }
            } else {
                n.inputs@ == o.inputs@ && n.asks == o.asks && n.state == o.state
            }
        },
{
    *state = TaskState::Open;
    let mut i: usize = 0;
    while i < steps.len()
        invariant
            steps@ == old(steps)@,
            *state == TaskState::Open,
            i <= steps@.len(),
            forall|j: int| 0 <= j < i ==> steps@[j].state != StepState::Active,
        decreases steps.len() - i,
    {
        if steps[i].state == StepState::Active {
            let mut inputs = owned(steps[i].inputs.as_str());
            push_str(&mut inputs, "\nowner_answer=");
            push_str(&mut inputs, answer);
            let asks = steps[i].asks;
            let next = if asks { StepState::Done } else { StepState::Active };
            assert(first_active(old(steps)@, i as int));
            steps.set(i, ResumeStep { state: next, asks, inputs });
            assert forall|k: int| 0 <= k < old(steps)@.len() && k != i implies !first_active(old(steps)@, k) by {
                if k > i {
                    assert(old(steps)@[i as int].state == StepState::Active);
                }
            }
            return;
        }
        i = i + 1;
    }
}

pub open spec fn saturated(n: int) -> u64 {
    if n > u64::MAX { u64::MAX } else { n as u64 }
}

/// The ids of a new matter's steps: the matter id times a thousand plus
/// each step's ordinal, both saturating.
pub fn step_ids(task_id: u64, ordinals: &Vec<u32>) -> (r: Vec<u64>)
    ensures
        r@.len() == ordinals@.len(),
        forall|i: int| 0 <= i < ordinals@.len() ==>
            #[trigger] r@[i] == saturated(saturated(task_id * 1000) + ordinals@[i]),
{
    let base: u64 = if task_id > u64::MAX / 1000 { u64::MAX } else { task_id * 1000 };
    let mut r: Vec<u64> = Vec::new();
    for i in 0..ordinals.len()
        invariant
            base == saturated(task_id * 1000),
            r@.len() == i,
            forall|k: int| 0 <= k < i ==> #[trigger] r@[k] == saturated(saturated(task_id * 1000) + ordinals@[k]),
    {
        r.push(base.saturating_add(ordinals[i] as u64));
    }
    r
}

} // verus!
