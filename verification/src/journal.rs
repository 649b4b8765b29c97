//! The order in which a capture journal is written.
//!
//! The capture itself is toolkit work and file I/O; the program performs
//! each action that [`journal_step`] returns and reports what came of it as
//! the next event. The decisions are here: the applicability exclusions are
//! settled before any journal is written or any toolkit work starts, the
//! primary result and its sources are saved before any diagnostic runs, a
//! primary or capture failure is recorded in the journal before the error is
//! raised, and an incomplete capture under `--require-complete-capture` is
//! refused only after its status has been saved.

use vstd::prelude::*;

verus! {

/// Where the writing of a capture journal stands.
#[derive(Clone, Copy, Debug, PartialEq, Eq, Structural)]
pub enum JournalStage {
    /// Nothing has been decided yet.
    Start,
    /// The applicability exclusions could not be settled; nothing was written.
    Refused,
    /// The journal directory, request and build records are being written.
    WritingJournal,
    /// The primary computation is running.
    AcquiringPrimary,
    /// The primary result and its sources are being saved.
    SavingPrimary,
    /// The requested diagnostics run.
    Capturing,
    /// The capture record is being saved.
    SavingCapture { complete: bool, explicit_pending: bool },
    /// Explicitly requested diagnostics outside the recipe run.
    CapturingExplicit { complete: bool },
    /// The explicit capture record is being saved.
    SavingExplicit { complete: bool },
    /// The final status is being saved.
    SavingStatus { complete: bool },
    /// The journal is finished and the run succeeds.
    Finished,
    /// The run failed; what could be recorded was recorded.
    Failed,
}

/// The state of a capture journal.
#[derive(Clone, Copy, Debug, PartialEq, Eq, Structural)]
pub struct JournalState {
    pub stage: JournalStage,
    /// Whether an incomplete capture fails the run.
    pub require_complete: bool,
}

/// What came of the last action.
#[derive(Clone, Copy, Debug, PartialEq, Eq, Structural)]
pub enum JournalEvent {
    /// The applicability exclusions were settled, or could not be.
    ExclusionsDecided { settled: bool },
    /// The journal directory, request and build records were written.
    JournalWritten,
    /// The primary computation returned a result.
    PrimaryAcquired,
    /// The primary computation failed.
    PrimaryFailed,
    /// The requested diagnostics were captured and persisted.
    CaptureRecorded { complete: bool, explicit_pending: bool },
    /// The capture could not be persisted.
    CapturePersistenceFailed,
    /// The explicit diagnostics were captured and persisted.
    ExplicitRecorded { complete: bool },
    /// The explicit diagnostics could not be persisted.
    ExplicitPersistenceFailed,
    /// The record that the last action asked for was saved.
    Saved,
}

/// What the program does next.
#[derive(Clone, Copy, Debug, PartialEq, Eq, Structural)]
pub enum JournalAction {
    /// Fail before writing anything or starting any toolkit work.
    Refuse,
    /// Create the journal and save the request (with its applicability) and
    /// the build record.
    WriteJournal,
    /// Run the primary computation.
    AcquirePrimary,
    /// Save the primary failure as the status, then fail with it.
    RecordPrimaryFailure,
    /// Save the primary result and its sources, and note them in the events.
    SavePrimary,
    /// Capture the requested diagnostics.
    CaptureRequested,
    /// Save the persistence failure as the status, then fail with it.
    RecordCaptureFailure,
    /// Save the capture record.
    SaveCapture,
    /// Capture the explicitly requested diagnostics.
    CaptureExplicit,
    /// Save the explicit capture record.
    SaveExplicit,
    /// Fail with the explicit capture's error.
    Abandon,
    /// Save the final status, complete or not.
    SaveStatus { complete: bool },
    /// Fail because the capture is incomplete and completeness is required.
    FailIncomplete,
    /// Return the captured run.
    Finish,
    /// The event does not belong to this stage; nothing happens.
    Ignore,
}

/// The state before anything is decided.
pub open spec fn spec_journal_start(require_complete: bool) -> JournalState {
    JournalState { stage: JournalStage::Start, require_complete }
}

/// The next stage and action of a journal in `state` on `event`.
pub open spec fn spec_journal_step(state: JournalState, event: JournalEvent) -> (
    JournalState,
    JournalAction,
) {
    let to = |stage: JournalStage| JournalState { stage, require_complete: state.require_complete };
    match (state.stage, event) {
        (JournalStage::Start, JournalEvent::ExclusionsDecided { settled }) => if settled {
            (to(JournalStage::WritingJournal), JournalAction::WriteJournal)
        } else {
            (to(JournalStage::Refused), JournalAction::Refuse)
        },
        (JournalStage::WritingJournal, JournalEvent::JournalWritten) => (
            to(JournalStage::AcquiringPrimary),
            JournalAction::AcquirePrimary,
        ),
        (JournalStage::AcquiringPrimary, JournalEvent::PrimaryFailed) => (
            to(JournalStage::Failed),
            JournalAction::RecordPrimaryFailure,
        ),
        (JournalStage::AcquiringPrimary, JournalEvent::PrimaryAcquired) => (
            to(JournalStage::SavingPrimary),
            JournalAction::SavePrimary,
        ),
        (JournalStage::SavingPrimary, JournalEvent::Saved) => (
            to(JournalStage::Capturing),
            JournalAction::CaptureRequested,
        ),
        (JournalStage::Capturing, JournalEvent::CapturePersistenceFailed) => (
            to(JournalStage::Failed),
            JournalAction::RecordCaptureFailure,
        ),
        (JournalStage::Capturing, JournalEvent::CaptureRecorded { complete, explicit_pending }) => (
            to(JournalStage::SavingCapture { complete, explicit_pending }),
            JournalAction::SaveCapture,
        ),
        (JournalStage::SavingCapture { complete, explicit_pending }, JournalEvent::Saved) => if explicit_pending {
            (to(JournalStage::CapturingExplicit { complete }), JournalAction::CaptureExplicit)
        } else {
            (to(JournalStage::SavingStatus { complete }), JournalAction::SaveStatus { complete })
        },
        (JournalStage::CapturingExplicit { complete }, JournalEvent::ExplicitRecorded { complete: explicit }) => (
            to(JournalStage::SavingExplicit { complete: complete && explicit }),
            JournalAction::SaveExplicit,
        ),
        (JournalStage::CapturingExplicit { .. }, JournalEvent::ExplicitPersistenceFailed) => (
            to(JournalStage::Failed),
            JournalAction::Abandon,
        ),
        (JournalStage::SavingExplicit { complete }, JournalEvent::Saved) => (
            to(JournalStage::SavingStatus { complete }),
            JournalAction::SaveStatus { complete },
        ),
        (JournalStage::SavingStatus { complete }, JournalEvent::Saved) => if state.require_complete
            && !complete {
            (to(JournalStage::Failed), JournalAction::FailIncomplete)
        } else {
            (to(JournalStage::Finished), JournalAction::Finish)
        },
        _ => (state, JournalAction::Ignore),
    }
}

/// The journal state before anything is decided.
pub fn journal_start(require_complete: bool) -> (r: JournalState)
    ensures
        r == spec_journal_start(require_complete),
{
    JournalState { stage: JournalStage::Start, require_complete }
}

/// The next state and action of a journal in `state` on `event`.
pub fn journal_step(state: JournalState, event: JournalEvent) -> (r: (JournalState, JournalAction))
    ensures
        r == spec_journal_step(state, event),
{
    let require_complete = state.require_complete;
    match (state.stage, event) {
        (JournalStage::Start, JournalEvent::ExclusionsDecided { settled }) => if settled {
            (JournalState { stage: JournalStage::WritingJournal, require_complete }, JournalAction::WriteJournal)
        } else {
            (JournalState { stage: JournalStage::Refused, require_complete }, JournalAction::Refuse)
        },
        (JournalStage::WritingJournal, JournalEvent::JournalWritten) => (
            JournalState { stage: JournalStage::AcquiringPrimary, require_complete },
            JournalAction::AcquirePrimary,
        ),
        (JournalStage::AcquiringPrimary, JournalEvent::PrimaryFailed) => (
            JournalState { stage: JournalStage::Failed, require_complete },
            JournalAction::RecordPrimaryFailure,
        ),
        (JournalStage::AcquiringPrimary, JournalEvent::PrimaryAcquired) => (
            JournalState { stage: JournalStage::SavingPrimary, require_complete },
            JournalAction::SavePrimary,
        ),
        (JournalStage::SavingPrimary, JournalEvent::Saved) => (
            JournalState { stage: JournalStage::Capturing, require_complete },
            JournalAction::CaptureRequested,
        ),
        (JournalStage::Capturing, JournalEvent::CapturePersistenceFailed) => (
            JournalState { stage: JournalStage::Failed, require_complete },
            JournalAction::RecordCaptureFailure,
        ),
        (JournalStage::Capturing, JournalEvent::CaptureRecorded { complete, explicit_pending }) => (
            JournalState {
                stage: JournalStage::SavingCapture { complete, explicit_pending },
                require_complete,
            },
            JournalAction::SaveCapture,
        ),
        (JournalStage::SavingCapture { complete, explicit_pending }, JournalEvent::Saved) => if explicit_pending {
            (
                JournalState { stage: JournalStage::CapturingExplicit { complete }, require_complete },
                JournalAction::CaptureExplicit,
            )
        } else {
            (
                JournalState { stage: JournalStage::SavingStatus { complete }, require_complete },
                JournalAction::SaveStatus { complete },
            )
        },
        (JournalStage::CapturingExplicit { complete }, JournalEvent::ExplicitRecorded { complete: explicit }) => (
            JournalState {
                stage: JournalStage::SavingExplicit { complete: complete && explicit },
                require_complete,
            },
            JournalAction::SaveExplicit,
        ),
        (JournalStage::CapturingExplicit { .. }, JournalEvent::ExplicitPersistenceFailed) => (
            JournalState { stage: JournalStage::Failed, require_complete },
            JournalAction::Abandon,
        ),
        (JournalStage::SavingExplicit { complete }, JournalEvent::Saved) => (
            JournalState { stage: JournalStage::SavingStatus { complete }, require_complete },
            JournalAction::SaveStatus { complete },
        ),
        (JournalStage::SavingStatus { complete }, JournalEvent::Saved) => if require_complete && !complete {
            (JournalState { stage: JournalStage::Failed, require_complete }, JournalAction::FailIncomplete)
        } else {
            (JournalState { stage: JournalStage::Finished, require_complete }, JournalAction::Finish)
        },
        _ => (state, JournalAction::Ignore),
    }
}

/// The actions a journal in `state` takes on `events`, one per event.
pub open spec fn journal_trace(state: JournalState, events: Seq<JournalEvent>) -> Seq<JournalAction>
    decreases events.len(),
{
    if events.len() == 0 {
        Seq::empty()
    } else {
        let (next, action) = spec_journal_step(state, events[0]);
        seq![action] + journal_trace(next, events.drop_first())
    }
}

/// Whether the journal has been asked to be written in this stage.
pub open spec fn journal_requested(stage: JournalStage) -> bool {
    !(stage is Start) && !(stage is Refused)
}

/// Whether the primary result has been asked to be saved in this stage.
pub open spec fn primary_save_requested(stage: JournalStage) -> bool {
    match stage {
        JournalStage::SavingPrimary
        | JournalStage::Capturing
        | JournalStage::SavingCapture { .. }
        | JournalStage::CapturingExplicit { .. }
        | JournalStage::SavingExplicit { .. }
        | JournalStage::SavingStatus { .. }
        | JournalStage::Finished => true,
        _ => false,
    }
}

/// The actions that may only follow the saving of the primary result.
pub open spec fn after_primary(action: JournalAction) -> bool {
    action == JournalAction::CaptureRequested || action == JournalAction::SaveCapture
        || action == JournalAction::CaptureExplicit || action == JournalAction::SaveExplicit
        || action is SaveStatus || action == JournalAction::Finish
        || action == JournalAction::FailIncomplete
}

proof fn lemma_capture_after_primary(state: JournalState, events: Seq<JournalEvent>, i: int)
    requires
        0 <= i < events.len(),
        after_primary(journal_trace(state, events)[i]),
    ensures
        primary_save_requested(state.stage) || exists|j: int|
            0 <= j < i && journal_trace(state, events)[j] == JournalAction::SavePrimary,
    decreases events.len(),
{
    lemma_trace_len(state, events);
    let (next, action) = spec_journal_step(state, events[0]);
    if i == 0 {
        assert(journal_trace(state, events)[0] == action);
    } else {
        lemma_trace_step(state, events, i);
        lemma_capture_after_primary(next, events.drop_first(), i - 1);
        if primary_save_requested(next.stage) {
            if !primary_save_requested(state.stage) {
                assert(action == JournalAction::SavePrimary);
                assert(journal_trace(state, events)[0] == JournalAction::SavePrimary);
            }
        } else {
            let j = choose|j: int|
                0 <= j < i - 1 && journal_trace(next, events.drop_first())[j]
                    == JournalAction::SavePrimary;
            lemma_trace_step(state, events, j + 1);
            assert(journal_trace(state, events)[j + 1] == JournalAction::SavePrimary);
        }
    }
}

proof fn lemma_trace_step(state: JournalState, events: Seq<JournalEvent>, i: int)
    requires
        events.len() > 0,
        0 < i < events.len(),
    ensures
        journal_trace(state, events).len() == events.len(),
        journal_trace(state, events)[0] == spec_journal_step(state, events[0]).1,
        journal_trace(state, events)[i] == journal_trace(
            spec_journal_step(state, events[0]).0,
            events.drop_first(),
        )[i - 1],
{
    lemma_trace_len(state, events);
}

proof fn lemma_trace_len(state: JournalState, events: Seq<JournalEvent>)
    ensures
        journal_trace(state, events).len() == events.len(),
    decreases events.len(),
{
    if events.len() > 0 {
        lemma_trace_len(spec_journal_step(state, events[0]).0, events.drop_first());
    }
}

proof fn lemma_requirement_kept(state: JournalState, event: JournalEvent)
    ensures
        spec_journal_step(state, event).0.require_complete == state.require_complete,
        journal_requested(state.stage) ==> journal_requested(spec_journal_step(state, event).0.stage),
        state.stage is Refused ==> spec_journal_step(state, event) == (state, JournalAction::Ignore),
{
}

proof fn lemma_primary_after_journal(state: JournalState, events: Seq<JournalEvent>, i: int)
    requires
        0 <= i < events.len(),
        journal_trace(state, events)[i] == JournalAction::AcquirePrimary,
    ensures
        journal_requested(state.stage) || exists|j: int|
            0 <= j < i && journal_trace(state, events)[j] == JournalAction::WriteJournal,
    decreases events.len(),
{
    lemma_trace_len(state, events);
    let (next, action) = spec_journal_step(state, events[0]);
    if i == 0 {
        assert(journal_trace(state, events)[0] == action);
    } else {
        lemma_trace_step(state, events, i);
        lemma_primary_after_journal(next, events.drop_first(), i - 1);
        if journal_requested(next.stage) {
            if !journal_requested(state.stage) {
                assert(action == JournalAction::WriteJournal);
                assert(journal_trace(state, events)[0] == JournalAction::WriteJournal);
            }
        } else {
            let j = choose|j: int|
                0 <= j < i - 1 && journal_trace(next, events.drop_first())[j]
                    == JournalAction::WriteJournal;
            lemma_trace_step(state, events, j + 1);
            assert(journal_trace(state, events)[j + 1] == JournalAction::WriteJournal);
        }
    }
}

proof fn lemma_incomplete_after_status(state: JournalState, events: Seq<JournalEvent>, i: int)
    requires
        0 <= i < events.len(),
        journal_trace(state, events)[i] == JournalAction::FailIncomplete,
    ensures
        state.require_complete,
        state.stage == (JournalStage::SavingStatus { complete: false }) || exists|j: int|
            0 <= j < i && journal_trace(state, events)[j] == (JournalAction::SaveStatus {
                complete: false,
            }),
    decreases events.len(),
{
    lemma_trace_len(state, events);
    let (next, action) = spec_journal_step(state, events[0]);
    lemma_requirement_kept(state, events[0]);
    if i == 0 {
        assert(journal_trace(state, events)[0] == action);
    } else {
        lemma_trace_step(state, events, i);
        lemma_incomplete_after_status(next, events.drop_first(), i - 1);
        if next.stage == (JournalStage::SavingStatus { complete: false }) {
            if state.stage != (JournalStage::SavingStatus { complete: false }) {
                assert(action == JournalAction::SaveStatus { complete: false });
                assert(journal_trace(state, events)[0] == JournalAction::SaveStatus {
                    complete: false,
                });
            }
        } else {
            let j = choose|j: int|
                0 <= j < i - 1 && journal_trace(next, events.drop_first())[j]
                    == (JournalAction::SaveStatus { complete: false });
            lemma_trace_step(state, events, j + 1);
            assert(journal_trace(state, events)[j + 1] == JournalAction::SaveStatus {
                complete: false,
            });
        }
    }
}

proof fn lemma_refused_stays_idle(state: JournalState, events: Seq<JournalEvent>, i: int)
    requires
        state.stage is Refused,
        0 <= i < events.len(),
    ensures
        journal_trace(state, events)[i] == JournalAction::Ignore,
    decreases events.len(),
{
    lemma_trace_len(state, events);
    lemma_requirement_kept(state, events[0]);
    if i > 0 {
        lemma_trace_step(state, events, i);
        lemma_refused_stays_idle(state, events.drop_first(), i - 1);
    }
}

/// The order of a capture journal, for every sequence of outcomes:
/// - the journal is written, and toolkit work starts, only once the
///   applicability exclusions have been settled: `WriteJournal` answers only
///   `ExclusionsDecided { settled: true }`, and the primary computation is
///   never started before the journal was written;
/// - when the exclusions cannot be settled the run is refused at once and
///   nothing further happens;
/// - no diagnostic is captured, and no capture record or final status is
///   saved, before the primary result and its sources were saved;
/// - an incomplete capture fails the run only when completeness is required,
///   and only after its incomplete status was saved.
pub proof fn lemma_journal_order(require_complete: bool, events: Seq<JournalEvent>, i: int)
    requires
        0 <= i < events.len(),
    ensures
        journal_trace(spec_journal_start(require_complete), events).len() == events.len(),
        journal_trace(spec_journal_start(require_complete), events)[i] == JournalAction::WriteJournal
            ==> events[i] == (JournalEvent::ExclusionsDecided { settled: true }) && forall|j: int|
            0 <= j < i ==> journal_trace(spec_journal_start(require_complete), events)[j]
                == JournalAction::Ignore,
        journal_trace(spec_journal_start(require_complete), events)[i] == JournalAction::AcquirePrimary
            ==> exists|j: int|
            0 <= j < i && journal_trace(spec_journal_start(require_complete), events)[j]
                == JournalAction::WriteJournal,
        after_primary(journal_trace(spec_journal_start(require_complete), events)[i]) ==> exists|
            j: int,
        |
            0 <= j < i && journal_trace(spec_journal_start(require_complete), events)[j]
                == JournalAction::SavePrimary,
        journal_trace(spec_journal_start(require_complete), events)[i] == JournalAction::Refuse ==> forall|
            j: int,
        |
            i < j < events.len() ==> journal_trace(spec_journal_start(require_complete), events)[j]
                == JournalAction::Ignore,
        journal_trace(spec_journal_start(require_complete), events)[i] == JournalAction::FailIncomplete
            ==> require_complete && exists|j: int|
            0 <= j < i && journal_trace(spec_journal_start(require_complete), events)[j]
                == (JournalAction::SaveStatus { complete: false }),
{
    let start = spec_journal_start(require_complete);
    lemma_trace_len(start, events);
    if journal_trace(start, events)[i] == JournalAction::AcquirePrimary {
        lemma_primary_after_journal(start, events, i);
    }
    if journal_trace(start, events)[i] == JournalAction::FailIncomplete {
        lemma_incomplete_after_status(start, events, i);
    }
    if after_primary(journal_trace(start, events)[i]) {
        lemma_capture_after_primary(start, events, i);
    }
    if journal_trace(start, events)[i] == JournalAction::WriteJournal {
        lemma_write_answers_exclusions(start, events, i);
    }
    if journal_trace(start, events)[i] == JournalAction::Refuse {
        lemma_refuse_is_final(start, events, i);
    }
}

proof fn lemma_write_answers_exclusions(state: JournalState, events: Seq<JournalEvent>, i: int)
    requires
        state.stage is Start,
        0 <= i < events.len(),
        journal_trace(state, events)[i] == JournalAction::WriteJournal,
    ensures
        events[i] == (JournalEvent::ExclusionsDecided { settled: true }),
        forall|j: int| 0 <= j < i ==> journal_trace(state, events)[j] == JournalAction::Ignore,
    decreases events.len(),
{
    lemma_trace_len(state, events);
    let (next, action) = spec_journal_step(state, events[0]);
    if i == 0 {
        assert(journal_trace(state, events)[0] == action);
    } else {
        lemma_trace_step(state, events, i);
        if next.stage is Start {
            lemma_write_answers_exclusions(next, events.drop_first(), i - 1);
            assert(events.drop_first()[i - 1] == events[i]);
            assert forall|j: int| 0 <= j < i implies journal_trace(state, events)[j]
                == JournalAction::Ignore by {
                if j > 0 {
                    lemma_trace_step(state, events, j);
                } else {
                    assert(journal_trace(state, events)[0] == action);
                }
            }
        } else if next.stage is Refused {
            lemma_refused_stays_idle(next, events.drop_first(), i - 1);
        } else {
            lemma_never_rewrites(next, events.drop_first(), i - 1);
        }
    }
}

proof fn lemma_never_rewrites(state: JournalState, events: Seq<JournalEvent>, i: int)
    requires
        journal_requested(state.stage),
        0 <= i < events.len(),
    ensures
        journal_trace(state, events)[i] != JournalAction::WriteJournal,
    decreases events.len(),
{
    lemma_trace_len(state, events);
    lemma_requirement_kept(state, events[0]);
    let (next, action) = spec_journal_step(state, events[0]);
    if i == 0 {
        assert(journal_trace(state, events)[0] == action);
    } else {
        lemma_trace_step(state, events, i);
        lemma_never_rewrites(next, events.drop_first(), i - 1);
    }
}

proof fn lemma_refuse_is_final(state: JournalState, events: Seq<JournalEvent>, i: int)
    requires
        0 <= i < events.len(),
        journal_trace(state, events)[i] == JournalAction::Refuse,
    ensures
        forall|j: int| i < j < events.len() ==> journal_trace(state, events)[j] == JournalAction::Ignore,
    decreases events.len(),
{
    lemma_trace_len(state, events);
    let (next, action) = spec_journal_step(state, events[0]);
    if i == 0 {
        assert(journal_trace(state, events)[0] == action);
        assert(next.stage is Refused);
        assert forall|j: int| 0 < j < events.len() implies journal_trace(state, events)[j]
            == JournalAction::Ignore by {
            lemma_trace_step(state, events, j);
            lemma_refused_stays_idle(next, events.drop_first(), j - 1);
        }
    } else {
        lemma_trace_step(state, events, i);
        lemma_refuse_is_final(next, events.drop_first(), i - 1);
        assert forall|j: int| i < j < events.len() implies journal_trace(state, events)[j]
            == JournalAction::Ignore by {
            lemma_trace_step(state, events, j);
        }
    }
}

/// The completeness a stage carries: what the capture records acted on so
/// far reported.
pub open spec fn stage_complete(stage: JournalStage) -> bool {
    match stage {
        JournalStage::SavingCapture { complete, .. } => complete,
        JournalStage::CapturingExplicit { complete } => complete,
        JournalStage::SavingExplicit { complete } => complete,
        JournalStage::SavingStatus { complete } => complete,
        _ => true,
    }
}

/// A stage after which nothing more happens.
pub open spec fn terminal(stage: JournalStage) -> bool {
    stage is Refused || stage is Finished || stage is Failed
}

/// Whether the capture record that `action` saves, in answer to `event`,
/// reported a complete capture (true of every other action).
pub open spec fn record_complete(action: JournalAction, event: JournalEvent) -> bool {
    &&& action == JournalAction::SaveCapture ==> (event matches JournalEvent::CaptureRecorded {
        complete,
        ..
    } && complete)
    &&& action == JournalAction::SaveExplicit ==> (event matches JournalEvent::ExplicitRecorded {
        complete,
    } && complete)
}

proof fn lemma_step_completeness(state: JournalState, event: JournalEvent)
    ensures
        !terminal(spec_journal_step(state, event).0.stage) ==> stage_complete(
            spec_journal_step(state, event).0.stage,
        ) == (stage_complete(state.stage) && record_complete(
            spec_journal_step(state, event).1,
            event,
        )),
        terminal(state.stage) ==> spec_journal_step(state, event) == (state, JournalAction::Ignore),
        spec_journal_step(state, event).0.require_complete == state.require_complete,
{
}

proof fn lemma_terminal_idle(state: JournalState, events: Seq<JournalEvent>, i: int)
    requires
        terminal(state.stage),
        0 <= i < events.len(),
    ensures
        journal_trace(state, events)[i] == JournalAction::Ignore,
    decreases events.len(),
{
    lemma_trace_len(state, events);
    lemma_step_completeness(state, events[0]);
    if i > 0 {
        lemma_trace_step(state, events, i);
        lemma_terminal_idle(state, events.drop_first(), i - 1);
    }
}

proof fn lemma_status_completeness(state: JournalState, events: Seq<JournalEvent>, i: int)
    requires
        0 <= i < events.len(),
    ensures
        journal_trace(state, events)[i] matches JournalAction::SaveStatus { complete } ==> complete
            == (stage_complete(state.stage) && forall|j: int|
            0 <= j < i ==> record_complete(
                #[trigger] journal_trace(state, events)[j],
                events[j],
            )),
        journal_trace(state, events)[i] == JournalAction::Finish && state.require_complete ==> (
        stage_complete(state.stage) && forall|j: int|
            0 <= j < i ==> record_complete(#[trigger] journal_trace(state, events)[j], events[j])),
        journal_trace(state, events)[i] == JournalAction::FailIncomplete ==> !(stage_complete(
            state.stage,
        ) && forall|j: int|
            0 <= j < i ==> record_complete(#[trigger] journal_trace(state, events)[j], events[j])),
    decreases events.len(),
{
    lemma_trace_len(state, events);
    let acts = journal_trace(state, events);
    let (next, action) = spec_journal_step(state, events[0]);
    lemma_step_completeness(state, events[0]);
    if i == 0 {
        assert(acts[0] == action);
    } else {
        lemma_trace_step(state, events, i);
        let tail = events.drop_first();
        let tacts = journal_trace(next, tail);
        let relevant = acts[i] is SaveStatus || acts[i] == JournalAction::Finish || acts[i]
            == JournalAction::FailIncomplete;
        if relevant {
            if terminal(next.stage) {
                lemma_terminal_idle(next, tail, i - 1);
            } else {
                lemma_status_completeness(next, tail, i - 1);
                assert(acts[0] == action);
                let all_tail = forall|j: int|
                    0 <= j < i - 1 ==> record_complete(#[trigger] tacts[j], tail[j]);
                let all = forall|j: int|
                    0 <= j < i ==> record_complete(#[trigger] acts[j], events[j]);
                assert(all == (record_complete(acts[0], events[0]) && all_tail)) by {
                    if all {
                        assert forall|j: int| 0 <= j < i - 1 implies record_complete(
                            #[trigger] tacts[j],
                            tail[j],
                        ) by {
                            lemma_trace_step(state, events, j + 1);
                            assert(record_complete(acts[j + 1], events[j + 1]));
                        }
                    }
                    if record_complete(acts[0], events[0]) && all_tail {
                        assert forall|j: int| 0 <= j < i implies record_complete(
                            #[trigger] acts[j],
                            events[j],
                        ) by {
                            if j > 0 {
                                lemma_trace_step(state, events, j);
                                assert(record_complete(tacts[j - 1], tail[j - 1]));
                            }
                        }
                    }
                }
            }
        }
    }
}

/// The final status reports exactly what the capture records reported, for
/// every sequence of outcomes: a saved status is complete exactly when every
/// capture record saved before it (the requested diagnostics, and the
/// explicit ones when they ran) reported a complete capture. Under
/// `--require-complete-capture` a run finishes only when every record was
/// complete, and it fails as incomplete only when some record was not.
pub proof fn lemma_status_reports_records(require_complete: bool, events: Seq<JournalEvent>, i: int)
    requires
        0 <= i < events.len(),
    ensures
        journal_trace(spec_journal_start(require_complete), events)[i] matches JournalAction::SaveStatus {
            complete,
        } ==> complete == forall|j: int|
            0 <= j < i ==> record_complete(
                #[trigger] journal_trace(spec_journal_start(require_complete), events)[j],
                events[j],
            ),
        journal_trace(spec_journal_start(require_complete), events)[i] == JournalAction::Finish
            && require_complete ==> forall|j: int|
            0 <= j < i ==> record_complete(
                #[trigger] journal_trace(spec_journal_start(require_complete), events)[j],
                events[j],
            ),
        journal_trace(spec_journal_start(require_complete), events)[i]
            == JournalAction::FailIncomplete ==> !forall|j: int|
            0 <= j < i ==> record_complete(
                #[trigger] journal_trace(spec_journal_start(require_complete), events)[j],
                events[j],
            ),
{
    lemma_status_completeness(spec_journal_start(require_complete), events, i);
}

} // verus!
