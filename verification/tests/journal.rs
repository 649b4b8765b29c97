use ccm_reproduction::journal::{
    journal_start, journal_step, JournalAction, JournalEvent, JournalStage, JournalState,
};

fn drive(require_complete: bool, events: &[JournalEvent]) -> (JournalState, Vec<JournalAction>) {
    let mut state = journal_start(require_complete);
    let mut actions = Vec::new();
    for event in events {
        let (next, action) = journal_step(state, *event);
        state = next;
        actions.push(action);
    }
    (state, actions)
}

#[test]
fn a_complete_capture_saves_everything_then_finishes() {
    let (state, actions) = drive(
        true,
        &[
            JournalEvent::ExclusionsDecided { settled: true },
            JournalEvent::JournalWritten,
            JournalEvent::PrimaryAcquired,
            JournalEvent::Saved,
            JournalEvent::CaptureRecorded { complete: true, explicit_pending: true },
            JournalEvent::Saved,
            JournalEvent::ExplicitRecorded { complete: true },
            JournalEvent::Saved,
            JournalEvent::Saved,
        ],
    );
    assert_eq!(
        actions,
        vec![
            JournalAction::WriteJournal,
            JournalAction::AcquirePrimary,
            JournalAction::SavePrimary,
            JournalAction::CaptureRequested,
            JournalAction::SaveCapture,
            JournalAction::CaptureExplicit,
            JournalAction::SaveExplicit,
            JournalAction::SaveStatus { complete: true },
            JournalAction::Finish,
        ]
    );
    assert_eq!(state.stage, JournalStage::Finished);
}

#[test]
fn require_complete_capture_fails_only_after_the_status_is_saved() {
    let events = [
        JournalEvent::ExclusionsDecided { settled: true },
        JournalEvent::JournalWritten,
        JournalEvent::PrimaryAcquired,
        JournalEvent::Saved,
        JournalEvent::CaptureRecorded { complete: true, explicit_pending: true },
        JournalEvent::Saved,
        JournalEvent::ExplicitRecorded { complete: false },
        JournalEvent::Saved,
        JournalEvent::Saved,
    ];
    let (state, actions) = drive(true, &events);
    assert_eq!(actions[7], JournalAction::SaveStatus { complete: false });
    assert_eq!(actions[8], JournalAction::FailIncomplete);
    assert_eq!(state.stage, JournalStage::Failed);
    let (state, actions) = drive(false, &events);
    assert_eq!(actions[8], JournalAction::Finish);
    assert_eq!(state.stage, JournalStage::Finished);
}

#[test]
fn unsettled_exclusions_refuse_before_any_work() {
    let (state, actions) = drive(
        false,
        &[
            JournalEvent::ExclusionsDecided { settled: false },
            JournalEvent::JournalWritten,
            JournalEvent::PrimaryAcquired,
        ],
    );
    assert_eq!(
        actions,
        vec![JournalAction::Refuse, JournalAction::Ignore, JournalAction::Ignore]
    );
    assert_eq!(state.stage, JournalStage::Refused);
}

#[test]
fn failures_are_recorded_before_the_error() {
    let (_, actions) = drive(
        false,
        &[
            JournalEvent::PrimaryAcquired,
            JournalEvent::ExclusionsDecided { settled: true },
            JournalEvent::JournalWritten,
            JournalEvent::PrimaryFailed,
        ],
    );
    assert_eq!(
        actions,
        vec![
            JournalAction::Ignore,
            JournalAction::WriteJournal,
            JournalAction::AcquirePrimary,
            JournalAction::RecordPrimaryFailure,
        ]
    );
    let (state, actions) = drive(
        false,
        &[
            JournalEvent::ExclusionsDecided { settled: true },
            JournalEvent::JournalWritten,
            JournalEvent::PrimaryAcquired,
            JournalEvent::CapturePersistenceFailed,
            JournalEvent::Saved,
            JournalEvent::CapturePersistenceFailed,
        ],
    );
    assert_eq!(actions[2], JournalAction::SavePrimary);
    assert_eq!(actions[3], JournalAction::Ignore);
    assert_eq!(actions[4], JournalAction::CaptureRequested);
    assert_eq!(actions[5], JournalAction::RecordCaptureFailure);
    assert_eq!(state.stage, JournalStage::Failed);
}

#[test]
fn the_primary_is_saved_before_any_diagnostic_runs() {
    let (state, actions) = drive(
        false,
        &[
            JournalEvent::ExclusionsDecided { settled: true },
            JournalEvent::JournalWritten,
            JournalEvent::PrimaryAcquired,
            JournalEvent::CaptureRecorded { complete: true, explicit_pending: false },
        ],
    );
    assert_eq!(actions[2], JournalAction::SavePrimary);
    assert_eq!(actions[3], JournalAction::Ignore);
    assert_eq!(state.stage, JournalStage::SavingPrimary);
}
