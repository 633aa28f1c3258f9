//! The phases of one audit run and the transitions between them.
//!
//! A run moves through fetching, filtering, reporting, the operator's
//! confirmation, and then either the cleanup batch or a skip, to its
//! end; a fatal failure in an early phase ends the run at once.  The
//! transition function below is the whole of that control flow, and no
//! phase is ever entered twice.

use vstd::prelude::*;

verus! {

/// Where a run stands.
#[derive(Clone, Copy, Debug, PartialEq, Eq, Structural)]
pub enum Phase {
    /// Asking the remote service for the account list.
    Fetching,
    /// Selecting the inactive accounts.
    Filtering,
    /// Writing the durable report.
    Reporting,
    /// Waiting for the operator's answer.
    AwaitingConfirmation,
    /// Running the external deletions row by row.
    CleaningUp,
    /// The operator declined; nothing was deleted.
    Skipped,
    /// The run ended normally.
    Done,
    /// A fatal error ended the run early.
    Failed,
}

/// What happened while a phase ran.
#[derive(Clone, Copy, Debug, PartialEq, Eq, Structural)]
pub enum PhaseEvent {
    /// The account list arrived and parsed.
    FetchSucceeded,
    /// Transport failed, the response was not a success, or its body
    /// did not parse.
    FetchFailed,
    /// The inactive subset was computed.
    FilterComputed,
    /// The report file was written and closed.
    ReportWritten,
    /// The report file could not be created or written.
    ReportFailed,
    /// The operator consented to the cleanup.
    Confirmed,
    /// The operator declined, or input ended.
    Declined,
    /// Every row of the batch was dealt with.
    BatchFinished,
    /// The skip was acknowledged.
    SkipAcknowledged,
}

/// Which events a phase can answer to.
pub open spec fn event_fits(p: Phase, e: PhaseEvent) -> bool {
    match (p, e) {
        (Phase::Fetching, PhaseEvent::FetchSucceeded) => true,
        (Phase::Fetching, PhaseEvent::FetchFailed) => true,
        (Phase::Filtering, PhaseEvent::FilterComputed) => true,
        (Phase::Reporting, PhaseEvent::ReportWritten) => true,
        (Phase::Reporting, PhaseEvent::ReportFailed) => true,
        (Phase::AwaitingConfirmation, PhaseEvent::Confirmed) => true,
        (Phase::AwaitingConfirmation, PhaseEvent::Declined) => true,
        (Phase::CleaningUp, PhaseEvent::BatchFinished) => true,
        (Phase::Skipped, PhaseEvent::SkipAcknowledged) => true,
        _ => false,
    }
}

/// The phase a fitting event leads to.
pub open spec fn next_phase(p: Phase, e: PhaseEvent) -> Phase {
    match (p, e) {
        (Phase::Fetching, PhaseEvent::FetchSucceeded) => Phase::Filtering,
        (Phase::Fetching, PhaseEvent::FetchFailed) => Phase::Failed,
        (Phase::Filtering, PhaseEvent::FilterComputed) => Phase::Reporting,
        (Phase::Reporting, PhaseEvent::ReportWritten) => Phase::AwaitingConfirmation,
        (Phase::Reporting, PhaseEvent::ReportFailed) => Phase::Failed,
        (Phase::AwaitingConfirmation, PhaseEvent::Confirmed) => Phase::CleaningUp,
        (Phase::AwaitingConfirmation, PhaseEvent::Declined) => Phase::Skipped,
        (Phase::CleaningUp, PhaseEvent::BatchFinished) => Phase::Done,
        (Phase::Skipped, PhaseEvent::SkipAcknowledged) => Phase::Done,
        _ => p,
    }
}

/// Steps the run: the phase a fitting event leads to.
pub fn advance(p: Phase, e: PhaseEvent) -> (n: Phase)
    requires
        event_fits(p, e),
    ensures
        n == next_phase(p, e),
{
    match (p, e) {
        (Phase::Fetching, PhaseEvent::FetchSucceeded) => Phase::Filtering,
        (Phase::Fetching, PhaseEvent::FetchFailed) => Phase::Failed,
        (Phase::Filtering, PhaseEvent::FilterComputed) => Phase::Reporting,
        (Phase::Reporting, PhaseEvent::ReportWritten) => Phase::AwaitingConfirmation,
        (Phase::Reporting, PhaseEvent::ReportFailed) => Phase::Failed,
        (Phase::AwaitingConfirmation, PhaseEvent::Confirmed) => Phase::CleaningUp,
        (Phase::AwaitingConfirmation, PhaseEvent::Declined) => Phase::Skipped,
        (Phase::CleaningUp, PhaseEvent::BatchFinished) => Phase::Done,
        (Phase::Skipped, PhaseEvent::SkipAcknowledged) => Phase::Done,
        _ => p,
    }
}

/// How far along a run each phase lies.
pub open spec fn phase_rank(p: Phase) -> int {
    match p {
        Phase::Fetching => 0,
        Phase::Filtering => 1,
        Phase::Reporting => 2,
        Phase::AwaitingConfirmation => 3,
        Phase::CleaningUp => 4,
        Phase::Skipped => 4,
        Phase::Done => 5,
        Phase::Failed => 6,
    }
}

/// Law: every transition moves the run strictly forward, so no phase is
/// ever re-entered, however the run unfolds.
pub proof fn lemma_no_reentry(p: Phase, e: PhaseEvent)
    requires
        event_fits(p, e),
    ensures
        phase_rank(next_phase(p, e)) > phase_rank(p),
{
}

} // verus!
