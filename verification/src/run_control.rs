//! The control flow of a pipeline run: which step comes next after what a
//! step reported, and how a run that stops closes the intent it opened.
//!
//! The steps themselves (opening the stores, talking to the device,
//! parsing, writing the report) are done by the caller, which reports each
//! outcome back and takes the action returned.

use vstd::prelude::*;
use crate::acquisition::NO_EVIDENCE_FOR_CORRELATION;
use crate::error::{error_text, OracleError};
use crate::text::{append, owned};

verus! {

/// A step of a pipeline run.
#[derive(Debug, Clone, Copy, PartialEq, Eq, Structural)]
pub enum RunStep {
    /// Open the audit log and the evidence store, then record the run's
    /// intent.
    OpenStores,
    /// Check that the expected device is connected and answers.
    VerifyConnection,
    /// Detect the device's capabilities and acknowledge the profile.
    DetectCapabilities,
    /// Ask the examiner what to do with a device before first unlock.
    ResolveLockedDevice,
    /// Scan the device for artifacts.
    DiscoverArtifacts,
    /// Acquire the discovered artifacts.
    AcquireArtifacts,
    /// Store the acquired artifacts.
    StoreArtifacts,
    /// Parse the stored artifacts.
    ParseArtifacts,
    /// Normalize the parsed records.
    NormalizeRecords,
    /// Resolve networks, reconstruct events, build the timeline.
    CorrelateRecords,
    /// Score the findings.
    ScoreFindings,
    /// Generate and sign the report.
    GenerateReport,
    /// Verify the audit chain.
    VerifyAuditChain,
}

/// What a step reported.
#[derive(Debug)]
pub enum StepOutcome {
    /// The step did its work.
    Completed,
    /// Capability detection found the device before first unlock.
    DeviceLocked,
    /// The examiner aborted at the before-first-unlock prompt.
    ExaminerAborted,
    /// Nothing could be acquired; the message that reports it.
    NothingAcquired(String),
    /// Correlation found no normalized record to work on.
    NoRecords,
    /// The step failed with this error.
    Failed(OracleError),
}

/// What the run does next.
#[derive(Debug)]
pub enum RunAction {
    /// Take this step.
    Take(RunStep),
    /// Stop with `error`, first closing the run's intent with the failure
    /// `run_failure` when there is one.
    Halt { run_failure: Option<String>, error: OracleError },
    /// Close the run's intent with success: the run is done.
    Finish,
}

/// The step reports only what it can report: a locked device comes from
/// capability detection, an abort from the prompt, an empty acquisition
/// from acquisition, a lack of records from correlation; any step can
/// complete or fail.
pub open spec fn reportable(step: RunStep, outcome: StepOutcome) -> bool {
    match outcome {
        StepOutcome::Completed => true,
        StepOutcome::Failed(_) => true,
        StepOutcome::DeviceLocked => step == RunStep::DetectCapabilities,
        StepOutcome::ExaminerAborted => step == RunStep::ResolveLockedDevice,
        StepOutcome::NothingAcquired(_) => step == RunStep::AcquireArtifacts,
        StepOutcome::NoRecords => step == RunStep::CorrelateRecords,
    }
}

/// The step after `step` when it completes.
pub open spec fn next_step(step: RunStep) -> Option<RunStep> {
    match step {
        RunStep::OpenStores => Some(RunStep::VerifyConnection),
        RunStep::VerifyConnection => Some(RunStep::DetectCapabilities),
        RunStep::DetectCapabilities => Some(RunStep::DiscoverArtifacts),
        RunStep::ResolveLockedDevice => Some(RunStep::DiscoverArtifacts),
        RunStep::DiscoverArtifacts => Some(RunStep::AcquireArtifacts),
        RunStep::AcquireArtifacts => Some(RunStep::StoreArtifacts),
        RunStep::StoreArtifacts => Some(RunStep::ParseArtifacts),
        RunStep::ParseArtifacts => Some(RunStep::NormalizeRecords),
        RunStep::NormalizeRecords => Some(RunStep::CorrelateRecords),
        RunStep::CorrelateRecords => Some(RunStep::ScoreFindings),
        RunStep::ScoreFindings => Some(RunStep::GenerateReport),
        RunStep::GenerateReport => Some(RunStep::VerifyAuditChain),
        RunStep::VerifyAuditChain => None,
    }
}

/// A failure of `step` closes the run's intent: once the intent is
/// recorded, the connection check, capability detection and discovery
/// close it with the error's message. The stores failing to open leave no
/// intent to close; a failure while asking about a locked device, of the
/// report, or of an audit write leaves it open.
pub open spec fn closes_run_on_failure(step: RunStep) -> bool {
    step == RunStep::VerifyConnection || step == RunStep::DetectCapabilities || step
        == RunStep::DiscoverArtifacts
}

/// `a` is the action the run takes after `step` reported `outcome`.
pub open spec fn acts_as(a: RunAction, step: RunStep, outcome: StepOutcome) -> bool {
    match outcome {
        StepOutcome::Completed => match next_step(step) {
            Some(n) => a == RunAction::Take(n),
            None => a == RunAction::Finish,
        },
        StepOutcome::DeviceLocked => a == RunAction::Take(RunStep::ResolveLockedDevice),
        StepOutcome::ExaminerAborted => a matches RunAction::Halt { run_failure: Some(f), error }
            && f@ == "INVESTIGATION_ABORTED_BFU"@ && error == OracleError::ExaminerAborted,
        StepOutcome::NothingAcquired(m) => a matches RunAction::Halt {
            run_failure: Some(f),
            error: OracleError::PipelineHalted { state, detail },
        } && f@ == m@ && state@ == "ACQUISITION_FAILED"@ && detail@ == m@,
        StepOutcome::NoRecords => a matches RunAction::Halt {
            run_failure: Some(f),
            error: OracleError::CorrelationFailed { reason },
        } && f@ == NO_EVIDENCE_FOR_CORRELATION@ && reason@ == NO_EVIDENCE_FOR_CORRELATION@,
        StepOutcome::Failed(e) => if step == RunStep::VerifyAuditChain {
            a == RunAction::Finish
        } else if step == RunStep::VerifyConnection {
            a matches RunAction::Halt {
                run_failure: Some(f),
                error: OracleError::PipelineHalted { state, detail },
            } && f@ == "CONNECTION_VERIFICATION_FAILED: "@ + error_text(e) && state@
                == "CONNECTION_VERIFICATION_FAILED"@ && detail@ == error_text(e)
        } else if closes_run_on_failure(step) {
            a matches RunAction::Halt { run_failure: Some(f), error } && f@ == error_text(e)
                && error == e
        } else {
            a == RunAction::Halt { run_failure: None, error: e }
        },
    }
}

/// The action after `step` reported `outcome`. A failed audit-chain
/// verification does not stop the run, which finishes anyway.
pub fn next_run_action(step: RunStep, outcome: StepOutcome) -> (a: RunAction)
    requires
        reportable(step, outcome),
    ensures
        acts_as(a, step, outcome),
{
    match outcome {
        StepOutcome::Completed => match step {
            RunStep::OpenStores => RunAction::Take(RunStep::VerifyConnection),
            RunStep::VerifyConnection => RunAction::Take(RunStep::DetectCapabilities),
            RunStep::DetectCapabilities => RunAction::Take(RunStep::DiscoverArtifacts),
            RunStep::ResolveLockedDevice => RunAction::Take(RunStep::DiscoverArtifacts),
            RunStep::DiscoverArtifacts => RunAction::Take(RunStep::AcquireArtifacts),
            RunStep::AcquireArtifacts => RunAction::Take(RunStep::StoreArtifacts),
            RunStep::StoreArtifacts => RunAction::Take(RunStep::ParseArtifacts),
            RunStep::ParseArtifacts => RunAction::Take(RunStep::NormalizeRecords),
            RunStep::NormalizeRecords => RunAction::Take(RunStep::CorrelateRecords),
            RunStep::CorrelateRecords => RunAction::Take(RunStep::ScoreFindings),
            RunStep::ScoreFindings => RunAction::Take(RunStep::GenerateReport),
            RunStep::GenerateReport => RunAction::Take(RunStep::VerifyAuditChain),
            RunStep::VerifyAuditChain => RunAction::Finish,
        },
        StepOutcome::DeviceLocked => RunAction::Take(RunStep::ResolveLockedDevice),
        StepOutcome::ExaminerAborted => RunAction::Halt {
            run_failure: Some(owned("INVESTIGATION_ABORTED_BFU")),
            error: OracleError::ExaminerAborted,
        },
        StepOutcome::NothingAcquired(m) => RunAction::Halt {
            run_failure: Some(owned(m.as_str())),
            error: OracleError::PipelineHalted { state: owned("ACQUISITION_FAILED"), detail: m },
        },
        StepOutcome::NoRecords => RunAction::Halt {
            run_failure: Some(owned(NO_EVIDENCE_FOR_CORRELATION)),
            error: OracleError::CorrelationFailed { reason: owned(NO_EVIDENCE_FOR_CORRELATION) },
        },
        StepOutcome::Failed(e) => match step {
            RunStep::VerifyAuditChain => RunAction::Finish,
            RunStep::VerifyConnection => {
                let text = e.display_text();
                let mut f = owned("CONNECTION_VERIFICATION_FAILED: ");
                append(&mut f, text.as_str());
                RunAction::Halt {
                    run_failure: Some(f),
                    error: OracleError::PipelineHalted {
                        state: owned("CONNECTION_VERIFICATION_FAILED"),
                        detail: text,
                    },
                }
            },
            RunStep::DetectCapabilities | RunStep::DiscoverArtifacts => {
                let text = e.display_text();
                RunAction::Halt { run_failure: Some(text), error: e }
            },
            _ => RunAction::Halt { run_failure: None, error: e },
        },
    }
}

/// The steps of a run on an unlocked device, in order.
pub open spec fn clean_run() -> Seq<RunStep> {
    seq![
        RunStep::OpenStores,
        RunStep::VerifyConnection,
        RunStep::DetectCapabilities,
        RunStep::DiscoverArtifacts,
        RunStep::AcquireArtifacts,
        RunStep::StoreArtifacts,
        RunStep::ParseArtifacts,
        RunStep::NormalizeRecords,
        RunStep::CorrelateRecords,
        RunStep::ScoreFindings,
        RunStep::GenerateReport,
        RunStep::VerifyAuditChain,
    ]
}

/// A run in which every step completes takes every step once, in order,
/// and finishes after verifying the audit chain; a locked device only adds
/// the examiner's prompt between capability detection and discovery.
pub proof fn law_completed_steps_run_in_order()
    ensures
        forall|i: int|
            0 <= i < clean_run().len() - 1 ==> next_step(#[trigger] clean_run()[i]) == Some(
                clean_run()[i + 1],
            ),
        next_step(clean_run().last()) is None,
        next_step(RunStep::ResolveLockedDevice) == Some(RunStep::DiscoverArtifacts),
{
}

/// Once a run has recorded its intent, every stop it makes because of
/// what the device or its evidence showed closes that intent with a
/// failure: a failed connection check, capability detection or discovery,
/// the examiner's abort, an empty acquisition and the lack of records.
pub proof fn law_evidence_stops_close_the_run(step: RunStep, outcome: StepOutcome, a: RunAction)
    requires
        reportable(step, outcome),
        acts_as(a, step, outcome),
        match outcome {
            StepOutcome::Failed(_) => closes_run_on_failure(step),
            StepOutcome::Completed | StepOutcome::DeviceLocked => false,
            _ => true,
        },
    ensures
        a matches RunAction::Halt { run_failure: Some(_), .. },
{
}

} // verus!
