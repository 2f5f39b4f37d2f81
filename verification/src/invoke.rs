//! What the end of a run means for the launcher's own exit code.
//!
//! The launcher starts the container and waits for it, either at once or
//! after it has told a companion program that the service is up. In both
//! cases the way the run ended decides the launcher's exit code.

use vstd::prelude::*;

verus! {

/// The exit code of the launcher when the run ended without an exit code of
/// its own, as it does when a signal ends it.
pub const FALLBACK_EXIT_CODE: i32 = 1;

/// How a run ended.
#[derive(Debug, Clone, Copy, PartialEq, Eq)]
pub enum ExitOutcome {
    /// With exit code 0.
    Success,
    /// With this exit code, which is not 0.
    FailedWithCode(i32),
    /// Without an exit code.
    FailedNoCode,
}

/// How a run ended, given its exit code if it had one.
pub open spec fn exit_outcome(status: Option<i32>) -> ExitOutcome {
    match status {
        Some(code) => if code == 0 {
            ExitOutcome::Success
        } else {
            ExitOutcome::FailedWithCode(code)
        },
        None => ExitOutcome::FailedNoCode,
    }
}

/// The launcher's exit code for a run that ended in this way: the run's own
/// code where it had one, and the fallback where it had none.
pub open spec fn exit_code_of(outcome: ExitOutcome) -> i32 {
    match outcome {
        ExitOutcome::Success => 0,
        ExitOutcome::FailedWithCode(code) => code,
        ExitOutcome::FailedNoCode => FALLBACK_EXIT_CODE,
    }
}

/// What the user is told of a run that ended in this way; nothing for a
/// success.
pub open spec fn failure_report(outcome: ExitOutcome) -> Option<Seq<char>> {
    match outcome {
        ExitOutcome::Success => None,
        ExitOutcome::FailedWithCode(_) => Some("error: the Docker command signaled failure"@),
        ExitOutcome::FailedNoCode => Some("error: the Docker command exited unexpectedly"@),
    }
}

/// Says how a run ended, given its exit code if it had one.
pub fn classify_exit(status: Option<i32>) -> (outcome: ExitOutcome)
    ensures
        outcome == exit_outcome(status),
        outcome matches ExitOutcome::FailedWithCode(code) ==> code != 0,
{
    match status {
        Some(code) => {
            if code == 0 {
                ExitOutcome::Success
            } else {
                ExitOutcome::FailedWithCode(code)
            }
        },
        None => ExitOutcome::FailedNoCode,
    }
}

impl ExitOutcome {
    /// Whether the run succeeded.
    pub fn is_success(&self) -> (b: bool)
        ensures
            b == (*self == ExitOutcome::Success),
    {
        match self {
            ExitOutcome::Success => true,
            _ => false,
        }
    }

    /// The exit code of the launcher.
    pub fn exit_code(&self) -> (code: i32)
        ensures
            code == exit_code_of(*self),
    {
        match self {
            ExitOutcome::Success => 0,
            ExitOutcome::FailedWithCode(code) => *code,
            ExitOutcome::FailedNoCode => FALLBACK_EXIT_CODE,
        }
    }

    /// What to tell the user, if anything.
    pub fn report(&self) -> (text: Option<String>)
        ensures
            text is Some == failure_report(*self) is Some,
            text is Some ==> failure_report(*self) == Some(text->0@),
    {
        match self {
            ExitOutcome::Success => None,
            ExitOutcome::FailedWithCode(_) => Some(
                "error: the Docker command signaled failure".to_owned(),
            ),
            ExitOutcome::FailedNoCode => Some(
                "error: the Docker command exited unexpectedly".to_owned(),
            ),
        }
    }
}

/// The exit code of the launcher for a run with this exit status.
pub fn program_exit_code(status: Option<i32>) -> (code: i32)
    ensures
        code == exit_code_of(exit_outcome(status)),
        status matches Some(own) ==> code == own,
        status is None ==> code == FALLBACK_EXIT_CODE,
{
    classify_exit(status).exit_code()
}

/// The launcher leaves with 0 only for a run that itself left with 0: a
/// failure of any kind is never reported as a success.
pub proof fn lemma_success_only_for_zero(status: Option<i32>)
    ensures
        exit_code_of(exit_outcome(status)) == 0 <==> status == Some(0i32),
        exit_code_of(exit_outcome(status)) == 0 <==> exit_outcome(status) == ExitOutcome::Success,
{
}

} // verus!
