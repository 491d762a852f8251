//! Failures of a child process, and how several of them are kept together.
use vstd::prelude::*;

verus! {

/// What kind of failure the operating system reported.
#[derive(Clone, Copy, Debug, PartialEq, Eq, Structural)]
pub enum IoKind {
    NotFound,
    PermissionDenied,
    InvalidInput,
    Unsupported,
    Other,
}

/// A failure that the operating system reported.
#[derive(Clone, Debug, PartialEq, Eq)]
pub struct IoFailure {
    pub kind: IoKind,
    pub message: String,
}

/// Failures that prevent even an incomplete process record from being trusted.
#[derive(Debug)]
pub enum ProcessError {
    UnsupportedPlatform,
    InvalidSpec(&'static str),
    InvalidLimits(&'static str),
    InvalidCurrentDirectory { path: Vec<u8> },
    Spawn { program: Vec<u8>, source: IoFailure },
    MissingPipe { stream: &'static str },
    PipeConfiguration { stream: &'static str, source: IoFailure },
    CaptureSpawn { stream: &'static str, source: IoFailure },
    Capture { stream: &'static str, source: IoFailure },
    CapturePanic(&'static str),
    BudgetExhausted,
    Wait(IoFailure),
    GroupSignal(IoFailure),
    GroupWait(IoFailure),
    GroupUnreaped,
    LeaderSignal(IoFailure),
    Reap(IoFailure),
    Unreaped,
    CaptureDrainTimeout,
    MultipleFailures { failures: Vec<ProcessError> },
}

/// The single failures that an error stands for.
pub open spec fn failures_of(error: ProcessError) -> Seq<ProcessError> {
    match error {
        ProcessError::MultipleFailures { failures } => failures@,
        other => seq![other],
    }
}

/// Adds an error to those seen so far; one that stands for several adds each of them.
pub fn push_error(errors: &mut Vec<ProcessError>, error: ProcessError)
    ensures
        final(errors)@ == old(errors)@ + failures_of(error),
{
    match error {
        ProcessError::MultipleFailures { failures } => {
            let mut several: Vec<ProcessError> = failures;
            errors.append(&mut several);
        },
        other => {
            errors.push(other);
        },
    }
}

/// The one error that stands for all those seen.
pub open spec fn combined(errors: Seq<ProcessError>, error: ProcessError) -> bool {
    if errors.len() == 1 {
        error == errors[0]
    } else {
        error matches ProcessError::MultipleFailures { failures } && failures@ == errors
    }
}

pub fn combine_errors(errors: Vec<ProcessError>) -> (r: ProcessError)
    ensures
        combined(errors@, r),
{
    let mut errors: Vec<ProcessError> = errors;
    if errors.len() == 1 {
        match errors.pop() {
            Some(only) => only,
            None => ProcessError::MultipleFailures { failures: errors },
        }
    } else {
        ProcessError::MultipleFailures { failures: errors }
    }
}

/// Whatever is combined is kept: adding the combined error to others adds each failure of which
/// it was made. Only a combination that stands alone is not counted as one failure: it adds those of
/// which it was made itself.
pub proof fn law_combining_keeps_failures(errors: Seq<ProcessError>, error: ProcessError)
    requires
        combined(errors, error),
    ensures
        failures_of(error) == if errors.len() == 1 {
            failures_of(errors[0])
        } else {
            errors
        },
        !(errors.len() == 1 && errors[0] is MultipleFailures) ==> failures_of(error) == errors,
{
    if errors.len() == 1 && !(errors[0] is MultipleFailures) {
        assert(failures_of(error) =~= errors);
    }
}

} // verus!
