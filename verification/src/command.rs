//! The narrow facade that a command line uses.
use crate::model::Verdict;
use crate::orchestration::ReadOnlyMode;
use vstd::prelude::*;

verus! {

/// Read-only command selected by the caller.
#[derive(Clone, Copy, Debug, PartialEq, Eq, Structural)]
pub enum ReadOnlyCommandMode {
    Check,
    Ci,
}

impl ReadOnlyCommandMode {
    /// The mode in which the plan is made.
    pub fn plan_mode(&self) -> (r: ReadOnlyMode)
        ensures
            r == (match self {
                ReadOnlyCommandMode::Check => ReadOnlyMode::Check,
                ReadOnlyCommandMode::Ci => ReadOnlyMode::Ci,
            }),
    {
        match self {
            ReadOnlyCommandMode::Check => ReadOnlyMode::Check,
            ReadOnlyCommandMode::Ci => ReadOnlyMode::Ci,
        }
    }
}

/// The step of a read-only command that failed, and why.
#[derive(Clone, Debug, PartialEq, Eq)]
pub enum RuntimeCommandError {
    Execution(String),
    Projection(String),
    Report(String),
}

/// What came of a step, with its failure named for the command's caller.
pub fn after_execution<T>(step: Result<T, String>) -> (r: Result<T, RuntimeCommandError>)
    ensures
        r == (match step {
            Ok(value) => Ok::<T, RuntimeCommandError>(value),
            Err(source) => Err(RuntimeCommandError::Execution(source)),
        }),
{
    match step {
        Ok(value) => Ok(value),
        Err(source) => Err(RuntimeCommandError::Execution(source)),
    }
}

/// What came of a projection, with its failure named for the command's caller.
pub fn after_projection<T>(step: Result<T, String>) -> (r: Result<T, RuntimeCommandError>)
    ensures
        r == (match step {
            Ok(value) => Ok::<T, RuntimeCommandError>(value),
            Err(source) => Err(RuntimeCommandError::Projection(source)),
        }),
{
    match step {
        Ok(value) => Ok(value),
        Err(source) => Err(RuntimeCommandError::Projection(source)),
    }
}

/// What came of assembling the report, with its failure named for the command's caller.
pub fn after_report<T>(step: Result<T, String>) -> (r: Result<T, RuntimeCommandError>)
    ensures
        r == (match step {
            Ok(value) => Ok::<T, RuntimeCommandError>(value),
            Err(source) => Err(RuntimeCommandError::Report(source)),
        }),
{
    match step {
        Ok(value) => Ok(value),
        Err(source) => Err(RuntimeCommandError::Report(source)),
    }
}

/// The time that policy is evaluated at: the one given, where the projection needs one.
pub fn evaluation_time(required: bool, given: Option<String>) -> (r: Option<String>)
    ensures
        r == (if required {
            given
        } else {
            None
        }),
{
    if required {
        given
    } else {
        None
    }
}

/// The exit code of each verdict.
pub open spec fn exit_code(verdict: Verdict) -> u8 {
    match verdict {
        Verdict::Pass => 0,
        Verdict::PolicyFail => 1,
        Verdict::Incomplete => 2,
        Verdict::Unsupported => 2,
    }
}

/// The process exit code of a verdict.
pub fn verdict_exit_code(verdict: &Verdict) -> (r: u8)
    ensures
        r == exit_code(*verdict),
{
    match verdict {
        Verdict::Pass => 0,
        Verdict::PolicyFail => 1,
        Verdict::Incomplete => 2,
        Verdict::Unsupported => 2,
    }
}

/// Only what passed exits with 0. What policy failed exits with 1, and what could not be judged, for want of a complete
/// or a supported run, with 2: a caller can tell the three apart.
pub proof fn law_exit_codes_tell_verdicts_apart(verdict: Verdict)
    ensures
        exit_code(verdict) == 0 <==> verdict == Verdict::Pass,
        exit_code(verdict) == 1 <==> verdict == Verdict::PolicyFail,
        exit_code(verdict) == 2 <==> verdict == Verdict::Incomplete || verdict == Verdict::Unsupported,
{
}

} // verus!
