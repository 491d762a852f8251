//! One tool whose output two readers take in while the tool is watched.
use super::capture::{
    completion, final_code, final_state, nothing, BoundedOutput, ExitInfo, IncompleteReason, Output, ProcessOutcome,
    ProcessState,
};
use super::error::{combine_errors, combined, push_error, IoFailure, ProcessError};
use super::limits::ProcessLimits;
use super::terminate::{result_failures, TERMINATION_GRACE_NANOS};
use crate::time::{left_over, shorter, Duration};
use vstd::prelude::*;

verus! {

/// How long to wait, at most, before the tool is looked at again: five milliseconds.
pub const WATCH_NANOS: u128 = 5_000_000;

/// What to do about a tool that runs.
#[derive(Clone, Copy, Debug, PartialEq, Eq, Structural)]
pub enum WatchStep {
    /// Stop it, for this reason.
    Stop(IncompleteReason),
    /// Find out whether it has exited; where it has not, wait so long and look again.
    Probe(Duration),
}

/// What to do about a tool: it is stopped once a stream goes over its limit or the time is up.
pub open spec fn watch(stdout_overflow: bool, stderr_overflow: bool, elapsed: Duration, timeout: Duration) -> WatchStep {
    if stdout_overflow {
        WatchStep::Stop(IncompleteReason::StdoutLimitExceeded)
    } else if stderr_overflow {
        WatchStep::Stop(IncompleteReason::StderrLimitExceeded)
    } else if elapsed.nanos >= timeout.nanos {
        WatchStep::Stop(IncompleteReason::Timeout)
    } else {
        WatchStep::Probe(shorter(left_over(timeout, elapsed), Duration { nanos: WATCH_NANOS }))
    }
}

/// What to do about a tool.
pub fn watch_step(stdout_overflow: bool, stderr_overflow: bool, elapsed: Duration, timeout: Duration) -> (r: WatchStep)
    ensures
        r == watch(stdout_overflow, stderr_overflow, elapsed, timeout),
{
    if stdout_overflow {
        WatchStep::Stop(IncompleteReason::StdoutLimitExceeded)
    } else if stderr_overflow {
        WatchStep::Stop(IncompleteReason::StderrLimitExceeded)
    } else if elapsed.nanos >= timeout.nanos {
        WatchStep::Stop(IncompleteReason::Timeout)
    } else {
        WatchStep::Probe(timeout.saturating_sub(elapsed).min(Duration { nanos: WATCH_NANOS }))
    }
}

/// What came of reading a stream.
#[derive(Clone, Debug, PartialEq, Eq)]
pub enum ReaderEvent {
    Closed,
    Data(Vec<u8>),
    Interrupted,
    NotReady,
    Failed(IoFailure),
}

/// What a reader does next.
#[derive(Clone, Copy, Debug, PartialEq, Eq, Structural)]
pub enum ReaderStep {
    Read,
    Sleep(Duration),
    Done,
}

/// Takes in one stream, up to a limit.
pub struct StreamReader {
    pub output: BoundedOutput,
    pub limit: usize,
    pub overflow: bool,
    pub failure: Option<IoFailure>,
}

/// What a `StreamReader` holds.
pub struct Reading {
    pub output: Output,
    pub limit: nat,
    pub overflow: bool,
    pub failure: Option<IoFailure>,
}

impl View for StreamReader {
    type V = Reading;

    open spec fn view(&self) -> Reading {
        Reading {
            output: self.output@,
            limit: self.limit as nat,
            overflow: self.overflow,
            failure: self.failure,
        }
    }
}

impl Reading {
    /// The reader after an attempt to read.
    pub open spec fn after(self, event: ReaderEvent) -> Reading {
        match event {
            ReaderEvent::Data(chunk) => {
                let output = self.output.append(chunk@, self.limit);
                Reading { output, overflow: output.truncated, ..self }
            },
            ReaderEvent::Failed(source) => Reading { failure: Some(source), ..self },
            _ => self,
        }
    }
}

/// What a reader does after an attempt to read.
pub open spec fn reader_step(event: ReaderEvent) -> ReaderStep {
    match event {
        ReaderEvent::Closed => ReaderStep::Done,
        ReaderEvent::Data(_) => ReaderStep::Read,
        ReaderEvent::Interrupted => ReaderStep::Read,
        ReaderEvent::NotReady => ReaderStep::Sleep(Duration { nanos: WATCH_NANOS }),
        ReaderEvent::Failed(_) => ReaderStep::Done,
    }
}

impl StreamReader {
    pub fn new(limit: usize) -> (r: StreamReader)
        ensures
            r@ == (Reading { output: nothing(), limit: limit as nat, overflow: false, failure: None }),
    {
        StreamReader { output: BoundedOutput::with_capacity(limit), limit, overflow: false, failure: None }
    }

    /// Takes in what came of reading, and tells what to do next.
    pub fn advance(&mut self, event: ReaderEvent) -> (r: ReaderStep)
        ensures
            final(self)@ == old(self)@.after(event),
            r == reader_step(event),
    {
        match event {
            ReaderEvent::Closed => ReaderStep::Done,
            ReaderEvent::Data(chunk) => {
                self.output.append(chunk.as_slice(), self.limit);
                self.overflow = self.output.truncated;
                ReaderStep::Read
            },
            ReaderEvent::Interrupted => ReaderStep::Read,
            ReaderEvent::NotReady => ReaderStep::Sleep(Duration { nanos: WATCH_NANOS }),
            ReaderEvent::Failed(source) => {
                self.failure = Some(source);
                ReaderStep::Done
            },
        }
    }

    /// What was taken in, or why it was not.
    pub fn finish(self) -> (r: Result<BoundedOutput, IoFailure>)
        ensures
            match self.failure {
                Some(source) => r == Err::<BoundedOutput, IoFailure>(source),
                None => r == Ok::<BoundedOutput, IoFailure>(self.output),
            },
    {
        match self.failure {
            Some(source) => Err(source),
            None => Ok(self.output),
        }
    }
}

/// What to do about the readers of a tool that was ended.
#[derive(Clone, Copy, Debug, PartialEq, Eq, Structural)]
pub enum JoinStep {
    /// They are through.
    Through,
    /// Wait so long and look again.
    Wait(Duration),
    /// They were not through in time, and are cancelled.
    Cancel,
}

/// What to do about the readers: they have a grace period from the end of the tool on.
pub open spec fn joining(finished: bool, elapsed: Duration) -> JoinStep {
    if finished {
        JoinStep::Through
    } else if elapsed.nanos >= TERMINATION_GRACE_NANOS {
        JoinStep::Cancel
    } else {
        JoinStep::Wait(Duration { nanos: WATCH_NANOS })
    }
}

/// What to do about the readers, where `elapsed` is the time since the tool was ended.
pub fn join_step(finished: bool, elapsed: Duration) -> (r: JoinStep)
    ensures
        r == joining(finished, elapsed),
{
    if finished {
        JoinStep::Through
    } else if elapsed.nanos >= TERMINATION_GRACE_NANOS {
        JoinStep::Cancel
    } else {
        JoinStep::Wait(Duration { nanos: WATCH_NANOS })
    }
}

/// What came of a reader.
#[derive(Debug)]
pub enum Joined {
    Output(BoundedOutput),
    Failed(IoFailure),
    Panicked,
}

/// The failure of a reader, if it is one.
pub open spec fn joined_failure(joined: Joined, stream: &'static str) -> Seq<ProcessError> {
    match joined {
        Joined::Output(_) => Seq::empty(),
        Joined::Failed(source) => seq![ProcessError::Capture { stream, source }],
        Joined::Panicked => seq![ProcessError::CapturePanic(stream)],
    }
}

/// Everything that failed while a tool was run, in the order in which it is reported.
pub open spec fn run_failures(
    wait: Option<IoFailure>,
    termination: Result<(), ProcessError>,
    drained: bool,
    stdout: Joined,
    stderr: Joined,
) -> Seq<ProcessError> {
    (match wait {
        Some(source) => seq![ProcessError::Wait(source)],
        None => Seq::empty(),
    }) + result_failures(termination) + (if drained {
        Seq::empty()
    } else {
        seq![ProcessError::CaptureDrainTimeout]
    }) + joined_failure(stdout, "stdout") + joined_failure(stderr, "stderr")
}

/// The reason for which a run is not complete: the one it was stopped for, or a stream that went
/// over its limit.
pub open spec fn run_reason(forced: Option<IncompleteReason>, stdout: Output, stderr: Output) -> Option<
    IncompleteReason,
> {
    if forced is Some {
        forced
    } else if stdout.truncated {
        Some(IncompleteReason::StdoutLimitExceeded)
    } else if stderr.truncated {
        Some(IncompleteReason::StderrLimitExceeded)
    } else {
        None
    }
}

fn note(errors: &mut Vec<ProcessError>, joined: Joined, stream: &'static str) -> (r: Option<BoundedOutput>)
    ensures
        final(errors)@ == old(errors)@ + joined_failure(joined, stream),
        match joined {
            Joined::Output(output) => r == Some(output),
            _ => r is None,
        },
{
    match joined {
        Joined::Output(output) => {
            assert(errors@ =~= old(errors)@ + joined_failure(joined, stream));
            Some(output)
        },
        Joined::Failed(source) => {
            errors.push(ProcessError::Capture { stream, source });
            assert(errors@ =~= old(errors)@ + joined_failure(joined, stream));
            None
        },
        Joined::Panicked => {
            errors.push(ProcessError::CapturePanic(stream));
            assert(errors@ =~= old(errors)@ + joined_failure(joined, stream));
            None
        },
    }
}

/// Reports a run whose child was ended and whose readers are through. `wait` is why the tool could
/// not be watched, `termination` what came of ending it, and `drained` whether the readers were
/// through in time. `elapsed` is how long the tool was watched; no more than the timeout of it counts.
pub fn finish_execution(
    wait: Option<IoFailure>,
    termination: Result<(), ProcessError>,
    exit: Option<ExitInfo>,
    drained: bool,
    stdout: Joined,
    stderr: Joined,
    forced: Option<IncompleteReason>,
    elapsed: Duration,
    limits: ProcessLimits,
) -> (r: Result<ProcessOutcome, ProcessError>)
    ensures
        ({
            let failures = run_failures(wait, termination, drained, stdout, stderr);
            if failures.len() > 0 {
                r matches Err(error) && combined(failures, error)
            } else {
                r matches Ok(outcome) && {
                    &&& stdout == Joined::Output(outcome.stdout)
                    &&& stderr == Joined::Output(outcome.stderr)
                    &&& outcome.state == final_state(run_reason(forced, outcome.stdout@, outcome.stderr@), exit)
                    &&& outcome.exit_code == final_code(run_reason(forced, outcome.stdout@, outcome.stderr@), exit)
                    &&& outcome.duration == shorter(elapsed, limits.timeout)
                    &&& outcome.cleanup_duration.nanos == 0
                }
            }
        }),
{
    let ghost failures = run_failures(wait, termination, drained, stdout, stderr);
    let mut errors: Vec<ProcessError> = Vec::new();
    if let Some(source) = wait {
        errors.push(ProcessError::Wait(source));
    }
    let ghost first = errors@;
    match termination {
        Ok(()) => {},
        Err(error) => {
            push_error(&mut errors, error);
        },
    }
    assert(errors@ =~= first + result_failures(termination));
    if !drained {
        errors.push(ProcessError::CaptureDrainTimeout);
    }
    let out: Option<BoundedOutput> = note(&mut errors, stdout, "stdout");
    let err: Option<BoundedOutput> = note(&mut errors, stderr, "stderr");
    assert(errors@ =~= failures);
    match (out, err) {
        (Some(stdout), Some(stderr)) if errors.len() == 0 => {
            let reason: Option<IncompleteReason> = if forced.is_some() {
                forced
            } else if stdout.truncated {
                Some(IncompleteReason::StdoutLimitExceeded)
            } else if stderr.truncated {
                Some(IncompleteReason::StderrLimitExceeded)
            } else {
                None
            };
            let (state, exit_code) = completion(reason, exit);
            Ok(
                ProcessOutcome {
                    state,
                    exit_code,
                    stdout,
                    stderr,
                    duration: elapsed.min(limits.timeout),
                    cleanup_duration: Duration { nanos: 0 },
                },
            )
        },
        _ => Err(combine_errors(errors)),
    }
}

/// Why a tool could not be set up: that, and what ending it failed at.
pub fn cleanup_setup_failure(error: ProcessError, termination: Result<(), ProcessError>) -> (r: ProcessError)
    ensures
        combined(seq![error] + result_failures(termination), r),
{
    let mut errors: Vec<ProcessError> = Vec::new();
    errors.push(error);
    let ghost first = errors@;
    match termination {
        Ok(()) => {},
        Err(more) => {
            push_error(&mut errors, more);
        },
    }
    assert(errors@ =~= seq![error] + result_failures(termination));
    combine_errors(errors)
}

/// A run is reported complete only where nothing failed, nothing stopped it, and neither stream
/// went over its limit.
pub proof fn law_complete_runs_are_whole(
    forced: Option<IncompleteReason>,
    stdout: Output,
    stderr: Output,
    exit: Option<ExitInfo>,
)
    ensures
        final_state(run_reason(forced, stdout, stderr), exit) == ProcessState::Complete ==> forced is None
            && !stdout.truncated && !stderr.truncated && final_code(run_reason(forced, stdout, stderr), exit) is Some,
{
}

} // verus!
