//! Why runs end, and what is said of it.
use super::capture::{
    final_code, final_state, Capture, ExitInfo, IncompleteReason, Output, ProcessOutcome, ProcessState, ReadEvent,
    Stream, WriteEvent,
};
use super::direct::{outcome_of, Direct, DirectEvent, DirectStep};
use super::error::{failures_of, IoFailure, IoKind, ProcessError};
use super::invocation::Invocation;
use super::limits::ProcessLimits;
use super::manifest::{session_allowed, Session, SessionEvent, SessionStep, StreamLineDecision};
use super::queued::{Queued, QueuedStep};
use super::terminate::{group_wait, result_failures, GroupWait};
use super::watched::{joined_failure, joining, run_failures, watch, JoinStep, Joined, WatchStep};
use crate::time::Duration;
use vstd::prelude::*;

verus! {

/// What is read from one stream leaves the other as it was. Bytes within the stream's limit are kept behind those
/// that are there; the first that go over it are the reason for which the run fails, by the name of the stream. So is
/// a stream that cannot be read; one that ends is done, and nothing else.
pub proof fn law_streams_do_not_mix(capture: Capture, event: ReadEvent, limits: ProcessLimits)
    ensures
        ({
            let next = capture.after_read(Stream::Stdout, event, limits);
            &&& next.stderr == capture.stderr && next.stderr_done == capture.stderr_done
            &&& next.stdin_done == capture.stdin_done
            &&& match event {
                ReadEvent::Data(chunk) => {
                    &&& next.stdout_done == capture.stdout_done
                    &&& capture.stdout.bytes.is_prefix_of(next.stdout.bytes)
                    &&& !capture.stdout.truncated && capture.stdout.bytes.len() + chunk@.len()
                        <= limits.max_stdout_bytes ==> next.stdout.bytes == capture.stdout.bytes + chunk@
                        && next.failure == capture.failure
                    &&& capture.failure is None && capture.stdout.bytes.len() + chunk@.len()
                        > limits.max_stdout_bytes && chunk@.len() > 0 ==> next.failure == Some(
                        IncompleteReason::StdoutLimitExceeded,
                    )
                },
                ReadEvent::Closed => next.stdout_done && next.stdout == capture.stdout && next.failure
                    == capture.failure,
                ReadEvent::NotReady => next == capture,
                ReadEvent::Failed => next.stdout_done && next.stdout == capture.stdout && (capture.failure is None
                    ==> next.failure == Some(IncompleteReason::StdoutFailure)),
            }
        }),
        ({
            let next = capture.after_read(Stream::Stderr, event, limits);
            &&& next.stdout == capture.stdout && next.stdout_done == capture.stdout_done
            &&& next.stdin_done == capture.stdin_done
            &&& match event {
                ReadEvent::Data(chunk) => {
                    &&& next.stderr_done == capture.stderr_done
                    &&& capture.stderr.bytes.is_prefix_of(next.stderr.bytes)
                    &&& !capture.stderr.truncated && capture.stderr.bytes.len() + chunk@.len()
                        <= limits.max_stderr_bytes ==> next.stderr.bytes == capture.stderr.bytes + chunk@
                        && next.failure == capture.failure
                    &&& capture.failure is None && capture.stderr.bytes.len() + chunk@.len()
                        > limits.max_stderr_bytes && chunk@.len() > 0 ==> next.failure == Some(
                        IncompleteReason::StderrLimitExceeded,
                    )
                },
                ReadEvent::Closed => next.stderr_done && next.stderr == capture.stderr && next.failure
                    == capture.failure,
                ReadEvent::NotReady => next == capture,
                ReadEvent::Failed => next.stderr_done && next.stderr == capture.stderr && (capture.failure is None
                    ==> next.failure == Some(IncompleteReason::StderrFailure)),
            }
        }),
{
    if let ReadEvent::Data(chunk) = event {
        assert(chunk@.take(chunk@.len() as int) =~= chunk@);
    }
}

/// A run that nothing failed is complete exactly where the child ended with a code from 0 to 255, which is then the
/// one that is told. Another code is told as such, and so is an end without one. What failed a run is told before
/// any code.
pub proof fn law_exit_codes_are_told_as_they_are(failure: Option<IncompleteReason>, exit: Option<ExitInfo>)
    ensures
        failure matches Some(reason) ==> final_state(failure, exit) == ProcessState::Incomplete(reason) && final_code(
            failure,
            exit,
        ) is None,
        failure is None ==> match exit {
            None => final_state(failure, exit) == ProcessState::Incomplete(IncompleteReason::TerminatedWithoutCode)
                && final_code(failure, exit) is None,
            Some(info) => match info.code {
                None => final_state(failure, exit) == ProcessState::Incomplete(
                    IncompleteReason::TerminatedWithoutCode,
                ) && final_code(failure, exit) is None,
                Some(code) => if code < 0 || code > 255 {
                    final_state(failure, exit) == ProcessState::Incomplete(IncompleteReason::UnrepresentableExitCode)
                        && final_code(failure, exit) is None
                } else {
                    final_state(failure, exit) == ProcessState::Complete && final_code(failure, exit) is Some
                        && final_code(failure, exit).unwrap() == code
                },
            },
        },
{
}

/// The input is done exactly where all of it was written, or where no more of it can be, which fails the run.
pub proof fn law_input_is_written_to_its_end(capture: Capture, event: WriteEvent, written: nat, total: nat)
    requires
        !capture.stdin_done,
        capture.failure is None,
        written < total,
        event matches WriteEvent::Wrote(n) ==> written + n <= total,
    ensures
        ({
            let next = capture.after_write(event, written, total);
            &&& next.stdout == capture.stdout && next.stderr == capture.stderr
            &&& next.stdout_done == capture.stdout_done && next.stderr_done == capture.stderr_done
            &&& match event {
                WriteEvent::Wrote(n) => {
                    &&& n == 0 ==> next.stdin_done && next.failure == Some(IncompleteReason::StdinFailure)
                    &&& n > 0 ==> next.failure is None && (next.stdin_done <==> written + n == total)
                },
                WriteEvent::NotReady => next == capture,
                WriteEvent::Failed => next.stdin_done && next.failure == Some(IncompleteReason::StdinFailure),
            }
        }),
{
}

/// A child that ends before it has read its input fails the run; one that has read it does not.
pub proof fn law_input_is_read_before_the_end(capture: Capture)
    requires
        capture.failure is None,
    ensures
        capture.stdin_done ==> capture.without_reader() == capture,
        !capture.stdin_done ==> capture.without_reader().failure == Some(IncompleteReason::StdinFailure),
{
}

/// When the child is looked at, time that has run out ends the run as timed out; a child that ended, ends it; and one
/// that goes on is looked at again after at most 10 milliseconds, and no later than the time runs out.
pub proof fn law_runs_end_in_time(run: Direct, exited: bool, elapsed: Duration)
    requires
        run.wf(),
        run.step == DirectStep::Probe,
    ensures
        ({
            let next = run.after(DirectEvent::Probed(exited), elapsed);
            &&& elapsed.nanos >= run.limits.timeout.nanos ==> next.step == DirectStep::Cleanup && next.capture.failure
                == Some(IncompleteReason::Timeout)
            &&& elapsed.nanos < run.limits.timeout.nanos && exited ==> next.step == DirectStep::Cleanup && (
            run.capture.stdin_done ==> next.capture == run.capture)
            &&& elapsed.nanos < run.limits.timeout.nanos && !exited ==> next.capture == run.capture && match next.step {
                DirectStep::Pause(wait) => 0 < wait.nanos <= 10_000_000 && elapsed.nanos + wait.nanos
                    <= run.limits.timeout.nanos,
                DirectStep::Write => !run.capture.stdin_done,
                DirectStep::ReadStdout => !run.capture.stdout_done,
                DirectStep::ReadStderr => !run.capture.stderr_done,
                DirectStep::Probe => run.capture.stdin_done && run.capture.stdout_done && run.capture.stderr_done,
                _ => false,
            }
        }),
{
}

/// Written bytes add up, and no stream is read out of turn.
pub proof fn law_written_bytes_add_up(run: Direct, n: usize, elapsed: Duration)
    requires
        run.wf(),
        run.step == DirectStep::Write,
        run.written + n <= run.input_len,
    ensures
        run.after(DirectEvent::Wrote(WriteEvent::Wrote(n)), elapsed).written == run.written + n,
        n > 0 ==> (run.after(DirectEvent::Wrote(WriteEvent::Wrote(n)), elapsed).capture.stdin_done
            <==> run.capture.stdin_done || run.written + n == run.input_len),
{
}

/// A run is stopped for a stream that overflowed, the output before the errors, and else where its time ran out; it is
/// watched again after at most 5 milliseconds, and no later than its time runs out.
pub proof fn law_overflow_and_time_stop_a_run(
    stdout_overflow: bool,
    stderr_overflow: bool,
    elapsed: Duration,
    timeout: Duration,
)
    ensures
        match watch(stdout_overflow, stderr_overflow, elapsed, timeout) {
            WatchStep::Stop(reason) => {
                &&& reason == IncompleteReason::StdoutLimitExceeded <==> stdout_overflow
                &&& reason == IncompleteReason::StderrLimitExceeded <==> !stdout_overflow && stderr_overflow
                &&& reason == IncompleteReason::Timeout <==> !stdout_overflow && !stderr_overflow
                &&& reason == IncompleteReason::Timeout ==> elapsed.nanos >= timeout.nanos
            },
            WatchStep::Probe(wait) => {
                &&& !stdout_overflow && !stderr_overflow
                &&& 0 < wait.nanos <= 5_000_000
                &&& elapsed.nanos + wait.nanos <= timeout.nanos
            },
        },
{
}

/// A reader that is not through a quarter of a second after its child's end is cancelled, and not before.
pub proof fn law_readers_get_a_quarter_of_a_second(finished: bool, elapsed: Duration)
    ensures
        finished ==> joining(finished, elapsed) is Through,
        !finished && elapsed.nanos >= 250_000_000 ==> joining(finished, elapsed) is Cancel,
        !finished && elapsed.nanos < 250_000_000 ==> (joining(finished, elapsed) matches JoinStep::Wait(wait) && 0
            < wait.nanos <= 5_000_000),
{
}

/// The run has no failure exactly where the child was waited for, ended, its output drained and both streams read.
pub proof fn law_nothing_that_failed_is_passed_over(
    wait: Option<IoFailure>,
    termination: Result<(), ProcessError>,
    drained: bool,
    stdout: Joined,
    stderr: Joined,
)
    requires
        termination matches Err(e) ==> failures_of(e).len() > 0,
    ensures
        run_failures(wait, termination, drained, stdout, stderr).len() == 0 <==> wait is None && termination is Ok
            && drained && stdout is Output && stderr is Output,
        wait matches Some(source) ==> run_failures(wait, termination, drained, stdout, stderr)[0] == ProcessError::Wait(
            source,
        ),
        !drained ==> run_failures(wait, termination, drained, stdout, stderr).contains(ProcessError::CaptureDrainTimeout),
        stdout matches Joined::Failed(source) ==> run_failures(wait, termination, drained, stdout, stderr).contains(
            ProcessError::Capture { stream: "stdout", source },
        ),
        stderr matches Joined::Failed(source) ==> run_failures(wait, termination, drained, stdout, stderr).contains(
            ProcessError::Capture { stream: "stderr", source },
        ),
{
    let all = run_failures(wait, termination, drained, stdout, stderr);
    let a = match wait {
        Some(source) => seq![ProcessError::Wait(source)],
        None => Seq::empty(),
    };
    let b = result_failures(termination);
    let c = if drained {
        Seq::empty()
    } else {
        seq![ProcessError::CaptureDrainTimeout]
    };
    let d = joined_failure(stdout, "stdout");
    let e = joined_failure(stderr, "stderr");
    assert(all == a + b + c + d + e);
    if !drained {
        assert(all[(a.len() + b.len()) as int] == ProcessError::CaptureDrainTimeout);
    }
    if let Joined::Failed(source) = stdout {
        assert(all[(a.len() + b.len() + c.len()) as int] == d[0]);
    }
    if let Joined::Failed(source) = stderr {
        assert(all[(a.len() + b.len() + c.len() + d.len()) as int] == e[0]);
    }
}

/// A process can be started exactly where it has a program, nothing of it holds NUL, and the directory that it is to
/// run in, if any, is one.
pub proof fn law_startable_processes_are_not_rejected(invocation: Invocation, is_directory: bool)
    ensures
        invocation.rejection(is_directory) is None <==> {
            &&& invocation.program.len() > 0
            &&& !invocation.program.contains(0u8)
            &&& forall|k: int| 0 <= k < invocation.argv.len() ==> !(#[trigger] invocation.argv[k]).contains('\0')
            &&& invocation.current_dir matches Some(dir) ==> !dir.contains(0u8) && is_directory
        },
{
}

/// Limits are accepted exactly where the time is a whole number of milliseconds from one to ten minutes, and the
/// streams keep at most 16 and 4 mebibytes.
pub proof fn law_limits_have_ceilings(limits: ProcessLimits)
    ensures
        limits.valid() <==> {
            &&& limits.timeout.nanos % 1_000_000 == 0
            &&& 1_000_000 <= limits.timeout.nanos <= 600_000_000_000
            &&& limits.max_stdout_bytes <= 16_777_216
            &&& limits.max_stderr_bytes <= 4_194_304
        },
        limits.valid() <==> limits.rejection() is None,
{
}

/// A queued run is judged by what failed its capture, else by its end, else by its time.
pub proof fn law_queued_runs_are_judged(run: Queued, elapsed: Duration)
    ensures
        run.capture.failure is Some ==> run.judge(elapsed).failure == run.capture.failure && run.judge(elapsed).step
            == QueuedStep::Signal,
        run.capture.failure is None && run.exit is Some && run.capture.stdout_done && run.capture.stderr_done
            ==> run.judge(elapsed).failure is None && run.judge(elapsed).step == QueuedStep::Signal,
        run.capture.failure is None && !(run.exit is Some && run.capture.stdout_done && run.capture.stderr_done)
            && elapsed.nanos >= run.limits.timeout.nanos ==> run.judge(elapsed).failure == Some(
            IncompleteReason::Timeout,
        ) && run.judge(elapsed).step == QueuedStep::Signal,
        run.capture.failure is None && !(run.exit is Some && run.capture.stdout_done && run.capture.stderr_done)
            && elapsed.nanos < run.limits.timeout.nanos ==> match run.judge(elapsed).step {
            QueuedStep::Wait(wait) => run.exit is None && 0 < wait.nanos <= 10_000_000 && elapsed.nanos + wait.nanos
                <= run.limits.timeout.nanos,
            QueuedStep::Receive(wait) => run.exit is Some && 0 < wait.nanos <= 10_000_000 && elapsed.nanos + wait.nanos
                <= run.limits.timeout.nanos,
            _ => false,
        },
{
}

/// A group that is gone needs no more waiting. One that is there is looked for again after at most 10 milliseconds
/// until the time is up, and is alive then. A look that failed is a failure, unless it was only denied and there is
/// time to look again.
pub proof fn law_groups_are_waited_for(probe: Result<bool, IoFailure>, left: Duration)
    ensures
        group_wait(probe, left) is Gone <==> (probe matches Ok(exists) && !exists),
        group_wait(probe, left) is Live <==> left.nanos == 0 && (probe matches Ok(exists) && exists),
        group_wait(probe, left) matches GroupWait::Again(wait) ==> 0 < wait.nanos <= 10_000_000 && wait.nanos <= left.nanos,
        group_wait(probe, left) matches GroupWait::Failed(error) ==> probe == Err::<bool, IoFailure>(error) && (error.kind
            != IoKind::PermissionDenied || left.nanos == 0),
{
}

/// A manifest that is not accepted, is late, is missing or is followed by more output before the request, ends the
/// session, each for its own reason; and the request is written only to a manifest that was accepted.
pub proof fn law_sessions_begin_with_an_accepted_manifest(session: Session, end: usize, elapsed: Duration)
    requires
        session.wf(),
        !session.accepted,
        session.capture.failure is None,
    ensures
        session.step == SessionStep::Manifest(end) ==> session.after(
            SessionEvent::ManifestChecked(false),
            elapsed,
        ).capture.failure == Some(IncompleteReason::HandshakeRejected),
        session.step == SessionStep::Clock && elapsed.nanos >= session.handshake_timeout.nanos ==> session.after(
            SessionEvent::Tick,
            elapsed,
        ).capture.failure == Some(IncompleteReason::HandshakeTimeout),
        session.step == SessionStep::Probe && elapsed.nanos < session.limits.timeout.nanos
            && crate::process::manifest::line_end(session.capture.stdout.bytes, 0) is None ==> session.after(
            SessionEvent::Probed(true),
            elapsed,
        ).capture.failure == Some(IncompleteReason::ManifestMissing),
        session.step == SessionStep::Manifest(end) ==> session.after(SessionEvent::ManifestChecked(false), elapsed).step
            != SessionStep::Write,
{
    reveal(Session::to_stderr);
    reveal(Session::to_lines);
    reveal(Session::to_write);
}

/// A line that is rejected, or one that goes on where the output is at its end, breaks the protocol.
pub proof fn law_rejected_lines_break_the_protocol(
    session: Session,
    from: usize,
    end: usize,
    last: bool,
    elapsed: Duration,
)
    requires
        session.wf(),
        session.step == SessionStep::Line(from, end, last),
    ensures
        session.after(SessionEvent::LineChecked(StreamLineDecision::Reject), elapsed).capture.failure == Some(
            IncompleteReason::ProtocolViolation,
        ),
        last ==> session.after(SessionEvent::LineChecked(StreamLineDecision::Continue), elapsed).capture.failure == Some(
            IncompleteReason::ProtocolViolation,
        ),
{
    reveal(Session::to_stderr);
}

/// A session can be had exactly where there is something to request, the limits are accepted, and the manifest is
/// due before the time is up.
pub proof fn law_sessions_ask_for_something_in_time(
    limits: ProcessLimits,
    handshake_timeout: Duration,
    request_len: nat,
)
    ensures
        session_allowed(limits, handshake_timeout, request_len) <==> {
            &&& request_len > 0
            &&& limits.timeout.nanos % 1_000_000 == 0
            &&& 1_000_000 <= limits.timeout.nanos <= 600_000_000_000
            &&& limits.max_stdout_bytes <= 16_777_216
            &&& limits.max_stderr_bytes <= 4_194_304
            &&& 0 < handshake_timeout.nanos <= limits.timeout.nanos
        },
{
}

/// What is told of a run: the shorter of how long it ran and its timeout, and the rest of the time as its cleaning up.
pub proof fn law_outcomes_account_for_the_time(
    capture: Capture,
    limits: ProcessLimits,
    run_duration: Duration,
    exit: Option<ExitInfo>,
    elapsed: Duration,
    outcome: ProcessOutcome,
)
    requires
        outcome_of(capture, limits, run_duration, exit, elapsed, outcome),
    ensures
        run_duration.nanos <= limits.timeout.nanos ==> outcome.duration == run_duration,
        run_duration.nanos > limits.timeout.nanos ==> outcome.duration == limits.timeout,
        elapsed.nanos >= outcome.duration.nanos ==> outcome.duration.nanos + outcome.cleanup_duration.nanos == elapsed.nanos,
        elapsed.nanos < outcome.duration.nanos ==> outcome.cleanup_duration.nanos == 0,
        outcome.stdout.bytes@ == capture.stdout.bytes,
        outcome.stderr.bytes@ == capture.stderr.bytes,
{
}

} // verus!
