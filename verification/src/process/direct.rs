//! One tool that is run directly: its input is written while its output is read.
use super::capture::{
    completion, final_code, final_state, fresh_capture, Capture, CaptureState, ExitInfo, IncompleteReason,
    ProcessOutcome, ProcessState, ReadEvent, Stream, WriteEvent, IO_CHUNK_BYTES,
};
use super::error::ProcessError;
use super::limits::ProcessLimits;
use crate::time::{left_over, shorter, Duration};
use vstd::prelude::*;

verus! {

/// How long to wait, at most, before the child is looked at again: ten milliseconds.
pub const POLL_NANOS: u128 = 10_000_000;

/// Where a run is in its round of writing, reading and looking at the child.
#[derive(Clone, Copy, Debug, PartialEq, Eq, Structural)]
pub enum DirectStep {
    Write,
    ReadStdout,
    ReadStderr,
    Probe,
    Pause(Duration),
    /// The child has to be ended and its streams drained; then the run is over.
    Cleanup,
    /// The child cannot be waited for. It has to be ended, and the error reported.
    Abort,
}

/// What has to be done next.
#[derive(Clone, Copy, Debug, PartialEq, Eq, Structural)]
pub enum DirectAction {
    /// Write the input from one place up to the other.
    Write { from: usize, to: usize },
    Read(Stream),
    /// Find out whether the child has exited.
    Probe,
    Sleep(Duration),
    Cleanup,
    Abort,
}

/// What came of it.
#[derive(Clone, Debug, PartialEq, Eq)]
pub enum DirectEvent {
    Wrote(WriteEvent),
    Read(ReadEvent),
    /// Whether the child has exited.
    Probed(bool),
    ProbeFailed,
    Slept,
}

/// A tool that is run directly.
pub struct DirectRun {
    pub limits: ProcessLimits,
    pub input_len: usize,
    pub written: usize,
    pub capture: CaptureState,
    pub step: DirectStep,
    pub made_progress: bool,
    pub run_duration: Option<Duration>,
}

/// What a `DirectRun` holds.
pub struct Direct {
    pub limits: ProcessLimits,
    pub input_len: nat,
    pub written: nat,
    pub capture: Capture,
    pub step: DirectStep,
    pub made_progress: bool,
    pub run_duration: Option<Duration>,
}

impl View for DirectRun {
    type V = Direct;

    open spec fn view(&self) -> Direct {
        Direct {
            limits: self.limits,
            input_len: self.input_len as nat,
            written: self.written as nat,
            capture: self.capture@,
            step: self.step,
            made_progress: self.made_progress,
            run_duration: self.run_duration,
        }
    }
}

impl Direct {
    pub open spec fn wf(self) -> bool {
        &&& self.written <= self.input_len
        &&& self.capture.bounded(self.limits)
        &&& (self.capture.stdin_done || self.written < self.input_len)
        &&& (self.step == DirectStep::Write ==> self.written < self.input_len)
        &&& (self.step == DirectStep::Cleanup ==> self.run_duration is Some)
        &&& (self.capture.stdin_done && self.capture.failure is None ==> self.written == self.input_len)
        &&& (self.step == DirectStep::Cleanup && self.capture.failure is None ==> self.capture.stdin_done)
        &&& (self.run_duration matches Some(d) ==> d.nanos <= self.limits.timeout.nanos)
    }

    /// Notes how long the run took, unless that was noted before. No more is noted than the
    /// timeout allows.
    pub open spec fn mark(self, elapsed: Duration) -> Direct {
        Direct {
            run_duration: if self.run_duration is Some {
                self.run_duration
            } else {
                Some(shorter(elapsed, self.limits.timeout))
            },
            ..self
        }
    }

    pub open spec fn stop(self, elapsed: Duration) -> Direct {
        Direct { step: DirectStep::Cleanup, ..self.mark(elapsed) }
    }

    /// A new round begins.
    pub open spec fn new_round(self) -> Direct {
        Direct {
            made_progress: false,
            step: if !self.capture.stdin_done {
                DirectStep::Write
            } else if !self.capture.stdout_done {
                DirectStep::ReadStdout
            } else if !self.capture.stderr_done {
                DirectStep::ReadStderr
            } else {
                DirectStep::Probe
            },
            ..self
        }
    }

    /// Nothing is left to read in this round.
    pub open spec fn judge(self, elapsed: Duration) -> Direct {
        if self.capture.failure is Some {
            self.stop(elapsed)
        } else {
            Direct { step: DirectStep::Probe, ..self }
        }
    }

    /// The output is to be read, unless it failed or is closed.
    pub open spec fn to_stderr(self, elapsed: Duration) -> Direct {
        if self.capture.failure is None && !self.capture.stderr_done {
            Direct { step: DirectStep::ReadStderr, ..self }
        } else {
            self.judge(elapsed)
        }
    }

    pub open spec fn to_stdout(self, elapsed: Duration) -> Direct {
        if self.capture.failure is None && !self.capture.stdout_done {
            Direct { step: DirectStep::ReadStdout, ..self }
        } else {
            self.to_stderr(elapsed)
        }
    }

    /// The run after `event`, when `elapsed` is the time since it was started. An event that does
    /// not answer what had to be done changes nothing.
    pub open spec fn after(self, event: DirectEvent, elapsed: Duration) -> Direct {
        match (self.step, event) {
            (DirectStep::Write, DirectEvent::Wrote(wrote)) => {
                let n = match wrote {
                    WriteEvent::Wrote(n) => n as nat,
                    _ => 0,
                };
                let written = if self.written + n <= self.input_len {
                    self.written + n
                } else {
                    self.input_len
                };
                Direct {
                    capture: self.capture.after_write(wrote, self.written, self.input_len),
                    written,
                    made_progress: n > 0,
                    ..self
                }.to_stdout(elapsed)
            },
            (DirectStep::ReadStdout, DirectEvent::Read(read)) => Direct {
                capture: self.capture.after_read(Stream::Stdout, read, self.limits),
                made_progress: self.made_progress || read is Data,
                ..self
            }.to_stderr(elapsed),
            (DirectStep::ReadStderr, DirectEvent::Read(read)) => Direct {
                capture: self.capture.after_read(Stream::Stderr, read, self.limits),
                made_progress: self.made_progress || read is Data,
                ..self
            }.judge(elapsed),
            (DirectStep::Probe, DirectEvent::ProbeFailed) => Direct { step: DirectStep::Abort, ..self },
            (DirectStep::Probe, DirectEvent::Probed(exited)) => if elapsed.nanos >= self.limits.timeout.nanos {
                Direct { capture: self.capture.fail(IncompleteReason::Timeout), ..self }.stop(elapsed)
            } else if exited {
                Direct { capture: self.capture.without_reader(), ..self }.stop(elapsed)
            } else if self.made_progress {
                self.new_round()
            } else {
                let wait = shorter(left_over(self.limits.timeout, elapsed), Duration { nanos: POLL_NANOS });
                Direct { step: DirectStep::Pause(wait), ..self }
            },
            (DirectStep::Pause(_), DirectEvent::Slept) => self.new_round(),
            _ => self,
        }
    }
}

/// A run that was just started.
pub open spec fn direct_start(limits: ProcessLimits, input_len: nat) -> Direct {
    Direct {
        limits,
        input_len,
        written: 0,
        capture: Capture { stdin_done: input_len == 0, ..fresh_capture() },
        step: DirectStep::Probe,
        made_progress: false,
        run_duration: None,
    }.new_round()
}

impl DirectRun {
    /// A run of a tool that gets `input_len` bytes of input.
    pub fn new(limits: ProcessLimits, input_len: usize) -> (r: DirectRun)
        ensures
            r@ == direct_start(limits, input_len as nat),
            r@.wf(),
    {
        let mut capture = CaptureState::new(&limits);
        capture.stdin_done = input_len == 0;
        let mut r = DirectRun {
            limits,
            input_len,
            written: 0,
            capture,
            step: DirectStep::Probe,
            made_progress: false,
            run_duration: None,
        };
        r.new_round();
        r
    }

    /// What has to be done next.
    pub fn next_action(&self) -> (r: DirectAction)
        requires
            self@.wf(),
        ensures
            match self.step {
                DirectStep::Write => r matches DirectAction::Write { from, to } && from == self.written && from < to
                    <= self.input_len && to - from <= IO_CHUNK_BYTES && (to - from == IO_CHUNK_BYTES || to
                    == self.input_len),
                DirectStep::ReadStdout => r == DirectAction::Read(Stream::Stdout),
                DirectStep::ReadStderr => r == DirectAction::Read(Stream::Stderr),
                DirectStep::Probe => r == DirectAction::Probe,
                DirectStep::Pause(wait) => r == DirectAction::Sleep(wait),
                DirectStep::Cleanup => r == DirectAction::Cleanup,
                DirectStep::Abort => r == DirectAction::Abort,
            },
    {
        match self.step {
            DirectStep::Write => {
                let left: usize = self.input_len - self.written;
                let chunk: usize = if left < IO_CHUNK_BYTES {
                    left
                } else {
                    IO_CHUNK_BYTES
                };
                DirectAction::Write { from: self.written, to: self.written + chunk }
            },
            DirectStep::ReadStdout => DirectAction::Read(Stream::Stdout),
            DirectStep::ReadStderr => DirectAction::Read(Stream::Stderr),
            DirectStep::Probe => DirectAction::Probe,
            DirectStep::Pause(wait) => DirectAction::Sleep(wait),
            DirectStep::Cleanup => DirectAction::Cleanup,
            DirectStep::Abort => DirectAction::Abort,
        }
    }

    fn new_round(&mut self)
        ensures
            final(self)@ == old(self)@.new_round(),
    {
        self.made_progress = false;
        self.step = if !self.capture.stdin_done {
            DirectStep::Write
        } else if !self.capture.stdout_done {
            DirectStep::ReadStdout
        } else if !self.capture.stderr_done {
            DirectStep::ReadStderr
        } else {
            DirectStep::Probe
        };
    }

    fn stop(&mut self, elapsed: Duration)
        ensures
            final(self)@ == old(self)@.stop(elapsed),
    {
        if self.run_duration.is_none() {
            self.run_duration = Some(elapsed.min(self.limits.timeout));
        }
        self.step = DirectStep::Cleanup;
    }

    fn judge(&mut self, elapsed: Duration)
        ensures
            final(self)@ == old(self)@.judge(elapsed),
    {
        if self.capture.failure.is_some() {
            self.stop(elapsed);
        } else {
            self.step = DirectStep::Probe;
        }
    }

    fn to_stderr(&mut self, elapsed: Duration)
        ensures
            final(self)@ == old(self)@.to_stderr(elapsed),
    {
        if self.capture.failure.is_none() && !self.capture.stderr_done {
            self.step = DirectStep::ReadStderr;
        } else {
            self.judge(elapsed);
        }
    }

    fn to_stdout(&mut self, elapsed: Duration)
        ensures
            final(self)@ == old(self)@.to_stdout(elapsed),
    {
        if self.capture.failure.is_none() && !self.capture.stdout_done {
            self.step = DirectStep::ReadStdout;
        } else {
            self.to_stderr(elapsed);
        }
    }

    /// Takes in what came of the last action, `elapsed` after the start.
    pub fn advance(&mut self, event: DirectEvent, elapsed: Duration)
        requires
            old(self)@.wf(),
        ensures
            final(self)@ == old(self)@.after(event, elapsed),
            final(self)@.wf(),
    {
        proof {
            law_direct_run_stays_bounded(self@, event, elapsed);
        }
        match (self.step, event) {
            (DirectStep::Write, DirectEvent::Wrote(wrote)) => {
                let moved: bool = self.capture.write_stdin(wrote, self.written, self.input_len);
                match wrote {
                    WriteEvent::Wrote(n) => {
                        self.written = if n <= self.input_len - self.written {
                            self.written + n
                        } else {
                            self.input_len
                        };
                    },
                    _ => {},
                }
                self.made_progress = moved;
                self.to_stdout(elapsed);
            },
            (DirectStep::ReadStdout, DirectEvent::Read(read)) => {
                let moved: bool = self.capture.drain_output(Stream::Stdout, read, &self.limits);
                self.made_progress = self.made_progress || moved;
                self.to_stderr(elapsed);
            },
            (DirectStep::ReadStderr, DirectEvent::Read(read)) => {
                let moved: bool = self.capture.drain_output(Stream::Stderr, read, &self.limits);
                self.made_progress = self.made_progress || moved;
                self.judge(elapsed);
            },
            (DirectStep::Probe, DirectEvent::ProbeFailed) => {
                self.step = DirectStep::Abort;
            },
            (DirectStep::Probe, DirectEvent::Probed(exited)) => {
                if elapsed.nanos >= self.limits.timeout.nanos {
                    self.capture.failure = Some(IncompleteReason::Timeout);
                    self.stop(elapsed);
                } else if exited {
                    self.capture.lose_reader();
                    self.stop(elapsed);
                } else if self.made_progress {
                    self.new_round();
                } else {
                    let wait: Duration = self.limits.timeout.saturating_sub(elapsed).min(Duration { nanos: POLL_NANOS });
                    self.step = DirectStep::Pause(wait);
                }
            },
            (DirectStep::Pause(_), DirectEvent::Slept) => {
                self.new_round();
            },
            _ => {},
        }
    }
}

/// Whatever happens, no more than the limits is kept, no more than the input is written, no run takes
/// longer than its timeout by its own account, and none counts as complete whose input was not
/// delivered whole.
pub proof fn law_direct_run_stays_bounded(run: Direct, event: DirectEvent, elapsed: Duration)
    requires
        run.wf(),
    ensures
        run.after(event, elapsed).wf(),
{
}

/// A failure that a run has met stays until the child is cleaned up; a timeout alone replaces it.
pub proof fn law_direct_failure_stops_the_run(run: Direct, event: DirectEvent, elapsed: Duration)
    requires
        run.wf(),
        run.capture.failure is None,
    ensures
        run.after(event, elapsed).capture.failure is Some ==> run.after(event, elapsed).step == DirectStep::Cleanup,
{
}

/// What is reported of a run whose child was cleaned up.
pub open spec fn outcome_of(
    capture: Capture,
    limits: ProcessLimits,
    run_duration: Duration,
    exit: Option<ExitInfo>,
    elapsed: Duration,
    outcome: ProcessOutcome,
) -> bool {
    &&& outcome.state == final_state(capture.failure, exit)
    &&& outcome.exit_code == final_code(capture.failure, exit)
    &&& outcome.stdout@ == capture.stdout
    &&& outcome.stderr@ == capture.stderr
    &&& outcome.duration == shorter(run_duration, limits.timeout)
    &&& outcome.cleanup_duration == left_over(elapsed, outcome.duration)
}

/// What is reported of a run keeps no more than the limits allow and took no longer than the timeout.
/// It has an exit code exactly where it is complete, and then nothing that the child said is missing.
pub proof fn law_outcome_is_bounded(
    capture: Capture,
    limits: ProcessLimits,
    run_duration: Duration,
    exit: Option<ExitInfo>,
    elapsed: Duration,
    outcome: ProcessOutcome,
)
    requires
        capture.bounded(limits),
        outcome_of(capture, limits, run_duration, exit, elapsed, outcome),
    ensures
        outcome.stdout@.bytes.len() <= limits.max_stdout_bytes,
        outcome.stderr@.bytes.len() <= limits.max_stderr_bytes,
        outcome.duration.nanos <= limits.timeout.nanos,
        outcome.exit_code is Some <==> outcome.state == ProcessState::Complete,
        outcome.state == ProcessState::Complete ==> !outcome.stdout@.truncated && !outcome.stderr@.truncated,
{
}

/// Reports a run whose child was cleaned up. `elapsed` is the time since the start.
pub fn finalize_outcome(
    capture: CaptureState,
    limits: ProcessLimits,
    run_duration: Duration,
    exit: Option<ExitInfo>,
    elapsed: Duration,
) -> (r: ProcessOutcome)
    ensures
        outcome_of(capture@, limits, run_duration, exit, elapsed, r),
{
    let (state, exit_code) = completion(capture.failure, exit);
    let duration: Duration = run_duration.min(limits.timeout);
    ProcessOutcome {
        state,
        exit_code,
        stdout: capture.stdout,
        stderr: capture.stderr,
        duration,
        cleanup_duration: elapsed.saturating_sub(duration),
    }
}

impl DirectRun {
    /// Reports the run once the child was cleaned up; an error, where the run never got there.
    pub fn finish(self, exit: Option<ExitInfo>, elapsed: Duration) -> (r: Result<ProcessOutcome, ProcessError>)
        ensures
            match r {
                Ok(outcome) => self.run_duration matches Some(d) && outcome_of(
                    self.capture@,
                    self.limits,
                    d,
                    exit,
                    elapsed,
                    outcome,
                ),
                Err(e) => self.run_duration is None && e == ProcessError::Unreaped,
            },
    {
        match self.run_duration {
            Some(d) => Ok(finalize_outcome(self.capture, self.limits, d, exit, elapsed)),
            None => Err(ProcessError::Unreaped),
        }
    }
}

} // verus!
