//! One provider that has to show its manifest before it is sent a request.
use super::capture::{
    fresh_capture, Capture, CaptureState, ExitInfo, IncompleteReason, ProcessOutcome, ReadEvent, Stream, WriteEvent,
    IO_CHUNK_BYTES,
};
use super::direct::{finalize_outcome, outcome_of, POLL_NANOS};
use super::error::ProcessError;
use super::limits::ProcessLimits;
use crate::time::{left_over, shorter, Duration};
use vstd::prelude::*;

verus! {

/// What is to become of one line that a provider wrote after the request was delivered.
#[derive(Clone, Copy, Debug, PartialEq, Eq, Structural)]
pub enum StreamLineDecision {
    Continue,
    Complete,
    Reject,
}

/// Where a session is in its round.
#[derive(Clone, Copy, Debug, PartialEq, Eq, Structural)]
pub enum SessionStep {
    /// A round begins: the deadlines are looked at.
    Clock,
    ReadStdout,
    /// The first line, which ends at the given place, has to be judged as the manifest.
    Manifest(usize),
    Write,
    /// The line between the two places has to be judged. It is the last, unterminated one, if the
    /// third field tells so.
    Line(usize, usize, bool),
    ReadStderr,
    Probe,
    Pause(Duration),
    /// The child has to be ended and its streams drained; then the session is over.
    Cleanup,
    /// The child cannot be waited for. It has to be ended, and the error reported.
    Abort,
}

/// What has to be done next.
#[derive(Clone, Copy, Debug, PartialEq, Eq, Structural)]
pub enum SessionAction {
    /// Tell the time.
    Clock,
    Read(Stream),
    /// Judge the output up to this place as the manifest.
    CheckManifest { to: usize },
    /// Write the request from one place up to the other.
    Write { from: usize, to: usize },
    /// Judge the line of output between the two places.
    CheckLine { from: usize, to: usize },
    /// Find out whether the child has exited.
    Probe,
    Sleep(Duration),
    Cleanup,
    Abort,
}

/// What came of it.
#[derive(Clone, Debug, PartialEq, Eq)]
pub enum SessionEvent {
    Tick,
    Read(ReadEvent),
    /// Whether the manifest is accepted.
    ManifestChecked(bool),
    Wrote(WriteEvent),
    LineChecked(StreamLineDecision),
    /// Whether the child has exited.
    Probed(bool),
    ProbeFailed,
    Slept,
}

/// A session with a provider.
pub struct ManifestRun {
    pub limits: ProcessLimits,
    pub handshake_timeout: Duration,
    pub request_len: usize,
    pub request_bytes_written: usize,
    pub capture: CaptureState,
    pub step: SessionStep,
    pub handshake_accepted: bool,
    pub stream_offset: usize,
    pub stream_complete: bool,
    pub request_phase: bool,
    pub stdout_before: u64,
    pub made_progress: bool,
    pub run_duration: Option<Duration>,
}

/// What a `ManifestRun` holds.
pub struct Session {
    pub limits: ProcessLimits,
    pub handshake_timeout: Duration,
    pub request_len: nat,
    /// How many bytes of the request were written.
    pub written: nat,
    pub capture: Capture,
    pub step: SessionStep,
    /// The manifest was accepted.
    pub accepted: bool,
    /// Up to where the output was judged.
    pub offset: nat,
    /// The provider declared its stream complete.
    pub complete: bool,
    /// The manifest was accepted before this round.
    pub request_phase: bool,
    /// How many bytes of output had been seen before this round.
    pub before: nat,
    pub made_progress: bool,
    pub run_duration: Option<Duration>,
}

impl View for ManifestRun {
    type V = Session;

    open spec fn view(&self) -> Session {
        Session {
            limits: self.limits,
            handshake_timeout: self.handshake_timeout,
            request_len: self.request_len as nat,
            written: self.request_bytes_written as nat,
            capture: self.capture@,
            step: self.step,
            accepted: self.handshake_accepted,
            offset: self.stream_offset as nat,
            complete: self.stream_complete,
            request_phase: self.request_phase,
            before: self.stdout_before as nat,
            made_progress: self.made_progress,
            run_duration: self.run_duration,
        }
    }
}

/// The place after the first line break from `i` on.
pub open spec fn line_end(bytes: Seq<u8>, i: int) -> Option<int>
    decreases bytes.len() - i,
{
    if i < 0 || i >= bytes.len() {
        None
    } else if bytes[i] == 10 {
        Some(i + 1)
    } else {
        line_end(bytes, i + 1)
    }
}

pub proof fn lemma_line_end(bytes: Seq<u8>, i: int)
    ensures
        line_end(bytes, i) matches Some(end) ==> 0 <= i < end <= bytes.len(),
    decreases bytes.len() - i,
{
    if 0 <= i < bytes.len() && bytes[i] != 10 {
        lemma_line_end(bytes, i + 1);
    }
}

pub fn find_line_end(bytes: &[u8], from: usize) -> (r: Option<usize>)
    ensures
        match r {
            Some(end) => line_end(bytes@, from as int) == Some(end as int) && from < end <= bytes.len(),
            None => line_end(bytes@, from as int) is None,
        },
{
    let mut i: usize = from;
    while i < bytes.len()
        invariant
            from <= i,
            line_end(bytes@, from as int) == line_end(bytes@, i as int),
        decreases bytes.len() - i,
    {
        if bytes[i] == 10 {
            return Some(i + 1);
        }
        i = i + 1;
    }
    None
}

impl Session {
    /// What holds whatever has to be done next: the request is not written before the manifest was
    /// accepted, and nothing goes over its limit.
    pub open spec fn ordered(self) -> bool {
        &&& self.written <= self.request_len
        &&& self.offset <= self.capture.stdout.bytes.len()
        &&& self.capture.bounded(self.limits)
        &&& (self.run_duration matches Some(d) ==> d.nanos <= self.limits.timeout.nanos)
        &&& (self.capture.stdin_done || self.written < self.request_len)
        &&& (self.capture.stdin_done && self.capture.failure is None ==> self.written == self.request_len)
        &&& (!self.accepted ==> self.written == 0 && !self.capture.stdin_done && !self.request_phase)
    }

    pub open spec fn wf(self) -> bool {
        &&& self.ordered()
        &&& match self.step {
            SessionStep::Cleanup => self.run_duration is Some && (self.capture.failure is None
                ==> self.capture.stdin_done),
            SessionStep::Write => self.accepted && self.written < self.request_len,
            SessionStep::Line(from, to, _) => self.offset == from && from < to <= self.capture.stdout.bytes.len(),
            SessionStep::Manifest(to) => !self.accepted && to <= self.capture.stdout.bytes.len(),
            SessionStep::ReadStdout => self.request_phase == self.accepted,
            _ => true,
        }
    }

    /// Notes how long the session took, unless that was noted before, and ends it.
    pub open spec fn stop(self, elapsed: Duration) -> Session {
        Session {
            run_duration: if self.run_duration is Some {
                self.run_duration
            } else {
                Some(shorter(elapsed, self.limits.timeout))
            },
            step: SessionStep::Cleanup,
            ..self
        }
    }

    pub open spec fn fail(self, reason: IncompleteReason) -> Session {
        Session { capture: self.capture.fail(reason), ..self }
    }

    /// The streams were served in this round.
    pub open spec fn judge(self, elapsed: Duration) -> Session {
        if self.capture.failure is Some {
            self.stop(elapsed)
        } else {
            Session { step: SessionStep::Probe, ..self }
        }
    }

    #[verifier::opaque]
    pub open spec fn to_stderr(self, elapsed: Duration) -> Session {
        if self.capture.failure is None && !self.capture.stderr_done {
            Session { step: SessionStep::ReadStderr, ..self }
        } else {
            self.judge(elapsed)
        }
    }

    /// The output is judged line by line, once the request was delivered. After the provider
    /// declared its stream complete, nothing may follow; and the stream may not end before.
    #[verifier::opaque]
    pub open spec fn to_lines(self, elapsed: Duration) -> Session {
        let bytes = self.capture.stdout.bytes;
        if self.capture.failure is Some || !self.capture.stdin_done {
            self.to_stderr(elapsed)
        } else if self.complete && bytes.len() > self.offset {
            self.fail(IncompleteReason::ProtocolViolation).to_stderr(elapsed)
        } else {
            match line_end(bytes, self.offset as int) {
                Some(end) => Session { step: SessionStep::Line(self.offset as usize, end as usize, false), ..self },
                None => if self.capture.stdout_done && self.offset < bytes.len() {
                    Session { step: SessionStep::Line(self.offset as usize, bytes.len() as usize, true), ..self }
                } else if self.capture.stdout_done && !self.complete {
                    self.fail(IncompleteReason::ProtocolViolation).to_stderr(elapsed)
                } else {
                    self.to_stderr(elapsed)
                },
            }
        }
    }

    /// The request is written, once the manifest was accepted.
    #[verifier::opaque]
    pub open spec fn to_write(self, elapsed: Duration) -> Session {
        let timed = if !self.request_phase && self.accepted && elapsed.nanos >= self.handshake_timeout.nanos {
            self.fail(IncompleteReason::HandshakeTimeout)
        } else {
            self
        };
        if timed.capture.failure is None && timed.accepted && !timed.capture.stdin_done {
            Session { step: SessionStep::Write, ..timed }
        } else {
            timed.to_lines(elapsed)
        }
    }

    /// The output of this round was read. Before the request was delivered, nothing may be
    /// written but the manifest.
    #[verifier::opaque]
    pub open spec fn stdout_read(self, elapsed: Duration) -> Session {
        if self.request_phase && !self.capture.stdin_done && self.capture.stdout.observed > self.before {
            self.fail(IncompleteReason::RequestOrderViolation).to_write(elapsed)
        } else if !self.request_phase && self.capture.failure is None {
            match line_end(self.capture.stdout.bytes, 0) {
                Some(end) => if self.capture.stdout.observed != end {
                    self.fail(IncompleteReason::RequestOrderViolation).to_write(elapsed)
                } else {
                    Session { step: SessionStep::Manifest(end as usize), ..self }
                },
                None => self.to_write(elapsed),
            }
        } else {
            self.to_write(elapsed)
        }
    }

    /// A round begins.
    pub open spec fn ticked(self, elapsed: Duration) -> Session {
        let round = Session {
            request_phase: self.accepted,
            before: self.capture.stdout.observed,
            made_progress: false,
            ..self
        };
        if !self.accepted && elapsed.nanos >= self.handshake_timeout.nanos {
            round.fail(IncompleteReason::HandshakeTimeout).stop(elapsed)
        } else if elapsed.nanos >= self.limits.timeout.nanos {
            round.fail(IncompleteReason::Timeout).stop(elapsed)
        } else if self.capture.failure is Some {
            round.stop(elapsed)
        } else if self.capture.stdout_done {
            round.stdout_read(elapsed)
        } else {
            Session { step: SessionStep::ReadStdout, ..round }
        }
    }

    /// The output was read. Before the manifest was accepted, it is read until nothing is left.
    pub open spec fn stdout_arrived(self, read: ReadEvent, elapsed: Duration) -> Session {
        let next = Session {
            capture: self.capture.after_read(Stream::Stdout, read, self.limits),
            made_progress: self.made_progress || read is Data,
            ..self
        };
        if !self.request_phase && read is Data && next.capture.failure is None {
            next
        } else {
            next.stdout_read(elapsed)
        }
    }

    /// The manifest, which ends at `end`, was judged.
    pub open spec fn manifest_judged(self, end: usize, accepted: bool, elapsed: Duration) -> Session {
        if accepted {
            Session { accepted: true, offset: end as nat, ..self }.to_write(elapsed)
        } else {
            self.fail(IncompleteReason::HandshakeRejected).to_write(elapsed)
        }
    }

    /// The request was written to.
    pub open spec fn request_written(self, wrote: WriteEvent, elapsed: Duration) -> Session {
        let n = match wrote {
            WriteEvent::Wrote(n) => n as nat,
            _ => 0,
        };
        let written = if self.written + n <= self.request_len {
            self.written + n
        } else {
            self.request_len
        };
        Session {
            capture: self.capture.after_write(wrote, self.written, self.request_len),
            written,
            made_progress: self.made_progress || n > 0,
            ..self
        }.to_lines(elapsed)
    }

    /// The line that ends at `end` was judged.
    pub open spec fn line_judged(self, end: usize, last: bool, decision: StreamLineDecision, elapsed: Duration) -> Session {
        let read = Session { offset: end as nat, ..self };
        match decision {
            StreamLineDecision::Complete => Session { complete: true, ..read }.to_lines(elapsed),
            StreamLineDecision::Continue => if last {
                self.fail(IncompleteReason::ProtocolViolation).to_stderr(elapsed)
            } else {
                read.to_lines(elapsed)
            },
            StreamLineDecision::Reject => self.fail(IncompleteReason::ProtocolViolation).to_stderr(elapsed),
        }
    }

    /// The diagnostic output was read.
    pub open spec fn stderr_arrived(self, read: ReadEvent, elapsed: Duration) -> Session {
        Session {
            capture: self.capture.after_read(Stream::Stderr, read, self.limits),
            made_progress: self.made_progress || read is Data,
            ..self
        }.judge(elapsed)
    }

    /// The child was looked at.
    pub open spec fn probed(self, exited: bool, elapsed: Duration) -> Session {
        let judged = if elapsed.nanos >= self.limits.timeout.nanos {
            self.fail(IncompleteReason::Timeout)
        } else if !self.accepted && (self.capture.stdout_done || exited) && line_end(self.capture.stdout.bytes, 0) is None {
            self.fail(IncompleteReason::ManifestMissing)
        } else if exited {
            Session { capture: self.capture.without_reader(), ..self }
        } else {
            self
        };
        if judged.capture.failure is Some || exited {
            judged.stop(elapsed)
        } else if self.made_progress {
            Session { step: SessionStep::Clock, ..self }
        } else {
            let deadline = if self.accepted {
                self.limits.timeout
            } else {
                self.handshake_timeout
            };
            Session {
                step: SessionStep::Pause(shorter(left_over(deadline, elapsed), Duration { nanos: POLL_NANOS })),
                ..self
            }
        }
    }

    /// The session after `event`, when `elapsed` is the time since it was started. An event that
    /// does not answer what had to be done changes nothing.
    pub open spec fn after(self, event: SessionEvent, elapsed: Duration) -> Session {
        match (self.step, event) {
            (SessionStep::Clock, SessionEvent::Tick) => self.ticked(elapsed),
            (SessionStep::ReadStdout, SessionEvent::Read(read)) => self.stdout_arrived(read, elapsed),
            (SessionStep::Manifest(end), SessionEvent::ManifestChecked(accepted)) => self.manifest_judged(
                end,
                accepted,
                elapsed,
            ),
            (SessionStep::Write, SessionEvent::Wrote(wrote)) => self.request_written(wrote, elapsed),
            (SessionStep::Line(_, end, last), SessionEvent::LineChecked(decision)) => self.line_judged(
                end,
                last,
                decision,
                elapsed,
            ),
            (SessionStep::ReadStderr, SessionEvent::Read(read)) => self.stderr_arrived(read, elapsed),
            (SessionStep::Probe, SessionEvent::ProbeFailed) => Session { step: SessionStep::Abort, ..self },
            (SessionStep::Probe, SessionEvent::Probed(exited)) => self.probed(exited, elapsed),
            (SessionStep::Pause(_), SessionEvent::Slept) => Session { step: SessionStep::Clock, ..self },
            _ => self,
        }
    }
}

/// A session that was just started.
pub open spec fn session_start(limits: ProcessLimits, handshake_timeout: Duration, request_len: nat) -> Session {
    Session {
        limits,
        handshake_timeout,
        request_len,
        written: 0,
        capture: fresh_capture(),
        step: SessionStep::Clock,
        accepted: false,
        offset: 0,
        complete: false,
        request_phase: false,
        before: 0,
        made_progress: false,
        run_duration: None,
    }
}

/// Why a session cannot be started; the first reason counts.
pub open spec fn session_rejection(
    limits: ProcessLimits,
    handshake_timeout: Duration,
    request_len: nat,
    error: ProcessError,
) -> bool {
    if request_len == 0 {
        error == ProcessError::InvalidSpec("manifest-first request must not be empty")
    } else if !limits.valid() {
        error == ProcessError::InvalidLimits(limits.rejection()->0)
    } else {
        error == ProcessError::InvalidLimits("handshake timeout must be positive and within total timeout")
    }
}

/// A session may be started.
pub open spec fn session_allowed(limits: ProcessLimits, handshake_timeout: Duration, request_len: nat) -> bool {
    request_len > 0 && limits.valid() && 0 < handshake_timeout.nanos <= limits.timeout.nanos
}

impl ManifestRun {
    /// A session in which `request_len` bytes are to be sent, once the manifest is accepted within
    /// `handshake_timeout`.
    pub fn start(limits: ProcessLimits, handshake_timeout: Duration, request_len: usize) -> (r: Result<
        ManifestRun,
        ProcessError,
    >)
        ensures
            match r {
                Ok(run) => session_allowed(limits, handshake_timeout, request_len as nat) && run@ == session_start(
                    limits,
                    handshake_timeout,
                    request_len as nat,
                ) && run@.wf(),
                Err(e) => !session_allowed(limits, handshake_timeout, request_len as nat) && session_rejection(
                    limits,
                    handshake_timeout,
                    request_len as nat,
                    e,
                ),
            },
    {
        if request_len == 0 {
            return Err(ProcessError::InvalidSpec("manifest-first request must not be empty"));
        }
        match limits.validate() {
            Ok(_) => {},
            Err(e) => {
                return Err(e);
            },
        }
        if handshake_timeout.is_zero() || handshake_timeout.nanos > limits.timeout.nanos {
            return Err(
                ProcessError::InvalidLimits("handshake timeout must be positive and within total timeout"),
            );
        }
        Ok(
            ManifestRun {
                limits,
                handshake_timeout,
                request_len,
                request_bytes_written: 0,
                capture: CaptureState::new(&limits),
                step: SessionStep::Clock,
                handshake_accepted: false,
                stream_offset: 0,
                stream_complete: false,
                request_phase: false,
                stdout_before: 0,
                made_progress: false,
                run_duration: None,
            },
        )
    }

    /// What has to be done next.
    pub fn next_action(&self) -> (r: SessionAction)
        requires
            self@.wf(),
        ensures
            match self.step {
                SessionStep::Clock => r == SessionAction::Clock,
                SessionStep::ReadStdout => r == SessionAction::Read(Stream::Stdout),
                SessionStep::Manifest(to) => r == (SessionAction::CheckManifest { to }),
                SessionStep::Write => r matches SessionAction::Write { from, to } && from == self.request_bytes_written
                    && from < to <= self.request_len && to - from <= IO_CHUNK_BYTES && (to - from == IO_CHUNK_BYTES || to
                    == self.request_len),
                SessionStep::Line(from, to, _) => r == (SessionAction::CheckLine { from, to }),
                SessionStep::ReadStderr => r == SessionAction::Read(Stream::Stderr),
                SessionStep::Probe => r == SessionAction::Probe,
                SessionStep::Pause(wait) => r == SessionAction::Sleep(wait),
                SessionStep::Cleanup => r == SessionAction::Cleanup,
                SessionStep::Abort => r == SessionAction::Abort,
            },
    {
        match self.step {
            SessionStep::Clock => SessionAction::Clock,
            SessionStep::ReadStdout => SessionAction::Read(Stream::Stdout),
            SessionStep::Manifest(to) => SessionAction::CheckManifest { to },
            SessionStep::Write => {
                let left: usize = self.request_len - self.request_bytes_written;
                let chunk: usize = if left < IO_CHUNK_BYTES {
                    left
                } else {
                    IO_CHUNK_BYTES
                };
                SessionAction::Write { from: self.request_bytes_written, to: self.request_bytes_written + chunk }
            },
            SessionStep::Line(from, to, _) => SessionAction::CheckLine { from, to },
            SessionStep::ReadStderr => SessionAction::Read(Stream::Stderr),
            SessionStep::Probe => SessionAction::Probe,
            SessionStep::Pause(wait) => SessionAction::Sleep(wait),
            SessionStep::Cleanup => SessionAction::Cleanup,
            SessionStep::Abort => SessionAction::Abort,
        }
    }

    fn stop(&mut self, elapsed: Duration)
        ensures
            final(self)@ == old(self)@.stop(elapsed),
    {
        if self.run_duration.is_none() {
            self.run_duration = Some(elapsed.min(self.limits.timeout));
        }
        self.step = SessionStep::Cleanup;
    }

    fn judge(&mut self, elapsed: Duration)
        ensures
            final(self)@ == old(self)@.judge(elapsed),
    {
        if self.capture.failure.is_some() {
            self.stop(elapsed);
        } else {
            self.step = SessionStep::Probe;
        }
    }

    fn to_stderr(&mut self, elapsed: Duration)
        ensures
            final(self)@ == old(self)@.to_stderr(elapsed),
    {
        proof {
            reveal(Session::to_stderr);
        }
        if self.capture.failure.is_none() && !self.capture.stderr_done {
            self.step = SessionStep::ReadStderr;
        } else {
            self.judge(elapsed);
        }
    }

    fn to_lines(&mut self, elapsed: Duration)
        ensures
            final(self)@ == old(self)@.to_lines(elapsed),
    {
        proof {
            reveal(Session::to_lines);
        }
        if self.capture.failure.is_some() || !self.capture.stdin_done {
            self.to_stderr(elapsed);
            return;
        }
        let len: usize = self.capture.stdout.bytes.len();
        if self.stream_complete && len > self.stream_offset {
            self.capture.failure = Some(IncompleteReason::ProtocolViolation);
            self.to_stderr(elapsed);
            return;
        }
        match find_line_end(self.capture.stdout.bytes.as_slice(), self.stream_offset) {
            Some(end) => {
                self.step = SessionStep::Line(self.stream_offset, end, false);
            },
            None => {
                if self.capture.stdout_done && self.stream_offset < len {
                    self.step = SessionStep::Line(self.stream_offset, len, true);
                } else if self.capture.stdout_done && !self.stream_complete {
                    self.capture.failure = Some(IncompleteReason::ProtocolViolation);
                    self.to_stderr(elapsed);
                } else {
                    self.to_stderr(elapsed);
                }
            },
        }
    }

    fn to_write(&mut self, elapsed: Duration)
        ensures
            final(self)@ == old(self)@.to_write(elapsed),
    {
        proof {
            reveal(Session::to_write);
        }
        if !self.request_phase && self.handshake_accepted && elapsed.nanos >= self.handshake_timeout.nanos {
            self.capture.failure = Some(IncompleteReason::HandshakeTimeout);
        }
        if self.capture.failure.is_none() && self.handshake_accepted && !self.capture.stdin_done {
            self.step = SessionStep::Write;
        } else {
            self.to_lines(elapsed);
        }
    }

    fn stdout_read(&mut self, elapsed: Duration)
        ensures
            final(self)@ == old(self)@.stdout_read(elapsed),
    {
        proof {
            reveal(Session::stdout_read);
        }
        if self.request_phase && !self.capture.stdin_done && self.capture.stdout.observed_bytes > self.stdout_before {
            self.capture.failure = Some(IncompleteReason::RequestOrderViolation);
            self.to_write(elapsed);
        } else if !self.request_phase && self.capture.failure.is_none() {
            match find_line_end(self.capture.stdout.bytes.as_slice(), 0) {
                Some(end) => {
                    if self.capture.stdout.observed_bytes != end as u64 {
                        self.capture.failure = Some(IncompleteReason::RequestOrderViolation);
                        self.to_write(elapsed);
                    } else {
                        self.step = SessionStep::Manifest(end);
                    }
                },
                None => {
                    self.to_write(elapsed);
                },
            }
        } else {
            self.to_write(elapsed);
        }
    }

    fn tick(&mut self, elapsed: Duration)
        ensures
            final(self)@ == old(self)@.ticked(elapsed),
    {
        self.request_phase = self.handshake_accepted;
        self.stdout_before = self.capture.stdout.observed_bytes;
        self.made_progress = false;
        if !self.handshake_accepted && elapsed.nanos >= self.handshake_timeout.nanos {
            self.capture.failure = Some(IncompleteReason::HandshakeTimeout);
            self.stop(elapsed);
        } else if elapsed.nanos >= self.limits.timeout.nanos {
            self.capture.failure = Some(IncompleteReason::Timeout);
            self.stop(elapsed);
        } else if self.capture.failure.is_some() {
            self.stop(elapsed);
        } else if self.capture.stdout_done {
            self.stdout_read(elapsed);
        } else {
            self.step = SessionStep::ReadStdout;
        }
    }

    fn take_stdout(&mut self, read: ReadEvent, elapsed: Duration)
        ensures
            final(self)@ == old(self)@.stdout_arrived(read, elapsed),
    {
        let moved: bool = self.capture.drain_output(Stream::Stdout, read, &self.limits);
        self.made_progress = self.made_progress || moved;
        if self.request_phase || !moved || self.capture.failure.is_some() {
            self.stdout_read(elapsed);
        }
    }

    fn judge_manifest(&mut self, end: usize, accepted: bool, elapsed: Duration)
        ensures
            final(self)@ == old(self)@.manifest_judged(end, accepted, elapsed),
    {
        if accepted {
            self.handshake_accepted = true;
            self.stream_offset = end;
        } else {
            self.capture.failure = Some(IncompleteReason::HandshakeRejected);
        }
        self.to_write(elapsed);
    }

    fn write_request(&mut self, wrote: WriteEvent, elapsed: Duration)
        requires
            old(self).request_bytes_written <= old(self).request_len,
        ensures
            final(self)@ == old(self)@.request_written(wrote, elapsed),
    {
        let moved: bool = self.capture.write_stdin(wrote, self.request_bytes_written, self.request_len);
        match wrote {
            WriteEvent::Wrote(n) => {
                self.request_bytes_written = if n <= self.request_len - self.request_bytes_written {
                    self.request_bytes_written + n
                } else {
                    self.request_len
                };
            },
            _ => {},
        }
        self.made_progress = self.made_progress || moved;
        self.to_lines(elapsed);
    }

    fn judge_line(&mut self, end: usize, last: bool, decision: StreamLineDecision, elapsed: Duration)
        ensures
            final(self)@ == old(self)@.line_judged(end, last, decision, elapsed),
    {
        match decision {
            StreamLineDecision::Complete => {
                self.stream_offset = end;
                self.stream_complete = true;
                self.to_lines(elapsed);
            },
            StreamLineDecision::Continue => {
                if last {
                    self.capture.failure = Some(IncompleteReason::ProtocolViolation);
                    self.to_stderr(elapsed);
                } else {
                    self.stream_offset = end;
                    self.to_lines(elapsed);
                }
            },
            StreamLineDecision::Reject => {
                self.capture.failure = Some(IncompleteReason::ProtocolViolation);
                self.to_stderr(elapsed);
            },
        }
    }

    fn take_stderr(&mut self, read: ReadEvent, elapsed: Duration)
        ensures
            final(self)@ == old(self)@.stderr_arrived(read, elapsed),
    {
        let moved: bool = self.capture.drain_output(Stream::Stderr, read, &self.limits);
        self.made_progress = self.made_progress || moved;
        self.judge(elapsed);
    }

    fn finish_phase_iteration(&mut self, exited: bool, elapsed: Duration)
        ensures
            final(self)@ == old(self)@.probed(exited, elapsed),
    {
        if elapsed.nanos >= self.limits.timeout.nanos {
            self.capture.failure = Some(IncompleteReason::Timeout);
        } else if !self.handshake_accepted && (self.capture.stdout_done || exited) && find_line_end(
            self.capture.stdout.bytes.as_slice(),
            0,
        ).is_none() {
            self.capture.failure = Some(IncompleteReason::ManifestMissing);
        } else if exited {
            self.capture.lose_reader();
        }
        if self.capture.failure.is_some() || exited {
            self.stop(elapsed);
        } else if self.made_progress {
            self.step = SessionStep::Clock;
        } else {
            let deadline: Duration = if self.handshake_accepted {
                self.limits.timeout
            } else {
                self.handshake_timeout
            };
            self.step = SessionStep::Pause(deadline.saturating_sub(elapsed).min(Duration { nanos: POLL_NANOS }));
        }
    }

    /// Takes in what came of the last action, `elapsed` after the start.
    pub fn advance(&mut self, event: SessionEvent, elapsed: Duration)
        requires
            old(self)@.wf(),
        ensures
            final(self)@ == old(self)@.after(event, elapsed),
            final(self)@.wf(),
    {
        proof {
            law_session_stays_ordered_and_bounded(self@, event, elapsed);
        }
        match (self.step, event) {
            (SessionStep::Clock, SessionEvent::Tick) => {
                self.tick(elapsed);
            },
            (SessionStep::ReadStdout, SessionEvent::Read(read)) => {
                self.take_stdout(read, elapsed);
            },
            (SessionStep::Manifest(end), SessionEvent::ManifestChecked(accepted)) => {
                self.judge_manifest(end, accepted, elapsed);
            },
            (SessionStep::Write, SessionEvent::Wrote(wrote)) => {
                self.write_request(wrote, elapsed);
            },
            (SessionStep::Line(_, end, last), SessionEvent::LineChecked(decision)) => {
                self.judge_line(end, last, decision, elapsed);
            },
            (SessionStep::ReadStderr, SessionEvent::Read(read)) => {
                self.take_stderr(read, elapsed);
            },
            (SessionStep::Probe, SessionEvent::ProbeFailed) => {
                self.step = SessionStep::Abort;
            },
            (SessionStep::Probe, SessionEvent::Probed(exited)) => {
                self.finish_phase_iteration(exited, elapsed);
            },
            (SessionStep::Pause(_), SessionEvent::Slept) => {
                self.step = SessionStep::Clock;
            },
            _ => {},
        }
    }

    /// Reports the session once the child was cleaned up; an error, where it never got there.
    pub fn finish(self, exit: Option<ExitInfo>, elapsed: Duration) -> (r: Result<ManifestFirstOutcome, ProcessError>)
        ensures
            match r {
                Ok(outcome) => self.run_duration matches Some(d) && outcome_of(
                    self.capture@,
                    self.limits,
                    d,
                    exit,
                    elapsed,
                    outcome.process,
                ) && outcome.handshake_accepted == self.handshake_accepted && outcome.request_bytes_written
                    == self.request_bytes_written,
                Err(e) => self.run_duration is None && e == ProcessError::Unreaped,
            },
    {
        match self.run_duration {
            Some(d) => Ok(
                ManifestFirstOutcome {
                    process: finalize_outcome(self.capture, self.limits, d, exit, elapsed),
                    handshake_accepted: self.handshake_accepted,
                    request_bytes_written: self.request_bytes_written,
                },
            ),
            None => Err(ProcessError::Unreaped),
        }
    }
}

/// Transport result for a manifest-first provider invocation.
#[derive(Clone, Debug, PartialEq, Eq)]
pub struct ManifestFirstOutcome {
    pub process: ProcessOutcome,
    pub handshake_accepted: bool,
    pub request_bytes_written: usize,
}

proof fn lemma_to_stderr(session: Session, elapsed: Duration)
    requires
        session.ordered(),
    ensures
        session.capture.failure is Some || session.capture.stdin_done ==> session.stop(elapsed).wf(),
        session.judge(elapsed).wf(),
        session.to_stderr(elapsed).wf(),
{
    reveal(Session::to_stderr);
}

proof fn lemma_to_lines(session: Session, elapsed: Duration)
    requires
        session.ordered(),
    ensures
        session.to_lines(elapsed).wf(),
{
    reveal(Session::to_lines);
    lemma_to_stderr(session, elapsed);
    lemma_to_stderr(session.fail(IncompleteReason::ProtocolViolation), elapsed);
    lemma_line_end(session.capture.stdout.bytes, session.offset as int);
}

proof fn lemma_to_write(session: Session, elapsed: Duration)
    requires
        session.ordered(),
    ensures
        session.to_write(elapsed).wf(),
{
    reveal(Session::to_write);
    lemma_to_lines(session, elapsed);
    lemma_to_lines(session.fail(IncompleteReason::HandshakeTimeout), elapsed);
}

proof fn lemma_stdout_read(session: Session, elapsed: Duration)
    requires
        session.ordered(),
        session.request_phase == session.accepted,
    ensures
        session.stdout_read(elapsed).wf(),
{
    reveal(Session::stdout_read);
    lemma_to_write(session, elapsed);
    lemma_to_write(session.fail(IncompleteReason::RequestOrderViolation), elapsed);
    lemma_line_end(session.capture.stdout.bytes, 0);
}

/// Whatever happens: no byte of the request is written before the manifest was accepted, no more
/// is kept than the limits allow, the session takes no longer than its timeout by its own account,
/// and it counts as complete only where the request was delivered whole.
pub proof fn law_session_stays_ordered_and_bounded(session: Session, event: SessionEvent, elapsed: Duration)
    requires
        session.wf(),
    ensures
        session.after(event, elapsed).wf(),
        !session.after(event, elapsed).accepted ==> session.after(event, elapsed).written == 0,
{
    match (session.step, event) {
        (SessionStep::Clock, SessionEvent::Tick) => {
            let round = Session {
                request_phase: session.accepted,
                before: session.capture.stdout.observed,
                made_progress: false,
                ..session
            };
            lemma_to_stderr(round, elapsed);
            lemma_to_stderr(round.fail(IncompleteReason::HandshakeTimeout), elapsed);
            lemma_to_stderr(round.fail(IncompleteReason::Timeout), elapsed);
            lemma_stdout_read(round, elapsed);
        },
        (SessionStep::ReadStdout, SessionEvent::Read(read)) => {
            let next = Session {
                capture: session.capture.after_read(Stream::Stdout, read, session.limits),
                made_progress: session.made_progress || read is Data,
                ..session
            };
            assert(next.ordered());
            lemma_stdout_read(next, elapsed);
        },
        (SessionStep::Manifest(end), SessionEvent::ManifestChecked(accepted)) => {
            lemma_to_write(Session { accepted: true, offset: end as nat, ..session }, elapsed);
            lemma_to_write(session.fail(IncompleteReason::HandshakeRejected), elapsed);
        },
        (SessionStep::Write, SessionEvent::Wrote(wrote)) => {
            let n = match wrote {
                WriteEvent::Wrote(n) => n as nat,
                _ => 0,
            };
            let written = if session.written + n <= session.request_len {
                session.written + n
            } else {
                session.request_len
            };
            let next = Session {
                capture: session.capture.after_write(wrote, session.written, session.request_len),
                written,
                made_progress: session.made_progress || n > 0,
                ..session
            };
            assert(next.ordered());
            lemma_to_lines(next, elapsed);
        },
        (SessionStep::Line(_, end, last), SessionEvent::LineChecked(decision)) => {
            let read = Session { offset: end as nat, ..session };
            lemma_to_lines(read, elapsed);
            lemma_to_lines(Session { complete: true, ..read }, elapsed);
            lemma_to_stderr(session.fail(IncompleteReason::ProtocolViolation), elapsed);
        },
        (SessionStep::ReadStderr, SessionEvent::Read(read)) => {
            let next = Session {
                capture: session.capture.after_read(Stream::Stderr, read, session.limits),
                made_progress: session.made_progress || read is Data,
                ..session
            };
            assert(next.ordered());
            lemma_to_stderr(next, elapsed);
        },
        (SessionStep::Probe, SessionEvent::Probed(exited)) => {
            lemma_to_stderr(session, elapsed);
            lemma_to_stderr(session.fail(IncompleteReason::Timeout), elapsed);
            lemma_to_stderr(session.fail(IncompleteReason::ManifestMissing), elapsed);
            let left = Session { capture: session.capture.without_reader(), ..session };
            assert(left.ordered());
            lemma_to_stderr(left, elapsed);
        },
        _ => {},
    }
}

/// A rejected manifest, a missing manifest, or a manifest that comes too late ends the session
/// without a single byte of the request written.
pub proof fn law_unaccepted_session_writes_nothing(session: Session)
    requires
        session.wf(),
        !session.accepted,
    ensures
        session.written == 0,
{
}

/// The manifest is checked at most once: an accepted one is not checked again, a rejected one ends the
/// session, and a session that ended stays as it is.
pub proof fn law_manifest_is_checked_once(session: Session, event: SessionEvent, elapsed: Duration)
    requires
        session.wf(),
    ensures
        ({
            let next = session.after(event, elapsed);
            &&& session.accepted ==> next.accepted && !(next.step is Manifest)
            &&& session.step is Manifest && event is ManifestChecked ==> next.accepted || next.step == SessionStep::Cleanup
            &&& session.step == SessionStep::Cleanup ==> next == session
        }),
{
    reveal(Session::to_stderr);
    reveal(Session::to_lines);
    reveal(Session::to_write);
    reveal(Session::stdout_read);
}

} // verus!
