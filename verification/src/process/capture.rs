//! What a child process wrote, up to a limit.
use super::limits::ProcessLimits;
use crate::time::Duration;
use vstd::prelude::*;

verus! {

/// How many bytes are moved to or from a child at once.
pub const IO_CHUNK_BYTES: usize = 8 * 1024;

/// A captured stream. `bytes` never exceeds its configured limit.
#[derive(Clone, Debug, PartialEq, Eq)]
pub struct BoundedOutput {
    pub bytes: Vec<u8>,
    pub observed_bytes: u64,
    pub truncated: bool,
}

/// What a captured stream holds.
pub struct Output {
    pub bytes: Seq<u8>,
    pub observed: nat,
    pub truncated: bool,
}

impl View for BoundedOutput {
    type V = Output;

    open spec fn view(&self) -> Output {
        Output { bytes: self.bytes@, observed: self.observed_bytes as nat, truncated: self.truncated }
    }
}

pub open spec fn least(a: nat, b: nat) -> nat {
    if a <= b {
        a
    } else {
        b
    }
}

/// Nothing captured yet.
pub open spec fn nothing() -> Output {
    Output { bytes: Seq::empty(), observed: 0, truncated: false }
}

impl Output {
    /// The stream after `chunk` was read, when at most `limit` bytes are kept.
    pub open spec fn append(self, chunk: Seq<u8>, limit: nat) -> Output {
        let available = if self.bytes.len() < limit {
            (limit - self.bytes.len()) as nat
        } else {
            0
        };
        Output {
            bytes: self.bytes + chunk.take(least(chunk.len(), available) as int),
            observed: least(self.observed + chunk.len(), u64::MAX as nat),
            truncated: self.truncated || chunk.len() > available,
        }
    }

    /// The stream after all of `chunks` were read.
    pub open spec fn append_all(self, chunks: Seq<Seq<u8>>, limit: nat) -> Output
        decreases chunks.len(),
    {
        if chunks.len() == 0 {
            self
        } else {
            self.append_all(chunks.drop_last(), limit).append(chunks.last(), limit)
        }
    }
}

/// The chunks one after the other.
pub open spec fn joined(chunks: Seq<Seq<u8>>) -> Seq<u8>
    decreases chunks.len(),
{
    if chunks.len() == 0 {
        Seq::empty()
    } else {
        joined(chunks.drop_last()) + chunks.last()
    }
}

/// However the bytes arrive, the first `limit` of them are kept, all of them are counted, and
/// the stream is marked truncated exactly when there were more.
pub proof fn law_capture_keeps_the_beginning(chunks: Seq<Seq<u8>>, limit: nat)
    ensures
        ({
            let all = joined(chunks);
            let output = nothing().append_all(chunks, limit);
            &&& output.bytes == all.take(least(all.len(), limit) as int)
            &&& output.observed == least(all.len(), u64::MAX as nat)
            &&& output.truncated == (all.len() > limit)
        }),
    decreases chunks.len(),
{
    let all = joined(chunks);
    if chunks.len() == 0 {
        assert(all.take(0) =~= Seq::empty());
    } else {
        law_capture_keeps_the_beginning(chunks.drop_last(), limit);
        let before = joined(chunks.drop_last());
        let chunk = chunks.last();
        let output = nothing().append_all(chunks, limit);
        let kept = all.take(least(all.len(), limit) as int);
        assert(output.bytes =~= kept);
    }
}

impl BoundedOutput {
    pub fn with_capacity(limit: usize) -> (r: BoundedOutput)
        ensures
            r@ == nothing(),
    {
        let capacity: usize = if limit < IO_CHUNK_BYTES {
            limit
        } else {
            IO_CHUNK_BYTES
        };
        BoundedOutput { bytes: Vec::with_capacity(capacity), observed_bytes: 0, truncated: false }
    }

    /// Takes in `chunk`, of which no more is kept than `limit` allows.
    pub fn append(&mut self, chunk: &[u8], limit: usize)
        ensures
            final(self)@ == old(self)@.append(chunk@, limit as nat),
    {
        self.observed_bytes = self.observed_bytes.saturating_add(chunk.len() as u64);
        let available: usize = limit.saturating_sub(self.bytes.len());
        let kept: usize = if chunk.len() <= available {
            chunk.len()
        } else {
            available
        };
        let part: &[u8] = vstd::slice::slice_subrange(chunk, 0, kept);
        self.bytes.extend_from_slice(part);
        self.truncated = self.truncated || chunk.len() > available;
        proof {
            assert(self.bytes@ =~= old(self)@.append(chunk@, limit as nat).bytes);
        }
    }
}

/// Why a child invocation cannot be treated as operationally complete.
#[derive(Clone, Copy, Debug, PartialEq, Eq, Structural)]
pub enum IncompleteReason {
    HandshakeTimeout,
    HandshakeRejected,
    ManifestMissing,
    ProtocolViolation,
    RequestOrderViolation,
    Timeout,
    StdoutLimitExceeded,
    StderrLimitExceeded,
    StdinFailure,
    StdoutFailure,
    StderrFailure,
    UnrepresentableExitCode,
    TerminatedWithoutCode,
}

/// Process completion is deliberately separate from the tool's exit code.
#[derive(Clone, Copy, Debug, PartialEq, Eq, Structural)]
pub enum ProcessState {
    Complete,
    Incomplete(IncompleteReason),
}

/// Result of one bounded invocation.
#[derive(Clone, Debug, PartialEq, Eq)]
pub struct ProcessOutcome {
    pub state: ProcessState,
    pub exit_code: Option<u8>,
    pub stdout: BoundedOutput,
    pub stderr: BoundedOutput,
    /// Protocol-attributable run time, never greater than the requested limit.
    pub duration: Duration,
    /// Time spent terminating and draining after the attributable run phase.
    pub cleanup_duration: Duration,
}

/// One of the two streams that a child writes.
#[derive(Clone, Copy, Debug, PartialEq, Eq, Structural)]
pub enum Stream {
    Stdout,
    Stderr,
}

/// What came of reading from a child.
#[derive(Clone, Debug, PartialEq, Eq)]
pub enum ReadEvent {
    /// The child closed the stream.
    Closed,
    /// These bytes were read.
    Data(Vec<u8>),
    /// Nothing can be read now.
    NotReady,
    /// The stream failed.
    Failed,
}

/// What came of writing to a child.
#[derive(Clone, Copy, Debug, PartialEq, Eq, Structural)]
pub enum WriteEvent {
    /// So many bytes were written.
    Wrote(usize),
    /// Nothing can be written now.
    NotReady,
    /// The stream failed.
    Failed,
}

/// What is known of a child's streams: which of them are closed, what was captured, and the first
/// failure.
pub struct CaptureState {
    pub stdin_done: bool,
    pub stdout_done: bool,
    pub stderr_done: bool,
    pub stdout: BoundedOutput,
    pub stderr: BoundedOutput,
    pub failure: Option<IncompleteReason>,
}

/// What a `CaptureState` holds.
pub struct Capture {
    pub stdin_done: bool,
    pub stdout_done: bool,
    pub stderr_done: bool,
    pub stdout: Output,
    pub stderr: Output,
    pub failure: Option<IncompleteReason>,
}

impl View for CaptureState {
    type V = Capture;

    open spec fn view(&self) -> Capture {
        Capture {
            stdin_done: self.stdin_done,
            stdout_done: self.stdout_done,
            stderr_done: self.stderr_done,
            stdout: self.stdout@,
            stderr: self.stderr@,
            failure: self.failure,
        }
    }
}

/// Streams of which nothing was read or written yet.
pub open spec fn fresh_capture() -> Capture {
    Capture {
        stdin_done: false,
        stdout_done: false,
        stderr_done: false,
        stdout: nothing(),
        stderr: nothing(),
        failure: None,
    }
}

impl Capture {
    /// Records a failure, unless one was recorded before.
    pub open spec fn fail_first(self, reason: IncompleteReason) -> Capture {
        Capture {
            failure: if self.failure is Some {
                self.failure
            } else {
                Some(reason)
            },
            ..self
        }
    }

    /// Records a failure in place of an earlier one.
    pub open spec fn fail(self, reason: IncompleteReason) -> Capture {
        Capture { failure: Some(reason), ..self }
    }

    /// Takes in `chunk` from a stream. More than the limit allows is a failure.
    pub open spec fn accept(self, stream: Stream, chunk: Seq<u8>, limits: ProcessLimits) -> Capture {
        match stream {
            Stream::Stdout => {
                let stdout = self.stdout.append(chunk, limits.max_stdout_bytes as nat);
                let next = Capture { stdout, ..self };
                if stdout.truncated {
                    next.fail_first(IncompleteReason::StdoutLimitExceeded)
                } else {
                    next
                }
            },
            Stream::Stderr => {
                let stderr = self.stderr.append(chunk, limits.max_stderr_bytes as nat);
                let next = Capture { stderr, ..self };
                if stderr.truncated {
                    next.fail_first(IncompleteReason::StderrLimitExceeded)
                } else {
                    next
                }
            },
        }
    }

    pub open spec fn done(self, stream: Stream) -> Capture {
        match stream {
            Stream::Stdout => Capture { stdout_done: true, ..self },
            Stream::Stderr => Capture { stderr_done: true, ..self },
        }
    }

    pub open spec fn failed(self, stream: Stream) -> Capture {
        self.done(stream).fail_first(
            match stream {
                Stream::Stdout => IncompleteReason::StdoutFailure,
                Stream::Stderr => IncompleteReason::StderrFailure,
            },
        )
    }

    /// The streams after an attempt to read.
    pub open spec fn after_read(self, stream: Stream, event: ReadEvent, limits: ProcessLimits) -> Capture {
        match event {
            ReadEvent::Closed => self.done(stream),
            ReadEvent::Data(chunk) => self.accept(stream, chunk@, limits),
            ReadEvent::NotReady => self,
            ReadEvent::Failed => self.failed(stream),
        }
    }

    /// The streams after an attempt to write to the child, when `total` bytes are to be written
    /// and `written` were before.
    pub open spec fn after_write(self, event: WriteEvent, written: nat, total: nat) -> Capture {
        match event {
            WriteEvent::Wrote(n) => if n == 0 {
                Capture { stdin_done: true, ..self }.fail_first(IncompleteReason::StdinFailure)
            } else if written + n >= total {
                Capture { stdin_done: true, ..self }
            } else {
                self
            },
            WriteEvent::NotReady => self,
            WriteEvent::Failed => Capture { stdin_done: true, ..self }.fail_first(IncompleteReason::StdinFailure),
        }
    }

    /// The streams when the child that reads the input is gone: what was not delivered by then never
    /// will be.
    pub open spec fn without_reader(self) -> Capture {
        if self.stdin_done {
            self
        } else {
            self.fail_first(IncompleteReason::StdinFailure)
        }
    }

    /// The streams when whoever reads them is gone.
    pub open spec fn disconnected(self) -> Capture {
        let first = if self.stdout_done {
            self
        } else {
            self.failed(Stream::Stdout)
        };
        if first.stderr_done {
            first
        } else {
            first.failed(Stream::Stderr)
        }
    }

    /// No more is kept than the limits allow; where something was left out, the invocation failed.
    pub open spec fn bounded(self, limits: ProcessLimits) -> bool {
        &&& self.stdout.bytes.len() <= limits.max_stdout_bytes
        &&& self.stderr.bytes.len() <= limits.max_stderr_bytes
        &&& (self.stdout.truncated || self.stderr.truncated ==> self.failure is Some)
    }
}

/// No attempt to read makes a stream keep more than its limit, and the first failure stays the
/// one that is reported.
pub proof fn law_reading_is_bounded_and_first_failure_wins(
    capture: Capture,
    stream: Stream,
    event: ReadEvent,
    limits: ProcessLimits,
)
    requires
        capture.bounded(limits),
    ensures
        capture.after_read(stream, event, limits).bounded(limits),
        capture.failure is Some ==> capture.after_read(stream, event, limits).failure == capture.failure,
{
}

impl CaptureState {
    pub fn new(limits: &ProcessLimits) -> (r: CaptureState)
        ensures
            r@ == fresh_capture(),
    {
        CaptureState {
            stdin_done: false,
            stdout_done: false,
            stderr_done: false,
            stdout: BoundedOutput::with_capacity(limits.max_stdout_bytes),
            stderr: BoundedOutput::with_capacity(limits.max_stderr_bytes),
            failure: None,
        }
    }

    /// Records a failure, unless one was recorded before.
    pub fn fail_first(&mut self, reason: IncompleteReason)
        ensures
            final(self)@ == old(self)@.fail_first(reason),
    {
        if self.failure.is_none() {
            self.failure = Some(reason);
        }
    }

    /// The child that reads the input is gone.
    pub fn lose_reader(&mut self)
        ensures
            final(self)@ == old(self)@.without_reader(),
    {
        if !self.stdin_done {
            self.fail_first(IncompleteReason::StdinFailure);
        }
    }

    pub fn accept_output(&mut self, stream: Stream, chunk: &[u8], limits: &ProcessLimits)
        ensures
            final(self)@ == old(self)@.accept(stream, chunk@, *limits),
    {
        match stream {
            Stream::Stdout => {
                self.stdout.append(chunk, limits.max_stdout_bytes);
                if self.stdout.truncated {
                    self.fail_first(IncompleteReason::StdoutLimitExceeded);
                }
            },
            Stream::Stderr => {
                self.stderr.append(chunk, limits.max_stderr_bytes);
                if self.stderr.truncated {
                    self.fail_first(IncompleteReason::StderrLimitExceeded);
                }
            },
        }
    }

    pub fn mark_output_done(&mut self, stream: Stream)
        ensures
            final(self)@ == old(self)@.done(stream),
    {
        match stream {
            Stream::Stdout => {
                self.stdout_done = true;
            },
            Stream::Stderr => {
                self.stderr_done = true;
            },
        }
    }

    pub fn mark_output_failure(&mut self, stream: Stream)
        ensures
            final(self)@ == old(self)@.failed(stream),
    {
        self.mark_output_done(stream);
        match stream {
            Stream::Stdout => {
                self.fail_first(IncompleteReason::StdoutFailure);
            },
            Stream::Stderr => {
                self.fail_first(IncompleteReason::StderrFailure);
            },
        }
    }

    /// Takes in what came of reading from a stream, and tells whether bytes came.
    pub fn drain_output(&mut self, stream: Stream, event: ReadEvent, limits: &ProcessLimits) -> (r: bool)
        ensures
            final(self)@ == old(self)@.after_read(stream, event, *limits),
            r == (event is Data),
    {
        match event {
            ReadEvent::Closed => {
                self.mark_output_done(stream);
                false
            },
            ReadEvent::Data(chunk) => {
                self.accept_output(stream, chunk.as_slice(), limits);
                true
            },
            ReadEvent::NotReady => false,
            ReadEvent::Failed => {
                self.mark_output_failure(stream);
                false
            },
        }
    }

    /// Takes in what came of writing the child's input, and tells whether bytes went.
    pub fn write_stdin(&mut self, event: WriteEvent, written: usize, total: usize) -> (r: bool)
        ensures
            final(self)@ == old(self)@.after_write(event, written as nat, total as nat),
            r == (event matches WriteEvent::Wrote(n) && n > 0),
    {
        match event {
            WriteEvent::Wrote(n) => {
                if n == 0 {
                    self.stdin_done = true;
                    self.fail_first(IncompleteReason::StdinFailure);
                    false
                } else {
                    if written >= total || n >= total - written {
                        self.stdin_done = true;
                    }
                    true
                }
            },
            WriteEvent::NotReady => false,
            WriteEvent::Failed => {
                self.stdin_done = true;
                self.fail_first(IncompleteReason::StdinFailure);
                false
            },
        }
    }

    /// Records that whoever reads the streams is gone.
    pub fn mark_disconnected(&mut self)
        ensures
            final(self)@ == old(self)@.disconnected(),
    {
        if !self.stdout_done {
            self.mark_output_failure(Stream::Stdout);
        }
        if !self.stderr_done {
            self.mark_output_failure(Stream::Stderr);
        }
    }
}

/// How a child ended, as the operating system tells it.
#[derive(Clone, Copy, Debug, PartialEq, Eq, Structural)]
pub struct ExitInfo {
    /// The exit code; none, if a signal ended the child.
    pub code: Option<i32>,
}

/// The state of an invocation of which `failure` is known and that ended as `exit` tells.
pub open spec fn final_state(failure: Option<IncompleteReason>, exit: Option<ExitInfo>) -> ProcessState {
    match failure {
        Some(reason) => ProcessState::Incomplete(reason),
        None => match exit {
            Some(ExitInfo { code: Some(code) }) => if 0 <= code <= 255 {
                ProcessState::Complete
            } else {
                ProcessState::Incomplete(IncompleteReason::UnrepresentableExitCode)
            },
            _ => ProcessState::Incomplete(IncompleteReason::TerminatedWithoutCode),
        },
    }
}

/// The exit code that is reported: only a complete invocation has one.
pub open spec fn final_code(failure: Option<IncompleteReason>, exit: Option<ExitInfo>) -> Option<u8> {
    if final_state(failure, exit) == ProcessState::Complete {
        Some(exit->0.code->0 as u8)
    } else {
        None
    }
}

/// Tells the state of an invocation and the exit code that is reported.
pub fn completion(failure: Option<IncompleteReason>, exit: Option<ExitInfo>) -> (r: (ProcessState, Option<u8>))
    ensures
        r.0 == final_state(failure, exit),
        r.1 == final_code(failure, exit),
{
    match failure {
        Some(reason) => (ProcessState::Incomplete(reason), None),
        None => match exit {
            Some(ended) => match ended.code {
                Some(code) => if 0 <= code && code <= 255 {
                    (ProcessState::Complete, Some(code as u8))
                } else {
                    (ProcessState::Incomplete(IncompleteReason::UnrepresentableExitCode), None)
                },
                None => (ProcessState::Incomplete(IncompleteReason::TerminatedWithoutCode), None),
            },
            None => (ProcessState::Incomplete(IncompleteReason::TerminatedWithoutCode), None),
        },
    }
}

} // verus!
