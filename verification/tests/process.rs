//! Bounded child processes, run against scripted children and a clock of the test's own.

use diagnostic_triage::config::provider::ProviderConfig;
use diagnostic_triage::config::runtime::{
    ClassificationConfig, EngineConfig, EngineVerdict, OutputConfig, PolicyConfig, RepositoryConfig, RuntimeConfig,
};
use diagnostic_triage::config::RuntimeLimits;
use diagnostic_triage::process::capture::{
    ExitInfo, IncompleteReason, ProcessOutcome, ProcessState, ReadEvent, Stream, WriteEvent, IO_CHUNK_BYTES,
};
use diagnostic_triage::process::direct::{DirectAction, DirectEvent, DirectRun};
use diagnostic_triage::process::error::{combine_errors, push_error, IoFailure, IoKind, ProcessError};
use diagnostic_triage::process::invocation::ProcessSpec;
use diagnostic_triage::process::limits::{ProcessLimits, RequestLimits};
use diagnostic_triage::process::manifest::{
    ManifestFirstOutcome, ManifestRun, SessionAction, SessionEvent, StreamLineDecision,
};
use diagnostic_triage::process::queued::{QueuedEvent, QueuedRun, QueuedStep};
use diagnostic_triage::process::terminate::{
    cleanup_after_process_error, cleanup_result, group_wait_step, Drain, DrainStep, GroupWait, Termination,
    TerminationEvent, TerminationStep,
};
use diagnostic_triage::process::watched::{
    cleanup_setup_failure, finish_execution, join_step, watch_step, JoinStep, Joined, ReaderEvent, ReaderStep, StreamReader, WatchStep,
};
use diagnostic_triage::process::words::Teller;
use diagnostic_triage::rust::session::LaunchFault;
use diagnostic_triage::time::Duration;
use std::collections::VecDeque;

fn limits(stdout: usize, stderr: usize) -> ProcessLimits {
    ProcessLimits {
        timeout: Duration::from_secs(2),
        max_stdout_bytes: stdout,
        max_stderr_bytes: stderr,
    }
}

fn short(stdout: usize, stderr: usize) -> ProcessLimits {
    ProcessLimits {
        timeout: Duration::from_millis(40),
        max_stdout_bytes: stdout,
        max_stderr_bytes: stderr,
    }
}

/// A child that says what it has to say, takes what it is given, and exits, unless it hangs.
#[derive(Default)]
struct Child {
    stdout: VecDeque<Vec<u8>>,
    stderr: VecDeque<Vec<u8>>,
    endless: bool,
    takes: usize,
    taken: Vec<u8>,
    hangs: bool,
    code: Option<i32>,
    reaped: bool,
    group_signals: usize,
    signal_error: Option<IoFailure>,
    holds_pipes: bool,
    now_ms: u64,
}

impl Child {
    fn says(stdout: &[u8], stderr: &[u8], code: i32) -> Child {
        Child {
            stdout: stdout.chunks(IO_CHUNK_BYTES).map(<[u8]>::to_vec).collect(),
            stderr: stderr.chunks(IO_CHUNK_BYTES).map(<[u8]>::to_vec).collect(),
            takes: usize::MAX,
            code: Some(code),
            ..Child::default()
        }
    }

    fn hanging() -> Child {
        Child {
            hangs: true,
            ..Child::default()
        }
    }

    fn now(&mut self) -> Duration {
        self.now_ms += 1;
        Duration::from_millis(self.now_ms)
    }

    fn exited(&self) -> bool {
        !self.hangs && self.stdout.is_empty() && self.stderr.is_empty()
    }

    fn read(&mut self, stream: Stream) -> ReadEvent {
        if self.endless && stream == Stream::Stdout && self.group_signals == 0 {
            return ReadEvent::Data(b"y\n".repeat(IO_CHUNK_BYTES / 2));
        }
        let pipe = match stream {
            Stream::Stdout => &mut self.stdout,
            Stream::Stderr => &mut self.stderr,
        };
        match pipe.pop_front() {
            Some(bytes) => ReadEvent::Data(bytes),
            None if self.reaped && !self.holds_pipes => ReadEvent::Closed,
            None => ReadEvent::NotReady,
        }
    }

    fn write(&mut self, input: &[u8]) -> WriteEvent {
        let room = self.takes.min(input.len());
        if room == 0 {
            return WriteEvent::NotReady;
        }
        self.takes -= room;
        self.taken.extend_from_slice(&input[..room]);
        WriteEvent::Wrote(room)
    }

    fn signal(&mut self) -> Result<(), IoFailure> {
        self.group_signals += 1;
        match self.signal_error.clone() {
            Some(error) => Err(error),
            None => Ok(()),
        }
    }

    fn terminate(&mut self) -> (Option<ExitInfo>, Result<(), ProcessError>) {
        let mut ending = Termination::new(None);
        loop {
            let event = match ending.step {
                TerminationStep::Probe => TerminationEvent::Probed(self.exited()),
                TerminationStep::Signal => match self.signal() {
                    Ok(()) => TerminationEvent::Signalled,
                    Err(error) => TerminationEvent::Failed(error),
                },
                TerminationStep::TryReap | TerminationStep::Reap => {
                    self.reaped = true;
                    TerminationEvent::Reaped(Some(ExitInfo {
                        code: if self.hangs { None } else { self.code },
                    }))
                }
                TerminationStep::Kill => TerminationEvent::Killed,
                TerminationStep::WaitGroup => TerminationEvent::GroupGone(true),
                TerminationStep::Done => break,
            };
            ending.advance(event);
        }
        (ending.exit, ending.finish())
    }
}

fn drain(child: &mut Child, drain: &mut Drain) -> Result<(), ProcessError> {
    let started = child.now_ms;
    loop {
        match drain.step {
            DrainStep::ReadStdout => {
                let event = child.read(Stream::Stdout);
                drain.read(event);
            }
            DrainStep::ReadStderr => {
                let event = child.read(Stream::Stderr);
                drain.read(event);
            }
            DrainStep::Clock => {
                let elapsed = child.now_ms - started;
                drain.clock(Duration::from_millis(elapsed));
            }
            DrainStep::Sleep(pause) => {
                child.now_ms += pause.as_millis() as u64;
                drain.slept();
            }
            DrainStep::Done => return drain.finish(),
        }
    }
}

fn run_bounded(child: &mut Child, input: &[u8], limits: ProcessLimits) -> Result<ProcessOutcome, ProcessError> {
    let mut run = DirectRun::new(limits, input.len());
    loop {
        let event = match run.next_action() {
            DirectAction::Write { from, to } => DirectEvent::Wrote(child.write(&input[from..to])),
            DirectAction::Read(stream) => DirectEvent::Read(child.read(stream)),
            DirectAction::Probe => DirectEvent::Probed(child.exited()),
            DirectAction::Sleep(pause) => {
                child.now_ms += pause.as_millis() as u64;
                DirectEvent::Slept
            }
            DirectAction::Cleanup => break,
            DirectAction::Abort => unreachable!("no probe fails"),
        };
        let now = child.now();
        run.advance(event, now);
    }
    let (exit, ended) = child.terminate();
    let mut rest = Drain::new(run.capture, limits);
    let drained = drain(child, &mut rest);
    run.capture = rest.capture;
    cleanup_result(ended, drained)?;
    let now = child.now();
    run.finish(exit, now)
}

fn run_manifest_first(
    child: &mut Child,
    request: &[u8],
    limits: ProcessLimits,
    handshake: Duration,
    accepts: impl Fn(&[u8]) -> bool,
    judges: impl Fn(&[u8]) -> StreamLineDecision,
) -> Result<ManifestFirstOutcome, ProcessError> {
    let mut run = ManifestRun::start(limits, handshake, request.len())?;
    loop {
        let event = match run.next_action() {
            SessionAction::Clock => SessionEvent::Tick,
            SessionAction::Read(stream) => SessionEvent::Read(child.read(stream)),
            SessionAction::CheckManifest { to } => SessionEvent::ManifestChecked(accepts(&run.capture.stdout.bytes[..to])),
            SessionAction::Write { from, to } => SessionEvent::Wrote(child.write(&request[from..to])),
            SessionAction::CheckLine { from, to } => {
                SessionEvent::LineChecked(judges(&run.capture.stdout.bytes[from..to]))
            }
            SessionAction::Probe => SessionEvent::Probed(child.exited()),
            SessionAction::Sleep(pause) => {
                child.now_ms += pause.as_millis() as u64;
                SessionEvent::Slept
            }
            SessionAction::Cleanup => break,
            SessionAction::Abort => unreachable!("no probe fails"),
        };
        let now = child.now();
        run.advance(event, now);
    }
    let (exit, ended) = child.terminate();
    let mut rest = Drain::new(run.capture, limits);
    let drained = drain(child, &mut rest);
    run.capture = rest.capture;
    cleanup_result(ended, drained)?;
    let now = child.now();
    run.finish(exit, now)
}

fn contains_group_signal(error: &ProcessError) -> bool {
    match error {
        ProcessError::GroupSignal(_) => true,
        ProcessError::MultipleFailures { failures } => failures.iter().any(contains_group_signal),
        _ => false,
    }
}

fn contains_capture_drain_timeout(error: &ProcessError) -> bool {
    match error {
        ProcessError::CaptureDrainTimeout => true,
        ProcessError::MultipleFailures { failures } => failures.iter().any(contains_capture_drain_timeout),
        _ => false,
    }
}

fn denied() -> IoFailure {
    IoFailure {
        kind: IoKind::PermissionDenied,
        message: "permission denied".to_owned(),
    }
}

fn other(message: &str) -> IoFailure {
    IoFailure {
        kind: IoKind::Other,
        message: message.to_owned(),
    }
}

#[test]
fn manifest_boundary_never_hides_pre_request_payload() {
    for line_bytes in [IO_CHUNK_BYTES - 1, IO_CHUNK_BYTES, IO_CHUNK_BYTES + 1] {
        let mut said = vec![b'm'; line_bytes - 1];
        said.extend_from_slice(b"\nTAIL\n");
        let mut child = Child::says(&said, b"", 0);
        let result = run_manifest_first(
            &mut child,
            b"request\n",
            limits(32 * 1024, 4 * 1024),
            Duration::from_secs(1),
            |_| true,
            |_| StreamLineDecision::Continue,
        )
        .unwrap();

        assert_eq!(result.request_bytes_written, 0, "line bytes {line_bytes}");
        assert_eq!(
            result.process.state,
            ProcessState::Incomplete(IncompleteReason::RequestOrderViolation),
            "line bytes {line_bytes}"
        );
        assert!(child.taken.is_empty(), "line bytes {line_bytes}");
    }
}

#[test]
fn manifest_first_leader_exit_kills_closed_stdio_delayed_writer() {
    let mut child = Child {
        hangs: true,
        ..Child::says(b"manifest\n", b"", 0)
    };
    let request = b"request\n";
    let mut run = ManifestRun::start(limits(1024, 64), Duration::from_secs(1), request.len()).unwrap();
    loop {
        let event = match run.next_action() {
            SessionAction::Clock => SessionEvent::Tick,
            SessionAction::Read(stream) => SessionEvent::Read(child.read(stream)),
            SessionAction::CheckManifest { to } => {
                SessionEvent::ManifestChecked(&run.capture.stdout.bytes[..to] == b"manifest\n")
            }
            SessionAction::Write { from, to } => {
                let wrote = child.write(&request[from..to]);
                if child.taken == request {
                    child.stdout.push_back(b"done\n".to_vec());
                    child.hangs = false;
                }
                SessionEvent::Wrote(wrote)
            }
            SessionAction::CheckLine { from, to } => {
                SessionEvent::LineChecked(if &run.capture.stdout.bytes[from..to] == b"done\n" {
                    StreamLineDecision::Complete
                } else {
                    StreamLineDecision::Reject
                })
            }
            SessionAction::Probe => SessionEvent::Probed(child.exited()),
            SessionAction::Sleep(pause) => {
                child.now_ms += pause.as_millis() as u64;
                SessionEvent::Slept
            }
            SessionAction::Cleanup => break,
            SessionAction::Abort => unreachable!("no probe fails"),
        };
        let now = child.now();
        run.advance(event, now);
    }
    let (exit, ended) = child.terminate();
    let mut rest = Drain::new(run.capture, limits(1024, 64));
    let drained = drain(&mut child, &mut rest);
    run.capture = rest.capture;
    cleanup_result(ended, drained).expect("manifest-first cleanup succeeds");
    let now = child.now();
    let outcome = run.finish(exit, now).expect("manifest-first cleanup succeeds");

    assert!(outcome.handshake_accepted);
    assert_eq!(outcome.process.state, ProcessState::Complete);
    assert_eq!(outcome.process.exit_code, Some(0));
    assert_eq!(child.group_signals, 1);
}

#[test]
fn captures_stdout_stderr_and_stdin_without_a_shell_api() {
    let mut child = Child::says(b"request", b"warning", 0);
    let outcome = run_bounded(&mut child, b"request\n", limits(1024, 1024)).expect("process completes");

    assert_eq!(outcome.state, ProcessState::Complete);
    assert_eq!(outcome.exit_code, Some(0));
    assert_eq!(outcome.stdout.bytes, b"request");
    assert_eq!(outcome.stderr.bytes, b"warning");
    assert!(!outcome.stdout.truncated);
    assert_eq!(child.taken, b"request\n");
}

#[test]
fn preserves_nonzero_exit_as_a_completed_process() {
    let outcome = run_bounded(&mut Child::says(b"", b"failure", 7), b"", limits(64, 64))
        .expect("nonzero is still a process outcome");

    assert_eq!(outcome.state, ProcessState::Complete);
    assert_eq!(outcome.exit_code, Some(7));
    assert_eq!(outcome.stderr.bytes, b"failure");
}

#[test]
fn timeout_terminates_the_child_and_is_incomplete() {
    let mut child = Child::hanging();
    let outcome = run_bounded(&mut child, b"", short(64, 64)).expect("timeout is a structured outcome");

    assert_eq!(outcome.state, ProcessState::Incomplete(IncompleteReason::Timeout));
    assert_eq!(outcome.exit_code, None);
    assert!(outcome.duration.as_millis() <= 40);
    assert!(child.now_ms < 1000);
    assert_eq!(child.group_signals, 1);
}

#[test]
fn process_stdout_overflow_is_truncated_and_incomplete() {
    let outcome = run_bounded(&mut Child::says(&[b'x'; 1000], b"", 0), b"", limits(32, 64))
        .expect("overflow is a structured outcome");

    assert_eq!(
        outcome.state,
        ProcessState::Incomplete(IncompleteReason::StdoutLimitExceeded)
    );
    assert_eq!(outcome.stdout.bytes.len(), 32);
    assert!(outcome.stdout.observed_bytes > 32);
    assert!(outcome.stdout.truncated);
    assert_eq!(outcome.exit_code, None);
}

#[test]
fn continuous_output_has_bounded_queueing_and_termination_latency() {
    let mut child = Child {
        endless: true,
        hangs: true,
        ..Child::default()
    };
    let outcome = run_bounded(&mut child, b"", limits(1, 64)).expect("bounded outcome");

    assert_eq!(
        outcome.state,
        ProcessState::Incomplete(IncompleteReason::StdoutLimitExceeded)
    );
    assert_eq!(outcome.stdout.bytes.len(), 1);
    assert!(outcome.stdout.truncated);
    assert!(child.now_ms < 1000);
}

#[test]
fn stderr_overflow_is_truncated_and_incomplete() {
    let outcome = run_bounded(&mut Child::says(b"", &[b'y'; 1000], 0), b"", limits(64, 32))
        .expect("overflow is a structured outcome");

    assert_eq!(
        outcome.state,
        ProcessState::Incomplete(IncompleteReason::StderrLimitExceeded)
    );
    assert_eq!(outcome.stderr.bytes.len(), 32);
    assert!(outcome.stderr.truncated);
}

#[test]
fn output_at_the_exact_limit_is_complete() {
    let outcome =
        run_bounded(&mut Child::says(b"12345678", b"", 0), b"", limits(8, 8)).expect("exact boundary completes");

    assert_eq!(outcome.state, ProcessState::Complete);
    assert_eq!(outcome.stdout.bytes, b"12345678");
    assert_eq!(outcome.stdout.observed_bytes, 8);
    assert!(!outcome.stdout.truncated);
}

#[test]
fn process_simultaneous_streams_are_drained_without_deadlock() {
    let outcome = run_bounded(
        &mut Child::says(&[b'x'; 1000], &[b'y'; 1000], 0),
        b"",
        limits(2048, 2048),
    )
    .expect("both pipes drain");

    assert_eq!(outcome.state, ProcessState::Complete);
    assert_eq!(outcome.stdout.bytes.len(), 1000);
    assert_eq!(outcome.stderr.bytes.len(), 1000);
}

#[test]
fn blocked_stdin_writer_still_obeys_timeout() {
    let mut child = Child {
        takes: 65_536,
        ..Child::hanging()
    };
    let outcome = run_bounded(&mut child, &vec![b'x'; 1024 * 1024], short(64, 64)).expect("blocked stdin is terminated");

    assert_eq!(outcome.state, ProcessState::Incomplete(IncompleteReason::Timeout));
    assert!(child.now_ms < 1000);
}

#[test]
fn zero_capture_limit_is_valid_and_rejects_the_first_byte() {
    let empty = run_bounded(&mut Child::says(b"", b"", 0), b"", limits(0, 0)).expect("zero capture is valid");
    assert_eq!(empty.state, ProcessState::Complete);

    let output = run_bounded(&mut Child::says(b"x", b"", 0), b"", limits(0, 0)).expect("bounded outcome");
    assert_eq!(
        output.state,
        ProcessState::Incomplete(IncompleteReason::StdoutLimitExceeded)
    );
    assert!(output.stdout.bytes.is_empty());
    assert_eq!(output.stdout.observed_bytes, 1);
    assert_eq!(output.exit_code, None);
}

#[test]
fn timeout_must_use_protocol_millisecond_precision() {
    let error = ProcessLimits {
        timeout: Duration::from_micros(1500),
        max_stdout_bytes: 0,
        max_stderr_bytes: 0,
    }
    .validate()
    .unwrap_err();

    assert!(matches!(error, ProcessError::InvalidLimits(_)));
}

fn assert_closed_stdio_descendant_is_killed(exit_code: u8) {
    let mut child = Child::says(b"4242\n", b"", i32::from(exit_code));
    let outcome = run_bounded(&mut child, b"", limits(64, 64))
        .expect("leader status and descendant cleanup are both preserved");

    assert_eq!(outcome.state, ProcessState::Complete);
    assert_eq!(outcome.exit_code, Some(exit_code));
    assert!(child.now_ms < 1000);
    assert_eq!(child.group_signals, 1);
}

#[test]
fn zero_exit_kills_closed_stdio_descendant_and_preserves_status() {
    assert_closed_stdio_descendant_is_killed(0);
}

#[test]
fn nonzero_exit_kills_closed_stdio_descendant_and_preserves_status() {
    assert_closed_stdio_descendant_is_killed(7);
}

fn wait_for_group(left: &[u64], mut probe: impl FnMut() -> Result<bool, IoFailure>) -> Result<bool, IoFailure> {
    for left in left {
        match group_wait_step(probe(), Duration::from_millis(*left)) {
            GroupWait::Gone => return Ok(true),
            GroupWait::Live => return Ok(false),
            GroupWait::Failed(error) => return Err(error),
            GroupWait::Again(_) => {}
        }
    }
    panic!("the deadline ends every wait");
}

#[test]
fn process_transient_group_probe_permission_error_is_retried() {
    let mut calls = 0;
    let reaped = wait_for_group(&[100, 90, 0], || {
        calls += 1;
        if calls == 1 {
            Err(denied())
        } else {
            Ok(false)
        }
    })
    .expect("a transient group-probe EPERM is retried");

    assert!(reaped);
    assert_eq!(calls, 2);
}

#[test]
fn process_persistent_group_probe_permission_error_is_typed() {
    let error = wait_for_group(&[0], || Err(denied())).expect_err("a persistent group-probe EPERM must propagate");

    assert_eq!(error.kind, IoKind::PermissionDenied);
    assert!(!wait_for_group(&[0], || Ok(true)).unwrap());
}

#[test]
fn zombie_only_permission_error_never_resignals_after_reap() {
    let mut child = Child {
        signal_error: Some(denied()),
        ..Child::says(b"", b"", 0)
    };
    let (exit, ended) = child.terminate();
    ended.expect("zombie-only EPERM is resolved by a non-destructive probe");

    assert_eq!(child.group_signals, 1);
    assert!(exit.is_some());
}

#[test]
fn escaped_session_pipe_holder_is_a_bounded_typed_failure() {
    let mut child = Child {
        holds_pipes: true,
        ..Child::says(b"", b"", 0)
    };
    let error = run_bounded(&mut child, b"", limits(64, 64)).expect_err("an escaped pipe holder is incomplete");
    assert!(contains_capture_drain_timeout(&error), "error: {error:?}");
    assert!(child.now_ms < 1000);
}

#[test]
fn cleanup_preserves_multiple_failures_and_disarms_reaped_pgid() {
    let mut child = Child {
        holds_pipes: true,
        signal_error: Some(other("injected group-signal failure")),
        ..Child::says(b"", b"", 0)
    };
    let error =
        run_bounded(&mut child, b"", limits(64, 64)).expect_err("both injected signal and escaped-pipe failures propagate");
    assert!(contains_group_signal(&error), "error: {error:?}");
    assert!(contains_capture_drain_timeout(&error), "error: {error:?}");
    assert!(child.reaped);
    assert_eq!(child.group_signals, 1);
}

#[test]
fn wait_failure_and_cleanup_failure_are_both_retained() {
    let mut child = Child {
        signal_error: Some(other("injected group-signal failure")),
        ..Child::hanging()
    };
    let (exit, ended) = child.terminate();
    let error = cleanup_after_process_error(ProcessError::Wait(other("injected wait failure")), ended);

    let ProcessError::MultipleFailures { failures } = error else {
        panic!("primary and cleanup failures must be aggregated");
    };
    assert!(failures.iter().any(|error| matches!(error, ProcessError::Wait(_))));
    assert!(failures.iter().any(contains_group_signal));
    assert!(exit.is_some());
}

#[test]
fn invalid_spec_and_limits_fail_before_spawn() {
    assert!(matches!(
        ProcessSpec::new("".as_bytes()).validate(true),
        Err(ProcessError::InvalidSpec(_))
    ));
    assert!(matches!(
        ProcessLimits {
            timeout: Duration::zero(),
            ..ProcessLimits::default()
        }
        .validate(),
        Err(ProcessError::InvalidLimits(_))
    ));
}

#[test]
fn default_limits_match_the_protocol_contract() {
    assert_eq!(ProcessLimits::default_timeout(), Duration::from_secs(600));
    assert_eq!(ProcessLimits::DEFAULT_STDOUT_BYTES, 16 * 1024 * 1024);
    assert_eq!(ProcessLimits::DEFAULT_STDERR_BYTES, 4 * 1024 * 1024);
}

#[test]
fn runs_configured_direct_command_with_exact_argv() {
    let argv: Vec<String> = ["%s\\n", "first argument", "second argument"]
        .iter()
        .map(|arg| (*arg).to_owned())
        .collect();
    let config = RuntimeConfig {
        engine: EngineConfig {
            version: "0.1.0".to_owned(),
            source_revision: "a12b34c56d78e90f1234567890abcdef12345678".to_owned(),
        },
        repository: RepositoryConfig {
            workspace: ".".to_owned(),
            targets: vec!["src".to_owned(), "tests".to_owned()],
        },
        providers: vec![ProviderConfig {
            adapter_id: "rust".to_owned(),
            program: "printf".to_owned(),
            argv: argv.clone(),
            required: true,
            required_capabilities: vec!["diagnostic.check/v1".to_owned()],
            optional_capabilities: Vec::new(),
        }],
        limits: RuntimeLimits::default(),
        classification: ClassificationConfig { rules: Vec::new() },
        policy: PolicyConfig {
            rules: Vec::new(),
            waivers: Vec::new(),
        },
        output: OutputConfig::default(),
    };
    let verdict = EngineVerdict {
        max_classification_rules: 1,
        valid_taxonomies: Vec::new(),
        valid_policy: true,
    };
    let spec = config.process_spec("rust", &verdict).expect("process spec");
    assert_eq!(spec.program_bytes(), b"printf");
    assert_eq!(spec.arguments(), &argv);
    let mut said = Vec::new();
    for arg in &spec.arguments()[1..] {
        said.extend_from_slice(arg.as_bytes());
        said.push(b'\n');
    }
    let limits = config.process_limits(&verdict).expect("process limits");
    let outcome = run_bounded(&mut Child::says(&said, b"", 0), spec.input(), limits).expect("direct process completes");

    assert_eq!(outcome.state, ProcessState::Complete);
    assert_eq!(outcome.exit_code, Some(0));
    assert_eq!(outcome.stdout.bytes, b"first argument\nsecond argument\n");
    assert!(outcome.stderr.bytes.is_empty());
}

#[test]
fn undelivered_input_is_incomplete() {
    let mut child = Child::says(b"done", b"", 0);
    child.takes = 3;
    let outcome = run_bounded(&mut child, b"request\n", limits(64, 64)).unwrap();
    assert_eq!(outcome.state, ProcessState::Incomplete(IncompleteReason::StdinFailure));
    assert_eq!(outcome.stdout.bytes, b"done");
    assert_eq!(child.taken, b"req");
}

#[test]
fn a_silent_provider_misses_its_handshake() {
    let outcome = run_manifest_first(
        &mut Child::hanging(),
        b"request\n",
        limits(64, 64),
        Duration::from_millis(30),
        |_| true,
        |_| StreamLineDecision::Continue,
    )
    .unwrap();
    assert_eq!(
        outcome.process.state,
        ProcessState::Incomplete(IncompleteReason::HandshakeTimeout)
    );
    assert!(!outcome.handshake_accepted);
    assert_eq!(outcome.request_bytes_written, 0);
}

#[test]
fn a_refused_manifest_is_sent_no_request() {
    let mut child = Child::says(b"manifest\n", b"", 0);
    let outcome = run_manifest_first(
        &mut child,
        b"request\n",
        limits(64, 64),
        Duration::from_secs(1),
        |_| false,
        |_| StreamLineDecision::Continue,
    )
    .unwrap();
    assert_eq!(
        outcome.process.state,
        ProcessState::Incomplete(IncompleteReason::HandshakeRejected)
    );
    assert!(child.taken.is_empty());
}

#[test]
fn a_provider_without_a_manifest_is_incomplete() {
    let outcome = run_manifest_first(
        &mut Child::says(b"", b"", 0),
        b"request\n",
        limits(64, 64),
        Duration::from_secs(1),
        |_| true,
        |_| StreamLineDecision::Continue,
    )
    .unwrap();
    assert_eq!(
        outcome.process.state,
        ProcessState::Incomplete(IncompleteReason::ManifestMissing)
    );
}

#[test]
fn a_process_group_that_stays_is_reported() {
    let mut ending = Termination::new(None);
    ending.advance(TerminationEvent::Probed(true));
    ending.advance(TerminationEvent::Signalled);
    ending.advance(TerminationEvent::Reaped(Some(ExitInfo { code: Some(0) })));
    ending.advance(TerminationEvent::GroupGone(false));
    assert_eq!(ending.step, TerminationStep::Done);
    assert!(matches!(ending.finish(), Err(ProcessError::GroupUnreaped)));
}

#[test]
fn a_child_that_cannot_be_reaped_is_reported() {
    let mut ending = Termination::new(None);
    ending.advance(TerminationEvent::Failed(other("no such process")));
    ending.advance(TerminationEvent::Failed(denied()));
    ending.advance(TerminationEvent::Reaped(None));
    assert_eq!(ending.step, TerminationStep::Kill);
    ending.advance(TerminationEvent::Failed(other("kill failed")));
    ending.advance(TerminationEvent::Reaped(None));
    ending.advance(TerminationEvent::Failed(other("probe failed")));
    let Err(ProcessError::MultipleFailures { failures }) = ending.finish() else {
        panic!("every failure is kept");
    };
    assert!(matches!(failures[0], ProcessError::Wait(_)));
    assert!(matches!(failures[1], ProcessError::LeaderSignal(_)));
    assert!(matches!(failures[2], ProcessError::Unreaped));
    assert!(matches!(failures[3], ProcessError::GroupSignal(_)));
    assert!(matches!(failures[4], ProcessError::GroupWait(_)));
    assert_eq!(failures.len(), 5);
}

#[test]
fn combining_errors_flattens_them() {
    let mut errors = vec![ProcessError::Unreaped];
    push_error(
        &mut errors,
        ProcessError::MultipleFailures {
            failures: vec![ProcessError::GroupUnreaped, ProcessError::CaptureDrainTimeout],
        },
    );
    let ProcessError::MultipleFailures { failures } = combine_errors(errors) else {
        panic!("three failures are several");
    };
    assert_eq!(failures.len(), 3);
    assert!(matches!(combine_errors(vec![ProcessError::Unreaped]), ProcessError::Unreaped));
}

#[test]
fn invocations_are_checked_before_they_run() {
    assert!(matches!(
        ProcessSpec::new(b"tool").arg("a\0b").validate(true),
        Err(ProcessError::InvalidSpec(_))
    ));
    assert!(matches!(
        ProcessSpec::new(b"tool").current_dir(b"/missing").validate(false),
        Err(ProcessError::InvalidCurrentDirectory { path }) if path == b"/missing"
    ));
    let spec = ProcessSpec::new(b"tool")
        .args(&["-c", "x"])
        .current_dir(b"/repo")
        .stdin(b"input".to_vec());
    spec.validate(true).unwrap();
    assert_eq!(spec.arguments(), &vec!["-c".to_owned(), "x".to_owned()]);
    assert_eq!(spec.directory(), Some(b"/repo".as_slice()));
    assert_eq!(spec.input(), b"input");
}

#[test]
fn process_limits_follow_the_request() {
    let request = RequestLimits {
        timeout_ms: 1500,
        max_stdout_bytes: 10,
        max_stderr_bytes: 20,
        max_events: 1,
        max_evidence_bytes: 1,
    };
    let limits = ProcessLimits::from_request(&request).unwrap();
    assert_eq!(limits.timeout, Duration::from_millis(1500));
    assert_eq!(limits.max_stdout_bytes, 10);
    assert_eq!(limits.max_stderr_bytes, 20);
}

/// Drives a queued run: what stands in the queue, how the leader ended, and whether its streams
/// close once the group is gone.
fn run_queued(
    limits: ProcessLimits,
    mut queue: VecDeque<QueuedEvent>,
    exit: Option<ExitInfo>,
    signals: &mut usize,
) -> Result<ProcessOutcome, ProcessError> {
    let mut run = QueuedRun::new(limits);
    let mut now: u64 = 0;
    loop {
        now += 1;
        let event = match run.step {
            QueuedStep::Poll(_) => queue.pop_front().unwrap_or(QueuedEvent::Empty),
            QueuedStep::Receive(pause) => {
                now += pause.as_millis() as u64;
                queue.pop_front().unwrap_or(QueuedEvent::Empty)
            }
            QueuedStep::Wait(pause) => {
                now += pause.as_millis() as u64;
                QueuedEvent::Exited(exit)
            }
            QueuedStep::Signal => {
                *signals += 1;
                QueuedEvent::Signalled
            }
            QueuedStep::TryReap | QueuedStep::Reap => QueuedEvent::Exited(Some(ExitInfo { code: None })),
            QueuedStep::Kill => QueuedEvent::Killed,
            QueuedStep::WaitGroup => QueuedEvent::GroupGone(true),
            QueuedStep::Drain(_) => QueuedEvent::Disconnected,
            QueuedStep::Finished | QueuedStep::Failed => break,
        };
        run.advance(event, Duration::from_millis(now));
    }
    run.finish(Duration::from_millis(3))
}

#[test]
fn a_queued_run_outlives_its_group() {
    let mut signals = 0;
    let queue = VecDeque::from([
        QueuedEvent::Received(Stream::Stdout, ReadEvent::Data(b"[]".to_vec())),
        QueuedEvent::Received(Stream::Stdout, ReadEvent::Closed),
        QueuedEvent::Received(Stream::Stderr, ReadEvent::Closed),
    ]);
    let outcome = run_queued(limits(64, 64), queue, Some(ExitInfo { code: Some(1) }), &mut signals).unwrap();
    assert_eq!(outcome.state, ProcessState::Complete);
    assert_eq!(outcome.exit_code, Some(1));
    assert_eq!(outcome.stdout.bytes, b"[]");
    assert_eq!(outcome.cleanup_duration, Duration::from_millis(3));
    assert_eq!(signals, 1);
}

#[test]
fn leader_exit_with_descendant_held_pipes_remains_bounded() {
    let mut signals = 0;
    let queue = VecDeque::from([QueuedEvent::Received(Stream::Stdout, ReadEvent::Data(b"4242\n".to_vec()))]);
    let outcome = run_queued(
        ProcessLimits {
            timeout: Duration::from_millis(80),
            max_stdout_bytes: 64,
            max_stderr_bytes: 64,
        },
        queue,
        Some(ExitInfo { code: Some(0) }),
        &mut signals,
    )
    .expect("descendant-held pipes produce a typed outcome");

    assert_eq!(outcome.state, ProcessState::Incomplete(IncompleteReason::Timeout));
    assert!(outcome.duration.as_millis() <= 80);
    assert_eq!(outcome.stdout.bytes, b"4242\n");
    assert_eq!(signals, 1);
}

#[test]
fn a_queued_run_that_cannot_be_ended_fails() {
    let mut run = QueuedRun::new(short(64, 64));
    run.advance(QueuedEvent::Empty, Duration::from_millis(40));
    assert_eq!(run.step, QueuedStep::Signal);
    run.advance(QueuedEvent::SignalFailed(denied()), Duration::from_millis(41));
    run.advance(QueuedEvent::Exited(None), Duration::from_millis(42));
    run.advance(QueuedEvent::Killed, Duration::from_millis(43));
    run.advance(QueuedEvent::Exited(None), Duration::from_millis(44));
    assert_eq!(run.step, QueuedStep::Failed);
    assert!(matches!(run.finish(Duration::zero()), Err(ProcessError::Unreaped)));
}

#[test]
fn rejects_a_missing_current_directory_before_spawn() {
    let missing = b"/tmp/diagnostic-triage-missing-cwd";
    assert!(matches!(
        ProcessSpec::new(b"unused-program").current_dir(missing).validate(false),
        Err(ProcessError::InvalidCurrentDirectory { path }) if path == missing
    ));
}

#[test]
fn a_watched_run_stops_at_its_limits() {
    let timeout = Duration::from_millis(50);
    let now = Duration::from_millis(10);
    assert_eq!(
        watch_step(true, false, now, timeout),
        WatchStep::Stop(IncompleteReason::StdoutLimitExceeded)
    );
    assert_eq!(
        watch_step(false, true, now, timeout),
        WatchStep::Stop(IncompleteReason::StderrLimitExceeded)
    );
    assert_eq!(
        watch_step(false, false, timeout, timeout),
        WatchStep::Stop(IncompleteReason::Timeout)
    );
    assert_eq!(
        watch_step(false, false, now, timeout),
        WatchStep::Probe(Duration::from_millis(5))
    );
}

#[test]
fn a_watched_reader_keeps_the_beginning() {
    let mut reader = StreamReader::new(4);
    assert_eq!(reader.advance(ReaderEvent::Interrupted), ReaderStep::Read);
    assert_eq!(reader.advance(ReaderEvent::Data(b"abc".to_vec())), ReaderStep::Read);
    assert!(!reader.overflow);
    reader.advance(ReaderEvent::Data(b"def".to_vec()));
    assert!(reader.overflow);
    assert_eq!(reader.advance(ReaderEvent::Closed), ReaderStep::Done);
    let output = reader.finish().unwrap();
    assert_eq!(output.bytes, b"abcd");
    assert!(output.truncated);

    let mut reader = StreamReader::new(4);
    assert_eq!(reader.advance(ReaderEvent::Failed(other("broken"))), ReaderStep::Done);
    assert_eq!(reader.finish().unwrap_err().message, "broken");
}

fn read_whole(bytes: &[u8]) -> Joined {
    let mut reader = StreamReader::new(64);
    reader.advance(ReaderEvent::Data(bytes.to_vec()));
    reader.advance(ReaderEvent::Closed);
    Joined::Output(reader.finish().unwrap())
}

#[test]
fn a_watched_run_reports_all_its_failures() {
    let exit = Some(ExitInfo { code: Some(3) });
    let outcome = finish_execution(
        None,
        Ok(()),
        exit,
        true,
        read_whole(b"out"),
        read_whole(b"err"),
        None,
        Duration::from_millis(9),
        ProcessLimits::default(),
    )
    .unwrap();
    assert_eq!(outcome.state, ProcessState::Complete);
    assert_eq!(outcome.exit_code, Some(3));
    assert_eq!(outcome.stdout.bytes, b"out");
    assert_eq!(outcome.stderr.bytes, b"err");
    assert_eq!(outcome.duration, Duration::from_millis(9));

    let error = finish_execution(
        Some(other("wait")),
        Err(ProcessError::GroupUnreaped),
        exit,
        false,
        Joined::Failed(other("read")),
        Joined::Panicked,
        None,
        Duration::from_millis(9),
        ProcessLimits::default(),
    )
    .unwrap_err();
    let ProcessError::MultipleFailures { failures } = error else {
        panic!("all failures are kept");
    };
    assert_eq!(failures.len(), 5);

    let error = cleanup_setup_failure(ProcessError::MissingPipe { stream: "stdout" }, Err(ProcessError::Unreaped));
    assert!(matches!(error, ProcessError::MultipleFailures { failures } if failures.len() == 2));
}

#[test]
fn direct_argv_preserves_nonzero_exit_as_complete() {
    let outcome = finish_execution(
        None,
        Ok(()),
        Some(ExitInfo { code: Some(1) }),
        true,
        read_whole(b""),
        read_whole(b""),
        None,
        Duration::from_millis(1),
        ProcessLimits::default(),
    )
    .unwrap();

    assert_eq!(outcome.state, ProcessState::Complete);
    assert_eq!(outcome.exit_code, Some(1));
}

#[test]
fn timeout_is_bounded_and_incomplete() {
    let timeout = Duration::from_millis(30);
    let WatchStep::Stop(reason) = watch_step(false, false, Duration::from_millis(31), timeout) else {
        panic!("the deadline is over");
    };
    let outcome = finish_execution(
        None,
        Ok(()),
        Some(ExitInfo { code: None }),
        true,
        read_whole(b""),
        read_whole(b""),
        Some(reason),
        Duration::from_millis(31),
        ProcessLimits { timeout, ..ProcessLimits::default() },
    )
    .unwrap();

    assert_eq!(outcome.state, ProcessState::Incomplete(IncompleteReason::Timeout));
    assert_eq!(outcome.exit_code, None);
    assert!(outcome.duration.as_millis() <= 30);
    assert_eq!(outcome.duration, timeout);
}

#[test]
fn signal_termination_has_no_invented_exit_code() {
    let outcome = finish_execution(
        None,
        Ok(()),
        Some(ExitInfo { code: None }),
        true,
        read_whole(b""),
        read_whole(b""),
        None,
        Duration::from_millis(1),
        ProcessLimits::default(),
    )
    .unwrap();

    assert_eq!(
        outcome.state,
        ProcessState::Incomplete(IncompleteReason::TerminatedWithoutCode)
    );
    assert_eq!(outcome.exit_code, None);
}

#[test]
fn group_signal_failure_is_typed_after_reap_and_reader_join() {
    let mut child = Child {
        signal_error: Some(other("injected group-signal failure")),
        ..Child::says(b"", b"", 0)
    };
    let (exit, ended) = child.terminate();
    let error = finish_execution(
        None,
        ended,
        exit,
        true,
        read_whole(b""),
        read_whole(b""),
        None,
        Duration::from_millis(1),
        ProcessLimits::default(),
    )
    .expect_err("injected group-signal failures must propagate");

    assert!(contains_group_signal(&error), "error: {error:?}");
}

#[test]
fn escaped_session_pipe_holder_is_cancelled_and_readers_join_before_return() {
    let result = finish_execution(
        None,
        Ok(()),
        Some(ExitInfo { code: Some(0) }),
        false,
        read_whole(b""),
        read_whole(b""),
        None,
        Duration::from_millis(1),
        ProcessLimits::default(),
    );
    assert!(
        matches!(result, Err(ProcessError::CaptureDrainTimeout)),
        "result: {result:?}"
    );
}

#[test]
fn failures_are_told_in_words() {
    let said = |error: ProcessError, who: Teller| error.message(who, "SHOWN");
    let spawn = || ProcessError::Spawn {
        program: b"tool".to_vec(),
        source: other("no such file"),
    };
    assert_eq!(said(spawn(), Teller::Runtime), "failed to spawn SHOWN: no such file");
    assert_eq!(said(spawn(), Teller::Ruff), "failed to spawn SHOWN: no such file");
    assert_eq!(said(spawn(), Teller::Cargo), "failed to spawn Cargo: no such file");
    let group = || ProcessError::GroupSignal(other("denied"));
    assert_eq!(said(group(), Teller::Runtime), "failed to signal the child process group: denied");
    assert_eq!(said(group(), Teller::Ruff), "failed to terminate the child process group: denied");
    assert_eq!(said(group(), Teller::Cargo), "failed to signal the Cargo process group: denied");
    for (error, words) in [
        (
            ProcessError::UnsupportedPlatform,
            "bounded process-group execution is unsupported on this platform",
        ),
        (
            ProcessError::InvalidSpec("program must not be empty"),
            "invalid process specification: program must not be empty",
        ),
        (
            ProcessError::InvalidCurrentDirectory { path: b"/gone".to_vec() },
            "current directory is not a directory: SHOWN",
        ),
        (
            ProcessError::MissingPipe { stream: "stdout" },
            "spawned child did not expose its stdout pipe",
        ),
        (
            ProcessError::PipeConfiguration {
                stream: "stderr",
                source: other("bad"),
            },
            "failed to configure the stderr pipe as nonblocking: bad",
        ),
        (ProcessError::Unreaped, "child could not be reaped after termination"),
        (
            ProcessError::MultipleFailures { failures: Vec::new() },
            "multiple process failures: SHOWN",
        ),
    ] {
        assert_eq!(said(error, Teller::Runtime), words);
    }
    assert_eq!(
        said(ProcessError::BudgetExhausted, Teller::Cargo),
        "Cargo request budget was exhausted before the next process step"
    );
    assert_eq!(
        said(ProcessError::CapturePanic("stdout"), Teller::Cargo),
        "Cargo stdout capture thread panicked"
    );
}

#[test]
fn a_missing_program_is_told_apart() {
    let missing = ProcessError::Spawn {
        program: b"cargo".to_vec(),
        source: IoFailure {
            kind: IoKind::NotFound,
            message: "no such file".to_owned(),
        },
    };
    let fault = LaunchFault::of(&missing, "cargo");
    assert!(fault.not_found);
    assert_eq!(fault.message, "failed to spawn Cargo: no such file");
    assert!(!LaunchFault::of(&ProcessError::Wait(denied()), "").not_found);
}

#[test]
fn readers_have_a_grace_period() {
    assert_eq!(join_step(true, Duration::from_millis(900)), JoinStep::Through);
    assert_eq!(
        join_step(false, Duration::from_millis(249)),
        JoinStep::Wait(Duration::from_millis(5))
    );
    assert_eq!(join_step(false, Duration::from_millis(250)), JoinStep::Cancel);
}
