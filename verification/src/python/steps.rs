//! The steps of a session: find the workspace, probe Ruff's version, run the check.
use super::builder::{builder_of, completes, reports_event_fault, Builder, CompletionBuilder};
use super::error::{error_text, ProviderError};
use super::request::{judges_request, request_fault, validate_request, FIX_CAPABILITY};
use super::ruff::{normalize_ruff_json, normalizes, run_of, NormalizedRuff, RuffDiagnostic, RuffRun};
use super::session::{
    after_streams, keeps_streams, parse_ruff_version, remaining, remaining_process_limits, retain_process_evidence,
    stdout_ids, streams_fault, version_in, Run,
};
use crate::model::ExecutionStatus;
use crate::numeral::{decimal, push_decimal};
use crate::path::{is_within, within};
use crate::process::capture::{IncompleteReason, ProcessOutcome, ProcessState};
use crate::process::error::ProcessError;
use crate::process::invocation::texts;
use crate::process::limits::{request_limits, request_rejection, ProcessLimits};
use crate::protocol::{copy_texts, negotiates, CompletionEnvelope, ProtocolEvent, RequestEnvelope};
use crate::text::{push_text, string_of};
use crate::time::{counted_ms, elapsed_ms, Duration};
use vstd::prelude::*;

verus! {

/// A session that came to an end.
#[derive(Clone, Debug, PartialEq, Eq)]
pub struct ProviderSession {
    pub events: Vec<ProtocolEvent>,
    pub completion: CompletionEnvelope,
}

/// How Ruff is to be run, and where.
#[derive(Clone, Debug, PartialEq, Eq)]
pub struct Launch {
    pub argv: Vec<String>,
    /// The directory that Ruff is run in.
    pub directory: String,
    pub limits: ProcessLimits,
}

/// What a step of a session comes to.
#[derive(Debug)]
pub enum Step<T> {
    /// The session goes on with a process.
    Next(T, Launch),
    /// The session is over.
    Over(Result<ProviderSession, ProviderError>),
}

/// The canonical paths of the repository, which Ruff is run in, and of the workspace, which the
/// targets have to stand in.
#[derive(Clone, Debug, PartialEq, Eq)]
pub struct Roots {
    pub root: String,
    pub workspace: String,
}

/// Why a target is refused.
pub enum TargetFault {
    Escape(Seq<char>),
    Unresolved(Seq<char>),
}

impl TargetFault {
    /// What the fault is said to be.
    pub open spec fn text(self) -> Seq<char> {
        match self {
            TargetFault::Escape(target) => "Ruff path escapes the repository: "@ + target,
            TargetFault::Unresolved(text) => "workspace is not a repository directory: "@ + text,
        }
    }
}

/// Why the targets from the `k`-th on are refused: the nearest file or directory on the way up from
/// a target that exists has to stand in the workspace. `found` holds the canonical path of each, or
/// why it could not be resolved.
pub open spec fn targets_fault(
    targets: Seq<String>,
    found: Seq<Result<String, String>>,
    workspace: Seq<char>,
    k: nat,
) -> Option<TargetFault>
    decreases targets.len() - k,
{
    if k >= targets.len() {
        None
    } else {
        match found[k as int] {
            Err(text) => Some(TargetFault::Unresolved(text@)),
            Ok(path) => if within(path@, workspace) {
                targets_fault(targets, found, workspace, k + 1)
            } else {
                Some(TargetFault::Escape(targets[k as int]@))
            },
        }
    }
}

/// Checks that the targets stand in the workspace.
pub fn validate_targets(targets: &Vec<String>, found: &Vec<Result<String, String>>, workspace: &str) -> (r: Result<
    (),
    ProviderError,
>)
    requires
        found.len() == targets.len(),
    ensures
        match targets_fault(targets@, found@, workspace@, 0) {
            Some(fault) => r matches Err(error) && error_text(error) == fault.text() && (error is PathEscape
                <==> fault is Escape),
            None => r is Ok,
        },
{
    let mut i: usize = 0;
    while i < targets.len()
        invariant
            i <= targets.len(),
            found.len() == targets.len(),
            targets_fault(targets@, found@, workspace@, 0) == targets_fault(targets@, found@, workspace@, i as nat),
        decreases targets.len() - i,
    {
        match &found[i] {
            Err(text) => {
                return Err(ProviderError::Workspace(text.clone()));
            },
            Ok(path) => {
                if !is_within(path.as_str(), workspace) {
                    return Err(ProviderError::PathEscape(targets[i].clone()));
                }
            },
        }
        i = i + 1;
    }
    Ok(())
}

/// A session whose request was taken.
#[derive(Debug)]
pub struct Accepted {
    pub request: RequestEnvelope,
}

/// A session whose workspace was found; Ruff's version is being probed.
#[derive(Debug)]
pub struct Probing {
    pub request: RequestEnvelope,
    pub roots: Roots,
}

/// A session whose version of Ruff is known; the check is running.
#[derive(Debug)]
pub struct Checking {
    pub request: RequestEnvelope,
    pub roots: Roots,
    pub tool_version: String,
}

/// The session ends without having completed, for this reason.
pub open spec fn ends_incomplete(
    r: Result<ProviderSession, ProviderError>,
    builder: Builder,
    events: Seq<ProtocolEvent>,
    elapsed: Duration,
    message: Seq<char>,
    violation: Option<String>,
) -> bool {
    let duration_ms = counted_ms(elapsed, builder.timeout_ms);
    match r {
        Ok(session) => {
            &&& session.events@ == events
            &&& completes(
                Ok(session.completion),
                builder,
                ExecutionStatus::Incomplete,
                None,
                duration_ms,
                Some(message),
                violation,
            )
        },
        Err(error) => completes(
            Err(error),
            builder,
            ExecutionStatus::Incomplete,
            None,
            duration_ms,
            Some(message),
            violation,
        ),
    }
}

fn finish_incomplete(
    builder: CompletionBuilder,
    events: Vec<ProtocolEvent>,
    elapsed: Duration,
    message: String,
    violation: Option<String>,
) -> (r: Result<ProviderSession, ProviderError>)
    ensures
        ends_incomplete(r, builder@, events@, elapsed, message@, violation),
{
    let duration_ms: u64 = elapsed_ms(elapsed, builder.timeout_ms);
    match builder.incomplete(duration_ms, message, violation) {
        Ok(completion) => Ok(ProviderSession { events, completion }),
        Err(error) => Err(error),
    }
}

/// The word for a reason.
pub open spec fn reason_word(reason: IncompleteReason) -> Seq<char> {
    match reason {
        IncompleteReason::HandshakeTimeout => "HandshakeTimeout"@,
        IncompleteReason::HandshakeRejected => "HandshakeRejected"@,
        IncompleteReason::ManifestMissing => "ManifestMissing"@,
        IncompleteReason::ProtocolViolation => "ProtocolViolation"@,
        IncompleteReason::RequestOrderViolation => "RequestOrderViolation"@,
        IncompleteReason::Timeout => "Timeout"@,
        IncompleteReason::StdoutLimitExceeded => "StdoutLimitExceeded"@,
        IncompleteReason::StderrLimitExceeded => "StderrLimitExceeded"@,
        IncompleteReason::StdinFailure => "StdinFailure"@,
        IncompleteReason::StdoutFailure => "StdoutFailure"@,
        IncompleteReason::StderrFailure => "StderrFailure"@,
        IncompleteReason::UnrepresentableExitCode => "UnrepresentableExitCode"@,
        IncompleteReason::TerminatedWithoutCode => "TerminatedWithoutCode"@,
    }
}

fn word_of(reason: IncompleteReason) -> (r: &'static str)
    ensures
        r@ == reason_word(reason),
{
    match reason {
        IncompleteReason::HandshakeTimeout => "HandshakeTimeout",
        IncompleteReason::HandshakeRejected => "HandshakeRejected",
        IncompleteReason::ManifestMissing => "ManifestMissing",
        IncompleteReason::ProtocolViolation => "ProtocolViolation",
        IncompleteReason::RequestOrderViolation => "RequestOrderViolation",
        IncompleteReason::Timeout => "Timeout",
        IncompleteReason::StdoutLimitExceeded => "StdoutLimitExceeded",
        IncompleteReason::StderrLimitExceeded => "StderrLimitExceeded",
        IncompleteReason::StdinFailure => "StdinFailure",
        IncompleteReason::StdoutFailure => "StdoutFailure",
        IncompleteReason::StderrFailure => "StderrFailure",
        IncompleteReason::UnrepresentableExitCode => "UnrepresentableExitCode",
        IncompleteReason::TerminatedWithoutCode => "TerminatedWithoutCode",
    }
}

/// The words for how a process ended.
pub open spec fn state_words(state: ProcessState) -> Seq<char> {
    match state {
        ProcessState::Complete => "Complete"@,
        ProcessState::Incomplete(reason) => "Incomplete("@ + reason_word(reason) + ")"@,
    }
}

/// The words for an exit code.
pub open spec fn exit_words(exit_code: Option<u8>) -> Seq<char> {
    match exit_code {
        None => "None"@,
        Some(code) => "Some("@ + decimal(code as nat) + ")"@,
    }
}

fn push_state(out: &mut Vec<char>, state: ProcessState)
    ensures
        final(out)@ == old(out)@ + state_words(state),
{
    match state {
        ProcessState::Complete => push_text(out, "Complete"),
        ProcessState::Incomplete(reason) => {
            push_text(out, "Incomplete(");
            push_text(out, word_of(reason));
            push_text(out, ")");
        },
    }
    assert(out@ =~= old(out)@ + state_words(state));
}

fn push_exit(out: &mut Vec<char>, exit_code: Option<u8>)
    ensures
        final(out)@ == old(out)@ + exit_words(exit_code),
{
    match exit_code {
        None => push_text(out, "None"),
        Some(code) => {
            push_text(out, "Some(");
            push_decimal(out, code as u64);
            push_text(out, ")");
        },
    }
    assert(out@ =~= old(out)@ + exit_words(exit_code));
}

/// What a process failure says.
pub open spec fn process_failure(text: Seq<char>) -> Seq<char> {
    "Ruff process failed: "@ + text
}

fn process_message(text: String) -> (r: String)
    ensures
        r@ == process_failure(text@),
{
    ProviderError::Process(text).message()
}

fn state_message(prefix: &str, state: ProcessState) -> (r: String)
    ensures
        r@ == process_failure(prefix@ + state_words(state)),
{
    let mut out: Vec<char> = Vec::new();
    push_text(&mut out, prefix);
    push_state(&mut out, state);
    assert(out@ =~= prefix@ + state_words(state));
    process_message(string_of(out.as_slice()))
}

fn exit_message(prefix: &str, exit_code: Option<u8>) -> (r: String)
    ensures
        r@ == process_failure(prefix@ + exit_words(exit_code)),
{
    let mut out: Vec<char> = Vec::new();
    push_text(&mut out, prefix);
    push_exit(&mut out, exit_code);
    assert(out@ =~= prefix@ + exit_words(exit_code));
    process_message(string_of(out.as_slice()))
}

impl Accepted {
    /// Takes a request, if the provider can do what it asks.
    pub fn new(request: RequestEnvelope, violation: Option<String>) -> (r: Result<Accepted, ProviderError>)
        ensures
            match r {
                Ok(session) => session.request == request && request_fault(request, violation) is None,
                Err(error) => judges_request(Err(error), request, violation) && request_fault(request, violation)
                    is Some,
            },
    {
        match validate_request(&request, violation) {
            Ok(()) => Ok(Accepted { request }),
            Err(error) => Err(error),
        }
    }

    /// The workspace was found, or it was not. `found` holds what was found of each target, and
    /// `violation` is what the protocol contract finds wrong with the session's last word, where this
    /// step writes it.
    pub fn workspace(
        self,
        resolved: Result<Roots, ProviderError>,
        found: &Vec<Result<String, String>>,
        elapsed: Duration,
        violation: Option<String>,
    ) -> (r: Step<Probing>)
        requires
            resolved is Ok ==> found.len() == self.request.targets.len(),
        ensures
            ({
                let b = builder_of(self.request);
                match resolved {
                    Err(error) => r matches Step::Over(end) && ends_incomplete(
                        end,
                        b,
                        Seq::empty(),
                        elapsed,
                        error_text(error),
                        violation,
                    ),
                    Ok(roots) => match targets_fault(self.request.targets@, found@, roots.workspace@, 0) {
                        Some(fault) => r matches Step::Over(end) && ends_incomplete(
                            end,
                            b,
                            Seq::empty(),
                            elapsed,
                            fault.text(),
                            violation,
                        ),
                        None => match request_rejection(self.request.limits) {
                            Some(why) => r matches Step::Over(end) && ends_incomplete(
                                end,
                                b,
                                Seq::empty(),
                                elapsed,
                                process_failure("invalid process limits: "@ + why@),
                                violation,
                            ),
                            None => r matches Step::Next(next, launch) && next.request == self.request && next.roots
                                == roots && texts(launch.argv@) == seq!["--version"@] && launch.directory@ == roots.root@
                                && launch.limits == request_limits(self.request.limits),
                        },
                    },
                }
            }),
    {
        let builder: CompletionBuilder = CompletionBuilder::new(&self.request);
        match resolved {
            Err(error) => {
                let message: String = error.message();
                Step::Over(finish_incomplete(builder, Vec::new(), elapsed, message, violation))
            },
            Ok(roots) => {
                if let Err(error) = validate_targets(&self.request.targets, found, roots.workspace.as_str()) {
                    let message: String = error.message();
                    return Step::Over(finish_incomplete(builder, Vec::new(), elapsed, message, violation));
                }
                match ProcessLimits::from_request(&self.request.limits) {
                    Err(error) => {
                        let mut out: Vec<char> = Vec::new();
                        push_text(&mut out, "invalid process limits: ");
                        if let ProcessError::InvalidLimits(why) = error {
                            push_text(&mut out, why);
                            assert(out@ =~= "invalid process limits: "@ + why@);
                        }
                        let message: String = process_message(string_of(out.as_slice()));
                        Step::Over(finish_incomplete(builder, Vec::new(), elapsed, message, violation))
                    },
                    Ok(limits) => {
                        let mut argv: Vec<String> = Vec::new();
                        argv.push("--version".to_owned());
                        assert(texts(argv@) =~= seq!["--version"@]);
                        let directory: String = roots.root.clone();
                        Step::Next(Probing { request: self.request, roots }, Launch { argv, directory, limits })
                    },
                }
            },
        }
    }
}

/// Why a probe does not lead to a check: the message of the session.
pub open spec fn probe_failure(request: RequestEnvelope, outcome: ProcessOutcome, elapsed: Duration) -> Option<
    Seq<char>,
> {
    if outcome.state != ProcessState::Complete || outcome.exit_code != Some(0u8) {
        Some(process_failure("Ruff version probe was not complete: "@ + state_words(outcome.state)))
    } else {
        match version_in(outcome.stdout.bytes@) {
            Err(text) => Some(process_failure(text)),
            Ok(_) => match remaining(
                request.limits,
                outcome.stdout.observed_bytes,
                outcome.stderr.observed_bytes,
                elapsed,
            ) {
                None => Some(process_failure("Ruff version probe exhausted the timeout"@)),
                Some(left) => match left.rejection() {
                    Some(why) => Some(process_failure("invalid process limits: "@ + why@)),
                    None => None,
                },
            },
        }
    }
}

/// The session ends with what a process left as evidence, for a reason that `says` tells.
pub open spec fn ends_with_evidence(
    r: Result<ProviderSession, ProviderError>,
    builder: Builder,
    run: Run,
    media_type: Seq<char>,
    elapsed: Duration,
    message: Seq<char>,
    violation: Option<String>,
) -> bool {
    match streams_fault(builder, run) {
        Some(fault) => r matches Err(error) && reports_event_fault(error, fault),
        None => exists|events: Seq<ProtocolEvent>| #[trigger]
            keeps_streams(events, Seq::empty(), builder, run, media_type) && ends_incomplete(
                r,
                after_streams(builder, run),
                events,
                elapsed,
                message,
                violation,
            ),
    }
}

/// The arguments of the check.
pub open spec fn check_argv(targets: Seq<Seq<char>>) -> Seq<Seq<char>> {
    seq!["check"@, "--output-format"@, "json"@, "--"@] + targets
}

fn check_arguments(targets: &Vec<String>) -> (r: Vec<String>)
    ensures
        texts(r@) == check_argv(texts(targets@)),
{
    let mut argv: Vec<String> = Vec::new();
    argv.push("check".to_owned());
    argv.push("--output-format".to_owned());
    argv.push("json".to_owned());
    argv.push("--".to_owned());
    let mut more: Vec<String> = copy_texts(targets);
    argv.append(&mut more);
    assert(texts(argv@) =~= check_argv(texts(targets@)));
    argv
}

fn fail_with_evidence(
    request: &RequestEnvelope,
    run: &Run,
    elapsed: Duration,
    message: String,
    violation: Option<String>,
) -> (r: Result<ProviderSession, ProviderError>)
    ensures
        ends_with_evidence(r, builder_of(*request), *run, "text/plain"@, elapsed, message@, violation),
{
    let mut builder: CompletionBuilder = CompletionBuilder::new(request);
    let mut events: Vec<ProtocolEvent> = Vec::new();
    let ghost start = builder@;
    let ghost none = events@;
    match retain_process_evidence(&mut builder, &mut events, run, "text/plain") {
        Err(error) => Err(error),
        Ok(_) => {
            assert(none =~= Seq::empty());
            assert(keeps_streams(events@, Seq::empty(), start, *run, "text/plain"@));
            finish_incomplete(builder, events, elapsed, message, violation)
        },
    }
}

impl Probing {
    /// The version probe ended, or it could not be run. `violation` is what the protocol contract
    /// finds wrong with the session's last word, where this step writes it.
    pub fn probed(self, probe: Result<Run, String>, elapsed: Duration, violation: Option<String>) -> (r: Step<Checking>)
        ensures
            ({
                let b = builder_of(self.request);
                match probe {
                    Err(text) => r matches Step::Over(end) && ends_incomplete(
                        end,
                        b,
                        Seq::empty(),
                        elapsed,
                        process_failure(text@),
                        violation,
                    ),
                    Ok(run) => match probe_failure(self.request, run.outcome, elapsed) {
                        Some(message) => r matches Step::Over(end) && ends_with_evidence(
                            end,
                            b,
                            run,
                            "text/plain"@,
                            elapsed,
                            message,
                            violation,
                        ),
                        None => r matches Step::Next(next, launch) && {
                            &&& next.request == self.request
                            &&& next.roots == self.roots
                            &&& version_in(run.outcome.stdout.bytes@) == Ok::<Seq<char>, Seq<char>>(
                                next.tool_version@,
                            )
                            &&& texts(launch.argv@) == check_argv(texts(self.request.targets@))
                            &&& launch.directory@ == self.roots.root@
                            &&& remaining(
                                self.request.limits,
                                run.outcome.stdout.observed_bytes,
                                run.outcome.stderr.observed_bytes,
                                elapsed,
                            ) == Some(launch.limits)
                        },
                    },
                }
            }),
    {
        let run: Run = match probe {
            Err(text) => {
                let builder: CompletionBuilder = CompletionBuilder::new(&self.request);
                let message: String = process_message(text);
                return Step::Over(finish_incomplete(builder, Vec::new(), elapsed, message, violation));
            },
            Ok(run) => run,
        };
        let ghost failure = probe_failure(self.request, run.outcome, elapsed);
        let succeeded: bool = match run.outcome.exit_code {
            Some(code) => code == 0,
            None => false,
        };
        if run.outcome.state != ProcessState::Complete || !succeeded {
            let message: String = state_message("Ruff version probe was not complete: ", run.outcome.state);
            assert(failure == Some(message@));
            return Step::Over(fail_with_evidence(&self.request, &run, elapsed, message, violation));
        }
        let tool_version: String = match parse_ruff_version(run.outcome.stdout.bytes.as_slice()) {
            Err(error) => {
                let message: String = error.message();
                assert(failure == Some(message@));
                return Step::Over(fail_with_evidence(&self.request, &run, elapsed, message, violation));
            },
            Ok(version) => version,
        };
        match remaining_process_limits(
            &self.request.limits,
            run.outcome.stdout.observed_bytes,
            run.outcome.stderr.observed_bytes,
            elapsed,
        ) {
            Err(error) => {
                let message: String = error.message();
                assert(failure == Some(message@));
                Step::Over(fail_with_evidence(&self.request, &run, elapsed, message, violation))
            },
            Ok(None) => {
                let message: String = process_message("Ruff version probe exhausted the timeout".to_owned());
                assert(failure == Some(message@));
                Step::Over(fail_with_evidence(&self.request, &run, elapsed, message, violation))
            },
            Ok(Some(limits)) => {
                let argv: Vec<String> = check_arguments(&self.request.targets);
                let directory: String = self.roots.root.clone();
                Step::Next(
                    Checking { request: self.request, roots: self.roots, tool_version },
                    Launch { argv, directory, limits },
                )
            },
        }
    }
}

/// What the diagnostics of a check share.
pub open spec fn check_run(checking: Checking, run: Run, violations: Vec<Option<String>>) -> RuffRun {
    RuffRun {
        tool_version: checking.tool_version@,
        root: checking.roots.root@,
        evidence_ids: stdout_ids(builder_of(checking.request), run),
        emit_fixes: negotiates(checking.request, FIX_CAPABILITY@),
        violations: violations@,
    }
}

/// The session completes with what the check found.
pub open spec fn ends_complete(
    r: Result<ProviderSession, ProviderError>,
    builder: Builder,
    events: Seq<ProtocolEvent>,
    exit_code: u8,
    elapsed: Duration,
    violation: Option<String>,
) -> bool {
    let duration_ms = counted_ms(elapsed, builder.timeout_ms);
    match r {
        Ok(session) => {
            &&& session.events@ == events
            &&& completes(
                Ok(session.completion),
                builder,
                ExecutionStatus::Complete,
                Some(exit_code),
                duration_ms,
                None,
                violation,
            )
        },
        Err(error) => completes(
            Err(error),
            builder,
            ExecutionStatus::Complete,
            Some(exit_code),
            duration_ms,
            None,
            violation,
        ),
    }
}

/// What a check whose output was normalized comes to.
pub open spec fn ends_check(
    r: Result<ProviderSession, ProviderError>,
    kept: Seq<ProtocolEvent>,
    normalized: Result<NormalizedRuff, ProviderError>,
    builder: Builder,
    exit_code: u8,
    elapsed: Duration,
    violation: Option<String>,
) -> bool {
    match normalized {
        Err(error) => ends_incomplete(r, builder, kept, elapsed, error_text(error), violation),
        Ok(found) => ends_complete(r, builder, kept + found.events@, exit_code, elapsed, violation),
    }
}

/// What a check comes to.
pub open spec fn ends_session(
    r: Result<ProviderSession, ProviderError>,
    checking: Checking,
    check: Result<Run, String>,
    found: Seq<Result<String, String>>,
    parsed: Result<Vec<RuffDiagnostic>, String>,
    violations: Vec<Option<String>>,
    elapsed: Duration,
    violation: Option<String>,
) -> bool {
    let request = checking.request;
    let b = builder_of(request);
    match check {
        Err(text) => ends_incomplete(r, b, Seq::empty(), elapsed, process_failure(text@), violation),
        Ok(run) => match streams_fault(b, run) {
            Some(fault) => r matches Err(error) && reports_event_fault(error, fault),
            None => {
                let b1 = after_streams(b, run);
                let outcome = run.outcome;
                if outcome.state != ProcessState::Complete {
                    ends_with_evidence(
                        r,
                        b,
                        run,
                        "application/json"@,
                        elapsed,
                        process_failure("Ruff check was not complete: "@ + state_words(outcome.state)),
                        violation,
                    )
                } else if outcome.exit_code != Some(0u8) && outcome.exit_code != Some(1u8) {
                    ends_with_evidence(
                        r,
                        b,
                        run,
                        "application/json"@,
                        elapsed,
                        process_failure("Ruff check failed with exit code "@ + exit_words(outcome.exit_code)),
                        violation,
                    )
                } else if let Some(fault) = targets_fault(request.targets@, found, checking.roots.workspace@, 0) {
                    ends_with_evidence(r, b, run, "application/json"@, elapsed, fault.text(), violation)
                } else {
                    exists|kept: Seq<ProtocolEvent>, normalized: Result<NormalizedRuff, ProviderError>, b2: Builder|
                        #[trigger] keeps_streams(kept, Seq::empty(), b, run, "application/json"@)
                            && #[trigger] normalizes(
                            normalized,
                            request,
                            outcome.stdout.bytes@.len(),
                            parsed,
                            check_run(checking, run, violations),
                            b1,
                            b2,
                        ) && ends_check(
                            r,
                            kept,
                            normalized,
                            b2,
                            outcome.exit_code.unwrap(),
                            elapsed,
                            violation,
                        )
                }
            },
        },
    }
}

impl Checking {
    /// The check ended, or it could not be run. `found` holds what was found of each target after it,
    /// `parsed` is what the JSON parser makes of its output, `violations` what the protocol contract
    /// finds wrong with each event that the diagnostics come to, and `violation` with the session's
    /// last word.
    pub fn checked(
        self,
        check: Result<Run, String>,
        found: &Vec<Result<String, String>>,
        parsed: Result<Vec<RuffDiagnostic>, String>,
        violations: &Vec<Option<String>>,
        elapsed: Duration,
        violation: Option<String>,
    ) -> (r: Result<ProviderSession, ProviderError>)
        requires
            check is Ok ==> found.len() == self.request.targets.len(),
        ensures
            ends_session(r, self, check, found@, parsed, *violations, elapsed, violation),
    {
        let mut builder: CompletionBuilder = CompletionBuilder::new(&self.request);
        let ghost b = builder@;
        let mut events: Vec<ProtocolEvent> = Vec::new();
        let ghost none = events@;
        assert(none =~= Seq::empty());
        let run: Run = match check {
            Err(text) => {
                let message: String = process_message(text);
                return finish_incomplete(builder, events, elapsed, message, violation);
            },
            Ok(run) => run,
        };
        let ids: Vec<String> = match retain_process_evidence(&mut builder, &mut events, &run, "application/json") {
            Err(error) => {
                return Err(error);
            },
            Ok(ids) => ids,
        };
        let ghost kept = events@;
        let ghost b1 = builder@;
        assert(keeps_streams(kept, Seq::empty(), b, run, "application/json"@));
        if run.outcome.state != ProcessState::Complete {
            let message: String = state_message("Ruff check was not complete: ", run.outcome.state);
            return finish_incomplete(builder, events, elapsed, message, violation);
        }
        let exit_code: u8 = match run.outcome.exit_code {
            Some(code) if code == 0 || code == 1 => code,
            other => {
                let message: String = exit_message("Ruff check failed with exit code ", other);
                return finish_incomplete(builder, events, elapsed, message, violation);
            },
        };
        if let Err(error) = validate_targets(&self.request.targets, found, self.roots.workspace.as_str()) {
            let message: String = error.message();
            return finish_incomplete(builder, events, elapsed, message, violation);
        }
        let normalized: Result<NormalizedRuff, ProviderError> = normalize_ruff_json(
            &self.request,
            self.tool_version.as_str(),
            self.roots.root.as_str(),
            run.outcome.stdout.bytes.as_slice(),
            parsed,
            &ids,
            violations,
            &mut builder,
        );
        let ghost b2 = builder@;
        proof {
            assert(check_run(self, run, *violations) == run_of(
                self.tool_version@,
                self.roots.root@,
                ids,
                negotiates(self.request, FIX_CAPABILITY@),
                *violations,
            ));
            assert(normalizes(
                normalized,
                self.request,
                run.outcome.stdout.bytes@.len(),
                parsed,
                check_run(self, run, *violations),
                b1,
                b2,
            ));
        }
        let ghost result = normalized;
        let r: Result<ProviderSession, ProviderError> = match normalized {
            Err(error) => {
                let message: String = error.message();
                finish_incomplete(builder, events, elapsed, message, violation)
            },
            Ok(found) => {
                let mut more: Vec<ProtocolEvent> = found.events;
                events.append(&mut more);
                let duration_ms: u64 = elapsed_ms(elapsed, builder.timeout_ms);
                match builder.complete(exit_code, duration_ms, violation) {
                    Ok(completion) => Ok(ProviderSession { events, completion }),
                    Err(error) => Err(error),
                }
            },
        };
        assert(ends_check(r, kept, result, b2, exit_code, elapsed, violation));
        r
    }
}

/// Where no target is refused, every one of them stands in the workspace.
pub proof fn law_taken_targets_stand_in_the_workspace(
    targets: Seq<String>,
    found: Seq<Result<String, String>>,
    workspace: Seq<char>,
    k: nat,
)
    requires
        found.len() == targets.len(),
        targets_fault(targets, found, workspace, k) is None,
    ensures
        forall|i: int| k <= i < targets.len() ==> ((#[trigger] found[i]) matches Ok(path) && within(path@, workspace)),
    decreases targets.len() - k,
{
    if k < targets.len() {
        law_taken_targets_stand_in_the_workspace(targets, found, workspace, k + 1);
    }
}

} // verus!
