//! One session of the provider: Cargo's version, what Cargo finds, Clippy's version, what Clippy
//! finds.
use super::cargo_json::{
    cargo_fault_text, cargo_report, law_reports_are_bounded, messages, parse_cargo_jsonl, CargoMessage, CargoReport,
    RustcDiagnostic,
};
use super::error::{Fault, ProviderError};
use super::ledger::{all_made, first_notes, is_made, note_of, notes_of, Ledger, Note, Notes, Run};
use super::observe::{append_observations, DiagnosticFacts, Phase};
use super::place::DiagnosticScope;
use super::response::{
    bounded, bounded_events, complete_or_event_limit, finish, incomplete, is_last_word, ProviderResponse,
    EVENT_LIMIT,
};
use super::scope::{argv_of, cargo_argv};
use super::words::{completed_probe, incomplete_message, incomplete_words, no_version_words, version_of};
use crate::execution::text_of;
use crate::identifier::suffix_number;
use crate::model::ExecutionStatus;
use crate::numeral::{as_length, capped_sum, saturated};
use crate::order::equal_texts;
use crate::process::capture::{least, ProcessOutcome, ProcessState};
use crate::process::error::{IoKind, ProcessError};
use crate::process::invocation::texts;
use crate::process::limits::{ProcessLimits, RequestLimits};
use crate::process::words::{failure_words, Teller};
use crate::protocol::{ProtocolEvent, RequestEnvelope};
use crate::time::Duration;
use vstd::prelude::*;
use vstd::utf8::valid_utf8;

verus! {

pub const CARGO_CHECK_TOOL: &'static str = "cargo-check";

pub const CLIPPY_TOOL: &'static str = "clippy";

pub const CARGO_MEDIA_TYPE: &'static str = "application/vnd.cargo.messages+json";

pub const BUDGET_EXHAUSTED: &'static str = "Cargo request budget was exhausted before the next process step";

pub const CARGO_NOT_FOUND: &'static str = "Cargo executable was not found";

/// How Cargo is to be run, and where.
#[derive(Clone, Debug, PartialEq, Eq)]
pub struct Launch {
    pub argv: Vec<String>,
    /// The directory that Cargo is run in.
    pub directory: String,
    pub limits: ProcessLimits,
}

/// Why a process did not run to its end.
#[derive(Clone, Debug, PartialEq, Eq)]
pub struct LaunchFault {
    /// There is no such program.
    pub not_found: bool,
    pub message: String,
}

impl LaunchFault {
    /// The fault of a run that failed. `shown` is how the failures of a combined one are listed.
    pub fn of(error: &ProcessError, shown: &str) -> (r: LaunchFault)
        ensures
            r.not_found <==> (error matches ProcessError::Spawn { source, .. } && source.kind == IoKind::NotFound),
            r.message@ == failure_words(*error, Teller::Cargo, shown@),
    {
        let not_found: bool = match error {
            ProcessError::Spawn { source, .. } => source.kind == IoKind::NotFound,
            _ => false,
        };
        LaunchFault { not_found, message: error.message(Teller::Cargo, shown) }
    }
}

/// What a step of a session comes to.
#[derive(Debug)]
pub enum Step<T> {
    /// The session goes on with a process.
    Next(T, Launch),
    /// The session is over.
    Over(ProviderResponse),
}

/// How much of the limits the processes of a session have used.
#[derive(Clone, Copy, Debug, PartialEq, Eq, Structural)]
pub struct ProcessUsage {
    pub stdout: u64,
    pub stderr: u64,
}

impl ProcessUsage {
    /// The usage after one more process.
    pub open spec fn plus(self, outcome: ProcessOutcome) -> ProcessUsage {
        ProcessUsage {
            stdout: capped_sum(self.stdout, outcome.stdout.observed_bytes as nat),
            stderr: capped_sum(self.stderr, outcome.stderr.observed_bytes as nat),
        }
    }

    /// Takes one more process into account.
    pub fn add(&mut self, outcome: &ProcessOutcome)
        ensures
            *final(self) == old(self).plus(*outcome),
    {
        self.stdout = self.stdout.saturating_add(outcome.stdout.observed_bytes);
        self.stderr = self.stderr.saturating_add(outcome.stderr.observed_bytes);
    }
}

/// What is left of a limit.
pub open spec fn left_of(limit: u64, used: u64) -> usize {
    as_length(
        if limit > used {
            (limit - used) as u64
        } else {
            0
        },
    ) as usize
}

/// What is left of the limits of a request; nothing, where less than a millisecond is.
pub open spec fn limits_left(limits: RequestLimits, elapsed: Duration, usage: ProcessUsage) -> Option<ProcessLimits> {
    let timeout: int = limits.timeout_ms * 1_000_000;
    if timeout - elapsed.nanos < 1_000_000 {
        None
    } else {
        Some(
            ProcessLimits {
                timeout: Duration { nanos: (timeout - elapsed.nanos) as u128 },
                max_stdout_bytes: left_of(limits.max_stdout_bytes, usage.stdout),
                max_stderr_bytes: left_of(limits.max_stderr_bytes, usage.stderr),
            },
        )
    }
}

/// What is left of the limits of a request.
pub fn remaining_limits(limits: &RequestLimits, elapsed: Duration, usage: ProcessUsage) -> (r: Option<ProcessLimits>)
    ensures
        r == limits_left(*limits, elapsed, usage),
{
    let timeout: Duration = Duration::from_millis(limits.timeout_ms);
    if elapsed.nanos > timeout.nanos || timeout.nanos - elapsed.nanos < 1_000_000 {
        return None;
    }
    Some(
        ProcessLimits {
            timeout: Duration { nanos: timeout.nanos - elapsed.nanos },
            max_stdout_bytes: saturated(limits.max_stdout_bytes.saturating_sub(usage.stdout)),
            max_stderr_bytes: saturated(limits.max_stderr_bytes.saturating_sub(usage.stderr)),
        },
    )
}

/// What is wrong with how Cargo ended.
pub open spec fn result_fault(diagnostics: Seq<RustcDiagnostic>, success: bool, exit_code: u8) -> Option<Fault> {
    if success != (exit_code == 0) {
        Some(Fault::Model("Cargo build-finished status disagrees with the process exit code"@))
    } else if !success && !exists|i: int|
        0 <= i < diagnostics.len() && is_failure((#[trigger] diagnostics[i]).level@) {
        Some(Fault::Model("Cargo failed without a structured error diagnostic"@))
    } else {
        None
    }
}

/// The level is one of a diagnostic that fails a build.
pub open spec fn is_failure(level: Seq<char>) -> bool {
    level == "error"@ || level == "ice"@
}

/// Checks that Cargo ended the way that its messages and its exit code say.
pub fn validate_phase_result(report: &CargoReport, exit_code: u8) -> (r: Result<(), ProviderError>)
    ensures
        match result_fault(report.diagnostics@, report.success, exit_code) {
            Some(fault) => r matches Err(error) && error@ == fault,
            None => r is Ok,
        },
{
    if report.success != (exit_code == 0) {
        return Err(ProviderError::model("Cargo build-finished status disagrees with the process exit code"));
    }
    if report.success {
        return Ok(());
    }
    let mut i: usize = 0;
    while i < report.diagnostics.len()
        invariant
            i <= report.diagnostics.len(),
            !report.success,
            report.success == (exit_code == 0),
            forall|k: int| 0 <= k < i ==> !is_failure((#[trigger] report.diagnostics@[k]).level@),
        decreases report.diagnostics.len() - i,
    {
        let level: &str = report.diagnostics[i].level.as_str();
        if equal_texts(level, "error") || equal_texts(level, "ice") {
            assert(is_failure(report.diagnostics@[i as int].level@));
            return Ok(());
        }
        i = i + 1;
    }
    Err(ProviderError::model("Cargo failed without a structured error diagnostic"))
}

/// A session that runs processes.
#[derive(Debug)]
pub struct Session {
    pub request: RequestEnvelope,
    pub scope: DiagnosticScope,
    pub usage: ProcessUsage,
    pub ledger: Ledger,
}

/// The most identifiers that the first run of Cargo uses, and one.
pub const MOST_IDS: u64 = 10_003;

impl Session {
    /// The ledger is that of the request, and identifiers are left for what is still to come.
    pub open spec fn wf(self) -> bool {
        &&& self.ledger.wf()
        &&& self.ledger@.request_id == self.request.request_id@
        &&& suffix_number(self.request.request_id@) is Some
        &&& self.ledger@.next <= MOST_IDS
    }

    /// The processes build in a directory of their own.
    pub open spec fn apart(self) -> bool {
        self.scope.verification_target is Some
    }

    /// The same session, with another ledger and usage.
    pub open spec fn continues(self, other: Session, notes: Notes, usage: ProcessUsage) -> bool {
        &&& self.request == other.request
        &&& self.scope == other.scope
        &&& self.usage == usage
        &&& self.ledger@ == notes
    }
}

/// The answer says this, and ends this way.
pub open spec fn ends(
    r: ProviderResponse,
    request: RequestEnvelope,
    notes: Seq<Note>,
    status: ExecutionStatus,
    exit_code: Option<u8>,
    duration: Duration,
    message: Option<Seq<char>>,
) -> bool {
    &&& all_made(r.events@, request.request_id@)
    &&& notes_of(r.events@) == notes
    &&& is_last_word(r.completion, request, r.events@, status, exit_code, duration, message)
}

/// As many of the notes as the request allows.
pub open spec fn allowed(notes: Notes, request: RequestEnvelope) -> Seq<Note> {
    notes.notes.take(least(notes.notes.len(), as_length(request.limits.max_events)) as int)
}

/// The answer says as much of this as it may, and that the session did not complete.
pub open spec fn stops(r: ProviderResponse, request: RequestEnvelope, notes: Notes, elapsed: Duration, message: Seq<char>) -> bool {
    ends(r, request, allowed(notes, request), ExecutionStatus::Incomplete, None, elapsed, Some(message))
}

/// The answer says this and that the session completed, if it may say so much.
pub open spec fn completes(r: ProviderResponse, request: RequestEnvelope, notes: Notes, exit_code: u8, elapsed: Duration) -> bool {
    if notes.notes.len() > request.limits.max_events {
        stops(r, request, notes, elapsed, EVENT_LIMIT@)
    } else {
        ends(r, request, notes.notes, ExecutionStatus::Complete, Some(exit_code), elapsed, None)
    }
}

proof fn lemma_bounded_events(events: Seq<ProtocolEvent>, request_id: Seq<char>, max_events: u64)
    requires
        all_made(events, request_id),
    ensures
        all_made(bounded(events, max_events), request_id),
        notes_of(bounded(events, max_events)) == notes_of(events).take(
            least(events.len(), as_length(max_events)) as int,
        ),
{
    let kept = bounded(events, max_events);
    assert forall|i: int| 0 <= i < kept.len() implies is_made(#[trigger] kept[i], request_id, i as nat) by {
        assert(is_made(events[i], request_id, i as nat));
    }
    assert forall|i: int| 0 <= i < kept.len() implies note_of(#[trigger] kept[i]) == note_of(events[i]) by {
        assert(is_made(events[i], request_id, i as nat));
    }
    assert(notes_of(kept) =~= notes_of(events).take(least(events.len(), as_length(max_events)) as int));
}

/// Why a probe found no version, in words.
pub open spec fn probe_words(outcome: ProcessOutcome, name: Seq<char>) -> Seq<char> {
    if outcome.state != ProcessState::Complete || outcome.exit_code != Some(0u8) {
        name + " version probe did not complete successfully"@
    } else {
        no_version_words(outcome.stdout.bytes@, name)
    }
}

/// The version that a probe found.
pub open spec fn found_version(outcome: ProcessOutcome, name: Seq<char>) -> Option<Seq<char>> {
    if outcome.state != ProcessState::Complete || outcome.exit_code != Some(0u8) {
        None
    } else {
        version_of(outcome.stdout.bytes@, name)
    }
}

/// What a run of Cargo comes to: what the session says after it, and with which success and exit code
/// it ended, or what keeps it from counting.
pub open spec fn phase_result(
    session: Session,
    tool: Seq<char>,
    version: Seq<char>,
    run: Run,
    decoded: Seq<CargoMessage>,
    facts: Seq<DiagnosticFacts>,
) -> (Notes, Result<(bool, u8), Fault>) {
    let limit = session.request.limits.max_evidence_bytes;
    let before = session.ledger@;
    let notes = before.with_streams(run, CARGO_MEDIA_TYPE@, limit, session.apart());
    if run.outcome.state != ProcessState::Complete {
        (notes, Err(Fault::Model(incomplete_words(run.outcome.state))))
    } else {
        match run.outcome.exit_code {
            None => (notes, Err(Fault::Model("Cargo completed without an exit code"@))),
            Some(exit_code) => match cargo_report(run.outcome.stdout.bytes@, messages(decoded)) {
                Err(fault) => (notes, Err(Fault::CargoJson(cargo_fault_text(fault)))),
                Ok((diagnostics, success)) => match result_fault(diagnostics, success, exit_code) {
                    Some(fault) => (notes, Err(fault)),
                    None => {
                        let phase = Phase {
                            tool,
                            version,
                            output_id: before.output_id(run, limit, session.apart()),
                            scope: session.scope,
                        };
                        let (after, fault) = notes.with_diagnostics(diagnostics, facts, 0, phase);
                        match fault {
                            Some(fault) => (after, Err(fault)),
                            None => (after, Ok((success, exit_code))),
                        }
                    },
                },
            },
        }
    }
}

/// There is one entry of facts for each diagnostic that Cargo reports.
pub open spec fn facts_fit(run: Run, decoded: Seq<CargoMessage>, facts: Seq<DiagnosticFacts>) -> bool {
    cargo_report(run.outcome.stdout.bytes@, messages(decoded)) matches Ok((diagnostics, _)) ==> facts.len() == diagnostics.len()
}

impl Session {
    /// Ends the session, which did not complete.
    fn stop(self, elapsed: Duration, message: String) -> (r: ProviderResponse)
        requires
            self.ledger.wf(),
            self.ledger@.request_id == self.request.request_id@,
        ensures
            stops(r, self.request, self.ledger@, elapsed, message@),
    {
        proof {
            lemma_bounded_events(self.ledger.events@, self.request.request_id@, self.request.limits.max_events);
        }
        let kept: Vec<ProtocolEvent> = bounded_events(&self.request, self.ledger.events);
        incomplete(&self.request, kept, elapsed, message)
    }

    /// Ends the session, whose last process completed.
    fn complete(self, exit_code: u8, elapsed: Duration) -> (r: ProviderResponse)
        requires
            self.ledger.wf(),
            self.ledger@.request_id == self.request.request_id@,
        ensures
            completes(r, self.request, self.ledger@, exit_code, elapsed),
    {
        proof {
            lemma_bounded_events(self.ledger.events@, self.request.request_id@, self.request.limits.max_events);
        }
        complete_or_event_limit(&self.request, self.ledger.events, exit_code, elapsed)
    }

    /// Takes in a run of Cargo.
    fn append_phase(
        &mut self,
        tool_name: &str,
        tool_version: &str,
        run: &Run,
        decoded: Vec<CargoMessage>,
        facts: &Vec<DiagnosticFacts>,
    ) -> (r: Result<(bool, u8), ProviderError>)
        requires
            old(self).ledger.wf(),
            old(self).ledger@.request_id == old(self).request.request_id@,
            suffix_number(old(self).request.request_id@) is Some,
            old(self).ledger@.next <= MOST_IDS,
            facts_fit(*run, decoded@, facts@),
        ensures
            final(self).request == old(self).request,
            final(self).scope == old(self).scope,
            final(self).usage == old(self).usage,
            final(self).ledger.wf(),
            final(self).ledger@.request_id == old(self).request.request_id@,
            final(self).ledger@.next <= old(self).ledger@.next + 10_002,
            ({
                let (notes, result) = phase_result(
                    *old(self),
                    tool_name@,
                    tool_version@,
                    *run,
                    decoded@,
                    facts@,
                );
                &&& final(self).ledger@ == notes
                &&& match result {
                    Ok(end) => r == Ok::<(bool, u8), ProviderError>(end),
                    Err(fault) => r matches Err(error) && error@ == fault,
                }
            }),
    {
        let limit: u64 = self.request.limits.max_evidence_bytes;
        let apart: bool = self.scope.verification_target.is_some();
        let output_id: Option<String> = self.ledger.append_process_evidence(run, CARGO_MEDIA_TYPE, limit, apart);
        if run.outcome.state != ProcessState::Complete {
            return Err(ProviderError::Model(incomplete_message(run.outcome.state)));
        }
        let exit_code: u8 = match run.outcome.exit_code {
            Some(code) => code,
            None => {
                return Err(ProviderError::model("Cargo completed without an exit code"));
            },
        };
        let report: CargoReport = match parse_cargo_jsonl(run.outcome.stdout.bytes.as_slice(), decoded) {
            Ok(report) => report,
            Err(error) => {
                return Err(ProviderError::CargoJson(error.message()));
            },
        };
        if let Err(error) = validate_phase_result(&report, exit_code) {
            return Err(error);
        }
        proof {
            law_reports_are_bounded(run.outcome.stdout.bytes@, 0, messages(decoded@), 0, Seq::empty(), None);
        }
        match append_observations(
            &mut self.ledger,
            &self.scope,
            tool_name,
            tool_version,
            &report.diagnostics,
            facts,
            &output_id,
        ) {
            Err(error) => Err(error),
            Ok(()) => Ok((report.success, exit_code)),
        }
    }
}

/// A session that probes Cargo's version.
#[derive(Debug)]
pub struct CargoProbe {
    pub session: Session,
}

/// A session in which Cargo checks.
#[derive(Debug)]
pub struct CargoCheck {
    pub session: Session,
    pub version: String,
}

/// A session that probes Clippy's version.
#[derive(Debug)]
pub struct ClippyProbe {
    pub session: Session,
}

/// A session in which Clippy checks.
#[derive(Debug)]
pub struct ClippyCheck {
    pub session: Session,
    pub version: String,
}

/// The next process is to be run with these arguments, in the workspace, and with what is left of
/// the limits.
pub open spec fn launches(launch: Launch, scope: DiagnosticScope, argv: Seq<Seq<char>>, limits: ProcessLimits) -> bool {
    texts(launch.argv@) == argv && launch.directory@ == scope.workspace_root@ && launch.limits == limits
}

/// Begins a session.
pub fn begin(request: RequestEnvelope, scope: DiagnosticScope, elapsed: Duration) -> (r: Step<CargoProbe>)
    requires
        suffix_number(request.request_id@) is Some,
    ensures
        ({
            let notes = first_notes(request.request_id@);
            let usage = ProcessUsage { stdout: 0, stderr: 0 };
            match limits_left(request.limits, elapsed, usage) {
                None => r matches Step::Over(end) && stops(end, request, notes, elapsed, BUDGET_EXHAUSTED@),
                Some(limits) => r matches Step::Next(next, launch) && {
                    &&& next.session.wf()
                    &&& next.session.request == request
                    &&& next.session.scope == scope
                    &&& next.session.usage == usage
                    &&& next.session.ledger@ == notes
                    &&& launches(launch, scope, seq!["--version"@], limits)
                },
            }
        }),
{
    let ledger: Ledger = Ledger::new(request.request_id.as_str());
    let usage = ProcessUsage { stdout: 0, stderr: 0 };
    let left: Option<ProcessLimits> = remaining_limits(&request.limits, elapsed, usage);
    let session = Session { request, scope, usage, ledger };
    match left {
        None => Step::Over(session.stop(elapsed, BUDGET_EXHAUSTED.to_owned())),
        Some(limits) => {
            let mut argv: Vec<String> = Vec::new();
            argv.push("--version".to_owned());
            assert(texts(argv@) =~= seq!["--version"@]);
            let directory: String = session.scope.workspace_root.clone();
            Step::Next(CargoProbe { session }, Launch { argv, directory, limits })
        },
    }
}

impl CargoProbe {
    /// The probe of Cargo's version ended, or it could not be run.
    pub fn probed(self, probe: Result<Run, LaunchFault>, elapsed: Duration) -> (r: Step<CargoCheck>)
        requires
            self.session.wf(),
        ensures
            ({
                let session = self.session;
                let request = session.request;
                let notes = session.ledger@;
                match probe {
                    Err(fault) => r matches Step::Over(end) && if fault.not_found {
                        ends(
                            end,
                            request,
                            Seq::empty(),
                            ExecutionStatus::Unsupported,
                            None,
                            Duration { nanos: 0 },
                            Some(CARGO_NOT_FOUND@),
                        )
                    } else {
                        ends(
                            end,
                            request,
                            Seq::empty(),
                            ExecutionStatus::Incomplete,
                            None,
                            elapsed,
                            Some(fault.message@),
                        )
                    },
                    Ok(run) => {
                        let usage = session.usage.plus(run.outcome);
                        match found_version(run.outcome, "cargo"@) {
                            None => r matches Step::Over(end) && stops(
                                end,
                                request,
                                notes.with_streams(
                                    run,
                                    "text/plain"@,
                                    request.limits.max_evidence_bytes,
                                    session.apart(),
                                ),
                                elapsed,
                                probe_words(run.outcome, "cargo"@),
                            ),
                            Some(version) => match limits_left(request.limits, elapsed, usage) {
                                None => r matches Step::Over(end) && stops(
                                    end,
                                    request,
                                    notes,
                                    elapsed,
                                    BUDGET_EXHAUSTED@,
                                ),
                                Some(limits) => r matches Step::Next(next, launch) && {
                                    &&& next.session.wf()
                                    &&& next.session.continues(session, notes, usage)
                                    &&& next.version@ == version
                                    &&& launches(
                                        launch,
                                        session.scope,
                                        argv_of("check"@, session.scope.cargo@, text_of(session.scope.verification_target)),
                                        limits,
                                    )
                                },
                            },
                        }
                    },
                }
            }),
    {
        let mut session: Session = self.session;
        let run: Run = match probe {
            Err(fault) => {
                let none: Vec<ProtocolEvent> = Vec::new();
                assert(notes_of(none@) =~= Seq::empty());
                if fault.not_found {
                    return Step::Over(
                        finish(
                            &session.request,
                            none,
                            ExecutionStatus::Unsupported,
                            None,
                            Duration::zero(),
                            Some(CARGO_NOT_FOUND.to_owned()),
                        ),
                    );
                }
                return Step::Over(incomplete(&session.request, none, elapsed, fault.message));
            },
            Ok(run) => run,
        };
        session.usage.add(&run.outcome);
        let version: String = match completed_probe(&run.outcome, "cargo") {
            Ok(version) => version,
            Err(message) => {
                let limit: u64 = session.request.limits.max_evidence_bytes;
                let apart: bool = session.scope.verification_target.is_some();
                let _ = session.ledger.append_process_evidence(&run, "text/plain", limit, apart);
                assert(message@ == probe_words(run.outcome, "cargo"@));
                return Step::Over(session.stop(elapsed, message));
            },
        };
        match remaining_limits(&session.request.limits, elapsed, session.usage) {
            None => Step::Over(session.stop(elapsed, BUDGET_EXHAUSTED.to_owned())),
            Some(limits) => {
                let argv: Vec<String> = cargo_argv("check", &session.scope.cargo, &session.scope.verification_target);
                let directory: String = session.scope.workspace_root.clone();
                Step::Next(CargoCheck { session, version }, Launch { argv, directory, limits })
            },
        }
    }
}

impl CargoCheck {
    /// Cargo's check ended, or it could not be run. `decoded` is what the JSON parser makes of its
    /// messages, and `facts` what is known of each diagnostic that it reports.
    pub fn checked(
        self,
        check: Result<Run, LaunchFault>,
        decoded: Vec<CargoMessage>,
        facts: &Vec<DiagnosticFacts>,
        elapsed: Duration,
    ) -> (r: Step<ClippyProbe>)
        requires
            self.session.wf(),
            self.session.ledger@.next == 1,
            check matches Ok(run) ==> facts_fit(run, decoded@, facts@),
        ensures
            ({
                let session = self.session;
                let request = session.request;
                match check {
                    Err(fault) => r matches Step::Over(end) && stops(
                        end,
                        request,
                        session.ledger@,
                        elapsed,
                        fault.message@,
                    ),
                    Ok(run) => {
                        let usage = session.usage.plus(run.outcome);
                        let (notes, result) = phase_result(
                            session,
                            CARGO_CHECK_TOOL@,
                            self.version@,
                            run,
                            decoded@,
                            facts@,
                        );
                        match result {
                            Err(fault) => r matches Step::Over(end) && stops(
                                end,
                                request,
                                notes,
                                elapsed,
                                fault.text(),
                            ),
                            Ok((success, exit_code)) => if !success {
                                r matches Step::Over(end) && completes(end, request, notes, exit_code, elapsed)
                            } else {
                                match limits_left(request.limits, elapsed, usage) {
                                    None => r matches Step::Over(end) && stops(
                                        end,
                                        request,
                                        notes,
                                        elapsed,
                                        BUDGET_EXHAUSTED@,
                                    ),
                                    Some(limits) => r matches Step::Next(next, launch) && {
                                        &&& next.session.wf()
                                        &&& next.session.continues(session, notes, usage)
                                        &&& launches(launch, session.scope, seq!["clippy"@, "--version"@], limits)
                                    },
                                }
                            },
                        }
                    },
                }
            }),
    {
        let mut session: Session = self.session;
        let run: Run = match check {
            Err(fault) => {
                return Step::Over(session.stop(elapsed, fault.message));
            },
            Ok(run) => run,
        };
        session.usage.add(&run.outcome);
        match session.append_phase(CARGO_CHECK_TOOL, self.version.as_str(), &run, decoded, facts) {
            Err(error) => {
                let message: String = error.message();
                Step::Over(session.stop(elapsed, message))
            },
            Ok((success, exit_code)) => {
                if !success {
                    return Step::Over(session.complete(exit_code, elapsed));
                }
                match remaining_limits(&session.request.limits, elapsed, session.usage) {
                    None => Step::Over(session.stop(elapsed, BUDGET_EXHAUSTED.to_owned())),
                    Some(limits) => {
                        let mut argv: Vec<String> = Vec::new();
                        argv.push("clippy".to_owned());
                        argv.push("--version".to_owned());
                        assert(texts(argv@) =~= seq!["clippy"@, "--version"@]);
                        let directory: String = session.scope.workspace_root.clone();
                        Step::Next(ClippyProbe { session }, Launch { argv, directory, limits })
                    },
                }
            },
        }
    }
}

impl ClippyProbe {
    /// The probe of Clippy's version ended, or it could not be run.
    pub fn probed(self, probe: Result<Run, LaunchFault>, elapsed: Duration) -> (r: Step<ClippyCheck>)
        requires
            self.session.wf(),
        ensures
            ({
                let session = self.session;
                let request = session.request;
                let notes = session.ledger@;
                match probe {
                    Err(fault) => r matches Step::Over(end) && stops(end, request, notes, elapsed, fault.message@),
                    Ok(run) => {
                        let usage = session.usage.plus(run.outcome);
                        match found_version(run.outcome, "clippy"@) {
                            None => r matches Step::Over(end) && stops(
                                end,
                                request,
                                notes.with_streams(
                                    run,
                                    "text/plain"@,
                                    request.limits.max_evidence_bytes,
                                    session.apart(),
                                ),
                                elapsed,
                                probe_words(run.outcome, "clippy"@),
                            ),
                            Some(version) => match limits_left(request.limits, elapsed, usage) {
                                None => r matches Step::Over(end) && stops(
                                    end,
                                    request,
                                    notes,
                                    elapsed,
                                    BUDGET_EXHAUSTED@,
                                ),
                                Some(limits) => r matches Step::Next(next, launch) && {
                                    &&& next.session.wf()
                                    &&& next.session.continues(session, notes, usage)
                                    &&& next.version@ == version
                                    &&& launches(
                                        launch,
                                        session.scope,
                                        argv_of("clippy"@, session.scope.cargo@, text_of(session.scope.verification_target)),
                                        limits,
                                    )
                                },
                            },
                        }
                    },
                }
            }),
    {
        let mut session: Session = self.session;
        let run: Run = match probe {
            Err(fault) => {
                return Step::Over(session.stop(elapsed, fault.message));
            },
            Ok(run) => run,
        };
        session.usage.add(&run.outcome);
        let version: String = match completed_probe(&run.outcome, "clippy") {
            Ok(version) => version,
            Err(message) => {
                let limit: u64 = session.request.limits.max_evidence_bytes;
                let apart: bool = session.scope.verification_target.is_some();
                let _ = session.ledger.append_process_evidence(&run, "text/plain", limit, apart);
                assert(message@ == probe_words(run.outcome, "clippy"@));
                return Step::Over(session.stop(elapsed, message));
            },
        };
        match remaining_limits(&session.request.limits, elapsed, session.usage) {
            None => Step::Over(session.stop(elapsed, BUDGET_EXHAUSTED.to_owned())),
            Some(limits) => {
                let argv: Vec<String> = cargo_argv("clippy", &session.scope.cargo, &session.scope.verification_target);
                let directory: String = session.scope.workspace_root.clone();
                Step::Next(ClippyCheck { session, version }, Launch { argv, directory, limits })
            },
        }
    }
}

impl ClippyCheck {
    /// Clippy's check ended, or it could not be run. `decoded` is what the JSON parser makes of its
    /// messages, and `facts` what is known of each diagnostic that it reports.
    pub fn checked(
        self,
        check: Result<Run, LaunchFault>,
        decoded: Vec<CargoMessage>,
        facts: &Vec<DiagnosticFacts>,
        elapsed: Duration,
    ) -> (r: ProviderResponse)
        requires
            self.session.wf(),
            check matches Ok(run) ==> facts_fit(run, decoded@, facts@),
        ensures
            ({
                let session = self.session;
                let request = session.request;
                match check {
                    Err(fault) => stops(r, request, session.ledger@, elapsed, fault.message@),
                    Ok(run) => {
                        let (notes, result) = phase_result(
                            session,
                            CLIPPY_TOOL@,
                            self.version@,
                            run,
                            decoded@,
                            facts@,
                        );
                        match result {
                            Err(fault) => stops(r, request, notes, elapsed, fault.text()),
                            Ok((_, exit_code)) => completes(r, request, notes, exit_code, elapsed),
                        }
                    },
                }
            }),
    {
        let mut session: Session = self.session;
        let run: Run = match check {
            Err(fault) => {
                return session.stop(elapsed, fault.message);
            },
            Ok(run) => run,
        };
        match session.append_phase(CLIPPY_TOOL, self.version.as_str(), &run, decoded, facts) {
            Err(error) => {
                let message: String = error.message();
                session.stop(elapsed, message)
            },
            Ok((_, exit_code)) => session.complete(exit_code, elapsed),
        }
    }
}

/// Whatever a run of Cargo comes to, the session goes on saying what it said before.
pub proof fn law_runs_keep_what_was_said(
    session: Session,
    tool: Seq<char>,
    version: Seq<char>,
    run: Run,
    decoded: Seq<CargoMessage>,
    facts: Seq<DiagnosticFacts>,
)
    ensures
        session.ledger@.notes.is_prefix_of(phase_result(session, tool, version, run, decoded, facts).0.notes),
        session.ledger@.seen.is_prefix_of(phase_result(session, tool, version, run, decoded, facts).0.seen),
{
    let limit = session.request.limits.max_evidence_bytes;
    let before = session.ledger@;
    let notes = before.with_streams(run, CARGO_MEDIA_TYPE@, limit, session.apart());
    assert(before.notes =~= notes.notes.take(before.notes.len() as int));
    assert(before.seen =~= notes.seen.take(before.seen.len() as int));
    if let Ok((diagnostics, _)) = cargo_report(run.outcome.stdout.bytes@, messages(decoded)) {
        let phase = Phase {
            tool,
            version,
            output_id: before.output_id(run, limit, session.apart()),
            scope: session.scope,
        };
        lemma_diagnostics_add(notes, diagnostics, facts, 0, phase);
    }
}

proof fn lemma_diagnostics_add(
    notes: Notes,
    diagnostics: Seq<RustcDiagnostic>,
    facts: Seq<DiagnosticFacts>,
    k: nat,
    phase: Phase,
)
    ensures
        notes.notes.is_prefix_of(notes.with_diagnostics(diagnostics, facts, k, phase).0.notes),
        notes.seen.is_prefix_of(notes.with_diagnostics(diagnostics, facts, k, phase).0.seen),
    decreases diagnostics.len() - k,
{
    if k < diagnostics.len() {
        if let Ok(next) = notes.with_diagnostic(diagnostics[k as int], facts[k as int], phase) {
            lemma_diagnostics_add(next, diagnostics, facts, k + 1, phase);
            let end = next.with_diagnostics(diagnostics, facts, k + 1, phase).0;
            assert(notes.notes =~= end.notes.take(notes.notes.len() as int));
            assert(notes.seen =~= end.seen.take(notes.seen.len() as int));
        }
    }
}

/// A session that builds in a directory of its own keeps no evidence: what it says after a run is
/// what it said before, and observations.
pub proof fn law_verification_keeps_no_evidence(notes: Notes, run: Run, media_type: Seq<char>, limit: u64)
    ensures
        notes.with_streams(run, media_type, limit, true) == notes,
        notes.output_id(run, limit, true) is None,
{
}

} // verus!
