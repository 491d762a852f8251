//! What the observations of a Cargo run say of what the compiler said.
use super::admission::{target_name_of, target_of};
use super::cargo_json::{
    cargo_from, cargo_report, claimed_from, claims, diagnostic_invalid, span_fits, CargoFault, CargoMessage,
    Message, RustcDiagnostic, RustcSpan,
};
use super::error::Fault;
use super::ledger::{notes_of, Note, Notes, Run};
use super::observe::{place_key, primary_from, reading_of, DiagnosticFacts, Phase, Reading};
use super::place::{DiagnosticScope, Place};
use super::request::{foreign_capability, framing_fault, unsupported};
use super::response::{is_last_word, tally_of, ProviderResponse};
use super::scope::{argv_of, Scope};
use super::session::{
    completes, found_version, is_failure, limits_left, phase_result, result_fault, ProcessUsage, Session,
};
use super::words::truncated;
use crate::model::{Evidence, Execution, ExecutionStatus, FixCandidate, Observation, Severity};
use crate::numeral::{decimal, law_decimals_read_back};
use crate::process::capture::{ProcessOutcome, ProcessState};
use crate::process::invocation::texts;
use crate::process::limits::RequestLimits;
use crate::protocol::{without_line_end, CompletionEnvelope, Operation, ProtocolEvent, RequestEnvelope};
use crate::text::trimmed;
use crate::time::Duration;
use vstd::prelude::*;

verus! {

proof fn lemma_levels_differ()
    ensures
        "error"@ != "warning"@,
        "error"@ != "note"@,
        "error"@ != "help"@,
        "error"@ != "failure-note"@,
        "error"@ != "ice"@,
        "ice"@ != "warning"@,
        "ice"@ != "note"@,
        "ice"@ != "help"@,
        "ice"@ != "failure-note"@,
        "warning"@ != "note"@,
        "warning"@ != "help"@,
        "warning"@ != "failure-note"@,
{
    reveal_strlit("error");
    reveal_strlit("ice");
    reveal_strlit("warning");
    reveal_strlit("note");
    reveal_strlit("help");
    reveal_strlit("failure-note");
    assert("note"@[0] == 'n' && "help"@[0] == 'h' && "error"@[0] == 'e' && "ice"@[0] == 'i');
    assert("warning"@.len() == 7 && "failure-note"@.len() == 12);
}

/// An observation is an error exactly where the compiler's level is one that fails a build, a warning
/// exactly where the level is that, and for information exactly where it is a note, help or the note
/// of a failure. There is none of another level.
pub proof fn law_levels_decide_severity(notes: Notes, d: RustcDiagnostic, facts: DiagnosticFacts, phase: Phase)
    requires
        notes.with_diagnostic(d, facts, phase) is Ok,
        notes.with_diagnostic(d, facts, phase)->Ok_0.notes.len() > notes.notes.len(),
    ensures
        notes.with_diagnostic(d, facts, phase)->Ok_0.notes.last() matches Note::Observation { severity, .. } && {
            &&& severity == Severity::Error <==> d.level@ == "error"@ || d.level@ == "ice"@
            &&& severity == Severity::Warning <==> d.level@ == "warning"@
            &&& severity == Severity::Info <==> d.level@ == "note"@ || d.level@ == "help"@ || d.level@
                == "failure-note"@
        },
{
    lemma_levels_differ();
}

/// A build that failed names a diagnostic whose level fails builds, and ended with an exit code that
/// says so; one that did not, ended with exit code 0. Whatever keeps to that is accepted.
pub proof fn law_failed_builds_name_an_error(diagnostics: Seq<RustcDiagnostic>, success: bool, exit_code: u8)
    ensures
        result_fault(diagnostics, success, exit_code) is None <==> if success {
            exit_code == 0
        } else {
            exit_code != 0 && exists|i: int|
                0 <= i < diagnostics.len() && ((#[trigger] diagnostics[i]).level@ == "error"@ || diagnostics[i].level@
                    == "ice"@)
        },
{
    if exists|i: int|
        0 <= i < diagnostics.len() && ((#[trigger] diagnostics[i]).level@ == "error"@ || diagnostics[i].level@ == "ice"@) {
        let i = choose|i: int|
            0 <= i < diagnostics.len() && ((#[trigger] diagnostics[i]).level@ == "error"@ || diagnostics[i].level@
                == "ice"@);
        assert(is_failure(diagnostics[i].level@));
    }
    if exists|i: int| 0 <= i < diagnostics.len() && is_failure((#[trigger] diagnostics[i]).level@) {
        let i = choose|i: int| 0 <= i < diagnostics.len() && is_failure((#[trigger] diagnostics[i]).level@);
        assert(diagnostics[i].level@ == "error"@ || diagnostics[i].level@ == "ice"@);
    }
}

/// The first of the spans that the compiler calls primary.
pub open spec fn first_primary(d: RustcDiagnostic, i: int) -> bool {
    &&& 0 <= i < d.spans@.len()
    &&& d.spans@[i].is_primary
    &&& forall|j: int| 0 <= j < i ==> !(#[trigger] d.spans@[j]).is_primary
}

proof fn lemma_first_primary(spans: Seq<RustcSpan>, k: nat, i: int)
    requires
        k <= i < spans.len(),
        spans[i].is_primary,
        forall|j: int| k <= j < i ==> !(#[trigger] spans[j]).is_primary,
    ensures
        primary_from(spans, k) == Some(spans[i]),
    decreases i - k,
{
    if k < i {
        assert(!spans[k as int].is_primary);
        lemma_first_primary(spans, k + 1, i);
    }
}

/// An observation stands where the compiler's first primary span does: on its lines and in its columns,
/// from its start to its end.
pub proof fn law_observations_stand_where_the_compiler_says(
    d: RustcDiagnostic,
    facts: DiagnosticFacts,
    scope: DiagnosticScope,
    i: int,
    reading: Reading,
)
    requires
        first_primary(d, i),
        reading_of(d, facts, scope) == Ok::<Option<Reading>, Fault>(Some(reading)),
    ensures
        reading.place matches Some(place) ==> {
            &&& place.start.line == d.spans@[i].line_start
            &&& place.start.column == d.spans@[i].column_start
            &&& place.end.line == d.spans@[i].line_end
            &&& place.end.column == d.spans@[i].column_end
            &&& 0 < place.start.line <= place.end.line
            &&& place.start.line == place.end.line ==> 0 < place.start.column <= place.end.column
        },
{
    lemma_first_primary(d.spans@, 0, i);
}

/// Where nothing has to be hidden, an observation has the compiler's code as its rule; and the text that
/// the compiler rendered as its message, where it rendered one that is not blank and not too long.
pub proof fn law_observations_say_what_the_compiler_said(
    d: RustcDiagnostic,
    facts: DiagnosticFacts,
    scope: DiagnosticScope,
    reading: Reading,
)
    requires
        scope.verification_target is None,
        reading_of(d, facts, scope) == Ok::<Option<Reading>, Fault>(Some(reading)),
    ensures
        reading.rule == (match d.code {
            Some(code) => Some(code.code@),
            None => None::<Seq<char>>,
        }),
        d.rendered matches Some(text) ==> 0 < trimmed(text@).len() <= 8192 ==> reading.message == trimmed(text@),
        d.rendered is None && d.children@.len() == 0 && trimmed(d.message@).len() <= 8192 ==> reading.message == trimmed(
            d.message@,
        ),
{
}

/// How many of the events are of a kind, from the front.
pub open spec fn how_many(events: Seq<ProtocolEvent>, kind: spec_fn(ProtocolEvent) -> bool) -> nat
    decreases events.len(),
{
    if events.len() == 0 {
        0
    } else {
        how_many(events.skip(1), kind) + (if kind(events[0]) {
            1nat
        } else {
            0
        })
    }
}

proof fn lemma_how_many_push(events: Seq<ProtocolEvent>, e: ProtocolEvent, kind: spec_fn(ProtocolEvent) -> bool)
    ensures
        how_many(events.push(e), kind) == how_many(events, kind) + (if kind(e) {
            1nat
        } else {
            0
        }),
    decreases events.len(),
{
    let more = events.push(e);
    if events.len() == 0 {
        assert(more.skip(1) =~= Seq::empty());
        assert(how_many(more.skip(1), kind) == 0);
    } else {
        lemma_how_many_push(events.skip(1), e, kind);
        assert(more.skip(1) =~= events.skip(1).push(e));
        assert(more[0] == events[0]);
    }
}

proof fn lemma_tally(events: Seq<ProtocolEvent>)
    ensures
        tally_of(events).observations == how_many(events, |e: ProtocolEvent| e is Observation),
        tally_of(events).evidence == how_many(events, |e: ProtocolEvent| e is Evidence),
        tally_of(events).fix_candidates == how_many(events, |e: ProtocolEvent| e is FixCandidate),
        tally_of(events).executions == how_many(events, |e: ProtocolEvent| e is Execution),
        tally_of(events).observations + tally_of(events).evidence + tally_of(events).fix_candidates + tally_of(
            events,
        ).executions == events.len(),
    decreases events.len(),
{
    if events.len() > 0 {
        let front = events.drop_last();
        lemma_tally(front);
        assert(front.push(events.last()) =~= events);
        lemma_how_many_push(front, events.last(), |e: ProtocolEvent| e is Observation);
        lemma_how_many_push(front, events.last(), |e: ProtocolEvent| e is Evidence);
        lemma_how_many_push(front, events.last(), |e: ProtocolEvent| e is FixCandidate);
        lemma_how_many_push(front, events.last(), |e: ProtocolEvent| e is Execution);
    }
}

/// The last word of a response counts its events, each for what it is; it comes behind all of them; and it names
/// the milliseconds that went by, or the timeout where that is less.
pub proof fn law_the_last_word_counts_the_events(
    completion: CompletionEnvelope,
    request: RequestEnvelope,
    events: Seq<ProtocolEvent>,
    status: ExecutionStatus,
    exit_code: Option<u8>,
    duration: Duration,
    message: Option<Seq<char>>,
)
    requires
        is_last_word(completion, request, events, status, exit_code, duration, message),
    ensures
        completion.request_id@ == request.request_id@,
        completion.status == status,
        completion.tool_exit_code == exit_code,
        completion.counts.observations == how_many(events, |e: ProtocolEvent| e is Observation),
        completion.counts.evidence == how_many(events, |e: ProtocolEvent| e is Evidence),
        completion.counts.fix_candidates == how_many(events, |e: ProtocolEvent| e is FixCandidate),
        completion.counts.executions == how_many(events, |e: ProtocolEvent| e is Execution),
        completion.sequence == completion.counts.observations + completion.counts.evidence
            + completion.counts.fix_candidates + completion.counts.executions,
        completion.tool_duration_ms <= request.limits.timeout_ms,
        completion.tool_duration_ms < request.limits.timeout_ms ==> completion.tool_duration_ms * 1_000_000
            <= duration.nanos < (completion.tool_duration_ms + 1) * 1_000_000,
        completion.tool_duration_ms == request.limits.timeout_ms ==> duration.nanos >= completion.tool_duration_ms
            * 1_000_000,
        message is None <==> completion.message is None,
        message matches Some(text) ==> completion.message.unwrap()@.len() <= 8192 && (text.len() <= 8192
            ==> completion.message.unwrap()@ == text),
{
    lemma_tally(events);
}

/// A bounded response keeps the first events, as many as are allowed, and numbers them from zero; of each, nothing
/// else changes.
pub proof fn law_bounded_events_are_the_first(events: Seq<ProtocolEvent>, max_events: u64, i: int)
    requires
        0 <= i < crate::rust::response::bounded(events, max_events).len(),
        i <= u64::MAX,
    ensures
        crate::rust::response::bounded(events, max_events).len() <= max_events,
        crate::rust::response::bounded(events, max_events).len() <= events.len(),
        events.len() <= max_events && max_events <= usize::MAX ==> crate::rust::response::bounded(events, max_events).len()
            == events.len(),
        match (events[i], crate::rust::response::bounded(events, max_events)[i]) {
            (ProtocolEvent::Observation(a), ProtocolEvent::Observation(b)) => b.sequence == i && b.observation
                == a.observation && b.request_id == a.request_id,
            (ProtocolEvent::Evidence(a), ProtocolEvent::Evidence(b)) => b.sequence == i && b.evidence == a.evidence
                && b.request_id == a.request_id,
            (ProtocolEvent::FixCandidate(a), ProtocolEvent::FixCandidate(b)) => b.sequence == i && b.fix_candidate
                == a.fix_candidate && b.request_id == a.request_id,
            (ProtocolEvent::Execution(a), ProtocolEvent::Execution(b)) => b.sequence == i && b.execution == a.execution
                && b.request_id == a.request_id,
            _ => false,
        },
{
}

/// A process gets what is left of the request's limits: the time that has not gone by, and the bytes that have not
/// been read. It is not started where less than a millisecond is left.
pub proof fn law_processes_share_the_limits(limits: RequestLimits, elapsed: Duration, usage: ProcessUsage)
    ensures
        limits_left(limits, elapsed, usage) is Some <==> elapsed.nanos + 1_000_000 <= limits.timeout_ms * 1_000_000,
        limits_left(limits, elapsed, usage) matches Some(left) ==> {
            &&& left.timeout.nanos + elapsed.nanos == limits.timeout_ms * 1_000_000
            &&& usage.stdout >= limits.max_stdout_bytes ==> left.max_stdout_bytes == 0
            &&& usage.stderr >= limits.max_stderr_bytes ==> left.max_stderr_bytes == 0
            &&& usage.stdout < limits.max_stdout_bytes <= usize::MAX ==> left.max_stdout_bytes + usage.stdout
                == limits.max_stdout_bytes
            &&& usage.stderr < limits.max_stderr_bytes <= usize::MAX ==> left.max_stderr_bytes + usage.stderr
                == limits.max_stderr_bytes
        },
{
}

/// What has been read of a process counts against the limits: each stream against its own.
pub proof fn law_usage_adds_up(usage: ProcessUsage, outcome: ProcessOutcome)
    ensures
        usage.stdout + outcome.stdout.observed_bytes <= u64::MAX ==> usage.plus(outcome).stdout == usage.stdout
            + outcome.stdout.observed_bytes,
        usage.stderr + outcome.stderr.observed_bytes <= u64::MAX ==> usage.plus(outcome).stderr == usage.stderr
            + outcome.stderr.observed_bytes,
        usage.plus(outcome).stdout >= usage.stdout,
        usage.plus(outcome).stderr >= usage.stderr,
{
}

/// Whether an argument stands somewhere in a command line.
pub open spec fn says(argv: Seq<Seq<char>>, word: Seq<char>) -> bool {
    exists|i: int| 0 <= i < argv.len() && #[trigger] argv[i] == word
}

/// Cargo is always run with the lock file as it is, over all targets, with its messages in JSON; over the workspace,
/// or over the one package whose manifest it is told; and into the directory that it is told, if any.
pub proof fn law_cargo_is_run_locked_over_the_scope(command: Seq<char>, scope: Scope, target_dir: Option<Seq<char>>)
    ensures
        argv_of(command, scope, target_dir)[0] == command,
        says(argv_of(command, scope, target_dir), "--locked"@),
        says(argv_of(command, scope, target_dir), "--all-targets"@),
        says(argv_of(command, scope, target_dir), "--message-format=json"@),
        scope is Workspace ==> says(argv_of(command, scope, target_dir), "--workspace"@),
        scope matches Scope::Manifest { manifest, .. } ==> exists|i: int|
            0 <= i < argv_of(command, scope, target_dir).len() - 1 && (#[trigger] argv_of(command, scope, target_dir)[i])
                == "--manifest-path"@ && argv_of(command, scope, target_dir)[i + 1] == manifest,
        target_dir matches Some(dir) ==> argv_of(command, scope, target_dir)[1] == "--target-dir"@ && argv_of(
            command,
            scope,
            target_dir,
        )[2] == dir,
        argv_of(command, scope, target_dir).len() == 4 + (if scope is Workspace {
            1int
        } else {
            2
        }) + (if target_dir is Some {
            2int
        } else {
            0
        }),
{
    let argv = argv_of(command, scope, target_dir);
    let n = argv.len() as int;
    assert(argv[n - 3] == "--all-targets"@);
    assert(argv[n - 2] == "--locked"@);
    assert(argv[n - 1] == "--message-format=json"@);
    match scope {
        Scope::Workspace => {
            assert(argv[n - 4] == "--workspace"@);
        },
        Scope::Manifest { manifest, .. } => {
            assert(argv[n - 5] == "--manifest-path"@);
            assert(argv[n - 4] == manifest);
        },
    }
}

proof fn lemma_foreign(required: Seq<Seq<char>>, k: nat)
    requires
        k <= required.len(),
    ensures
        foreign_capability(required, k) is None <==> forall|i: int|
            k <= i < required.len() ==> #[trigger] required[i] == "diagnostic.check/v1"@,
        foreign_capability(required, k) matches Some(word) ==> required.contains(word) && word
            != "diagnostic.check/v1"@,
    decreases required.len() - k,
{
    if k < required.len() {
        lemma_foreign(required, k + 1);
        assert(required.contains(required[k as int]));
        if required[k as int] == "diagnostic.check/v1"@ && foreign_capability(required, k + 1) is None {
            assert forall|i: int| k <= i < required.len() implies #[trigger] required[i] == "diagnostic.check/v1"@ by {
                assert(i == k || i >= k + 1);
            }
        }
    }
}

/// A request is supported exactly where it asks for a check or a verification, has the capability to check among
/// its capabilities, and requires no other.
pub proof fn law_checks_and_verifications_are_supported(request: RequestEnvelope)
    ensures
        unsupported(request) is None <==> {
            &&& request.operation == Operation::Check || request.operation == Operation::Verify
            &&& says(texts(request.required_capabilities@), "diagnostic.check/v1"@) || says(
                texts(request.optional_capabilities@),
                "diagnostic.check/v1"@,
            )
            &&& forall|i: int|
                0 <= i < request.required_capabilities.len() ==> (#[trigger] request.required_capabilities@[i])@
                    == "diagnostic.check/v1"@
        },
{
    let required = texts(request.required_capabilities@);
    let optional = texts(request.optional_capabilities@);
    lemma_foreign(required, 0);
    let word = "diagnostic.check/v1"@;
    if required.contains(word) {
        let i = choose|i: int| 0 <= i < required.len() && required[i] == word;
        assert(required[i] == word);
    }
    if optional.contains(word) {
        let i = choose|i: int| 0 <= i < optional.len() && optional[i] == word;
        assert(optional[i] == word);
    }
    if forall|i: int|
        0 <= i < request.required_capabilities.len() ==> (#[trigger] request.required_capabilities@[i])@ == word {
        assert forall|i: int| 0 <= i < required.len() implies #[trigger] required[i] == word by {
            assert(request.required_capabilities@[i]@ == word);
        }
    }
    if foreign_capability(required, 0) is None {
        assert forall|i: int| 0 <= i < request.required_capabilities.len() implies (
        #[trigger] request.required_capabilities@[i])@ == word by {
            assert(required[i] == word);
        }
    }
}

/// A request is one line of at most 65536 bytes that is not empty; its line end does not count.
pub proof fn law_requests_are_one_line(input: Seq<u8>, line: Seq<u8>)
    requires
        forall|i: int| 0 <= i < line.len() ==> #[trigger] line[i] != 10 && line[i] != 13,
        input == line || input == line.push(10) || input == line.push(13).push(10),
    ensures
        framing_fault(input) is None <==> 0 < line.len() && input.len() <= 65536,
{
    if input == line.push(10) {
        assert(without_line_end(input) =~= line);
    } else if input == line.push(13).push(10) {
        assert(without_line_end(input) =~= line);
    } else {
        assert(without_line_end(input) =~= line);
    }
}

/// A phase that came to a result was run to its end, and it succeeded exactly where the process ended with exit
/// code 0.
pub proof fn law_phases_end_as_their_process_did(
    session: Session,
    tool: Seq<char>,
    version: Seq<char>,
    run: Run,
    decoded: Seq<CargoMessage>,
    facts: Seq<DiagnosticFacts>,
)
    ensures
        phase_result(session, tool, version, run, decoded, facts).1 matches Ok((success, exit_code)) ==> {
            &&& run.outcome.state == ProcessState::Complete
            &&& run.outcome.exit_code == Some(exit_code)
            &&& success <==> exit_code == 0
        },
{
}

/// A response is complete exactly where all that was noted is allowed; it has then the exit code and no message.
/// Else it is incomplete, without an exit code, and keeps the first notes.
pub proof fn law_complete_responses_are_whole(
    r: ProviderResponse,
    request: RequestEnvelope,
    notes: Notes,
    exit_code: u8,
    elapsed: Duration,
)
    requires
        completes(r, request, notes, exit_code, elapsed),
        request.limits.max_events <= usize::MAX,
    ensures
        r.completion.status == ExecutionStatus::Complete <==> notes.notes.len() <= request.limits.max_events,
        r.completion.status == ExecutionStatus::Complete ==> r.completion.tool_exit_code == Some(exit_code)
            && r.completion.message is None && notes_of(r.events@) == notes.notes,
        r.completion.status != ExecutionStatus::Complete ==> r.completion.status == ExecutionStatus::Incomplete
            && r.completion.tool_exit_code is None && r.completion.message is Some && notes_of(r.events@)
            == notes.notes.take(request.limits.max_events as int),
{
}

/// Another attempt gets another directory.
pub proof fn law_attempts_get_directories_of_their_own(process: u32, request_id: Seq<char>, a: u32, b: u32)
    requires
        a != b,
    ensures
        target_name_of(process, request_id, a) != target_name_of(process, request_id, b),
{
    let head = "diagnostic-triage-cargo-"@ + decimal(process as nat) + "-"@ + request_id + "-"@;
    law_decimals_read_back(a as nat);
    law_decimals_read_back(b as nat);
    if target_name_of(process, request_id, a) == target_name_of(process, request_id, b) {
        assert((head + decimal(a as nat)).skip(head.len() as int) =~= decimal(a as nat));
        assert((head + decimal(b as nat)).skip(head.len() as int) =~= decimal(b as nat));
    }
}

/// Only a verification builds into a directory of its own.
pub proof fn law_only_verifications_build_apart(request: RequestEnvelope, target: Result<String, String>)
    ensures
        request.operation == Operation::Verify ==> match target {
            Ok(path) => target_of(request, target) == Ok::<Option<Seq<char>>, Seq<char>>(Some(path@)),
            Err(text) => target_of(request, target) == Err::<Option<Seq<char>>, Seq<char>>(text@),
        },
        request.operation != Operation::Verify ==> target_of(request, target) == Ok::<Option<Seq<char>>, Seq<char>>(
            None,
        ),
{
}

/// A version is found only where the tool ended well.
pub proof fn law_versions_come_of_complete_probes(outcome: ProcessOutcome, name: Seq<char>)
    ensures
        found_version(outcome, name) is Some ==> outcome.state == ProcessState::Complete && outcome.exit_code == Some(
            0u8,
        ),
{
}

/// What is cut off is no more than has to be: a text that fits is kept, of a longer one all that fits before the
/// sign that it was cut.
pub proof fn law_truncation_keeps_what_fits(s: Seq<char>, maximum: nat)
    requires
        maximum > 0,
    ensures
        s.len() <= maximum ==> truncated(s, maximum) == s,
        s.len() > maximum ==> truncated(s, maximum).len() == maximum && truncated(s, maximum).last() == '…' && truncated(
            s,
            maximum,
        ).drop_last().is_prefix_of(s),
{
    if s.len() > maximum {
        assert(truncated(s, maximum).drop_last() =~= s.take(maximum - 1));
    }
}

/// A diagnostic is taken exactly where it says something, on a level, with at most 64 spans and 64 notes, a code of
/// 1 to 128 characters if any, and spans that name a file and run forwards through lines and columns that count
/// from one.
pub proof fn law_diagnostics_that_say_something_are_taken(d: RustcDiagnostic)
    ensures
        diagnostic_invalid(d) is None <==> {
            &&& d.message@.len() > 0
            &&& d.level@.len() > 0
            &&& d.spans.len() <= 64
            &&& d.children.len() <= 64
            &&& d.code matches Some(code) ==> 1 <= code.code@.len() <= 128
            &&& forall|i: int| 0 <= i < d.spans.len() ==> runs_forwards(#[trigger] d.spans@[i])
        },
{
    if exists|i: int| 0 <= i < d.spans.len() && !span_fits(#[trigger] d.spans@[i]) {
        let i = choose|i: int| 0 <= i < d.spans.len() && !span_fits(#[trigger] d.spans@[i]);
        assert(!runs_forwards(d.spans@[i]));
    }
    if diagnostic_invalid(d) is None {
        assert forall|i: int| 0 <= i < d.spans.len() implies runs_forwards(#[trigger] d.spans@[i]) by {
            assert(span_fits(d.spans@[i]));
        }
    }
}

/// The span names a file and runs from one place in it to the same or a later one.
pub open spec fn runs_forwards(span: RustcSpan) -> bool {
    &&& span.file_name@.len() > 0
    &&& 1 <= span.line_start <= span.line_end <= 0xffff_ffff
    &&& 1 <= span.column_start <= 0xffff_ffff
    &&& 1 <= span.column_end <= 0xffff_ffff
    &&& span.line_start == span.line_end ==> span.column_start <= span.column_end
}

/// The diagnostics among the messages, in their order.
pub open spec fn diagnostics_in(decoded: Seq<Message>) -> Seq<RustcDiagnostic>
    decreases decoded.len(),
{
    if decoded.len() == 0 {
        Seq::empty()
    } else {
        (match decoded[0] {
            Message::Compiler(d) => seq![d],
            _ => Seq::empty(),
        }) + diagnostics_in(decoded.skip(1))
    }
}

/// The messages come to an end: the last one says whether the build succeeded, no other does, and none is
/// malformed or without a reason.
pub open spec fn come_to_an_end(decoded: Seq<Message>, success: bool) -> bool {
    &&& decoded.len() > 0
    &&& decoded.last() == Message::Finished(success)
    &&& forall|i: int|
        0 <= i < decoded.len() - 1 ==> (#[trigger] decoded[i] is Compiler || decoded[i] is Other)
}

#[verifier::rlimit(40)]
proof fn lemma_cargo_from(
    input: Seq<u8>,
    k: int,
    decoded: Seq<Message>,
    m: int,
    taken: Seq<RustcDiagnostic>,
    finished: Option<bool>,
)
    requires
        0 <= k <= input.len(),
        0 <= m <= decoded.len(),
        decoded.len() - m == claimed_from(input, k).len(),
        cargo_from(input, k, decoded, m, taken, finished) is Ok,
    ensures
        finished is Some ==> decoded.len() == m && cargo_from(input, k, decoded, m, taken, finished)->Ok_0 == (
            taken,
            finished.unwrap(),
        ),
        finished is None ==> {
            let (all, success) = cargo_from(input, k, decoded, m, taken, finished)->Ok_0;
            all == taken + diagnostics_in(decoded.skip(m)) && come_to_an_end(decoded.skip(m), success)
        },
    decreases input.len() - k,
{
    if k < input.len() {
        let end = crate::rust::cargo_json::line_end(input, k);
        let line = crate::rust::cargo_json::line_text(input, k, end);
        if !claims(line) {
            lemma_cargo_from(input, end, decoded, m, taken, finished);
        } else {
            let rest = decoded.skip(m);
            assert(claimed_from(input, k) == seq![line] + claimed_from(input, end));
            assert(m < decoded.len());
            assert(rest.skip(1) =~= decoded.skip(m + 1));
            assert(rest[0] == decoded[m]);
            match decoded[m] {
                Message::Compiler(d) => {
                    lemma_cargo_from(input, end, decoded, m + 1, taken.push(d), finished);
                    assert(taken.push(d) + diagnostics_in(rest.skip(1)) =~= taken + diagnostics_in(rest));
                    lemma_end_behind(rest, cargo_from(input, k, decoded, m, taken, finished)->Ok_0.1);
                },
                Message::Other => {
                    lemma_cargo_from(input, end, decoded, m + 1, taken, finished);
                    assert(taken + diagnostics_in(rest.skip(1)) =~= taken + diagnostics_in(rest));
                    lemma_end_behind(rest, cargo_from(input, k, decoded, m, taken, finished)->Ok_0.1);
                },
                Message::Finished(success) => {
                    lemma_cargo_from(input, end, decoded, m + 1, taken, Some(success));
                    assert(rest.skip(1) =~= Seq::empty());
                    assert(diagnostics_in(rest.skip(1)) =~= Seq::empty());
                    assert(taken + diagnostics_in(rest) =~= taken);
                    assert(rest.last() == rest[0]);
                },
                _ => {},
            }
        }
    }
}

proof fn lemma_end_behind(rest: Seq<Message>, success: bool)
    requires
        rest.len() > 0,
        rest[0] is Compiler || rest[0] is Other,
        come_to_an_end(rest.skip(1), success),
    ensures
        come_to_an_end(rest, success),
{
    assert(rest.last() == rest.skip(1).last());
    assert forall|i: int| 0 <= i < rest.len() - 1 implies (#[trigger] rest[i] is Compiler || rest[i] is Other) by {
        if i > 0 {
            assert(rest[i] == rest.skip(1)[i - 1]);
        }
    }
}

/// What Cargo reports is what it said: all its diagnostics, in their order, and the success that its last message
/// tells.
pub proof fn law_reports_say_what_cargo_said(
    input: Seq<u8>,
    decoded: Seq<Message>,
    diagnostics: Seq<RustcDiagnostic>,
    success: bool,
)
    requires
        decoded.len() == claimed_from(input, 0).len(),
        cargo_report(input, decoded) == Ok::<(Seq<RustcDiagnostic>, bool), CargoFault>((diagnostics, success)),
    ensures
        diagnostics == diagnostics_in(decoded),
        come_to_an_end(decoded, success),
{
    lemma_cargo_from(input, 0, decoded, 0, Seq::empty(), None);
    assert(decoded.skip(0) =~= decoded);
    assert(Seq::<RustcDiagnostic>::empty() + diagnostics_in(decoded) =~= diagnostics_in(decoded));
}

/// An observation names the tool and the version of the phase that made it, and the phase's output as its
/// evidence; the rest of it is the diagnostic's.
pub proof fn law_observations_are_of_their_phase(notes: Notes, d: RustcDiagnostic, facts: DiagnosticFacts, phase: Phase)
    requires
        notes.with_diagnostic(d, facts, phase) is Ok,
    ensures
        ({
            let after = notes.with_diagnostic(d, facts, phase)->Ok_0;
            &&& after.notes.len() == notes.notes.len() || after.notes.len() == notes.notes.len() + 1
            &&& notes.notes.is_prefix_of(after.notes)
            &&& after.notes.len() > notes.notes.len() ==> (after.notes.last() matches Note::Observation {
                tool,
                version,
                rule,
                message,
                place,
                evidence_ids,
                ..
            } && {
                let reading = reading_of(d, facts, phase.scope)->Ok_0.unwrap();
                &&& tool == phase.tool
                &&& version == phase.version
                &&& rule == reading.rule
                &&& message == reading.message
                &&& place == reading.place
                &&& phase.output_id matches Some(id) ==> evidence_ids == seq![id]
                &&& phase.output_id is None ==> evidence_ids.len() == 0
            })
        }),
{
}

/// An error or a warning without a place of its own is observed, whatever its code; a note or help without a code and
/// a place is not.
pub proof fn law_errors_and_warnings_are_observed(d: RustcDiagnostic, facts: DiagnosticFacts, scope: DiagnosticScope)
    requires
        forall|i: int| 0 <= i < d.spans@.len() ==> !(#[trigger] d.spans@[i]).is_primary,
    ensures
        d.level@ == "error"@ || d.level@ == "ice"@ || d.level@ == "warning"@ ==> reading_of(d, facts, scope) is Ok
            && reading_of(d, facts, scope)->Ok_0 is Some && reading_of(d, facts, scope)->Ok_0.unwrap().place is None,
        d.code is None && (d.level@ == "note"@ || d.level@ == "help"@ || d.level@ == "failure-note"@) ==> reading_of(
            d,
            facts,
            scope,
        ) == Ok::<Option<Reading>, Fault>(None),
{
    lemma_levels_differ();
    lemma_no_primary(d.spans@, 0);
}

proof fn lemma_no_primary(spans: Seq<RustcSpan>, k: nat)
    requires
        forall|i: int| k <= i < spans.len() ==> !(#[trigger] spans[i]).is_primary,
    ensures
        primary_from(spans, k) is None,
    decreases spans.len() - k,
{
    if k < spans.len() {
        assert(!spans[k as int].is_primary);
        lemma_no_primary(spans, k + 1);
    }
}

/// A level that the compiler does not have is refused.
pub proof fn law_unknown_levels_are_refused(d: RustcDiagnostic, facts: DiagnosticFacts, scope: DiagnosticScope)
    requires
        d.level@ != "error"@ && d.level@ != "ice"@ && d.level@ != "warning"@ && d.level@ != "note"@ && d.level@
            != "help"@ && d.level@ != "failure-note"@,
    ensures
        reading_of(d, facts, scope) is Err,
{
}

proof fn lemma_digits(n: nat)
    ensures
        forall|i: int| 0 <= i < decimal(n).len() ==> '0' <= #[trigger] decimal(n)[i] <= '9',
    decreases n,
{
    if n >= 10 {
        lemma_digits(n / 10);
        let head = decimal(n / 10);
        assert forall|i: int| 0 <= i < decimal(n).len() implies '0' <= #[trigger] decimal(n)[i] <= '9' by {
            if i < head.len() {
                assert(decimal(n)[i] == head[i]);
            }
        }
    }
}

/// A number and what stands behind the words that end it can be told apart.
proof fn lemma_number_ends(a: nat, x: Seq<char>, b: nat, y: Seq<char>, w: Seq<char>)
    requires
        w.len() > 0,
        !('0' <= w[0] <= '9'),
        decimal(a) + (w + x) == decimal(b) + (w + y),
    ensures
        a == b,
        x == y,
{
    lemma_digits(a);
    lemma_digits(b);
    law_decimals_read_back(a);
    law_decimals_read_back(b);
    let (p, q) = (decimal(a), decimal(b));
    let left = p + (w + x);
    let right = q + (w + y);
    if p.len() < q.len() {
        assert(left[p.len() as int] == w[0]);
        assert(right[p.len() as int] == q[p.len() as int]);
    } else if q.len() < p.len() {
        assert(right[q.len() as int] == w[0]);
        assert(left[q.len() as int] == p[q.len() as int]);
    }
    assert(left.take(p.len() as int) =~= p);
    assert(right.take(q.len() as int) =~= q);
    assert(left.skip((p.len() + w.len()) as int) =~= x);
    assert(right.skip((q.len() + w.len()) as int) =~= y);
}

/// The key of a place, from the column where it ends.
spec fn key_from_end(x: Place) -> Seq<char> {
    decimal(x.end.column as nat) + (" })"@ + Seq::empty())
}

spec fn key_from_end_line(x: Place) -> Seq<char> {
    decimal(x.end.line as nat) + (", column: "@ + key_from_end(x))
}

spec fn key_from_column(x: Place) -> Seq<char> {
    decimal(x.start.column as nat) + (":Some(Position { line: "@ + key_from_end_line(x))
}

spec fn key_from_line(x: Place) -> Seq<char> {
    decimal(x.start.line as nat) + (":"@ + key_from_column(x))
}

proof fn lemma_key_from_line(x: Place)
    ensures
        place_key(Some(x)) == x.path + ":"@ + key_from_line(x),
{
    let (a, b, c, d) = (
        decimal(x.start.line as nat),
        decimal(x.start.column as nat),
        decimal(x.end.line as nat),
        decimal(x.end.column as nat),
    );
    lemma_regroup(x.path + ":"@, a, ":"@, b, ":Some(Position { line: "@, c, ", column: "@, d, " })"@);
}

proof fn lemma_regroup(
    head: Seq<char>,
    a: Seq<char>,
    u: Seq<char>,
    b: Seq<char>,
    v: Seq<char>,
    c: Seq<char>,
    w: Seq<char>,
    d: Seq<char>,
    z: Seq<char>,
)
    ensures
        head + a + u + b + v + c + w + d + z == head + (a + (u + (b + (v + (c + (w + (d + (z + Seq::empty())))))))),
{
    assert(head + a + u + b + v + c + w + d + z =~= head + (a + (u + (b + (v + (c + (w + (d + (z + Seq::empty())))))))));
}

/// Two places in one file are the same where their keys are: a diagnostic is passed over as said before only where
/// it stands in the same place, from its start to its end.
#[verifier::rlimit(40)]
pub proof fn law_places_apart_have_keys_apart(p: Place, q: Place)
    requires
        p.path == q.path,
        place_key(Some(p)) == place_key(Some(q)),
    ensures
        p.start.line == q.start.line,
        p.start.column == q.start.column,
        p.end.line == q.end.line,
        p.end.column == q.end.column,
{
    reveal_strlit(":");
    reveal_strlit(":Some(Position { line: ");
    reveal_strlit(", column: ");
    reveal_strlit(" })");
    lemma_key_from_line(p);
    lemma_key_from_line(q);
    let head = p.path + ":"@;
    assert((head + key_from_line(p)).skip(head.len() as int) =~= key_from_line(p));
    assert((head + key_from_line(q)).skip(head.len() as int) =~= key_from_line(q));
    lemma_number_ends(p.start.line as nat, key_from_column(p), q.start.line as nat, key_from_column(q), ":"@);
    lemma_number_ends(
        p.start.column as nat,
        key_from_end_line(p),
        q.start.column as nat,
        key_from_end_line(q),
        ":Some(Position { line: "@,
    );
    lemma_number_ends(p.end.line as nat, key_from_end(p), q.end.line as nat, key_from_end(q), ", column: "@);
    lemma_number_ends(p.end.column as nat, Seq::empty(), q.end.column as nat, Seq::empty(), " })"@);
}

} // verus!
