//! What the events of a Ruff run say of what Ruff said.
use super::builder::{builder_of, is_evidence, Builder};
use super::conclude::judges_session;
use super::error::ProviderError;
use super::request::request_fault;
use super::ruff::{
    after_diagnostic, apart, applicability_of, are_events_of, complete_edit, edits_fit, events_of, normalizes,
    not_behind, stand_after, NormalizedRuff, RuffDiagnostic, RuffEditView, RuffFixView, RuffPosition, RuffRun,
};
use super::session::{after_streams, keeps_streams, remaining, version_in, Run};
use super::steps::{check_argv, check_run, ends_check, ends_session, targets_fault, Checking, ProviderSession};
use crate::model::{Applicability, Evidence, EvidenceSource, ExecutionStatus, FixCandidate, Observation, Severity};
use crate::path::within;
use crate::process::capture::ProcessState;
use crate::process::invocation::texts;
use crate::process::limits::RequestLimits;
use crate::protocol::{Operation, ProtocolEvent, RequestEnvelope};
use crate::text::trimmed;
use crate::time::Duration;
use crate::utf8::{retained, valid_length};
use vstd::prelude::*;
use vstd::string::*;
use vstd::utf8::*;

verus! {

/// Positions are ordered as they are read. Of any two, one does not stand behind the other; both do not
/// only where they are the same; a position on an earlier row never stands behind one on a later row,
/// whatever the columns, and the one on the later row always stands behind; on one row the columns decide.
pub proof fn law_positions_are_in_reading_order(a: RuffPosition, b: RuffPosition, c: RuffPosition)
    ensures
        not_behind(a, b) || not_behind(b, a),
        not_behind(a, b) && not_behind(b, a) ==> a.row == b.row && a.column == b.column,
        not_behind(a, b) && not_behind(b, c) ==> not_behind(a, c),
        a.row < b.row ==> not_behind(a, b) && !not_behind(b, a),
        a.row == b.row ==> (not_behind(a, b) <==> a.column <= b.column),
{
}

/// The edit says what it puts, from one place in a file to another that does not come before it.
pub open spec fn says_all(edit: RuffEditView) -> bool {
    &&& edit.content is Some
    &&& edit.location matches Some(start) && edit.end_location matches Some(end) && {
        &&& start.row >= 1 && start.column >= 1 && end.row >= 1 && end.column >= 1
        &&& start.row < end.row || start.row == end.row && start.column <= end.column
    }
}

/// A fix whose edits each say all, on rows that no other of them touches, keeps the applicability that Ruff
/// gave it.
pub proof fn law_edits_on_rows_of_their_own_keep_applicability(fix: RuffFixView, edits: Vec<RuffEditView>)
    requires
        fix.edits == Some(edits),
        edits.len() > 0,
        forall|i: int| 0 <= i < edits.len() ==> says_all(#[trigger] edits@[i]),
        forall|i: int, j: int|
            0 <= i < j < edits.len() ==> {
                let (a, b) = (#[trigger] edits@[i], #[trigger] edits@[j]);
                a.end_location.unwrap().row < b.location.unwrap().row || b.end_location.unwrap().row
                    < a.location.unwrap().row
            },
    ensures
        fix.applicability is Some && fix.applicability.unwrap()@ == "safe"@ ==> applicability_of(fix)
            == Applicability::Safe,
        fix.applicability is Some && fix.applicability.unwrap()@ == "unsafe"@ ==> applicability_of(fix)
            == Applicability::Unsafe,
        applicability_of(fix) == Applicability::Safe ==> fix.applicability is Some && fix.applicability.unwrap()@
            == "safe"@,
        applicability_of(fix) == Applicability::Unsafe ==> fix.applicability is Some && fix.applicability.unwrap()@
            == "unsafe"@,
{
    reveal_strlit("safe");
    reveal_strlit("unsafe");
    assert("safe"@.len() != "unsafe"@.len());
    assert forall|i: int| 0 <= i < edits.len() implies complete_edit(#[trigger] edits@[i]) by {
        assert(says_all(edits@[i]));
    }
    assert forall|i: int, j: int| 0 <= i < j < edits.len() implies apart(#[trigger] edits@[i], #[trigger] edits@[j]) by {
        assert(says_all(edits@[i]));
        assert(says_all(edits@[j]));
    }
}

/// A fix with edits on one row keeps its applicability where each edit ends, on the row, no further than the
/// next one begins.
pub proof fn law_edits_side_by_side_keep_applicability(fix: RuffFixView, edits: Vec<RuffEditView>, row: u32)
    requires
        fix.edits == Some(edits),
        edits.len() > 0,
        forall|i: int| 0 <= i < edits.len() ==> says_all(#[trigger] edits@[i]),
        forall|i: int|
            0 <= i < edits.len() ==> {
                let edit = #[trigger] edits@[i];
                edit.location.unwrap().row == row && edit.end_location.unwrap().row == row
            },
        forall|i: int, j: int|
            0 <= i < j < edits.len() ==> {
                let (a, b) = (#[trigger] edits@[i], #[trigger] edits@[j]);
                a.end_location.unwrap().column <= b.location.unwrap().column && a.location.unwrap().column
                    < b.location.unwrap().column
            },
    ensures
        fix.applicability is Some && fix.applicability.unwrap()@ == "safe"@ ==> applicability_of(fix)
            == Applicability::Safe,
        fix.applicability is Some && fix.applicability.unwrap()@ == "unsafe"@ ==> applicability_of(fix)
            == Applicability::Unsafe,
{
    reveal_strlit("safe");
    reveal_strlit("unsafe");
    assert("safe"@.len() != "unsafe"@.len());
    assert forall|i: int| 0 <= i < edits.len() implies complete_edit(#[trigger] edits@[i]) by {
        assert(says_all(edits@[i]));
    }
    assert forall|i: int, j: int| 0 <= i < j < edits.len() implies apart(#[trigger] edits@[i], #[trigger] edits@[j]) by {
        assert(says_all(edits@[i]));
        assert(says_all(edits@[j]));
    }
}

/// A place in a file, by row and column, stands in what the edit replaces.
pub open spec fn replaces(edit: RuffEditView, row: int, column: int) -> bool {
    edit.location matches Some(start) && edit.end_location matches Some(end) && {
        &&& start.row < row || start.row == row && start.column <= column
        &&& row < end.row || row == end.row && column < end.column
    }
}

/// A fix of which two edits replace one place is left to the reader, whatever Ruff called it.
pub proof fn law_overlapping_edits_are_manual(
    fix: RuffFixView,
    edits: Vec<RuffEditView>,
    i: int,
    j: int,
    row: int,
    column: int,
)
    requires
        fix.edits == Some(edits),
        0 <= i < j < edits.len(),
        replaces(edits@[i], row, column),
        replaces(edits@[j], row, column),
    ensures
        applicability_of(fix) == Applicability::Manual,
{
    if edits_fit(fix.edits) {
        assert(complete_edit(edits@[i]) && complete_edit(edits@[j]));
        assert(apart(edits@[i], edits@[j]));
    }
}

/// A fix with two edits that begin in one place is left to the reader, and so is one with an edit that does
/// not say all, one without edits, and one that Ruff calls neither safe nor unsafe.
pub proof fn law_unclear_edits_are_manual(fix: RuffFixView)
    ensures
        fix.edits is None ==> applicability_of(fix) == Applicability::Manual,
        fix.applicability is None ==> applicability_of(fix) == Applicability::Manual,
        fix.applicability matches Some(word) ==> word@ != "safe"@ && word@ != "unsafe"@ ==> applicability_of(fix)
            == Applicability::Manual,
        fix.edits matches Some(edits) ==> {
            &&& edits.len() == 0 ==> applicability_of(fix) == Applicability::Manual
            &&& forall|i: int|
                0 <= i < edits.len() && !says_all(#[trigger] edits@[i]) ==> applicability_of(fix) == Applicability::Manual
            &&& forall|i: int, j: int|
                0 <= i < j < edits.len() && (#[trigger] edits@[i]).location == (#[trigger] edits@[j]).location
                    ==> applicability_of(fix) == Applicability::Manual
        },
{
    if let Some(edits) = fix.edits {
        assert forall|i: int| 0 <= i < edits.len() && !says_all(#[trigger] edits@[i]) implies applicability_of(fix)
            == Applicability::Manual by {
            assert(!complete_edit(edits@[i]));
        }
        assert forall|i: int, j: int|
            0 <= i < j < edits.len() && (#[trigger] edits@[i]).location == (#[trigger] edits@[j]).location implies applicability_of(
            fix,
        ) == Applicability::Manual by {
            assert(!apart(edits@[i], edits@[j]));
        }
    }
}

/// The observation says what Ruff said: its rule, its words, how bad it is and where it stands.
pub open spec fn says_what_ruff_said(o: Observation, d: RuffDiagnostic) -> bool {
    &&& o.tool.name@ == "ruff"@
    &&& o.tool.rule_id == d.code
    &&& o.message@ == d.message@
    &&& o.severity == Severity::Error <==> d.severity@ == "error"@
    &&& o.severity == Severity::Warning <==> d.severity@ == "warning"@
    &&& o.severity != Severity::Info
    &&& o.location matches Some(place) && {
        &&& place.start.line == d.location.row
        &&& place.start.column == d.location.column
        &&& place.end is Some <==> d.end_location is Some
        &&& place.end matches Some(end) ==> end.line == d.end_location.unwrap().row && end.column
            == d.end_location.unwrap().column
    }
}

proof fn lemma_stand_grows(diagnostics: Seq<RuffDiagnostic>, i: nat, j: nat, start: Builder, run: RuffRun)
    requires
        i < j <= diagnostics.len(),
    ensures
        stand_after(diagnostics, i, start, run).events < stand_after(diagnostics, j, start, run).events,
    decreases j - i,
{
    reveal(after_diagnostic);
    if i + 1 < j {
        lemma_stand_grows(diagnostics, i, (j - 1) as nat, start, run);
    }
}

/// Each diagnostic has an observation of its own, in the order in which Ruff gave them. Where fixes are asked
/// for and it has one, the fix stands two events behind its observation, names it, and has the
/// applicability of Ruff's fix.
#[verifier::rlimit(40)]
pub proof fn law_every_diagnostic_is_observed(
    events: Seq<ProtocolEvent>,
    diagnostics: Seq<RuffDiagnostic>,
    start: Builder,
    run: RuffRun,
) -> (at: Seq<int>)
    requires
        are_events_of(events, diagnostics, start, run),
    ensures
        at.len() == diagnostics.len(),
        forall|k: int|
            0 <= k < diagnostics.len() ==> 0 <= #[trigger] at[k] < events.len() && (events[at[k]] matches ProtocolEvent::Observation(
                e,
            ) && says_what_ruff_said(e.observation, diagnostics[k])),
        forall|k: int, l: int| 0 <= k < l < diagnostics.len() ==> #[trigger] at[k] < #[trigger] at[l],
        forall|k: int|
            #![trigger at[k]]
            0 <= k < diagnostics.len() && run.emit_fixes && diagnostics[k].fix is Some ==> at[k] + 2 < events.len() && (
            events[at[k] + 2] matches ProtocolEvent::FixCandidate(f) && events[at[k]] matches ProtocolEvent::Observation(e)
                && f.fix_candidate.observation_ids@.len() == 1 && f.fix_candidate.observation_ids@[0]@
                == e.observation.observation_id@ && f.fix_candidate.applicability == applicability_of(
                diagnostics[k].fix.unwrap().view->Ok_0,
            )),
{
    reveal_strlit("error");
    reveal_strlit("warning");
    assert("error"@.len() != "warning"@.len());
    reveal(events_of);
    let at = Seq::new(diagnostics.len(), |k: int| stand_after(diagnostics, k as nat, start, run).events as int);
    assert forall|k: int| 0 <= k < diagnostics.len() implies 0 <= #[trigger] at[k] < events.len() && (
    events[at[k]] matches ProtocolEvent::Observation(e) && says_what_ruff_said(e.observation, diagnostics[k])) by {
        assert(events_of(events, diagnostics[k], stand_after(diagnostics, k as nat, start, run), run));
    }
    assert forall|k: int, l: int| 0 <= k < l < diagnostics.len() implies #[trigger] at[k] < #[trigger] at[l] by {
        lemma_stand_grows(diagnostics, k as nat, l as nat, start, run);
    }
    assert forall|k: int|
        #![trigger at[k]]
        0 <= k < diagnostics.len() && run.emit_fixes && diagnostics[k].fix is Some implies at[k] + 2 < events.len() && (
    events[at[k] + 2] matches ProtocolEvent::FixCandidate(f) && events[at[k]] matches ProtocolEvent::Observation(e)
        && f.fix_candidate.observation_ids@.len() == 1 && f.fix_candidate.observation_ids@[0]@
        == e.observation.observation_id@ && f.fix_candidate.applicability == applicability_of(
        diagnostics[k].fix.unwrap().view->Ok_0,
    )) by {
        assert(events_of(events, diagnostics[k], stand_after(diagnostics, k as nat, start, run), run));
        let ids = events[at[k] + 2]->FixCandidate_0.fix_candidate.observation_ids@;
        assert(texts(ids).len() == 1);
        assert(texts(ids)[0] == ids[0]@);
    }
    at
}

/// A request is taken exactly where nothing is wrong with it, it asks for a check, it requires nothing but checks
/// and fixes, and checks are among its capabilities.
pub proof fn law_checks_are_supported(request: RequestEnvelope, violation: Option<String>)
    ensures
        request_fault(request, violation) is None <==> {
            &&& violation is None
            &&& request.operation == Operation::Check
            &&& forall|i: int|
                0 <= i < request.required_capabilities.len() ==> {
                    let word = (#[trigger] request.required_capabilities@[i])@;
                    word == "diagnostic.check/v1"@ || word == "fix.propose/v1"@
                }
            &&& texts(request.required_capabilities@).contains("diagnostic.check/v1"@) || texts(
                request.optional_capabilities@,
            ).contains("diagnostic.check/v1"@)
        },
        request_fault(request, violation) matches Some((unsupported, _)) ==> (unsupported <==> violation is None),
{
}

/// The check gets what is left of the request's limits: the whole milliseconds that have not gone by, and the bytes
/// that have not been read. It is not started where less than a millisecond is left.
pub proof fn law_the_check_gets_what_is_left(limits: RequestLimits, stdout_used: u64, stderr_used: u64, elapsed: Duration)
    ensures
        remaining(limits, stdout_used, stderr_used, elapsed) is Some <==> elapsed.nanos + 1_000_000 <= limits.timeout_ms
            * 1_000_000,
        remaining(limits, stdout_used, stderr_used, elapsed) matches Some(left) ==> {
            &&& left.timeout.nanos % 1_000_000 == 0
            &&& left.timeout.nanos + elapsed.nanos <= limits.timeout_ms * 1_000_000
            &&& left.timeout.nanos + elapsed.nanos + 1_000_000 > limits.timeout_ms * 1_000_000
            &&& stdout_used >= limits.max_stdout_bytes ==> left.max_stdout_bytes == 0
            &&& stderr_used >= limits.max_stderr_bytes ==> left.max_stderr_bytes == 0
            &&& stdout_used < limits.max_stdout_bytes <= usize::MAX ==> left.max_stdout_bytes + stdout_used
                == limits.max_stdout_bytes
            &&& stderr_used < limits.max_stderr_bytes <= usize::MAX ==> left.max_stderr_bytes + stderr_used
                == limits.max_stderr_bytes
        },
{
}

/// Ruff is asked for JSON, and what it is to check stands behind the sign that ends its options, so that no target
/// is read as one.
pub proof fn law_targets_are_no_options(targets: Seq<Seq<char>>)
    ensures
        check_argv(targets)[0] == "check"@,
        check_argv(targets)[1] == "--output-format"@,
        check_argv(targets)[2] == "json"@,
        check_argv(targets)[3] == "--"@,
        check_argv(targets).skip(4) == targets,
{
    assert(check_argv(targets).skip(4) =~= targets);
}

proof fn lemma_targets_inside(
    targets: Seq<String>,
    found: Seq<Result<String, String>>,
    workspace: Seq<char>,
    k: nat,
)
    requires
        k <= targets.len(),
        targets.len() == found.len(),
    ensures
        targets_fault(targets, found, workspace, k) is None <==> forall|i: int|
            k <= i < targets.len() ==> (#[trigger] found[i]) is Ok && within(found[i]->Ok_0@, workspace),
    decreases targets.len() - k,
{
    if k < targets.len() {
        lemma_targets_inside(targets, found, workspace, k + 1);
        let here = found[k as int] is Ok && within(found[k as int]->Ok_0@, workspace);
        if here && targets_fault(targets, found, workspace, k + 1) is None {
            assert forall|i: int| k <= i < targets.len() implies (#[trigger] found[i]) is Ok && within(
                found[i]->Ok_0@,
                workspace,
            ) by {
                assert(i == k || i >= k + 1);
            }
        }
        if !here {
            assert(!(found[k as int] is Ok && within(found[k as int]->Ok_0@, workspace)));
        }
    }
}

/// A session is complete only where Ruff ran to its end with exit code 0 or 1, which is the session's, and every target
/// was found in the workspace.
#[verifier::rlimit(40)]
pub proof fn law_complete_sessions_ran_to_their_end(
    session: ProviderSession,
    checking: Checking,
    check: Result<Run, String>,
    found: Seq<Result<String, String>>,
    parsed: Result<Vec<RuffDiagnostic>, String>,
    violations: Vec<Option<String>>,
    elapsed: Duration,
    violation: Option<String>,
)
    requires
        ends_session(Ok(session), checking, check, found, parsed, violations, elapsed, violation),
        found.len() == checking.request.targets.len(),
        session.completion.status == ExecutionStatus::Complete,
    ensures
        check is Ok,
        check->Ok_0.outcome.state == ProcessState::Complete,
        check->Ok_0.outcome.exit_code == Some(0u8) || check->Ok_0.outcome.exit_code == Some(1u8),
        session.completion.tool_exit_code == check->Ok_0.outcome.exit_code,
        session.completion.message is None,
        session.completion.request_id@ == checking.request.request_id@,
        forall|i: int|
            0 <= i < found.len() ==> (#[trigger] found[i]) is Ok && within(
                found[i]->Ok_0@,
                checking.roots.workspace@,
            ),
        parsed is Ok,
{
    lemma_targets_inside(checking.request.targets@, found, checking.roots.workspace@, 0);
    let run = check->Ok_0;
    let request = checking.request;
    let b = builder_of(request);
    let b1 = after_streams(b, run);
    let (kept, normalized, b2) = choose|kept: Seq<ProtocolEvent>, normalized: Result<NormalizedRuff, ProviderError>, b2: Builder|
        #[trigger] keeps_streams(kept, Seq::empty(), b, run, "application/json"@) && #[trigger] normalizes(
            normalized,
            request,
            run.outcome.stdout.bytes@.len(),
            parsed,
            check_run(checking, run, violations),
            b1,
            b2,
        ) && ends_check(Ok(session), kept, normalized, b2, run.outcome.exit_code.unwrap(), elapsed, violation);
    if let Ok(diagnostics) = parsed {
        lemma_stand_keeps_request(diagnostics@, diagnostics@.len(), b1, check_run(checking, run, violations));
    }
}

proof fn lemma_stand_keeps_request(diagnostics: Seq<RuffDiagnostic>, k: nat, start: Builder, run: RuffRun)
    ensures
        stand_after(diagnostics, k, start, run).builder.request_id == start.request_id,
    decreases k,
{
    reveal(after_diagnostic);
    if k > 0 {
        lemma_stand_keeps_request(diagnostics, (k - 1) as nat, start, run);
    }
}

/// Fixes are proposed only where they were negotiated: a session that proposes one to a request without them is
/// refused.
pub proof fn law_fixes_are_negotiated(
    r: Result<(), ProviderError>,
    request: RequestEnvelope,
    events: Seq<ProtocolEvent>,
    violation: Option<String>,
    found: Option<ProviderError>,
    i: int,
)
    requires
        judges_session(r, request, events, violation, found),
        0 <= i < events.len(),
        events[i] is FixCandidate,
        !texts(request.required_capabilities@).contains("fix.propose/v1"@),
        !texts(request.optional_capabilities@).contains("fix.propose/v1"@),
    ensures
        r is Err,
{
}

/// A version that Ruff tells behind its name is read back.
pub proof fn law_versions_are_read_back(version: Seq<char>, bytes: Seq<u8>)
    requires
        valid_utf8(bytes),
        trimmed(decode_utf8(bytes)) == seq!['r', 'u', 'f', 'f', ' '] + version,
    ensures
        0 < version.len() <= 64 <==> version_in(bytes) is Ok,
        0 < version.len() <= 64 ==> version_in(bytes)->Ok_0 == version,
{
    reveal_strlit("ruff ");
    assert("ruff "@ =~= seq!['r', 'u', 'f', 'f', ' ']);
    let line = trimmed(decode_utf8(bytes));
    assert(line.take(5) =~= "ruff "@);
    assert(line.skip(5) =~= version);
}

/// Evidence keeps the beginning of what was read, within its limit, and says that it was cut exactly where more was
/// read than is kept.
pub proof fn law_evidence_keeps_the_beginning(
    evidence: Evidence,
    builder: Builder,
    source: EvidenceSource,
    media_type: Seq<char>,
    bytes: Seq<u8>,
    observed: u64,
    digest: Seq<char>,
)
    requires
        is_evidence(evidence, builder, source, media_type, bytes, observed, digest),
    ensures
        evidence.source == source,
        evidence.media_type@ == media_type,
        evidence.sha256@ == digest,
        evidence.observed_bytes == observed,
        evidence.content is Some,
        encode_utf8(evidence.content.unwrap()@).is_prefix_of(bytes),
        encode_utf8(evidence.content.unwrap()@).len() == evidence.retained_bytes,
        evidence.retained_bytes <= evidence.limit_bytes,
        evidence.limit_bytes == builder.max_evidence_bytes,
        evidence.truncated <==> evidence.observed_bytes > evidence.retained_bytes,
        bytes.len() <= builder.max_evidence_bytes && valid_utf8(bytes) ==> encode_utf8(evidence.content.unwrap()@) == bytes,
{
    let cut = if bytes.len() <= builder.max_evidence_bytes {
        bytes
    } else {
        bytes.take(builder.max_evidence_bytes as int)
    };
    lemma_valid_length(cut, cut.len());
    assert(retained(bytes, builder.max_evidence_bytes) =~= bytes.take(valid_length(cut, cut.len()) as int));
    if bytes.len() <= builder.max_evidence_bytes && valid_utf8(bytes) {
        assert(bytes.take(bytes.len() as int) =~= bytes);
    }
}

proof fn lemma_valid_length(bytes: Seq<u8>, k: nat)
    ensures
        valid_length(bytes, k) <= k,
    decreases k,
{
    if k > 0 && !valid_utf8(bytes.take(k as int)) {
        lemma_valid_length(bytes, (k - 1) as nat);
    }
}

} // verus!
