//! What Ruff reports, in the terms of the protocol.
use super::builder::{
    evidence_fault, is_evidence, is_fix_candidate, observation_fault, reports_event_fault, Builder,
    CompletionBuilder, EventFault, NO_IDENTIFIER, RUFF_FIX_MEDIA_TYPE,
};
use super::error::ProviderError;
use super::request::FIX_CAPABILITY;
use crate::json::{
    add_member, add_nullable, add_string, json_member, json_nullable, json_object, json_string, object_json,
    optional_string,
};
use crate::model::{
    Applicability, EvidenceSource, Location, Observation, Position, Severity, Tool, NORMAL_ORIGIN,
    OBSERVATION_SCHEMA,
};
use crate::numeral::as_length;
use crate::order::equal_texts;
use crate::path::{normalize_path, normalized_path};
use crate::process::invocation::texts;
use crate::protocol::{copy_texts, negotiates, request_negotiates, ProtocolEvent, RequestEnvelope};
use crate::text::{chars_of, string_of};
use crate::utf8::retained;
use vstd::prelude::*;
use vstd::utf8::*;

verus! {

/// A place in a file, as Ruff counts: one-based, in Unicode scalar values.
#[derive(Clone, Copy, Debug, PartialEq, Eq, Structural)]
pub struct RuffPosition {
    pub row: u32,
    pub column: u32,
}

/// The place in the terms of the protocol.
pub open spec fn position_of(p: RuffPosition) -> Position {
    Position { line: p.row, column: p.column }
}

/// One edit of a fix, as far as Ruff gave it.
#[derive(Clone, Debug, PartialEq, Eq)]
pub struct RuffEditView {
    pub content: Option<String>,
    pub location: Option<RuffPosition>,
    pub end_location: Option<RuffPosition>,
}

/// A fix, as far as Ruff gave it.
#[derive(Clone, Debug, PartialEq, Eq)]
pub struct RuffFixView {
    pub applicability: Option<String>,
    pub edits: Option<Vec<RuffEditView>>,
}

/// A fix as Ruff wrote it.
#[derive(Debug, PartialEq, Eq)]
pub struct RuffFix {
    /// Its JSON, compact and complete.
    pub json: String,
    /// What was read of it, or why it could not be.
    pub view: Result<RuffFixView, String>,
    /// The digest of the patch that `patch_content` makes of it.
    pub digest: String,
}

/// One diagnostic of Ruff.
#[derive(Debug, PartialEq, Eq)]
pub struct RuffDiagnostic {
    pub code: Option<String>,
    pub filename: String,
    pub location: RuffPosition,
    pub end_location: Option<RuffPosition>,
    pub message: String,
    pub severity: String,
    pub fix: Option<RuffFix>,
    /// The path contract refuses the path that `normalize_path` makes of the file name.
    pub path_refused: bool,
}

/// `a` does not stand behind `b`.
pub open spec fn not_behind(a: RuffPosition, b: RuffPosition) -> bool {
    a.row < b.row || a.row == b.row && a.column <= b.column
}

fn is_not_behind(a: RuffPosition, b: RuffPosition) -> (r: bool)
    ensures
        r == not_behind(a, b),
{
    a.row < b.row || a.row == b.row && a.column <= b.column
}

/// The edit says what it puts where.
pub open spec fn complete_edit(edit: RuffEditView) -> bool {
    &&& edit.content is Some
    &&& edit.location matches Some(start) && edit.end_location matches Some(end) && start.row > 0 && start.column > 0
        && end.row > 0 && end.column > 0 && not_behind(start, end)
}

/// The two edits begin in different places, and neither reaches into the other.
pub open spec fn apart(a: RuffEditView, b: RuffEditView) -> bool {
    let (a_start, a_end) = (a.location.unwrap(), a.end_location.unwrap());
    let (b_start, b_end) = (b.location.unwrap(), b.end_location.unwrap());
    a_start != b_start && (not_behind(a_end, b_start) || not_behind(b_end, a_start))
}

/// There are edits, each says what it puts where, and no two of them touch the same text.
pub open spec fn edits_fit(edits: Option<Vec<RuffEditView>>) -> bool {
    match edits {
        None => false,
        Some(v) => {
            &&& v.len() > 0
            &&& forall|i: int| 0 <= i < v.len() ==> complete_edit(#[trigger] v@[i])
            &&& forall|i: int, j: int| 0 <= i < j < v.len() ==> apart(#[trigger] v@[i], #[trigger] v@[j])
        },
    }
}

fn is_complete(edit: &RuffEditView) -> (r: bool)
    ensures
        r == complete_edit(*edit),
{
    match (&edit.content, edit.location, edit.end_location) {
        (Some(_), Some(start), Some(end)) => start.row > 0 && start.column > 0 && end.row > 0 && end.column > 0
            && is_not_behind(start, end),
        _ => false,
    }
}

fn are_apart(a: &RuffEditView, b: &RuffEditView) -> (r: bool)
    requires
        complete_edit(*a),
        complete_edit(*b),
    ensures
        r == apart(*a, *b),
{
    match (a.location, a.end_location, b.location, b.end_location) {
        (Some(a_start), Some(a_end), Some(b_start), Some(b_end)) => a_start != b_start && (is_not_behind(
            a_end,
            b_start,
        ) || is_not_behind(b_end, a_start)),
        _ => false,
    }
}

/// Whether there are edits, each says what it puts where, and no two of them touch the same text.
pub fn fix_edits_are_complete_and_non_overlapping(edits: &Option<Vec<RuffEditView>>) -> (r: bool)
    ensures
        r == edits_fit(*edits),
{
    match edits {
        None => false,
        Some(v) => {
            if v.len() == 0 {
                return false;
            }
            let mut i: usize = 0;
            while i < v.len()
                invariant
                    i <= v.len(),
                    *edits == Some(*v),
                    forall|k: int| 0 <= k < i ==> complete_edit(#[trigger] v@[k]),
                decreases v.len() - i,
            {
                if !is_complete(&v[i]) {
                    assert(!complete_edit(v@[i as int]));
                    return false;
                }
                i = i + 1;
            }
            let mut j: usize = 0;
            while j < v.len()
                invariant
                    j <= v.len(),
                    *edits == Some(*v),
                    forall|k: int| 0 <= k < v.len() ==> complete_edit(#[trigger] v@[k]),
                    forall|a: int, b: int| 0 <= a < b < j ==> apart(#[trigger] v@[a], #[trigger] v@[b]),
                decreases v.len() - j,
            {
                let mut k: usize = 0;
                while k < j
                    invariant
                        k <= j < v.len(),
                        *edits == Some(*v),
                        forall|k: int| 0 <= k < v.len() ==> complete_edit(#[trigger] v@[k]),
                        forall|a: int| 0 <= a < k ==> apart(#[trigger] v@[a], v@[j as int]),
                    decreases j - k,
                {
                    if !are_apart(&v[k], &v[j]) {
                        assert(!apart(v@[k as int], v@[j as int]));
                        return false;
                    }
                    k = k + 1;
                }
                j = j + 1;
            }
            true
        },
    }
}

/// How far a fix may be applied: only what Ruff calls safe or unsafe, of a fix whose edits fit, is
/// more than a hint.
pub open spec fn applicability_of(fix: RuffFixView) -> Applicability {
    if !edits_fit(fix.edits) {
        Applicability::Manual
    } else {
        match fix.applicability {
            Some(word) => if word@ == "safe"@ {
                Applicability::Safe
            } else if word@ == "unsafe"@ {
                Applicability::Unsafe
            } else {
                Applicability::Manual
            },
            None => Applicability::Manual,
        }
    }
}

/// How far a fix may be applied.
pub fn candidate_applicability(fix: &RuffFixView) -> (r: Applicability)
    ensures
        r == applicability_of(*fix),
{
    if !fix_edits_are_complete_and_non_overlapping(&fix.edits) {
        return Applicability::Manual;
    }
    match &fix.applicability {
        Some(word) => if equal_texts(word.as_str(), "safe") {
            Applicability::Safe
        } else if equal_texts(word.as_str(), "unsafe") {
            Applicability::Unsafe
        } else {
            Applicability::Manual
        },
        None => Applicability::Manual,
    }
}

/// The severity that Ruff's word stands for.
pub open spec fn severity_of(word: Seq<char>) -> Option<Severity> {
    if word == "error"@ {
        Some(Severity::Error)
    } else if word == "warning"@ {
        Some(Severity::Warning)
    } else {
        None
    }
}

/// The severity that Ruff's word stands for.
pub fn normalize_severity(word: &str) -> (r: Option<Severity>)
    ensures
        r == severity_of(word@),
{
    proof {
        reveal_strlit("error");
        reveal_strlit("warning");
    }
    if equal_texts(word, "error") {
        Some(Severity::Error)
    } else if equal_texts(word, "warning") {
        Some(Severity::Warning)
    } else {
        None
    }
}

/// The patch of a fix: the tool's version, the file, the rule and the fix as Ruff wrote it.
pub open spec fn patch_text(version: Seq<char>, filename: Seq<char>, rule_id: Option<String>, fix_json: Seq<char>) -> Seq<
    char,
> {
    let body = Seq::<char>::empty();
    let body = json_member(body, "version"@, json_string(version));
    let body = json_member(body, "filename"@, json_string(filename));
    let body = json_member(body, "rule_id"@, json_nullable(optional_string(rule_id)));
    let body = json_member(body, "fix"@, fix_json);
    json_object(body)
}

/// The patch of a fix.
pub fn patch_content(version: &str, filename: &str, rule_id: &Option<String>, fix_json: &str) -> (r: String)
    ensures
        r@ == patch_text(version@, filename@, *rule_id, fix_json@),
{
    let mut body: Vec<char> = Vec::new();
    add_string(&mut body, "version", version);
    add_string(&mut body, "filename", filename);
    proof {
        assert(crate::json::optional_json(*rule_id) == optional_string(*rule_id));
    }
    add_nullable(&mut body, "rule_id", rule_id);
    let fix: Vec<char> = chars_of(fix_json);
    add_member(&mut body, "fix", fix.as_slice());
    let out: Vec<char> = object_json(body.as_slice());
    string_of(out.as_slice())
}

/// What the diagnostics of one run share.
pub struct RuffRun {
    pub tool_version: Seq<char>,
    pub root: Seq<char>,
    pub evidence_ids: Seq<Seq<char>>,
    pub emit_fixes: bool,
    /// What the protocol contract finds wrong with each event.
    pub violations: Seq<Option<String>>,
}

/// Why diagnostics cannot be taken.
pub enum RuffFault {
    PathEscape(Seq<char>),
    Severity(Seq<char>),
    Json(Seq<char>),
    FixEvidenceLimit { observed: nat, limit: nat },
    Event(EventFault),
}

/// The error says what the fault is.
pub open spec fn reports_ruff_fault(error: ProviderError, fault: RuffFault) -> bool {
    match fault {
        RuffFault::PathEscape(name) => error matches ProviderError::PathEscape(text) && text@ == name,
        RuffFault::Severity(word) => error matches ProviderError::RuffSeverity(text) && text@ == word,
        RuffFault::Json(message) => error matches ProviderError::RuffJson(text) && text@ == message,
        RuffFault::FixEvidenceLimit { observed, limit } => error matches ProviderError::FixEvidenceLimit {
            observed: o,
            limit: l,
        } && o == observed && l == limit,
        RuffFault::Event(event) => reports_event_fault(error, event),
    }
}

/// Where the provider stands: its builder, and how many events it has written.
pub struct Stand {
    pub builder: Builder,
    pub events: nat,
}

/// What the contract finds wrong with the event at `i`.
pub open spec fn violation_at(violations: Seq<Option<String>>, i: nat) -> Option<String> {
    if i < violations.len() {
        violations[i as int]
    } else {
        None
    }
}

/// The fix is proposed.
pub open spec fn proposes(d: RuffDiagnostic, run: RuffRun) -> bool {
    run.emit_fixes && d.fix is Some
}

/// The path of the diagnostic's file.
pub open spec fn path_of(d: RuffDiagnostic, run: RuffRun) -> Option<Seq<char>> {
    if d.path_refused {
        None
    } else {
        normalized_path(d.filename@, run.root)
    }
}

/// The patch that is proposed, in bytes.
pub open spec fn patch_bytes(d: RuffDiagnostic, run: RuffRun) -> Seq<u8> {
    encode_utf8(patch_text(run.tool_version, path_of(d, run).unwrap(), d.code, d.fix.unwrap().json@))
}

/// What keeps a diagnostic from being taken.
#[verifier::opaque]
pub open spec fn diagnostic_fault(d: RuffDiagnostic, at: Stand, run: RuffRun) -> Option<RuffFault> {
    let b = at.builder;
    if path_of(d, run) is None {
        Some(RuffFault::PathEscape(d.filename@))
    } else if severity_of(d.severity@) is None {
        Some(RuffFault::Severity(d.severity@))
    } else if b.next_id() is None {
        Some(RuffFault::Event(EventFault::Identifier))
    } else if proposes(d, run) && d.fix.unwrap().view is Err {
        Some(RuffFault::Json(d.fix.unwrap().view->Err_0@))
    } else {
        match observation_fault(b, violation_at(run.violations, at.events)) {
            Some(fault) => Some(RuffFault::Event(fault)),
            None => if !proposes(d, run) {
                None
            } else {
                let patch = patch_bytes(d, run);
                let b1 = b.with_observation();
                if patch.len() > b1.max_evidence_bytes {
                    Some(RuffFault::FixEvidenceLimit { observed: patch.len(), limit: b1.max_evidence_bytes as nat })
                } else {
                    match evidence_fault(b1, violation_at(run.violations, at.events + 1)) {
                        Some(fault) => Some(RuffFault::Event(fault)),
                        None => match evidence_fault(
                            b1.with_evidence(retained(patch, b1.max_evidence_bytes).len()),
                            violation_at(run.violations, at.events + 2),
                        ) {
                            Some(fault) => Some(RuffFault::Event(fault)),
                            None => None,
                        },
                    }
                }
            },
        }
    }
}

/// Where the provider stands after a diagnostic that could be taken.
#[verifier::opaque]
pub open spec fn after_diagnostic(d: RuffDiagnostic, at: Stand, run: RuffRun) -> Stand {
    let b1 = at.builder.with_observation();
    if proposes(d, run) {
        Stand {
            builder: b1.with_evidence(
                retained(patch_bytes(d, run), b1.max_evidence_bytes).len(),
            ).with_fix_candidate(),
            events: at.events + 3,
        }
    } else {
        Stand { builder: b1, events: at.events + 1 }
    }
}

/// Where the provider stands after the first `k` diagnostics.
pub open spec fn stand_after(diagnostics: Seq<RuffDiagnostic>, k: nat, start: Builder, run: RuffRun) -> Stand
    decreases k,
{
    if k == 0 {
        Stand { builder: start, events: 0 }
    } else {
        after_diagnostic(
            diagnostics[k - 1],
            stand_after(diagnostics, (k - 1) as nat, start, run),
            run,
        )
    }
}

/// What keeps the diagnostics from the `k`-th on from being taken.
pub open spec fn diagnostics_fault(diagnostics: Seq<RuffDiagnostic>, k: nat, start: Builder, run: RuffRun) -> Option<
    RuffFault,
>
    decreases diagnostics.len() - k,
{
    if k >= diagnostics.len() {
        None
    } else {
        match diagnostic_fault(diagnostics[k as int], stand_after(diagnostics, k, start, run), run) {
            Some(fault) => Some(fault),
            None => diagnostics_fault(diagnostics, k + 1, start, run),
        }
    }
}

/// The observation is that of the diagnostic.
pub open spec fn is_observation_of(o: Observation, d: RuffDiagnostic, id: Seq<char>, run: RuffRun) -> bool {
    &&& o.schema_version@ == OBSERVATION_SCHEMA@
    &&& o.observation_id@ == id
    &&& o.tool.name@ == "ruff"@
    &&& o.tool.version@ == run.tool_version
    &&& o.tool.rule_id == d.code
    &&& o.language@ == "python"@
    &&& severity_of(d.severity@) == Some(o.severity)
    &&& o.origin@ == NORMAL_ORIGIN@
    &&& o.message == d.message
    &&& o.location matches Some(location) && {
        &&& path_of(d, run) == Some(location.path@)
        &&& location.start == position_of(d.location)
        &&& location.end == (match d.end_location {
            Some(end) => Some(position_of(end)),
            None => None,
        })
    }
    &&& o.symbol is None
    &&& o.expected is None
    &&& o.observed is None
    &&& texts(o.evidence_ids@) == run.evidence_ids
}

/// The events from where the provider stood are those of the diagnostic.
#[verifier::opaque]
pub open spec fn events_of(events: Seq<ProtocolEvent>, d: RuffDiagnostic, at: Stand, run: RuffRun) -> bool {
    let b = at.builder;
    let i = at.events as int;
    let id = b.next_id().unwrap();
    &&& i < events.len()
    &&& events[i] matches ProtocolEvent::Observation(e) && e.request_id@ == b.request_id && e.sequence
        == b.next_sequence && is_observation_of(e.observation, d, id, run)
    &&& proposes(d, run) ==> {
        let b1 = b.with_observation();
        let patch = patch_bytes(d, run);
        let b2 = b1.with_evidence(retained(patch, b1.max_evidence_bytes).len());
        &&& i + 2 < events.len()
        &&& events[i + 1] matches ProtocolEvent::Evidence(e) && e.request_id@ == b.request_id && e.sequence
            == b1.next_sequence && is_evidence(
            e.evidence,
            b1,
            EvidenceSource::Patch,
            RUFF_FIX_MEDIA_TYPE@,
            patch,
            patch.len() as u64,
            d.fix.unwrap().digest@,
        )
        &&& events[i + 2] matches ProtocolEvent::FixCandidate(e) && e.request_id@ == b.request_id && e.sequence
            == b2.next_sequence && is_fix_candidate(
            e.fix_candidate,
            b2,
            id,
            applicability_of(d.fix.unwrap().view->Ok_0),
            b1.next_id().unwrap(),
        )
    }
}

/// The events are those of the diagnostics, one after the other.
pub open spec fn are_events_of(
    events: Seq<ProtocolEvent>,
    diagnostics: Seq<RuffDiagnostic>,
    start: Builder,
    run: RuffRun,
) -> bool {
    &&& events.len() == stand_after(diagnostics, diagnostics.len(), start, run).events
    &&& forall|k: int|
        0 <= k < diagnostics.len() ==> events_of(
            events,
            #[trigger] diagnostics[k],
            stand_after(diagnostics, k as nat, start, run),
            run,
        )
}

fn violation_of(violations: &Vec<Option<String>>, i: usize) -> (r: Option<String>)
    ensures
        r == violation_at(violations@, i as nat),
{
    if i >= violations.len() {
        return None;
    }
    match &violations[i] {
        Some(text) => Some(text.clone()),
        None => None,
    }
}

/// What the diagnostics of one run share.
pub open spec fn run_of(
    tool_version: Seq<char>,
    root: Seq<char>,
    evidence_ids: Vec<String>,
    emit_fixes: bool,
    violations: Vec<Option<String>>,
) -> RuffRun {
    RuffRun {
        tool_version,
        root,
        evidence_ids: texts(evidence_ids@),
        emit_fixes,
        violations: violations@,
    }
}

/// Writes the events of one diagnostic.
fn take_diagnostic(
    d: RuffDiagnostic,
    tool_version: &str,
    root: &str,
    evidence_ids: &Vec<String>,
    emit_fixes: bool,
    violations: &Vec<Option<String>>,
    builder: &mut CompletionBuilder,
    events: &mut Vec<ProtocolEvent>,
) -> (r: Result<(), ProviderError>)
    requires
        old(builder)@.wf(),
    ensures
        final(builder)@.wf(),
        ({
            let run = run_of(tool_version@, root@, *evidence_ids, emit_fixes, *violations);
            let at = Stand { builder: old(builder)@, events: old(events)@.len() };
            match diagnostic_fault(d, at, run) {
                Some(fault) => r matches Err(error) && reports_ruff_fault(error, fault),
                None => {
                    let next = after_diagnostic(d, at, run);
                    &&& r is Ok
                    &&& final(builder)@ == next.builder
                    &&& final(events)@.len() == next.events
                    &&& old(events)@.is_prefix_of(final(events)@)
                    &&& events_of(final(events)@, d, at, run)
                },
            }
        }),
{
    proof {
        reveal(diagnostic_fault);
        reveal(after_diagnostic);
        reveal(events_of);
    }
    let ghost run = run_of(tool_version@, root@, *evidence_ids, emit_fixes, *violations);
    let ghost at = Stand { builder: builder@, events: events@.len() };
    let ghost before = events@;
    if d.path_refused {
        return Err(ProviderError::PathEscape(d.filename));
    }
    let path: String = match normalize_path(d.filename.as_str(), root) {
        Some(path) => path,
        None => {
            return Err(ProviderError::PathEscape(d.filename));
        },
    };
    let severity: Severity = match normalize_severity(d.severity.as_str()) {
        Some(severity) => severity,
        None => {
            return Err(ProviderError::RuffSeverity(d.severity));
        },
    };
    let observation_id: String = match builder.next_id() {
        Some(id) => id,
        None => {
            return Err(ProviderError::Contract(NO_IDENTIFIER.to_owned()));
        },
    };
    let ghost id = observation_id@;
    let mut patch: Option<(String, String, Applicability)> = None;
    let ghost given = d;
    if emit_fixes {
        if let Some(fix) = d.fix {
            match fix.view {
                Err(message) => {
                    return Err(ProviderError::RuffJson(message));
                },
                Ok(view) => {
                    let content: String = patch_content(tool_version, path.as_str(), &d.code, fix.json.as_str());
                    let applicability: Applicability = candidate_applicability(&view);
                    patch = Some((content, fix.digest, applicability));
                },
            }
        }
    }
    let observation = Observation {
        schema_version: OBSERVATION_SCHEMA.to_owned(),
        observation_id: observation_id.clone(),
        tool: Tool { name: "ruff".to_owned(), version: tool_version.to_owned(), rule_id: d.code },
        language: "python".to_owned(),
        severity,
        origin: NORMAL_ORIGIN.to_owned(),
        message: d.message,
        location: Some(
            Location {
                path,
                start: Position { line: d.location.row, column: d.location.column },
                end: match d.end_location {
                    Some(end) => Some(Position { line: end.row, column: end.column }),
                    None => None,
                },
            },
        ),
        symbol: None,
        expected: None,
        observed: None,
        evidence_ids: copy_texts(evidence_ids),
    };
    assert(is_observation_of(observation, given, id, run));
    match builder.observation(observation, violation_of(violations, events.len())) {
        Err(error) => {
            return Err(error);
        },
        Ok(envelope) => {
            events.push(ProtocolEvent::Observation(envelope));
        },
    }
    if let Some((content, digest, applicability)) = patch {
        let patch_evidence_id: String;
        match builder.patch_evidence(content.as_str(), digest, violation_of(violations, events.len())) {
            Err(error) => {
                return Err(error);
            },
            Ok(envelope) => {
                patch_evidence_id = envelope.evidence.evidence_id.clone();
                events.push(ProtocolEvent::Evidence(envelope));
            },
        }
        match builder.fix_candidate(
            observation_id.as_str(),
            applicability,
            patch_evidence_id.as_str(),
            violation_of(violations, events.len()),
        ) {
            Err(error) => {
                return Err(error);
            },
            Ok(envelope) => {
                events.push(ProtocolEvent::FixCandidate(envelope));
            },
        }
    }
    proof {
        assert(before =~= events@.subrange(0, before.len() as int));
    }
    Ok(())
}

/// The events that Ruff's diagnostics came to.
#[derive(Clone, Debug, PartialEq, Eq)]
pub struct NormalizedRuff {
    pub events: Vec<ProtocolEvent>,
}

/// The builder is that of the request.
pub open spec fn belongs_to(builder: Builder, request: RequestEnvelope) -> bool {
    &&& builder.request_id == request.request_id@
    &&& builder.max_events == request.limits.max_events
    &&& builder.timeout_ms == request.limits.timeout_ms
    &&& builder.max_evidence_bytes == request.limits.max_evidence_bytes
}

/// What Ruff's output comes to.
pub open spec fn normalizes(
    r: Result<NormalizedRuff, ProviderError>,
    request: RequestEnvelope,
    input_len: nat,
    parsed: Result<Vec<RuffDiagnostic>, String>,
    run: RuffRun,
    before: Builder,
    after: Builder,
) -> bool {
    if !belongs_to(before, request) {
        &&& after == before
        &&& r matches Err(ProviderError::Contract(text)) && text@
            == "completion builder belongs to a different request"@
    } else if input_len > as_length(request.limits.max_stdout_bytes) {
        &&& after == before
        &&& r matches Err(ProviderError::InputLimit { limit }) && limit == as_length(request.limits.max_stdout_bytes)
    } else {
        match parsed {
            Err(message) => after == before && r == Err::<NormalizedRuff, ProviderError>(
                ProviderError::RuffJson(message),
            ),
            Ok(diagnostics) => if before.next_sequence + diagnostics.len() > request.limits.max_events {
                after == before && r == Err::<NormalizedRuff, ProviderError>(ProviderError::EventLimit)
            } else {
                match diagnostics_fault(diagnostics@, 0, before, run) {
                    Some(fault) => {
                        &&& after == before
                        &&& r matches Err(error) && reports_ruff_fault(error, fault)
                    },
                    None => {
                        &&& r matches Ok(normalized) && are_events_of(
                            normalized.events@,
                            diagnostics@,
                            before,
                            run,
                        )
                        &&& after == stand_after(diagnostics@, diagnostics.len() as nat, before, run).builder
                    },
                }
            },
        }
    }
}

/// The events written so far are those of the first `k` diagnostics.
spec fn events_so_far(
    events: Seq<ProtocolEvent>,
    diagnostics: Seq<RuffDiagnostic>,
    k: int,
    start: Builder,
    run: RuffRun,
) -> bool {
    forall|j: int|
        0 <= j < k ==> events_of(events, #[trigger] diagnostics[j], stand_after(diagnostics, j as nat, start, run), run)
}

/// Adding events behind them leaves the events of a diagnostic what they are.
proof fn lemma_events_extend(
    events: Seq<ProtocolEvent>,
    more: Seq<ProtocolEvent>,
    diagnostics: Seq<RuffDiagnostic>,
    k: int,
    start: Builder,
    run: RuffRun,
)
    requires
        0 <= k <= diagnostics.len(),
        events.is_prefix_of(more),
        events_so_far(events, diagnostics, k, start, run),
    ensures
        events_so_far(more, diagnostics, k, start, run),
{
    reveal(events_of);
    assert forall|j: int| 0 <= j < k implies events_of(
        more,
        #[trigger] diagnostics[j],
        stand_after(diagnostics, j as nat, start, run),
        run,
    ) by {
        let at = stand_after(diagnostics, j as nat, start, run);
        assert(events_of(events, diagnostics[j], at, run));
        let i = at.events as int;
        assert(more[i] == events[i]);
        if proposes(diagnostics[j], run) {
            assert(more[i + 1] == events[i + 1]);
            assert(more[i + 2] == events[i + 2]);
        }
    }
}

/// Writes the events of the diagnostics, one after the other.
fn take_diagnostics(
    diagnostics: Vec<RuffDiagnostic>,
    tool_version: &str,
    root: &str,
    evidence_ids: &Vec<String>,
    emit_fixes: bool,
    violations: &Vec<Option<String>>,
    staged: &mut CompletionBuilder,
) -> (r: Result<Vec<ProtocolEvent>, ProviderError>)
    requires
        old(staged)@.wf(),
    ensures
        final(staged)@.wf(),
        ({
            let run = run_of(tool_version@, root@, *evidence_ids, emit_fixes, *violations);
            match diagnostics_fault(diagnostics@, 0, old(staged)@, run) {
                Some(fault) => r matches Err(error) && reports_ruff_fault(error, fault),
                None => {
                    &&& r matches Ok(events) && are_events_of(events@, diagnostics@, old(staged)@, run)
                    &&& final(staged)@ == stand_after(
                        diagnostics@,
                        diagnostics.len() as nat,
                        old(staged)@,
                        run,
                    ).builder
                },
            }
        }),
{
    let ghost run = run_of(tool_version@, root@, *evidence_ids, emit_fixes, *violations);
    let ghost all = diagnostics@;
    let ghost start = staged@;
    let mut events: Vec<ProtocolEvent> = Vec::new();
    for d in it: diagnostics.into_iter()
        invariant
            it.seq() == all,
            all == diagnostics@,
            staged@.wf(),
            start == old(staged)@,
            run == run_of(tool_version@, root@, *evidence_ids, emit_fixes, *violations),
            staged@ == stand_after(all, it.index() as nat, start, run).builder,
            events@.len() == stand_after(all, it.index() as nat, start, run).events,
            events_so_far(events@, all, it.index() as int, start, run),
            diagnostics_fault(all, 0, start, run) == diagnostics_fault(all, it.index() as nat, start, run),
    {
        let ghost k = it.index() as nat;
        let ghost before = events@;
        assert(d == all[k as int]);
        match take_diagnostic(d, tool_version, root, evidence_ids, emit_fixes, violations, staged, &mut events) {
            Err(error) => {
                return Err(error);
            },
            Ok(()) => {
                proof {
                    lemma_events_extend(before, events@, all, k as int, start, run);
                }
            },
        }
    }
    Ok(events)
}

/// Normalizes Ruff's output, with Ruff's own severity kept. `parsed` is what the JSON parser makes
/// of the output. Where a diagnostic cannot be taken, none is: the builder stays what it was.
pub fn normalize_ruff_json(
    request: &RequestEnvelope,
    tool_version: &str,
    repository_root: &str,
    input: &[u8],
    parsed: Result<Vec<RuffDiagnostic>, String>,
    evidence_ids: &Vec<String>,
    violations: &Vec<Option<String>>,
    completion: &mut CompletionBuilder,
) -> (r: Result<NormalizedRuff, ProviderError>)
    requires
        old(completion)@.wf(),
    ensures
        final(completion)@.wf(),
        normalizes(
            r,
            *request,
            input@.len(),
            parsed,
            run_of(
                tool_version@,
                repository_root@,
                *evidence_ids,
                negotiates(*request, FIX_CAPABILITY@),
                *violations,
            ),
            old(completion)@,
            final(completion)@,
        ),
{
    if !equal_texts(completion.request_id.as_str(), request.request_id.as_str()) || completion.max_events
        != request.limits.max_events || completion.timeout_ms != request.limits.timeout_ms
        || completion.max_evidence_bytes as u64 != request.limits.max_evidence_bytes {
        return Err(ProviderError::Contract("completion builder belongs to a different request".to_owned()));
    }
    let limit: usize = if request.limits.max_stdout_bytes > usize::MAX as u64 {
        usize::MAX
    } else {
        request.limits.max_stdout_bytes as usize
    };
    if input.len() > limit {
        return Err(ProviderError::InputLimit { limit });
    }
    let diagnostics: Vec<RuffDiagnostic> = match parsed {
        Err(message) => {
            return Err(ProviderError::RuffJson(message));
        },
        Ok(diagnostics) => diagnostics,
    };
    if diagnostics.len() as u64 > request.limits.max_events || completion.next_sequence > request.limits.max_events
        - diagnostics.len() as u64 {
        return Err(ProviderError::EventLimit);
    }
    let emit_fixes: bool = request_negotiates(request, FIX_CAPABILITY);
    let mut staged: CompletionBuilder = completion.duplicate();
    match take_diagnostics(
        diagnostics,
        tool_version,
        repository_root,
        evidence_ids,
        emit_fixes,
        violations,
        &mut staged,
    ) {
        Err(error) => Err(error),
        Ok(events) => {
            *completion = staged;
            Ok(NormalizedRuff { events })
        },
    }
}

/// A clean output has no events and changes nothing.
pub proof fn law_clean_output_has_no_events(start: Builder, run: RuffRun)
    ensures
        diagnostics_fault(Seq::empty(), 0, start, run) is None,
        stand_after(Seq::empty(), 0, start, run) == (Stand { builder: start, events: 0 }),
{
}

/// Every event is written for a diagnostic: one for each, and two more for each fix that is
/// proposed; the builder's number moves on by as many.
pub proof fn law_events_are_numbered_through(diagnostics: Seq<RuffDiagnostic>, k: nat, start: Builder, run: RuffRun)
    requires
        k <= diagnostics.len(),
        start.next_sequence + 3 * k <= u64::MAX,
    ensures
        stand_after(diagnostics, k, start, run).builder.next_sequence == start.next_sequence + stand_after(
            diagnostics,
            k,
            start,
            run,
        ).events,
        k <= stand_after(diagnostics, k, start, run).events <= 3 * k,
    decreases k,
{
    reveal(after_diagnostic);
    if k > 0 {
        law_events_are_numbered_through(diagnostics, (k - 1) as nat, start, run);
    }
}

} // verus!
