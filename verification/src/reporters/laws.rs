//! What the draft of a bug issue shows of a report.
use super::draft::{drafts_of, holds, BugIssueDraftV1, Record};
use super::records::{
    decision_projection, execution_projection, finding_projection, id_views, sorted_id_views, tool_projection,
    BugDecisionV1, BugEvidenceRefV1, BugExecutionV1, BugFindingV1, BugToolV1,
};
use crate::model::{Decision, Evidence, Execution, Finding, SessionReport, Tool};
use crate::order::{arranged, lemma_arranged_members, lemma_arranged_texts};
use crate::process::invocation::texts;
use crate::sanitize::{law_sanitized_text_is_safe, sanitized};
use crate::sanitize::marks::unsafe_kind;
use crate::sanitize::redact::SanitizationMode;
use vstd::prelude::*;
use vstd::string::*;

verus! {

/// The text is what sanitizing makes of the source as external text, and holds nothing unsafe.
pub open spec fn shows_text(text: Seq<char>, source: Seq<char>) -> bool {
    &&& text == sanitized(source, SanitizationMode::ExternalText)
    &&& forall|k: int| 0 <= k < text.len() ==> unsafe_kind(#[trigger] text[k]) is None
}

/// The text is what sanitizing makes of the source as a path of the repository, and holds nothing unsafe.
pub open spec fn shows_path(text: Seq<char>, source: Seq<char>) -> bool {
    &&& text == sanitized(source, SanitizationMode::RepositoryPath)
    &&& forall|k: int| 0 <= k < text.len() ==> unsafe_kind(#[trigger] text[k]) is None
}

/// There is a text where there is a source, and it shows it.
pub open spec fn shows_optional(text: Option<String>, source: Option<String>) -> bool {
    match (text, source) {
        (Some(text), Some(source)) => shows_text(text@, source@),
        (None, None) => true,
        _ => false,
    }
}

/// There is a path where there is a source, and it shows it.
pub open spec fn shows_optional_path(text: Option<String>, source: Option<String>) -> bool {
    match (text, source) {
        (Some(text), Some(source)) => shows_path(text@, source@),
        (None, None) => true,
        _ => false,
    }
}

/// The identifiers are the same, each as often.
pub open spec fn lists_ids(ids: Seq<String>, source: Seq<String>) -> bool {
    texts(ids).to_multiset() == texts(source).to_multiset()
}

/// The draft's tool shows the report's.
pub open spec fn shows_tool(d: BugToolV1, tool: Tool) -> bool {
    &&& shows_text(d.name@, tool.name@)
    &&& shows_text(d.version@, tool.version@)
    &&& shows_optional(d.rule_id, tool.rule_id)
}

/// The draft's execution shows the report's.
pub open spec fn shows_execution(d: BugExecutionV1, e: Execution) -> bool {
    &&& d.execution_id@ == e.execution_id@
    &&& d.adapter_id@ == e.adapter_id@
    &&& d.adapter_kind == e.adapter_kind
    &&& shows_tool(d.tool, e.tool)
    &&& d.required == e.required
    &&& d.status == e.status
    &&& d.exit_code == e.exit_code
    &&& shows_optional(d.message, e.message)
}

/// The draft's finding shows the report's.
pub open spec fn shows_finding(d: BugFindingV1, f: Finding) -> bool {
    &&& d.finding_id@ == f.finding_id@
    &&& d.fingerprint@ == f.fingerprint@
    &&& lists_ids(d.observation_ids@, f.observation_ids@)
    &&& shows_tool(d.tool, f.tool)
    &&& d.language@ == f.language@
    &&& d.severity == f.severity
    &&& d.taxonomy.category@ == f.classification.category@
    &&& d.taxonomy.micro_category@ == f.classification.micro_category@
    &&& shows_text(d.message@, f.message@)
    &&& match (d.location, f.location) {
        (Some(place), Some(source)) => shows_path(place.path@, source.path@) && place.start == source.start && place.end
            == source.end,
        (None, None) => true,
        _ => false,
    }
    &&& shows_optional(d.symbol, f.symbol)
    &&& shows_optional(d.expected, f.expected)
    &&& shows_optional(d.observed, f.observed)
    &&& lists_ids(d.evidence_ids@, f.evidence_ids@)
}

/// The draft's decision shows the report's, with its waiver.
pub open spec fn shows_decision(d: BugDecisionV1, source: Decision) -> bool {
    &&& d.decision_id@ == source.decision_id@
    &&& d.finding_id@ == source.finding_id@
    &&& d.action == source.action
    &&& shows_text(d.evaluated_at@, source.evaluated_at@)
    &&& shows_text(d.matched_rule_id@, source.matched_rule_id@)
    &&& match (d.waiver, source.waiver) {
        (Some(w), Some(v)) => {
            &&& w.fingerprint@ == v.fingerprint@
            &&& w.waived_action == v.waived_action
            &&& shows_text(w.reason@, v.reason@)
            &&& shows_text(w.owner@, v.owner@)
            &&& shows_text(w.expires_at@, v.expires_at@)
        },
        (None, None) => true,
        _ => false,
    }
}

/// The draft's reference to evidence shows the report's evidence.
pub open spec fn shows_evidence(d: BugEvidenceRefV1, e: Evidence) -> bool {
    &&& d.evidence_id@ == e.evidence_id@
    &&& match (d.execution_id, e.execution_id) {
        (Some(id), Some(source)) => id@ == source@,
        (None, None) => true,
        _ => false,
    }
    &&& d.source.word() == e.source.word()
    &&& d.sha256@ == e.sha256@
    &&& shows_optional_path(d.relative_path, e.relative_path)
}

proof fn lemma_drafted<T: Record>(v: Seq<T>, d: Seq<T::Draft>, max: nat, i: int)
    requires
        drafts_of(v, d, max),
        0 <= i < d.len(),
    ensures
        arranged(v)[i].drafted(max) == Some(d[i]@),
{
    assert(holds(arranged(v)[i].drafted(max), d[i]@));
}

proof fn lemma_tool(d: BugToolV1, tool: Tool, max: nat)
    requires
        tool_projection(tool, max) == Some(d@),
    ensures
        shows_tool(d, tool),
{
    law_sanitized_text_is_safe(tool.name@, SanitizationMode::ExternalText);
    law_sanitized_text_is_safe(tool.version@, SanitizationMode::ExternalText);
    if let Some(rule) = tool.rule_id {
        law_sanitized_text_is_safe(rule@, SanitizationMode::ExternalText);
    }
}

proof fn lemma_execution(d: BugExecutionV1, e: Execution, max: nat)
    requires
        execution_projection(e, max) == Some(d@),
    ensures
        shows_execution(d, e),
{
    lemma_tool(d.tool, e.tool, max);
    if let Some(message) = e.message {
        law_sanitized_text_is_safe(message@, SanitizationMode::ExternalText);
    }
}

proof fn lemma_ids(ids: Seq<String>, source: Seq<String>)
    requires
        id_views(ids) == sorted_id_views(source),
    ensures
        lists_ids(ids, source),
{
    lemma_arranged_texts(source);
    assert(texts(ids) =~= id_views(ids));
    assert(texts(arranged(source)) =~= id_views(arranged(source)));
}

proof fn lemma_finding(d: BugFindingV1, f: Finding, max: nat)
    requires
        finding_projection(f, max) == Some(d@),
    ensures
        shows_finding(d, f),
{
    lemma_tool(d.tool, f.tool, max);
    lemma_ids(d.observation_ids@, f.observation_ids@);
    lemma_ids(d.evidence_ids@, f.evidence_ids@);
    law_sanitized_text_is_safe(f.message@, SanitizationMode::ExternalText);
    if let Some(place) = f.location {
        law_sanitized_text_is_safe(place.path@, SanitizationMode::RepositoryPath);
    }
    if let Some(text) = f.symbol {
        law_sanitized_text_is_safe(text@, SanitizationMode::ExternalText);
    }
    if let Some(text) = f.expected {
        law_sanitized_text_is_safe(text@, SanitizationMode::ExternalText);
    }
    if let Some(text) = f.observed {
        law_sanitized_text_is_safe(text@, SanitizationMode::ExternalText);
    }
}

proof fn lemma_decision(d: BugDecisionV1, source: Decision, max: nat)
    requires
        decision_projection(source, max) == Some(d@),
    ensures
        shows_decision(d, source),
{
    law_sanitized_text_is_safe(source.evaluated_at@, SanitizationMode::ExternalText);
    law_sanitized_text_is_safe(source.matched_rule_id@, SanitizationMode::ExternalText);
    if let Some(waiver) = source.waiver {
        law_sanitized_text_is_safe(waiver.reason@, SanitizationMode::ExternalText);
        law_sanitized_text_is_safe(waiver.owner@, SanitizationMode::ExternalText);
        law_sanitized_text_is_safe(waiver.expires_at@, SanitizationMode::ExternalText);
    }
}

/// Every free text that a draft shows of an execution is the sanitized form of the text of the report's
/// execution with that identifier, and holds no unsafe character; the rest is as the report has it. Each
/// execution of the report is shown.
pub proof fn law_draft_shows_executions_sanitized(draft: BugIssueDraftV1, report: SessionReport, max: nat)
    requires
        draft.is_draft_of(report, max),
    ensures
        draft.executions.len() == report.executions.len(),
        forall|i: int|
            0 <= i < draft.executions.len() ==> exists|j: int|
                0 <= j < report.executions.len() && shows_execution(
                    #[trigger] draft.executions@[i],
                    #[trigger] report.executions@[j],
                ),
        forall|j: int|
            0 <= j < report.executions.len() ==> exists|i: int|
                0 <= i < draft.executions.len() && shows_execution(
                    #[trigger] draft.executions@[i],
                    #[trigger] report.executions@[j],
                ),
{
    let (v, d) = (report.executions@, draft.executions@);
    lemma_arranged_members(v);
    assert forall|i: int| 0 <= i < d.len() implies shows_execution(#[trigger] d[i], arranged(v)[i]) by {
        lemma_drafted(v, d, max, i);
        lemma_execution(d[i], arranged(v)[i], max);
    }
    assert forall|i: int| 0 <= i < d.len() implies exists|j: int|
        0 <= j < v.len() && shows_execution(#[trigger] d[i], #[trigger] v[j]) by {
        let j = choose|j: int| 0 <= j < v.len() && v[j] == arranged(v)[i];
        assert(shows_execution(d[i], v[j]));
    }
    assert forall|j: int| 0 <= j < v.len() implies exists|i: int|
        0 <= i < d.len() && shows_execution(#[trigger] d[i], #[trigger] v[j]) by {
        let i = choose|i: int| 0 <= i < v.len() && arranged(v)[i] == v[j];
        assert(shows_execution(d[i], v[j]));
    }
}

/// Every free text that a draft shows of a finding is the sanitized form of the text of the report's finding
/// with that identifier, and holds no unsafe character; the rest is as the report has it. Each finding of
/// the report is shown.
pub proof fn law_draft_shows_findings_sanitized(draft: BugIssueDraftV1, report: SessionReport, max: nat)
    requires
        draft.is_draft_of(report, max),
    ensures
        draft.findings.len() == report.findings.len(),
        forall|i: int|
            0 <= i < draft.findings.len() ==> exists|j: int|
                0 <= j < report.findings.len() && shows_finding(
                    #[trigger] draft.findings@[i],
                    #[trigger] report.findings@[j],
                ),
        forall|j: int|
            0 <= j < report.findings.len() ==> exists|i: int|
                0 <= i < draft.findings.len() && shows_finding(
                    #[trigger] draft.findings@[i],
                    #[trigger] report.findings@[j],
                ),
{
    let (v, d) = (report.findings@, draft.findings@);
    lemma_arranged_members(v);
    assert forall|i: int| 0 <= i < d.len() implies shows_finding(#[trigger] d[i], arranged(v)[i]) by {
        lemma_drafted(v, d, max, i);
        lemma_finding(d[i], arranged(v)[i], max);
    }
    assert forall|i: int| 0 <= i < d.len() implies exists|j: int|
        0 <= j < v.len() && shows_finding(#[trigger] d[i], #[trigger] v[j]) by {
        let j = choose|j: int| 0 <= j < v.len() && v[j] == arranged(v)[i];
        assert(shows_finding(d[i], v[j]));
    }
    assert forall|j: int| 0 <= j < v.len() implies exists|i: int|
        0 <= i < d.len() && shows_finding(#[trigger] d[i], #[trigger] v[j]) by {
        let i = choose|i: int| 0 <= i < v.len() && arranged(v)[i] == v[j];
        assert(shows_finding(d[i], v[j]));
    }
}

/// Every free text that a draft shows of a decision and of its waiver is the sanitized form of the text of the
/// report's decision with that identifier, and holds no unsafe character; the rest is as the report has
/// it. Each decision of the report is shown.
pub proof fn law_draft_shows_decisions_sanitized(draft: BugIssueDraftV1, report: SessionReport, max: nat)
    requires
        draft.is_draft_of(report, max),
    ensures
        draft.decisions.len() == report.decisions.len(),
        forall|i: int|
            0 <= i < draft.decisions.len() ==> exists|j: int|
                0 <= j < report.decisions.len() && shows_decision(
                    #[trigger] draft.decisions@[i],
                    #[trigger] report.decisions@[j],
                ),
        forall|j: int|
            0 <= j < report.decisions.len() ==> exists|i: int|
                0 <= i < draft.decisions.len() && shows_decision(
                    #[trigger] draft.decisions@[i],
                    #[trigger] report.decisions@[j],
                ),
{
    let (v, d) = (report.decisions@, draft.decisions@);
    lemma_arranged_members(v);
    assert forall|i: int| 0 <= i < d.len() implies shows_decision(#[trigger] d[i], arranged(v)[i]) by {
        lemma_drafted(v, d, max, i);
        lemma_decision(d[i], arranged(v)[i], max);
    }
    assert forall|i: int| 0 <= i < d.len() implies exists|j: int|
        0 <= j < v.len() && shows_decision(#[trigger] d[i], #[trigger] v[j]) by {
        let j = choose|j: int| 0 <= j < v.len() && v[j] == arranged(v)[i];
        assert(shows_decision(d[i], v[j]));
    }
    assert forall|j: int| 0 <= j < v.len() implies exists|i: int|
        0 <= i < d.len() && shows_decision(#[trigger] d[i], #[trigger] v[j]) by {
        let i = choose|i: int| 0 <= i < v.len() && arranged(v)[i] == v[j];
        assert(shows_decision(d[i], v[j]));
    }
}

/// The path that a draft shows of a piece of evidence is the sanitized form of the path of the report's
/// evidence with that identifier, and holds no unsafe character; the rest is as the report has it. Each
/// piece of evidence of the report is shown.
pub proof fn law_draft_shows_evidence_sanitized(draft: BugIssueDraftV1, report: SessionReport, max: nat)
    requires
        draft.is_draft_of(report, max),
    ensures
        draft.evidence.len() == report.evidence.len(),
        forall|i: int|
            0 <= i < draft.evidence.len() ==> exists|j: int|
                0 <= j < report.evidence.len() && shows_evidence(
                    #[trigger] draft.evidence@[i],
                    #[trigger] report.evidence@[j],
                ),
        forall|j: int|
            0 <= j < report.evidence.len() ==> exists|i: int|
                0 <= i < draft.evidence.len() && shows_evidence(
                    #[trigger] draft.evidence@[i],
                    #[trigger] report.evidence@[j],
                ),
{
    let (v, d) = (report.evidence@, draft.evidence@);
    lemma_arranged_members(v);
    assert forall|i: int| 0 <= i < d.len() implies shows_evidence(#[trigger] d[i], arranged(v)[i]) by {
        lemma_drafted(v, d, max, i);
        if let Some(path) = arranged(v)[i].relative_path {
            law_sanitized_text_is_safe(path@, SanitizationMode::RepositoryPath);
        }
    }
    assert forall|i: int| 0 <= i < d.len() implies exists|j: int|
        0 <= j < v.len() && shows_evidence(#[trigger] d[i], #[trigger] v[j]) by {
        let j = choose|j: int| 0 <= j < v.len() && v[j] == arranged(v)[i];
        assert(shows_evidence(d[i], v[j]));
    }
    assert forall|j: int| 0 <= j < v.len() implies exists|i: int|
        0 <= i < d.len() && shows_evidence(#[trigger] d[i], #[trigger] v[j]) by {
        let i = choose|i: int| 0 <= i < v.len() && arranged(v)[i] == v[j];
        assert(shows_evidence(d[i], v[j]));
    }
}

} // verus!
