//! The typed, sanitized projection of a report that a bug issue draft is made of.
use crate::config::runtime::WaivedAction;
use crate::json::{
    add_bool, add_member, add_nullable, add_string, add_value, json_bool, json_list, json_member, json_nullable,
    json_object, json_string, list_json, object_json, ToJson,
};
use crate::model::{
    AdapterKind, Decision, DecisionAction, Evidence, EvidenceSource, Execution, ExecutionStatus, Finding, Location,
    Position, Severity, Tool, Waiver,
};
use crate::numeral::decimal;
use crate::order::{arranged, arrangement};
use crate::sanitize::{sanitize_external_text, sanitize_repository_path_text, sanitized, sanitizes_within};
use crate::sanitize::redact::SanitizationMode;
use vstd::prelude::*;

verus! {

/// Stable schema identity of the bug issue draft.
pub const BUG_ISSUE_DRAFT_SCHEMA_VERSION: &'static str = "diagnostic-triage.bug-issue-draft/v1";

/// The only label that a bug issue draft proposes.
pub const BUG_ISSUE_LABEL: &'static str = "bug";

/// The text, sanitized as external text, where it stays within the limit.
pub open spec fn clean(s: Seq<char>, max: nat) -> Option<Seq<char>> {
    if sanitizes_within(s, SanitizationMode::ExternalText, max) {
        Some(sanitized(s, SanitizationMode::ExternalText))
    } else {
        None
    }
}

/// The text, sanitized as a repository path, where it stays within the limit.
pub open spec fn clean_path(s: Seq<char>, max: nat) -> Option<Seq<char>> {
    if sanitizes_within(s, SanitizationMode::RepositoryPath, max) {
        Some(sanitized(s, SanitizationMode::RepositoryPath))
    } else {
        None
    }
}

/// The text, where there is one, sanitized as external text.
pub open spec fn clean_optional(s: Option<String>, max: nat) -> Option<Option<Seq<char>>> {
    match s {
        None => Some(None),
        Some(text) => match clean(text@, max) {
            None => None,
            Some(c) => Some(Some(c)),
        },
    }
}

/// The path, where there is one, sanitized as a repository path.
pub open spec fn clean_optional_path(s: Option<String>, max: nat) -> Option<Option<Seq<char>>> {
    match s {
        None => Some(None),
        Some(text) => match clean_path(text@, max) {
            None => None,
            Some(c) => Some(Some(c)),
        },
    }
}

fn text(value: &str, max: usize) -> (r: Option<String>)
    ensures
        match r {
            Some(s) => clean(value@, max as nat) == Some(s@),
            None => clean(value@, max as nat) is None,
        },
{
    match sanitize_external_text(value, max) {
        Ok(s) => Some(s.as_str().to_owned()),
        Err(_) => None,
    }
}

fn path_text(value: &str, max: usize) -> (r: Option<String>)
    ensures
        match r {
            Some(s) => clean_path(value@, max as nat) == Some(s@),
            None => clean_path(value@, max as nat) is None,
        },
{
    match sanitize_repository_path_text(value, max) {
        Ok(s) => Some(s.as_str().to_owned()),
        Err(_) => None,
    }
}

/// The text of an optional string.
pub open spec fn opt_view(value: Option<String>) -> Option<Seq<char>> {
    match value {
        Some(s) => Some(s@),
        None => None,
    }
}

fn optional_text(value: &Option<String>, max: usize) -> (r: Option<Option<String>>)
    ensures
        match r {
            Some(s) => clean_optional(*value, max as nat) == Some(opt_view(s)),
            None => clean_optional(*value, max as nat) is None,
        },
{
    match value {
        None => Some(None),
        Some(s) => match text(s.as_str(), max) {
            None => None,
            Some(c) => Some(Some(c)),
        },
    }
}

fn optional_path(value: &Option<String>, max: usize) -> (r: Option<Option<String>>)
    ensures
        match r {
            Some(s) => clean_optional_path(*value, max as nat) == Some(opt_view(s)),
            None => clean_optional_path(*value, max as nat) is None,
        },
{
    match value {
        None => Some(None),
        Some(s) => match path_text(s.as_str(), max) {
            None => None,
            Some(c) => Some(Some(c)),
        },
    }
}

/// The texts of the strings.
pub open spec fn id_views(ids: Seq<String>) -> Seq<Seq<char>> {
    Seq::new(ids.len(), |i: int| ids[i]@)
}

/// The strings of a list, as JSON.
pub open spec fn id_jsons(ids: Seq<Seq<char>>) -> Seq<Seq<char>> {
    Seq::new(ids.len(), |i: int| json_string(ids[i]))
}

/// The identifiers in order.
pub open spec fn sorted_id_views(ids: Seq<String>) -> Seq<Seq<char>> {
    id_views(arranged(ids))
}

fn sorted_ids(ids: &Vec<String>) -> (r: Vec<String>)
    ensures
        id_views(r@) == sorted_id_views(ids@),
{
    let order: Vec<usize> = arrangement(ids);
    let mut out: Vec<String> = Vec::new();
    let mut i: usize = 0;
    while i < order.len()
        invariant
            i <= order.len(),
            order.len() == arranged(ids@).len(),
            forall|k: int|
                0 <= k < order.len() ==> #[trigger] order@[k] < ids.len() && ids@[order@[k] as int] == arranged(ids@)[k],
            out@ == arranged(ids@).take(i as int),
        decreases order.len() - i,
    {
        out.push(ids[order[i]].clone());
        i = i + 1;
    }
    assert(arranged(ids@).take(arranged(ids@).len() as int) =~= arranged(ids@));
    out
}

fn ids_json(ids: &Vec<String>) -> (r: Vec<char>)
    ensures
        r@ == json_list(id_jsons(id_views(ids@))),
{
    assert(crate::json::jsons(ids@) =~= id_jsons(id_views(ids@)));
    list_json(ids)
}

fn copy_optional(value: &Option<String>) -> (r: Option<String>)
    ensures
        opt_view(r) == opt_view(*value),
{
    match value {
        Some(s) => Some(s.clone()),
        None => None,
    }
}

fn copy_source(source: &EvidenceSource) -> (r: EvidenceSource)
    ensures
        r.word() == source.word(),
{
    match source {
        EvidenceSource::Stdout => EvidenceSource::Stdout,
        EvidenceSource::Stderr => EvidenceSource::Stderr,
        EvidenceSource::Patch => EvidenceSource::Patch,
        EvidenceSource::Other(name) => EvidenceSource::Other(name.clone()),
    }
}

/// The tool that a finding or an execution speaks of.
#[derive(Clone, Debug, PartialEq, Eq)]
pub struct BugToolV1 {
    pub name: String,
    pub version: String,
    pub rule_id: Option<String>,
}

/// What a `BugToolV1` holds.
pub struct BugTool {
    pub name: Seq<char>,
    pub version: Seq<char>,
    pub rule_id: Option<Seq<char>>,
}

impl View for BugToolV1 {
    type V = BugTool;

    open spec fn view(&self) -> BugTool {
        BugTool {
            name: self.name@,
            version: self.version@,
            rule_id: opt_view(self.rule_id),
        }
    }
}

impl BugTool {
    /// Its JSON form.
    #[verifier::opaque]
    pub open spec fn json(self) -> Seq<char> {
        let body = Seq::<char>::empty();
        let body = json_member(body, "name"@, json_string(self.name));
        let body = json_member(body, "version"@, json_string(self.version));
        let body = json_member(body, "rule_id"@, json_nullable(match self.rule_id { Some(s) => Some(json_string(s)), None => None }));
        json_object(body)
    }
}

impl ToJson for BugToolV1 {
    open spec fn json(&self) -> Seq<char> {
        self@.json()
    }

    fn write_json(&self) -> (r: Vec<char>) {
        proof {
            reveal(BugTool::json);
        }
        let mut body: Vec<char> = Vec::new();
        add_string(&mut body, "name", self.name.as_str());
        add_string(&mut body, "version", self.version.as_str());
        add_nullable(&mut body, "rule_id", &self.rule_id);
        object_json(body.as_slice())
    }
}

/// Where a finding stands.
#[derive(Clone, Debug, PartialEq, Eq)]
pub struct BugLocationV1 {
    pub path: String,
    pub start: Position,
    pub end: Option<Position>,
}

/// What a `BugLocationV1` holds.
pub struct BugLocation {
    pub path: Seq<char>,
    pub start: Position,
    pub end: Option<Position>,
}

impl View for BugLocationV1 {
    type V = BugLocation;

    open spec fn view(&self) -> BugLocation {
        BugLocation {
            path: self.path@,
            start: self.start,
            end: self.end,
        }
    }
}

impl BugLocation {
    /// Its JSON form.
    #[verifier::opaque]
    pub open spec fn json(self) -> Seq<char> {
        let body = Seq::<char>::empty();
        let body = json_member(body, "path"@, json_string(self.path));
        let body = json_member(body, "start"@, self.start.json());
        let body = json_member(body, "end"@, json_nullable(match self.end { Some(x) => Some(x.json()), None => None }));
        json_object(body)
    }
}

impl ToJson for BugLocationV1 {
    open spec fn json(&self) -> Seq<char> {
        self@.json()
    }

    fn write_json(&self) -> (r: Vec<char>) {
        proof {
            reveal(BugLocation::json);
        }
        let mut body: Vec<char> = Vec::new();
        add_string(&mut body, "path", self.path.as_str());
        add_value(&mut body, "start", &self.start);
        add_nullable(&mut body, "end", &self.end);
        object_json(body.as_slice())
    }
}

/// How a finding is classified.
#[derive(Clone, Debug, PartialEq, Eq)]
pub struct BugTaxonomyV1 {
    pub category: String,
    pub micro_category: String,
}

/// What a `BugTaxonomyV1` holds.
pub struct BugTaxonomy {
    pub category: Seq<char>,
    pub micro_category: Seq<char>,
}

impl View for BugTaxonomyV1 {
    type V = BugTaxonomy;

    open spec fn view(&self) -> BugTaxonomy {
        BugTaxonomy {
            category: self.category@,
            micro_category: self.micro_category@,
        }
    }
}

impl BugTaxonomy {
    /// Its JSON form.
    #[verifier::opaque]
    pub open spec fn json(self) -> Seq<char> {
        let body = Seq::<char>::empty();
        let body = json_member(body, "category"@, json_string(self.category));
        let body = json_member(body, "micro_category"@, json_string(self.micro_category));
        json_object(body)
    }
}

impl ToJson for BugTaxonomyV1 {
    open spec fn json(&self) -> Seq<char> {
        self@.json()
    }

    fn write_json(&self) -> (r: Vec<char>) {
        proof {
            reveal(BugTaxonomy::json);
        }
        let mut body: Vec<char> = Vec::new();
        add_string(&mut body, "category", self.category.as_str());
        add_string(&mut body, "micro_category", self.micro_category.as_str());
        object_json(body.as_slice())
    }
}

/// A finding of a draft.
#[derive(Clone, Debug, PartialEq, Eq)]
pub struct BugFindingV1 {
    pub finding_id: String,
    pub fingerprint: String,
    pub observation_ids: Vec<String>,
    pub tool: BugToolV1,
    pub language: String,
    pub severity: Severity,
    pub taxonomy: BugTaxonomyV1,
    pub message: String,
    pub location: Option<BugLocationV1>,
    pub symbol: Option<String>,
    pub expected: Option<String>,
    pub observed: Option<String>,
    pub evidence_ids: Vec<String>,
}

/// What a `BugFindingV1` holds.
pub struct BugFinding {
    pub finding_id: Seq<char>,
    pub fingerprint: Seq<char>,
    pub observation_ids: Seq<Seq<char>>,
    pub tool: BugTool,
    pub language: Seq<char>,
    pub severity: Severity,
    pub taxonomy: BugTaxonomy,
    pub message: Seq<char>,
    pub location: Option<BugLocation>,
    pub symbol: Option<Seq<char>>,
    pub expected: Option<Seq<char>>,
    pub observed: Option<Seq<char>>,
    pub evidence_ids: Seq<Seq<char>>,
}

impl View for BugFindingV1 {
    type V = BugFinding;

    open spec fn view(&self) -> BugFinding {
        BugFinding {
            finding_id: self.finding_id@,
            fingerprint: self.fingerprint@,
            observation_ids: id_views(self.observation_ids@),
            tool: self.tool@,
            language: self.language@,
            severity: self.severity,
            taxonomy: self.taxonomy@,
            message: self.message@,
            location: match self.location {
                Some(x) => Some(x@),
                None => None,
            },
            symbol: opt_view(self.symbol),
            expected: opt_view(self.expected),
            observed: opt_view(self.observed),
            evidence_ids: id_views(self.evidence_ids@),
        }
    }
}

impl BugFinding {
    /// Its JSON form.
    #[verifier::opaque]
    pub open spec fn json(self) -> Seq<char> {
        let body = Seq::<char>::empty();
        let body = json_member(body, "finding_id"@, json_string(self.finding_id));
        let body = json_member(body, "fingerprint"@, json_string(self.fingerprint));
        let body = json_member(body, "observation_ids"@, json_list(id_jsons(self.observation_ids)));
        let body = json_member(body, "tool"@, self.tool.json());
        let body = json_member(body, "language"@, json_string(self.language));
        let body = json_member(body, "severity"@, self.severity.json());
        let body = json_member(body, "taxonomy"@, self.taxonomy.json());
        let body = json_member(body, "message"@, json_string(self.message));
        let body = json_member(body, "location"@, json_nullable(match self.location { Some(x) => Some(x.json()), None => None }));
        let body = json_member(body, "symbol"@, json_nullable(match self.symbol { Some(s) => Some(json_string(s)), None => None }));
        let body = json_member(body, "expected"@, json_nullable(match self.expected { Some(s) => Some(json_string(s)), None => None }));
        let body = json_member(body, "observed"@, json_nullable(match self.observed { Some(s) => Some(json_string(s)), None => None }));
        let body = json_member(body, "evidence_ids"@, json_list(id_jsons(self.evidence_ids)));
        json_object(body)
    }
}

impl ToJson for BugFindingV1 {
    open spec fn json(&self) -> Seq<char> {
        self@.json()
    }

    fn write_json(&self) -> (r: Vec<char>) {
        proof {
            reveal(BugFinding::json);
        }
        let mut body: Vec<char> = Vec::new();
        add_string(&mut body, "finding_id", self.finding_id.as_str());
        add_string(&mut body, "fingerprint", self.fingerprint.as_str());
        let observation_ids: Vec<char> = ids_json(&self.observation_ids);
        add_member(&mut body, "observation_ids", observation_ids.as_slice());
        add_value(&mut body, "tool", &self.tool);
        add_string(&mut body, "language", self.language.as_str());
        add_value(&mut body, "severity", &self.severity);
        add_value(&mut body, "taxonomy", &self.taxonomy);
        add_string(&mut body, "message", self.message.as_str());
        add_nullable(&mut body, "location", &self.location);
        add_nullable(&mut body, "symbol", &self.symbol);
        add_nullable(&mut body, "expected", &self.expected);
        add_nullable(&mut body, "observed", &self.observed);
        let evidence_ids: Vec<char> = ids_json(&self.evidence_ids);
        add_member(&mut body, "evidence_ids", evidence_ids.as_slice());
        object_json(body.as_slice())
    }
}

/// A waiver of a draft.
#[derive(Clone, Debug, PartialEq, Eq)]
pub struct BugWaiverV1 {
    pub fingerprint: String,
    pub waived_action: WaivedAction,
    pub reason: String,
    pub owner: String,
    pub expires_at: String,
}

/// What a `BugWaiverV1` holds.
pub struct BugWaiver {
    pub fingerprint: Seq<char>,
    pub waived_action: WaivedAction,
    pub reason: Seq<char>,
    pub owner: Seq<char>,
    pub expires_at: Seq<char>,
}

impl View for BugWaiverV1 {
    type V = BugWaiver;

    open spec fn view(&self) -> BugWaiver {
        BugWaiver {
            fingerprint: self.fingerprint@,
            waived_action: self.waived_action,
            reason: self.reason@,
            owner: self.owner@,
            expires_at: self.expires_at@,
        }
    }
}

impl BugWaiver {
    /// Its JSON form.
    #[verifier::opaque]
    pub open spec fn json(self) -> Seq<char> {
        let body = Seq::<char>::empty();
        let body = json_member(body, "fingerprint"@, json_string(self.fingerprint));
        let body = json_member(body, "waived_action"@, self.waived_action.json());
        let body = json_member(body, "reason"@, json_string(self.reason));
        let body = json_member(body, "owner"@, json_string(self.owner));
        let body = json_member(body, "expires_at"@, json_string(self.expires_at));
        json_object(body)
    }
}

impl ToJson for BugWaiverV1 {
    open spec fn json(&self) -> Seq<char> {
        self@.json()
    }

    fn write_json(&self) -> (r: Vec<char>) {
        proof {
            reveal(BugWaiver::json);
        }
        let mut body: Vec<char> = Vec::new();
        add_string(&mut body, "fingerprint", self.fingerprint.as_str());
        add_value(&mut body, "waived_action", &self.waived_action);
        add_string(&mut body, "reason", self.reason.as_str());
        add_string(&mut body, "owner", self.owner.as_str());
        add_string(&mut body, "expires_at", self.expires_at.as_str());
        object_json(body.as_slice())
    }
}

/// A decision of a draft.
#[derive(Clone, Debug, PartialEq, Eq)]
pub struct BugDecisionV1 {
    pub decision_id: String,
    pub finding_id: String,
    pub action: DecisionAction,
    pub evaluated_at: String,
    pub matched_rule_id: String,
    pub waiver: Option<BugWaiverV1>,
}

/// What a `BugDecisionV1` holds.
pub struct BugDecision {
    pub decision_id: Seq<char>,
    pub finding_id: Seq<char>,
    pub action: DecisionAction,
    pub evaluated_at: Seq<char>,
    pub matched_rule_id: Seq<char>,
    pub waiver: Option<BugWaiver>,
}

impl View for BugDecisionV1 {
    type V = BugDecision;

    open spec fn view(&self) -> BugDecision {
        BugDecision {
            decision_id: self.decision_id@,
            finding_id: self.finding_id@,
            action: self.action,
            evaluated_at: self.evaluated_at@,
            matched_rule_id: self.matched_rule_id@,
            waiver: match self.waiver {
                Some(x) => Some(x@),
                None => None,
            },
        }
    }
}

impl BugDecision {
    /// Its JSON form.
    #[verifier::opaque]
    pub open spec fn json(self) -> Seq<char> {
        let body = Seq::<char>::empty();
        let body = json_member(body, "decision_id"@, json_string(self.decision_id));
        let body = json_member(body, "finding_id"@, json_string(self.finding_id));
        let body = json_member(body, "action"@, self.action.json());
        let body = json_member(body, "evaluated_at"@, json_string(self.evaluated_at));
        let body = json_member(body, "matched_rule_id"@, json_string(self.matched_rule_id));
        let body = json_member(body, "waiver"@, json_nullable(match self.waiver { Some(x) => Some(x.json()), None => None }));
        json_object(body)
    }
}

impl ToJson for BugDecisionV1 {
    open spec fn json(&self) -> Seq<char> {
        self@.json()
    }

    fn write_json(&self) -> (r: Vec<char>) {
        proof {
            reveal(BugDecision::json);
        }
        let mut body: Vec<char> = Vec::new();
        add_string(&mut body, "decision_id", self.decision_id.as_str());
        add_string(&mut body, "finding_id", self.finding_id.as_str());
        add_value(&mut body, "action", &self.action);
        add_string(&mut body, "evaluated_at", self.evaluated_at.as_str());
        add_string(&mut body, "matched_rule_id", self.matched_rule_id.as_str());
        add_nullable(&mut body, "waiver", &self.waiver);
        object_json(body.as_slice())
    }
}

/// A reference to evidence; what the evidence holds is left out.
#[derive(Clone, Debug, PartialEq, Eq)]
pub struct BugEvidenceRefV1 {
    pub evidence_id: String,
    pub execution_id: Option<String>,
    pub source: EvidenceSource,
    pub sha256: String,
    pub relative_path: Option<String>,
}

/// What a `BugEvidenceRefV1` holds.
pub struct BugEvidenceRef {
    pub evidence_id: Seq<char>,
    pub execution_id: Option<Seq<char>>,
    pub source: Seq<char>,
    pub sha256: Seq<char>,
    pub relative_path: Option<Seq<char>>,
}

impl View for BugEvidenceRefV1 {
    type V = BugEvidenceRef;

    open spec fn view(&self) -> BugEvidenceRef {
        BugEvidenceRef {
            evidence_id: self.evidence_id@,
            execution_id: opt_view(self.execution_id),
            source: self.source.word(),
            sha256: self.sha256@,
            relative_path: opt_view(self.relative_path),
        }
    }
}

impl BugEvidenceRef {
    /// Its JSON form.
    #[verifier::opaque]
    pub open spec fn json(self) -> Seq<char> {
        let body = Seq::<char>::empty();
        let body = json_member(body, "evidence_id"@, json_string(self.evidence_id));
        let body = json_member(body, "execution_id"@, json_nullable(match self.execution_id { Some(s) => Some(json_string(s)), None => None }));
        let body = json_member(body, "source"@, json_string(self.source));
        let body = json_member(body, "sha256"@, json_string(self.sha256));
        let body = json_member(body, "relative_path"@, json_nullable(match self.relative_path { Some(s) => Some(json_string(s)), None => None }));
        json_object(body)
    }
}

impl ToJson for BugEvidenceRefV1 {
    open spec fn json(&self) -> Seq<char> {
        self@.json()
    }

    fn write_json(&self) -> (r: Vec<char>) {
        proof {
            reveal(BugEvidenceRef::json);
        }
        let mut body: Vec<char> = Vec::new();
        add_string(&mut body, "evidence_id", self.evidence_id.as_str());
        add_nullable(&mut body, "execution_id", &self.execution_id);
        add_value(&mut body, "source", &self.source);
        add_string(&mut body, "sha256", self.sha256.as_str());
        add_nullable(&mut body, "relative_path", &self.relative_path);
        object_json(body.as_slice())
    }
}

/// An execution of a draft.
#[derive(Clone, Debug, PartialEq, Eq)]
pub struct BugExecutionV1 {
    pub execution_id: String,
    pub adapter_id: String,
    pub adapter_kind: AdapterKind,
    pub tool: BugToolV1,
    pub required: bool,
    pub status: ExecutionStatus,
    pub exit_code: Option<u8>,
    pub message: Option<String>,
}

/// What a `BugExecutionV1` holds.
pub struct BugExecution {
    pub execution_id: Seq<char>,
    pub adapter_id: Seq<char>,
    pub adapter_kind: AdapterKind,
    pub tool: BugTool,
    pub required: bool,
    pub status: ExecutionStatus,
    pub exit_code: Option<u8>,
    pub message: Option<Seq<char>>,
}

impl View for BugExecutionV1 {
    type V = BugExecution;

    open spec fn view(&self) -> BugExecution {
        BugExecution {
            execution_id: self.execution_id@,
            adapter_id: self.adapter_id@,
            adapter_kind: self.adapter_kind,
            tool: self.tool@,
            required: self.required,
            status: self.status,
            exit_code: self.exit_code,
            message: opt_view(self.message),
        }
    }
}

impl BugExecution {
    /// Its JSON form.
    #[verifier::opaque]
    pub open spec fn json(self) -> Seq<char> {
        let body = Seq::<char>::empty();
        let body = json_member(body, "execution_id"@, json_string(self.execution_id));
        let body = json_member(body, "adapter_id"@, json_string(self.adapter_id));
        let body = json_member(body, "adapter_kind"@, self.adapter_kind.json());
        let body = json_member(body, "tool"@, self.tool.json());
        let body = json_member(body, "required"@, json_bool(self.required));
        let body = json_member(body, "status"@, self.status.json());
        let body = json_member(body, "exit_code"@, json_nullable(match self.exit_code { Some(x) => Some(decimal(x as nat)), None => None }));
        let body = json_member(body, "message"@, json_nullable(match self.message { Some(s) => Some(json_string(s)), None => None }));
        json_object(body)
    }
}

impl ToJson for BugExecutionV1 {
    open spec fn json(&self) -> Seq<char> {
        self@.json()
    }

    fn write_json(&self) -> (r: Vec<char>) {
        proof {
            reveal(BugExecution::json);
        }
        let mut body: Vec<char> = Vec::new();
        add_string(&mut body, "execution_id", self.execution_id.as_str());
        add_string(&mut body, "adapter_id", self.adapter_id.as_str());
        add_value(&mut body, "adapter_kind", &self.adapter_kind);
        add_value(&mut body, "tool", &self.tool);
        add_bool(&mut body, "required", self.required);
        add_value(&mut body, "status", &self.status);
        add_nullable(&mut body, "exit_code", &self.exit_code);
        add_nullable(&mut body, "message", &self.message);
        object_json(body.as_slice())
    }
}

/// The tool, sanitized.
pub open spec fn tool_projection(tool: Tool, max: nat) -> Option<BugTool> {
    match (clean(tool.name@, max), clean(tool.version@, max), clean_optional(tool.rule_id, max)) {
        (Some(name), Some(version), Some(rule_id)) => Some(BugTool { name, version, rule_id }),
        _ => None,
    }
}

fn project_tool(tool: &Tool, max: usize) -> (r: Option<BugToolV1>)
    ensures
        match r {
            Some(v) => tool_projection(*tool, max as nat) == Some(v@),
            None => tool_projection(*tool, max as nat) is None,
        },
{
    match (text(tool.name.as_str(), max), text(tool.version.as_str(), max), optional_text(&tool.rule_id, max)) {
        (Some(name), Some(version), Some(rule_id)) => Some(BugToolV1 { name, version, rule_id }),
        _ => None,
    }
}

/// The location, its path sanitized.
pub open spec fn location_projection(location: Option<Location>, max: nat) -> Option<Option<BugLocation>> {
    match location {
        None => Some(None),
        Some(l) => match clean_path(l.path@, max) {
            None => None,
            Some(path) => Some(Some(BugLocation { path, start: l.start, end: l.end })),
        },
    }
}

/// What a location holds, where there is one.
pub open spec fn location_view(location: Option<BugLocationV1>) -> Option<BugLocation> {
    match location {
        Some(x) => Some(x@),
        None => None,
    }
}

fn project_location(location: &Option<Location>, max: usize) -> (r: Option<Option<BugLocationV1>>)
    ensures
        match r {
            Some(v) => location_projection(*location, max as nat) == Some(location_view(v)),
            None => location_projection(*location, max as nat) is None,
        },
{
    match location {
        None => Some(None),
        Some(l) => match path_text(l.path.as_str(), max) {
            None => None,
            Some(path) => Some(Some(BugLocationV1 { path, start: l.start, end: l.end })),
        },
    }
}

/// The finding, its texts sanitized and its identifiers in order.
pub open spec fn finding_projection(finding: Finding, max: nat) -> Option<BugFinding> {
    match (
        tool_projection(finding.tool, max),
        clean(finding.message@, max),
        location_projection(finding.location, max),
        clean_optional(finding.symbol, max),
        clean_optional(finding.expected, max),
        clean_optional(finding.observed, max),
    ) {
        (Some(tool), Some(message), Some(location), Some(symbol), Some(expected), Some(observed)) => Some(
            BugFinding {
                finding_id: finding.finding_id@,
                fingerprint: finding.fingerprint@,
                observation_ids: sorted_id_views(finding.observation_ids@),
                tool,
                language: finding.language@,
                severity: finding.severity,
                taxonomy: BugTaxonomy {
                    category: finding.classification.category@,
                    micro_category: finding.classification.micro_category@,
                },
                message,
                location,
                symbol,
                expected,
                observed,
                evidence_ids: sorted_id_views(finding.evidence_ids@),
            },
        ),
        _ => None,
    }
}

/// The finding, its texts sanitized and its identifiers in order; none where a text goes over the
/// limit.
pub fn project_finding(finding: &Finding, max: usize) -> (r: Option<BugFindingV1>)
    ensures
        match r {
            Some(v) => finding_projection(*finding, max as nat) == Some(v@),
            None => finding_projection(*finding, max as nat) is None,
        },
{
    match (
        project_tool(&finding.tool, max),
        text(finding.message.as_str(), max),
        project_location(&finding.location, max),
        optional_text(&finding.symbol, max),
        optional_text(&finding.expected, max),
        optional_text(&finding.observed, max),
    ) {
        (Some(tool), Some(message), Some(location), Some(symbol), Some(expected), Some(observed)) => Some(
            BugFindingV1 {
                finding_id: finding.finding_id.clone(),
                fingerprint: finding.fingerprint.clone(),
                observation_ids: sorted_ids(&finding.observation_ids),
                tool,
                language: finding.language.clone(),
                severity: finding.severity,
                taxonomy: BugTaxonomyV1 {
                    category: finding.classification.category.clone(),
                    micro_category: finding.classification.micro_category.clone(),
                },
                message,
                location,
                symbol,
                expected,
                observed,
                evidence_ids: sorted_ids(&finding.evidence_ids),
            },
        ),
        _ => None,
    }
}

/// The waiver, its texts sanitized.
pub open spec fn waiver_projection(waiver: Option<Waiver>, max: nat) -> Option<Option<BugWaiver>> {
    match waiver {
        None => Some(None),
        Some(w) => match (clean(w.reason@, max), clean(w.owner@, max), clean(w.expires_at@, max)) {
            (Some(reason), Some(owner), Some(expires_at)) => Some(
                Some(
                    BugWaiver {
                        fingerprint: w.fingerprint@,
                        waived_action: w.waived_action,
                        reason,
                        owner,
                        expires_at,
                    },
                ),
            ),
            _ => None,
        },
    }
}

/// What a waiver holds, where there is one.
pub open spec fn waiver_view(waiver: Option<BugWaiverV1>) -> Option<BugWaiver> {
    match waiver {
        Some(x) => Some(x@),
        None => None,
    }
}

fn project_waiver(waiver: &Option<Waiver>, max: usize) -> (r: Option<Option<BugWaiverV1>>)
    ensures
        match r {
            Some(v) => waiver_projection(*waiver, max as nat) == Some(waiver_view(v)),
            None => waiver_projection(*waiver, max as nat) is None,
        },
{
    match waiver {
        None => Some(None),
        Some(w) => match (text(w.reason.as_str(), max), text(w.owner.as_str(), max), text(w.expires_at.as_str(), max)) {
            (Some(reason), Some(owner), Some(expires_at)) => Some(
                Some(
                    BugWaiverV1 {
                        fingerprint: w.fingerprint.clone(),
                        waived_action: w.waived_action,
                        reason,
                        owner,
                        expires_at,
                    },
                ),
            ),
            _ => None,
        },
    }
}

/// The decision, its texts sanitized.
pub open spec fn decision_projection(decision: Decision, max: nat) -> Option<BugDecision> {
    match (
        clean(decision.evaluated_at@, max),
        clean(decision.matched_rule_id@, max),
        waiver_projection(decision.waiver, max),
    ) {
        (Some(evaluated_at), Some(matched_rule_id), Some(waiver)) => Some(
            BugDecision {
                decision_id: decision.decision_id@,
                finding_id: decision.finding_id@,
                action: decision.action,
                evaluated_at,
                matched_rule_id,
                waiver,
            },
        ),
        _ => None,
    }
}

/// The decision, its texts sanitized; none where a text goes over the limit.
pub fn project_decision(decision: &Decision, max: usize) -> (r: Option<BugDecisionV1>)
    ensures
        match r {
            Some(v) => decision_projection(*decision, max as nat) == Some(v@),
            None => decision_projection(*decision, max as nat) is None,
        },
{
    match (
        text(decision.evaluated_at.as_str(), max),
        text(decision.matched_rule_id.as_str(), max),
        project_waiver(&decision.waiver, max),
    ) {
        (Some(evaluated_at), Some(matched_rule_id), Some(waiver)) => Some(
            BugDecisionV1 {
                decision_id: decision.decision_id.clone(),
                finding_id: decision.finding_id.clone(),
                action: decision.action,
                evaluated_at,
                matched_rule_id,
                waiver,
            },
        ),
        _ => None,
    }
}

/// The reference to the evidence, its path sanitized.
pub open spec fn evidence_projection(evidence: Evidence, max: nat) -> Option<BugEvidenceRef> {
    match clean_optional_path(evidence.relative_path, max) {
        None => None,
        Some(relative_path) => Some(
            BugEvidenceRef {
                evidence_id: evidence.evidence_id@,
                execution_id: opt_view(evidence.execution_id),
                source: evidence.source.word(),
                sha256: evidence.sha256@,
                relative_path,
            },
        ),
    }
}

/// The reference to the evidence, its path sanitized; none where it goes over the limit.
pub fn project_evidence(evidence: &Evidence, max: usize) -> (r: Option<BugEvidenceRefV1>)
    ensures
        match r {
            Some(v) => evidence_projection(*evidence, max as nat) == Some(v@),
            None => evidence_projection(*evidence, max as nat) is None,
        },
{
    match optional_path(&evidence.relative_path, max) {
        None => None,
        Some(relative_path) => Some(
            BugEvidenceRefV1 {
                evidence_id: evidence.evidence_id.clone(),
                execution_id: copy_optional(&evidence.execution_id),
                source: copy_source(&evidence.source),
                sha256: evidence.sha256.clone(),
                relative_path,
            },
        ),
    }
}

/// The execution, its texts sanitized.
pub open spec fn execution_projection(execution: Execution, max: nat) -> Option<BugExecution> {
    match (tool_projection(execution.tool, max), clean_optional(execution.message, max)) {
        (Some(tool), Some(message)) => Some(
            BugExecution {
                execution_id: execution.execution_id@,
                adapter_id: execution.adapter_id@,
                adapter_kind: execution.adapter_kind,
                tool,
                required: execution.required,
                status: execution.status,
                exit_code: execution.exit_code,
                message,
            },
        ),
        _ => None,
    }
}

/// The execution, its texts sanitized; none where a text goes over the limit.
pub fn project_execution(execution: &Execution, max: usize) -> (r: Option<BugExecutionV1>)
    ensures
        match r {
            Some(v) => execution_projection(*execution, max as nat) == Some(v@),
            None => execution_projection(*execution, max as nat) is None,
        },
{
    match (project_tool(&execution.tool, max), optional_text(&execution.message, max)) {
        (Some(tool), Some(message)) => Some(
            BugExecutionV1 {
                execution_id: execution.execution_id.clone(),
                adapter_id: execution.adapter_id.clone(),
                adapter_kind: execution.adapter_kind,
                tool,
                required: execution.required,
                status: execution.status,
                exit_code: execution.exit_code,
                message,
            },
        ),
        _ => None,
    }
}

} // verus!
