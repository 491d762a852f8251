//! The records that a session report is made of.
use crate::config::runtime::{EngineConfig, WaivedAction};
use crate::json::{
    add_bool, add_member, add_nullable, add_number, add_optional, add_optional_string, add_string, add_value,
    json_bool, json_list, json_member, json_nullable, json_object, json_optional, json_string, jsons, number_json,
    object_json, optional_json, optional_string, sorted_json, string_json, ToJson,
};
use crate::numeral::decimal;
use crate::order::{arranged, compare_texts, lemma_key_step, lemma_single_key, Keyed, Placement};
use vstd::prelude::*;

pub mod reading;

verus! {

/// The states that a finding goes through, in their order, and those in which an execution ends.
pub const LIFECYCLE: &'static str = "DISCOVERED -> NORMALIZED -> CLASSIFIED -> FIX_PROPOSED -> VERIFIED -> REPORTED; execution terminal: INCOMPLETE | UNSUPPORTED.";

/// How grave a diagnostic is.
#[derive(Clone, Copy, Debug, PartialEq, Eq, Structural)]
pub enum Severity {
    Error,
    Warning,
    Info,
}

impl Severity {
    /// The word that stands for it in a report.
    pub open spec fn word(self) -> Seq<char> {
        match self {
            Severity::Error => "ERROR"@,
            Severity::Warning => "WARNING"@,
            Severity::Info => "INFO"@,
        }
    }

    /// The word that stands for it in a report.
    pub fn wire(&self) -> (r: &'static str)
        ensures
            r@ == self.word(),
    {
        match self {
            Severity::Error => "ERROR",
            Severity::Warning => "WARNING",
            Severity::Info => "INFO",
        }
    }
}

impl ToJson for Severity {
    open spec fn json(&self) -> Seq<char> {
        json_string(self.word())
    }

    fn write_json(&self) -> (r: Vec<char>) {
        string_json(self.wire())
    }
}

/// What a report comes to.
#[derive(Clone, Copy, Debug, PartialEq, Eq, Structural)]
pub enum Verdict {
    Pass,
    PolicyFail,
    Incomplete,
    Unsupported,
}

impl Verdict {
    /// The word that stands for it in a report.
    pub open spec fn word(self) -> Seq<char> {
        match self {
            Verdict::Pass => "PASS"@,
            Verdict::PolicyFail => "POLICY_FAIL"@,
            Verdict::Incomplete => "INCOMPLETE"@,
            Verdict::Unsupported => "UNSUPPORTED"@,
        }
    }

    /// The word that stands for it in a report.
    pub fn wire(&self) -> (r: &'static str)
        ensures
            r@ == self.word(),
    {
        match self {
            Verdict::Pass => "PASS",
            Verdict::PolicyFail => "POLICY_FAIL",
            Verdict::Incomplete => "INCOMPLETE",
            Verdict::Unsupported => "UNSUPPORTED",
        }
    }
}

impl ToJson for Verdict {
    open spec fn json(&self) -> Seq<char> {
        json_string(self.word())
    }

    fn write_json(&self) -> (r: Vec<char>) {
        string_json(self.wire())
    }
}

/// How an execution ended.
#[derive(Clone, Copy, Debug, PartialEq, Eq, Structural)]
pub enum ExecutionStatus {
    Complete,
    Incomplete,
    Unsupported,
}

impl ExecutionStatus {
    /// The word that stands for it in a report.
    pub open spec fn word(self) -> Seq<char> {
        match self {
            ExecutionStatus::Complete => "COMPLETE"@,
            ExecutionStatus::Incomplete => "INCOMPLETE"@,
            ExecutionStatus::Unsupported => "UNSUPPORTED"@,
        }
    }

    /// The word that stands for it in a report.
    pub fn wire(&self) -> (r: &'static str)
        ensures
            r@ == self.word(),
    {
        match self {
            ExecutionStatus::Complete => "COMPLETE",
            ExecutionStatus::Incomplete => "INCOMPLETE",
            ExecutionStatus::Unsupported => "UNSUPPORTED",
        }
    }
}

impl ToJson for ExecutionStatus {
    open spec fn json(&self) -> Seq<char> {
        json_string(self.word())
    }

    fn write_json(&self) -> (r: Vec<char>) {
        string_json(self.wire())
    }
}

/// What an adapter is for.
#[derive(Clone, Copy, Debug, PartialEq, Eq, Structural)]
pub enum AdapterKind {
    Provider,
    Observer,
}

impl AdapterKind {
    /// The word that stands for it in a report.
    pub open spec fn word(self) -> Seq<char> {
        match self {
            AdapterKind::Provider => "PROVIDER"@,
            AdapterKind::Observer => "OBSERVER"@,
        }
    }

    /// The word that stands for it in a report.
    pub fn wire(&self) -> (r: &'static str)
        ensures
            r@ == self.word(),
    {
        match self {
            AdapterKind::Provider => "PROVIDER",
            AdapterKind::Observer => "OBSERVER",
        }
    }
}

impl ToJson for AdapterKind {
    open spec fn json(&self) -> Seq<char> {
        json_string(self.word())
    }

    fn write_json(&self) -> (r: Vec<char>) {
        string_json(self.wire())
    }
}

/// What policy does about a finding.
#[derive(Clone, Copy, Debug, PartialEq, Eq, Structural)]
pub enum DecisionAction {
    Observe,
    Warn,
    Block,
    Waive,
}

impl DecisionAction {
    /// The word that stands for it in a report.
    pub open spec fn word(self) -> Seq<char> {
        match self {
            DecisionAction::Observe => "OBSERVE"@,
            DecisionAction::Warn => "WARN"@,
            DecisionAction::Block => "BLOCK"@,
            DecisionAction::Waive => "WAIVE"@,
        }
    }

    /// The word that stands for it in a report.
    pub fn wire(&self) -> (r: &'static str)
        ensures
            r@ == self.word(),
    {
        match self {
            DecisionAction::Observe => "OBSERVE",
            DecisionAction::Warn => "WARN",
            DecisionAction::Block => "BLOCK",
            DecisionAction::Waive => "WAIVE",
        }
    }
}

impl ToJson for DecisionAction {
    open spec fn json(&self) -> Seq<char> {
        json_string(self.word())
    }

    fn write_json(&self) -> (r: Vec<char>) {
        string_json(self.wire())
    }
}

/// How far a fix may be applied without a second look.
#[derive(Clone, Copy, Debug, PartialEq, Eq, Structural)]
pub enum Applicability {
    Safe,
    Unsafe,
    Manual,
}

impl Applicability {
    /// The word that stands for it in a report.
    pub open spec fn word(self) -> Seq<char> {
        match self {
            Applicability::Safe => "SAFE"@,
            Applicability::Unsafe => "UNSAFE"@,
            Applicability::Manual => "MANUAL"@,
        }
    }

    /// The word that stands for it in a report.
    pub fn wire(&self) -> (r: &'static str)
        ensures
            r@ == self.word(),
    {
        match self {
            Applicability::Safe => "SAFE",
            Applicability::Unsafe => "UNSAFE",
            Applicability::Manual => "MANUAL",
        }
    }
}

impl ToJson for Applicability {
    open spec fn json(&self) -> Seq<char> {
        json_string(self.word())
    }

    fn write_json(&self) -> (r: Vec<char>) {
        string_json(self.wire())
    }
}

/// How an execution stands to its time budget.
#[derive(Clone, Copy, Debug, PartialEq, Eq, Structural)]
pub enum PerformanceStatus {
    NotEvaluated,
    WithinBudget,
    ImprovementCandidate,
}

impl PerformanceStatus {
    /// The word that stands for it in a report.
    pub open spec fn word(self) -> Seq<char> {
        match self {
            PerformanceStatus::NotEvaluated => "NOT_EVALUATED"@,
            PerformanceStatus::WithinBudget => "WITHIN_BUDGET"@,
            PerformanceStatus::ImprovementCandidate => "IMPROVEMENT_CANDIDATE"@,
        }
    }

    /// The word that stands for it in a report.
    pub fn wire(&self) -> (r: &'static str)
        ensures
            r@ == self.word(),
    {
        match self {
            PerformanceStatus::NotEvaluated => "NOT_EVALUATED",
            PerformanceStatus::WithinBudget => "WITHIN_BUDGET",
            PerformanceStatus::ImprovementCandidate => "IMPROVEMENT_CANDIDATE",
        }
    }
}

impl ToJson for PerformanceStatus {
    open spec fn json(&self) -> Seq<char> {
        json_string(self.word())
    }

    fn write_json(&self) -> (r: Vec<char>) {
        string_json(self.wire())
    }
}

impl WaivedAction {
    /// The word that stands for it in a report.
    pub open spec fn word(self) -> Seq<char> {
        match self {
            WaivedAction::Warn => "WARN"@,
            WaivedAction::Block => "BLOCK"@,
        }
    }

    /// The word that stands for it in a report.
    pub fn wire(&self) -> (r: &'static str)
        ensures
            r@ == self.word(),
    {
        match self {
            WaivedAction::Warn => "WARN",
            WaivedAction::Block => "BLOCK",
        }
    }
}

impl ToJson for WaivedAction {
    open spec fn json(&self) -> Seq<char> {
        json_string(self.word())
    }

    fn write_json(&self) -> (r: Vec<char>) {
        string_json(self.wire())
    }
}

/// Where evidence was taken from.
#[derive(Clone, Debug, PartialEq, Eq)]
pub enum EvidenceSource {
    Stdout,
    Stderr,
    Patch,
    Other(String),
}

impl EvidenceSource {
    /// The word that stands for it in a report.
    pub open spec fn word(self) -> Seq<char> {
        match self {
            EvidenceSource::Stdout => "STDOUT"@,
            EvidenceSource::Stderr => "STDERR"@,
            EvidenceSource::Patch => "PATCH"@,
            EvidenceSource::Other(name) => name@,
        }
    }
}

impl ToJson for EvidenceSource {
    open spec fn json(&self) -> Seq<char> {
        json_string(self.word())
    }

    fn write_json(&self) -> (r: Vec<char>) {
        match self {
            EvidenceSource::Stdout => string_json("STDOUT"),
            EvidenceSource::Stderr => string_json("STDERR"),
            EvidenceSource::Patch => string_json("PATCH"),
            EvidenceSource::Other(name) => string_json(name.as_str()),
        }
    }
}

/// The origin of an observation that a tool made in the ordinary way.
pub const NORMAL_ORIGIN: &'static str = "NORMAL";

/// What the schema of each record is called.
pub const OBSERVATION_SCHEMA: &'static str = "diagnostic-triage.observation/v1";

pub const EVIDENCE_SCHEMA: &'static str = "diagnostic-triage.evidence/v1";

pub const FIX_CANDIDATE_SCHEMA: &'static str = "diagnostic-triage.fix-candidate/v1";

pub const EXECUTION_SCHEMA: &'static str = "diagnostic-triage.execution/v1";

/// The word for a measurement that was not taken.
pub const UNAVAILABLE: &'static str = "UNAVAILABLE";

/// The word for what does not apply.
pub const NOT_APPLICABLE: &'static str = "NOT_APPLICABLE";

/// A place in a file: one-based, the column counted in Unicode scalar values.
#[derive(Clone, Copy, Debug, PartialEq, Eq, Structural)]
pub struct Position {
    pub line: u32,
    pub column: u32,
}

impl ToJson for Position {
    open spec fn json(&self) -> Seq<char> {
        let body = Seq::<char>::empty();
        let body = json_member(body, "line"@, decimal(self.line as nat));
        let body = json_member(body, "column"@, decimal(self.column as nat));
        json_object(body)
    }

    fn write_json(&self) -> (r: Vec<char>) {
        let mut body: Vec<char> = Vec::new();
        add_number(&mut body, "line", self.line as u64);
        add_number(&mut body, "column", self.column as u64);
        object_json(body.as_slice())
    }
}

/// A range in a file; the end, where there is one, is the first place behind it.
#[derive(Clone, Debug, PartialEq, Eq)]
pub struct Location {
    pub path: String,
    pub start: Position,
    pub end: Option<Position>,
}

impl ToJson for Location {
    open spec fn json(&self) -> Seq<char> {
        let body = Seq::<char>::empty();
        let body = json_member(body, "path"@, json_string(self.path@));
        let body = json_member(body, "start"@, self.start.json());
        let body = json_optional(body, "end"@, optional_json(self.end));
        json_object(body)
    }

    fn write_json(&self) -> (r: Vec<char>) {
        let mut body: Vec<char> = Vec::new();
        add_string(&mut body, "path", self.path.as_str());
        add_value(&mut body, "start", &self.start);
        add_optional(&mut body, "end", &self.end);
        object_json(body.as_slice())
    }
}

/// The tool that spoke, and the rule it spoke of.
#[derive(Clone, Debug, PartialEq, Eq)]
pub struct Tool {
    pub name: String,
    pub version: String,
    pub rule_id: Option<String>,
}

impl ToJson for Tool {
    open spec fn json(&self) -> Seq<char> {
        let body = Seq::<char>::empty();
        let body = json_member(body, "name"@, json_string(self.name@));
        let body = json_member(body, "version"@, json_string(self.version@));
        let body = json_optional(body, "rule_id"@, optional_string(self.rule_id));
        json_object(body)
    }

    fn write_json(&self) -> (r: Vec<char>) {
        let mut body: Vec<char> = Vec::new();
        add_string(&mut body, "name", self.name.as_str());
        add_string(&mut body, "version", self.version.as_str());
        add_optional_string(&mut body, "rule_id", &self.rule_id);
        object_json(body.as_slice())
    }
}

/// How a finding is classified.
#[derive(Clone, Debug, PartialEq, Eq)]
pub struct Taxonomy {
    pub category: String,
    pub micro_category: String,
}

impl ToJson for Taxonomy {
    open spec fn json(&self) -> Seq<char> {
        let body = Seq::<char>::empty();
        let body = json_member(body, "category"@, json_string(self.category@));
        let body = json_member(body, "micro_category"@, json_string(self.micro_category@));
        json_object(body)
    }

    fn write_json(&self) -> (r: Vec<char>) {
        let mut body: Vec<char> = Vec::new();
        add_string(&mut body, "category", self.category.as_str());
        add_string(&mut body, "micro_category", self.micro_category.as_str());
        object_json(body.as_slice())
    }
}

/// One diagnostic, as a provider saw it.
#[derive(Clone, Debug, PartialEq, Eq)]
pub struct Observation {
    pub schema_version: String,
    pub observation_id: String,
    pub tool: Tool,
    pub language: String,
    pub severity: Severity,
    pub origin: String,
    pub message: String,
    pub location: Option<Location>,
    pub symbol: Option<String>,
    pub expected: Option<String>,
    pub observed: Option<String>,
    pub evidence_ids: Vec<String>,
}

impl ToJson for Observation {
    open spec fn json(&self) -> Seq<char> {
        let body = Seq::<char>::empty();
        let body = json_member(body, "schema_version"@, json_string(self.schema_version@));
        let body = json_member(body, "observation_id"@, json_string(self.observation_id@));
        let body = json_member(body, "tool"@, self.tool.json());
        let body = json_member(body, "language"@, json_string(self.language@));
        let body = json_member(body, "severity"@, self.severity.json());
        let body = json_member(body, "origin"@, json_string(self.origin@));
        let body = json_member(body, "message"@, json_string(self.message@));
        let body = json_optional(body, "location"@, optional_json(self.location));
        let body = json_optional(body, "symbol"@, optional_string(self.symbol));
        let body = json_optional(body, "expected"@, optional_string(self.expected));
        let body = json_optional(body, "observed"@, optional_string(self.observed));
        let body = json_member(body, "evidence_ids"@, json_list(jsons(arranged(self.evidence_ids@))));
        json_object(body)
    }

    fn write_json(&self) -> (r: Vec<char>) {
        let mut body: Vec<char> = Vec::new();
        add_string(&mut body, "schema_version", self.schema_version.as_str());
        add_string(&mut body, "observation_id", self.observation_id.as_str());
        add_value(&mut body, "tool", &self.tool);
        add_string(&mut body, "language", self.language.as_str());
        add_value(&mut body, "severity", &self.severity);
        add_string(&mut body, "origin", self.origin.as_str());
        add_string(&mut body, "message", self.message.as_str());
        add_optional(&mut body, "location", &self.location);
        add_optional_string(&mut body, "symbol", &self.symbol);
        add_optional_string(&mut body, "expected", &self.expected);
        add_optional_string(&mut body, "observed", &self.observed);
        let evidence_ids: Vec<char> = sorted_json(&self.evidence_ids);
        add_member(&mut body, "evidence_ids", evidence_ids.as_slice());
        object_json(body.as_slice())
    }
}

impl Keyed for Observation {
    open spec fn key(&self) -> Seq<Seq<char>> {
        seq![self.observation_id@]
    }

    fn compare(&self, other: &Self) -> (r: Placement) {
        proof {
            lemma_single_key(self.observation_id@, other.observation_id@);
        }
        compare_texts(self.observation_id.as_str(), other.observation_id.as_str())
    }
}

/// Observations that are one and the same problem.
#[derive(Clone, Debug, PartialEq, Eq)]
pub struct Finding {
    pub schema_version: String,
    pub finding_id: String,
    pub fingerprint: String,
    pub observation_ids: Vec<String>,
    pub tool: Tool,
    pub language: String,
    pub severity: Severity,
    pub classification: Taxonomy,
    pub message: String,
    pub location: Option<Location>,
    pub symbol: Option<String>,
    pub expected: Option<String>,
    pub observed: Option<String>,
    pub state: String,
    pub pre_report_state: Option<String>,
    pub evidence_ids: Vec<String>,
    pub fix_candidate_id: Option<String>,
    pub verification_execution_ids: Option<Vec<String>>,
}

impl ToJson for Finding {
    open spec fn json(&self) -> Seq<char> {
        let body = Seq::<char>::empty();
        let body = json_member(body, "schema_version"@, json_string(self.schema_version@));
        let body = json_member(body, "finding_id"@, json_string(self.finding_id@));
        let body = json_member(body, "fingerprint"@, json_string(self.fingerprint@));
        let body = json_member(body, "observation_ids"@, json_list(jsons(arranged(self.observation_ids@))));
        let body = json_member(body, "tool"@, self.tool.json());
        let body = json_member(body, "language"@, json_string(self.language@));
        let body = json_member(body, "severity"@, self.severity.json());
        let body = json_member(body, "classification"@, self.classification.json());
        let body = json_member(body, "message"@, json_string(self.message@));
        let body = json_optional(body, "location"@, optional_json(self.location));
        let body = json_optional(body, "symbol"@, optional_string(self.symbol));
        let body = json_optional(body, "expected"@, optional_string(self.expected));
        let body = json_optional(body, "observed"@, optional_string(self.observed));
        let body = json_member(body, "state"@, json_string(self.state@));
        let body = json_optional(body, "pre_report_state"@, optional_string(self.pre_report_state));
        let body = json_member(body, "evidence_ids"@, json_list(jsons(arranged(self.evidence_ids@))));
        let body = json_optional(body, "fix_candidate_id"@, optional_string(self.fix_candidate_id));
        let body = json_optional(body, "verification_execution_ids"@, match self.verification_execution_ids { Some(ids) => Some(json_list(jsons(arranged(ids@)))), None => None });
        json_object(body)
    }

    fn write_json(&self) -> (r: Vec<char>) {
        let mut body: Vec<char> = Vec::new();
        add_string(&mut body, "schema_version", self.schema_version.as_str());
        add_string(&mut body, "finding_id", self.finding_id.as_str());
        add_string(&mut body, "fingerprint", self.fingerprint.as_str());
        let observation_ids: Vec<char> = sorted_json(&self.observation_ids);
        add_member(&mut body, "observation_ids", observation_ids.as_slice());
        add_value(&mut body, "tool", &self.tool);
        add_string(&mut body, "language", self.language.as_str());
        add_value(&mut body, "severity", &self.severity);
        add_value(&mut body, "classification", &self.classification);
        add_string(&mut body, "message", self.message.as_str());
        add_optional(&mut body, "location", &self.location);
        add_optional_string(&mut body, "symbol", &self.symbol);
        add_optional_string(&mut body, "expected", &self.expected);
        add_optional_string(&mut body, "observed", &self.observed);
        add_string(&mut body, "state", self.state.as_str());
        add_optional_string(&mut body, "pre_report_state", &self.pre_report_state);
        let evidence_ids: Vec<char> = sorted_json(&self.evidence_ids);
        add_member(&mut body, "evidence_ids", evidence_ids.as_slice());
        add_optional_string(&mut body, "fix_candidate_id", &self.fix_candidate_id);
        if let Some(ids) = &self.verification_execution_ids {
            let text: Vec<char> = sorted_json(ids);
            add_member(&mut body, "verification_execution_ids", text.as_slice());
        }
        object_json(body.as_slice())
    }
}

impl Keyed for Finding {
    open spec fn key(&self) -> Seq<Seq<char>> {
        seq![self.fingerprint@] + seq![self.finding_id@]
    }

    fn compare(&self, other: &Self) -> (r: Placement) {
        proof {
            lemma_key_step(self.fingerprint@, other.fingerprint@, seq![self.finding_id@], seq![other.finding_id@]);
            lemma_single_key(self.finding_id@, other.finding_id@);
        }
        match compare_texts(self.fingerprint.as_str(), other.fingerprint.as_str()) {
            Placement::Same => compare_texts(self.finding_id.as_str(), other.finding_id.as_str()),
            other_place => other_place,
        }
    }
}

/// Leave, for a time, to let a finding stand.
#[derive(Clone, Debug, PartialEq, Eq)]
pub struct Waiver {
    pub fingerprint: String,
    pub waived_action: WaivedAction,
    pub reason: String,
    pub owner: String,
    pub expires_at: String,
}

impl ToJson for Waiver {
    open spec fn json(&self) -> Seq<char> {
        let body = Seq::<char>::empty();
        let body = json_member(body, "fingerprint"@, json_string(self.fingerprint@));
        let body = json_member(body, "waived_action"@, self.waived_action.json());
        let body = json_member(body, "reason"@, json_string(self.reason@));
        let body = json_member(body, "owner"@, json_string(self.owner@));
        let body = json_member(body, "expires_at"@, json_string(self.expires_at@));
        json_object(body)
    }

    fn write_json(&self) -> (r: Vec<char>) {
        let mut body: Vec<char> = Vec::new();
        add_string(&mut body, "fingerprint", self.fingerprint.as_str());
        add_value(&mut body, "waived_action", &self.waived_action);
        add_string(&mut body, "reason", self.reason.as_str());
        add_string(&mut body, "owner", self.owner.as_str());
        add_string(&mut body, "expires_at", self.expires_at.as_str());
        object_json(body.as_slice())
    }
}

/// What policy decided on a finding.
#[derive(Clone, Debug, PartialEq, Eq)]
pub struct Decision {
    pub schema_version: String,
    pub decision_id: String,
    pub finding_id: String,
    pub action: DecisionAction,
    pub evaluated_at: String,
    pub policy_digest: String,
    pub matched_rule_id: String,
    pub waiver: Option<Waiver>,
}

impl ToJson for Decision {
    open spec fn json(&self) -> Seq<char> {
        let body = Seq::<char>::empty();
        let body = json_member(body, "schema_version"@, json_string(self.schema_version@));
        let body = json_member(body, "decision_id"@, json_string(self.decision_id@));
        let body = json_member(body, "finding_id"@, json_string(self.finding_id@));
        let body = json_member(body, "action"@, self.action.json());
        let body = json_member(body, "evaluated_at"@, json_string(self.evaluated_at@));
        let body = json_member(body, "policy_digest"@, json_string(self.policy_digest@));
        let body = json_member(body, "matched_rule_id"@, json_string(self.matched_rule_id@));
        let body = json_optional(body, "waiver"@, optional_json(self.waiver));
        json_object(body)
    }

    fn write_json(&self) -> (r: Vec<char>) {
        let mut body: Vec<char> = Vec::new();
        add_string(&mut body, "schema_version", self.schema_version.as_str());
        add_string(&mut body, "decision_id", self.decision_id.as_str());
        add_string(&mut body, "finding_id", self.finding_id.as_str());
        add_value(&mut body, "action", &self.action);
        add_string(&mut body, "evaluated_at", self.evaluated_at.as_str());
        add_string(&mut body, "policy_digest", self.policy_digest.as_str());
        add_string(&mut body, "matched_rule_id", self.matched_rule_id.as_str());
        add_optional(&mut body, "waiver", &self.waiver);
        object_json(body.as_slice())
    }
}

impl Keyed for Decision {
    open spec fn key(&self) -> Seq<Seq<char>> {
        seq![self.finding_id@] + seq![self.decision_id@]
    }

    fn compare(&self, other: &Self) -> (r: Placement) {
        proof {
            lemma_key_step(self.finding_id@, other.finding_id@, seq![self.decision_id@], seq![other.decision_id@]);
            lemma_single_key(self.decision_id@, other.decision_id@);
        }
        match compare_texts(self.finding_id.as_str(), other.finding_id.as_str()) {
            Placement::Same => compare_texts(self.decision_id.as_str(), other.decision_id.as_str()),
            other_place => other_place,
        }
    }
}

/// What was kept of a stream or a patch.
#[derive(Clone, Debug, PartialEq, Eq)]
pub struct Evidence {
    pub schema_version: String,
    pub evidence_id: String,
    pub execution_id: Option<String>,
    pub source: EvidenceSource,
    pub media_type: String,
    pub retained_bytes: u64,
    pub observed_bytes: u64,
    pub limit_bytes: u32,
    pub truncated: bool,
    pub sha256: String,
    pub relative_path: Option<String>,
    pub content: Option<String>,
}

impl ToJson for Evidence {
    open spec fn json(&self) -> Seq<char> {
        let body = Seq::<char>::empty();
        let body = json_member(body, "schema_version"@, json_string(self.schema_version@));
        let body = json_member(body, "evidence_id"@, json_string(self.evidence_id@));
        let body = json_optional(body, "execution_id"@, optional_string(self.execution_id));
        let body = json_member(body, "source"@, self.source.json());
        let body = json_member(body, "media_type"@, json_string(self.media_type@));
        let body = json_member(body, "retained_bytes"@, decimal(self.retained_bytes as nat));
        let body = json_member(body, "observed_bytes"@, decimal(self.observed_bytes as nat));
        let body = json_member(body, "limit_bytes"@, decimal(self.limit_bytes as nat));
        let body = json_member(body, "truncated"@, json_bool(self.truncated));
        let body = json_member(body, "sha256"@, json_string(self.sha256@));
        let body = json_optional(body, "relative_path"@, optional_string(self.relative_path));
        let body = json_optional(body, "content"@, optional_string(self.content));
        json_object(body)
    }

    fn write_json(&self) -> (r: Vec<char>) {
        let mut body: Vec<char> = Vec::new();
        add_string(&mut body, "schema_version", self.schema_version.as_str());
        add_string(&mut body, "evidence_id", self.evidence_id.as_str());
        add_optional_string(&mut body, "execution_id", &self.execution_id);
        add_value(&mut body, "source", &self.source);
        add_string(&mut body, "media_type", self.media_type.as_str());
        add_number(&mut body, "retained_bytes", self.retained_bytes as u64);
        add_number(&mut body, "observed_bytes", self.observed_bytes as u64);
        add_number(&mut body, "limit_bytes", self.limit_bytes as u64);
        add_bool(&mut body, "truncated", self.truncated);
        add_string(&mut body, "sha256", self.sha256.as_str());
        add_optional_string(&mut body, "relative_path", &self.relative_path);
        add_optional_string(&mut body, "content", &self.content);
        object_json(body.as_slice())
    }
}

impl Keyed for Evidence {
    open spec fn key(&self) -> Seq<Seq<char>> {
        seq![self.evidence_id@]
    }

    fn compare(&self, other: &Self) -> (r: Placement) {
        proof {
            lemma_single_key(self.evidence_id@, other.evidence_id@);
        }
        compare_texts(self.evidence_id.as_str(), other.evidence_id.as_str())
    }
}

/// A fix that a tool proposes for observations.
#[derive(Clone, Debug, PartialEq, Eq)]
pub struct FixCandidate {
    pub schema_version: String,
    pub fix_candidate_id: String,
    pub observation_ids: Vec<String>,
    pub applicability: Applicability,
    pub tool_native: bool,
    pub patch_evidence_id: String,
}

impl ToJson for FixCandidate {
    open spec fn json(&self) -> Seq<char> {
        let body = Seq::<char>::empty();
        let body = json_member(body, "schema_version"@, json_string(self.schema_version@));
        let body = json_member(body, "fix_candidate_id"@, json_string(self.fix_candidate_id@));
        let body = json_member(body, "observation_ids"@, json_list(jsons(arranged(self.observation_ids@))));
        let body = json_member(body, "applicability"@, self.applicability.json());
        let body = json_member(body, "tool_native"@, json_bool(self.tool_native));
        let body = json_member(body, "patch_evidence_id"@, json_string(self.patch_evidence_id@));
        json_object(body)
    }

    fn write_json(&self) -> (r: Vec<char>) {
        let mut body: Vec<char> = Vec::new();
        add_string(&mut body, "schema_version", self.schema_version.as_str());
        add_string(&mut body, "fix_candidate_id", self.fix_candidate_id.as_str());
        let observation_ids: Vec<char> = sorted_json(&self.observation_ids);
        add_member(&mut body, "observation_ids", observation_ids.as_slice());
        add_value(&mut body, "applicability", &self.applicability);
        add_bool(&mut body, "tool_native", self.tool_native);
        add_string(&mut body, "patch_evidence_id", self.patch_evidence_id.as_str());
        object_json(body.as_slice())
    }
}

impl Keyed for FixCandidate {
    open spec fn key(&self) -> Seq<Seq<char>> {
        seq![self.fix_candidate_id@]
    }

    fn compare(&self, other: &Self) -> (r: Placement) {
        proof {
            lemma_single_key(self.fix_candidate_id@, other.fix_candidate_id@);
        }
        compare_texts(self.fix_candidate_id.as_str(), other.fix_candidate_id.as_str())
    }
}

/// How long a phase took, where that was measured.
#[derive(Clone, Copy, Debug, PartialEq, Eq, Structural)]
pub enum PhaseDuration {
    Milliseconds(u32),
    Unavailable,
}

impl ToJson for PhaseDuration {
    open spec fn json(&self) -> Seq<char> {
        match self {
            PhaseDuration::Milliseconds(n) => decimal(*n as nat),
            PhaseDuration::Unavailable => json_string(UNAVAILABLE@),
        }
    }

    fn write_json(&self) -> (r: Vec<char>) {
        match self {
            PhaseDuration::Milliseconds(n) => number_json(*n as u64),
            PhaseDuration::Unavailable => string_json(UNAVAILABLE),
        }
    }
}

/// The fingerprint of a toolchain, where there is one.
#[derive(Clone, Debug, PartialEq, Eq)]
pub enum ToolchainFingerprint {
    Known(String),
    Unavailable,
}

impl ToJson for ToolchainFingerprint {
    open spec fn json(&self) -> Seq<char> {
        match self {
            ToolchainFingerprint::Known(text) => json_string(text@),
            ToolchainFingerprint::Unavailable => json_string(UNAVAILABLE@),
        }
    }

    fn write_json(&self) -> (r: Vec<char>) {
        match self {
            ToolchainFingerprint::Known(text) => string_json(text.as_str()),
            ToolchainFingerprint::Unavailable => string_json(UNAVAILABLE),
        }
    }
}

impl ToJson for u64 {
    open spec fn json(&self) -> Seq<char> {
        decimal(*self as nat)
    }

    fn write_json(&self) -> (r: Vec<char>) {
        number_json(*self)
    }
}

impl ToJson for u8 {
    open spec fn json(&self) -> Seq<char> {
        decimal(*self as nat)
    }

    fn write_json(&self) -> (r: Vec<char>) {
        number_json(*self as u64)
    }
}

impl ToJson for bool {
    open spec fn json(&self) -> Seq<char> {
        json_bool(*self)
    }

    fn write_json(&self) -> (r: Vec<char>) {
        crate::json::bool_json(*self)
    }
}

/// How long each phase of an execution took.
#[derive(Clone, Copy, Debug, PartialEq, Eq, Structural)]
pub struct ExecutionPhases {
    pub queue: PhaseDuration,
    pub setup: PhaseDuration,
    pub run: PhaseDuration,
    pub normalize: PhaseDuration,
    pub total: PhaseDuration,
}

impl ToJson for ExecutionPhases {
    open spec fn json(&self) -> Seq<char> {
        let body = Seq::<char>::empty();
        let body = json_member(body, "queue"@, self.queue.json());
        let body = json_member(body, "setup"@, self.setup.json());
        let body = json_member(body, "run"@, self.run.json());
        let body = json_member(body, "normalize"@, self.normalize.json());
        let body = json_member(body, "total"@, self.total.json());
        json_object(body)
    }

    fn write_json(&self) -> (r: Vec<char>) {
        let mut body: Vec<char> = Vec::new();
        add_value(&mut body, "queue", &self.queue);
        add_value(&mut body, "setup", &self.setup);
        add_value(&mut body, "run", &self.run);
        add_value(&mut body, "normalize", &self.normalize);
        add_value(&mut body, "total", &self.total);
        object_json(body.as_slice())
    }
}

/// How an execution stands to its time budget.
#[derive(Clone, Copy, Debug, PartialEq, Eq, Structural)]
pub struct Performance {
    pub status: PerformanceStatus,
    pub budget_ms: u32,
}

impl ToJson for Performance {
    open spec fn json(&self) -> Seq<char> {
        let body = Seq::<char>::empty();
        let body = json_member(body, "status"@, self.status.json());
        let body = json_member(body, "budget_ms"@, decimal(self.budget_ms as nat));
        json_object(body)
    }

    fn write_json(&self) -> (r: Vec<char>) {
        let mut body: Vec<char> = Vec::new();
        add_value(&mut body, "status", &self.status);
        add_number(&mut body, "budget_ms", self.budget_ms as u64);
        object_json(body.as_slice())
    }
}

/// What the cache did for an execution.
#[derive(Clone, Debug, PartialEq, Eq)]
pub struct Cache {
    pub status: String,
    pub restore_ms: Option<u64>,
    pub save_ms: Option<u64>,
}

impl ToJson for Cache {
    open spec fn json(&self) -> Seq<char> {
        let body = Seq::<char>::empty();
        let body = json_member(body, "status"@, json_string(self.status@));
        let body = json_optional(body, "restore_ms"@, optional_json(self.restore_ms));
        let body = json_optional(body, "save_ms"@, optional_json(self.save_ms));
        json_object(body)
    }

    fn write_json(&self) -> (r: Vec<char>) {
        let mut body: Vec<char> = Vec::new();
        add_string(&mut body, "status", self.status.as_str());
        add_optional(&mut body, "restore_ms", &self.restore_ms);
        add_optional(&mut body, "save_ms", &self.save_ms);
        object_json(body.as_slice())
    }
}

/// Which attempt an execution was.
#[derive(Clone, Debug, PartialEq, Eq)]
pub struct Retry {
    pub status: String,
    pub attempt: Option<u64>,
    pub same_revision: Option<bool>,
    pub group_id: Option<String>,
}

impl ToJson for Retry {
    open spec fn json(&self) -> Seq<char> {
        let body = Seq::<char>::empty();
        let body = json_member(body, "status"@, json_string(self.status@));
        let body = json_optional(body, "attempt"@, optional_json(self.attempt));
        let body = json_optional(body, "same_revision"@, optional_json(self.same_revision));
        let body = json_optional(body, "group_id"@, optional_string(self.group_id));
        json_object(body)
    }

    fn write_json(&self) -> (r: Vec<char>) {
        let mut body: Vec<char> = Vec::new();
        add_string(&mut body, "status", self.status.as_str());
        add_optional(&mut body, "attempt", &self.attempt);
        add_optional(&mut body, "same_revision", &self.same_revision);
        add_optional_string(&mut body, "group_id", &self.group_id);
        object_json(body.as_slice())
    }
}

/// The machine that an execution ran on.
#[derive(Clone, Debug, PartialEq, Eq)]
pub struct Runner {
    pub status: String,
    pub os: Option<String>,
    pub arch: Option<String>,
    pub image: Option<String>,
    pub fingerprint: Option<String>,
}

impl ToJson for Runner {
    open spec fn json(&self) -> Seq<char> {
        let body = Seq::<char>::empty();
        let body = json_member(body, "status"@, json_string(self.status@));
        let body = json_optional(body, "os"@, optional_string(self.os));
        let body = json_optional(body, "arch"@, optional_string(self.arch));
        let body = json_optional(body, "image"@, optional_string(self.image));
        let body = json_optional(body, "fingerprint"@, optional_string(self.fingerprint));
        json_object(body)
    }

    fn write_json(&self) -> (r: Vec<char>) {
        let mut body: Vec<char> = Vec::new();
        add_string(&mut body, "status", self.status.as_str());
        add_optional_string(&mut body, "os", &self.os);
        add_optional_string(&mut body, "arch", &self.arch);
        add_optional_string(&mut body, "image", &self.image);
        add_optional_string(&mut body, "fingerprint", &self.fingerprint);
        object_json(body.as_slice())
    }
}

/// The fix that an execution verified, and what it was verified against.
#[derive(Clone, Debug, PartialEq, Eq)]
pub struct VerificationAttribution {
    pub fix_candidate_id: String,
    pub patch_sha256: String,
    pub base_snapshot_sha256: String,
    pub base_snapshot_evidence_id: String,
    pub target_fingerprints: Vec<String>,
    pub result_evidence_id: String,
}

impl ToJson for VerificationAttribution {
    open spec fn json(&self) -> Seq<char> {
        let body = Seq::<char>::empty();
        let body = json_member(body, "fix_candidate_id"@, json_string(self.fix_candidate_id@));
        let body = json_member(body, "patch_sha256"@, json_string(self.patch_sha256@));
        let body = json_member(body, "base_snapshot_sha256"@, json_string(self.base_snapshot_sha256@));
        let body = json_member(body, "base_snapshot_evidence_id"@, json_string(self.base_snapshot_evidence_id@));
        let body = json_member(body, "target_fingerprints"@, json_list(jsons(arranged(self.target_fingerprints@))));
        let body = json_member(body, "result_evidence_id"@, json_string(self.result_evidence_id@));
        json_object(body)
    }

    fn write_json(&self) -> (r: Vec<char>) {
        let mut body: Vec<char> = Vec::new();
        add_string(&mut body, "fix_candidate_id", self.fix_candidate_id.as_str());
        add_string(&mut body, "patch_sha256", self.patch_sha256.as_str());
        add_string(&mut body, "base_snapshot_sha256", self.base_snapshot_sha256.as_str());
        add_string(&mut body, "base_snapshot_evidence_id", self.base_snapshot_evidence_id.as_str());
        let target_fingerprints: Vec<char> = sorted_json(&self.target_fingerprints);
        add_member(&mut body, "target_fingerprints", target_fingerprints.as_slice());
        add_string(&mut body, "result_evidence_id", self.result_evidence_id.as_str());
        object_json(body.as_slice())
    }
}

/// One run of an adapter.
#[derive(Clone, Debug, PartialEq, Eq)]
pub struct Execution {
    pub schema_version: String,
    pub execution_id: String,
    pub adapter_id: String,
    pub adapter_kind: AdapterKind,
    pub tool: Tool,
    pub toolchain_fingerprint: ToolchainFingerprint,
    pub required: bool,
    pub status: ExecutionStatus,
    pub exit_code: Option<u8>,
    pub message: Option<String>,
    pub phases_ms: ExecutionPhases,
    pub performance: Performance,
    pub cache: Cache,
    pub retry: Retry,
    pub runner: Runner,
    pub verification: Option<VerificationAttribution>,
}

impl ToJson for Execution {
    open spec fn json(&self) -> Seq<char> {
        let body = Seq::<char>::empty();
        let body = json_member(body, "schema_version"@, json_string(self.schema_version@));
        let body = json_member(body, "execution_id"@, json_string(self.execution_id@));
        let body = json_member(body, "adapter_id"@, json_string(self.adapter_id@));
        let body = json_member(body, "adapter_kind"@, self.adapter_kind.json());
        let body = json_member(body, "tool"@, self.tool.json());
        let body = json_member(body, "toolchain_fingerprint"@, self.toolchain_fingerprint.json());
        let body = json_member(body, "required"@, json_bool(self.required));
        let body = json_member(body, "status"@, self.status.json());
        let body = json_member(body, "exit_code"@, json_nullable(optional_json(self.exit_code)));
        let body = json_optional(body, "message"@, optional_string(self.message));
        let body = json_member(body, "phases_ms"@, self.phases_ms.json());
        let body = json_member(body, "performance"@, self.performance.json());
        let body = json_member(body, "cache"@, self.cache.json());
        let body = json_member(body, "retry"@, self.retry.json());
        let body = json_member(body, "runner"@, self.runner.json());
        let body = json_optional(body, "verification"@, optional_json(self.verification));
        json_object(body)
    }

    fn write_json(&self) -> (r: Vec<char>) {
        let mut body: Vec<char> = Vec::new();
        add_string(&mut body, "schema_version", self.schema_version.as_str());
        add_string(&mut body, "execution_id", self.execution_id.as_str());
        add_string(&mut body, "adapter_id", self.adapter_id.as_str());
        add_value(&mut body, "adapter_kind", &self.adapter_kind);
        add_value(&mut body, "tool", &self.tool);
        add_value(&mut body, "toolchain_fingerprint", &self.toolchain_fingerprint);
        add_bool(&mut body, "required", self.required);
        add_value(&mut body, "status", &self.status);
        add_nullable(&mut body, "exit_code", &self.exit_code);
        add_optional_string(&mut body, "message", &self.message);
        add_value(&mut body, "phases_ms", &self.phases_ms);
        add_value(&mut body, "performance", &self.performance);
        add_value(&mut body, "cache", &self.cache);
        add_value(&mut body, "retry", &self.retry);
        add_value(&mut body, "runner", &self.runner);
        add_optional(&mut body, "verification", &self.verification);
        object_json(body.as_slice())
    }
}

impl Keyed for Execution {
    open spec fn key(&self) -> Seq<Seq<char>> {
        seq![self.execution_id@]
    }

    fn compare(&self, other: &Self) -> (r: Placement) {
        proof {
            lemma_single_key(self.execution_id@, other.execution_id@);
        }
        compare_texts(self.execution_id.as_str(), other.execution_id.as_str())
    }
}

impl ToJson for EngineConfig {
    open spec fn json(&self) -> Seq<char> {
        let body = Seq::<char>::empty();
        let body = json_member(body, "version"@, json_string(self.version@));
        let body = json_member(body, "source_revision"@, json_string(self.source_revision@));
        json_object(body)
    }

    fn write_json(&self) -> (r: Vec<char>) {
        let mut body: Vec<char> = Vec::new();
        add_string(&mut body, "version", self.version.as_str());
        add_string(&mut body, "source_revision", self.source_revision.as_str());
        object_json(body.as_slice())
    }
}

/// Everything that a session came to. Its JSON form holds each list in the order of its identifiers.
#[derive(Clone, Debug, PartialEq, Eq)]
pub struct SessionReport {
    pub schema_version: String,
    pub session_id: String,
    pub engine: EngineConfig,
    pub contract_sha256: String,
    pub policy_digest: String,
    pub verdict: Verdict,
    pub observations: Vec<Observation>,
    pub findings: Vec<Finding>,
    pub decisions: Vec<Decision>,
    pub evidence: Vec<Evidence>,
    pub fix_candidates: Vec<FixCandidate>,
    pub executions: Vec<Execution>,
}

impl ToJson for SessionReport {
    open spec fn json(&self) -> Seq<char> {
        let body = Seq::<char>::empty();
        let body = json_member(body, "schema_version"@, json_string(self.schema_version@));
        let body = json_member(body, "session_id"@, json_string(self.session_id@));
        let body = json_member(body, "engine"@, self.engine.json());
        let body = json_member(body, "contract_sha256"@, json_string(self.contract_sha256@));
        let body = json_member(body, "policy_digest"@, json_string(self.policy_digest@));
        let body = json_member(body, "verdict"@, self.verdict.json());
        let body = json_member(body, "observations"@, json_list(jsons(arranged(self.observations@))));
        let body = json_member(body, "findings"@, json_list(jsons(arranged(self.findings@))));
        let body = json_member(body, "decisions"@, json_list(jsons(arranged(self.decisions@))));
        let body = json_member(body, "evidence"@, json_list(jsons(arranged(self.evidence@))));
        let body = json_member(body, "fix_candidates"@, json_list(jsons(arranged(self.fix_candidates@))));
        let body = json_member(body, "executions"@, json_list(jsons(arranged(self.executions@))));
        json_object(body)
    }

    fn write_json(&self) -> (r: Vec<char>) {
        let mut body: Vec<char> = Vec::new();
        add_string(&mut body, "schema_version", self.schema_version.as_str());
        add_string(&mut body, "session_id", self.session_id.as_str());
        add_value(&mut body, "engine", &self.engine);
        add_string(&mut body, "contract_sha256", self.contract_sha256.as_str());
        add_string(&mut body, "policy_digest", self.policy_digest.as_str());
        add_value(&mut body, "verdict", &self.verdict);
        let observations: Vec<char> = sorted_json(&self.observations);
        add_member(&mut body, "observations", observations.as_slice());
        let findings: Vec<char> = sorted_json(&self.findings);
        add_member(&mut body, "findings", findings.as_slice());
        let decisions: Vec<char> = sorted_json(&self.decisions);
        add_member(&mut body, "decisions", decisions.as_slice());
        let evidence: Vec<char> = sorted_json(&self.evidence);
        add_member(&mut body, "evidence", evidence.as_slice());
        let fix_candidates: Vec<char> = sorted_json(&self.fix_candidates);
        add_member(&mut body, "fix_candidates", fix_candidates.as_slice());
        let executions: Vec<char> = sorted_json(&self.executions);
        add_member(&mut body, "executions", executions.as_slice());
        object_json(body.as_slice())
    }
}

} // verus!
