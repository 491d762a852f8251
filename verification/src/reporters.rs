//! Bounded, deterministic reporters for validated session reports.
use crate::json::{jsons, ToJson};
use crate::model::{Execution, Finding, FixCandidate, Observation, SessionReport, VerificationAttribution};
use crate::order::{arranged, distinct, law_arranged_texts_ignore_order, law_arranging_ignores_order, placed, Keyed};
use crate::process::invocation::texts;
use crate::text::{lemma_utf8_push, lemma_utf8_width, string_of, utf8_len, width_of};
use vstd::prelude::*;
use vstd::string::*;
use vstd::utf8::*;

pub mod annotations;
pub mod draft;
pub mod laws;
pub mod markdown;
pub mod readback;
pub mod records;
pub mod table;
pub mod tsv;
pub mod wire;

verus! {

/// Output formats of a report.
#[derive(Clone, Copy, Debug, PartialEq, Eq, Structural)]
pub enum ReportFormat {
    /// Compact canonical JSON that holds the complete report.
    Json,
    /// A SARIF projection for external diagnostic consumers.
    Sarif,
    /// A tab-separated finding and decision projection.
    Tsv,
    /// GitHub workflow-command annotations for policy decisions.
    GitHubAnnotations,
    /// A bug issue draft as JSON.
    BugIssueDraftJson,
    /// A bug issue draft as Markdown.
    BugIssueDraftMarkdown,
}

impl ReportFormat {
    pub open spec fn title(self) -> Seq<char> {
        match self {
            ReportFormat::Json => "JSON"@,
            ReportFormat::Sarif => "SARIF"@,
            ReportFormat::Tsv => "TSV"@,
            ReportFormat::GitHubAnnotations => "GitHub annotations"@,
            ReportFormat::BugIssueDraftJson => "bug issue draft JSON"@,
            ReportFormat::BugIssueDraftMarkdown => "bug issue draft Markdown"@,
        }
    }

    /// What the format is called.
    pub fn name(&self) -> (r: &'static str)
        ensures
            r@ == self.title(),
    {
        match self {
            ReportFormat::Json => "JSON",
            ReportFormat::Sarif => "SARIF",
            ReportFormat::Tsv => "TSV",
            ReportFormat::GitHubAnnotations => "GitHub annotations",
            ReportFormat::BugIssueDraftJson => "bug issue draft JSON",
            ReportFormat::BugIssueDraftMarkdown => "bug issue draft Markdown",
        }
    }
}

/// Errors raised before or during report output.
#[derive(Clone, Debug, PartialEq, Eq)]
pub enum ReporterError {
    /// The input is not a valid report.
    Contract(String),
    /// The encoded report would exceed the output limit.
    OutputTooLarge { format: ReportFormat, max: usize },
    /// A finding has no policy decision.
    MissingDecision { finding_id: String },
    /// The intended output writer rejected the bytes; it may have accepted a prefix of them.
    Io { format: ReportFormat, message: String },
}

/// What a report that must not be written suffers from.
pub enum ReportFault {
    Contract { message: Seq<char> },
    OutputTooLarge { format: ReportFormat, max: nat },
    MissingDecision { finding_id: Seq<char> },
}

/// The error says what the fault is.
pub open spec fn reports_fault(error: ReporterError, fault: ReportFault) -> bool {
    match fault {
        ReportFault::Contract { message } => error matches ReporterError::Contract(text) && text@ == message,
        ReportFault::OutputTooLarge { format, max } => error matches ReporterError::OutputTooLarge {
            format: f,
            max: m,
        } && f == format && m == max,
        ReportFault::MissingDecision { finding_id } => error matches ReporterError::MissingDecision {
            finding_id: id,
        } && id@ == finding_id,
    }
}

/// The bytes are the text in UTF-8, or the error says what stands against it.
pub open spec fn renders(r: Result<Vec<u8>, ReporterError>, text: Result<Seq<char>, ReportFault>) -> bool {
    match text {
        Ok(chars) => r matches Ok(bytes) && bytes@ == encode_utf8(chars),
        Err(fault) => r matches Err(error) && reports_fault(error, fault),
    }
}

/// The text, where it takes at most `max` bytes.
pub open spec fn bounded(text: Seq<char>, format: ReportFormat, max: nat) -> Result<Seq<char>, ReportFault> {
    if utf8_len(text) <= max {
        Ok(text)
    } else {
        Err(ReportFault::OutputTooLarge { format, max })
    }
}

/// A report that passed the report contract, with the number of bytes that the contract lets its
/// representations take.
#[derive(Clone, Debug, PartialEq, Eq)]
pub struct ValidatedSessionReport {
    report: SessionReport,
    max_bytes: usize,
}

impl ValidatedSessionReport {
    pub closed spec fn content(&self) -> SessionReport {
        self.report
    }

    pub closed spec fn limit(&self) -> nat {
        self.max_bytes as nat
    }

    /// Takes a report that the report contract has judged: `violation` says what it found wrong,
    /// and `max_bytes` how long a representation may be.
    pub fn new(report: SessionReport, max_bytes: usize, violation: Option<String>) -> (r: Result<Self, ReporterError>)
        ensures
            match violation {
                None => r matches Ok(v) && v.content() == report && v.limit() == max_bytes,
                Some(message) => r == Err::<Self, ReporterError>(ReporterError::Contract(message)),
            },
    {
        match violation {
            None => Ok(ValidatedSessionReport { report, max_bytes }),
            Some(message) => Err(ReporterError::Contract(message)),
        }
    }

    /// Takes a report as the shared contract parser decoded it from JSON.
    pub fn from_json(decoded: Result<SessionReport, String>, max_bytes: usize) -> (r: Result<Self, ReporterError>)
        ensures
            match decoded {
                Ok(report) => r matches Ok(v) && v.content() == report && v.limit() == max_bytes,
                Err(message) => r == Err::<Self, ReporterError>(ReporterError::Contract(message)),
            },
    {
        match decoded {
            Ok(report) => Ok(ValidatedSessionReport { report, max_bytes }),
            Err(message) => Err(ReporterError::Contract(message)),
        }
    }

    /// The report itself.
    pub fn as_report(&self) -> (r: &SessionReport)
        ensures
            *r == self.content(),
    {
        &self.report
    }

    /// The report itself.
    pub fn into_report(self) -> (r: SessionReport)
        ensures
            r == self.content(),
    {
        self.report
    }

    /// How many bytes a representation may take.
    pub fn max_output_bytes(&self) -> (r: usize)
        ensures
            r == self.limit(),
    {
        self.max_bytes
    }
}

/// The text in UTF-8.
pub open spec fn in_utf8(text: Result<Seq<char>, ReportFault>) -> Result<Seq<u8>, ReportFault> {
    match text {
        Ok(chars) => Ok(encode_utf8(chars)),
        Err(fault) => Err(fault),
    }
}

/// The bytes are those expected, or the error says what stands against them.
pub open spec fn delivers(r: Result<Vec<u8>, ReporterError>, expected: Result<Seq<u8>, ReportFault>) -> bool {
    match expected {
        Ok(content) => r matches Ok(bytes) && bytes@ == content,
        Err(fault) => r matches Err(error) && reports_fault(error, fault),
    }
}

/// A report format. What it renders is complete: a report that cannot be rendered within the limit
/// gives no bytes at all.
pub trait Reporter {
    /// What it renders of the report.
    spec fn rendering(&self, report: SessionReport, max: nat) -> Result<Seq<u8>, ReportFault>;

    /// The bytes to be written.
    fn report_bytes(&self, report: &ValidatedSessionReport) -> (r: Result<Vec<u8>, ReporterError>)
        ensures
            delivers(r, self.rendering(report.content(), report.limit())),
    ;
}

/// The complete canonical JSON reporter.
#[derive(Clone, Copy, Debug, Default)]
pub struct CanonicalJsonReporter;

impl Reporter for CanonicalJsonReporter {
    open spec fn rendering(&self, report: SessionReport, max: nat) -> Result<Seq<u8>, ReportFault> {
        in_utf8(bounded(report.json(), ReportFormat::Json, max))
    }

    fn report_bytes(&self, report: &ValidatedSessionReport) -> (r: Result<Vec<u8>, ReporterError>) {
        canonical_json_bytes(report)
    }
}

/// The number of bytes that the text takes in UTF-8.
pub fn utf8_size(text: &[char]) -> (r: u128)
    ensures
        r == utf8_len(text@),
        r <= 4 * text.len(),
{
    let mut n: u128 = 0;
    let mut i: usize = 0;
    assert(encode_utf8(text@.take(0)) =~= Seq::<u8>::empty());
    while i < text.len()
        invariant
            i <= text.len(),
            n == utf8_len(text@.take(i as int)),
            n <= 4 * i,
        decreases text.len() - i,
    {
        proof {
            assert(text@.take(i + 1) =~= text@.take(i as int).push(text@[i as int]));
            lemma_utf8_push(text@.take(i as int), text@[i as int]);
            lemma_utf8_width(text@[i as int]);
        }
        n = n + width_of(text[i]) as u128;
        i = i + 1;
    }
    assert(text@.take(text@.len() as int) =~= text@);
    n
}

/// The text in UTF-8.
pub fn utf8_bytes(text: &[char]) -> (r: Vec<u8>)
    ensures
        r@ == encode_utf8(text@),
{
    let s: String = string_of(text);
    s.as_str().as_bytes_vec()
}

/// The text in UTF-8, where it takes at most `limit` bytes.
pub fn bounded_bytes(text: &[char], format: ReportFormat, limit: usize) -> (r: Result<Vec<u8>, ReporterError>)
    ensures
        renders(r, bounded(text@, format, limit as nat)),
{
    if utf8_size(text) > limit as u128 {
        return Err(ReporterError::OutputTooLarge { format, max: limit });
    }
    Ok(utf8_bytes(text))
}

/// Encodes a report as canonical JSON of at most `limit` bytes.
pub fn encode_json(report: &SessionReport, limit: usize) -> (r: Result<Vec<u8>, ReporterError>)
    ensures
        renders(r, bounded(report.json(), ReportFormat::Json, limit as nat)),
{
    let text: Vec<char> = report.write_json();
    bounded_bytes(text.as_slice(), ReportFormat::Json, limit)
}

/// Encodes a validated report as bounded canonical JSON.
pub fn canonical_json_bytes(report: &ValidatedSessionReport) -> (r: Result<Vec<u8>, ReporterError>)
    ensures
        renders(r, bounded(report.content().json(), ReportFormat::Json, report.limit())),
{
    encode_json(report.as_report(), report.max_output_bytes())
}

/// The two reports hold the same records, each list in an order of its own, and no two records of a
/// list share their place.
pub open spec fn same_records(a: SessionReport, b: SessionReport) -> bool {
    &&& a.schema_version@ == b.schema_version@
    &&& a.session_id@ == b.session_id@
    &&& a.engine == b.engine
    &&& a.contract_sha256@ == b.contract_sha256@
    &&& a.policy_digest@ == b.policy_digest@
    &&& a.verdict == b.verdict
    &&& distinct(a.observations@) && a.observations@.to_multiset() == b.observations@.to_multiset()
    &&& distinct(a.findings@) && a.findings@.to_multiset() == b.findings@.to_multiset()
    &&& distinct(a.decisions@) && a.decisions@.to_multiset() == b.decisions@.to_multiset()
    &&& distinct(a.evidence@) && a.evidence@.to_multiset() == b.evidence@.to_multiset()
    &&& distinct(a.fix_candidates@) && a.fix_candidates@.to_multiset() == b.fix_candidates@.to_multiset()
    &&& distinct(a.executions@) && a.executions@.to_multiset() == b.executions@.to_multiset()
}

/// The two lists hold the same texts, each as often, in whatever order.
pub open spec fn same_ids(a: Seq<String>, b: Seq<String>) -> bool {
    texts(a).to_multiset() == texts(b).to_multiset()
}

/// The observations differ in the order of their evidence at most.
pub open spec fn same_observation(a: Observation, b: Observation) -> bool {
    &&& b == Observation { evidence_ids: b.evidence_ids, ..a }
    &&& same_ids(a.evidence_ids@, b.evidence_ids@)
}

/// The findings differ in the order of the identifiers in their lists at most.
pub open spec fn same_finding(a: Finding, b: Finding) -> bool {
    &&& b == Finding {
        observation_ids: b.observation_ids,
        evidence_ids: b.evidence_ids,
        verification_execution_ids: b.verification_execution_ids,
        ..a
    }
    &&& same_ids(a.observation_ids@, b.observation_ids@)
    &&& same_ids(a.evidence_ids@, b.evidence_ids@)
    &&& match (a.verification_execution_ids, b.verification_execution_ids) {
        (Some(x), Some(y)) => same_ids(x@, y@),
        (None, None) => true,
        _ => false,
    }
}

/// The fix candidates differ in the order of their observations at most.
pub open spec fn same_fix_candidate(a: FixCandidate, b: FixCandidate) -> bool {
    &&& b == FixCandidate { observation_ids: b.observation_ids, ..a }
    &&& same_ids(a.observation_ids@, b.observation_ids@)
}

/// The executions differ in the order of the fingerprints that they verified at most.
pub open spec fn same_execution(a: Execution, b: Execution) -> bool {
    &&& b == Execution { verification: b.verification, ..a }
    &&& match (a.verification, b.verification) {
        (Some(x), Some(y)) => y == VerificationAttribution { target_fingerprints: y.target_fingerprints, ..x } && same_ids(
            x.target_fingerprints@,
            y.target_fingerprints@,
        ),
        (None, None) => true,
        _ => false,
    }
}

/// The two reports hold the same records in the same order; only the identifiers in the lists inside
/// a record may be in another.
pub open spec fn same_inside(a: SessionReport, b: SessionReport) -> bool {
    &&& a.schema_version@ == b.schema_version@
    &&& a.session_id@ == b.session_id@
    &&& a.engine == b.engine
    &&& a.contract_sha256@ == b.contract_sha256@
    &&& a.policy_digest@ == b.policy_digest@
    &&& a.verdict == b.verdict
    &&& a.observations@.len() == b.observations@.len()
    &&& forall|i: int|
        0 <= i < a.observations@.len() ==> same_observation(#[trigger] a.observations@[i], b.observations@[i])
    &&& a.findings@.len() == b.findings@.len()
    &&& forall|i: int| 0 <= i < a.findings@.len() ==> same_finding(#[trigger] a.findings@[i], b.findings@[i])
    &&& a.decisions@ == b.decisions@
    &&& a.evidence@ == b.evidence@
    &&& a.fix_candidates@.len() == b.fix_candidates@.len()
    &&& forall|i: int|
        0 <= i < a.fix_candidates@.len() ==> same_fix_candidate(#[trigger] a.fix_candidates@[i], b.fix_candidates@[i])
    &&& a.executions@.len() == b.executions@.len()
    &&& forall|i: int| 0 <= i < a.executions@.len() ==> same_execution(#[trigger] a.executions@[i], b.executions@[i])
}

/// The two reports differ in order alone: that of their records, and that of the identifiers in the
/// lists inside a record. `between` has the records of the one in the order of the other.
pub open spec fn same_up_to_order(a: SessionReport, b: SessionReport) -> bool {
    exists|between: SessionReport| #[trigger] same_records(a, between) && same_inside(between, b)
}

/// The values have the same places, and the same JSON forms.
spec fn written_alike<T: Keyed + ToJson>(a: Seq<T>, b: Seq<T>) -> bool {
    &&& a.len() == b.len()
    &&& forall|i: int| 0 <= i < a.len() ==> (#[trigger] a[i]).key() == b[i].key() && a[i].json() == b[i].json()
}

proof fn lemma_alike_front<T: Keyed + ToJson>(a: Seq<T>, b: Seq<T>)
    requires
        written_alike(a, b),
        a.len() > 0,
    ensures
        written_alike(a.drop_last(), b.drop_last()),
        a.last().key() == b.last().key(),
        a.last().json() == b.last().json(),
{
    assert(a.last() == a[a.len() - 1] && b.last() == b[b.len() - 1]);
    assert forall|i: int| 0 <= i < a.len() - 1 implies (#[trigger] a.drop_last()[i]).key() == b.drop_last()[i].key()
        && a.drop_last()[i].json() == b.drop_last()[i].json() by {
        assert(a.drop_last()[i] == a[i] && b.drop_last()[i] == b[i]);
    }
}

proof fn lemma_placed_alike<T: Keyed + ToJson>(a: Seq<T>, b: Seq<T>, x: T, y: T)
    requires
        written_alike(a, b),
        x.key() == y.key(),
        x.json() == y.json(),
    ensures
        written_alike(placed(a, x), placed(b, y)),
    decreases a.len(),
{
    if a.len() > 0 {
        lemma_alike_front(a, b);
        lemma_placed_alike(a.drop_last(), b.drop_last(), x, y);
    }
}

proof fn lemma_arranged_alike<T: Keyed + ToJson>(a: Seq<T>, b: Seq<T>)
    requires
        written_alike(a, b),
    ensures
        written_alike(arranged(a), arranged(b)),
    decreases a.len(),
{
    if a.len() > 0 {
        lemma_alike_front(a, b);
        lemma_arranged_alike(a.drop_last(), b.drop_last());
        lemma_placed_alike(arranged(a.drop_last()), arranged(b.drop_last()), a.last(), b.last());
    }
}

proof fn lemma_alike_lists<T: Keyed + ToJson>(a: Seq<T>, b: Seq<T>)
    requires
        written_alike(a, b),
    ensures
        jsons(arranged(a)) == jsons(arranged(b)),
{
    lemma_arranged_alike(a, b);
    let x = arranged(a);
    let y = arranged(b);
    assert forall|i: int| 0 <= i < x.len() implies jsons(x)[i] == jsons(y)[i] by {
        assert(x[i].json() == y[i].json());
    }
    assert(jsons(x) =~= jsons(y));
}

proof fn lemma_same_ids(a: Seq<String>, b: Seq<String>)
    requires
        same_ids(a, b),
    ensures
        jsons(arranged(a)) == jsons(arranged(b)),
{
    law_arranged_texts_ignore_order(a, b);
    let x = arranged(a);
    let y = arranged(b);
    assert(texts(x).len() == texts(y).len());
    assert forall|i: int| 0 <= i < x.len() implies jsons(x)[i] == jsons(y)[i] by {
        assert(texts(x)[i] == texts(y)[i]);
    }
    assert(jsons(x) =~= jsons(y));
}

proof fn lemma_same_finding(a: Finding, b: Finding)
    requires
        same_finding(a, b),
    ensures
        a.json() == b.json(),
{
    lemma_same_ids(a.observation_ids@, b.observation_ids@);
    lemma_same_ids(a.evidence_ids@, b.evidence_ids@);
    match (a.verification_execution_ids, b.verification_execution_ids) {
        (Some(x), Some(y)) => {
            lemma_same_ids(x@, y@);
        },
        _ => {},
    }
}

proof fn lemma_same_execution(a: Execution, b: Execution)
    requires
        same_execution(a, b),
    ensures
        a.json() == b.json(),
{
    match (a.verification, b.verification) {
        (Some(x), Some(y)) => {
            lemma_same_ids(x.target_fingerprints@, y.target_fingerprints@);
            assert(x.json() == y.json());
        },
        _ => {},
    }
}

proof fn lemma_same_inside(a: SessionReport, b: SessionReport)
    requires
        same_inside(a, b),
    ensures
        a.json() == b.json(),
{
    assert forall|i: int| 0 <= i < a.observations@.len() implies (#[trigger] a.observations@[i]).key()
        == b.observations@[i].key() && a.observations@[i].json() == b.observations@[i].json() by {
        assert(same_observation(a.observations@[i], b.observations@[i]));
        lemma_same_ids(a.observations@[i].evidence_ids@, b.observations@[i].evidence_ids@);
    }
    assert forall|i: int| 0 <= i < a.findings@.len() implies (#[trigger] a.findings@[i]).key() == b.findings@[i].key()
        && a.findings@[i].json() == b.findings@[i].json() by {
        lemma_same_finding(a.findings@[i], b.findings@[i]);
    }
    assert forall|i: int| 0 <= i < a.fix_candidates@.len() implies (#[trigger] a.fix_candidates@[i]).key()
        == b.fix_candidates@[i].key() && a.fix_candidates@[i].json() == b.fix_candidates@[i].json() by {
        assert(same_fix_candidate(a.fix_candidates@[i], b.fix_candidates@[i]));
        lemma_same_ids(a.fix_candidates@[i].observation_ids@, b.fix_candidates@[i].observation_ids@);
    }
    assert forall|i: int| 0 <= i < a.executions@.len() implies (#[trigger] a.executions@[i]).key()
        == b.executions@[i].key() && a.executions@[i].json() == b.executions@[i].json() by {
        lemma_same_execution(a.executions@[i], b.executions@[i]);
    }
    lemma_alike_lists(a.observations@, b.observations@);
    lemma_alike_lists(a.findings@, b.findings@);
    lemma_alike_lists(a.fix_candidates@, b.fix_candidates@);
    lemma_alike_lists(a.executions@, b.executions@);
}

proof fn lemma_same_records(a: SessionReport, b: SessionReport)
    requires
        same_records(a, b),
    ensures
        a.json() == b.json(),
{
    law_arranging_ignores_order(a.observations@, b.observations@);
    law_arranging_ignores_order(a.findings@, b.findings@);
    law_arranging_ignores_order(a.decisions@, b.decisions@);
    law_arranging_ignores_order(a.evidence@, b.evidence@);
    law_arranging_ignores_order(a.fix_candidates@, b.fix_candidates@);
    law_arranging_ignores_order(a.executions@, b.executions@);
}

/// The canonical JSON of a report does not show the order in which its records were given, nor that
/// of the identifiers in the lists inside a record; under one limit, both reports are encoded or both
/// are refused.
pub proof fn law_canonical_json_ignores_order(a: SessionReport, b: SessionReport, limit: nat)
    requires
        same_up_to_order(a, b),
    ensures
        a.json() == b.json(),
        bounded(a.json(), ReportFormat::Json, limit) == bounded(b.json(), ReportFormat::Json, limit),
{
    let between = choose|between: SessionReport| #[trigger] same_records(a, between) && same_inside(between, b);
    lemma_same_records(a, between);
    lemma_same_inside(between, b);
}

} // verus!
