//! The records that the runtime and its providers exchange.
use crate::json::{json_text_member, text_member};
use crate::model::{AdapterKind, Evidence, Execution, ExecutionStatus, FixCandidate, Observation};
use crate::order::equal_texts;
use crate::process::invocation::texts;
use crate::process::limits::RequestLimits;
use vstd::prelude::*;

verus! {

/// The longest request line, in bytes.
pub const MAX_REQUEST_BYTES: usize = 64 * 1024;

pub const CHECK_CAPABILITY: &'static str = "diagnostic.check/v1";

/// The identifier of a request that could not be read.
pub const FALLBACK_REQUEST_ID: &'static str = "00000000-0000-4000-8000-000000000000";

/// What a provider is asked to do.
#[derive(Clone, Copy, Debug, PartialEq, Eq, Structural)]
pub enum Operation {
    Check,
    Fix,
    Verify,
}

/// A request of the runtime.
#[derive(Clone, Debug, PartialEq, Eq)]
pub struct RequestEnvelope {
    pub request_id: String,
    pub operation: Operation,
    pub workspace: String,
    pub targets: Vec<String>,
    pub required_capabilities: Vec<String>,
    pub optional_capabilities: Vec<String>,
    pub limits: RequestLimits,
}

/// What a `RequestEnvelope` holds.
pub struct Request {
    pub request_id: Seq<char>,
    pub operation: Operation,
    pub workspace: Seq<char>,
    pub targets: Seq<Seq<char>>,
    pub required_capabilities: Seq<Seq<char>>,
    pub optional_capabilities: Seq<Seq<char>>,
    pub limits: RequestLimits,
}

impl View for RequestEnvelope {
    type V = Request;

    open spec fn view(&self) -> Request {
        Request {
            request_id: self.request_id@,
            operation: self.operation,
            workspace: self.workspace@,
            targets: texts(self.targets@),
            required_capabilities: texts(self.required_capabilities@),
            optional_capabilities: texts(self.optional_capabilities@),
            limits: self.limits,
        }
    }
}

/// Whether the two lists hold the same texts in the same order.
pub fn same_texts(a: &Vec<String>, b: &Vec<String>) -> (r: bool)
    ensures
        r == (texts(a@) == texts(b@)),
{
    if a.len() != b.len() {
        assert(texts(a@).len() == a.len());
        assert(texts(b@).len() == b.len());
        return false;
    }
    let mut i: usize = 0;
    while i < a.len()
        invariant
            i <= a.len(),
            a.len() == b.len(),
            forall|k: int| 0 <= k < i ==> (#[trigger] a@[k])@ == b@[k]@,
        decreases a.len() - i,
    {
        if !equal_texts(a[i].as_str(), b[i].as_str()) {
            assert(texts(a@)[i as int] != texts(b@)[i as int]);
            return false;
        }
        i = i + 1;
    }
    assert(texts(a@) =~= texts(b@));
    true
}

/// Whether one of the texts is `word`.
pub fn names(v: &Vec<String>, word: &str) -> (r: bool)
    ensures
        r == texts(v@).contains(word@),
{
    let mut i: usize = 0;
    while i < v.len()
        invariant
            i <= v.len(),
            forall|k: int| 0 <= k < i ==> (#[trigger] v@[k])@ != word@,
        decreases v.len() - i,
    {
        if equal_texts(v[i].as_str(), word) {
            assert(texts(v@)[i as int] == word@);
            return true;
        }
        i = i + 1;
    }
    assert forall|k: int| 0 <= k < texts(v@).len() implies #[trigger] texts(v@)[k] != word@ by {
        assert(v@[k]@ != word@);
    }
    false
}

/// A copy of the texts.
pub fn copy_texts(v: &Vec<String>) -> (r: Vec<String>)
    ensures
        r@ == v@,
{
    let mut out: Vec<String> = Vec::new();
    let mut i: usize = 0;
    while i < v.len()
        invariant
            i <= v.len(),
            out@ == v@.take(i as int),
        decreases v.len() - i,
    {
        out.push(v[i].clone());
        i = i + 1;
    }
    assert(v@.take(v@.len() as int) =~= v@);
    out
}

impl RequestEnvelope {
    /// Whether the two requests are the same.
    pub fn same(&self, other: &RequestEnvelope) -> (r: bool)
        ensures
            r == (self@ == other@),
    {
        equal_texts(self.request_id.as_str(), other.request_id.as_str()) && self.operation == other.operation
            && equal_texts(self.workspace.as_str(), other.workspace.as_str()) && same_texts(
            &self.targets,
            &other.targets,
        ) && same_texts(&self.required_capabilities, &other.required_capabilities) && same_texts(
            &self.optional_capabilities,
            &other.optional_capabilities,
        ) && self.limits == other.limits
    }
}

/// The line without the line end behind it, which is CR LF or LF.
pub open spec fn without_line_end(input: Seq<u8>) -> Seq<u8> {
    if input.len() >= 2 && input[input.len() - 2] == 13 && input[input.len() - 1] == 10 {
        input.take(input.len() - 2)
    } else if input.len() >= 1 && input[input.len() - 1] == 10 {
        input.take(input.len() - 1)
    } else {
        input
    }
}

/// No byte ends a line.
pub open spec fn one_line(line: Seq<u8>) -> bool {
    forall|i: int| 0 <= i < line.len() ==> #[trigger] line[i] != 10 && line[i] != 13
}

/// What the shared parser made of a line.
#[derive(Debug)]
pub enum Decoded {
    /// It is no envelope.
    Malformed(String),
    /// It is an envelope that violates the protocol.
    Invalid(String),
    /// It is a request.
    Request(RequestEnvelope),
    /// It is another envelope.
    Other,
}

/// One of the two lists names the capability.
pub open spec fn negotiates(request: RequestEnvelope, capability: Seq<char>) -> bool {
    texts(request.required_capabilities@).contains(capability) || texts(request.optional_capabilities@).contains(
        capability,
    )
}

/// Whether the request asks for the capability.
pub fn request_negotiates(request: &RequestEnvelope, capability: &str) -> (r: bool)
    ensures
        r == negotiates(*request, capability@),
{
    names(&request.required_capabilities, capability) || names(&request.optional_capabilities, capability)
}

/// The identifier that input which is no request gives itself.
pub fn named_request_id(input: &[u8]) -> (r: Option<String>)
    ensures
        match r {
            Some(text) => json_text_member(input@, "request_id"@) == Some(text@),
            None => json_text_member(input@, "request_id"@) is None,
        },
{
    text_member(input, "request_id")
}

/// Whom input that is no request is answered to: the identifier that it gives itself, if that is one
/// that records can hold.
pub fn recover_request_id(named: Option<String>, accepted: bool) -> (r: String)
    ensures
        r@ == match named {
            Some(id) => if accepted {
                id@
            } else {
                FALLBACK_REQUEST_ID@
            },
            None => FALLBACK_REQUEST_ID@,
        },
{
    match named {
        Some(id) => {
            if accepted {
                id
            } else {
                FALLBACK_REQUEST_ID.to_owned()
            }
        },
        None => FALLBACK_REQUEST_ID.to_owned(),
    }
}

/// What an adapter says of itself.
#[derive(Clone, Debug, PartialEq, Eq)]
pub struct AdapterManifest {
    pub id: String,
    pub version: String,
    pub kind: AdapterKind,
    pub capabilities: Vec<String>,
    pub languages: Vec<String>,
}

/// How many events of each kind a session held.
#[derive(Clone, Copy, Debug, PartialEq, Eq, Structural)]
pub struct CompletionCounts {
    pub observations: u64,
    pub evidence: u64,
    pub fix_candidates: u64,
    pub executions: u64,
}

/// The last word of a session.
#[derive(Clone, Debug, PartialEq, Eq)]
pub struct CompletionEnvelope {
    pub request_id: String,
    pub sequence: u64,
    pub status: ExecutionStatus,
    pub tool_exit_code: Option<u8>,
    pub tool_duration_ms: u64,
    pub counts: CompletionCounts,
    pub evidence_bytes: u64,
    pub message: Option<String>,
}

#[derive(Clone, Debug, PartialEq, Eq)]
pub struct ObservationEnvelope {
    pub request_id: String,
    pub sequence: u64,
    pub observation: Observation,
}

#[derive(Clone, Debug, PartialEq, Eq)]
pub struct EvidenceEnvelope {
    pub request_id: String,
    pub sequence: u64,
    pub evidence: Evidence,
}

#[derive(Clone, Debug, PartialEq, Eq)]
pub struct FixCandidateEnvelope {
    pub request_id: String,
    pub sequence: u64,
    pub fix_candidate: FixCandidate,
}

#[derive(Clone, Debug, PartialEq, Eq)]
pub struct ExecutionEnvelope {
    pub request_id: String,
    pub sequence: u64,
    pub execution: Execution,
}

/// One event of a session.
#[derive(Clone, Debug, PartialEq, Eq)]
pub enum ProtocolEvent {
    Observation(ObservationEnvelope),
    Evidence(EvidenceEnvelope),
    FixCandidate(FixCandidateEnvelope),
    Execution(ExecutionEnvelope),
}

/// A session that satisfies the protocol.
#[derive(Clone, Debug, PartialEq, Eq)]
pub struct ValidatedSession {
    pub adapter: AdapterManifest,
    pub request: RequestEnvelope,
    pub events: Vec<ProtocolEvent>,
    pub completion: CompletionEnvelope,
}

} // verus!
