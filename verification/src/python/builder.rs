//! The envelopes of one session, numbered and counted.
use super::error::ProviderError;
use crate::identifier::{derive_id, derived_id};
use crate::model::{
    Applicability, Evidence, EvidenceSource, ExecutionStatus, FixCandidate, Observation, EVIDENCE_SCHEMA,
    FIX_CANDIDATE_SCHEMA,
};
use crate::numeral::capped_sum;
use crate::process::invocation::texts;
use crate::protocol::{
    CompletionCounts, CompletionEnvelope, EvidenceEnvelope, FixCandidateEnvelope, ObservationEnvelope,
    RequestEnvelope,
};
use crate::utf8::{retain, retained};
use vstd::prelude::*;
use vstd::utf8::*;

verus! {

pub const RUFF_FIX_MEDIA_TYPE: &'static str = "application/vnd.ruff.fix+json";

/// Numbers the events of a session, counts them, and writes its last word.
#[derive(Clone, Debug)]
pub struct CompletionBuilder {
    pub request_id: String,
    pub next_sequence: u64,
    pub max_events: u64,
    pub timeout_ms: u64,
    pub max_evidence_bytes: u32,
    pub counts: CompletionCounts,
    pub evidence_bytes: u64,
}

/// What a `CompletionBuilder` holds.
pub struct Builder {
    pub request_id: Seq<char>,
    pub next_sequence: u64,
    pub max_events: u64,
    pub timeout_ms: u64,
    pub max_evidence_bytes: u32,
    pub counts: CompletionCounts,
    pub evidence_bytes: u64,
}

impl View for CompletionBuilder {
    type V = Builder;

    open spec fn view(&self) -> Builder {
        Builder {
            request_id: self.request_id@,
            next_sequence: self.next_sequence,
            max_events: self.max_events,
            timeout_ms: self.timeout_ms,
            max_evidence_bytes: self.max_evidence_bytes,
            counts: self.counts,
            evidence_bytes: self.evidence_bytes,
        }
    }
}

pub open spec fn no_events() -> CompletionCounts {
    CompletionCounts { observations: 0, evidence: 0, fix_candidates: 0, executions: 0 }
}

impl Builder {
    /// Every event is counted once, and there are no more of them than the request allows.
    pub open spec fn wf(self) -> bool {
        &&& self.counts.observations + self.counts.evidence + self.counts.fix_candidates == self.next_sequence
        &&& self.counts.executions == 0
        &&& self.next_sequence <= self.max_events
    }

    pub open spec fn has_room(self) -> bool {
        self.next_sequence < self.max_events
    }

    /// The identifier of the next event.
    pub open spec fn next_id(self) -> Option<Seq<char>> {
        if self.next_sequence == u64::MAX {
            None
        } else {
            derived_id(self.request_id, (self.next_sequence + 1) as u64)
        }
    }

    pub open spec fn with_observation(self) -> Builder {
        Builder {
            next_sequence: (self.next_sequence + 1) as u64,
            counts: CompletionCounts { observations: (self.counts.observations + 1) as u64, ..self.counts },
            ..self
        }
    }

    pub open spec fn with_evidence(self, kept: nat) -> Builder {
        Builder {
            next_sequence: (self.next_sequence + 1) as u64,
            counts: CompletionCounts { evidence: (self.counts.evidence + 1) as u64, ..self.counts },
            evidence_bytes: capped_sum(self.evidence_bytes, kept),
            ..self
        }
    }

    pub open spec fn with_fix_candidate(self) -> Builder {
        Builder {
            next_sequence: (self.next_sequence + 1) as u64,
            counts: CompletionCounts { fix_candidates: (self.counts.fix_candidates + 1) as u64, ..self.counts },
            ..self
        }
    }
}

/// The builder of a request's session.
pub open spec fn builder_of(request: RequestEnvelope) -> Builder {
    Builder {
        request_id: request.request_id@,
        next_sequence: 0,
        max_events: request.limits.max_events,
        timeout_ms: request.limits.timeout_ms,
        max_evidence_bytes: if request.limits.max_evidence_bytes > u32::MAX {
            u32::MAX
        } else {
            request.limits.max_evidence_bytes as u32
        },
        counts: no_events(),
        evidence_bytes: 0,
    }
}

/// What keeps an event from being written.
pub enum EventFault {
    /// The request allows no more events.
    Limit,
    /// The next event has no identifier.
    Identifier,
    /// The event violates the protocol.
    Contract(Seq<char>),
}

/// The message of an event that has no identifier.
pub const NO_IDENTIFIER: &'static str = "event identifier cannot be derived";

/// The error says what the fault is.
pub open spec fn reports_event_fault(error: ProviderError, fault: EventFault) -> bool {
    match fault {
        EventFault::Limit => error is EventLimit,
        EventFault::Identifier => error matches ProviderError::Contract(text) && text@ == NO_IDENTIFIER@,
        EventFault::Contract(message) => error matches ProviderError::Contract(text) && text@ == message,
    }
}

/// The evidence of an output: what is kept of it, with how much of it there was.
pub open spec fn is_evidence(
    evidence: Evidence,
    builder: Builder,
    source: EvidenceSource,
    media_type: Seq<char>,
    bytes: Seq<u8>,
    observed: u64,
    digest: Seq<char>,
) -> bool {
    let kept = retained(bytes, builder.max_evidence_bytes);
    &&& evidence.schema_version@ == EVIDENCE_SCHEMA@
    &&& builder.next_id() == Some(evidence.evidence_id@)
    &&& evidence.execution_id is None
    &&& evidence.source == source
    &&& evidence.media_type@ == media_type
    &&& evidence.retained_bytes == kept.len()
    &&& evidence.observed_bytes == observed
    &&& evidence.limit_bytes == builder.max_evidence_bytes
    &&& evidence.truncated == (observed > kept.len())
    &&& evidence.sha256@ == digest
    &&& evidence.relative_path is None
    &&& evidence.content matches Some(text) && encode_utf8(text@) == kept
}

/// What keeps evidence from being written.
pub open spec fn evidence_fault(builder: Builder, violation: Option<String>) -> Option<EventFault> {
    if !builder.has_room() {
        Some(EventFault::Limit)
    } else if builder.next_id() is None {
        Some(EventFault::Identifier)
    } else {
        match violation {
            Some(message) => Some(EventFault::Contract(message@)),
            None => None,
        }
    }
}

/// What keeps an observation from being written.
pub open spec fn observation_fault(builder: Builder, violation: Option<String>) -> Option<EventFault> {
    if !builder.has_room() {
        Some(EventFault::Limit)
    } else {
        match violation {
            Some(message) => Some(EventFault::Contract(message@)),
            None => None,
        }
    }
}

/// The fix candidate of an observation.
pub open spec fn is_fix_candidate(
    fix: FixCandidate,
    builder: Builder,
    observation_id: Seq<char>,
    applicability: Applicability,
    patch_evidence_id: Seq<char>,
) -> bool {
    &&& fix.schema_version@ == FIX_CANDIDATE_SCHEMA@
    &&& builder.next_id() == Some(fix.fix_candidate_id@)
    &&& texts(fix.observation_ids@) == seq![observation_id]
    &&& fix.applicability == applicability
    &&& fix.tool_native
    &&& fix.patch_evidence_id@ == patch_evidence_id
}

/// The last word of a session.
pub open spec fn is_completion(
    completion: CompletionEnvelope,
    builder: Builder,
    status: ExecutionStatus,
    exit_code: Option<u8>,
    duration_ms: u64,
    message: Option<Seq<char>>,
) -> bool {
    &&& completion.request_id@ == builder.request_id
    &&& completion.sequence == builder.next_sequence
    &&& completion.status == status
    &&& completion.tool_exit_code == exit_code
    &&& completion.tool_duration_ms == duration_ms
    &&& completion.counts == builder.counts
    &&& completion.evidence_bytes == builder.evidence_bytes
    &&& crate::execution::text_of(completion.message) == message
}

/// What a session's last word comes to.
pub open spec fn completes(
    r: Result<CompletionEnvelope, ProviderError>,
    builder: Builder,
    status: ExecutionStatus,
    exit_code: Option<u8>,
    duration_ms: u64,
    message: Option<Seq<char>>,
    violation: Option<String>,
) -> bool {
    if duration_ms > builder.timeout_ms {
        r matches Err(ProviderError::Contract(text)) && text@ == "completion duration exceeds the request timeout"@
    } else {
        match violation {
            Some(text) => r == Err::<CompletionEnvelope, ProviderError>(ProviderError::Contract(text)),
            None => r matches Ok(completion) && is_completion(
                completion,
                builder,
                status,
                exit_code,
                duration_ms,
                message,
            ),
        }
    }
}

impl CompletionBuilder {
    /// The builder of a request's session.
    pub fn new(request: &RequestEnvelope) -> (r: CompletionBuilder)
        ensures
            r@ == builder_of(*request),
            r@.wf(),
    {
        CompletionBuilder {
            request_id: request.request_id.clone(),
            next_sequence: 0,
            max_events: request.limits.max_events,
            timeout_ms: request.limits.timeout_ms,
            max_evidence_bytes: if request.limits.max_evidence_bytes > u32::MAX as u64 {
                u32::MAX
            } else {
                request.limits.max_evidence_bytes as u32
            },
            counts: CompletionCounts { observations: 0, evidence: 0, fix_candidates: 0, executions: 0 },
            evidence_bytes: 0,
        }
    }

    /// A builder that holds the same.
    pub fn duplicate(&self) -> (r: CompletionBuilder)
        ensures
            r@ == self@,
    {
        CompletionBuilder {
            request_id: self.request_id.clone(),
            next_sequence: self.next_sequence,
            max_events: self.max_events,
            timeout_ms: self.timeout_ms,
            max_evidence_bytes: self.max_evidence_bytes,
            counts: self.counts,
            evidence_bytes: self.evidence_bytes,
        }
    }

    /// Whether the request allows another event.
    pub fn has_room(&self) -> (r: bool)
        ensures
            r == self@.has_room(),
    {
        self.next_sequence < self.max_events
    }

    /// The identifier of the next event.
    pub fn next_id(&self) -> (r: Option<String>)
        ensures
            match r {
                Some(id) => self@.next_id() == Some(id@),
                None => self@.next_id() is None,
            },
    {
        if self.next_sequence == u64::MAX {
            None
        } else {
            derive_id(self.request_id.as_str(), self.next_sequence + 1)
        }
    }

    /// Numbers an observation. `violation` is what the protocol contract finds wrong with it.
    pub fn observation(&mut self, observation: Observation, violation: Option<String>) -> (r: Result<
        ObservationEnvelope,
        ProviderError,
    >)
        requires
            old(self)@.wf(),
        ensures
            final(self)@.wf(),
            match observation_fault(old(self)@, violation) {
                Some(fault) => r matches Err(error) && reports_event_fault(error, fault) && final(self)@ == old(self)@,
                None => {
                    &&& r matches Ok(envelope) && envelope.request_id@ == old(self)@.request_id && envelope.sequence
                        == old(self)@.next_sequence && envelope.observation == observation
                    &&& final(self)@ == old(self)@.with_observation()
                },
            },
    {
        if !self.has_room() {
            return Err(ProviderError::EventLimit);
        }
        if let Some(message) = violation {
            return Err(ProviderError::Contract(message));
        }
        let envelope = ObservationEnvelope {
            request_id: self.request_id.clone(),
            sequence: self.next_sequence,
            observation,
        };
        self.next_sequence = self.next_sequence + 1;
        self.counts = CompletionCounts {
            observations: self.counts.observations + 1,
            evidence: self.counts.evidence,
            fix_candidates: self.counts.fix_candidates,
            executions: self.counts.executions,
        };
        Ok(envelope)
    }

    /// The text that evidence keeps of the bytes.
    pub fn retained_text(&self, bytes: &[u8]) -> (r: String)
        ensures
            encode_utf8(r@) == retained(bytes@, self@.max_evidence_bytes),
    {
        retain(bytes, self.max_evidence_bytes)
    }

    /// Numbers evidence of an output. `digest` is that of the text that is kept of it, and
    /// `violation` what the protocol contract finds wrong with the envelope.
    pub fn evidence(
        &mut self,
        source: EvidenceSource,
        media_type: &str,
        bytes: &[u8],
        observed_bytes: u64,
        digest: String,
        violation: Option<String>,
    ) -> (r: Result<EvidenceEnvelope, ProviderError>)
        requires
            old(self)@.wf(),
        ensures
            final(self)@.wf(),
            match evidence_fault(old(self)@, violation) {
                Some(fault) => r matches Err(error) && reports_event_fault(error, fault) && final(self)@ == old(self)@,
                None => {
                    &&& r matches Ok(envelope) && envelope.request_id@ == old(self)@.request_id && envelope.sequence
                        == old(self)@.next_sequence && is_evidence(
                        envelope.evidence,
                        old(self)@,
                        source,
                        media_type@,
                        bytes@,
                        observed_bytes,
                        digest@,
                    )
                    &&& final(self)@ == old(self)@.with_evidence(
                        retained(bytes@, old(self)@.max_evidence_bytes).len(),
                    )
                },
            },
    {
        if !self.has_room() {
            return Err(ProviderError::EventLimit);
        }
        let evidence_id: String = match self.next_id() {
            Some(id) => id,
            None => {
                return Err(ProviderError::Contract(NO_IDENTIFIER.to_owned()));
            },
        };
        if let Some(message) = violation {
            return Err(ProviderError::Contract(message));
        }
        let content: String = self.retained_text(bytes);
        let retained_bytes: u64 = content.as_str().as_bytes().len() as u64;
        let envelope = EvidenceEnvelope {
            request_id: self.request_id.clone(),
            sequence: self.next_sequence,
            evidence: Evidence {
                schema_version: EVIDENCE_SCHEMA.to_owned(),
                evidence_id,
                execution_id: None,
                source,
                media_type: media_type.to_owned(),
                retained_bytes,
                observed_bytes,
                limit_bytes: self.max_evidence_bytes,
                truncated: observed_bytes > retained_bytes,
                sha256: digest,
                relative_path: None,
                content: Some(content),
            },
        };
        self.next_sequence = self.next_sequence + 1;
        self.counts = CompletionCounts {
            observations: self.counts.observations,
            evidence: self.counts.evidence + 1,
            fix_candidates: self.counts.fix_candidates,
            executions: self.counts.executions,
        };
        self.evidence_bytes = self.evidence_bytes.saturating_add(retained_bytes);
        Ok(envelope)
    }

    /// Numbers the evidence of a patch, which is kept whole or not at all.
    pub fn patch_evidence(&mut self, content: &str, digest: String, violation: Option<String>) -> (r: Result<
        EvidenceEnvelope,
        ProviderError,
    >)
        requires
            old(self)@.wf(),
        ensures
            final(self)@.wf(),
            if encode_utf8(content@).len() > old(self)@.max_evidence_bytes {
                r matches Err(ProviderError::FixEvidenceLimit { observed, limit }) && observed == encode_utf8(
                    content@,
                ).len() && limit == old(self)@.max_evidence_bytes && final(self)@ == old(self)@
            } else {
                match evidence_fault(old(self)@, violation) {
                    Some(fault) => r matches Err(error) && reports_event_fault(error, fault) && final(self)@
                        == old(self)@,
                    None => {
                        &&& r matches Ok(envelope) && envelope.request_id@ == old(self)@.request_id && envelope.sequence
                            == old(self)@.next_sequence && is_evidence(
                            envelope.evidence,
                            old(self)@,
                            EvidenceSource::Patch,
                            RUFF_FIX_MEDIA_TYPE@,
                            encode_utf8(content@),
                            encode_utf8(content@).len() as u64,
                            digest@,
                        )
                        &&& final(self)@ == old(self)@.with_evidence(
                            retained(encode_utf8(content@), old(self)@.max_evidence_bytes).len(),
                        )
                    },
                }
            },
    {
        let bytes: &[u8] = content.as_bytes();
        let limit: usize = self.max_evidence_bytes as usize;
        if bytes.len() > limit {
            return Err(ProviderError::FixEvidenceLimit { observed: bytes.len(), limit });
        }
        self.evidence(
            EvidenceSource::Patch,
            RUFF_FIX_MEDIA_TYPE,
            bytes,
            bytes.len() as u64,
            digest,
            violation,
        )
    }

    /// Numbers a fix candidate for an observation.
    pub fn fix_candidate(
        &mut self,
        observation_id: &str,
        applicability: Applicability,
        patch_evidence_id: &str,
        violation: Option<String>,
    ) -> (r: Result<FixCandidateEnvelope, ProviderError>)
        requires
            old(self)@.wf(),
        ensures
            final(self)@.wf(),
            match evidence_fault(old(self)@, violation) {
                Some(fault) => r matches Err(error) && reports_event_fault(error, fault) && final(self)@ == old(self)@,
                None => {
                    &&& r matches Ok(envelope) && envelope.request_id@ == old(self)@.request_id && envelope.sequence
                        == old(self)@.next_sequence && is_fix_candidate(
                        envelope.fix_candidate,
                        old(self)@,
                        observation_id@,
                        applicability,
                        patch_evidence_id@,
                    )
                    &&& final(self)@ == old(self)@.with_fix_candidate()
                },
            },
    {
        if !self.has_room() {
            return Err(ProviderError::EventLimit);
        }
        let fix_candidate_id: String = match self.next_id() {
            Some(id) => id,
            None => {
                return Err(ProviderError::Contract(NO_IDENTIFIER.to_owned()));
            },
        };
        if let Some(message) = violation {
            return Err(ProviderError::Contract(message));
        }
        let mut observation_ids: Vec<String> = Vec::new();
        observation_ids.push(observation_id.to_owned());
        assert(texts(observation_ids@) =~= seq![observation_id@]);
        let envelope = FixCandidateEnvelope {
            request_id: self.request_id.clone(),
            sequence: self.next_sequence,
            fix_candidate: FixCandidate {
                schema_version: FIX_CANDIDATE_SCHEMA.to_owned(),
                fix_candidate_id,
                observation_ids,
                applicability,
                tool_native: true,
                patch_evidence_id: patch_evidence_id.to_owned(),
            },
        };
        self.next_sequence = self.next_sequence + 1;
        self.counts = CompletionCounts {
            observations: self.counts.observations,
            evidence: self.counts.evidence,
            fix_candidates: self.counts.fix_candidates + 1,
            executions: self.counts.executions,
        };
        Ok(envelope)
    }

    fn finish(
        self,
        status: ExecutionStatus,
        tool_exit_code: Option<u8>,
        duration_ms: u64,
        message: Option<String>,
        violation: Option<String>,
    ) -> (r: Result<CompletionEnvelope, ProviderError>)
        ensures
            completes(
                r,
                self@,
                status,
                tool_exit_code,
                duration_ms,
                crate::execution::text_of(message),
                violation,
            ),
    {
        if duration_ms > self.timeout_ms {
            return Err(ProviderError::Contract("completion duration exceeds the request timeout".to_owned()));
        }
        if let Some(text) = violation {
            return Err(ProviderError::Contract(text));
        }
        Ok(
            CompletionEnvelope {
                request_id: self.request_id,
                sequence: self.next_sequence,
                status,
                tool_exit_code,
                tool_duration_ms: duration_ms,
                counts: self.counts,
                evidence_bytes: self.evidence_bytes,
                message,
            },
        )
    }

    /// The last word of a successful session, with what was counted.
    pub fn complete(self, exit_code: u8, duration_ms: u64, violation: Option<String>) -> (r: Result<
        CompletionEnvelope,
        ProviderError,
    >)
        ensures
            completes(r, self@, ExecutionStatus::Complete, Some(exit_code), duration_ms, None, violation),
    {
        self.finish(ExecutionStatus::Complete, Some(exit_code), duration_ms, None, violation)
    }

    /// The last word of a session that did not complete, with what was counted.
    pub fn incomplete(self, duration_ms: u64, message: String, violation: Option<String>) -> (r: Result<
        CompletionEnvelope,
        ProviderError,
    >)
        ensures
            completes(r, self@, ExecutionStatus::Incomplete, None, duration_ms, Some(message@), violation),
    {
        self.finish(ExecutionStatus::Incomplete, None, duration_ms, Some(message), violation)
    }

    /// The last word of a session that is not supported, with what was counted.
    pub fn unsupported(self, duration_ms: u64, message: String, violation: Option<String>) -> (r: Result<
        CompletionEnvelope,
        ProviderError,
    >)
        ensures
            completes(r, self@, ExecutionStatus::Unsupported, None, duration_ms, Some(message@), violation),
    {
        self.finish(ExecutionStatus::Unsupported, None, duration_ms, Some(message), violation)
    }
}

/// The last word of a session that never began.
pub fn empty_incomplete(request_id: String, message: String, violation: Option<String>) -> (r: Result<
    CompletionEnvelope,
    ProviderError,
>)
    ensures
        match violation {
            Some(text) => r == Err::<CompletionEnvelope, ProviderError>(ProviderError::Contract(text)),
            None => r matches Ok(completion) && completion.request_id == request_id && completion.sequence == 0
                && completion.status == ExecutionStatus::Incomplete && completion.tool_exit_code is None
                && completion.tool_duration_ms == 0 && completion.counts == no_events() && completion.evidence_bytes == 0
                && completion.message == Some(message),
        },
{
    match violation {
        Some(text) => Err(ProviderError::Contract(text)),
        None => Ok(
            CompletionEnvelope {
                request_id,
                sequence: 0,
                status: ExecutionStatus::Incomplete,
                tool_exit_code: None,
                tool_duration_ms: 0,
                counts: CompletionCounts { observations: 0, evidence: 0, fix_candidates: 0, executions: 0 },
                evidence_bytes: 0,
                message: Some(message),
            },
        ),
    }
}

/// The identifiers of two events of one session differ.
pub proof fn law_event_identifiers_differ(a: Builder, b: Builder)
    requires
        a.request_id == b.request_id,
        a.next_sequence != b.next_sequence,
        a.next_id() is Some,
        b.next_id() is Some,
    ensures
        a.next_id() != b.next_id(),
{
    crate::identifier::law_derived_ids_differ(
        a.request_id,
        (a.next_sequence + 1) as u64,
        (b.next_sequence + 1) as u64,
    );
}

} // verus!
