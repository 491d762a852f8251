//! What the provider answers.
use super::error::{Fault, ProviderError};
use super::request::{unsupported, unsupported_request};
use super::words::{truncate_chars, truncated, MAX_MESSAGE_CHARS};
use crate::execution::text_of;
use crate::model::ExecutionStatus;
use crate::numeral::{as_length, capped_sum, saturated};
use crate::process::capture::least;
use crate::protocol::{
    CompletionCounts, CompletionEnvelope, EvidenceEnvelope, ExecutionEnvelope, FixCandidateEnvelope,
    ObservationEnvelope, ProtocolEvent, RequestEnvelope,
};
use crate::text::{push_text, string_of};
use crate::time::{counted_ms, elapsed_ms, Duration};
use vstd::prelude::*;

verus! {

/// One answer of the provider: its events, and its last word.
#[derive(Clone, Debug, PartialEq, Eq)]
pub struct ProviderResponse {
    pub events: Vec<ProtocolEvent>,
    pub completion: CompletionEnvelope,
}

/// How many events of each kind there are, and how many bytes their evidence holds.
pub struct Tally {
    pub observations: nat,
    pub evidence: nat,
    pub fix_candidates: nat,
    pub executions: nat,
    pub bytes: u64,
}

/// How many events of each kind there are.
pub open spec fn tally_of(events: Seq<ProtocolEvent>) -> Tally
    decreases events.len(),
{
    if events.len() == 0 {
        Tally { observations: 0, evidence: 0, fix_candidates: 0, executions: 0, bytes: 0 }
    } else {
        let before = tally_of(events.drop_last());
        match events.last() {
            ProtocolEvent::Observation(_) => Tally { observations: before.observations + 1, ..before },
            ProtocolEvent::Evidence(e) => Tally {
                evidence: before.evidence + 1,
                bytes: capped_sum(before.bytes, e.evidence.retained_bytes as nat),
                ..before
            },
            ProtocolEvent::FixCandidate(_) => Tally { fix_candidates: before.fix_candidates + 1, ..before },
            ProtocolEvent::Execution(_) => Tally { executions: before.executions + 1, ..before },
        }
    }
}

/// The counts are those of the events.
pub open spec fn counts_match(counts: CompletionCounts, tally: Tally) -> bool {
    &&& counts.observations == tally.observations
    &&& counts.evidence == tally.evidence
    &&& counts.fix_candidates == tally.fix_candidates
    &&& counts.executions == tally.executions
}

/// The last word on a request: how it ended, and what the events before it come to.
pub open spec fn is_last_word(
    completion: CompletionEnvelope,
    request: RequestEnvelope,
    events: Seq<ProtocolEvent>,
    status: ExecutionStatus,
    exit_code: Option<u8>,
    duration: Duration,
    message: Option<Seq<char>>,
) -> bool {
    &&& completion.request_id@ == request.request_id@
    &&& completion.sequence == events.len()
    &&& completion.status == status
    &&& completion.tool_exit_code == exit_code
    &&& completion.tool_duration_ms == counted_ms(duration, request.limits.timeout_ms)
    &&& counts_match(completion.counts, tally_of(events))
    &&& completion.evidence_bytes == tally_of(events).bytes
    &&& text_of(completion.message) == match message {
        Some(text) => Some(truncated(text, MAX_MESSAGE_CHARS as nat)),
        None => None,
    }
}

fn count_events(events: &Vec<ProtocolEvent>) -> (r: (CompletionCounts, u64))
    ensures
        counts_match(r.0, tally_of(events@)),
        r.1 == tally_of(events@).bytes,
{
    let mut observations: u64 = 0;
    let mut evidence: u64 = 0;
    let mut fix_candidates: u64 = 0;
    let mut executions: u64 = 0;
    let mut bytes: u64 = 0;
    let mut i: usize = 0;
    assert(events@.take(0) =~= Seq::empty());
    while i < events.len()
        invariant
            i <= events.len(),
            tally_of(events@.take(i as int)) == (Tally {
                observations: observations as nat,
                evidence: evidence as nat,
                fix_candidates: fix_candidates as nat,
                executions: executions as nat,
                bytes,
            }),
            observations + evidence + fix_candidates + executions == i,
        decreases events.len() - i,
    {
        proof {
            let next = events@.take(i + 1);
            assert(next.drop_last() =~= events@.take(i as int));
            assert(next.last() == events@[i as int]);
        }
        match &events[i] {
            ProtocolEvent::Observation(_) => {
                observations = observations + 1;
            },
            ProtocolEvent::Evidence(e) => {
                evidence = evidence + 1;
                bytes = bytes.saturating_add(e.evidence.retained_bytes);
            },
            ProtocolEvent::FixCandidate(_) => {
                fix_candidates = fix_candidates + 1;
            },
            ProtocolEvent::Execution(_) => {
                executions = executions + 1;
            },
        }
        i = i + 1;
    }
    assert(events@.take(events@.len() as int) =~= events@);
    (CompletionCounts { observations, evidence, fix_candidates, executions }, bytes)
}

/// Ends a session with these events.
pub fn finish(
    request: &RequestEnvelope,
    events: Vec<ProtocolEvent>,
    status: ExecutionStatus,
    exit_code: Option<u8>,
    duration: Duration,
    message: Option<String>,
) -> (r: ProviderResponse)
    ensures
        r.events == events,
        is_last_word(r.completion, *request, events@, status, exit_code, duration, text_of(message)),
{
    let (counts, evidence_bytes) = count_events(&events);
    let said: Option<String> = match message {
        Some(text) => Some(truncate_chars(text.as_str(), MAX_MESSAGE_CHARS)),
        None => None,
    };
    let completion = CompletionEnvelope {
        request_id: request.request_id.clone(),
        sequence: events.len() as u64,
        status,
        tool_exit_code: exit_code,
        tool_duration_ms: elapsed_ms(duration, request.limits.timeout_ms),
        counts,
        evidence_bytes,
        message: said,
    };
    ProviderResponse { events, completion }
}

/// Ends a session that did not complete.
pub fn incomplete(request: &RequestEnvelope, events: Vec<ProtocolEvent>, duration: Duration, message: String) -> (r:
    ProviderResponse)
    ensures
        r.events == events,
        is_last_word(
            r.completion,
            *request,
            events@,
            ExecutionStatus::Incomplete,
            None,
            duration,
            Some(message@),
        ),
{
    finish(request, events, ExecutionStatus::Incomplete, None, duration, Some(message))
}

/// The event, with this number.
pub open spec fn renumbered(event: ProtocolEvent, sequence: u64) -> ProtocolEvent {
    match event {
        ProtocolEvent::Observation(e) => ProtocolEvent::Observation(ObservationEnvelope { sequence, ..e }),
        ProtocolEvent::Evidence(e) => ProtocolEvent::Evidence(EvidenceEnvelope { sequence, ..e }),
        ProtocolEvent::FixCandidate(e) => ProtocolEvent::FixCandidate(FixCandidateEnvelope { sequence, ..e }),
        ProtocolEvent::Execution(e) => ProtocolEvent::Execution(ExecutionEnvelope { sequence, ..e }),
    }
}

/// As many of the events as there may be, numbered through.
pub open spec fn bounded(events: Seq<ProtocolEvent>, max_events: u64) -> Seq<ProtocolEvent> {
    Seq::new(
        least(events.len(), as_length(max_events)),
        |i: int| renumbered(events[i], i as u64),
    )
}

fn renumber(event: ProtocolEvent, sequence: u64) -> (r: ProtocolEvent)
    ensures
        r == renumbered(event, sequence),
{
    match event {
        ProtocolEvent::Observation(e) => ProtocolEvent::Observation(ObservationEnvelope { sequence, ..e }),
        ProtocolEvent::Evidence(e) => ProtocolEvent::Evidence(EvidenceEnvelope { sequence, ..e }),
        ProtocolEvent::FixCandidate(e) => ProtocolEvent::FixCandidate(FixCandidateEnvelope { sequence, ..e }),
        ProtocolEvent::Execution(e) => ProtocolEvent::Execution(ExecutionEnvelope { sequence, ..e }),
    }
}

/// As many of the events as the request allows, numbered through.
pub fn bounded_events(request: &RequestEnvelope, events: Vec<ProtocolEvent>) -> (r: Vec<ProtocolEvent>)
    ensures
        r@ == bounded(events@, request.limits.max_events),
{
    let ghost all = events@;
    let most: usize = saturated(request.limits.max_events);
    let mut kept: Vec<ProtocolEvent> = Vec::new();
    for event in it: events.into_iter()
        invariant
            it.seq() == all,
            all == events@,
            most == as_length(request.limits.max_events),
            kept.len() == least(it.index() as nat, most as nat),
            forall|i: int| 0 <= i < kept.len() ==> #[trigger] kept@[i] == renumbered(all[i], i as u64),
    {
        if kept.len() < most {
            let sequence: u64 = kept.len() as u64;
            assert(event == all[it.index() as int]);
            kept.push(renumber(event, sequence));
        }
    }
    assert(kept@ =~= bounded(all, request.limits.max_events));
    kept
}

pub const EVENT_LIMIT: &'static str = "normalized event count exceeds request limit";

/// Ends a session whose process completed, unless its events are more than the request allows.
pub fn complete_or_event_limit(
    request: &RequestEnvelope,
    events: Vec<ProtocolEvent>,
    exit_code: u8,
    elapsed: Duration,
) -> (r: ProviderResponse)
    ensures
        if events@.len() > request.limits.max_events {
            &&& r.events@ == bounded(events@, request.limits.max_events)
            &&& is_last_word(
                r.completion,
                *request,
                r.events@,
                ExecutionStatus::Incomplete,
                None,
                elapsed,
                Some(EVENT_LIMIT@),
            )
        } else {
            &&& r.events == events
            &&& is_last_word(
                r.completion,
                *request,
                events@,
                ExecutionStatus::Complete,
                Some(exit_code),
                elapsed,
                None,
            )
        },
{
    if events.len() as u64 > request.limits.max_events {
        let kept: Vec<ProtocolEvent> = bounded_events(request, events);
        return incomplete(request, kept, elapsed, EVENT_LIMIT.to_owned());
    }
    finish(request, events, ExecutionStatus::Complete, Some(exit_code), elapsed, None)
}

/// The answer to a request of which only the identifier is known.
pub fn terminal_for_id(request_id: String, status: ExecutionStatus, message: &str) -> (r: ProviderResponse)
    ensures
        r.events@ == Seq::<ProtocolEvent>::empty(),
        r.completion.request_id == request_id,
        r.completion.sequence == 0,
        r.completion.status == status,
        r.completion.tool_exit_code is None,
        r.completion.tool_duration_ms == 0,
        r.completion.counts == (CompletionCounts { observations: 0, evidence: 0, fix_candidates: 0, executions: 0 }),
        r.completion.evidence_bytes == 0,
        text_of(r.completion.message) == Some(truncated(message@, MAX_MESSAGE_CHARS as nat)),
{
    ProviderResponse {
        events: Vec::new(),
        completion: CompletionEnvelope {
            request_id,
            sequence: 0,
            status,
            tool_exit_code: None,
            tool_duration_ms: 0,
            counts: CompletionCounts { observations: 0, evidence: 0, fix_candidates: 0, executions: 0 },
            evidence_bytes: 0,
            message: Some(truncate_chars(message, MAX_MESSAGE_CHARS)),
        },
    }
}

/// What the shared contract finds wrong with an answer: with its events, with its last word, and with
/// the whole session.
#[derive(Debug)]
pub struct ResponseFacts {
    pub events: Option<String>,
    pub completion: Option<String>,
    pub session: Option<ProviderError>,
}

/// What is wrong with an answer. A request that the provider does not support has no session.
pub open spec fn response_fault(request: RequestEnvelope, facts: ResponseFacts) -> Option<Fault> {
    if let Some(text) = facts.events {
        Some(Fault::Model(text@))
    } else if let Some(text) = facts.completion {
        Some(Fault::Model(text@))
    } else if unsupported(request) is Some {
        None
    } else if let Some(error) = facts.session {
        Some(error@)
    } else {
        None
    }
}

/// Checks an answer against the shared contract.
pub fn validate_response(request: &RequestEnvelope, facts: ResponseFacts) -> (r: Result<(), ProviderError>)
    ensures
        match response_fault(*request, facts) {
            Some(fault) => r matches Err(error) && error@ == fault,
            None => r is Ok,
        },
{
    if let Some(text) = facts.events {
        return Err(ProviderError::Model(text));
    }
    if let Some(text) = facts.completion {
        return Err(ProviderError::Model(text));
    }
    if unsupported_request(request).is_some() {
        return Ok(());
    }
    if let Some(error) = facts.session {
        return Err(error);
    }
    Ok(())
}

/// What an answer is replaced by.
pub open spec fn replacement_text(fault: Fault) -> Seq<char> {
    "provider response validation failed: "@ + fault.text()
}

/// The answer, or what replaces it where the shared contract finds something wrong with it.
pub fn settle(request: &RequestEnvelope, response: ProviderResponse, facts: ResponseFacts) -> (r: ProviderResponse)
    ensures
        match response_fault(*request, facts) {
            None => r == response,
            Some(fault) => {
                &&& r.events@ == Seq::<ProtocolEvent>::empty()
                &&& is_last_word(
                    r.completion,
                    *request,
                    Seq::empty(),
                    ExecutionStatus::Incomplete,
                    None,
                    Duration { nanos: 0 },
                    Some(replacement_text(fault)),
                )
            },
        },
{
    match validate_response(request, facts) {
        Ok(()) => response,
        Err(error) => {
            let why: String = error.message();
            let mut out: Vec<char> = Vec::new();
            push_text(&mut out, "provider response validation failed: ");
            push_text(&mut out, why.as_str());
            assert(out@ =~= replacement_text(error@));
            let message: String = string_of(out.as_slice());
            terminal_for_id(request.request_id.clone(), ExecutionStatus::Incomplete, message.as_str())
        },
    }
}

/// The answer to input that is no request.
pub fn refuse(request_id: String, error: &ProviderError) -> (r: ProviderResponse)
    ensures
        r.events@ == Seq::<ProtocolEvent>::empty(),
        r.completion.request_id == request_id,
        r.completion.sequence == 0,
        r.completion.status == ExecutionStatus::Incomplete,
        r.completion.tool_exit_code is None,
        r.completion.tool_duration_ms == 0,
        r.completion.counts == (CompletionCounts { observations: 0, evidence: 0, fix_candidates: 0, executions: 0 }),
        r.completion.evidence_bytes == 0,
        text_of(r.completion.message) == Some(truncated(error@.text(), MAX_MESSAGE_CHARS as nat)),
{
    let message: String = error.message();
    terminal_for_id(request_id, ExecutionStatus::Incomplete, message.as_str())
}

/// Numbering events through twice is the same as once, and leaves no more than the request allows.
pub proof fn law_bounding_is_idempotent(events: Seq<ProtocolEvent>, max_events: u64)
    ensures
        bounded(bounded(events, max_events), max_events) == bounded(events, max_events),
        bounded(events, max_events).len() <= max_events,
{
    let once = bounded(events, max_events);
    let twice = bounded(once, max_events);
    assert(twice =~= once);
}

} // verus!
