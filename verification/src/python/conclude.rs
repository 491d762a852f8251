//! The ends of a session: whether what it came to may be sent, and what is sent in its place.
use super::builder::{builder_of, completes, CompletionBuilder};
use super::error::{error_text, ProviderError};
use super::request::{judges_request, request_fault, validate_request, FIX_CAPABILITY};
use super::steps::{ProviderSession, Roots};
use crate::model::{ExecutionStatus, FixCandidate};
use crate::path::{is_within, within};
use crate::protocol::{negotiates, request_negotiates, CompletionEnvelope, ProtocolEvent, RequestEnvelope};
use vstd::prelude::*;

verus! {

/// What the system knows of the workspace of a request: the canonical path of the directory that the
/// provider was started in and of the workspace, and whether the latter is a directory.
#[derive(Clone, Debug, PartialEq, Eq)]
pub struct WorkspaceFacts {
    pub root: String,
    pub workspace: String,
    pub is_directory: bool,
}

/// Judges the workspace of a request: it is a directory below the one that the provider was started
/// in. `resolved` holds what the system knows of it, or why it could not be resolved.
pub fn judge_workspace(named: &str, resolved: Result<WorkspaceFacts, String>) -> (r: Result<Roots, ProviderError>)
    ensures
        match resolved {
            Err(text) => r == Err::<Roots, ProviderError>(ProviderError::Workspace(text)),
            Ok(facts) => if !within(facts.workspace@, facts.root@) || !facts.is_directory {
                r matches Err(ProviderError::Workspace(text)) && text@ == named@
            } else {
                r == Ok::<Roots, ProviderError>(Roots { root: facts.root, workspace: facts.workspace })
            },
        },
{
    match resolved {
        Err(text) => Err(ProviderError::Workspace(text)),
        Ok(facts) => {
            if !is_within(facts.workspace.as_str(), facts.root.as_str()) || !facts.is_directory {
                return Err(ProviderError::Workspace(named.to_owned()));
            }
            Ok(Roots { root: facts.root, workspace: facts.workspace })
        },
    }
}

/// One of the events proposes a fix.
pub open spec fn proposes_fixes(events: Seq<ProtocolEvent>) -> bool {
    exists|i: int| 0 <= i < events.len() && (#[trigger] events[i]) is FixCandidate
}

fn has_fixes(events: &Vec<ProtocolEvent>) -> (r: bool)
    ensures
        r == proposes_fixes(events@),
{
    let mut i: usize = 0;
    while i < events.len()
        invariant
            i <= events.len(),
            forall|k: int| 0 <= k < i ==> !((#[trigger] events@[k]) is FixCandidate),
        decreases events.len() - i,
    {
        if let ProtocolEvent::FixCandidate(_) = &events[i] {
            assert(events@[i as int] is FixCandidate);
            return true;
        }
        i = i + 1;
    }
    false
}

pub const FIX_NOT_NEGOTIATED: &'static str = "fix_candidate requires negotiated fix.propose/v1";

/// What a session comes to, as far as it may be sent.
pub open spec fn judges_session(
    r: Result<(), ProviderError>,
    request: RequestEnvelope,
    events: Seq<ProtocolEvent>,
    violation: Option<String>,
    found: Option<ProviderError>,
) -> bool {
    if request_fault(request, violation) is Some {
        judges_request(r, request, violation)
    } else if proposes_fixes(events) && !negotiates(request, FIX_CAPABILITY@) {
        r matches Err(ProviderError::Contract(text)) && text@ == FIX_NOT_NEGOTIATED@
    } else {
        match found {
            Some(error) => r == Err::<(), ProviderError>(error),
            None => r is Ok,
        }
    }
}

/// Checks that a session may be sent. `violation` is what the protocol contract finds wrong with the
/// request, and `found` the first thing that it finds wrong with the whole session.
pub fn validate_generated_session(
    request: &RequestEnvelope,
    session: &ProviderSession,
    violation: Option<String>,
    found: Option<ProviderError>,
) -> (r: Result<(), ProviderError>)
    ensures
        judges_session(r, *request, session.events@, violation, found),
{
    if let Err(error) = validate_request(request, violation) {
        return Err(error);
    }
    if has_fixes(&session.events) && !request_negotiates(request, FIX_CAPABILITY) {
        return Err(ProviderError::Contract(FIX_NOT_NEGOTIATED.to_owned()));
    }
    match found {
        Some(error) => Err(error),
        None => Ok(()),
    }
}

/// The session has no events, and ends this way.
pub open spec fn is_empty_session(
    r: Result<ProviderSession, ProviderError>,
    request: RequestEnvelope,
    status: ExecutionStatus,
    message: Seq<char>,
    violation: Option<String>,
) -> bool {
    match r {
        Ok(session) => session.events@.len() == 0 && completes(
            Ok(session.completion),
            builder_of(request),
            status,
            None,
            0,
            Some(message),
            violation,
        ),
        Err(error) => completes(Err(error), builder_of(request), status, None, 0, Some(message), violation),
    }
}

/// What is sent for a request that could not be done, for this reason. `violation` is what the
/// protocol contract finds wrong with the last word.
pub fn answer_failure(request: &RequestEnvelope, error: &ProviderError, violation: Option<String>) -> (r: Result<
    ProviderSession,
    ProviderError,
>)
    ensures
        is_empty_session(
            r,
            *request,
            if error is Unsupported {
                ExecutionStatus::Unsupported
            } else {
                ExecutionStatus::Incomplete
            },
            error_text(*error),
            violation,
        ),
{
    let builder: CompletionBuilder = CompletionBuilder::new(request);
    let message: String = error.message();
    let last: Result<CompletionEnvelope, ProviderError> = match error {
        ProviderError::Unsupported(_) => builder.unsupported(0, message, violation),
        _ => builder.incomplete(0, message, violation),
    };
    match last {
        Ok(completion) => Ok(ProviderSession { events: Vec::new(), completion }),
        Err(error) => Err(error),
    }
}

/// What is sent for a session that failed, or that may not be sent.
pub fn incomplete_for_request(request: &RequestEnvelope, error: &ProviderError, violation: Option<String>) -> (r: Result<
    ProviderSession,
    ProviderError,
>)
    ensures
        is_empty_session(r, *request, ExecutionStatus::Incomplete, error_text(*error), violation),
{
    let builder: CompletionBuilder = CompletionBuilder::new(request);
    match builder.incomplete(0, error.message(), violation) {
        Ok(completion) => Ok(ProviderSession { events: Vec::new(), completion }),
        Err(error) => Err(error),
    }
}

} // verus!
