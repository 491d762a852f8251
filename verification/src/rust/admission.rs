//! What comes before the processes of a session, and after them.
use super::error::Fault;
use super::ledger::notes_of;
use super::place::DiagnosticScope;
use super::request::{unsupported, unsupported_request};
use super::response::{finish, ProviderResponse};
use super::scope::{judge_workspace, select_cargo_scope, selected, CargoScope, TargetFacts, WorkspaceFacts};
use super::session::ends;
use crate::execution::text_of;
use crate::model::ExecutionStatus;
use crate::numeral::{decimal, push_decimal};
use crate::path::{is_within, within};
use crate::protocol::{Operation, ProtocolEvent, RequestEnvelope};
use crate::text::{push_text, string_of};
use crate::time::Duration;
use vstd::prelude::*;

verus! {

/// The session ends before any process was run.
pub open spec fn never_runs(
    r: ProviderResponse,
    request: RequestEnvelope,
    status: ExecutionStatus,
    message: Seq<char>,
) -> bool {
    ends(r, request, Seq::empty(), status, None, Duration { nanos: 0 }, Some(message))
}

fn end_early(request: &RequestEnvelope, status: ExecutionStatus, message: String) -> (r: ProviderResponse)
    ensures
        never_runs(r, *request, status, message@),
{
    let none: Vec<ProtocolEvent> = Vec::new();
    assert(notes_of(none@) =~= Seq::empty());
    finish(request, none, status, None, Duration::zero(), Some(message))
}

/// A session whose request was taken.
#[derive(Debug)]
pub struct Admitted {
    pub request: RequestEnvelope,
}

/// A session whose workspace was found.
#[derive(Debug)]
pub struct Located {
    pub request: RequestEnvelope,
    pub repository_root: String,
    pub workspace_root: String,
}

/// A session whose scope was selected.
#[derive(Debug)]
pub struct Selected {
    pub request: RequestEnvelope,
    pub repository_root: String,
    pub workspace_root: String,
    pub scope: CargoScope,
}

/// Takes a request, if the provider can do what it asks. `violation` is what the protocol contract
/// finds wrong with it.
pub fn accept_request(request: RequestEnvelope, violation: Option<String>) -> (r: Result<Admitted, ProviderResponse>)
    ensures
        match violation {
            Some(text) => r matches Err(end) && never_runs(end, request, ExecutionStatus::Incomplete, text@),
            None => match unsupported(request) {
                Some(text) => r matches Err(end) && never_runs(end, request, ExecutionStatus::Unsupported, text),
                None => r == Ok::<Admitted, ProviderResponse>(Admitted { request }),
            },
        },
{
    if let Some(text) = violation {
        return Err(end_early(&request, ExecutionStatus::Incomplete, text));
    }
    if let Some(text) = unsupported_request(&request) {
        return Err(end_early(&request, ExecutionStatus::Unsupported, text));
    }
    Ok(Admitted { request })
}

impl Admitted {
    /// The workspace was found, or it was not.
    pub fn locate(self, resolved: Result<WorkspaceFacts, String>) -> (r: Result<Located, ProviderResponse>)
        ensures
            match resolved {
                Err(text) => r matches Err(end) && never_runs(
                    end,
                    self.request,
                    ExecutionStatus::Incomplete,
                    Fault::Io(text@).text(),
                ),
                Ok(facts) => if !facts.is_directory || !within(facts.workspace@, facts.repository@) {
                    r matches Err(end) && never_runs(
                        end,
                        self.request,
                        ExecutionStatus::Incomplete,
                        Fault::Path(self.request.workspace@).text(),
                    )
                } else {
                    r == Ok::<Located, ProviderResponse>(
                        Located {
                            request: self.request,
                            repository_root: facts.repository,
                            workspace_root: facts.workspace,
                        },
                    )
                },
            },
    {
        match judge_workspace(self.request.workspace.as_str(), resolved) {
            Err(error) => Err(end_early(&self.request, ExecutionStatus::Incomplete, error.message())),
            Ok((repository_root, workspace_root)) => Ok(
                Located { request: self.request, repository_root, workspace_root },
            ),
        }
    }
}

impl Located {
    /// Selects what Cargo is run on.
    pub fn select(self, facts: &TargetFacts) -> (r: Result<Selected, ProviderResponse>)
        ensures
            match selected(self.request, self.repository_root@, self.workspace_root@, *facts) {
                Err(fault) => r matches Err(end) && never_runs(
                    end,
                    self.request,
                    ExecutionStatus::Incomplete,
                    fault.text(),
                ),
                Ok(scope) => r matches Ok(next) && next.request == self.request && next.repository_root
                    == self.repository_root && next.workspace_root == self.workspace_root && next.scope@ == scope,
            },
    {
        match select_cargo_scope(
            &self.request,
            self.repository_root.as_str(),
            self.workspace_root.as_str(),
            facts,
        ) {
            Err(error) => Err(end_early(&self.request, ExecutionStatus::Incomplete, error.message())),
            Ok(scope) => Ok(
                Selected {
                    request: self.request,
                    repository_root: self.repository_root,
                    workspace_root: self.workspace_root,
                    scope,
                },
            ),
        }
    }
}

/// The directory that a request builds in: one of its own, where it verifies.
pub open spec fn target_of(request: RequestEnvelope, target: Result<String, String>) -> Result<
    Option<Seq<char>>,
    Seq<char>,
> {
    if request.operation != Operation::Verify {
        Ok(None)
    } else {
        match target {
            Ok(path) => Ok(Some(path@)),
            Err(text) => Err(text@),
        }
    }
}

impl Selected {
    /// Whether the request builds in a directory of its own.
    pub fn needs_target(&self) -> (r: bool)
        ensures
            r == (self.request.operation == Operation::Verify),
    {
        self.request.operation == Operation::Verify
    }

    /// What the diagnostics of the session are placed in. `target` is the directory that the request
    /// builds in, if it needs one, or why there is none.
    pub fn enter(self, target: Result<String, String>) -> (r: Result<(RequestEnvelope, DiagnosticScope), ProviderResponse>)
        ensures
            match target_of(self.request, target) {
                Err(text) => r matches Err(end) && never_runs(end, self.request, ExecutionStatus::Incomplete, text),
                Ok(path) => r matches Ok((request, scope)) && request == self.request && scope.cargo == self.scope
                    && scope.repository_root == self.repository_root && scope.workspace_root == self.workspace_root
                    && text_of(scope.verification_target) == path,
            },
    {
        let verification_target: Option<String> = if self.needs_target() {
            match target {
                Ok(path) => Some(path),
                Err(text) => {
                    return Err(end_early(&self.request, ExecutionStatus::Incomplete, text));
                },
            }
        } else {
            None
        };
        let scope = DiagnosticScope {
            cargo: self.scope,
            repository_root: self.repository_root,
            workspace_root: self.workspace_root,
            verification_target,
        };
        Ok((self.request, scope))
    }
}

/// How often a directory is tried to be made.
pub const MAX_TARGET_ATTEMPTS: u32 = 64;

pub const TEMPORARY_INSIDE: &'static str = "temporary directory is inside repository";

/// Whether directories for builds may be made in the temporary directory: not where it is one of the
/// repository.
pub fn judge_temporary_root(root: &str, repository_root: &str) -> (r: Result<(), String>)
    ensures
        if within(root@, repository_root@) {
            r matches Err(text) && text@ == TEMPORARY_INSIDE@
        } else {
            r is Ok
        },
{
    if is_within(root, repository_root) {
        Err(TEMPORARY_INSIDE.to_owned())
    } else {
        Ok(())
    }
}

/// The name of a directory for a build.
pub open spec fn target_name_of(process: u32, request_id: Seq<char>, attempt: u32) -> Seq<char> {
    "diagnostic-triage-cargo-"@ + decimal(process as nat) + "-"@ + request_id + "-"@ + decimal(attempt as nat)
}

/// The name of a directory for a build.
pub fn target_name(process: u32, request_id: &str, attempt: u32) -> (r: String)
    ensures
        r@ == target_name_of(process, request_id@, attempt),
{
    let mut out: Vec<char> = Vec::new();
    push_text(&mut out, "diagnostic-triage-cargo-");
    push_decimal(&mut out, process as u64);
    push_text(&mut out, "-");
    push_text(&mut out, request_id);
    push_text(&mut out, "-");
    push_decimal(&mut out, attempt as u64);
    assert(out@ =~= target_name_of(process, request_id@, attempt));
    string_of(out.as_slice())
}

/// What an attempt to make a directory came to.
#[derive(Clone, Copy, Debug, PartialEq, Eq, Structural)]
pub enum Attempt {
    Created,
    /// Something of that name was there.
    Exists,
    Failed,
}

/// What follows an attempt.
#[derive(Clone, Copy, Debug, PartialEq, Eq, Structural)]
pub enum AfterAttempt {
    Done,
    Again(u32),
    GiveUp,
}

/// What follows the attempt of this number.
pub fn after_attempt(attempt: u32, outcome: Attempt) -> (r: AfterAttempt)
    ensures
        r == (match outcome {
            Attempt::Created => AfterAttempt::Done,
            Attempt::Exists => if attempt + 1 < MAX_TARGET_ATTEMPTS {
                AfterAttempt::Again((attempt + 1) as u32)
            } else {
                AfterAttempt::GiveUp
            },
            Attempt::Failed => AfterAttempt::GiveUp,
        }),
{
    match outcome {
        Attempt::Created => AfterAttempt::Done,
        Attempt::Exists => {
            if attempt < MAX_TARGET_ATTEMPTS - 1 {
                AfterAttempt::Again(attempt + 1)
            } else {
                AfterAttempt::GiveUp
            }
        },
        Attempt::Failed => AfterAttempt::GiveUp,
    }
}

/// What is said where the directory of a build could not be removed.
pub open spec fn cleanup_text(text: Seq<char>) -> Seq<char> {
    "cleanup Cargo verification target: "@ + text
}

/// The answer, or what replaces it where the directory of the build could not be removed.
pub fn finalize_verification_target(
    request: &RequestEnvelope,
    response: ProviderResponse,
    removed: Result<(), String>,
) -> (r: ProviderResponse)
    ensures
        match removed {
            Ok(()) => r == response,
            Err(text) => never_runs(r, *request, ExecutionStatus::Incomplete, cleanup_text(text@)),
        },
{
    match removed {
        Ok(()) => response,
        Err(text) => {
            let mut out: Vec<char> = Vec::new();
            push_text(&mut out, "cleanup Cargo verification target: ");
            push_text(&mut out, text.as_str());
            assert(out@ =~= cleanup_text(text@));
            end_early(request, ExecutionStatus::Incomplete, string_of(out.as_slice()))
        },
    }
}

} // verus!
