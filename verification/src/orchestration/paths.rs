//! Which programs, workspaces and targets a plan may touch.
use crate::path::{bare_name, is_bare_program_name, is_rooted, is_within, rooted, within};
use crate::process::error::IoFailure;
use crate::text::chars_of;
use vstd::prelude::*;

verus! {

/// How a configured program is to be found.
#[derive(Clone, Copy, Debug, PartialEq, Eq, Structural)]
pub enum ProgramForm {
    /// As it stands: an absolute path, or a name for the system to look up.
    AsGiven,
    /// Below the repository root.
    InRepository,
    /// In no way that is supported.
    Unsupported,
}

/// How a configured program is to be found.
pub open spec fn program_form_of(configured: Seq<char>) -> ProgramForm {
    if rooted(configured) || bare_name(configured) {
        ProgramForm::AsGiven
    } else if configured.contains('/') {
        ProgramForm::InRepository
    } else {
        ProgramForm::Unsupported
    }
}

/// How a configured program is to be found.
pub fn program_form(configured: &str) -> (r: ProgramForm)
    ensures
        r == program_form_of(configured@),
{
    if is_rooted(configured) || is_bare_program_name(configured) {
        return ProgramForm::AsGiven;
    }
    let s: Vec<char> = chars_of(configured);
    let mut i: usize = 0;
    while i < s.len()
        invariant
            i <= s.len(),
            s@ == configured@,
            !rooted(configured@),
            !bare_name(configured@),
            forall|k: int| 0 <= k < i ==> #[trigger] s@[k] != '/',
        decreases s.len() - i,
    {
        if s[i] == '/' {
            assert(s@.contains(s@[i as int]));
            return ProgramForm::InRepository;
        }
        i = i + 1;
    }
    ProgramForm::Unsupported
}

/// Why a program cannot be run.
#[derive(Clone, Debug, PartialEq, Eq)]
pub enum ProgramFault {
    /// The form of the path is not supported.
    Unsupported,
    /// The system could not resolve the path.
    Io(IoFailure),
    /// The resolved path leaves the repository.
    Escape(String),
}

/// The program to run. `resolved` is the canonical path of the program below the repository root,
/// which counts only where the program is to be found there.
pub fn resolve_provider_program(
    repository_root: &str,
    configured: &str,
    resolved: Result<String, IoFailure>,
) -> (r: Result<String, ProgramFault>)
    ensures
        match program_form_of(configured@) {
            ProgramForm::AsGiven => r matches Ok(program) && program@ == configured@,
            ProgramForm::Unsupported => r == Err::<String, ProgramFault>(ProgramFault::Unsupported),
            ProgramForm::InRepository => match resolved {
                Err(failure) => r == Err::<String, ProgramFault>(ProgramFault::Io(failure)),
                Ok(path) => if within(path@, repository_root@) {
                    r == Ok::<String, ProgramFault>(path)
                } else {
                    r == Err::<String, ProgramFault>(ProgramFault::Escape(path))
                },
            },
        },
{
    match program_form(configured) {
        ProgramForm::AsGiven => Ok(configured.to_owned()),
        ProgramForm::Unsupported => Err(ProgramFault::Unsupported),
        ProgramForm::InRepository => match resolved {
            Err(failure) => Err(ProgramFault::Io(failure)),
            Ok(path) => if is_within(path.as_str(), repository_root) {
                Ok(path)
            } else {
                Err(ProgramFault::Escape(path))
            },
        },
    }
}

/// Why a workspace is refused.
#[derive(Clone, Copy, Debug, PartialEq, Eq, Structural)]
pub enum WorkspaceFault {
    Escape,
    NotDirectory,
}

/// Whether the canonical path of a workspace is one: it must stand in the canonical repository
/// root, and be a directory.
pub fn judge_workspace(repository_root: &str, resolved: &str, is_directory: bool) -> (r: Result<(), WorkspaceFault>)
    ensures
        r == (if !within(resolved@, repository_root@) {
            Err::<(), WorkspaceFault>(WorkspaceFault::Escape)
        } else if !is_directory {
            Err(WorkspaceFault::NotDirectory)
        } else {
            Ok(())
        }),
{
    if !is_within(resolved, repository_root) {
        Err(WorkspaceFault::Escape)
    } else if !is_directory {
        Err(WorkspaceFault::NotDirectory)
    } else {
        Ok(())
    }
}

/// What was found at a path on the way up from a target.
#[derive(Debug, PartialEq, Eq)]
pub enum TargetProbe {
    /// Something stands there; this is its canonical path.
    Found(Result<String, IoFailure>),
    /// Nothing stands there, and the path has a parent or not.
    Missing { has_parent: bool },
    /// The system would not say.
    Failed(IoFailure),
}

/// What is to be done about a target next.
#[derive(Clone, Debug, PartialEq, Eq)]
pub enum TargetStep {
    /// Look at the parent.
    Climb,
    /// The target stands in the workspace.
    Inside,
    /// The target leaves the workspace.
    Escape,
    /// The target cannot be resolved.
    Failed(IoFailure),
}

/// What is to be done about a target: the nearest ancestor that exists must stand in the workspace.
pub open spec fn target_step_of(probe: TargetProbe, workspace_root: Seq<char>) -> TargetStep {
    match probe {
        TargetProbe::Found(Ok(path)) => if within(path@, workspace_root) {
            TargetStep::Inside
        } else {
            TargetStep::Escape
        },
        TargetProbe::Found(Err(failure)) => TargetStep::Failed(failure),
        TargetProbe::Missing { has_parent } => if has_parent {
            TargetStep::Climb
        } else {
            TargetStep::Escape
        },
        TargetProbe::Failed(failure) => TargetStep::Failed(failure),
    }
}

/// What is to be done about a target next.
pub fn target_step(probe: TargetProbe, workspace_root: &str) -> (r: TargetStep)
    ensures
        r == target_step_of(probe, workspace_root@),
{
    match probe {
        TargetProbe::Found(Ok(path)) => if is_within(path.as_str(), workspace_root) {
            TargetStep::Inside
        } else {
            TargetStep::Escape
        },
        TargetProbe::Found(Err(failure)) => TargetStep::Failed(failure),
        TargetProbe::Missing { has_parent } => if has_parent {
            TargetStep::Climb
        } else {
            TargetStep::Escape
        },
        TargetProbe::Failed(failure) => TargetStep::Failed(failure),
    }
}

} // verus!
