//! Which part of a repository Cargo is run on.
use super::error::{Fault, ProviderError};
use crate::execution::text_of;
use crate::order::equal_texts;
use crate::path::{is_within, join_path, joined_path, path_starts_with, strip_base, text_below, within};
use crate::process::invocation::texts;
use crate::protocol::RequestEnvelope;
use crate::text::{push_text, string_of};
use vstd::prelude::*;

verus! {

/// What Cargo is run on.
#[derive(Clone, Debug, PartialEq, Eq)]
pub enum CargoScope {
    /// The whole workspace.
    Workspace,
    /// One package: its manifest, below the workspace, and its directory, below the repository.
    Manifest { manifest: String, repository_path: String },
}

/// What a `CargoScope` holds.
pub enum Scope {
    Workspace,
    Manifest { manifest: Seq<char>, repository_path: Seq<char> },
}

impl View for CargoScope {
    type V = Scope;

    open spec fn view(&self) -> Scope {
        match self {
            CargoScope::Workspace => Scope::Workspace,
            CargoScope::Manifest { manifest, repository_path } => Scope::Manifest {
                manifest: manifest@,
                repository_path: repository_path@,
            },
        }
    }
}

impl Scope {
    /// The path stands in the scope.
    pub open spec fn covers(self, path: Seq<char>) -> bool {
        match self {
            Scope::Workspace => true,
            Scope::Manifest { repository_path, .. } => within(path, repository_path),
        }
    }
}

/// Whether the path stands in the scope.
pub fn path_is_in_scope(path: &str, scope: &CargoScope) -> (r: bool)
    ensures
        r == scope@.covers(path@),
{
    match scope {
        CargoScope::Workspace => true,
        CargoScope::Manifest { repository_path, .. } => path_starts_with(path, repository_path.as_str()),
    }
}

/// Where the root of the scope is, before it is resolved.
pub open spec fn scope_root_of(scope: Scope, repository_root: Seq<char>) -> Seq<char> {
    match scope {
        Scope::Workspace => repository_root,
        Scope::Manifest { repository_path, .. } => joined_path(repository_root, repository_path),
    }
}

/// Where the root of the scope is, before it is resolved.
pub fn scope_root(scope: &CargoScope, repository_root: &str) -> (r: String)
    ensures
        r@ == scope_root_of(scope@, repository_root@),
{
    match scope {
        CargoScope::Workspace => repository_root.to_owned(),
        CargoScope::Manifest { repository_path, .. } => join_path(repository_root, repository_path.as_str()),
    }
}

/// What is run, and with which arguments.
pub open spec fn argv_of(command: Seq<char>, scope: Scope, target_dir: Option<Seq<char>>) -> Seq<Seq<char>> {
    let target = match target_dir {
        Some(dir) => seq!["--target-dir"@, dir],
        None => Seq::empty(),
    };
    let what = match scope {
        Scope::Workspace => seq!["--workspace"@],
        Scope::Manifest { manifest, .. } => seq!["--manifest-path"@, manifest],
    };
    seq![command] + target + what + seq!["--all-targets"@, "--locked"@, "--message-format=json"@]
}

/// What is run, and with which arguments.
pub fn cargo_argv(command: &str, scope: &CargoScope, target_dir: &Option<String>) -> (r: Vec<String>)
    ensures
        texts(r@) == argv_of(command@, scope@, text_of(*target_dir)),
{
    let mut argv: Vec<String> = Vec::new();
    argv.push(command.to_owned());
    if let Some(dir) = target_dir {
        argv.push("--target-dir".to_owned());
        argv.push(dir.clone());
    }
    match scope {
        CargoScope::Workspace => {
            argv.push("--workspace".to_owned());
        },
        CargoScope::Manifest { manifest, .. } => {
            argv.push("--manifest-path".to_owned());
            argv.push(manifest.clone());
        },
    }
    argv.push("--all-targets".to_owned());
    argv.push("--locked".to_owned());
    argv.push("--message-format=json".to_owned());
    assert(texts(argv@) =~= argv_of(command@, scope@, text_of(*target_dir)));
    argv
}

/// What the system knows of the workspace of a request: the canonical path of the repository and of
/// the workspace, and whether the latter is a directory.
#[derive(Clone, Debug, PartialEq, Eq)]
pub struct WorkspaceFacts {
    pub repository: String,
    pub workspace: String,
    pub is_directory: bool,
}

/// Judges the workspace of a request: it is a directory of the repository. `resolved` holds what the
/// system knows of it, or why it could not be resolved.
pub fn judge_workspace(named: &str, resolved: Result<WorkspaceFacts, String>) -> (r: Result<
    (String, String),
    ProviderError,
>)
    ensures
        match resolved {
            Err(text) => r matches Err(error) && error@ == Fault::Io(text@),
            Ok(facts) => if !facts.is_directory || !within(facts.workspace@, facts.repository@) {
                r matches Err(error) && error@ == Fault::Path(named@)
            } else {
                r == Ok::<(String, String), ProviderError>((facts.repository, facts.workspace))
            },
        },
{
    match resolved {
        Err(text) => Err(ProviderError::Io(text)),
        Ok(facts) => {
            if !facts.is_directory || !is_within(facts.workspace.as_str(), facts.repository.as_str()) {
                return Err(ProviderError::path(named));
            }
            Ok((facts.repository, facts.workspace))
        },
    }
}

/// What the system knows of the target of a request.
#[derive(Clone, Debug, PartialEq, Eq)]
pub struct TargetFacts {
    /// The canonical path of the target; none, where it cannot be resolved.
    pub canonical: Option<String>,
    pub is_directory: bool,
    /// The manifest in the target is a file.
    pub has_manifest: bool,
    /// The canonical path of that manifest.
    pub manifest: Option<String>,
    /// The target's path below the repository is one that records can hold.
    pub accepted: bool,
}

/// What the target of a request comes to.
pub open spec fn selected(
    request: RequestEnvelope,
    repository_root: Seq<char>,
    workspace_root: Seq<char>,
    facts: TargetFacts,
) -> Result<Scope, Fault> {
    if request.targets.len() != 1 {
        Err(Fault::Request("Rust Provider requires exactly one target scope"@))
    } else {
        let target = request.targets@[0]@;
        let workspace = request.workspace@;
        if target == "."@ {
            if workspace == "."@ {
                Ok(Scope::Workspace)
            } else {
                Err(Fault::Path(target))
            }
        } else if workspace != "."@ && !within(target, workspace) {
            Err(Fault::Path(target))
        } else {
            match facts.canonical {
                None => Err(Fault::Path(target)),
                Some(canonical) => if !facts.is_directory || !within(canonical@, workspace_root) {
                    Err(Fault::Path(target))
                } else if !facts.has_manifest || !(facts.manifest matches Some(path) && within(
                    path@,
                    canonical@,
                )) {
                    Err(Fault::Request("target "@ + target + " is not a unique Cargo package directory"@))
                } else {
                    match (
                        text_below(joined_path(canonical@, "Cargo.toml"@), workspace_root),
                        text_below(canonical@, repository_root),
                    ) {
                        (Some(manifest), Some(repository_path)) => if facts.accepted {
                            Ok(Scope::Manifest { manifest, repository_path })
                        } else {
                            Err(Fault::Path(target))
                        },
                        _ => Err(Fault::Path(target)),
                    }
                },
            }
        }
    }
}

fn not_unique(target: &str) -> (r: ProviderError)
    ensures
        r@ == Fault::Request("target "@ + target@ + " is not a unique Cargo package directory"@),
{
    let mut out: Vec<char> = Vec::new();
    push_text(&mut out, "target ");
    push_text(&mut out, target);
    push_text(&mut out, " is not a unique Cargo package directory");
    assert(out@ =~= "target "@ + target@ + " is not a unique Cargo package directory"@);
    ProviderError::Request(string_of(out.as_slice()))
}

/// Selects what Cargo is run on: the workspace, or the one package that the target is.
pub fn select_cargo_scope(
    request: &RequestEnvelope,
    repository_root: &str,
    workspace_root: &str,
    facts: &TargetFacts,
) -> (r: Result<CargoScope, ProviderError>)
    ensures
        match selected(*request, repository_root@, workspace_root@, *facts) {
            Ok(scope) => r matches Ok(cargo) && cargo@ == scope,
            Err(fault) => r matches Err(error) && error@ == fault,
        },
{
    if request.targets.len() != 1 {
        return Err(ProviderError::Request("Rust Provider requires exactly one target scope".to_owned()));
    }
    let target: &str = request.targets[0].as_str();
    let workspace: &str = request.workspace.as_str();
    if equal_texts(target, ".") {
        if equal_texts(workspace, ".") {
            return Ok(CargoScope::Workspace);
        }
        return Err(ProviderError::path(target));
    }
    if !equal_texts(workspace, ".") && !path_starts_with(target, workspace) {
        return Err(ProviderError::path(target));
    }
    let canonical: &str = match &facts.canonical {
        None => {
            return Err(ProviderError::path(target));
        },
        Some(path) => path.as_str(),
    };
    if !facts.is_directory || !is_within(canonical, workspace_root) {
        return Err(ProviderError::path(target));
    }
    let inside: bool = match &facts.manifest {
        Some(path) => is_within(path.as_str(), canonical),
        None => false,
    };
    if !facts.has_manifest || !inside {
        return Err(not_unique(target));
    }
    let named: String = join_path(canonical, "Cargo.toml");
    match (strip_base(named.as_str(), workspace_root), strip_base(canonical, repository_root)) {
        (Some(manifest), Some(repository_path)) => {
            if facts.accepted {
                Ok(CargoScope::Manifest { manifest, repository_path })
            } else {
                Err(ProviderError::path(target))
            }
        },
        _ => Err(ProviderError::path(target)),
    }
}

} // verus!
