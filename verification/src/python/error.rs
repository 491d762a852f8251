//! Failures of the Ruff provider.
use crate::numeral::{decimal, push_decimal};
use crate::text::{push_text, string_of};
use vstd::prelude::*;

verus! {

/// Why the provider could not do what it was asked.
#[derive(Clone, Debug, PartialEq, Eq)]
pub enum ProviderError {
    InputLimit { limit: usize },
    Request(String),
    Unsupported(String),
    RuffJson(String),
    RuffSeverity(String),
    PathEscape(String),
    EventLimit,
    FixEvidenceLimit { observed: usize, limit: usize },
    Contract(String),
    Process(String),
    Workspace(String),
    Io(String),
}

/// What an error says.
pub open spec fn error_text(error: ProviderError) -> Seq<char> {
    match error {
        ProviderError::InputLimit { limit } => "input exceeds the "@ + decimal(limit as nat) + "-byte bound"@,
        ProviderError::Request(text) => "expected exactly one RequestV1 envelope: "@ + text@,
        ProviderError::Unsupported(text) => "unsupported request: "@ + text@,
        ProviderError::RuffJson(text) => "malformed Ruff JSON: "@ + text@,
        ProviderError::RuffSeverity(text) => "unsupported Ruff severity: "@ + text@,
        ProviderError::PathEscape(text) => "Ruff path escapes the repository: "@ + text@,
        ProviderError::EventLimit => "event count exceeds the caller limit"@,
        ProviderError::FixEvidenceLimit { observed, limit } => "canonical Ruff fix evidence exceeds the caller's "@
            + decimal(limit as nat) + "-byte bound ("@ + decimal(observed as nat) + " bytes)"@,
        ProviderError::Contract(text) => "generated envelope violates the v1 contract: "@ + text@,
        ProviderError::Process(text) => "Ruff process failed: "@ + text@,
        ProviderError::Workspace(text) => "workspace is not a repository directory: "@ + text@,
        ProviderError::Io(text) => "failed to emit JSONL: "@ + text@,
    }
}

fn with_text(prefix: &str, text: &str) -> (r: String)
    ensures
        r@ == prefix@ + text@,
{
    let mut out: Vec<char> = Vec::new();
    push_text(&mut out, prefix);
    push_text(&mut out, text);
    assert(out@ =~= prefix@ + text@);
    string_of(out.as_slice())
}

impl ProviderError {
    /// What the error says.
    pub fn message(&self) -> (r: String)
        ensures
            r@ == error_text(*self),
    {
        match self {
            ProviderError::InputLimit { limit } => {
                let mut out: Vec<char> = Vec::new();
                push_text(&mut out, "input exceeds the ");
                push_decimal(&mut out, *limit as u64);
                push_text(&mut out, "-byte bound");
                assert(out@ =~= error_text(*self));
                string_of(out.as_slice())
            },
            ProviderError::Request(text) => with_text("expected exactly one RequestV1 envelope: ", text.as_str()),
            ProviderError::Unsupported(text) => with_text("unsupported request: ", text.as_str()),
            ProviderError::RuffJson(text) => with_text("malformed Ruff JSON: ", text.as_str()),
            ProviderError::RuffSeverity(text) => with_text("unsupported Ruff severity: ", text.as_str()),
            ProviderError::PathEscape(text) => with_text("Ruff path escapes the repository: ", text.as_str()),
            ProviderError::EventLimit => "event count exceeds the caller limit".to_owned(),
            ProviderError::FixEvidenceLimit { observed, limit } => {
                let mut out: Vec<char> = Vec::new();
                push_text(&mut out, "canonical Ruff fix evidence exceeds the caller's ");
                push_decimal(&mut out, *limit as u64);
                push_text(&mut out, "-byte bound (");
                push_decimal(&mut out, *observed as u64);
                push_text(&mut out, " bytes)");
                assert(out@ =~= error_text(*self));
                string_of(out.as_slice())
            },
            ProviderError::Contract(text) => with_text(
                "generated envelope violates the v1 contract: ",
                text.as_str(),
            ),
            ProviderError::Process(text) => with_text("Ruff process failed: ", text.as_str()),
            ProviderError::Workspace(text) => with_text("workspace is not a repository directory: ", text.as_str()),
            ProviderError::Io(text) => with_text("failed to emit JSONL: ", text.as_str()),
        }
    }
}

} // verus!
