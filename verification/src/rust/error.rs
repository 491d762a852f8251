//! Failures of the Rust provider.
use crate::text::{push_text, string_of};
use vstd::prelude::*;

verus! {

/// Why the provider could not do what it was asked.
#[derive(Clone, Debug, PartialEq, Eq)]
pub enum ProviderError {
    Request(String),
    CargoJson(String),
    Path(String),
    Model(String),
    Io(String),
    Json(String),
}

/// What a `ProviderError` holds.
pub enum Fault {
    Request(Seq<char>),
    CargoJson(Seq<char>),
    Path(Seq<char>),
    Model(Seq<char>),
    Io(Seq<char>),
    Json(Seq<char>),
}

impl View for ProviderError {
    type V = Fault;

    open spec fn view(&self) -> Fault {
        match self {
            ProviderError::Request(text) => Fault::Request(text@),
            ProviderError::CargoJson(text) => Fault::CargoJson(text@),
            ProviderError::Path(text) => Fault::Path(text@),
            ProviderError::Model(text) => Fault::Model(text@),
            ProviderError::Io(text) => Fault::Io(text@),
            ProviderError::Json(text) => Fault::Json(text@),
        }
    }
}

impl Fault {
    /// What the fault is said to be.
    pub open spec fn text(self) -> Seq<char> {
        match self {
            Fault::Request(text) => "invalid Provider request: "@ + text,
            Fault::CargoJson(text) => "Cargo JSON boundary failed: "@ + text,
            Fault::Path(_) => "invalid Rust diagnostic path"@,
            Fault::Model(text) => "Provider model construction failed: "@ + text,
            Fault::Io(text) => "Provider I/O failed: "@ + text,
            Fault::Json(text) => "Provider JSON encoding failed: "@ + text,
        }
    }
}

fn with_text(prefix: &str, text: &str) -> (r: String)
    ensures
        r@ == prefix@ + text@,
{
    let mut out: Vec<char> = Vec::new();
    push_text(&mut out, prefix);
    push_text(&mut out, text);
    assert(out@ =~= prefix@ + text@);
    string_of(out.as_slice())
}

impl ProviderError {
    /// What the error says.
    pub fn message(&self) -> (r: String)
        ensures
            r@ == self@.text(),
    {
        match self {
            ProviderError::Request(text) => with_text("invalid Provider request: ", text.as_str()),
            ProviderError::CargoJson(text) => with_text("Cargo JSON boundary failed: ", text.as_str()),
            ProviderError::Path(_) => "invalid Rust diagnostic path".to_owned(),
            ProviderError::Model(text) => with_text("Provider model construction failed: ", text.as_str()),
            ProviderError::Io(text) => with_text("Provider I/O failed: ", text.as_str()),
            ProviderError::Json(text) => with_text("Provider JSON encoding failed: ", text.as_str()),
        }
    }

    /// An error of the provider's own records.
    pub fn model(text: &str) -> (r: ProviderError)
        ensures
            r@ == Fault::Model(text@),
    {
        ProviderError::Model(text.to_owned())
    }

    /// An error of a path.
    pub fn path(text: &str) -> (r: ProviderError)
        ensures
            r@ == Fault::Path(text@),
    {
        ProviderError::Path(text.to_owned())
    }
}

} // verus!
