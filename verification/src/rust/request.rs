//! Which requests the provider takes.
use super::error::{Fault, ProviderError};
use crate::model::AdapterKind;
use crate::order::equal_texts;
use crate::process::invocation::texts;
use crate::protocol::{
    negotiates, one_line, request_negotiates, without_line_end, AdapterManifest, Decoded, Operation,
    RequestEnvelope, CHECK_CAPABILITY, MAX_REQUEST_BYTES,
};
use crate::text::{push_text, string_of};
use vstd::prelude::*;

verus! {

/// What the provider says of itself.
pub fn manifest(version: &str) -> (r: AdapterManifest)
    ensures
        r.id@ == "rust"@,
        r.version@ == version@,
        r.kind == AdapterKind::Provider,
        texts(r.capabilities@) == seq![CHECK_CAPABILITY@],
        texts(r.languages@) == seq!["rust"@],
{
    let mut capabilities: Vec<String> = Vec::new();
    capabilities.push(CHECK_CAPABILITY.to_owned());
    assert(texts(capabilities@) =~= seq![CHECK_CAPABILITY@]);
    let mut languages: Vec<String> = Vec::new();
    languages.push("rust".to_owned());
    assert(texts(languages@) =~= seq!["rust"@]);
    AdapterManifest {
        id: "rust".to_owned(),
        version: version.to_owned(),
        kind: AdapterKind::Provider,
        capabilities,
        languages,
    }
}

/// What keeps the input from being a request, apart from what the shared parser makes of it.
pub open spec fn framing_fault(input: Seq<u8>) -> Option<Fault> {
    let line = without_line_end(input);
    if input.len() > MAX_REQUEST_BYTES {
        Some(Fault::Request("request exceeds 65536 bytes"@))
    } else if line.len() == 0 || !one_line(line) {
        Some(Fault::Request("stdin must contain exactly one JSON object line"@))
    } else {
        None
    }
}

/// The one line that the input is.
pub fn request_line(input: &[u8]) -> (r: Result<&[u8], ProviderError>)
    ensures
        match framing_fault(input@) {
            Some(fault) => r matches Err(error) && error@ == fault,
            None => r matches Ok(line) && line@ == without_line_end(input@),
        },
{
    if input.len() > MAX_REQUEST_BYTES {
        return Err(ProviderError::Request("request exceeds 65536 bytes".to_owned()));
    }
    let mut end: usize = input.len();
    if input.len() >= 1 && input[input.len() - 1] == 10 {
        end = input.len() - 1;
        if end >= 1 && input[end - 1] == 13 {
            end = end - 1;
        }
    }
    let line: &[u8] = vstd::slice::slice_subrange(input, 0, end);
    assert(line@ =~= without_line_end(input@));
    let mut single: bool = line.len() > 0;
    let mut i: usize = 0;
    while i < line.len()
        invariant
            i <= line.len(),
            single == (line.len() > 0 && forall|k: int| 0 <= k < i ==> #[trigger] line@[k] != 10 && line@[k] != 13),
        decreases line.len() - i,
    {
        single = single && line[i] != 10 && line[i] != 13;
        i = i + 1;
    }
    if !single {
        return Err(ProviderError::Request("stdin must contain exactly one JSON object line".to_owned()));
    }
    Ok(line)
}

/// Decodes exactly one bounded request line. `decoded` is what the shared parser makes of the line
/// that `request_line` gives.
pub fn decode_request(input: &[u8], decoded: Decoded) -> (r: Result<RequestEnvelope, ProviderError>)
    ensures
        match framing_fault(input@) {
            Some(fault) => r matches Err(error) && error@ == fault,
            None => match decoded {
                Decoded::Malformed(text) => r matches Err(error) && error@ == Fault::Request(text@),
                Decoded::Invalid(text) => r matches Err(error) && error@ == Fault::Request(text@),
                Decoded::Request(request) => r == Ok::<RequestEnvelope, ProviderError>(request),
                Decoded::Other => r matches Err(error) && error@ == Fault::Request("request envelope kind mismatch"@),
            },
        },
{
    match request_line(input) {
        Err(error) => Err(error),
        Ok(_) => match decoded {
            Decoded::Malformed(text) => Err(ProviderError::Request(text)),
            Decoded::Invalid(text) => Err(ProviderError::Request(text)),
            Decoded::Request(request) => Ok(request),
            Decoded::Other => Err(ProviderError::Request("request envelope kind mismatch".to_owned())),
        },
    }
}

/// The first capability from `k` on that is not the check.
pub open spec fn foreign_capability(required: Seq<Seq<char>>, k: nat) -> Option<Seq<char>>
    decreases required.len() - k,
{
    if k >= required.len() {
        None
    } else if required[k as int] != CHECK_CAPABILITY@ {
        Some(required[k as int])
    } else {
        foreign_capability(required, k + 1)
    }
}

/// What of the request the provider does not support.
pub open spec fn unsupported(request: RequestEnvelope) -> Option<Seq<char>> {
    if request.operation != Operation::Check && request.operation != Operation::Verify {
        Some("Rust Provider supports only CHECK and VERIFY"@)
    } else if !negotiates(request, CHECK_CAPABILITY@) {
        Some("diagnostic operation requires diagnostic.check/v1"@)
    } else {
        match foreign_capability(texts(request.required_capabilities@), 0) {
            Some(capability) => Some("required capability is unsupported: "@ + capability),
            None => None,
        }
    }
}

/// What of the request the provider does not support.
pub fn unsupported_request(request: &RequestEnvelope) -> (r: Option<String>)
    ensures
        match r {
            Some(text) => unsupported(*request) == Some(text@),
            None => unsupported(*request) is None,
        },
{
    if request.operation != Operation::Check && request.operation != Operation::Verify {
        return Some("Rust Provider supports only CHECK and VERIFY".to_owned());
    }
    if !request_negotiates(request, CHECK_CAPABILITY) {
        return Some("diagnostic operation requires diagnostic.check/v1".to_owned());
    }
    let ghost required = texts(request.required_capabilities@);
    let mut i: usize = 0;
    while i < request.required_capabilities.len()
        invariant
            i <= request.required_capabilities.len(),
            request.operation == Operation::Check || request.operation == Operation::Verify,
            negotiates(*request, CHECK_CAPABILITY@),
            required == texts(request.required_capabilities@),
            foreign_capability(required, 0) == foreign_capability(required, i as nat),
        decreases request.required_capabilities.len() - i,
    {
        let capability: &str = request.required_capabilities[i].as_str();
        assert(required[i as int] == capability@);
        if !equal_texts(capability, CHECK_CAPABILITY) {
            let mut out: Vec<char> = Vec::new();
            push_text(&mut out, "required capability is unsupported: ");
            push_text(&mut out, capability);
            assert(out@ =~= "required capability is unsupported: "@ + capability@);
            return Some(string_of(out.as_slice()));
        }
        i = i + 1;
    }
    None
}

} // verus!
