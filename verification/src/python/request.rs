//! Which requests the provider takes.
use super::error::ProviderError;
use crate::model::AdapterKind;
use crate::order::equal_texts;
use crate::process::invocation::texts;
use crate::protocol::{
    negotiates, one_line, request_negotiates, without_line_end, AdapterManifest, Decoded, Operation,
    RequestEnvelope, CHECK_CAPABILITY,
};
use vstd::prelude::*;

verus! {

pub const FIX_CAPABILITY: &'static str = "fix.propose/v1";

/// What the provider says of itself.
pub fn manifest(version: &str) -> (r: AdapterManifest)
    ensures
        r.id@ == "ruff"@,
        r.version@ == version@,
        r.kind == AdapterKind::Provider,
        texts(r.capabilities@) == seq![CHECK_CAPABILITY@, FIX_CAPABILITY@],
        texts(r.languages@) == seq!["python"@],
{
    let mut capabilities: Vec<String> = Vec::new();
    capabilities.push(CHECK_CAPABILITY.to_owned());
    capabilities.push(FIX_CAPABILITY.to_owned());
    assert(texts(capabilities@) =~= seq![CHECK_CAPABILITY@, FIX_CAPABILITY@]);
    let mut languages: Vec<String> = Vec::new();
    languages.push("python".to_owned());
    assert(texts(languages@) =~= seq!["python"@]);
    AdapterManifest {
        id: "ruff".to_owned(),
        version: version.to_owned(),
        kind: AdapterKind::Provider,
        capabilities,
        languages,
    }
}

/// The one line that the input is, at most `max_bytes` long.
pub fn request_line(input: &[u8], max_bytes: usize) -> (r: Result<&[u8], ProviderError>)
    ensures
        if input@.len() > max_bytes {
            r matches Err(ProviderError::InputLimit { limit }) && limit == max_bytes
        } else if !one_line(without_line_end(input@)) {
            r matches Err(ProviderError::Request(text)) && text@ == "request must occupy exactly one JSONL line"@
        } else {
            r matches Ok(line) && line@ == without_line_end(input@)
        },
{
    if input.len() > max_bytes {
        return Err(ProviderError::InputLimit { limit: max_bytes });
    }
    let mut end: usize = input.len();
    if input.len() >= 2 && input[input.len() - 2] == 13 && input[input.len() - 1] == 10 {
        end = input.len() - 2;
    } else if input.len() >= 1 && input[input.len() - 1] == 10 {
        end = input.len() - 1;
    }
    let line: &[u8] = vstd::slice::slice_subrange(input, 0, end);
    assert(line@ =~= without_line_end(input@));
    let mut i: usize = 0;
    while i < line.len()
        invariant
            i <= line.len(),
            line@ == without_line_end(input@),
            input@.len() <= max_bytes,
            forall|k: int| 0 <= k < i ==> #[trigger] line@[k] != 10 && line@[k] != 13,
        decreases line.len() - i,
    {
        if line[i] == 10 || line[i] == 13 {
            assert(!(line@[i as int] != 10 && line@[i as int] != 13));
            return Err(ProviderError::Request("request must occupy exactly one JSONL line".to_owned()));
        }
        i = i + 1;
    }
    Ok(line)
}

/// What a request line comes to.
pub open spec fn decodes(r: Result<RequestEnvelope, ProviderError>, input: Seq<u8>, max_bytes: usize, decoded: Decoded) -> bool {
    if input.len() > max_bytes {
        r matches Err(ProviderError::InputLimit { limit }) && limit == max_bytes
    } else if !one_line(without_line_end(input)) {
        r matches Err(ProviderError::Request(text)) && text@ == "request must occupy exactly one JSONL line"@
    } else {
        match decoded {
            Decoded::Malformed(text) => r == Err::<RequestEnvelope, ProviderError>(ProviderError::Request(text)),
            Decoded::Invalid(text) => r == Err::<RequestEnvelope, ProviderError>(ProviderError::Request(text)),
            Decoded::Request(request) => r == Ok::<RequestEnvelope, ProviderError>(request),
            Decoded::Other => r matches Err(ProviderError::Request(text)) && text@
                == "input envelope kind is not request"@,
        }
    }
}

/// Decodes exactly one bounded request line. `decoded` is what the shared parser makes of the line
/// that `request_line` gives.
pub fn decode_request(input: &[u8], max_bytes: usize, decoded: Decoded) -> (r: Result<RequestEnvelope, ProviderError>)
    ensures
        decodes(r, input@, max_bytes, decoded),
{
    match request_line(input, max_bytes) {
        Err(error) => Err(error),
        Ok(_) => match decoded {
            Decoded::Malformed(text) => Err(ProviderError::Request(text)),
            Decoded::Invalid(text) => Err(ProviderError::Request(text)),
            Decoded::Request(request) => Ok(request),
            Decoded::Other => Err(ProviderError::Request("input envelope kind is not request".to_owned())),
        },
    }
}

/// Every required capability is one that the provider has.
pub open spec fn requires_only_known(request: RequestEnvelope) -> bool {
    forall|i: int|
        0 <= i < request.required_capabilities.len() ==> (#[trigger] request.required_capabilities@[i])@
            == CHECK_CAPABILITY@ || request.required_capabilities@[i]@ == FIX_CAPABILITY@
}

/// Why a request is refused.
pub open spec fn request_fault(request: RequestEnvelope, violation: Option<String>) -> Option<(bool, Seq<char>)> {
    if let Some(text) = violation {
        Some((false, text@))
    } else if request.operation != Operation::Check {
        Some((true, "this slice implements only CHECK"@))
    } else if !requires_only_known(request) {
        Some((true, "required capability is not advertised"@))
    } else if !negotiates(request, CHECK_CAPABILITY@) {
        Some((true, "CHECK requires diagnostic.check/v1"@))
    } else {
        None
    }
}

/// The request is taken, or the error says why not: as one that is not supported, or as one that
/// is not valid.
pub open spec fn judges_request(r: Result<(), ProviderError>, request: RequestEnvelope, violation: Option<String>) -> bool {
    match request_fault(request, violation) {
        None => r is Ok,
        Some((unsupported, message)) => if unsupported {
            r matches Err(ProviderError::Unsupported(text)) && text@ == message
        } else {
            r matches Err(ProviderError::Request(text)) && text@ == message
        },
    }
}

/// Checks that the provider can do what the request asks. `violation` is what the protocol contract
/// finds wrong with it.
pub fn validate_request(request: &RequestEnvelope, violation: Option<String>) -> (r: Result<(), ProviderError>)
    ensures
        judges_request(r, *request, violation),
{
    if let Some(text) = violation {
        return Err(ProviderError::Request(text));
    }
    if request.operation != Operation::Check {
        return Err(ProviderError::Unsupported("this slice implements only CHECK".to_owned()));
    }
    let mut i: usize = 0;
    while i < request.required_capabilities.len()
        invariant
            i <= request.required_capabilities.len(),
            violation is None,
            request.operation == Operation::Check,
            forall|k: int|
                0 <= k < i ==> (#[trigger] request.required_capabilities@[k])@ == CHECK_CAPABILITY@
                    || request.required_capabilities@[k]@ == FIX_CAPABILITY@,
        decreases request.required_capabilities.len() - i,
    {
        let capability: &str = request.required_capabilities[i].as_str();
        if !equal_texts(capability, CHECK_CAPABILITY) && !equal_texts(capability, FIX_CAPABILITY) {
            return Err(ProviderError::Unsupported("required capability is not advertised".to_owned()));
        }
        i = i + 1;
    }
    if !request_negotiates(request, CHECK_CAPABILITY) {
        return Err(ProviderError::Unsupported("CHECK requires diagnostic.check/v1".to_owned()));
    }
    Ok(())
}

} // verus!
