//! The runtime configuration: what it may hold, and its normal form.
use crate::model::Taxonomy;
use crate::numeral::{decimal, push_decimal};
use crate::process::error::ProcessError;
use crate::process::limits::{request_limits, request_rejection, RequestLimits};
use crate::text::{chars_of, string_of, white_space};
use vstd::prelude::*;

pub mod laws;
pub mod normal;
pub mod provider;
pub mod runtime;

verus! {

/// The runtime timeout ceiling and default, in milliseconds.
pub const DEFAULT_TIMEOUT_MS: u64 = 600_000;

/// The provider stdout ceiling and default, in bytes.
pub const DEFAULT_MAX_STDOUT_BYTES: u64 = 16 * 1024 * 1024;

/// The provider stderr ceiling and default, in bytes.
pub const DEFAULT_MAX_STDERR_BYTES: u64 = 4 * 1024 * 1024;

/// The evidence ceiling and default, in bytes.
pub const DEFAULT_MAX_EVIDENCE_BYTES: u64 = 1024 * 1024;

/// The provider event ceiling and default.
pub const DEFAULT_MAX_EVENTS: u64 = 10_000;

/// Errors raised while validating a runtime configuration.
#[derive(Debug)]
pub enum ConfigError {
    Invalid { field: String, reason: String },
    InvalidClassificationRule { rule_id: String, reason: String },
    /// The taxonomy of a classification rule is invalid.
    Taxonomy,
    /// The policy is invalid.
    Policy,
    Process(ProcessError),
}

/// What is wrong with a configuration.
pub enum Fault {
    Invalid { field: Seq<char>, reason: Seq<char> },
    Rule { rule_id: Seq<char>, reason: Seq<char> },
    Taxonomy,
    Policy,
}

/// `error` reports the fault.
pub open spec fn reports(error: ConfigError, fault: Fault) -> bool {
    match fault {
        Fault::Invalid { field, reason } => error matches ConfigError::Invalid { field: f, reason: r } && f@ == field && r@
            == reason,
        Fault::Rule { rule_id, reason } => error matches ConfigError::InvalidClassificationRule { rule_id: i, reason: r }
            && i@ == rule_id && r@ == reason,
        Fault::Taxonomy => error is Taxonomy,
        Fault::Policy => error is Policy,
    }
}

/// A result that reports the fault, if there is one.
pub open spec fn judged(r: Result<(), ConfigError>, fault: Option<Fault>) -> bool {
    match r {
        Ok(()) => fault is None,
        Err(e) => fault matches Some(f) && reports(e, f),
    }
}

pub open spec fn fault(field: Seq<char>, reason: Seq<char>) -> Option<Fault> {
    Some(Fault::Invalid { field, reason })
}

/// The first of two faults, if there is one.
pub open spec fn either(first: Option<Fault>, second: Option<Fault>) -> Option<Fault> {
    if first is Some {
        first
    } else {
        second
    }
}

pub fn invalid(field: &str, reason: &str) -> (r: ConfigError)
    ensures
        reports(r, Fault::Invalid { field: field@, reason: reason@ }),
{
    ConfigError::Invalid { field: field.to_owned(), reason: reason.to_owned() }
}

/// `head`, a number and `tail`.
pub open spec fn numbered(head: Seq<char>, n: nat, tail: Seq<char>) -> Seq<char> {
    head + decimal(n) + tail
}

pub fn numbered_text(head: &str, n: u64, tail: &str) -> (r: String)
    ensures
        r@ == numbered(head@, n as nat, tail@),
{
    let mut out: Vec<char> = chars_of(head);
    push_decimal(&mut out, n);
    let mut rest: Vec<char> = chars_of(tail);
    out.append(&mut rest);
    string_of(out.as_slice())
}

/// White space stands only as single spaces between other characters.
pub open spec fn canonical_spacing(s: Seq<char>) -> bool {
    forall|i: int|
        0 <= i < s.len() && white_space(#[trigger] s[i]) ==> s[i] == ' ' && 0 < i && i + 1 < s.len() && !white_space(
            s[i + 1],
        )
}

/// What is wrong with a text that has to have `minimum` to `maximum` characters.
pub open spec fn text_fault(field: Seq<char>, s: Seq<char>, minimum: nat, maximum: nat) -> Option<Fault> {
    if minimum <= s.len() <= maximum && canonical_spacing(s) && !s.contains('\0') {
        None
    } else {
        fault(field, "must contain "@ + decimal(minimum) + "..="@ + decimal(maximum) + " canonical characters"@)
    }
}

pub fn validate_text(field: &str, value: &str, minimum: usize, maximum: usize) -> (r: Result<(), ConfigError>)
    ensures
        judged(r, text_fault(field@, value@, minimum as nat, maximum as nat)),
{
    let s: Vec<char> = chars_of(value);
    let mut ok: bool = minimum <= s.len() && s.len() <= maximum;
    let mut i: usize = 0;
    let ghost sized = ok;
    while i < s.len() && ok
        invariant
            s@ == value@,
            i <= s.len(),
            sized == (minimum <= s.len() <= maximum),
            ok ==> sized && forall|k: int|
                0 <= k < i ==> {
                    &&& #[trigger] s@[k] != '\0'
                    &&& white_space(s@[k]) ==> s@[k] == ' ' && 0 < k && k + 1 < s.len() && !white_space(s@[k + 1])
                },
            !ok ==> !(sized && canonical_spacing(s@) && !s@.contains('\0')),
        decreases s.len() - i,
    {
        let c: char = s[i];
        assert(s@[i as int] == c);
        if c == '\0' {
            ok = false;
        } else if c.is_whitespace() {
            if c != ' ' || i == 0 || i + 1 >= s.len() || s[i + 1].is_whitespace() {
                ok = false;
            }
        }
        i = i + 1;
    }
    if ok {
        Ok(())
    } else {
        let mut reason: Vec<char> = chars_of("must contain ");
        push_decimal(&mut reason, minimum as u64);
        let mut between: Vec<char> = chars_of("..=");
        reason.append(&mut between);
        push_decimal(&mut reason, maximum as u64);
        let mut tail: Vec<char> = chars_of(" canonical characters");
        reason.append(&mut tail);
        Err(ConfigError::Invalid { field: field.to_owned(), reason: string_of(reason.as_slice()) })
    }
}

/// What is wrong with a text that must not hold a NUL.
pub open spec fn nul_fault(field: Seq<char>, s: Seq<char>) -> Option<Fault> {
    if s.contains('\0') {
        fault(field, "must not contain NUL"@)
    } else {
        None
    }
}

pub fn validate_no_nul(field: &str, value: &str) -> (r: Result<(), ConfigError>)
    ensures
        judged(r, nul_fault(field@, value@)),
{
    for c in it: value.chars()
        invariant
            it.seq() == value@,
            forall|k: int| 0 <= k < it.index() ==> value@[k] != '\0',
    {
        if c == '\0' {
            assert(value@[it.index() as int] == '\0');
            return Err(invalid(field, "must not contain NUL"));
        }
    }
    Ok(())
}

/// Bounded process and event limits.
#[derive(Clone, Copy, Debug, PartialEq, Eq, Structural)]
pub struct RuntimeLimits {
    pub timeout_ms: u64,
    pub max_stdout_bytes: u64,
    pub max_stderr_bytes: u64,
    pub max_evidence_bytes: u64,
    pub max_events: u64,
}

impl Default for RuntimeLimits {
    fn default() -> (r: RuntimeLimits)
        ensures
            r.timeout_ms == DEFAULT_TIMEOUT_MS,
            r.max_stdout_bytes == DEFAULT_MAX_STDOUT_BYTES,
            r.max_stderr_bytes == DEFAULT_MAX_STDERR_BYTES,
            r.max_evidence_bytes == DEFAULT_MAX_EVIDENCE_BYTES,
            r.max_events == DEFAULT_MAX_EVENTS,
            r.fault() is None,
    {
        RuntimeLimits {
            timeout_ms: DEFAULT_TIMEOUT_MS,
            max_stdout_bytes: DEFAULT_MAX_STDOUT_BYTES,
            max_stderr_bytes: DEFAULT_MAX_STDERR_BYTES,
            max_evidence_bytes: DEFAULT_MAX_EVIDENCE_BYTES,
            max_events: DEFAULT_MAX_EVENTS,
        }
    }
}

/// What is wrong with a limit that has a ceiling.
pub open spec fn ceiling_fault(field: Seq<char>, value: u64, maximum: u64) -> Option<Fault> {
    if value > maximum {
        fault(field, numbered("must not exceed "@, maximum as nat, ""@))
    } else {
        None
    }
}

fn validate_ceiling(field: &str, value: u64, maximum: u64) -> (r: Result<(), ConfigError>)
    ensures
        judged(r, ceiling_fault(field@, value, maximum)),
{
    if value > maximum {
        return Err(
            ConfigError::Invalid { field: field.to_owned(), reason: numbered_text("must not exceed ", maximum, "") },
        );
    }
    Ok(())
}

/// What is wrong with a limit that has a ceiling and must not be zero.
pub open spec fn nonzero_fault(field: Seq<char>, value: u64, maximum: u64) -> Option<Fault> {
    if value == 0 || value > maximum {
        fault(field, numbered("must be between 1 and "@, maximum as nat, ""@))
    } else {
        None
    }
}

fn validate_nonzero_limit(field: &str, value: u64, maximum: u64) -> (r: Result<(), ConfigError>)
    ensures
        judged(r, nonzero_fault(field@, value, maximum)),
{
    if value == 0 || value > maximum {
        return Err(
            ConfigError::Invalid {
                field: field.to_owned(),
                reason: numbered_text("must be between 1 and ", maximum, ""),
            },
        );
    }
    Ok(())
}

impl RuntimeLimits {
    /// What is wrong with the limits.
    pub open spec fn fault(self) -> Option<Fault> {
        either(
            nonzero_fault("limits.timeout_ms"@, self.timeout_ms, DEFAULT_TIMEOUT_MS),
            either(
                ceiling_fault("limits.max_stdout_bytes"@, self.max_stdout_bytes, DEFAULT_MAX_STDOUT_BYTES),
                either(
                    ceiling_fault("limits.max_stderr_bytes"@, self.max_stderr_bytes, DEFAULT_MAX_STDERR_BYTES),
                    either(
                        ceiling_fault("limits.max_evidence_bytes"@, self.max_evidence_bytes, DEFAULT_MAX_EVIDENCE_BYTES),
                        ceiling_fault("limits.max_events"@, self.max_events, DEFAULT_MAX_EVENTS),
                    ),
                ),
            ),
        )
    }

    pub fn validate(&self) -> (r: Result<(), ConfigError>)
        ensures
            judged(r, self.fault()),
    {
        match validate_nonzero_limit("limits.timeout_ms", self.timeout_ms, DEFAULT_TIMEOUT_MS) {
            Ok(()) => {},
            Err(e) => {
                return Err(e);
            },
        }
        match validate_ceiling("limits.max_stdout_bytes", self.max_stdout_bytes, DEFAULT_MAX_STDOUT_BYTES) {
            Ok(()) => {},
            Err(e) => {
                return Err(e);
            },
        }
        match validate_ceiling("limits.max_stderr_bytes", self.max_stderr_bytes, DEFAULT_MAX_STDERR_BYTES) {
            Ok(()) => {},
            Err(e) => {
                return Err(e);
            },
        }
        match validate_ceiling("limits.max_evidence_bytes", self.max_evidence_bytes, DEFAULT_MAX_EVIDENCE_BYTES) {
            Ok(()) => {},
            Err(e) => {
                return Err(e);
            },
        }
        validate_ceiling("limits.max_events", self.max_events, DEFAULT_MAX_EVENTS)
    }

    /// The limits as a request states them.
    pub open spec fn as_request(self) -> RequestLimits {
        RequestLimits {
            timeout_ms: self.timeout_ms,
            max_stdout_bytes: self.max_stdout_bytes,
            max_stderr_bytes: self.max_stderr_bytes,
            max_events: self.max_events,
            max_evidence_bytes: self.max_evidence_bytes,
        }
    }

    /// The limits as a request states them, where they are valid.
    pub fn to_request(&self) -> (r: Result<RequestLimits, ConfigError>)
        ensures
            match r {
                Ok(request) => self.fault() is None && request == self.as_request(),
                Err(e) => self.fault() matches Some(f) && reports(e, f),
            },
    {
        match self.validate() {
            Ok(()) => Ok(
                RequestLimits {
                    timeout_ms: self.timeout_ms,
                    max_stdout_bytes: self.max_stdout_bytes,
                    max_stderr_bytes: self.max_stderr_bytes,
                    max_events: self.max_events,
                    max_evidence_bytes: self.max_evidence_bytes,
                },
            ),
            Err(e) => Err(e),
        }
    }
}

/// Limits that a configuration allows can always be given to a child.
pub proof fn law_valid_limits_fit_a_process(limits: RuntimeLimits)
    requires
        limits.fault() is None,
    ensures
        request_rejection(limits.as_request()) is None,
        request_limits(limits.as_request()).valid(),
{
}

} // verus!
