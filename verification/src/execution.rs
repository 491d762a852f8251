//! Records of provider executions, and whether a session is the one that was planned.
use crate::model::{
    AdapterKind, Cache, Execution, ExecutionPhases, ExecutionStatus, Performance, PerformanceStatus, PhaseDuration,
    Retry, Runner, Tool, ToolchainFingerprint, EXECUTION_SCHEMA, NOT_APPLICABLE, UNAVAILABLE,
};
use crate::order::equal_texts;
use crate::protocol::{ProtocolEvent, RequestEnvelope, ValidatedSession};
use vstd::prelude::*;

verus! {

/// The time that a run may take before it is worth improving.
pub const PERFORMANCE_BUDGET_MS: u32 = 60_000;

/// What is known of a provider's run.
#[derive(Clone, Debug, PartialEq, Eq)]
pub struct ProviderExecutionInput {
    pub execution_id: String,
    pub adapter_id: String,
    pub tool: Tool,
    pub required: bool,
    pub status: ExecutionStatus,
    pub exit_code: Option<u8>,
    pub message: Option<String>,
    pub run_duration_ms: Option<u32>,
}

/// Why a run has no valid record.
#[derive(Clone, Debug, PartialEq, Eq)]
pub enum ExecutionContractError {
    /// The record contract refuses the record, for the reason given.
    Rejected(String),
    /// A complete run has an exit code, and no other has.
    ExitCode,
}

/// How a run stands to the budget: only its own duration counts.
pub open spec fn performance_of(run_duration_ms: Option<u32>) -> PerformanceStatus {
    match run_duration_ms {
        None => PerformanceStatus::NotEvaluated,
        Some(duration) => if duration > PERFORMANCE_BUDGET_MS {
            PerformanceStatus::ImprovementCandidate
        } else {
            PerformanceStatus::WithinBudget
        },
    }
}

/// The phases of a run of which only the duration of the run itself may be known.
pub open spec fn phases_of(run_duration_ms: Option<u32>) -> ExecutionPhases {
    ExecutionPhases {
        queue: PhaseDuration::Unavailable,
        setup: PhaseDuration::Unavailable,
        run: match run_duration_ms {
            Some(duration) => PhaseDuration::Milliseconds(duration),
            None => PhaseDuration::Unavailable,
        },
        normalize: PhaseDuration::Unavailable,
        total: PhaseDuration::Unavailable,
    }
}

/// The record says of the run what the runtime knows, and that the rest was not measured.
pub open spec fn records_run(execution: Execution, input: ProviderExecutionInput) -> bool {
    &&& execution.schema_version@ == EXECUTION_SCHEMA@
    &&& execution.execution_id == input.execution_id
    &&& execution.adapter_id == input.adapter_id
    &&& execution.adapter_kind == AdapterKind::Provider
    &&& execution.tool == input.tool
    &&& execution.toolchain_fingerprint is Unavailable
    &&& execution.required == input.required
    &&& execution.status == input.status
    &&& execution.exit_code == input.exit_code
    &&& execution.message == input.message
    &&& execution.phases_ms == phases_of(input.run_duration_ms)
    &&& execution.performance == Performance {
        status: performance_of(input.run_duration_ms),
        budget_ms: PERFORMANCE_BUDGET_MS,
    }
    &&& execution.cache.status@ == UNAVAILABLE@ && execution.cache.restore_ms is None && execution.cache.save_ms is None
    &&& execution.retry.status@ == NOT_APPLICABLE@ && execution.retry.attempt is None
        && execution.retry.same_revision is None && execution.retry.group_id is None
    &&& execution.runner.status@ == UNAVAILABLE@ && execution.runner.os is None && execution.runner.arch is None
        && execution.runner.image is None && execution.runner.fingerprint is None
    &&& execution.verification is None
}

/// Whether the record satisfies the contract: exactly the complete runs have an exit code.
pub open spec fn exit_code_fits(status: ExecutionStatus, exit_code: Option<u8>) -> bool {
    (status == ExecutionStatus::Complete) == exit_code is Some
}

/// The record of a provider's run, as it is handed to the record contract.
pub fn provider_execution(input: ProviderExecutionInput) -> (r: Execution)
    ensures
        records_run(r, input),
{
    let status: PerformanceStatus = match input.run_duration_ms {
        None => PerformanceStatus::NotEvaluated,
        Some(duration) => if duration > PERFORMANCE_BUDGET_MS {
            PerformanceStatus::ImprovementCandidate
        } else {
            PerformanceStatus::WithinBudget
        },
    };
    let run: PhaseDuration = match input.run_duration_ms {
        Some(duration) => PhaseDuration::Milliseconds(duration),
        None => PhaseDuration::Unavailable,
    };
    Execution {
        schema_version: EXECUTION_SCHEMA.to_owned(),
        execution_id: input.execution_id,
        adapter_id: input.adapter_id,
        adapter_kind: AdapterKind::Provider,
        tool: input.tool,
        toolchain_fingerprint: ToolchainFingerprint::Unavailable,
        required: input.required,
        status: input.status,
        exit_code: input.exit_code,
        message: input.message,
        phases_ms: ExecutionPhases {
            queue: PhaseDuration::Unavailable,
            setup: PhaseDuration::Unavailable,
            run,
            normalize: PhaseDuration::Unavailable,
            total: PhaseDuration::Unavailable,
        },
        performance: Performance { status, budget_ms: PERFORMANCE_BUDGET_MS },
        cache: Cache { status: UNAVAILABLE.to_owned(), restore_ms: None, save_ms: None },
        retry: Retry {
            status: NOT_APPLICABLE.to_owned(),
            attempt: None,
            same_revision: None,
            group_id: None,
        },
        runner: Runner {
            status: UNAVAILABLE.to_owned(),
            os: None,
            arch: None,
            image: None,
            fingerprint: None,
        },
        verification: None,
    }
}

/// What the record contract's verdict on a record comes to: the record is refused where the contract
/// reports a violation, and where its exit code does not fit its status.
pub open spec fn judges_record(
    r: Result<Execution, ExecutionContractError>,
    input: ProviderExecutionInput,
    violation: Option<Seq<char>>,
) -> bool {
    match violation {
        Some(text) => r matches Err(ExecutionContractError::Rejected(said)) && said@ == text,
        None => if exit_code_fits(input.status, input.exit_code) {
            r matches Ok(execution) && records_run(execution, input)
        } else {
            r matches Err(ExecutionContractError::ExitCode)
        },
    }
}

/// The record of a provider's run. `violation` is what the record contract reports of the record
/// that `provider_execution` makes of the input.
pub fn validated_provider_execution(input: ProviderExecutionInput, violation: Option<String>) -> (r: Result<
    Execution,
    ExecutionContractError,
>)
    ensures
        judges_record(r, input, text_of(violation)),
{
    if let Some(text) = violation {
        return Err(ExecutionContractError::Rejected(text));
    }
    if (input.status == ExecutionStatus::Complete) != input.exit_code.is_some() {
        return Err(ExecutionContractError::ExitCode);
    }
    Ok(provider_execution(input))
}

/// How a session must have ended, and with which reason.
#[derive(Clone, Copy, Debug, PartialEq, Eq)]
pub enum ExpectedCompletion<'a> {
    Complete,
    Incomplete(&'a str),
    Unsupported(&'a str),
}

impl<'a> ExpectedCompletion<'a> {
    pub open spec fn status(self) -> ExecutionStatus {
        match self {
            ExpectedCompletion::Complete => ExecutionStatus::Complete,
            ExpectedCompletion::Incomplete(_) => ExecutionStatus::Incomplete,
            ExpectedCompletion::Unsupported(_) => ExecutionStatus::Unsupported,
        }
    }

    pub open spec fn reason(self) -> Option<Seq<char>> {
        match self {
            ExpectedCompletion::Complete => None,
            ExpectedCompletion::Incomplete(reason) => Some(reason@),
            ExpectedCompletion::Unsupported(reason) => Some(reason@),
        }
    }
}

/// What was planned for a session.
#[derive(Clone, Copy, Debug)]
pub struct ProviderExecutionIdentity<'a> {
    pub request: &'a RequestEnvelope,
    pub adapter_id: &'a str,
    pub adapter_version: &'a str,
    pub adapter_kind: AdapterKind,
    pub tool_name: &'a str,
    pub tool_version: &'a str,
    pub completion: ExpectedCompletion<'a>,
}

/// In what a session is not the one that was planned.
#[derive(Clone, Copy, Debug, PartialEq, Eq, Structural)]
pub enum ProviderIdentityMismatch {
    Request,
    AdapterId,
    AdapterVersion,
    AdapterKind,
    CompletionStatus,
    TerminalReason,
    ObservationToolName,
    ObservationToolVersion,
    ExecutionEvent,
}

/// The first mismatch among the events from the `k`-th on.
pub open spec fn event_mismatch(
    events: Seq<ProtocolEvent>,
    k: int,
    tool_name: Seq<char>,
    tool_version: Seq<char>,
) -> Option<ProviderIdentityMismatch>
    decreases events.len() - k,
{
    if k < 0 || k >= events.len() {
        None
    } else {
        match events[k] {
            ProtocolEvent::Observation(value) => if value.observation.tool.name@ != tool_name {
                Some(ProviderIdentityMismatch::ObservationToolName)
            } else if value.observation.tool.version@ != tool_version {
                Some(ProviderIdentityMismatch::ObservationToolVersion)
            } else {
                event_mismatch(events, k + 1, tool_name, tool_version)
            },
            ProtocolEvent::Execution(_) => Some(ProviderIdentityMismatch::ExecutionEvent),
            _ => event_mismatch(events, k + 1, tool_name, tool_version),
        }
    }
}

/// The first thing in which the session is not the one that was planned.
pub open spec fn identity_mismatch(
    expected: ProviderExecutionIdentity<'_>,
    session: ValidatedSession,
) -> Option<ProviderIdentityMismatch> {
    if session.request@ != expected.request@ {
        Some(ProviderIdentityMismatch::Request)
    } else if session.adapter.id@ != expected.adapter_id@ {
        Some(ProviderIdentityMismatch::AdapterId)
    } else if session.adapter.version@ != expected.adapter_version@ {
        Some(ProviderIdentityMismatch::AdapterVersion)
    } else if session.adapter.kind != expected.adapter_kind {
        Some(ProviderIdentityMismatch::AdapterKind)
    } else if session.completion.status != expected.completion.status() {
        Some(ProviderIdentityMismatch::CompletionStatus)
    } else if expected.completion.reason() is Some && text_of(session.completion.message)
        != expected.completion.reason() {
        Some(ProviderIdentityMismatch::TerminalReason)
    } else {
        event_mismatch(session.events@, 0, expected.tool_name@, expected.tool_version@)
    }
}

/// The text, where there is one.
pub open spec fn text_of(value: Option<String>) -> Option<Seq<char>> {
    match value {
        Some(text) => Some(text@),
        None => None,
    }
}

fn has_reason(message: &Option<String>, reason: &str) -> (r: bool)
    ensures
        r == (text_of(*message) == Some(reason@)),
{
    match message {
        Some(text) => equal_texts(text.as_str(), reason),
        None => false,
    }
}

/// Checks that the session is the one that was planned.
pub fn validate_provider_execution_identity(
    expected: &ProviderExecutionIdentity<'_>,
    session: &ValidatedSession,
) -> (r: Result<(), ProviderIdentityMismatch>)
    ensures
        r == (match identity_mismatch(*expected, *session) {
            Some(mismatch) => Err::<(), ProviderIdentityMismatch>(mismatch),
            None => Ok(()),
        }),
{
    if !session.request.same(expected.request) {
        return Err(ProviderIdentityMismatch::Request);
    }
    if !equal_texts(session.adapter.id.as_str(), expected.adapter_id) {
        return Err(ProviderIdentityMismatch::AdapterId);
    }
    if !equal_texts(session.adapter.version.as_str(), expected.adapter_version) {
        return Err(ProviderIdentityMismatch::AdapterVersion);
    }
    if session.adapter.kind != expected.adapter_kind {
        return Err(ProviderIdentityMismatch::AdapterKind);
    }
    match expected.completion {
        ExpectedCompletion::Complete => {
            if session.completion.status != ExecutionStatus::Complete {
                return Err(ProviderIdentityMismatch::CompletionStatus);
            }
        },
        ExpectedCompletion::Incomplete(reason) => {
            if session.completion.status != ExecutionStatus::Incomplete {
                return Err(ProviderIdentityMismatch::CompletionStatus);
            }
            if !has_reason(&session.completion.message, reason) {
                return Err(ProviderIdentityMismatch::TerminalReason);
            }
        },
        ExpectedCompletion::Unsupported(reason) => {
            if session.completion.status != ExecutionStatus::Unsupported {
                return Err(ProviderIdentityMismatch::CompletionStatus);
            }
            if !has_reason(&session.completion.message, reason) {
                return Err(ProviderIdentityMismatch::TerminalReason);
            }
        },
    }
    let mut k: usize = 0;
    while k < session.events.len()
        invariant
            k <= session.events.len(),
            identity_mismatch(*expected, *session) == event_mismatch(
                session.events@,
                k as int,
                expected.tool_name@,
                expected.tool_version@,
            ),
        decreases session.events.len() - k,
    {
        match &session.events[k] {
            ProtocolEvent::Observation(value) => {
                if !equal_texts(value.observation.tool.name.as_str(), expected.tool_name) {
                    return Err(ProviderIdentityMismatch::ObservationToolName);
                }
                if !equal_texts(value.observation.tool.version.as_str(), expected.tool_version) {
                    return Err(ProviderIdentityMismatch::ObservationToolVersion);
                }
            },
            ProtocolEvent::Execution(_) => {
                return Err(ProviderIdentityMismatch::ExecutionEvent);
            },
            _ => {},
        }
        k = k + 1;
    }
    Ok(())
}

} // verus!
