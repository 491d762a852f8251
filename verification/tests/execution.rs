//! Provider executions and their identities.

use diagnostic_triage::command::{
    after_execution, after_projection, after_report, evaluation_time, verdict_exit_code, ReadOnlyCommandMode,
    RuntimeCommandError,
};
use diagnostic_triage::execution::{
    provider_execution, validate_provider_execution_identity, validated_provider_execution, ExecutionContractError,
    ExpectedCompletion, ProviderExecutionIdentity, ProviderExecutionInput, ProviderIdentityMismatch,
};
use diagnostic_triage::model::{
    AdapterKind, ExecutionStatus, Observation, PerformanceStatus, PhaseDuration, Severity, Tool, ToolchainFingerprint,
    Verdict,
};
use diagnostic_triage::orchestration::ReadOnlyMode;
use diagnostic_triage::process::limits::RequestLimits;
use diagnostic_triage::protocol::{
    AdapterManifest, CompletionCounts, CompletionEnvelope, ExecutionEnvelope, ObservationEnvelope, Operation,
    ProtocolEvent, RequestEnvelope, ValidatedSession,
};

fn input(status: ExecutionStatus, exit_code: Option<u8>) -> ProviderExecutionInput {
    ProviderExecutionInput {
        execution_id: "019f7e95-0000-7000-8000-000000000009".to_owned(),
        adapter_id: "ruff".to_owned(),
        tool: Tool {
            name: "ruff".to_owned(),
            version: "0.12.4".to_owned(),
            rule_id: None,
        },
        required: true,
        message: (status != ExecutionStatus::Complete).then_some("terminal".to_owned()),
        status,
        exit_code,
        run_duration_ms: None,
    }
}

#[test]
fn constructs_valid_complete_and_terminal_records() {
    let complete =
        validated_provider_execution(input(ExecutionStatus::Complete, Some(0)), None).expect("complete execution");
    assert_eq!(complete.adapter_kind, AdapterKind::Provider);
    assert_eq!(complete.toolchain_fingerprint, ToolchainFingerprint::Unavailable);
    for phase in [
        &complete.phases_ms.queue,
        &complete.phases_ms.setup,
        &complete.phases_ms.normalize,
        &complete.phases_ms.total,
    ] {
        assert_eq!(phase, &PhaseDuration::Unavailable);
    }
    assert_eq!(complete.cache.status, "UNAVAILABLE");
    assert_eq!(complete.retry.status, "NOT_APPLICABLE");
    assert_eq!(complete.runner.status, "UNAVAILABLE");
    assert!(complete.verification.is_none());

    for value in [
        input(ExecutionStatus::Incomplete, None),
        input(ExecutionStatus::Unsupported, None),
    ] {
        let status = value.status;
        let execution = validated_provider_execution(value, None).unwrap();
        assert_eq!(execution.status, status);
        assert_eq!(execution.message.as_deref(), Some("terminal"));
    }
}

#[test]
fn evaluates_only_the_run_duration_against_budget() {
    for (duration, expected) in [
        (Some(60_000), PerformanceStatus::WithinBudget),
        (Some(60_001), PerformanceStatus::ImprovementCandidate),
        (None, PerformanceStatus::NotEvaluated),
    ] {
        let mut value = input(ExecutionStatus::Complete, Some(0));
        value.run_duration_ms = duration;
        let execution = validated_provider_execution(value, None).unwrap();
        assert_eq!(execution.performance.status, expected);
        assert_eq!(
            execution.phases_ms.run,
            duration.map_or(PhaseDuration::Unavailable, PhaseDuration::Milliseconds)
        );
    }
}

#[test]
fn rejects_invalid_status_exit_combinations() {
    assert!(validated_provider_execution(input(ExecutionStatus::Complete, None), None).is_err());
    assert!(validated_provider_execution(input(ExecutionStatus::Incomplete, Some(1)), None).is_err());
    assert_eq!(
        validated_provider_execution(input(ExecutionStatus::Unsupported, Some(1)), None).unwrap_err(),
        ExecutionContractError::ExitCode
    );
}

#[test]
fn a_record_that_the_contract_refuses_is_refused() {
    let given = input(ExecutionStatus::Complete, Some(0));
    let record = provider_execution(given.clone());
    assert_eq!(validated_provider_execution(given.clone(), None).unwrap(), record);
    let refused = ExecutionContractError::Rejected("execution.tool: no such tool".to_owned());
    let violation = Some("execution.tool: no such tool".to_owned());
    assert_eq!(validated_provider_execution(given, violation.clone()).unwrap_err(), refused);
    let unfit = input(ExecutionStatus::Unsupported, Some(1));
    assert_eq!(validated_provider_execution(unfit, violation).unwrap_err(), refused);
}

const REQUEST_ID: &str = "019f7e95-0000-7000-8000-000000000001";

fn session() -> ValidatedSession {
    ValidatedSession {
        adapter: AdapterManifest {
            id: "ruff".to_owned(),
            version: "0.1.0".to_owned(),
            kind: AdapterKind::Provider,
            capabilities: vec!["diagnostic.check/v1".to_owned()],
            languages: vec!["python".to_owned()],
        },
        request: RequestEnvelope {
            request_id: REQUEST_ID.to_owned(),
            operation: Operation::Check,
            workspace: ".".to_owned(),
            targets: vec!["src".to_owned()],
            required_capabilities: vec!["diagnostic.check/v1".to_owned()],
            optional_capabilities: Vec::new(),
            limits: RequestLimits {
                timeout_ms: 1000,
                max_stdout_bytes: 1024,
                max_stderr_bytes: 1024,
                max_events: 10,
                max_evidence_bytes: 1024,
            },
        },
        events: vec![ProtocolEvent::Observation(ObservationEnvelope {
            request_id: REQUEST_ID.to_owned(),
            sequence: 0,
            observation: Observation {
                schema_version: "diagnostic-triage.observation/v1".to_owned(),
                observation_id: "019f7e95-0000-7000-8000-000000000002".to_owned(),
                tool: Tool {
                    name: "ruff".to_owned(),
                    version: "0.12.4".to_owned(),
                    rule_id: Some("F401".to_owned()),
                },
                language: "python".to_owned(),
                severity: Severity::Warning,
                origin: "NORMAL".to_owned(),
                message: "unused import".to_owned(),
                location: None,
                symbol: None,
                expected: None,
                observed: None,
                evidence_ids: Vec::new(),
            },
        })],
        completion: CompletionEnvelope {
            request_id: REQUEST_ID.to_owned(),
            sequence: 1,
            status: ExecutionStatus::Complete,
            tool_exit_code: Some(1),
            tool_duration_ms: 5,
            counts: CompletionCounts {
                observations: 1,
                evidence: 0,
                fix_candidates: 0,
                executions: 0,
            },
            evidence_bytes: 0,
            message: None,
        },
    }
}

fn expected(session: &ValidatedSession) -> ProviderExecutionIdentity<'_> {
    ProviderExecutionIdentity {
        request: &session.request,
        adapter_id: &session.adapter.id,
        adapter_version: &session.adapter.version,
        adapter_kind: AdapterKind::Provider,
        tool_name: "ruff",
        tool_version: "0.12.4",
        completion: ExpectedCompletion::Complete,
    }
}

#[test]
fn accepts_complete_and_terminal_identity() {
    let mut complete = session();
    complete.completion.message = Some("informational".to_owned());
    validate_provider_execution_identity(&expected(&complete), &complete).unwrap();
    for (status, completion) in [
        (ExecutionStatus::Incomplete, ExpectedCompletion::Incomplete("stopped")),
        (ExecutionStatus::Unsupported, ExpectedCompletion::Unsupported("stopped")),
    ] {
        let mut terminal = session();
        terminal.completion.status = status;
        terminal.completion.tool_exit_code = None;
        terminal.completion.message = Some("stopped".to_owned());
        let mut identity = expected(&terminal);
        identity.completion = completion;
        validate_provider_execution_identity(&identity, &terminal).unwrap();
    }
}

fn assert_mismatch(
    identity: ProviderExecutionIdentity<'_>,
    session: &ValidatedSession,
    mismatch: ProviderIdentityMismatch,
) {
    assert_eq!(validate_provider_execution_identity(&identity, session), Err(mismatch));
}

#[test]
fn rejects_each_identity_mismatch() {
    let base = session();
    let mut changed = session();
    changed.request.targets.clear();
    assert_mismatch(expected(&base), &changed, ProviderIdentityMismatch::Request);
    changed = session();
    changed.adapter.id = "other".to_owned();
    assert_mismatch(expected(&base), &changed, ProviderIdentityMismatch::AdapterId);
    changed = session();
    changed.adapter.version.push('x');
    assert_mismatch(expected(&base), &changed, ProviderIdentityMismatch::AdapterVersion);
    changed = session();
    changed.adapter.kind = AdapterKind::Observer;
    assert_mismatch(expected(&base), &changed, ProviderIdentityMismatch::AdapterKind);
    let mut identity = expected(&base);
    identity.completion = ExpectedCompletion::Incomplete("provider reported INCOMPLETE");
    assert_mismatch(identity, &base, ProviderIdentityMismatch::CompletionStatus);
    changed = session();
    changed.completion.status = ExecutionStatus::Incomplete;
    changed.completion.message = Some("actual".to_owned());
    identity = expected(&changed);
    identity.completion = ExpectedCompletion::Incomplete("expected");
    assert_mismatch(identity, &changed, ProviderIdentityMismatch::TerminalReason);
    identity = expected(&base);
    identity.tool_name = "other";
    assert_mismatch(identity, &base, ProviderIdentityMismatch::ObservationToolName);
    identity = expected(&base);
    identity.tool_version = "other";
    assert_mismatch(identity, &base, ProviderIdentityMismatch::ObservationToolVersion);
    let mut execution_session = session();
    execution_session.events.push(ProtocolEvent::Execution(ExecutionEnvelope {
        request_id: REQUEST_ID.to_owned(),
        sequence: 1,
        execution: validated_provider_execution(input(ExecutionStatus::Complete, Some(0)), None).unwrap(),
    }));
    assert_mismatch(expected(&base), &execution_session, ProviderIdentityMismatch::ExecutionEvent);
}

#[test]
fn commands_map_modes_failures_and_verdicts() {
    assert_eq!(ReadOnlyCommandMode::Check.plan_mode(), ReadOnlyMode::Check);
    assert_eq!(ReadOnlyCommandMode::Ci.plan_mode(), ReadOnlyMode::Ci);
    assert!(matches!(after_execution::<u8>(Err("e".to_owned())), Err(RuntimeCommandError::Execution(m)) if m == "e"));
    assert!(matches!(after_projection::<u8>(Err("p".to_owned())), Err(RuntimeCommandError::Projection(m)) if m == "p"));
    assert!(matches!(after_report::<u8>(Err("r".to_owned())), Err(RuntimeCommandError::Report(m)) if m == "r"));
    assert!(matches!(after_execution(Ok(7u8)), Ok(7)));
    assert_eq!(evaluation_time(true, Some("now".to_owned())).as_deref(), Some("now"));
    assert_eq!(evaluation_time(false, Some("now".to_owned())), None);
    assert_eq!(verdict_exit_code(&Verdict::Pass), 0);
    assert_eq!(verdict_exit_code(&Verdict::PolicyFail), 1);
    assert_eq!(verdict_exit_code(&Verdict::Incomplete), 2);
    assert_eq!(verdict_exit_code(&Verdict::Unsupported), 2);
}
