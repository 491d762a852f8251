//! Plans, and what their runs come to.

use diagnostic_triage::config::provider::ProviderConfig;
use diagnostic_triage::config::runtime::{
    ClassificationConfig, EngineConfig, EngineVerdict, OutputConfig, PolicyConfig, RepositoryConfig, RuntimeConfig,
};
use diagnostic_triage::config::RuntimeLimits;
use diagnostic_triage::execution::ExecutionContractError;
use diagnostic_triage::identifier::{derive_id, suffix_of};
use diagnostic_triage::model::{
    AdapterKind, Applicability, Evidence, EvidenceSource, Execution, ExecutionStatus, FixCandidate, Observation,
    PhaseDuration, Severity, Tool,
};
use diagnostic_triage::orchestration::paths::{
    judge_workspace, program_form, resolve_provider_program, target_step, ProgramFault, ProgramForm, TargetProbe,
    TargetStep, WorkspaceFault,
};
use diagnostic_triage::orchestration::projection::{
    bounded_message, planned_execution, project_provider_states, synthesize_execution, ProviderExecutionError, ProviderRun,
    ProviderSessionState, ReadOnlyRuntimeProjection, RuntimeProjectionError, EMPTY_EXECUTION_MESSAGE,
};
use diagnostic_triage::orchestration::{
    build_read_only_plan, execution_identity, plan_identity, request_identity, IdentitySource, PlanScope,
    PlannedProvider, ProviderIdentity, ProviderToPlan, ReadOnlyMode, ReadOnlyPlan, ReadOnlyPlanError,
};
use diagnostic_triage::process::error::{IoFailure, IoKind};
use diagnostic_triage::process::limits::RequestLimits;
use diagnostic_triage::protocol::{
    AdapterManifest, CompletionCounts, CompletionEnvelope, EvidenceEnvelope, FixCandidateEnvelope, ObservationEnvelope,
    Operation, ProtocolEvent, RequestEnvelope, ValidatedSession,
};

const REVISION: &str = "a12b34c56d78e90f1234567890abcdef12345678";

fn strings(values: &[&str]) -> Vec<String> {
    values.iter().map(|value| (*value).to_owned()).collect()
}

fn provider(adapter_id: &str) -> ProviderConfig {
    ProviderConfig {
        adapter_id: adapter_id.to_owned(),
        program: "provider".to_owned(),
        argv: strings(&["--stdio"]),
        required: true,
        required_capabilities: strings(&["diagnostic.fix/v1", "diagnostic.check/v1"]),
        optional_capabilities: strings(&["diagnostic.metadata/v1"]),
    }
}

fn identity() -> ProviderIdentity {
    ProviderIdentity {
        adapter_version: "1".to_owned(),
        tool_name: "ruff".to_owned(),
        tool_version: "0.12".to_owned(),
    }
}

fn config(target: &str) -> RuntimeConfig {
    RuntimeConfig {
        engine: EngineConfig {
            version: "0.1.0".to_owned(),
            source_revision: REVISION.to_owned(),
        },
        repository: RepositoryConfig {
            workspace: ".".to_owned(),
            targets: strings(&["shared", target]),
        },
        providers: vec![provider("alpha"), provider("zeta")],
        limits: RuntimeLimits {
            timeout_ms: 1234,
            max_stdout_bytes: 321,
            max_stderr_bytes: 654,
            max_evidence_bytes: 777,
            max_events: 8,
        },
        classification: ClassificationConfig { rules: Vec::new() },
        policy: PolicyConfig {
            rules: Vec::new(),
            waivers: Vec::new(),
        },
        output: OutputConfig::default(),
    }
    .normalized()
}

fn verdict() -> EngineVerdict {
    EngineVerdict {
        max_classification_rules: 1,
        valid_taxonomies: Vec::new(),
        valid_policy: true,
    }
}

/// An identifier that says what it is derived from.
fn derived(source: &IdentitySource) -> String {
    format!("{}({})", source.domain, source.parts.join(";"))
}

fn plan(
    config: &RuntimeConfig,
    identity: &ProviderIdentity,
    digest: &str,
    mode: ReadOnlyMode,
) -> Result<ReadOnlyPlan, ReadOnlyPlanError> {
    let config = config.clone().normalized();
    let described = format!("{config:?}{identity:?}");
    let plan_id = derived(&plan_identity(mode, &described, digest));
    let providers = config
        .providers
        .iter()
        .map(|provider| ProviderToPlan {
            config: provider.clone(),
            identity: Some(identity.clone()),
            request_id: derived(&request_identity(&plan_id, &provider.adapter_id)),
            execution_id: derived(&execution_identity(&plan_id, &provider.adapter_id)),
            violation: None,
        })
        .collect();
    let scope = PlanScope {
        plan_id,
        workspace: config.repository.workspace.clone(),
        targets: config.repository.targets.clone(),
        limits: config.limits.to_request().unwrap(),
    };
    build_read_only_plan(scope, providers)
}

#[test]
fn plans_are_canonical_domain_separated_and_input_sensitive() {
    let runtime_config = config("src");
    let forward = plan(&runtime_config, &identity(), "repository", ReadOnlyMode::Check).unwrap();
    let repeated = plan(&runtime_config, &identity(), "repository", ReadOnlyMode::Check).unwrap();
    let mut reversed = runtime_config.clone();
    reversed.providers.reverse();
    reversed.repository.targets.reverse();
    for provider in &mut reversed.providers {
        provider.required_capabilities.reverse();
    }
    let reverse = plan(&reversed, &identity(), "repository", ReadOnlyMode::Check).unwrap();
    assert_eq!(forward, repeated);
    assert_eq!(forward, reverse);
    assert_eq!(forward.providers.len(), 2);
    let (first, second) = (&forward.providers[0], &forward.providers[1]);
    let (request, provider) = (&first.request, &first.config);
    assert_eq!(provider, &runtime_config.providers[0]);
    assert_eq!(request.workspace, runtime_config.repository.workspace);
    assert_eq!(request.targets, runtime_config.repository.targets);
    assert_eq!(request.limits, runtime_config.request_limits(&verdict()).unwrap());
    assert_eq!(request.operation, Operation::Check);
    assert_eq!(request.required_capabilities, provider.required_capabilities);
    assert_eq!(request.optional_capabilities, provider.optional_capabilities);
    assert_ne!(request.request_id, first.execution_id);
    assert_ne!(request.request_id, second.request.request_id);
    assert_ne!(first.execution_id, second.execution_id);
    assert_eq!(request, &repeated.providers[0].request);

    let ci = plan(&runtime_config, &identity(), "repository", ReadOnlyMode::Ci).unwrap();
    let changed_digest = plan(&runtime_config, &identity(), "other repository", ReadOnlyMode::Check).unwrap();
    let changed_target = plan(&config("tests"), &identity(), "repository", ReadOnlyMode::Check).unwrap();
    let mut changed_identity = identity();
    changed_identity.tool_version.push_str(".1");
    let changed_provider = plan(&runtime_config, &changed_identity, "repository", ReadOnlyMode::Check).unwrap();
    for changed in [&ci, &changed_digest, &changed_target, &changed_provider] {
        assert_ne!(forward.plan_id, changed.plan_id);
        assert_ne!(first.request.request_id, changed.providers[0].request.request_id);
        assert_ne!(first.execution_id, changed.providers[0].execution_id);
    }
    assert_eq!(ci.providers[0].request.operation, Operation::Check);

    let mut one = runtime_config.clone();
    one.providers.truncate(1);
    let one = plan(&one, &identity(), "repository", ReadOnlyMode::Check).unwrap();
    assert_eq!(one.providers.len(), 1);
    let mut no_providers = runtime_config;
    no_providers.providers.clear();
    let empty = plan(&no_providers, &identity(), "repository", ReadOnlyMode::Check).unwrap();
    assert!(empty.providers.is_empty());
}

fn to_plan(adapter_id: &str, request_id: &str, execution_id: &str) -> ProviderToPlan {
    ProviderToPlan {
        config: provider(adapter_id),
        identity: Some(identity()),
        request_id: request_id.to_owned(),
        execution_id: execution_id.to_owned(),
        violation: None,
    }
}

fn scope() -> PlanScope {
    PlanScope {
        plan_id: "plan".to_owned(),
        workspace: ".".to_owned(),
        targets: strings(&["src"]),
        limits: RequestLimits {
            timeout_ms: 1,
            max_stdout_bytes: 1,
            max_stderr_bytes: 1,
            max_events: 1,
            max_evidence_bytes: 1,
        },
    }
}

#[test]
fn plans_without_identity_or_with_collisions_are_refused() {
    let mut unidentified = to_plan("alpha", "r", "e");
    unidentified.identity = None;
    assert_eq!(
        build_read_only_plan(scope(), vec![unidentified]).unwrap_err(),
        ReadOnlyPlanError::MissingIdentity {
            adapter_id: "alpha".to_owned()
        }
    );
    let mut refused = to_plan("alpha", "r", "e");
    refused.violation = Some("bad request".to_owned());
    assert_eq!(
        build_read_only_plan(scope(), vec![refused]).unwrap_err(),
        ReadOnlyPlanError::Contract("bad request".to_owned())
    );
    for providers in [
        vec![to_plan("alpha", "plan", "e")],
        vec![to_plan("alpha", "x", "x")],
        vec![to_plan("alpha", "r", "e"), to_plan("zeta", "e", "f")],
    ] {
        assert_eq!(
            build_read_only_plan(scope(), providers).unwrap_err(),
            ReadOnlyPlanError::IdentityCollision
        );
    }
}

fn tool(rule_id: Option<&str>) -> Tool {
    Tool {
        name: "ruff".to_owned(),
        version: "0.12.4".to_owned(),
        rule_id: rule_id.map(str::to_owned),
    }
}

fn session(adapter_id: &str, request_id: &str) -> ValidatedSession {
    ValidatedSession {
        adapter: AdapterManifest {
            id: adapter_id.to_owned(),
            version: "0.1.0".to_owned(),
            kind: AdapterKind::Provider,
            capabilities: strings(&["diagnostic.check/v1"]),
            languages: strings(&["python"]),
        },
        request: RequestEnvelope {
            request_id: request_id.to_owned(),
            operation: Operation::Check,
            workspace: ".".to_owned(),
            targets: strings(&["src"]),
            required_capabilities: strings(&["diagnostic.check/v1"]),
            optional_capabilities: Vec::new(),
            limits: scope().limits,
        },
        events: vec![
            ProtocolEvent::Evidence(EvidenceEnvelope {
                request_id: request_id.to_owned(),
                sequence: 0,
                evidence: Evidence {
                    schema_version: "diagnostic-triage.evidence/v1".to_owned(),
                    evidence_id: "019f7e95-0000-7000-8000-000000000272".to_owned(),
                    execution_id: None,
                    source: EvidenceSource::Patch,
                    media_type: "text/x-diff".to_owned(),
                    retained_bytes: 2,
                    observed_bytes: 2,
                    limit_bytes: 2,
                    truncated: false,
                    sha256: "d".repeat(64),
                    relative_path: None,
                    content: Some("{}".to_owned()),
                },
            }),
            ProtocolEvent::Observation(ObservationEnvelope {
                request_id: request_id.to_owned(),
                sequence: 1,
                observation: Observation {
                    schema_version: "diagnostic-triage.observation/v1".to_owned(),
                    observation_id: "019f7e95-0000-7000-8000-000000000273".to_owned(),
                    tool: tool(Some("F401")),
                    language: "python".to_owned(),
                    severity: Severity::Warning,
                    origin: "NORMAL".to_owned(),
                    message: "unused import".to_owned(),
                    location: None,
                    symbol: None,
                    expected: None,
                    observed: None,
                    evidence_ids: strings(&["019f7e95-0000-7000-8000-000000000272"]),
                },
            }),
            ProtocolEvent::FixCandidate(FixCandidateEnvelope {
                request_id: request_id.to_owned(),
                sequence: 2,
                fix_candidate: FixCandidate {
                    schema_version: "diagnostic-triage.fix-candidate/v1".to_owned(),
                    fix_candidate_id: "019f7e95-0000-7000-8000-000000000274".to_owned(),
                    observation_ids: strings(&["019f7e95-0000-7000-8000-000000000273"]),
                    applicability: Applicability::Safe,
                    tool_native: true,
                    patch_evidence_id: "019f7e95-0000-7000-8000-000000000272".to_owned(),
                },
            }),
        ],
        completion: CompletionEnvelope {
            request_id: request_id.to_owned(),
            sequence: 3,
            status: ExecutionStatus::Complete,
            tool_exit_code: Some(1),
            tool_duration_ms: 184,
            counts: CompletionCounts {
                observations: 1,
                evidence: 1,
                fix_candidates: 1,
                executions: 0,
            },
            evidence_bytes: 2,
            message: None,
        },
    }
}

fn planned(session: &ValidatedSession, execution_id: &str, required: bool) -> PlannedProvider {
    let mut config = provider(&session.adapter.id);
    config.required = required;
    PlannedProvider {
        config,
        identity: ProviderIdentity {
            adapter_version: session.adapter.version.clone(),
            tool_name: "ruff".to_owned(),
            tool_version: "0.12.4".to_owned(),
        },
        request: session.request.clone(),
        execution_id: execution_id.to_owned(),
    }
}

fn project(planned: &PlannedProvider, state: &ProviderSessionState) -> Execution {
    synthesize_execution(planned, state, None).unwrap()
}

fn terminal(status: ExecutionStatus) -> ValidatedSession {
    let mut session = session("ruff", "019f7e95-0000-7000-8000-000000000001");
    session.completion.status = status;
    session.completion.tool_exit_code = None;
    session.completion.message = Some("terminal".to_owned());
    session
}

#[test]
fn synthesizes_execution_only_from_planned_identity_and_session_state() {
    let session = session("ruff", "019f7e95-0000-7000-8000-000000000001");
    let planned = planned(&session, "019f7e95-0000-7000-8000-000000000009", true);
    let complete = project(&planned, &ProviderSessionState::Complete(session.clone()));
    assert_eq!(complete.execution_id, planned.execution_id);
    assert_eq!(complete.adapter_id, planned.config.adapter_id);
    assert_eq!(complete.tool.name, planned.identity.tool_name);
    assert!(complete.required);
    assert_eq!(complete.status, ExecutionStatus::Complete);
    assert_eq!(complete.exit_code, Some(1));
    assert_eq!(complete.phases_ms.run, PhaseDuration::Milliseconds(184));

    let incomplete = project(
        &planned,
        &ProviderSessionState::Incomplete {
            reason: "terminal".to_owned(),
            validated_session: Some(terminal(ExecutionStatus::Incomplete)),
        },
    );
    assert_eq!(incomplete.status, ExecutionStatus::Incomplete);
    assert_eq!(incomplete.exit_code, None);
    assert_eq!(incomplete.phases_ms.run, PhaseDuration::Milliseconds(184));

    let unsupported = project(
        &planned,
        &ProviderSessionState::Unsupported {
            missing_required: Vec::new(),
            reason: "x".repeat(9_000),
            validated_session: None,
        },
    );
    assert_eq!(unsupported.message.unwrap().chars().count(), 8_192);
    assert_eq!(unsupported.phases_ms.run, PhaseDuration::Unavailable);

    assert_eq!(bounded_message(""), EMPTY_EXECUTION_MESSAGE);
    let mut overflow = session;
    overflow.completion.tool_duration_ms = u64::MAX;
    let state = ProviderSessionState::Complete(overflow);
    assert!(matches!(
        synthesize_execution(&planned, &state, None),
        Err(ProviderExecutionError::Duration)
    ));
}

fn project_states(
    plan_id: &str,
    states: &[(PlannedProvider, ProviderSessionState)],
) -> Result<ReadOnlyRuntimeProjection, RuntimeProjectionError> {
    let runs = states
        .iter()
        .map(|(planned, state)| ProviderRun {
            planned: planned.clone(),
            state: state.clone(),
            violation: None,
        })
        .collect();
    project_provider_states(plan_id.to_owned(), runs)
}

#[test]
fn aggregate_projection_is_canonical_complete_only_and_collision_safe() {
    let first_session = session("alpha", "019f7e95-0000-7000-8000-000000000281");
    let first = planned(&first_session, "019f7e95-0000-7000-8000-000000000282", true);
    let second_session = session("zeta", "019f7e95-0000-7000-8000-000000000283");
    let second = planned(&second_session, "019f7e95-0000-7000-8000-000000000284", false);
    let plan_id = "019f7e95-0000-7000-8000-000000000280";
    let complete = ProviderSessionState::Complete(first_session);
    let unsupported = ProviderSessionState::Unsupported {
        missing_required: Vec::new(),
        reason: "terminal".to_owned(),
        validated_session: None,
    };
    let mut states = vec![(first.clone(), complete.clone()), (second.clone(), unsupported)];
    let forward = project_states(plan_id, &states).unwrap();
    states.reverse();
    let reverse = project_states(plan_id, &states).unwrap();
    assert_eq!(forward, reverse);
    assert_eq!(forward.observations.len(), 1);
    assert_eq!(forward.evidence.len(), 1);
    assert_eq!(forward.fix_candidates.len(), 1);
    assert_eq!(forward.executions.len(), 2);
    assert!(forward.executions[0].required);
    assert!(!forward.executions[1].required);

    let collision = project_states(
        plan_id,
        &[
            (first.clone(), complete.clone()),
            (second, ProviderSessionState::Complete(second_session)),
        ],
    );
    assert!(matches!(collision, Err(RuntimeProjectionError::ObjectIdCollision(_))));

    let reserved = project_states(
        "019f7e95-0000-7000-8000-000000000272",
        &[(first.clone(), complete.clone())],
    );
    assert!(matches!(reserved, Err(RuntimeProjectionError::ObjectIdCollision(_))));

    let mut mismatch = first;
    mismatch.identity.tool_version = "wrong".to_owned();
    let error = project_states(plan_id, &[(mismatch, complete)]);
    assert!(matches!(error, Err(RuntimeProjectionError::Provider(..))));
}

#[test]
fn a_refused_record_comes_to_no_report() {
    let session = session("ruff", "019f7e95-0000-7000-8000-000000000001");
    let planned = planned(&session, "019f7e95-0000-7000-8000-000000000009", true);
    let state = ProviderSessionState::Complete(session);
    let record = planned_execution(&planned, &state).unwrap();
    assert_eq!(project(&planned, &state), record);
    let violation = Some("execution.message: too long".to_owned());
    let refused = ProviderExecutionError::Contract(ExecutionContractError::Rejected(
        "execution.message: too long".to_owned(),
    ));
    assert_eq!(synthesize_execution(&planned, &state, violation.clone()).unwrap_err(), refused);
    let mut other = planned.clone();
    other.identity.tool_version = "wrong".to_owned();
    assert!(matches!(
        synthesize_execution(&other, &state, violation.clone()),
        Err(ProviderExecutionError::Mismatch(..))
    ));
    let runs = vec![ProviderRun { planned, state, violation }];
    assert_eq!(
        project_provider_states("019f7e95-0000-7000-8000-000000000280".to_owned(), runs).unwrap_err(),
        RuntimeProjectionError::Provider(refused)
    );
}

fn not_found() -> IoFailure {
    IoFailure {
        kind: IoKind::NotFound,
        message: "no such file".to_owned(),
    }
}

#[test]
fn resolves_only_explicit_relative_programs_against_repository_root() {
    assert_eq!(
        resolve_provider_program("/repo", "./bin/provider", Ok("/repo/bin/provider".to_owned())).unwrap(),
        "/repo/bin/provider"
    );
    assert_eq!(
        resolve_provider_program("/repo", "provider", Err(not_found())).unwrap(),
        "provider"
    );
    assert_eq!(
        resolve_provider_program("/repo", "/usr/bin/provider", Err(not_found())).unwrap(),
        "/usr/bin/provider"
    );
    assert_eq!(program_form(".."), ProgramForm::Unsupported);
    assert_eq!(
        resolve_provider_program("/repo", "..", Ok("/repo".to_owned())),
        Err(ProgramFault::Unsupported)
    );
    assert_eq!(
        resolve_provider_program("/repo", "./gone", Err(not_found())),
        Err(ProgramFault::Io(not_found()))
    );
}

#[test]
fn preflights_every_provider_program_before_first_launch() {
    let programs = [
        ("/repo/missing-first-provider", Err(not_found())),
        ("../outside-provider", Ok("/outside-provider".to_owned())),
    ];
    let preflight: Result<Vec<String>, ProgramFault> = programs
        .into_iter()
        .map(|(configured, resolved)| resolve_provider_program("/repo", configured, resolved))
        .collect();
    assert!(matches!(preflight, Err(ProgramFault::Escape(_))));
}

#[test]
fn rejects_provider_program_symlink_escape_before_launch() {
    assert_eq!(
        resolve_provider_program("/repository", "./provider", Ok("/outside-provider".to_owned())),
        Err(ProgramFault::Escape("/outside-provider".to_owned()))
    );
    assert_eq!(
        resolve_provider_program("/repository", "./provider", Ok("/repository-2/provider".to_owned())),
        Err(ProgramFault::Escape("/repository-2/provider".to_owned()))
    );
}

#[test]
fn rejects_workspace_symlink_escape_before_provider_execution() {
    assert_eq!(judge_workspace("/repo", "/outside", true), Err(WorkspaceFault::Escape));
    assert_eq!(judge_workspace("/repo", "/repo/file", false), Err(WorkspaceFault::NotDirectory));
    assert_eq!(judge_workspace("/repo", "/repo/workspace", true), Ok(()));
}

#[test]
fn rejects_target_symlink_escape_before_provider_launch() {
    let workspace = "/repo/workspace";
    assert_eq!(
        target_step(TargetProbe::Missing { has_parent: true }, workspace),
        TargetStep::Climb
    );
    assert_eq!(
        target_step(TargetProbe::Found(Ok("/repo/workspace".to_owned())), workspace),
        TargetStep::Inside
    );
    assert_eq!(
        target_step(TargetProbe::Found(Ok("/outside".to_owned())), workspace),
        TargetStep::Escape
    );
    assert_eq!(
        target_step(TargetProbe::Missing { has_parent: false }, workspace),
        TargetStep::Escape
    );
    assert_eq!(
        target_step(TargetProbe::Failed(not_found()), workspace),
        TargetStep::Failed(not_found())
    );
}

#[test]
fn identifiers_are_derived_from_their_suffix() {
    let id = "019f7e95-0000-7000-8000-0000000000ff";
    assert_eq!(suffix_of(id), Some(0xff));
    assert_eq!(suffix_of("short"), None);
    let first = derive_id(id, 1).unwrap();
    let second = derive_id(id, 2).unwrap();
    assert_ne!(first, second);
    assert_eq!(first.len(), 36);
    assert_eq!(first[..24], id[..24]);
}

#[test]
fn a_planned_provider_is_run_in_the_repository() {
    let session = session("ruff", "019f7e95-0000-7000-8000-000000000001");
    let mut planned = planned(&session, "019f7e95-0000-7000-8000-000000000009", true);
    planned.config.argv = strings(&["--first", "--second"]);
    let spec = planned.invocation(b"/repo/bin/provider", b"/repo", b"{}\n".to_vec());
    assert_eq!(spec.program_bytes(), b"/repo/bin/provider");
    assert_eq!(spec.arguments(), &["--first", "--second"]);
    assert_eq!(spec.directory(), Some(&b"/repo"[..]));
    assert_eq!(spec.input(), b"{}\n");
}
