//! Runtime configurations.

use diagnostic_triage::config::provider::ProviderConfig;
use diagnostic_triage::config::runtime::{
    waived_action_wire, ClassificationConfig, ClassificationRuleConfig, EngineConfig, EngineVerdict, NativeRuleId,
    OutputConfig, OutputFormat, PolicyConfig, PolicyRule, PolicyWaiver, RepositoryConfig, RuntimeConfig, WaivedAction,
};
use diagnostic_triage::config::{
    numbered_text, ConfigError, RuntimeLimits, DEFAULT_MAX_EVENTS, DEFAULT_MAX_EVIDENCE_BYTES, DEFAULT_MAX_STDERR_BYTES,
    DEFAULT_MAX_STDOUT_BYTES, DEFAULT_TIMEOUT_MS,
};
use diagnostic_triage::time::Duration;

const REVISION: &str = "a12b34c56d78e90f1234567890abcdef12345678";

fn strings(values: &[&str]) -> Vec<String> {
    values.iter().map(|value| (*value).to_owned()).collect()
}

fn verdict() -> EngineVerdict {
    EngineVerdict {
        max_classification_rules: 1024,
        valid_taxonomies: vec![true],
        valid_policy: true,
    }
}

fn minimal_config() -> RuntimeConfig {
    RuntimeConfig {
        engine: EngineConfig {
            version: "0.1.0".to_owned(),
            source_revision: REVISION.to_owned(),
        },
        repository: RepositoryConfig {
            workspace: ".".to_owned(),
            targets: strings(&["src", "tests"]),
        },
        providers: vec![ProviderConfig {
            adapter_id: "rust".to_owned(),
            program: "cargo".to_owned(),
            argv: strings(&["check"]),
            required: true,
            required_capabilities: strings(&["diagnostic.check/v1"]),
            optional_capabilities: Vec::new(),
        }],
        limits: RuntimeLimits::default(),
        classification: ClassificationConfig { rules: Vec::new() },
        policy: PolicyConfig {
            rules: Vec::new(),
            waivers: Vec::new(),
        },
        output: OutputConfig::default(),
    }
}

fn accept(config: RuntimeConfig) -> RuntimeConfig {
    config.normalize_and_validate(&verdict()).expect("valid config")
}

fn rejected_field(config: RuntimeConfig) -> String {
    match config.normalize_and_validate(&verdict()) {
        Err(ConfigError::Invalid { field, .. }) => field,
        other => panic!("unexpected result: {other:?}"),
    }
}

#[test]
fn parses_defaults_and_direct_command_arguments() {
    let config = accept(minimal_config());

    assert_eq!(config.limits.timeout_ms, DEFAULT_TIMEOUT_MS);
    assert_eq!(config.limits.max_stdout_bytes, DEFAULT_MAX_STDOUT_BYTES);
    assert_eq!(config.limits.max_stderr_bytes, DEFAULT_MAX_STDERR_BYTES);
    assert_eq!(config.limits.max_evidence_bytes, DEFAULT_MAX_EVIDENCE_BYTES);
    assert_eq!(config.limits.max_events, DEFAULT_MAX_EVENTS);
    assert_eq!(config.providers[0].program, "cargo");
    assert_eq!(config.providers[0].argv, ["check"]);
    assert!(config.providers[0].required);
    assert_eq!(config.output.format, OutputFormat::Json);
}

#[test]
fn rejects_unknown_fields_and_unsafe_paths() {
    let mut config = minimal_config();
    config.providers[0].program = "".to_owned();
    assert_eq!(rejected_field(config), "providers.program");

    let mut config = minimal_config();
    config.limits.timeout_ms = 0;
    assert_eq!(rejected_field(config), "limits.timeout_ms");

    let mut config = minimal_config();
    config.providers[0].program = "bad\0program".to_owned();
    assert_eq!(rejected_field(config), "providers.program");

    let mut config = minimal_config();
    config.output.path = Some(".".to_owned());
    assert_eq!(rejected_field(config), "output.path");
}

#[test]
fn validates_provider_identity_capabilities_and_bounds() {
    let mut optional_only = minimal_config();
    optional_only.providers[0].required = false;

    let mut repeated_capability = minimal_config();
    repeated_capability.providers[0].required_capabilities = strings(&["diagnostic.check/v1", "diagnostic.check/v1"]);

    let mut overlapping_capability = minimal_config();
    overlapping_capability.providers[0].optional_capabilities = strings(&["diagnostic.check/v1"]);

    let mut repeated_adapter = minimal_config();
    let mut second = repeated_adapter.providers[0].clone();
    second.required = false;
    repeated_adapter.providers.push(second);

    for invalid in [
        optional_only,
        repeated_capability,
        overlapping_capability,
        repeated_adapter,
    ] {
        assert!(invalid.clone().normalize_and_validate(&verdict()).is_err(), "{invalid:?}");
    }
}

#[test]
fn permits_zero_optional_capture_and_event_limits() {
    let mut config = minimal_config();
    config.limits.max_stdout_bytes = 0;
    config.limits.max_stderr_bytes = 0;
    config.limits.max_evidence_bytes = 0;
    config.limits.max_events = 0;
    let config = accept(config);

    assert_eq!(config.limits.max_stdout_bytes, 0);
    assert_eq!(config.limits.max_stderr_bytes, 0);
    assert_eq!(config.limits.max_evidence_bytes, 0);
    assert_eq!(config.limits.max_events, 0);
}

#[test]
fn converts_custom_limits_to_protocol_and_process_types() {
    let mut config = minimal_config();
    config.limits.timeout_ms = 1234;
    config.limits.max_stdout_bytes = 321;
    config.limits.max_stderr_bytes = 654;
    config.limits.max_evidence_bytes = 777;
    config.limits.max_events = 888;
    let config = accept(config);

    let request_limits = config.request_limits(&verdict()).expect("request limits");
    assert_eq!(request_limits.timeout_ms, 1234);
    assert_eq!(request_limits.max_stdout_bytes, 321);
    assert_eq!(request_limits.max_stderr_bytes, 654);
    assert_eq!(request_limits.max_evidence_bytes, 777);
    assert_eq!(request_limits.max_events, 888);

    let process_limits = config.process_limits(&verdict()).expect("process limits");
    assert_eq!(process_limits.timeout, Duration::from_millis(1234));
    assert_eq!(process_limits.max_stdout_bytes, 321);
    assert_eq!(process_limits.max_stderr_bytes, 654);
}

#[test]
fn configured_direct_command_keeps_its_exact_argv() {
    let mut config = minimal_config();
    config.providers[0].program = "printf".to_owned();
    config.providers[0].argv = strings(&["%s\\n", "first argument", "second argument"]);
    let spec = accept(config).process_spec("rust", &verdict()).expect("process spec");
    assert_eq!(spec.program_bytes(), b"printf");
    assert_eq!(spec.arguments(), &strings(&["%s\\n", "first argument", "second argument"]));
    assert!(spec.directory().is_none());
    assert!(spec.input().is_empty());
}

#[test]
fn an_unknown_adapter_has_no_process() {
    match minimal_config().process_spec("python", &verdict()) {
        Err(ConfigError::Invalid { field, reason }) => {
            assert_eq!(field, "adapter_id");
            assert_eq!(reason, "unknown configured adapter python");
        }
        other => panic!("unexpected result: {:?}", other.is_ok()),
    }
}

#[test]
fn normalizes_sets_without_reordering_argv() {
    let mut input = minimal_config();
    input.repository.targets = strings(&["tests", "src"]);
    input.providers[0].required_capabilities = strings(&["diagnostic.fix/v1", "diagnostic.check/v1"]);
    input.providers.push(ProviderConfig {
        adapter_id: "python".to_owned(),
        program: "python-provider".to_owned(),
        argv: strings(&["--first", "--second"]),
        required: false,
        required_capabilities: Vec::new(),
        optional_capabilities: Vec::new(),
    });

    let config = accept(input);
    assert_eq!(config.repository.targets, ["src", "tests"]);
    assert_eq!(
        config
            .providers
            .iter()
            .map(|provider| provider.adapter_id.as_str())
            .collect::<Vec<_>>(),
        ["python", "rust"]
    );
    assert_eq!(config.providers[0].argv, ["--first", "--second"]);
    assert_eq!(
        config.providers[1].required_capabilities,
        ["diagnostic.check/v1", "diagnostic.fix/v1"]
    );
}

fn policy() -> PolicyConfig {
    PolicyConfig {
        rules: vec![
            PolicyRule {
                rule_id: "z-rule".to_owned(),
                source: 0,
            },
            PolicyRule {
                rule_id: "a-rule".to_owned(),
                source: 1,
            },
        ],
        waivers: vec![
            PolicyWaiver {
                fingerprint: format!("dtfp1:{}", "a".repeat(64)),
                waived_action: WaivedAction::Block,
                reason: "legacy release".to_owned(),
                owner: "release-team".to_owned(),
                expires_at: "2030-01-01T00:00:00Z".to_owned(),
            },
            PolicyWaiver {
                fingerprint: format!("dtfp1:{}", "b".repeat(64)),
                waived_action: WaivedAction::Warn,
                reason: "known migration".to_owned(),
                owner: "platform-team".to_owned(),
                expires_at: "2031-01-01T00:00:00Z".to_owned(),
            },
        ],
    }
}

#[test]
fn policy_digest_is_independent_of_wire_rule_order() {
    let mut forward = minimal_config();
    forward.policy = policy();
    let mut reverse = minimal_config();
    reverse.policy = policy();
    reverse.policy.rules.reverse();
    reverse.policy.waivers.reverse();
    let forward = accept(forward);
    let reverse = accept(reverse);

    assert_eq!(forward, reverse);
    assert_eq!(forward.policy, reverse.policy);
    assert_eq!(forward.policy.rules[0].rule_id, "a-rule");
    assert_eq!(
        forward.policy_snapshot(&verdict()).unwrap(),
        reverse.policy_snapshot(&verdict()).unwrap()
    );
}

fn rule() -> ClassificationRuleConfig {
    ClassificationRuleConfig {
        id: "cargo.invalid".to_owned(),
        tool_name: "cargo".to_owned(),
        tool_version: None,
        native_rule_id: NativeRuleId::Exact("invalid".to_owned()),
        source: 0,
    }
}

#[test]
fn parses_classification_taxonomy_and_output() {
    let mut config = minimal_config();
    config.classification.rules.push(rule());
    config.output = OutputConfig {
        format: OutputFormat::Tsv,
        path: Some("artifacts/report.tsv".to_owned()),
    };
    let config = accept(config);

    let rules = config.clone().classification_rules(&verdict()).expect("engine rules");
    assert_eq!(rules.len(), 1);
    assert_eq!(config.output.format, OutputFormat::Tsv);
}

#[test]
fn what_the_engine_refuses_is_refused() {
    let mut config = minimal_config();
    config.classification.rules.push(rule());
    let mut refusal = verdict();
    refusal.valid_taxonomies = vec![false];
    assert!(matches!(
        config.clone().normalize_and_validate(&refusal),
        Err(ConfigError::Taxonomy)
    ));
    let mut refusal = verdict();
    refusal.valid_policy = false;
    assert!(matches!(
        config.clone().normalize_and_validate(&refusal),
        Err(ConfigError::Policy)
    ));
    let mut refusal = verdict();
    refusal.max_classification_rules = 0;
    match config.clone().normalize_and_validate(&refusal) {
        Err(ConfigError::Invalid { field, reason }) => {
            assert_eq!(field, "classification.rules");
            assert_eq!(reason, "exceeds the Engine classification rule limit");
        }
        other => panic!("unexpected result: {other:?}"),
    }
    config.classification.rules.push(rule());
    let mut both = verdict();
    both.valid_taxonomies = vec![true, true];
    match config.normalize_and_validate(&both) {
        Err(ConfigError::InvalidClassificationRule { rule_id, reason }) => {
            assert_eq!(rule_id, "cargo.invalid");
            assert_eq!(reason, "rule ID is duplicated");
        }
        other => panic!("unexpected result: {other:?}"),
    }
}

#[test]
fn limits_name_their_ceilings() {
    let mut config = minimal_config();
    config.limits.timeout_ms = DEFAULT_TIMEOUT_MS + 1;
    match config.validate(&verdict()) {
        Err(ConfigError::Invalid { field, reason }) => {
            assert_eq!(field, "limits.timeout_ms");
            assert_eq!(reason, "must be between 1 and 600000");
        }
        other => panic!("unexpected result: {other:?}"),
    }
    let mut config = minimal_config();
    config.limits.max_events = DEFAULT_MAX_EVENTS + 1;
    match config.validate(&verdict()) {
        Err(ConfigError::Invalid { field, reason }) => {
            assert_eq!(field, "limits.max_events");
            assert_eq!(reason, "must not exceed 10000");
        }
        other => panic!("unexpected result: {other:?}"),
    }
    assert_eq!(numbered_text("<", 90, ">"), "<90>");
}

#[test]
fn targets_and_versions_are_checked() {
    let mut config = minimal_config();
    config.repository.targets.clear();
    assert_eq!(rejected_field(config), "repository.targets");
    let mut config = minimal_config();
    config.repository.targets = strings(&["src", "src"]);
    assert_eq!(rejected_field(config), "repository.targets");
    let mut config = minimal_config();
    config.engine.version = "0.1.0  beta".to_owned();
    assert_eq!(rejected_field(config), "engine.version");
    let mut config = minimal_config();
    config.engine.version = "0.1.0 beta".to_owned();
    accept(config);
    let mut config = minimal_config();
    config.providers.clear();
    assert_eq!(rejected_field(config), "providers");
}

#[test]
fn waived_actions_have_wire_names() {
    assert_eq!(waived_action_wire(&WaivedAction::Warn), "WARN");
    assert_eq!(waived_action_wire(&WaivedAction::Block), "BLOCK");
}

#[test]
fn normalizing_twice_changes_nothing() {
    let mut input = minimal_config();
    input.repository.targets = strings(&["tests", "src"]);
    input.providers[0].required_capabilities = strings(&["diagnostic.fix/v1", "diagnostic.check/v1"]);
    let mut python = input.providers[0].clone();
    python.adapter_id = "python".to_owned();
    input.providers.push(python);
    let mut second = rule();
    second.id = "a.first".to_owned();
    second.source = 1;
    input.classification.rules = vec![rule(), second];
    input.policy = policy();
    let mut verdict = verdict();
    verdict.valid_taxonomies = vec![true, true];

    let once = input.clone().normalize_and_validate(&verdict).unwrap();
    assert_eq!(once.classification.rules[0].id, "a.first");
    assert_eq!(once.clone().normalize_and_validate(&verdict).unwrap(), once);

    let mut shuffled = input.clone();
    shuffled.repository.targets.reverse();
    shuffled.providers.reverse();
    shuffled.providers[0].required_capabilities.reverse();
    shuffled.classification.rules.reverse();
    shuffled.policy.rules.reverse();
    assert_eq!(shuffled.normalize_and_validate(&verdict).unwrap(), once);

    verdict.valid_taxonomies = vec![true, false];
    assert!(matches!(
        once.normalize_and_validate(&verdict),
        Err(ConfigError::Taxonomy)
    ));
}
