//! The Rust provider, run against a scripted Cargo.

use diagnostic_triage::model::{
    EvidenceSource, ExecutionStatus, Location, Observation, Position, Severity, Tool, LIFECYCLE,
};
use diagnostic_triage::process::capture::{BoundedOutput, IncompleteReason, ProcessOutcome, ProcessState};
use diagnostic_triage::process::limits::{ProcessLimits, RequestLimits};
use diagnostic_triage::protocol::{
    named_request_id, recover_request_id, Decoded, ObservationEnvelope, Operation, ProtocolEvent, RequestEnvelope,
    CHECK_CAPABILITY, FALLBACK_REQUEST_ID, MAX_REQUEST_BYTES,
};
use diagnostic_triage::rust::admission::{
    accept_request, after_attempt, finalize_verification_target, judge_temporary_root, target_name, AfterAttempt, Attempt,
    MAX_TARGET_ATTEMPTS,
};
use diagnostic_triage::rust::cargo_json::{
    cargo_message, claimed_lines, decode_messages, parse_cargo_jsonl, parse_cargo_lines, validate_diagnostic, CargoJsonError, CargoMessage,
    ParsedLine, RustcChild, RustcCode, RustcDiagnostic,
    RustcSpan, MAX_SPANS,
};
use diagnostic_triage::rust::error::ProviderError;
use diagnostic_triage::rust::ledger::Run;
use diagnostic_triage::rust::observe::DiagnosticFacts;
use diagnostic_triage::rust::place::{
    location, normalize_path, scoped_location, to_u32, DiagnosticScope, FileFacts, PathFacts, SiblingFacts, SpanFacts,
};
use diagnostic_triage::rust::request::{decode_request, manifest, request_line, unsupported_request};
use diagnostic_triage::rust::response::{
    bounded_events, complete_or_event_limit, refuse, settle, terminal_for_id, validate_response, ProviderResponse,
    ResponseFacts, EVENT_LIMIT,
};
use diagnostic_triage::rust::scope::{
    cargo_argv, judge_workspace, path_is_in_scope, scope_root, select_cargo_scope, CargoScope, TargetFacts,
    WorkspaceFacts,
};
use diagnostic_triage::rust::session::{
    begin, remaining_limits, Launch, LaunchFault, ProcessUsage, Step, BUDGET_EXHAUSTED, CARGO_NOT_FOUND,
};
use diagnostic_triage::rust::target::{
    diagnostic_identity, label_identity, redact_verification_target, verification_target_mentioned,
    verification_target_path,
};
use diagnostic_triage::rust::words::{
    diagnostic_message, parse_version, severity, truncate_chars, MAX_MESSAGE_CHARS,
};
use diagnostic_triage::time::Duration;
use std::collections::hash_map::DefaultHasher;
use std::hash::{Hash, Hasher};

const MEMBER_SCOPE: &str = "crates/diagnostic-triage-provider-rust";
const ROOT: &str = "/repo";
const REQUEST_ID: &str = "019f7e95-0000-7000-8000-000000000066";
const TARGET: &str = "/tmp/diagnostic-triage-cargo-7-0";

fn request() -> RequestEnvelope {
    RequestEnvelope {
        request_id: REQUEST_ID.to_owned(),
        operation: Operation::Check,
        workspace: ".".to_owned(),
        targets: vec![".".to_owned()],
        required_capabilities: vec![CHECK_CAPABILITY.to_owned()],
        optional_capabilities: Vec::new(),
        limits: RequestLimits {
            timeout_ms: 60_000,
            max_stdout_bytes: 1024 * 1024,
            max_stderr_bytes: 1024 * 1024,
            max_events: 100,
            max_evidence_bytes: 64 * 1024,
        },
    }
}

fn scoped_request(workspace: &str, targets: &[&str]) -> RequestEnvelope {
    let mut request = request();
    request.workspace = workspace.to_owned();
    request.targets = targets.iter().map(|target| (*target).to_owned()).collect();
    request
}

fn member_facts() -> TargetFacts {
    TargetFacts {
        canonical: Some(format!("{ROOT}/{MEMBER_SCOPE}")),
        is_directory: true,
        has_manifest: true,
        manifest: Some(format!("{ROOT}/{MEMBER_SCOPE}/Cargo.toml")),
        accepted: true,
    }
}

fn root_scope() -> DiagnosticScope {
    DiagnosticScope {
        cargo: CargoScope::Workspace,
        repository_root: ROOT.to_owned(),
        workspace_root: ROOT.to_owned(),
        verification_target: None,
    }
}

fn digest(bytes: &[u8]) -> String {
    let mut hasher = DefaultHasher::new();
    bytes.hash(&mut hasher);
    format!("{:064x}", hasher.finish())
}

/// What a system that holds exactly `files` knows of a path.
fn path_facts(raw: &str, scope: &DiagnosticScope, files: &[&str]) -> (PathFacts, SiblingFacts) {
    let exists = |path: &str| files.iter().any(|file| *file == path);
    let root = scope_root(&scope.cargo, &scope.repository_root);
    let accepted = !raw.starts_with('/') && !raw.split('/').any(|step| step == "..");
    let in_workspace = exists(&format!("{}/{raw}", scope.workspace_root));
    let placed = if in_workspace && scope.workspace_root != scope.repository_root {
        format!("{}/{raw}", scope.workspace_root)
    } else {
        format!("{}/{raw}", scope.repository_root)
    };
    let at = |path: &str| {
        if exists(path) {
            FileFacts::At(path.to_owned())
        } else {
            FileFacts::Missing
        }
    };
    (
        PathFacts {
            scope_root: Ok(root.clone()),
            canonical: exists(raw).then_some(raw.to_owned()),
            relative_accepted: accepted,
            in_workspace,
            candidate: at(&placed),
            accepted: true,
        },
        SiblingFacts {
            relative_accepted: accepted,
            candidate: at(&if raw.starts_with('/') {
                raw.to_owned()
            } else {
                format!("{}/{raw}", scope.repository_root)
            }),
            scope_root: Ok(root),
        },
    )
}

fn span_facts(raw: &str, scope: &DiagnosticScope, files: &[&str]) -> SpanFacts {
    let (path, sibling) = path_facts(raw, scope, files);
    SpanFacts {
        path,
        violation: None,
        sibling,
    }
}

fn diagnostic_facts(diagnostic: &RustcDiagnostic, scope: &DiagnosticScope) -> DiagnosticFacts {
    let raw = diagnostic
        .spans
        .iter()
        .find(|span| span.is_primary)
        .map_or("", |span| span.file_name.as_str());
    let root = scope.verification_target.clone().unwrap_or_default();
    let description = diagnostic_identity(&format!("{diagnostic:?}"), &root);
    DiagnosticFacts {
        digest: digest(description.as_bytes()),
        span: span_facts(raw, scope, &["/repo/src/lib.rs"]),
    }
}

fn text(value: &serde_json::Value) -> String {
    value.as_str().unwrap_or_default().to_owned()
}

fn diagnostic(value: &serde_json::Value) -> RustcDiagnostic {
    let list = |value: &serde_json::Value| value.as_array().cloned().unwrap_or_default();
    RustcDiagnostic {
        message: text(&value["message"]),
        code: value["code"]["code"].as_str().map(|code| RustcCode { code: code.to_owned() }),
        level: text(&value["level"]),
        spans: list(&value["spans"])
            .iter()
            .map(|span| RustcSpan {
                file_name: text(&span["file_name"]),
                line_start: span["line_start"].as_u64().unwrap(),
                line_end: span["line_end"].as_u64().unwrap(),
                column_start: span["column_start"].as_u64().unwrap(),
                column_end: span["column_end"].as_u64().unwrap(),
                is_primary: span["is_primary"].as_bool().unwrap(),
            })
            .collect(),
        children: list(&value["children"])
            .iter()
            .map(|child| RustcChild {
                message: text(&child["message"]),
                level: text(&child["level"]),
            })
            .collect(),
        rendered: value["rendered"].as_str().map(str::to_owned),
    }
}

fn parsed(line: &[u8]) -> ParsedLine {
    match serde_json::from_slice::<serde_json::Value>(line) {
        Err(_) => ParsedLine {
            compiler: Err("no JSON".to_owned()),
            finished: Err("no JSON".to_owned()),
        },
        Ok(value) => ParsedLine {
            compiler: if value["message"].is_object() {
                Ok(diagnostic(&value["message"]))
            } else {
                Err("missing field `message`".to_owned())
            },
            finished: value["success"].as_bool().ok_or("missing field `success`".to_owned()),
        },
    }
}

fn decode(input: &[u8]) -> Vec<CargoMessage> {
    decode_messages(input, claimed_lines(input).iter().map(|line| parsed(line)).collect())
}

#[test]
fn lines_that_are_not_objects_do_not_count() {
    let finished = "{\"reason\":\"build-finished\",\"success\":true}\n";
    let plain = format!("{WARNING}\n{finished}");
    let report = |input: &str| {
        let lines = claimed_lines(input.as_bytes()).iter().map(|line| parsed(line)).collect();
        parse_cargo_lines(input.as_bytes(), lines)
    };
    let expected = report(&plain).unwrap();
    assert_eq!(expected.diagnostics.len(), 1);
    for noise in ["noise\n", "\n\r\n  {\n", "[1]\n\"x\"\n"] {
        assert_eq!(report(&format!("{noise}{plain}")).unwrap(), expected);
        assert_eq!(report(&format!("{WARNING}\n{noise}{finished}")).unwrap(), expected);
        assert_eq!(report(&format!("{plain}{noise}")).unwrap(), expected);
    }
    assert!(matches!(report("{\n"), Err(CargoJsonError::Malformed(_))));
    assert_eq!(parse_cargo_lines(plain.as_bytes(), Vec::new()).unwrap_err().message(),
        "Cargo JSON is malformed: message was not decoded");
}

#[test]
fn the_reason_of_a_line_decides_what_it_is() {
    let message = |line: &[u8]| cargo_message(line, parsed(line));
    assert!(matches!(
        message(b"{"),
        CargoMessage::Malformed(text) if text == "EOF while parsing an object at line 1 column 1"
    ));
    assert!(matches!(message(b"{\"success\":true}"), CargoMessage::NoReason));
    assert!(matches!(message(b"{\"reason\":1,\"success\":true}"), CargoMessage::NoReason));
    assert!(matches!(
        message(b"{\"reason\":\"build-finished\",\"success\":true}"),
        CargoMessage::Finished(true)
    ));
    assert!(matches!(
        message(b"{\"reason\":\"build-finished\"}"),
        CargoMessage::Malformed(text) if text == "missing field `success`"
    ));
    assert!(matches!(
        message(b"{\"reason\":\"compiler-message\",\"success\":true}"),
        CargoMessage::Malformed(text) if text == "missing field `message`"
    ));
    assert!(matches!(
        message(b"{\"reason\":\"compiler-artifact\",\"success\":true}"),
        CargoMessage::Other
    ));
    let line = b"{\"reason\":\"compiler-message\",\"message\":{\"message\":\"m\",\"level\":\"error\"}}";
    assert!(matches!(message(line), CargoMessage::Compiler(d) if d.message == "m" && d.level == "error"));
    assert_eq!(decode_messages(b"noise\n{}\n{}\n", vec![parsed(b"{}")]).len(), 1);
}

/// What Cargo says when it is run, and how it exits.
struct Cargo {
    version: &'static str,
    check: (String, u8),
    clippy_version: (String, u8),
    clippy: (String, u8),
    launched: Vec<Vec<String>>,
}

impl Cargo {
    fn new(check: &str, check_exit: u8, clippy: &str, clippy_exit: u8) -> Cargo {
        Cargo {
            version: "cargo 1.93.1 (fixture)\n",
            check: (check.to_owned(), check_exit),
            clippy_version: ("clippy 0.1.93 (fixture)\n".to_owned(), 0),
            clippy: (clippy.to_owned(), clippy_exit),
            launched: Vec::new(),
        }
    }

    fn run(&mut self, launch: &Launch, scope: &DiagnosticScope) -> Run {
        assert_eq!(launch.directory, scope.workspace_root);
        self.launched.push(launch.argv.clone());
        let argv: Vec<&str> = launch.argv.iter().map(String::as_str).collect();
        let (said, code) = match (argv[0], argv[1..].first()) {
            ("--version", _) => (self.version.to_owned(), 0),
            ("check", _) => self.check.clone(),
            ("clippy", Some(&"--version")) => self.clippy_version.clone(),
            ("clippy", _) => self.clippy.clone(),
            _ => unreachable!("no other command is run"),
        };
        run_of(said.as_bytes(), code, launch.limits)
    }
}

fn run_of(said: &[u8], code: u8, limits: ProcessLimits) -> Run {
    let kept = said[..said.len().min(limits.max_stdout_bytes)].to_vec();
    let truncated = kept.len() < said.len();
    Run {
        stdout_digest: digest(&kept),
        stderr_digest: digest(b""),
        outcome: ProcessOutcome {
            state: if truncated {
                ProcessState::Incomplete(IncompleteReason::StdoutLimitExceeded)
            } else {
                ProcessState::Complete
            },
            exit_code: (!truncated).then_some(code),
            stdout: BoundedOutput {
                observed_bytes: said.len() as u64,
                truncated,
                bytes: kept,
            },
            stderr: BoundedOutput {
                bytes: Vec::new(),
                observed_bytes: 0,
                truncated: false,
            },
            duration: Duration::from_millis(1),
            cleanup_duration: Duration::zero(),
        },
    }
}

fn known(run: &Run, scope: &DiagnosticScope) -> (Vec<CargoMessage>, Vec<DiagnosticFacts>) {
    let input = &run.outcome.stdout.bytes;
    let facts = match parse_cargo_jsonl(input, decode(input)) {
        Ok(report) => report
            .diagnostics
            .iter()
            .map(|diagnostic| diagnostic_facts(diagnostic, scope))
            .collect(),
        Err(_) => Vec::new(),
    };
    (decode(input), facts)
}

fn execute(request: RequestEnvelope, cargo: &mut Cargo) -> ProviderResponse {
    let request = match accept_request(request, None) {
        Err(response) => return response,
        Ok(admitted) => admitted,
    };
    let located = match request.locate(Ok(WorkspaceFacts {
        repository: ROOT.to_owned(),
        workspace: ROOT.to_owned(),
        is_directory: true,
    })) {
        Err(response) => return response,
        Ok(located) => located,
    };
    let selected = match located.select(&member_facts()) {
        Err(response) => return response,
        Ok(selected) => selected,
    };
    let (request, scope) = match selected.enter(Ok(TARGET.to_owned())) {
        Err(response) => return response,
        Ok(entered) => entered,
    };
    let now = Duration::from_millis(5);
    let (probe, launch) = match begin(request, scope.clone(), now) {
        Step::Over(response) => return response,
        Step::Next(next, launch) => (next, launch),
    };
    let run = cargo.run(&launch, &scope);
    let (check, launch) = match probe.probed(Ok(run), now) {
        Step::Over(response) => return response,
        Step::Next(next, launch) => (next, launch),
    };
    let run = cargo.run(&launch, &scope);
    let (decoded, facts) = known(&run, &scope);
    let (probe, launch) = match check.checked(Ok(run), decoded, &facts, now) {
        Step::Over(response) => return response,
        Step::Next(next, launch) => (next, launch),
    };
    let run = cargo.run(&launch, &scope);
    let (clippy, launch) = match probe.probed(Ok(run), now) {
        Step::Over(response) => return response,
        Step::Next(next, launch) => (next, launch),
    };
    let run = cargo.run(&launch, &scope);
    let (decoded, facts) = known(&run, &scope);
    clippy.checked(Ok(run), decoded, &facts, now)
}

fn observations(response: &ProviderResponse) -> Vec<&Observation> {
    response
        .events
        .iter()
        .filter_map(|event| match event {
            ProtocolEvent::Observation(value) => Some(&value.observation),
            _ => None,
        })
        .collect()
}

const WARNING: &str = r#"{"reason":"compiler-message","message":{"message":"unused variable: `x`","code":{"code":"unused_variables"},"level":"warning","spans":[{"file_name":"src/lib.rs","line_start":2,"line_end":2,"column_start":9,"column_end":10,"is_primary":true}],"children":[],"rendered":null}}"#;
const LINT: &str = r#"{"reason":"compiler-message","message":{"message":"useless use of `vec!`","code":{"code":"clippy::useless_vec"},"level":"warning","spans":[{"file_name":"src/lib.rs","line_start":3,"line_end":3,"column_start":5,"column_end":9,"is_primary":true}],"children":[],"rendered":null}}"#;
const MISMATCH: &str = r#"{"reason":"compiler-message","message":{"message":"mismatched types","code":{"code":"E0308"},"level":"error","spans":[{"file_name":"src/lib.rs","line_start":1,"line_end":1,"column_start":1,"column_end":2,"is_primary":true}],"children":[],"rendered":"error[E0308]: expected String\n"}}"#;
const ESCAPE: &str = r#"{"reason":"compiler-message","message":{"message":"bad","code":{"code":"E0308"},"level":"error","spans":[{"file_name":"../outside.rs","line_start":1,"line_end":1,"column_start":1,"column_end":2,"is_primary":true}],"children":[],"rendered":null}}"#;
const SUCCESS: &str = r#"{"reason":"build-finished","success":true}"#;
const FAILURE: &str = r#"{"reason":"build-finished","success":false}"#;

fn lines(lines: &[&str]) -> String {
    lines.iter().map(|line| format!("{line}\n")).collect()
}

fn valid() -> ResponseFacts {
    ResponseFacts {
        events: None,
        completion: None,
        session: None,
    }
}

#[test]
fn parses_compiler_messages_and_terminal_status() {
    let input = [
        "not-json from a procedural macro\n",
        "{\"reason\":\"compiler-message\",\"message\":{\"message\":\"bad type\",\"code\":{\"code\":\"E0308\"},\"level\":\"error\",\"spans\":[],\"children\":[],\"rendered\":\"error[E0308]: bad type\\n\"}}\n",
        "{\"reason\":\"build-finished\",\"success\":false}\n",
    ]
    .concat();
    let report = parse_cargo_jsonl(input.as_bytes(), decode(input.as_bytes())).expect("documented Cargo messages parse");

    assert!(!report.success);
    assert_eq!(report.diagnostics.len(), 1);
    assert_eq!(report.diagnostics[0].code.as_ref().unwrap().code, "E0308");
}

#[test]
fn rejects_malformed_partial_and_post_terminal_objects() {
    for input in [
        "{\n",
        "{\"reason\":\"compiler-artifact\"}",
        "{\"reason\":\"build-finished\",\"success\":true}\n{\"reason\":\"compiler-artifact\"}\n",
    ] {
        assert!(parse_cargo_jsonl(input.as_bytes(), decode(input.as_bytes())).is_err());
    }
    assert!(matches!(
        parse_cargo_jsonl(b"noise only\n", decode(b"noise only\n")),
        Err(CargoJsonError::MissingBuildFinished)
    ));
}

#[test]
fn manifest_is_a_rust_check_provider() {
    let value = manifest("0.1.0");
    assert_eq!(value.id.as_str(), "rust");
    assert_eq!(value.languages[0].as_str(), "rust");
    assert_eq!(value.capabilities[0].as_str(), CHECK_CAPABILITY);
}

#[test]
fn llm_contract_markers_use_the_canonical_lifecycle() {
    let expected_suffix = "DISCOVERED -> NORMALIZED -> CLASSIFIED -> FIX_PROPOSED -> VERIFIED -> REPORTED; execution terminal: INCOMPLETE | UNSUPPORTED.";
    let suffixes = [LIFECYCLE.trim()];

    assert!(!suffixes.is_empty(), "lifecycle marker must remain present");
    for suffix in suffixes {
        assert_eq!(suffix, expected_suffix, "noncanonical lifecycle marker");
    }
}

#[test]
fn root_target_selects_workspace_and_check_clippy_share_scope_argv() {
    let scope = select_cargo_scope(&request(), ROOT, ROOT, &member_facts()).unwrap();
    assert_eq!(scope, CargoScope::Workspace);
    let check = cargo_argv("check", &scope, &None);
    let clippy = cargo_argv("clippy", &scope, &None);
    assert_eq!(
        check,
        [
            "check",
            "--workspace",
            "--all-targets",
            "--locked",
            "--message-format=json"
        ]
    );
    assert_eq!(&check[1..], &clippy[1..]);
}

#[test]
fn verify_uses_and_removes_an_external_cargo_target() {
    let generated = |message: &str, code: &str, place: &str, line: u32, children: &str, rendered: &str| {
        format!(
            r#"{{"reason":"compiler-message","message":{{"message":"{message}","code":{{"code":"{code}"}},"level":"error","spans":[{place}],"children":[{children}],"rendered":{rendered}}}}}"#,
            place = place.replace("LINE", &line.to_string())
        )
    };
    let span = |file: &str| {
        format!(
            r#"{{"file_name":"{file}","line_start":LINE,"line_end":LINE,"column_start":1,"column_end":2,"is_primary":true}}"#
        )
    };
    let check = [
        generated(
            &format!("generated failure at {TARGET}"),
            TARGET,
            &format!("{},{}", span("src/lib.rs"), span(&format!("{TARGET}/out/generated.rs"))),
            1,
            &format!(
                r#"{{"message":"consider writing the generated file at {TARGET}/out/generated.rs","level":"help"}}"#
            ),
            &format!("\"error at {TARGET}/out/generated.rs\""),
        ),
        generated(
            &format!("generated failure at {TARGET}"),
            TARGET,
            &span(&format!("{TARGET}/out/other.rs")),
            2,
            "",
            "null",
        ),
        generated(
            "generated failure at <verification-target>",
            TARGET,
            &span(&format!("{TARGET}/out/other.rs")),
            2,
            "",
            "null",
        ),
        generated(
            &format!("repository failure at {TARGET}-backup"),
            "E0001",
            &span("src/lib.rs"),
            3,
            r#"{"message":"keep context","level":"help"}"#,
            "null",
        ),
        generated(
            "repository failure at <verification-target>-backup",
            "E0001",
            &span("src/lib.rs"),
            3,
            r#"{"message":"keep context","level":"help"}"#,
            "null",
        ),
        generated(
            &format!("hidden target {TARGET}"),
            "E0002",
            &span("src/lib.rs"),
            4,
            &format!(r#"{{"message":"hidden child {TARGET}","level":"help"}}"#),
            "\"safe rendered\"",
        ),
        FAILURE.to_owned(),
    ];
    let check: Vec<&str> = check.iter().map(String::as_str).collect();
    let mut cargo = Cargo::new(&lines(&check), 1, "", 91);
    let mut request = request();
    request.operation = Operation::Verify;

    let response = execute(request, &mut cargo);
    assert_eq!(cargo.launched[1][1..3], ["--target-dir", TARGET]);
    let observations = observations(&response);
    let generated = observations.iter().filter(|observation| observation.location.is_none()).count();
    assert_eq!(generated, 4);
    assert!(!format!("{observations:?}").contains(TARGET));
    assert_eq!(observations.iter().filter(|item| item.location.is_some()).count(), 2);
    assert_eq!(response.completion.counts.evidence, 0);
}

#[test]
fn verify_probe_failures_do_not_publish_the_external_target() {
    let traversal = format!(
        r#"{{"reason":"compiler-message","message":{{"message":"traversal","code":{{"code":"E0001"}},"level":"error","spans":[{{"file_name":"{TARGET}/../outside.rs","line_start":1,"line_end":1,"column_start":1,"column_end":2,"is_primary":true}}],"children":[],"rendered":null}}}}"#
    );
    let bad_level = format!(
        r#"{{"reason":"compiler-message","message":{{"message":"bad level","code":{{"code":"E0001"}},"level":"{TARGET}","spans":[],"children":[],"rendered":null}}}}"#
    );
    let mut wrong_version = Cargo::new("", 91, "", 91);
    wrong_version.version = "cargo /tmp/private\n";
    let mut broken_clippy = Cargo::new(&lines(&[SUCCESS]), 0, "", 91);
    broken_clippy.clippy_version = (format!("broken {TARGET}"), 1);
    for mut cargo in [
        wrong_version,
        broken_clippy,
        Cargo::new(&lines(&[&traversal, FAILURE]), 1, "", 91),
        Cargo::new(&lines(&[&bad_level, FAILURE]), 1, "", 91),
    ] {
        let mut request = request();
        request.operation = Operation::Verify;
        request.request_id = "019f7e95-0000-7000-8000-000000000067".to_owned();

        let response = execute(request, &mut cargo);

        assert_eq!(response.completion.status, ExecutionStatus::Incomplete);
        assert_eq!(response.completion.counts.evidence, 0);
        let message = response.completion.message.unwrap_or_default();
        assert!(!message.contains(TARGET));
    }
}

#[test]
fn verify_cleanup_failure_is_incomplete() {
    let request = request();
    let complete = complete_or_event_limit(&request, Vec::new(), 0, Duration::zero());
    assert_eq!(complete.completion.status, ExecutionStatus::Complete);
    let kept = finalize_verification_target(&request, complete.clone(), Ok(()));
    assert_eq!(kept, complete);

    let response = finalize_verification_target(&request, complete, Err("no such directory".to_owned()));

    assert_eq!(response.completion.status, ExecutionStatus::Incomplete);
    assert_eq!(
        response.completion.message.as_deref(),
        Some("cleanup Cargo verification target: no such directory")
    );
}

#[test]
fn nested_workspace_target_selects_relative_manifest_without_workspace() {
    let workspace = format!("{ROOT}/{MEMBER_SCOPE}");
    let request = scoped_request(MEMBER_SCOPE, &[MEMBER_SCOPE]);
    let scope = select_cargo_scope(&request, ROOT, &workspace, &member_facts()).unwrap();
    assert_eq!(
        scope,
        CargoScope::Manifest {
            manifest: "Cargo.toml".to_owned(),
            repository_path: MEMBER_SCOPE.to_owned(),
        }
    );
    let check = cargo_argv("check", &scope, &None);
    let clippy = cargo_argv("clippy", &scope, &None);
    assert!(!check.contains(&"--workspace".to_owned()));
    assert_eq!(&check[1..], &clippy[1..]);
}

#[test]
fn root_workspace_member_target_selects_member_manifest() {
    let request = scoped_request(".", &[MEMBER_SCOPE]);
    assert_eq!(
        select_cargo_scope(&request, ROOT, ROOT, &member_facts()).unwrap(),
        CargoScope::Manifest {
            manifest: format!("{MEMBER_SCOPE}/Cargo.toml"),
            repository_path: MEMBER_SCOPE.to_owned(),
        }
    );
}

#[test]
fn unsupported_target_shapes_are_typed_before_cargo_execution() {
    let file = TargetFacts {
        canonical: Some(format!("{ROOT}/{MEMBER_SCOPE}/src/lib.rs")),
        is_directory: false,
        has_manifest: false,
        manifest: None,
        accepted: true,
    };
    let source = TargetFacts {
        canonical: Some(format!("{ROOT}/{MEMBER_SCOPE}/src")),
        is_directory: true,
        ..file.clone()
    };
    let missing = TargetFacts {
        canonical: None,
        ..file.clone()
    };
    let cases = [
        (
            scoped_request(".", &[MEMBER_SCOPE, "crates/diagnostic-triage-contracts"]),
            member_facts(),
        ),
        (
            scoped_request(".", &["crates/diagnostic-triage-provider-rust/src/lib.rs"]),
            file,
        ),
        (scoped_request(".", &["crates/diagnostic-triage-provider-rust/src"]), source),
        (
            scoped_request(".", &["crates/diagnostic-triage-provider-rust/missing"]),
            missing,
        ),
        (
            scoped_request(MEMBER_SCOPE, &["crates/diagnostic-triage-contracts"]),
            member_facts(),
        ),
    ];
    let mut cargo = Cargo::new("", 91, "", 91);
    let response = execute(cases[0].0.clone(), &mut cargo);
    assert!(cargo.launched.is_empty());
    assert_eq!(response.completion.status, ExecutionStatus::Incomplete);
    assert_eq!(response.completion.tool_exit_code, None);
    assert!(response.events.is_empty());
    for (request, facts) in cases {
        let workspace = if request.workspace == "." {
            ROOT.to_owned()
        } else {
            format!("{ROOT}/{}", request.workspace)
        };
        assert!(matches!(
            select_cargo_scope(&request, ROOT, &workspace, &facts),
            Err(ProviderError::Request(_) | ProviderError::Path(_))
        ));
    }
}

#[test]
fn request_parser_rejects_kind_mismatch_and_multiple_lines() {
    assert!(matches!(
        decode_request(b"{\"kind\":\"manifest\"}\n", Decoded::Other),
        Err(ProviderError::Request(_))
    ));
    assert!(decode_request(b"{}\n{}\n", Decoded::Request(request())).is_err());
    assert_eq!(decode_request(b"{}\n", Decoded::Request(request())).unwrap(), request());
    assert!(request_line(&vec![b'x'; MAX_REQUEST_BYTES + 1]).is_err());
    assert!(request_line(b"").is_err());
}

#[test]
fn run_stdio_turns_invalid_observation_into_terminal_completion() {
    let request = request();
    let mut response = terminal_for_id(REQUEST_ID.to_owned(), ExecutionStatus::Complete, "test response");
    response.events.push(ProtocolEvent::Observation(ObservationEnvelope {
        request_id: REQUEST_ID.to_owned(),
        sequence: 0,
        observation: Observation {
            schema_version: "diagnostic-triage.observation/v1".to_owned(),
            observation_id: REQUEST_ID.to_owned(),
            tool: Tool {
                name: "rustc".to_owned(),
                version: "1.85.1".to_owned(),
                rule_id: None,
            },
            language: "rust".to_owned(),
            severity: Severity::Error,
            origin: "NORMAL".to_owned(),
            message: "invalid location".to_owned(),
            location: Some(Location {
                path: "src/lib.rs".to_owned(),
                start: Position { line: 0, column: 1 },
                end: None,
            }),
            symbol: None,
            expected: None,
            observed: None,
            evidence_ids: Vec::new(),
        },
    }));
    let facts = ResponseFacts {
        events: Some("location positions are one-based".to_owned()),
        completion: None,
        session: None,
    };
    let settled = settle(&request, response.clone(), facts);
    assert!(settled.events.is_empty());
    assert_eq!(settled.completion.status, ExecutionStatus::Incomplete);
    assert!(settled.completion.tool_exit_code.is_none());
    assert!(settled
        .completion
        .message
        .as_deref()
        .is_some_and(|message| message.len() <= MAX_MESSAGE_CHARS));
    assert_eq!(settle(&request, response.clone(), valid()), response);
}

#[test]
fn unsupported_required_capability_finishes_without_running_cargo() {
    let mut request = request();
    request.required_capabilities = vec!["rust.future/v1".to_owned()];
    assert!(unsupported_request(&request).is_some());
    let mut cargo = Cargo::new("", 91, "", 91);
    let response = execute(request, &mut cargo);
    assert!(cargo.launched.is_empty());
    assert_eq!(response.completion.status, ExecutionStatus::Unsupported);
    assert_eq!(response.completion.tool_exit_code, None);
    assert!(response.events.is_empty());
}

fn plain() -> RustcDiagnostic {
    RustcDiagnostic {
        message: "primary".to_owned(),
        code: None,
        level: "warning".to_owned(),
        spans: Vec::new(),
        children: vec![RustcChild {
            message: "child".to_owned(),
            level: "help".to_owned(),
        }],
        rendered: None,
    }
}

#[test]
fn rendered_message_preserves_children_and_has_a_bounded_fallback() {
    assert_eq!(diagnostic_message(&plain()), "primary\nhelp: child");
    assert_eq!(severity("ice").unwrap(), Severity::Error);
    assert_eq!(severity("unheard of"), None);
    assert_eq!(truncate_chars("żółw", 2), "ż…");
    assert_eq!(truncate_chars("żółw", 4), "żółw");
}

fn nested_scope() -> DiagnosticScope {
    DiagnosticScope {
        cargo: CargoScope::Manifest {
            manifest: "Cargo.toml".to_owned(),
            repository_path: MEMBER_SCOPE.to_owned(),
        },
        repository_root: ROOT.to_owned(),
        workspace_root: format!("{ROOT}/{MEMBER_SCOPE}"),
        verification_target: None,
    }
}

fn normalize(raw: &str, scope: &DiagnosticScope, files: &[&str]) -> Result<String, ProviderError> {
    normalize_path(raw, scope, &path_facts(raw, scope, files).0)
}

#[test]
fn nested_scope_paths_are_relative_and_siblings_are_rejected() {
    let scope = nested_scope();
    let own = format!("{ROOT}/{MEMBER_SCOPE}/src/lib.rs");
    let files = [
        own.as_str(),
        "/repo/crates/diagnostic-triage-contracts/src/lib.rs",
        "/repo/docs/contracts/protocol-v1.md",
    ];
    assert_eq!(
        normalize("src/lib.rs", &scope, &files).unwrap(),
        format!("{MEMBER_SCOPE}/src/lib.rs")
    );
    let repository_relative = format!("{MEMBER_SCOPE}/src/lib.rs");
    assert_eq!(
        normalize(&repository_relative, &scope, &files).unwrap(),
        format!("{MEMBER_SCOPE}/src/lib.rs")
    );
    assert!(normalize("crates/diagnostic-triage-contracts/src/lib.rs", &scope, &files).is_err());
    assert!(normalize("docs/contracts/protocol-v1.md", &scope, &files).is_err());
}

#[test]
fn nested_scope_prefers_cargo_cwd_when_root_has_the_same_relative_file() {
    let scope = DiagnosticScope {
        cargo: CargoScope::Manifest {
            manifest: "member/Cargo.toml".to_owned(),
            repository_path: "member".to_owned(),
        },
        repository_root: ROOT.to_owned(),
        workspace_root: "/repo/member".to_owned(),
        verification_target: None,
    };
    let files = ["/repo/src/lib.rs", "/repo/member/src/lib.rs"];
    assert_eq!(normalize("src/lib.rs", &scope, &files).unwrap(), "member/src/lib.rs");
}

fn span(file_name: &str, line_start: u64, line_end: u64, column_start: u64, column_end: u64) -> RustcSpan {
    RustcSpan {
        file_name: file_name.to_owned(),
        line_start,
        line_end,
        column_start,
        column_end,
        is_primary: true,
    }
}

#[test]
fn selected_package_excludes_sibling_diagnostic_locations() {
    let scope = DiagnosticScope {
        cargo: CargoScope::Manifest {
            manifest: format!("{MEMBER_SCOPE}/Cargo.toml"),
            repository_path: MEMBER_SCOPE.to_owned(),
        },
        repository_root: ROOT.to_owned(),
        workspace_root: ROOT.to_owned(),
        verification_target: None,
    };
    let sibling = "crates/diagnostic-triage-contracts/src/lib.rs";
    let file = format!("{ROOT}/{sibling}");
    let span = span(sibling, 1, 1, 1, 2);

    let facts = span_facts(sibling, &scope, &[&file]);
    assert_eq!(scoped_location(&span, &scope, &facts).unwrap(), None);
    let gone = span_facts(sibling, &scope, &[]);
    assert!(matches!(
        scoped_location(&span, &scope, &gone),
        Err(ProviderError::Path(_))
    ));
}

fn root_location(span: &RustcSpan) -> Result<Location, ProviderError> {
    location(span, &root_scope(), &span_facts(&span.file_name, &root_scope(), &[]))
}

#[test]
fn rustc_locations_preserve_insertions_and_half_open_code_point_ranges() {
    let spans = [
        span("src/unicode.rs", 1, 1, 2, 2),
        span("src/unicode.rs", 2, 2, 2, 4),
        span("src/unicode.rs", 3, 4, 1, 1),
    ];
    let locations = spans
        .iter()
        .map(root_location)
        .collect::<Result<Vec<_>, _>>()
        .expect("rustc coordinates match Location v1");

    assert_eq!(locations[0].start, locations[0].end.unwrap());
    assert_eq!(locations[1].end.as_ref().unwrap().column, 4);
    assert_eq!(locations[2].end.as_ref().unwrap().line, 4);
    assert_eq!(locations[2].end.as_ref().unwrap().column, 1);
}

#[test]
fn rustc_location_boundary_rejects_non_positive_and_reversed_spans() {
    for (line_start, line_end, column_start, column_end) in [(0, 1, 1, 1), (1, 1, 0, 1), (2, 1, 1, 1), (1, 1, 3, 2)] {
        let span = span("src/lib.rs", line_start, line_end, column_start, column_end);
        assert!(root_location(&span).is_err());
    }
    assert_eq!(
        to_u32(u64::from(u32::MAX) + 1, "line_start").unwrap_err(),
        ProviderError::Model("line_start exceeds u32".to_owned())
    );
}

#[test]
fn rustc_columns_are_kept_as_the_compiler_counts_them() {
    let location = root_location(&span("src/unicode.rs", 2, 2, 26, 33)).expect("rustc span normalizes");
    assert_eq!(location.start.column, 26);
    assert_eq!(location.end.as_ref().expect("rustc span end").column, 33);
}

#[test]
fn successful_check_then_clippy_deduplicates_rustc_diagnostics() {
    let mut cargo = Cargo::new(&lines(&[WARNING, SUCCESS]), 0, &lines(&[WARNING, LINT, SUCCESS]), 0);
    let request = request();
    let response = execute(request.clone(), &mut cargo);

    assert_eq!(response.completion.status, ExecutionStatus::Complete);
    assert_eq!(response.completion.tool_exit_code, Some(0));
    assert_eq!(response.completion.counts.observations, 2);
    assert_eq!(response.completion.counts.evidence, 2);
    let tools = observations(&response)
        .iter()
        .map(|observation| (observation.tool.name.as_str(), observation.tool.rule_id.as_deref()))
        .collect::<Vec<_>>();
    assert_eq!(
        tools,
        [
            ("cargo-check", Some("unused_variables")),
            ("clippy", Some("clippy::useless_vec"))
        ]
    );
    validate_response(&request, valid()).expect("complete session satisfies protocol v1");
    for (index, event) in response.events.iter().enumerate() {
        let sequence = match event {
            ProtocolEvent::Observation(value) => value.sequence,
            ProtocolEvent::Evidence(value) => value.sequence,
            ProtocolEvent::FixCandidate(value) => value.sequence,
            ProtocolEvent::Execution(value) => value.sequence,
        };
        assert_eq!(sequence, index as u64);
    }
}

#[test]
fn compiler_failure_is_complete_and_skips_clippy() {
    let mut cargo = Cargo::new(&lines(&[MISMATCH, FAILURE]), 101, "this branch must not run\n", 91);
    let response = execute(request(), &mut cargo);

    assert_eq!(cargo.launched.len(), 2);
    assert_eq!(response.completion.status, ExecutionStatus::Complete);
    assert_eq!(response.completion.tool_exit_code, Some(101));
    assert_eq!(response.completion.counts.observations, 1);
    assert!(observations(&response).iter().any(|observation| {
        observation.tool.rule_id.as_deref() == Some("E0308") && observation.message.contains("expected String")
    }));
}

#[test]
fn malformed_partial_and_path_escape_are_incomplete_with_evidence() {
    for output in [
        lines(&["{\"reason\":", FAILURE]),
        "{\"reason\":\"compiler-artifact\"".to_owned(),
        lines(&[ESCAPE, FAILURE]),
    ] {
        let response = execute(request(), &mut Cargo::new(&output, 101, "", 0));
        assert_eq!(response.completion.status, ExecutionStatus::Incomplete);
        assert_eq!(response.completion.tool_exit_code, None);
        assert!(response.completion.counts.evidence >= 1);
    }
}

#[test]
fn timeout_and_aggregate_output_overflow_are_incomplete() {
    let mut timeout_request = request();
    timeout_request.limits.timeout_ms = 30;
    let (probe, launch) = match begin(timeout_request, root_scope(), Duration::zero()) {
        Step::Next(next, launch) => (next, launch),
        Step::Over(_) => panic!("there is time left"),
    };
    let mut run = run_of(b"", 0, launch.limits);
    run.outcome.state = ProcessState::Incomplete(IncompleteReason::Timeout);
    run.outcome.exit_code = None;
    let Step::Over(response) = probe.probed(Ok(run), Duration::from_millis(30)) else {
        panic!("a timeout ends the session");
    };
    assert_eq!(response.completion.status, ExecutionStatus::Incomplete);

    let mut output_request = request();
    output_request.limits.max_stdout_bytes = 4;
    let response = execute(output_request, &mut Cargo::new("", 91, "", 91));
    assert_eq!(response.completion.status, ExecutionStatus::Incomplete);
    assert!(response.completion.counts.evidence >= 1);
}

#[test]
fn a_missing_cargo_is_unsupported() {
    let probe = |fault: LaunchFault| {
        let Step::Next(next, _) = begin(request(), root_scope(), Duration::zero()) else {
            panic!("there is time left");
        };
        match next.probed(Err(fault), Duration::from_millis(1)) {
            Step::Over(response) => response,
            Step::Next(..) => panic!("nothing was run"),
        }
    };
    let response = probe(LaunchFault {
        not_found: true,
        message: "spawn".to_owned(),
    });
    assert_eq!(response.completion.status, ExecutionStatus::Unsupported);
    assert_eq!(response.completion.message.as_deref(), Some(CARGO_NOT_FOUND));
    let response = probe(LaunchFault {
        not_found: false,
        message: "spawn failed".to_owned(),
    });
    assert_eq!(response.completion.status, ExecutionStatus::Incomplete);
    assert_eq!(response.completion.message.as_deref(), Some("spawn failed"));
}

#[test]
fn an_exhausted_budget_ends_the_session() {
    let mut request = request();
    request.limits.timeout_ms = 5;
    let Step::Over(response) = begin(request.clone(), root_scope(), Duration::from_millis(5)) else {
        panic!("no time is left");
    };
    assert_eq!(response.completion.status, ExecutionStatus::Incomplete);
    assert_eq!(response.completion.message.as_deref(), Some(BUDGET_EXHAUSTED));
    let left = remaining_limits(
        &request.limits,
        Duration::from_millis(2),
        ProcessUsage { stdout: 24, stderr: 0 },
    )
    .unwrap();
    assert_eq!(left.timeout, Duration::from_millis(3));
    assert_eq!(left.max_stdout_bytes, 1024 * 1024 - 24);
    assert_eq!(left.max_stderr_bytes, 1024 * 1024);
}

#[test]
fn too_many_events_are_cut_and_reported() {
    let mut request = request();
    request.limits.max_events = 1;
    let mut cargo = Cargo::new(&lines(&[WARNING, MISMATCH, FAILURE]), 101, "", 91);
    let response = execute(request.clone(), &mut cargo);
    assert_eq!(response.completion.status, ExecutionStatus::Incomplete);
    assert_eq!(response.completion.message.as_deref(), Some(EVENT_LIMIT));
    assert!(response.events.len() <= 1);
    assert_eq!(bounded_events(&request, response.events.clone()), response.events);
}

#[test]
fn evidence_keeps_what_the_request_allows() {
    let mut request = request();
    request.limits.max_evidence_bytes = 10;
    let response = execute(request, &mut Cargo::new(&lines(&[FAILURE]), 101, "", 91));
    let ProtocolEvent::Evidence(envelope) = &response.events[0] else {
        panic!("the output is evidence");
    };
    assert_eq!(envelope.evidence.source, EvidenceSource::Stdout);
    assert_eq!(envelope.evidence.retained_bytes, 10);
    assert_eq!(envelope.evidence.observed_bytes, FAILURE.len() as u64 + 1);
    assert_eq!(envelope.evidence.content.as_deref(), Some(&FAILURE[..10]));
    assert!(envelope.evidence.truncated);
    assert_eq!(response.completion.evidence_bytes, 10);
}

#[test]
fn malformed_request_gets_exactly_one_incomplete_completion() {
    let input = format!("{{\"request_id\":\"{REQUEST_ID}\",\"kind\":3}}\n");
    let named = named_request_id(input.as_bytes());
    assert_eq!(named.as_deref(), Some(REQUEST_ID));
    assert_eq!(recover_request_id(named, true), REQUEST_ID);
    assert_eq!(recover_request_id(Some("not an id".to_owned()), false), FALLBACK_REQUEST_ID);
    assert_eq!(recover_request_id(named_request_id(b"{"), false), FALLBACK_REQUEST_ID);
    let error = ProviderError::Request("malformed".to_owned());
    let response = refuse(REQUEST_ID.to_owned(), &error);
    assert!(response.events.is_empty());
    assert_eq!(response.completion.request_id, REQUEST_ID);
    assert_eq!(response.completion.status, ExecutionStatus::Incomplete);
    assert_eq!(response.completion.message, Some(error.message()));
}

#[test]
fn verification_targets_are_hidden() {
    let target = Some(TARGET.to_owned());
    assert!(verification_target_mentioned(&format!("see {TARGET}/out"), &target));
    assert!(!verification_target_mentioned(&format!("see {TARGET}-backup"), &target));
    let redacted = redact_verification_target(&format!("see {TARGET}/out and {TARGET}-backup"), &target);
    assert!(redacted.contains("<verification-target>/out"));
    assert!(verification_target_path(&format!("{TARGET}/out/a.rs"), &target));
    assert!(!verification_target_path("src/lib.rs", &target));
    assert_ne!(
        diagnostic_identity(&format!("a{TARGET}b"), TARGET),
        diagnostic_identity("a<verification-target>b", TARGET)
    );
    assert_ne!(label_identity(&"1".repeat(64)), label_identity(&"2".repeat(64)));
}

#[test]
fn verification_directories_are_named_apart() {
    assert_eq!(
        target_name(7, REQUEST_ID, 3),
        format!("diagnostic-triage-cargo-7-{REQUEST_ID}-3")
    );
    assert_eq!(after_attempt(0, Attempt::Created), AfterAttempt::Done);
    assert_eq!(after_attempt(0, Attempt::Exists), AfterAttempt::Again(1));
    assert_eq!(after_attempt(MAX_TARGET_ATTEMPTS - 1, Attempt::Exists), AfterAttempt::GiveUp);
    assert_eq!(after_attempt(0, Attempt::Failed), AfterAttempt::GiveUp);
    assert!(judge_temporary_root("/tmp", ROOT).is_ok());
    assert!(judge_temporary_root("/repo/tmp", ROOT).is_err());
}

#[test]
fn workspaces_are_judged_before_cargo_runs() {
    let facts = |workspace: &str, is_directory: bool| WorkspaceFacts {
        repository: ROOT.to_owned(),
        workspace: workspace.to_owned(),
        is_directory,
    };
    assert_eq!(
        judge_workspace("member", Ok(facts("/repo/member", true))).unwrap(),
        (ROOT.to_owned(), "/repo/member".to_owned())
    );
    assert!(matches!(
        judge_workspace("member", Ok(facts("/outside", true))),
        Err(ProviderError::Path(_))
    ));
    assert!(judge_workspace("member", Ok(facts("/repo/file", false))).is_err());
    assert!(matches!(
        judge_workspace("member", Err("gone".to_owned())),
        Err(ProviderError::Io(_))
    ));
    assert!(path_is_in_scope("member/src/lib.rs", &CargoScope::Workspace));
    let member = CargoScope::Manifest {
        manifest: "Cargo.toml".to_owned(),
        repository_path: "member".to_owned(),
    };
    assert!(path_is_in_scope("member/src/lib.rs", &member));
    assert!(!path_is_in_scope("member2/src/lib.rs", &member));
    assert!(path_is_in_scope("member", &member));
    assert!(path_is_in_scope("member//src/./lib.rs/", &member));
    assert!(!path_is_in_scope("./member/src/lib.rs", &member));
    assert!(!path_is_in_scope("/member/src/lib.rs", &member));
}

#[test]
fn versions_are_read_from_the_first_line() {
    assert_eq!(parse_version(b"cargo 1.93.1 (fixture)\n", "cargo").unwrap(), "1.93.1");
    assert!(parse_version(b"rustc 1.93.1\n", "cargo").is_err());
    let invalid = std::str::from_utf8(b"\xff\n").unwrap_err();
    assert_eq!(
        parse_version(b"\xff\n", "cargo").unwrap_err(),
        format!("cargo version is not UTF-8: {invalid}")
    );
}

#[test]
fn diagnostics_are_bounded() {
    assert!(validate_diagnostic(&plain()).is_ok());
    let mut crowded = plain();
    crowded.spans = vec![span("src/lib.rs", 1, 1, 1, 2); MAX_SPANS + 1];
    assert!(matches!(validate_diagnostic(&crowded), Err(CargoJsonError::Invalid(_))));
    let mut unplaced = plain();
    unplaced.spans = vec![span("", 1, 1, 1, 2)];
    assert!(matches!(validate_diagnostic(&unplaced), Err(CargoJsonError::Invalid(_))));
    let mut reversed = plain();
    reversed.spans = vec![span("src/lib.rs", 2, 1, 1, 1)];
    assert_eq!(
        validate_diagnostic(&reversed).unwrap_err().message(),
        "Cargo JSON violates the typed boundary: diagnostic span is outside the v1 position range"
    );
}
