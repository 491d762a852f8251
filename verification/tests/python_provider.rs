//! The Python provider, run against a scripted Ruff.

use diagnostic_triage::model::{
    Applicability, Evidence, EvidenceSource, ExecutionStatus, FixCandidate, Location, Observation, Severity,
};
use diagnostic_triage::process::capture::{BoundedOutput, IncompleteReason, ProcessOutcome, ProcessState};
use diagnostic_triage::process::limits::RequestLimits;
use diagnostic_triage::protocol::{AdapterManifest, Decoded, Operation, ProtocolEvent, RequestEnvelope};
use diagnostic_triage::python::builder::{empty_incomplete, CompletionBuilder};
use diagnostic_triage::python::conclude::{
    answer_failure, incomplete_for_request, judge_workspace, validate_generated_session, WorkspaceFacts,
};
use diagnostic_triage::python::error::ProviderError;
use diagnostic_triage::python::request::{decode_request, manifest, request_line, validate_request};
use diagnostic_triage::python::ruff::{
    candidate_applicability, fix_edits_are_complete_and_non_overlapping, normalize_ruff_json, normalize_severity,
    patch_content, NormalizedRuff, RuffDiagnostic, RuffEditView, RuffFix, RuffFixView, RuffPosition,
};
use diagnostic_triage::python::session::{parse_ruff_version, remaining_process_limits, Attested, Run};
use diagnostic_triage::python::steps::{validate_targets, Accepted, Launch, ProviderSession, Roots, Step};
use diagnostic_triage::time::Duration;

const REQUEST: &[u8] = b"{\"kind\":\"request\"}\n";

fn request() -> RequestEnvelope {
    RequestEnvelope {
        request_id: "019f7e95-0000-7000-8000-000000000001".to_owned(),
        operation: Operation::Check,
        workspace: ".".to_owned(),
        targets: vec!["src".to_owned()],
        required_capabilities: vec!["diagnostic.check/v1".to_owned()],
        optional_capabilities: vec!["fix.propose/v1".to_owned()],
        limits: RequestLimits {
            timeout_ms: 10_000,
            max_stdout_bytes: 64 * 1024,
            max_stderr_bytes: 64 * 1024,
            max_events: 100,
            max_evidence_bytes: 16 * 1024,
        },
    }
}

fn digest(bytes: &[u8]) -> String {
    format!("{:064x}", bytes.iter().fold(7u64, |sum, byte| sum.wrapping_mul(31).wrapping_add(u64::from(*byte))))
}

fn position(value: &serde_json::Value) -> Option<RuffPosition> {
    Some(RuffPosition {
        row: value.get("row")?.as_u64()? as u32,
        column: value.get("column")?.as_u64()? as u32,
    })
}

fn fix_view(fix: &serde_json::Value) -> RuffFixView {
    RuffFixView {
        applicability: fix["applicability"].as_str().map(str::to_owned),
        edits: fix["edits"].as_array().map(|edits| {
            edits
                .iter()
                .map(|edit| RuffEditView {
                    content: edit["content"].as_str().map(str::to_owned),
                    location: position(&edit["location"]),
                    end_location: position(&edit["end_location"]),
                })
                .collect()
        }),
    }
}

fn parse(input: &[u8], version: &str) -> Result<Vec<RuffDiagnostic>, String> {
    let value: serde_json::Value = serde_json::from_slice(input).map_err(|error| error.to_string())?;
    let list = value.as_array().ok_or("not a list")?;
    list.iter()
        .map(|item| {
            let filename = item["filename"].as_str().ok_or("no file name")?.to_owned();
            let code = item["code"].as_str().map(str::to_owned);
            let fix = item.get("fix").filter(|fix| !fix.is_null()).map(|fix| {
                let json = fix.to_string();
                RuffFix {
                    digest: digest(patch_content(version, &filename, &code, &json).as_bytes()),
                    view: Ok(fix_view(fix)),
                    json,
                }
            });
            Ok(RuffDiagnostic {
                code,
                filename,
                location: position(&item["location"]).ok_or("no location")?,
                end_location: position(&item["end_location"]),
                message: item["message"].as_str().ok_or("no message")?.to_owned(),
                severity: item["severity"].as_str().ok_or("no severity")?.to_owned(),
                fix,
                path_refused: false,
            })
        })
        .collect()
}

fn normalize(
    request: &RequestEnvelope,
    version: &str,
    input: &[u8],
    builder: &mut CompletionBuilder,
) -> Result<NormalizedRuff, ProviderError> {
    normalize_ruff_json(
        request,
        version,
        "/repo",
        input,
        parse(input, version),
        &Vec::new(),
        &Vec::new(),
        builder,
    )
}

fn observations(events: &[ProtocolEvent]) -> Vec<&Observation> {
    events
        .iter()
        .filter_map(|event| match event {
            ProtocolEvent::Observation(value) => Some(&value.observation),
            _ => None,
        })
        .collect()
}

fn evidence(events: &[ProtocolEvent]) -> Vec<&Evidence> {
    events
        .iter()
        .filter_map(|event| match event {
            ProtocolEvent::Evidence(value) => Some(&value.evidence),
            _ => None,
        })
        .collect()
}

fn candidates(events: &[ProtocolEvent]) -> Vec<&FixCandidate> {
    events
        .iter()
        .filter_map(|event| match event {
            ProtocolEvent::FixCandidate(value) => Some(&value.fix_candidate),
            _ => None,
        })
        .collect()
}

const FINDINGS: &[u8] = br#"[
  {"code":"F401","filename":"/repo/src/a.py","location":{"row":1,"column":1},"end_location":{"row":1,"column":10},"message":"unused import","severity":"error","fix":{"applicability":"safe","message":"Remove unused import: os","edits":[{"content":"","location":{"row":1,"column":1},"end_location":{"row":1,"column":10},"future_edit_field":"preserved"}],"future_fix_field":{"mode":"strict"}}},
  {"code":"B006","filename":"src/b.py","location":{"row":2,"column":1},"end_location":{"row":2,"column":3},"message":"mutable default","severity":"warning","fix":{"applicability":"unsafe","message":"Replace","edits":[{"content":"None","location":{"row":2,"column":1},"end_location":{"row":2,"column":3}}]}},
  {"code":"E501","filename":"src/c.py","location":{"row":3,"column":1},"message":"line too long","severity":"warning","fix":{"applicability":"display","message":"Wrap","edits":[]}}
]"#;

fn manifest_line(manifest: &AdapterManifest) -> String {
    format!(
        "{}@{} {} {}",
        manifest.id,
        manifest.version,
        manifest.capabilities.join(","),
        manifest.languages.join(",")
    )
}

#[test]
fn the_manifest_names_what_the_provider_can_do() {
    assert_eq!(
        manifest_line(&manifest("0.1.0")),
        "ruff@0.1.0 diagnostic.check/v1,fix.propose/v1 python"
    );
}

#[test]
fn clean_ruff_output_has_zero_events_and_exact_completion_counts() {
    let request = request();
    validate_request(&request, None).unwrap();
    let mut builder = CompletionBuilder::new(&request);
    let normalized = normalize(&request, "0.15.2", b"[]\n", &mut builder).unwrap();
    assert!(normalized.events.is_empty());
    let completion = builder.complete(0, 4, None).unwrap();
    assert_eq!(completion.sequence, 0);
    assert_eq!(completion.counts.observations, 0);
    assert_eq!(completion.status, ExecutionStatus::Complete);
}

#[test]
fn findings_match_golden_and_preserve_only_explicit_safe_unsafe_metadata() {
    let request = request();
    let mut builder = CompletionBuilder::new(&request);
    let normalized = normalize(&request, "0.15.2", FINDINGS, &mut builder).unwrap();

    let candidates = candidates(&normalized.events);
    assert_eq!(candidates.len(), 3);
    assert_eq!(candidates[0].applicability, Applicability::Safe);
    assert_eq!(candidates[1].applicability, Applicability::Unsafe);
    assert_eq!(candidates[2].applicability, Applicability::Manual);

    let patches: Vec<&Evidence> = evidence(&normalized.events)
        .into_iter()
        .filter(|evidence| evidence.source == EvidenceSource::Patch)
        .collect();
    assert_eq!(patches.len(), 3);
    assert_eq!(patches[0].media_type, "application/vnd.ruff.fix+json");
    let safe_patch: serde_json::Value = serde_json::from_str(patches[0].content.as_deref().unwrap()).unwrap();
    assert_eq!(safe_patch["version"], "0.15.2");
    assert_eq!(safe_patch["filename"], "src/a.py");
    assert_eq!(safe_patch["rule_id"], "F401");
    assert_eq!(safe_patch["fix"]["applicability"], "safe");
    assert_eq!(safe_patch["fix"]["message"], "Remove unused import: os");
    assert_eq!(safe_patch["fix"]["edits"][0]["content"], "");
    assert_eq!(safe_patch["fix"]["edits"][0]["location"]["row"], 1);
    assert_eq!(safe_patch["fix"]["edits"][0]["end_location"]["column"], 10);
    assert_eq!(safe_patch["fix"]["edits"][0]["future_edit_field"], "preserved");
    assert_eq!(safe_patch["fix"]["future_fix_field"]["mode"], "strict");

    let severity = observations(&normalized.events)[0].severity;
    assert_eq!(severity, Severity::Error);

    let completion = builder.complete(1, 7, None).unwrap();
    assert_eq!(completion.sequence, 9);
    assert_eq!(completion.counts.observations, 3);
    assert_eq!(completion.counts.evidence, 3);
    assert_eq!(completion.counts.fix_candidates, 3);
    assert_eq!(completion.counts.executions, 0);
    assert_eq!(
        completion.evidence_bytes,
        patches.iter().map(|evidence| evidence.retained_bytes).sum::<u64>()
    );
}

fn locations(input: &[u8], version: &str) -> Vec<Location> {
    let request = request();
    let mut builder = CompletionBuilder::new(&request);
    let normalized = normalize(&request, version, input, &mut builder).expect("Ruff locations normalize");
    observations(&normalized.events)
        .iter()
        .filter_map(|observation| observation.location.clone())
        .collect()
}

#[test]
fn ruff_locations_preserve_points_insertions_and_half_open_code_point_ranges() {
    let input = r#"[
      {"code":"POINT","filename":"src/unicode.py","location":{"row":1,"column":2},"message":"point after α","severity":"warning","fix":null},
      {"code":"INSERT","filename":"src/unicode.py","location":{"row":2,"column":3},"end_location":{"row":2,"column":3},"message":"insertion","severity":"warning","fix":null},
      {"code":"SAME","filename":"src/unicode.py","location":{"row":3,"column":2},"end_location":{"row":3,"column":4},"message":"same line","severity":"warning","fix":null},
      {"code":"NEXT","filename":"src/unicode.py","location":{"row":4,"column":1},"end_location":{"row":5,"column":1},"message":"through newline","severity":"warning","fix":null}
    ]"#;
    let locations = locations(input.as_bytes(), "0.15.2");

    assert_eq!(locations.len(), 4);
    assert!(locations[0].end.is_none(), "absent end remains a point");
    assert_eq!(locations[1].start, locations[1].end.unwrap());
    assert_eq!(locations[2].end.as_ref().unwrap().column, 4);
    assert_eq!(locations[3].end.as_ref().unwrap().line, 5);
    assert_eq!(locations[3].end.as_ref().unwrap().column, 1);
}

#[test]
fn ruff_columns_are_kept_as_ruff_counts_them() {
    let input = r#"[{"code":"F821","filename":"src/unicode.py","location":{"row":1,"column":10},"end_location":{"row":1,"column":11},"message":"undefined name","severity":"error","fix":null}]"#;
    let locations = locations(input.as_bytes(), "0.15.14");
    assert_eq!(locations[0].start.column, 10);
    assert_eq!(locations[0].end.as_ref().expect("Ruff end_location").column, 11);
}

#[test]
fn unknown_severity_is_rejected_and_untrusted_edits_are_manual() {
    let request = request();
    let unknown_severity = br#"[{"code":"X","filename":"x.py","location":{"row":1,"column":1},"message":"x","severity":"fatal","fix":null}]"#;
    let mut builder = CompletionBuilder::new(&request);
    assert!(matches!(
        normalize(&request, "0.15.2", unknown_severity, &mut builder),
        Err(ProviderError::RuffSeverity(value)) if value == "fatal"
    ));

    let unsafe_shapes = br#"[
      {"code":"A","filename":"a.py","location":{"row":1,"column":1},"message":"missing","severity":"warning","fix":{"applicability":"safe","message":"missing edits"}},
      {"code":"B","filename":"b.py","location":{"row":1,"column":1},"message":"overlap","severity":"warning","fix":{"applicability":"safe","message":"overlap","edits":[{"content":"x","location":{"row":1,"column":1},"end_location":{"row":1,"column":3}},{"content":"y","location":{"row":1,"column":2},"end_location":{"row":1,"column":4}}]}}
    ]"#;
    let mut builder = CompletionBuilder::new(&request);
    let normalized = normalize(&request, "0.15.2", unsafe_shapes, &mut builder).unwrap();
    let candidates = candidates(&normalized.events);
    assert_eq!(candidates.len(), 2);
    assert!(candidates
        .iter()
        .all(|candidate| candidate.applicability == Applicability::Manual));
    assert_eq!(evidence(&normalized.events).len(), 2);
}

#[test]
fn malformed_request_and_ruff_json_are_rejected() {
    let request = request();
    let doubled = [REQUEST, REQUEST].concat();
    assert!(matches!(
        decode_request(&doubled, doubled.len(), Decoded::Request(request.clone())),
        Err(ProviderError::Request(_))
    ));
    assert!(matches!(
        decode_request(REQUEST, REQUEST.len(), Decoded::Malformed("invalid identifier".to_owned())),
        Err(ProviderError::Request(_))
    ));
    let mut builder = CompletionBuilder::new(&request);
    assert!(matches!(
        normalize(&request, "0.15.2", b"[{", &mut builder),
        Err(ProviderError::RuffJson(_))
    ));
}

#[test]
fn caller_bound_and_request_or_ruff_path_escape_are_rejected() {
    let request = request();
    assert!(matches!(
        decode_request(REQUEST, REQUEST.len() - 1, Decoded::Request(request.clone())),
        Err(ProviderError::InputLimit { .. })
    ));
    assert!(matches!(
        decode_request(REQUEST, REQUEST.len(), Decoded::Invalid("path escapes".to_owned())),
        Err(ProviderError::Request(_))
    ));

    for filename in ["../outside.py", "/etc/passwd", "src/../../x.py"] {
        let input = format!(
            r#"[{{"code":"X","filename":"{filename}","location":{{"row":1,"column":1}},"message":"x","severity":"error","fix":null}}]"#
        );
        let mut builder = CompletionBuilder::new(&request);
        assert!(matches!(
            normalize(&request, "0.15.2", input.as_bytes(), &mut builder),
            Err(ProviderError::PathEscape(_))
        ));
    }
}

#[test]
fn capability_and_operation_mismatch_are_rejected() {
    let mut mismatch = request();
    mismatch.required_capabilities = vec!["vendor.unknown/v1".to_owned()];
    assert!(matches!(
        validate_request(&mismatch, None),
        Err(ProviderError::Unsupported(_))
    ));

    let mut request_both = request();
    request_both.required_capabilities = vec!["diagnostic.check/v1".to_owned(), "fix.propose/v1".to_owned()];
    request_both.optional_capabilities = vec!["vendor.unknown/v1".to_owned()];
    validate_request(&request_both, None).unwrap();

    let mut fix = request();
    fix.operation = Operation::Fix;
    assert!(matches!(
        validate_request(&fix, None),
        Err(ProviderError::Unsupported(_))
    ));
    assert!(matches!(
        validate_request(&request(), Some("bad limits".to_owned())),
        Err(ProviderError::Request(_))
    ));
}

#[test]
fn unsupported_completion_preserves_the_protocol_terminal_state() {
    let request = request();
    let completion = CompletionBuilder::new(&request)
        .unsupported(0, "required capability is not advertised".to_owned(), None)
        .unwrap();

    assert_eq!(completion.status, ExecutionStatus::Unsupported);
    assert_eq!(completion.tool_exit_code, None);
    assert_eq!(completion.sequence, 0);
}

#[test]
fn fix_events_require_negotiated_fix_propose_capability() {
    let mut request = request();
    request
        .optional_capabilities
        .retain(|capability| capability.as_str() != "fix.propose/v1");
    validate_request(&request, None).unwrap();
    let mut builder = CompletionBuilder::new(&request);
    let normalized = normalize(&request, "0.15.2", FINDINGS, &mut builder).unwrap();

    assert_eq!(normalized.events.len(), 3);
    assert!(normalized
        .events
        .iter()
        .all(|event| matches!(event, ProtocolEvent::Observation(_))));
    let completion = builder.complete(1, 1, None).unwrap();
    assert_eq!(completion.counts.fix_candidates, 0);
    assert_eq!(completion.counts.evidence, 0);
}

/// What Ruff says when it is run, and where its targets stand before and after.
struct Ruff {
    version: &'static [u8],
    stdout: Vec<u8>,
    stderr: Vec<u8>,
    state: ProcessState,
    code: Option<u8>,
    workspace: String,
    before: Vec<Result<String, String>>,
    after: Vec<Result<String, String>>,
    launched: Vec<Vec<String>>,
}

impl Ruff {
    fn says(stdout: &[u8], stderr: &[u8], code: u8) -> Ruff {
        Ruff {
            version: b"ruff 0.15.2\n",
            stdout: stdout.to_vec(),
            stderr: stderr.to_vec(),
            state: ProcessState::Complete,
            code: Some(code),
            workspace: "/repo".to_owned(),
            before: vec![Ok("/repo/src".to_owned())],
            after: vec![Ok("/repo/src".to_owned())],
            launched: Vec::new(),
        }
    }

    fn stopped(stdout: &[u8], stderr: &[u8], reason: IncompleteReason) -> Ruff {
        Ruff {
            state: ProcessState::Incomplete(reason),
            code: None,
            ..Ruff::says(stdout, stderr, 0)
        }
    }
}

fn bounded(bytes: &[u8], limit: usize) -> BoundedOutput {
    let kept = bytes[..bytes.len().min(limit)].to_vec();
    BoundedOutput {
        truncated: kept.len() < bytes.len(),
        observed_bytes: bytes.len() as u64,
        bytes: kept,
    }
}

fn attested(bytes: &[u8], request: &RequestEnvelope) -> Attested {
    let retained = CompletionBuilder::new(request).retained_text(bytes);
    Attested {
        digest: digest(retained.as_bytes()),
        violation: None,
    }
}

fn run_of(stdout: &[u8], stderr: &[u8], state: ProcessState, code: Option<u8>, launch: &Launch, request: &RequestEnvelope) -> Run {
    let stdout = bounded(stdout, launch.limits.max_stdout_bytes);
    let stderr = bounded(stderr, launch.limits.max_stderr_bytes);
    let state = if stdout.truncated {
        ProcessState::Incomplete(IncompleteReason::StdoutLimitExceeded)
    } else {
        state
    };
    Run {
        stdout: attested(&stdout.bytes, request),
        stderr: attested(&stderr.bytes, request),
        outcome: ProcessOutcome {
            exit_code: if state == ProcessState::Complete { code } else { None },
            state,
            stdout,
            stderr,
            duration: Duration::from_millis(1),
            cleanup_duration: Duration::zero(),
        },
    }
}

fn run_ruff_session(request: &RequestEnvelope, ruff: &mut Ruff) -> Result<ProviderSession, ProviderError> {
    let accepted = Accepted::new(request.clone(), None)?;
    let resolved = judge_workspace(
        &request.workspace,
        Ok(WorkspaceFacts {
            root: "/repo".to_owned(),
            workspace: ruff.workspace.clone(),
            is_directory: true,
        }),
    );
    let now = Duration::from_millis(3);
    let (probing, launch) = match accepted.workspace(resolved, &ruff.before, now, None) {
        Step::Over(session) => return session,
        Step::Next(next, launch) => (next, launch),
    };
    assert_eq!(launch.directory, "/repo");
    ruff.launched.push(launch.argv.clone());
    let run = run_of(ruff.version, b"", ProcessState::Complete, Some(0), &launch, request);
    let (checking, launch) = match probing.probed(Ok(run), now, None) {
        Step::Over(session) => return session,
        Step::Next(next, launch) => (next, launch),
    };
    assert_eq!(launch.directory, "/repo");
    ruff.launched.push(launch.argv.clone());
    let run = run_of(&ruff.stdout, &ruff.stderr, ruff.state, ruff.code, &launch, request);
    let parsed = parse(&run.outcome.stdout.bytes, "0.15.2");
    checking.checked(Ok(run), &ruff.after, parsed, &Vec::new(), now, None)
}

const FINDING: &[u8] = br#"[{"code":"F401","filename":"src/a.py","location":{"row":1,"column":1},"end_location":{"row":1,"column":2},"message":"unused","severity":"error","fix":{"applicability":"safe","message":"remove","edits":[{"content":"","location":{"row":1,"column":1},"end_location":{"row":1,"column":2}}]}}]"#;

#[test]
fn nonzero_findings_exit_is_complete_and_cross_field_valid() {
    let request = request();
    let session = run_ruff_session(&request, &mut Ruff::says(FINDING, b"", 1)).unwrap();

    assert_eq!(session.completion.status, ExecutionStatus::Complete);
    assert_eq!(session.completion.tool_exit_code, Some(1));
    assert_eq!(session.completion.counts.observations, 1);
    assert_eq!(session.completion.counts.evidence, 2);
    assert_eq!(session.completion.counts.fix_candidates, 1);
    assert!(candidates(&session.events)
        .iter()
        .any(|candidate| candidate.applicability == Applicability::Safe));
    validate_generated_session(&request, &session, None, None).unwrap();
}

#[test]
fn nested_workspace_targets_are_resolved_from_the_repository_root() {
    let mut request = request();
    request.workspace = "pkg".to_owned();
    request.targets = vec!["pkg/src".to_owned()];
    let mut ruff = Ruff {
        workspace: "/repo/pkg".to_owned(),
        before: vec![Ok("/repo/pkg/src".to_owned())],
        after: vec![Ok("/repo/pkg/src".to_owned())],
        ..Ruff::says(
            br#"[{"code":"F401","filename":"pkg/src/a.py","location":{"row":1,"column":1},"end_location":{"row":1,"column":2},"message":"unused","severity":"error","fix":null}]"#,
            b"",
            1,
        )
    };

    let session = run_ruff_session(&request, &mut ruff).unwrap();

    assert_eq!(ruff.launched[1][4], "pkg/src");
    assert_eq!(session.completion.status, ExecutionStatus::Complete);
    assert!(observations(&session.events).iter().any(|observation| {
        observation
            .location
            .as_ref()
            .is_some_and(|location| location.path == "pkg/src/a.py")
    }));
    validate_generated_session(&request, &session, None, None).unwrap();
}

#[test]
fn nested_workspace_rejects_sibling_and_symlink_targets_before_ruff() {
    for target in ["sibling", "pkg/link", "pkg/link/new.py"] {
        let mut request = request();
        request.workspace = "pkg".to_owned();
        request.targets = vec![target.to_owned()];
        let mut ruff = Ruff {
            workspace: "/repo/pkg".to_owned(),
            before: vec![Ok("/repo/sibling".to_owned())],
            ..Ruff::says(b"[]", b"", 0)
        };

        let session = run_ruff_session(&request, &mut ruff).unwrap();

        assert!(ruff.launched.is_empty());
        assert_eq!(session.completion.status, ExecutionStatus::Incomplete);
        assert!(session
            .completion
            .message
            .as_deref()
            .is_some_and(|message| message.contains("path escapes")));
        assert!(session.events.is_empty());
        validate_generated_session(&request, &session, None, None).unwrap();
    }
}

#[test]
fn nested_workspace_scope_is_revalidated_after_ruff() {
    let mut request = request();
    request.workspace = "pkg".to_owned();
    request.targets = vec!["pkg/src".to_owned()];
    let mut ruff = Ruff {
        workspace: "/repo/pkg".to_owned(),
        before: vec![Ok("/repo/pkg/src".to_owned())],
        after: vec![Ok("/repo/sibling".to_owned())],
        ..Ruff::says(b"[]", b"", 0)
    };

    let session = run_ruff_session(&request, &mut ruff).unwrap();

    assert_eq!(session.completion.status, ExecutionStatus::Incomplete);
    assert!(session
        .completion
        .message
        .as_deref()
        .is_some_and(|message| message.contains("path escapes")));
    validate_generated_session(&request, &session, None, None).unwrap();
}

#[test]
fn root_workspace_preserves_missing_targets_and_rejects_escape_ancestors() {
    let mut request = request();
    request.targets = vec!["missing.py".to_owned()];
    let mut ruff = Ruff {
        before: vec![Ok("/repo".to_owned())],
        after: vec![Ok("/repo".to_owned())],
        ..Ruff::says(b"[]", b"", 0)
    };

    let session = run_ruff_session(&request, &mut ruff).unwrap();
    assert_eq!(ruff.launched[1][4], "missing.py");
    assert_eq!(session.completion.status, ExecutionStatus::Complete);
    validate_generated_session(&request, &session, None, None).unwrap();

    request.targets = vec!["escape/missing.py".to_owned()];
    ruff.before = vec![Ok("/tmp".to_owned())];
    let session = run_ruff_session(&request, &mut ruff).unwrap();
    assert_eq!(session.completion.status, ExecutionStatus::Incomplete);
    assert!(session
        .completion
        .message
        .as_deref()
        .is_some_and(|message| message.contains("path escapes")));
    validate_generated_session(&request, &session, None, None).unwrap();
}

#[test]
fn clean_run_completes_when_caller_allows_no_payload_events() {
    let mut request = request();
    request.limits.max_events = 0;
    let session = run_ruff_session(&request, &mut Ruff::says(b"[]", b"", 0)).unwrap();

    assert!(session.events.is_empty());
    assert_eq!(session.completion.status, ExecutionStatus::Complete);
    assert_eq!(session.completion.sequence, 0);
    validate_generated_session(&request, &session, None, None).unwrap();
}

#[test]
fn tool_error_exit_is_incomplete_and_retains_stderr_evidence() {
    let request = request();
    let session = run_ruff_session(&request, &mut Ruff::says(b"", b"configuration error", 2)).unwrap();

    assert_eq!(session.completion.status, ExecutionStatus::Incomplete);
    assert_eq!(session.completion.tool_exit_code, None);
    assert!(session
        .completion
        .message
        .as_deref()
        .is_some_and(|message| message.contains("Some(2)")));
    assert!(evidence(&session.events)
        .iter()
        .any(|evidence| evidence.source == EvidenceSource::Stderr));
    validate_generated_session(&request, &session, None, None).unwrap();
}

#[test]
fn signal_crash_is_incomplete_without_inventing_an_exit_code() {
    let request = request();
    let mut ruff = Ruff::stopped(b"", b"", IncompleteReason::TerminatedWithoutCode);
    let session = run_ruff_session(&request, &mut ruff).unwrap();

    assert_eq!(session.completion.status, ExecutionStatus::Incomplete);
    assert_eq!(session.completion.tool_exit_code, None);
    assert!(session
        .completion
        .message
        .as_deref()
        .is_some_and(|message| message.contains("TerminatedWithoutCode")));
    validate_generated_session(&request, &session, None, None).unwrap();
}

#[test]
fn malformed_version_is_text_evidence_not_json() {
    let request = request();
    let mut ruff = Ruff {
        version: b"not-ruff\n",
        ..Ruff::says(b"[]", b"", 0)
    };
    let session = run_ruff_session(&request, &mut ruff).unwrap();

    assert_eq!(session.completion.status, ExecutionStatus::Incomplete);
    assert!(evidence(&session.events)
        .iter()
        .any(|evidence| evidence.source == EvidenceSource::Stdout && evidence.media_type == "text/plain"));
    validate_generated_session(&request, &session, None, None).unwrap();
}

#[test]
fn timeout_is_incomplete_and_retains_stderr_evidence() {
    let mut request = request();
    request.limits.timeout_ms = 500;
    let mut ruff = Ruff::stopped(b"", b"started", IncompleteReason::Timeout);
    let session = run_ruff_session(&request, &mut ruff).unwrap();

    assert_eq!(session.completion.status, ExecutionStatus::Incomplete);
    assert_eq!(session.completion.tool_exit_code, None);
    assert!(evidence(&session.events)
        .iter()
        .any(|evidence| evidence.source == EvidenceSource::Stderr));
    validate_generated_session(&request, &session, None, None).unwrap();
}

#[test]
fn stdout_overflow_is_incomplete_with_truncated_evidence() {
    let mut request = request();
    request.limits.max_evidence_bytes = 512;
    request.limits.max_stdout_bytes = 4096;
    let session = run_ruff_session(&request, &mut Ruff::says(&b"xxxxxxxx".repeat(700), b"", 0)).unwrap();

    assert_eq!(session.completion.status, ExecutionStatus::Incomplete);
    assert!(evidence(&session.events)
        .iter()
        .any(|evidence| evidence.source == EvidenceSource::Stdout && evidence.truncated));
    validate_generated_session(&request, &session, None, None).unwrap();
}

#[test]
fn simultaneous_stdout_and_stderr_are_drained_without_deadlock() {
    let mut request = request();
    request.limits.timeout_ms = 5_000;
    request.limits.max_stdout_bytes = 512 * 1024;
    request.limits.max_stderr_bytes = 512 * 1024;
    request.limits.max_evidence_bytes = 256;
    let mut stdout = vec![b' '; 160_000];
    stdout.extend_from_slice(b"[]");
    let session = run_ruff_session(&request, &mut Ruff::says(&stdout, &vec![b'y'; 160_000], 0)).unwrap();

    assert_eq!(session.completion.status, ExecutionStatus::Complete);
    assert!(evidence(&session.events).iter().any(|evidence| {
        evidence.source == EvidenceSource::Stderr && evidence.observed_bytes == 160_000 && evidence.truncated
    }));
    validate_generated_session(&request, &session, None, None).unwrap();
}

#[test]
fn malformed_process_json_is_incomplete_with_stdout_evidence() {
    let request = request();
    let session = run_ruff_session(&request, &mut Ruff::says(b"{", b"", 0)).unwrap();

    assert_eq!(session.completion.status, ExecutionStatus::Incomplete);
    assert_eq!(session.completion.counts.observations, 0);
    assert_eq!(session.completion.counts.evidence, 1);
    validate_generated_session(&request, &session, None, None).unwrap();
}

#[test]
fn binary_emits_manifest_before_reading_then_runs_ruff() {
    let request = request();
    let mut ruff = Ruff::says(FINDING, b"", 1);
    let session = run_ruff_session(&request, &mut ruff).unwrap();
    assert_eq!(ruff.launched[0], ["--version"]);
    assert_eq!(ruff.launched[1], ["check", "--output-format", "json", "--", "src"]);
    let patch = evidence(&session.events)
        .into_iter()
        .find(|evidence| evidence.source == EvidenceSource::Patch)
        .expect("the transcript exposes Ruff patch evidence");
    let patch_json: serde_json::Value = serde_json::from_str(patch.content.as_deref().unwrap()).unwrap();
    assert_eq!(patch_json["filename"], "src/a.py");
    assert_eq!(patch_json["rule_id"], "F401");
    assert!(candidates(&session.events).iter().any(|candidate| {
        candidate.patch_evidence_id == patch.evidence_id && candidate.applicability == Applicability::Safe
    }));
    assert_eq!(session.completion.status, ExecutionStatus::Complete);
    assert_eq!(session.completion.counts.fix_candidates, 1);
    assert_eq!(session.completion.counts.evidence, 2);
}

#[test]
fn binary_emits_unsupported_for_unadvertised_required_capability() {
    let mut request = request();
    request.required_capabilities = vec!["vendor.unknown/v1".to_owned()];
    let error = run_ruff_session(&request, &mut Ruff::says(b"[]", b"", 0)).unwrap_err();
    let session = answer_failure(&request, &error, None).unwrap();
    assert!(session.events.is_empty());
    assert_eq!(session.completion.status, ExecutionStatus::Unsupported);
    assert!(session.completion.tool_exit_code.is_none());
}

#[test]
fn failures_are_answered_with_one_completion() {
    let request = request();
    let error = ProviderError::Workspace("gone".to_owned());
    let session = answer_failure(&request, &error, None).unwrap();
    assert_eq!(session.completion.status, ExecutionStatus::Incomplete);
    assert_eq!(session.completion.message, Some(error.message()));
    let session = incomplete_for_request(&request, &error, None).unwrap();
    assert_eq!(session.completion.status, ExecutionStatus::Incomplete);
    assert!(matches!(
        incomplete_for_request(&request, &error, Some("too long".to_owned())),
        Err(ProviderError::Contract(_))
    ));
    let completion = empty_incomplete(request.request_id.clone(), "broken".to_owned(), None).unwrap();
    assert_eq!(completion.status, ExecutionStatus::Incomplete);
    assert_eq!(completion.sequence, 0);
}

#[test]
fn fixes_that_were_not_negotiated_are_refused() {
    let mut request = request();
    let session = run_ruff_session(&request, &mut Ruff::says(FINDING, b"", 1)).unwrap();
    request.optional_capabilities.clear();
    assert!(matches!(
        validate_generated_session(&request, &session, None, None),
        Err(ProviderError::Contract(_))
    ));
}

#[test]
fn events_have_identifiers_of_their_own() {
    let request = request();
    let session = run_ruff_session(&request, &mut Ruff::says(FINDINGS, b"note", 1)).unwrap();
    let mut ids = vec![request.request_id.clone()];
    ids.extend(observations(&session.events).iter().map(|item| item.observation_id.clone()));
    ids.extend(evidence(&session.events).iter().map(|item| item.evidence_id.clone()));
    ids.extend(candidates(&session.events).iter().map(|item| item.fix_candidate_id.clone()));
    let count = ids.len();
    ids.sort();
    ids.dedup();
    assert_eq!(ids.len(), count);
    assert_eq!(count, session.events.len() + 1);
}

#[test]
fn too_many_events_leave_nothing_behind() {
    let mut request = request();
    request.limits.max_events = 2;
    let mut builder = CompletionBuilder::new(&request);
    assert!(matches!(
        normalize(&request, "0.15.2", FINDINGS, &mut builder),
        Err(ProviderError::EventLimit)
    ));
    let completion = builder.complete(0, 1, None).unwrap();
    assert_eq!(completion.sequence, 0);
}

#[test]
fn a_fix_over_the_evidence_limit_is_refused() {
    let mut request = request();
    request.limits.max_evidence_bytes = 10;
    let mut builder = CompletionBuilder::new(&request);
    assert!(matches!(
        normalize(&request, "0.15.2", FINDING, &mut builder),
        Err(ProviderError::FixEvidenceLimit { limit: 10, observed }) if observed > 10
    ));
}

#[test]
fn workspaces_and_targets_are_judged() {
    let facts = |workspace: &str, is_directory: bool| {
        Ok(WorkspaceFacts {
            root: "/repo".to_owned(),
            workspace: workspace.to_owned(),
            is_directory,
        })
    };
    assert_eq!(
        judge_workspace("pkg", facts("/repo/pkg", true)).unwrap(),
        Roots {
            root: "/repo".to_owned(),
            workspace: "/repo/pkg".to_owned()
        }
    );
    assert!(matches!(
        judge_workspace("pkg", facts("/outside", true)),
        Err(ProviderError::Workspace(_))
    ));
    assert!(judge_workspace("pkg", facts("/repo/file", false)).is_err());
    assert!(judge_workspace("pkg", Err("gone".to_owned())).is_err());
    let targets = vec!["a".to_owned()];
    assert!(validate_targets(&targets, &vec![Ok("/repo/a".to_owned())], "/repo").is_ok());
    assert!(matches!(
        validate_targets(&targets, &vec![Ok("/repository/a".to_owned())], "/repo"),
        Err(ProviderError::PathEscape(_))
    ));
    assert!(validate_targets(&targets, &vec![Err("denied".to_owned())], "/repo").is_err());
}

#[test]
fn versions_and_budgets_are_read() {
    assert_eq!(parse_ruff_version(b"ruff 0.15.2\n").unwrap(), "0.15.2");
    assert!(parse_ruff_version(b"ruff\n").is_err());
    let invalid = std::str::from_utf8(b"\xff\xfe").unwrap_err();
    assert_eq!(
        parse_ruff_version(b"\xff\xfe").unwrap_err().message(),
        format!("Ruff process failed: Ruff version is not UTF-8: {invalid}")
    );
    let limits = request().limits;
    let left = remaining_process_limits(&limits, 1024, 64 * 1024, Duration::from_millis(4_000))
        .unwrap()
        .unwrap();
    assert_eq!(left.timeout, Duration::from_millis(6_000));
    assert_eq!(left.max_stdout_bytes, 63 * 1024);
    assert_eq!(left.max_stderr_bytes, 0);
    assert!(remaining_process_limits(&limits, 0, 0, Duration::from_millis(10_000))
        .unwrap()
        .is_none());
}

#[test]
fn ruff_words_are_read() {
    assert_eq!(normalize_severity("warning"), Some(Severity::Warning));
    assert_eq!(normalize_severity("error"), Some(Severity::Error));
    assert_eq!(normalize_severity("fatal"), None);
    let edit = |start: (u32, u32), end: (u32, u32)| RuffEditView {
        content: Some("x".to_owned()),
        location: Some(RuffPosition {
            row: start.0,
            column: start.1,
        }),
        end_location: Some(RuffPosition {
            row: end.0,
            column: end.1,
        }),
    };
    assert!(fix_edits_are_complete_and_non_overlapping(&Some(vec![
        edit((1, 5), (1, 6)),
        edit((1, 1), (1, 5))
    ])));
    assert!(!fix_edits_are_complete_and_non_overlapping(&None));
    assert_eq!(
        candidate_applicability(&RuffFixView {
            applicability: Some("safe".to_owned()),
            edits: Some(vec![edit((1, 2), (1, 1))]),
        }),
        Applicability::Manual
    );
    assert_eq!(
        patch_content("0.1", "a.py", &None, "{\"edits\":[]}"),
        "{\"version\":\"0.1\",\"filename\":\"a.py\",\"rule_id\":null,\"fix\":{\"edits\":[]}}"
    );
}

#[test]
fn requests_are_one_line() {
    assert_eq!(request_line(b"{}\n", 10).unwrap(), b"{}");
    assert!(request_line(b"{}\n{}\n", 10).is_err());
    assert!(matches!(
        request_line(b"{}\n", 1),
        Err(ProviderError::InputLimit { limit: 1 })
    ));
}
