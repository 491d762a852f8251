use diagnostic_triage::config::runtime::{EngineConfig, WaivedAction};
use diagnostic_triage::model::{
    AdapterKind, Cache, Decision, DecisionAction, Evidence, EvidenceSource, Execution, ExecutionPhases, ExecutionStatus,
    Finding, FixCandidate, Applicability, Location, Observation, Performance, PerformanceStatus, PhaseDuration, Position,
    Retry, Runner, SessionReport, Severity, Taxonomy, Tool, ToolchainFingerprint, Verdict, VerificationAttribution,
    Waiver,
};
use diagnostic_triage::reporters::annotations::{
    annotation_level, annotation_of, encode_github_annotations, github_annotations_bytes, GitHubAnnotationReporter,
};
use diagnostic_triage::reporters::draft::{
    bug_issue_draft_json_bytes, encode_draft, measure_project_report, measure_report, BugIssueDraftJsonReporter,
    BugIssueDraftV1,
};
use diagnostic_triage::reporters::markdown::{
    bug_issue_draft_markdown_bytes, encode_markdown, BugIssueDraftMarkdownReporter, MARKDOWN_HEADER,
};
use diagnostic_triage::reporters::records::{BUG_ISSUE_DRAFT_SCHEMA_VERSION, BUG_ISSUE_LABEL};
use diagnostic_triage::reporters::tsv::{encode_tsv, tsv_bytes, TsvReporter, TSV_HEADER};
use diagnostic_triage::reporters::{
    canonical_json_bytes, encode_json, CanonicalJsonReporter, ReportFormat, Reporter, ReporterError,
    ValidatedSessionReport,
};
use std::io::{self, Write};

const MAX: usize = 16 * 1024 * 1024;

fn id(suffix: u32) -> String {
    format!("019f7e95-0000-7000-8000-{suffix:012x}")
}

fn tool(rule_id: Option<&str>) -> Tool {
    Tool {
        name: "ruff".to_owned(),
        version: "0.15.2".to_owned(),
        rule_id: rule_id.map(str::to_owned),
    }
}

fn location() -> Location {
    Location {
        path: "src/app.py".to_owned(),
        start: Position { line: 3, column: 5 },
        end: Some(Position { line: 3, column: 12 }),
    }
}

fn execution() -> Execution {
    Execution {
        schema_version: "diagnostic-triage.execution/v1".to_owned(),
        execution_id: id(0x103),
        adapter_id: "python".to_owned(),
        adapter_kind: AdapterKind::Provider,
        tool: tool(None),
        toolchain_fingerprint: ToolchainFingerprint::Unavailable,
        required: true,
        status: ExecutionStatus::Complete,
        exit_code: Some(1),
        message: None,
        phases_ms: ExecutionPhases {
            queue: PhaseDuration::Milliseconds(1),
            setup: PhaseDuration::Milliseconds(2),
            run: PhaseDuration::Milliseconds(3),
            normalize: PhaseDuration::Unavailable,
            total: PhaseDuration::Milliseconds(6),
        },
        performance: Performance {
            status: PerformanceStatus::WithinBudget,
            budget_ms: 120_000,
        },
        cache: Cache {
            status: "UNAVAILABLE".to_owned(),
            restore_ms: None,
            save_ms: None,
        },
        retry: Retry {
            status: "UNAVAILABLE".to_owned(),
            attempt: None,
            same_revision: None,
            group_id: None,
        },
        runner: Runner {
            status: "UNAVAILABLE".to_owned(),
            os: None,
            arch: None,
            image: None,
            fingerprint: None,
        },
        verification: None,
    }
}

fn evidence(suffix: u32) -> Evidence {
    Evidence {
        schema_version: "diagnostic-triage.evidence/v1".to_owned(),
        evidence_id: id(suffix),
        execution_id: Some(id(0x103)),
        source: EvidenceSource::Stdout,
        media_type: "application/json".to_owned(),
        retained_bytes: 2,
        observed_bytes: 2,
        limit_bytes: 1024,
        truncated: false,
        sha256: "d".repeat(64),
        relative_path: None,
        content: Some("[]".to_owned()),
    }
}

fn valid() -> SessionReport {
    SessionReport {
        schema_version: "diagnostic-triage.session-report/v1".to_owned(),
        session_id: id(0x100),
        engine: EngineConfig {
            version: "0.1.0".to_owned(),
            source_revision: "0".repeat(40),
        },
        contract_sha256: "b".repeat(64),
        policy_digest: "c".repeat(64),
        verdict: Verdict::PolicyFail,
        observations: vec![Observation {
            schema_version: "diagnostic-triage.observation/v1".to_owned(),
            observation_id: id(0x101),
            tool: tool(Some("F821")),
            language: "python".to_owned(),
            severity: Severity::Error,
            origin: "NORMAL".to_owned(),
            message: "Undefined name `missing`".to_owned(),
            location: Some(location()),
            symbol: Some("missing".to_owned()),
            expected: None,
            observed: None,
            evidence_ids: vec![id(0x102)],
        }],
        findings: vec![Finding {
            schema_version: "diagnostic-triage.finding/v1".to_owned(),
            finding_id: id(0x104),
            fingerprint: format!("dtfp1:{}", "e".repeat(64)),
            observation_ids: vec![id(0x101)],
            tool: tool(Some("F821")),
            language: "python".to_owned(),
            severity: Severity::Error,
            classification: Taxonomy {
                category: "Type".to_owned(),
                micro_category: "UnresolvedSymbol".to_owned(),
            },
            message: "Undefined name `missing`".to_owned(),
            location: Some(location()),
            symbol: Some("missing".to_owned()),
            expected: None,
            observed: None,
            state: "REPORTED".to_owned(),
            pre_report_state: Some("CLASSIFIED".to_owned()),
            evidence_ids: vec![id(0x102)],
            fix_candidate_id: None,
            verification_execution_ids: None,
        }],
        decisions: vec![Decision {
            schema_version: "diagnostic-triage.decision/v1".to_owned(),
            decision_id: id(0x105),
            finding_id: id(0x104),
            action: DecisionAction::Block,
            evaluated_at: "2026-07-20T00:00:00Z".to_owned(),
            policy_digest: "c".repeat(64),
            matched_rule_id: "block-unresolved".to_owned(),
            waiver: None,
        }],
        evidence: vec![evidence(0x102)],
        fix_candidates: Vec::new(),
        executions: vec![execution()],
    }
}

fn unsupported() -> SessionReport {
    let mut report = valid();
    report.verdict = Verdict::Unsupported;
    report.observations.clear();
    report.findings.clear();
    report.decisions.clear();
    report.evidence.clear();
    report.executions[0].status = ExecutionStatus::Unsupported;
    report.executions[0].exit_code = None;
    report.executions[0].message = Some("no such capability".to_owned());
    report
}

fn verified() -> SessionReport {
    let mut report = valid();
    let mut patch = evidence(0x106);
    patch.source = EvidenceSource::Patch;
    patch.media_type = "text/x-diff".to_owned();
    patch.content = Some("--- a/src/app.py\n+++ b/src/app.py\n".to_owned());
    let mut snapshot = evidence(0x107);
    snapshot.source = EvidenceSource::Other("SNAPSHOT".to_owned());
    snapshot.content = Some("{\"tree_sha256\":\"f\"}".to_owned());
    report.evidence.push(patch);
    report.evidence.push(snapshot);
    report.fix_candidates = vec![FixCandidate {
        schema_version: "diagnostic-triage.fix-candidate/v1".to_owned(),
        fix_candidate_id: id(0x108),
        observation_ids: vec![id(0x101)],
        applicability: Applicability::Safe,
        tool_native: true,
        patch_evidence_id: id(0x106),
    }];
    report.executions[0].verification = Some(VerificationAttribution {
        fix_candidate_id: id(0x108),
        patch_sha256: "1".repeat(64),
        base_snapshot_sha256: "2".repeat(64),
        base_snapshot_evidence_id: id(0x107),
        target_fingerprints: vec![format!("dtfp1:{}", "e".repeat(64))],
        result_evidence_id: id(0x102),
    });
    report
}

fn validated(report: SessionReport) -> ValidatedSessionReport {
    ValidatedSessionReport::new(report, MAX, None).unwrap()
}

fn project(report: SessionReport) -> BugIssueDraftV1 {
    BugIssueDraftV1::project(&validated(report)).unwrap()
}

fn text(bytes: Vec<u8>) -> String {
    String::from_utf8(bytes).unwrap()
}

#[test]
fn bounded_json_encoding_stops_at_the_limit_with_a_typed_error() {
    let error = encode_json(&valid(), 8).unwrap_err();
    assert!(matches!(
        error,
        ReporterError::OutputTooLarge {
            format: ReportFormat::Json,
            max: 8
        }
    ));
}

#[test]
fn tsv_header_is_not_csv_named() {
    assert!(TSV_HEADER.contains('\t'));
    assert!(!TSV_HEADER.contains(','));
    assert!(serde_json::to_string(TSV_HEADER).unwrap().contains("\\t"));
}

#[test]
fn bounded_tsv_encoding_rejects_overflow() {
    let error = encode_tsv(&valid(), TSV_HEADER.len()).unwrap_err();
    assert!(matches!(
        error,
        ReporterError::OutputTooLarge {
            format: ReportFormat::Tsv,
            max
        } if max == TSV_HEADER.len()
    ));
}

#[test]
fn bounded_tsv_encoding_accepts_the_exact_escape_heavy_boundary() {
    let mut report = valid();
    report.findings[0].message = "slash\\tab\tline\nreturn\rnull\0control\x1fdel\x7f".to_owned();

    let expected = encode_tsv(&report, usize::MAX).unwrap();
    assert_eq!(encode_tsv(&report, expected.len()).unwrap(), expected);
    assert!(matches!(
        encode_tsv(&report, expected.len() - 1),
        Err(ReporterError::OutputTooLarge {
            format: ReportFormat::Tsv,
            max
        }) if max == expected.len() - 1
    ));
    assert!(text(expected).contains("slash\\\\tab\\tline\\nreturn\\rnull\\x00control\\x1fdel\\x7f"));
}

#[test]
fn policy_actions_map_to_annotation_levels() {
    for (action, level) in [
        (DecisionAction::Block, "error"),
        (DecisionAction::Warn, "warning"),
        (DecisionAction::Observe, "notice"),
        (DecisionAction::Waive, "notice"),
    ] {
        assert_eq!(annotation_level(&action), level);
    }
}

#[test]
fn bounded_encoding_is_all_or_nothing_at_the_exact_limit() {
    let report = valid();
    let expected = encode_github_annotations(&report, usize::MAX).unwrap();

    assert_eq!(encode_github_annotations(&report, expected.len()).unwrap(), expected);
    assert!(matches!(
        encode_github_annotations(&report, expected.len() - 1),
        Err(ReporterError::OutputTooLarge {
            format: ReportFormat::GitHubAnnotations,
            max
        }) if max == expected.len() - 1
    ));
}

#[test]
fn projects_all_verdicts_and_omits_unlisted_material() {
    let mut pass = valid();
    pass.decisions[0].action = DecisionAction::Waive;
    pass.decisions[0].waiver = Some(Waiver {
        fingerprint: pass.findings[0].fingerprint.clone(),
        waived_action: WaivedAction::Block,
        reason: "token=hidden".into(),
        owner: "maintainers".into(),
        expires_at: "2026-08-20T00:00:00Z".into(),
    });
    pass.verdict = Verdict::Pass;
    let mut incomplete = unsupported();
    incomplete.executions[0].status = ExecutionStatus::Incomplete;
    incomplete.verdict = Verdict::Incomplete;
    assert_eq!(project(valid()).verdict, Verdict::PolicyFail);
    assert_eq!(project(incomplete).verdict, Verdict::Incomplete);
    assert_eq!(project(unsupported()).verdict, Verdict::Unsupported);
    pass.observations[0].location = None;
    pass.findings[0].location = None;
    pass.observations[0].expected = Some("token=hidden".into());
    pass.findings[0].expected = pass.observations[0].expected.clone();
    pass.observations[0].observed = Some("observed".into());
    pass.findings[0].observed = pass.observations[0].observed.clone();
    let session_id = pass.session_id.clone();
    let evidence_sha256 = pass.evidence[0].sha256.clone();
    let draft = project(pass);
    let debug = format!("{draft:?}");
    assert_eq!(draft.session_id, session_id);
    assert_eq!(draft.verdict, Verdict::Pass);
    assert!(draft.findings[0].location.is_none());
    let finding = &draft.findings[0];
    let expected = finding.expected.as_ref().unwrap().as_str();
    assert_eq!(expected, "token=[REDACTED_SECRET]");
    assert_eq!(finding.observed.as_ref().unwrap().as_str(), "observed");
    assert_eq!(finding.tool.rule_id.as_ref().unwrap().as_str(), "F821");
    assert_eq!(draft.evidence[0].sha256, evidence_sha256);
    let waiver = draft.decisions[0].waiver.as_ref().unwrap();
    assert_eq!(waiver.reason.as_str(), "token=[REDACTED_SECRET]");
    assert_eq!(draft.executions[0].status, ExecutionStatus::Complete);
    assert!(debug.contains("Type") && debug.contains("UnresolvedSymbol"));
    assert!(!debug.contains("content") && !debug.contains("runner"));
    let verified = format!("{:?}", project(verified()));
    assert!(!verified.contains("--- a/") && !verified.contains("tree_sha256"));
}

#[test]
fn multiple_findings_are_permutation_stable() {
    let mut report = valid();
    let mut finding = report.findings[0].clone();
    finding.finding_id = "019f7e95-0000-7000-8000-000000000120".to_owned();
    finding.fingerprint = format!("dtfp1:{}", "a".repeat(64));
    let mut decision = report.decisions[0].clone();
    decision.decision_id = "019f7e95-0000-7000-8000-000000000121".to_owned();
    decision.finding_id = finding.finding_id.clone();
    report.findings.push(finding);
    report.decisions.push(decision);
    let expected = project(report.clone());
    let expected_markdown = bug_issue_draft_markdown_bytes(&validated(report.clone())).unwrap();
    report.findings.reverse();
    report.decisions.reverse();
    assert_eq!(
        bug_issue_draft_markdown_bytes(&validated(report.clone())).unwrap(),
        expected_markdown
    );
    assert_eq!(project(report), expected);
}

struct PrefixWriter(Vec<u8>);

impl Write for PrefixWriter {
    fn write(&mut self, bytes: &[u8]) -> io::Result<usize> {
        if self.0.is_empty() {
            self.0.push(bytes[0]);
            Ok(1)
        } else {
            Err(io::Error::other("injected writer failure"))
        }
    }

    fn flush(&mut self) -> io::Result<()> {
        Ok(())
    }
}

fn write_with<R: Reporter, W: Write>(
    reporter: &R,
    format: ReportFormat,
    report: SessionReport,
    violation: Option<&str>,
    writer: &mut W,
) -> Result<(), ReporterError> {
    let report = ValidatedSessionReport::new(report, MAX, violation.map(str::to_owned))?;
    let bytes = reporter.report_bytes(&report)?;
    writer.write_all(&bytes).map_err(|error| ReporterError::Io {
        format,
        message: error.to_string(),
    })
}

#[test]
fn json_matches_golden_and_omits_forbidden_material() {
    let bytes = bug_issue_draft_json_bytes(&validated(valid())).unwrap();
    let golden = [
        "{\"schema_version\":\"diagnostic-triage.bug-issue-draft/v1\",\"labels\":[\"bug\"],",
        "\"session_id\":\"019f7e95-0000-7000-8000-000000000100\",",
        &format!("\"contract_sha256\":\"{}\",", "b".repeat(64)),
        &format!("\"policy_digest\":\"{}\",", "c".repeat(64)),
        "\"verdict\":\"POLICY_FAIL\",",
        "\"findings\":[{\"finding_id\":\"019f7e95-0000-7000-8000-000000000104\",",
        &format!("\"fingerprint\":\"dtfp1:{}\",", "e".repeat(64)),
        "\"observation_ids\":[\"019f7e95-0000-7000-8000-000000000101\"],",
        "\"tool\":{\"name\":\"ruff\",\"version\":\"0.15.2\",\"rule_id\":\"F821\"},",
        "\"language\":\"python\",\"severity\":\"ERROR\",",
        "\"taxonomy\":{\"category\":\"Type\",\"micro_category\":\"UnresolvedSymbol\"},",
        "\"message\":\"Undefined name `missing`\",",
        "\"location\":{\"path\":\"src/app.py\",\"start\":{\"line\":3,\"column\":5},\"end\":{\"line\":3,\"column\":12}},",
        "\"symbol\":\"missing\",\"expected\":null,\"observed\":null,",
        "\"evidence_ids\":[\"019f7e95-0000-7000-8000-000000000102\"]}],",
        "\"decisions\":[{\"decision_id\":\"019f7e95-0000-7000-8000-000000000105\",",
        "\"finding_id\":\"019f7e95-0000-7000-8000-000000000104\",\"action\":\"BLOCK\",",
        "\"evaluated_at\":\"2026-07-20T00:00:00Z\",\"matched_rule_id\":\"block-unresolved\",\"waiver\":null}],",
        "\"evidence\":[{\"evidence_id\":\"019f7e95-0000-7000-8000-000000000102\",",
        "\"execution_id\":\"019f7e95-0000-7000-8000-000000000103\",\"source\":\"STDOUT\",",
        &format!("\"sha256\":\"{}\",\"relative_path\":null}}],", "d".repeat(64)),
        "\"executions\":[{\"execution_id\":\"019f7e95-0000-7000-8000-000000000103\",",
        "\"adapter_id\":\"python\",\"adapter_kind\":\"PROVIDER\",",
        "\"tool\":{\"name\":\"ruff\",\"version\":\"0.15.2\",\"rule_id\":null},",
        "\"required\":true,\"status\":\"COMPLETE\",\"exit_code\":1,\"message\":null}]}\n",
    ]
    .concat();
    assert_eq!(text(bytes.clone()), golden);
    let value: serde_json::Value = serde_json::from_slice(&bytes).unwrap();
    assert_eq!(value["schema_version"], BUG_ISSUE_DRAFT_SCHEMA_VERSION);
    assert_eq!(value["labels"], serde_json::Value::from(vec![BUG_ISSUE_LABEL]));
    let text = text(bytes);
    for forbidden in ["\"content\"", "environment", "/Users/", "posting", "api.github"] {
        assert!(!text.contains(forbidden), "leaked {forbidden}");
    }
}

#[test]
fn exact_limit_succeeds_and_one_byte_over_is_typed() {
    let draft = project(valid());
    let bytes = encode_draft(&draft, MAX).unwrap();
    assert_eq!(encode_draft(&draft, bytes.len()).unwrap(), bytes);
    let limit = bytes.len() - 1;
    assert!(
        matches!(encode_draft(&draft, limit), Err(ReporterError::OutputTooLarge { format: ReportFormat::BugIssueDraftJson, max }) if max == limit)
    );
}

#[test]
fn projection_preflight_counts_aggregate_expansion_before_collection() {
    let mut input = valid();
    for suffix in 0x190..=0x191 {
        let mut execution = input.executions[0].clone();
        execution.execution_id = format!("019f7e95-0000-7000-8000-{suffix:012x}");
        execution.message = Some("\0".repeat(64));
        input.executions.push(execution);
    }
    let draft = BugIssueDraftV1::project_unchecked(&input, MAX).unwrap();
    let exact = encode_draft(&draft, MAX).unwrap().len();
    assert_eq!(
        measure_project_report(&input, MAX, exact, ReportFormat::BugIssueDraftJson).unwrap(),
        exact
    );
    let mut prefix = input.clone();
    prefix.executions.truncate(2);
    let second_execution_end =
        measure_project_report(&prefix, MAX, usize::MAX, ReportFormat::BugIssueDraftJson).unwrap();
    assert!(matches!(
        measure_project_report(&input, MAX, second_execution_end - 1, ReportFormat::BugIssueDraftJson),
        Err(ReporterError::OutputTooLarge { format: ReportFormat::BugIssueDraftJson, max }) if max == second_execution_end - 1
    ));
    let measured = measure_report(&input, MAX, second_execution_end - 1);
    assert_eq!(measured.bytes, None);
    assert_eq!(measured.executions, 2);
}

#[test]
fn bytes_are_stable_when_evidence_order_changes() {
    let mut report = verified();
    let expected = bug_issue_draft_json_bytes(&validated(report.clone())).unwrap();
    report.evidence.reverse();
    assert_eq!(bug_issue_draft_json_bytes(&validated(report)).unwrap(), expected);
}

#[test]
fn invalid_input_writes_nothing_and_writer_failure_keeps_prefix() {
    let mut invalid = valid();
    invalid.decisions.clear();
    let mut output = Vec::new();
    assert!(matches!(
        write_with(
            &BugIssueDraftJsonReporter,
            ReportFormat::BugIssueDraftJson,
            invalid,
            Some("finding has no decision"),
            &mut output
        ),
        Err(ReporterError::Contract(_))
    ));
    assert!(output.is_empty());
    let mut writer = PrefixWriter(Vec::new());
    let error = write_with(
        &BugIssueDraftJsonReporter,
        ReportFormat::BugIssueDraftJson,
        valid(),
        None,
        &mut writer,
    )
    .unwrap_err();
    assert!(matches!(
        error,
        ReporterError::Io {
            format: ReportFormat::BugIssueDraftJson,
            ..
        }
    ));
    assert_eq!(writer.0.len(), 1);
}

#[test]
fn markdown_matches_golden_and_embeds_the_same_projection() {
    let report = validated(valid());
    let json = bug_issue_draft_json_bytes(&report).unwrap();
    let markdown = bug_issue_draft_markdown_bytes(&report).unwrap();
    let golden = [
        "# Diagnostic Triage bug issue draft\n\n> Draft only: no issue was posted.\n\n## Typed projection\n\n    ",
        &text(json.clone()),
    ]
    .concat();
    assert_eq!(text(markdown.clone()), golden);
    assert_eq!(&markdown[MARKDOWN_HEADER.len() + 4..], json);
    assert!(MARKDOWN_HEADER.as_bytes().windows(19).any(|part| part == b"no issue was posted"));
}

#[test]
fn markdown_isolates_unicode_control_secret_path_and_delimiters() {
    let mut report = valid();
    let payload = "日本語 **bold** `code` token=ghp_abcdefghijklmnopqrst /Users/st\n\u{202e}";
    report.observations[0].message = payload.into();
    report.findings[0].message = payload.into();
    report.observations[0].location = None;
    report.findings[0].location = None;
    let markdown = text(bug_issue_draft_markdown_bytes(&validated(report)).unwrap());
    for expected in [
        "日本語",
        "[REDACTED_SECRET]",
        "[REDACTED_PATH]",
        "[CONTROL-U+000A]",
        "[BIDI-U+202E]",
        "\"location\":null",
    ] {
        assert!(markdown.contains(expected), "missing {expected}");
    }
    assert!(!markdown.contains("ghp_abcdefghijklmnopqrst") && !markdown.contains("/Users/st"));
    assert!(markdown[MARKDOWN_HEADER.len()..].lines().all(|line| line.starts_with("    ")));
}

#[test]
fn markdown_represents_every_verdict_without_inference() {
    let mut pass = valid();
    pass.decisions[0].action = DecisionAction::Warn;
    pass.verdict = Verdict::Pass;
    let mut incomplete = unsupported();
    incomplete.executions[0].status = ExecutionStatus::Incomplete;
    incomplete.verdict = Verdict::Incomplete;
    for (report, verdict) in [
        (pass, "PASS"),
        (valid(), "POLICY_FAIL"),
        (incomplete, "INCOMPLETE"),
        (unsupported(), "UNSUPPORTED"),
    ] {
        let markdown = text(bug_issue_draft_markdown_bytes(&validated(report)).unwrap());
        assert!(markdown.contains(&format!("\"verdict\":\"{verdict}\"")));
    }
}

#[test]
fn markdown_limit_and_writer_boundaries_are_typed() {
    let json = bug_issue_draft_json_bytes(&validated(valid())).unwrap();
    let bytes = encode_markdown(&json, MAX).unwrap();
    assert_eq!(encode_markdown(&json, bytes.len()).unwrap(), bytes);
    let limit = bytes.len() - 1;
    assert!(
        matches!(encode_markdown(&json, limit), Err(ReporterError::OutputTooLarge { format: ReportFormat::BugIssueDraftMarkdown, max }) if max == limit)
    );
    let mut invalid = valid();
    invalid.decisions.clear();
    let mut output = Vec::new();
    assert!(matches!(
        write_with(
            &BugIssueDraftMarkdownReporter,
            ReportFormat::BugIssueDraftMarkdown,
            invalid,
            Some("finding has no decision"),
            &mut output
        ),
        Err(ReporterError::Contract(_))
    ));
    assert!(output.is_empty());
    let mut writer = PrefixWriter(Vec::new());
    let error = write_with(
        &BugIssueDraftMarkdownReporter,
        ReportFormat::BugIssueDraftMarkdown,
        valid(),
        None,
        &mut writer,
    )
    .unwrap_err();
    assert!(matches!(
        error,
        ReporterError::Io {
            format: ReportFormat::BugIssueDraftMarkdown,
            ..
        }
    ));
    assert_eq!(writer.0.len(), 1);
}

#[test]
fn canonical_json_is_parsed_back_and_ignores_record_order() {
    let mut report = verified();
    let bytes = canonical_json_bytes(&validated(report.clone())).unwrap();
    let value: serde_json::Value = serde_json::from_slice(&bytes).unwrap();
    assert_eq!(value["session_id"], report.session_id.as_str());
    assert_eq!(value["findings"][0]["message"], "Undefined name `missing`");
    assert_eq!(value["executions"][0]["phases_ms"]["normalize"], "UNAVAILABLE");
    report.evidence.reverse();
    let shuffled = validated(report);
    assert_eq!(canonical_json_bytes(&shuffled).unwrap(), bytes);
    assert_eq!(CanonicalJsonReporter.report_bytes(&shuffled).unwrap(), bytes);
}

#[test]
fn quotes_and_controls_are_escaped_in_canonical_json() {
    let mut report = valid();
    report.findings[0].message = "say \"hi\"\n\u{1}".to_owned();
    let rendered = text(encode_json(&report, MAX).unwrap());
    assert!(rendered.contains("\"message\":\"say \\\"hi\\\"\\n\\u0001\""));
}

#[test]
fn tsv_rows_follow_the_header() {
    let report = valid();
    let rendered = text(tsv_bytes(&validated(report.clone())).unwrap());
    let lines: Vec<&str> = rendered.lines().collect();
    assert_eq!(lines.len(), 2);
    assert_eq!(lines[0], TSV_HEADER);
    let header: Vec<&str> = lines[0].split('\t').collect();
    let row: Vec<&str> = lines[1].split('\t').collect();
    assert_eq!(row.len(), header.len());
    assert_eq!(row[0], report.session_id);
    assert_eq!(row[10], "Undefined name `missing`");
    assert_eq!(row[11..16], ["src/app.py", "3", "5", "3", "12"]);
    assert_eq!(row[20], "BLOCK");
    assert_eq!(row[24], "POLICY_FAIL");
    assert_eq!(text(TsvReporter.report_bytes(&validated(report)).unwrap()), rendered);
}

#[test]
fn tsv_cells_never_start_a_formula() {
    for (message, cell) in [
        ("=SUM(A1)", "\\x3dSUM(A1)"),
        ("+1", "\\x2b1"),
        ("-1", "\\x2d1"),
        ("@cmd", "\\x40cmd"),
        ("a=b", "a=b"),
    ] {
        let mut report = valid();
        report.findings[0].message = message.to_owned();
        let rendered = text(encode_tsv(&report, MAX).unwrap());
        let row: Vec<&str> = rendered.lines().nth(1).unwrap().split('\t').collect();
        assert_eq!(row[10], cell);
    }
}

#[test]
fn a_finding_without_a_decision_is_refused() {
    let mut report = valid();
    report.decisions.clear();
    let missing = ReporterError::MissingDecision { finding_id: id(0x104) };
    assert_eq!(encode_tsv(&report, MAX).unwrap_err(), missing);
    assert_eq!(encode_github_annotations(&report, MAX).unwrap_err(), missing);
}

#[test]
fn annotations_stay_on_one_line_each() {
    let mut report = valid();
    report.findings[0].message = "100% wrong\r\n::error::forged".to_owned();
    let rendered = text(github_annotations_bytes(&validated(report.clone())).unwrap());
    assert_eq!(rendered.lines().count(), 1);
    assert!(rendered.contains("100%25 wrong%0D%0A::error::forged"));
    assert_eq!(
        text(GitHubAnnotationReporter.report_bytes(&validated(report)).unwrap()),
        rendered
    );
    let finding = &valid().findings[0];
    let line: String = annotation_of(finding, &DecisionAction::Warn).iter().collect();
    assert!(line.starts_with("::warning "));
    assert!(line.contains("file=src/app.py"));
}

#[test]
fn a_report_without_findings_has_no_annotations() {
    assert_eq!(encode_github_annotations(&unsupported(), MAX).unwrap(), Vec::<u8>::new());
}

#[test]
fn a_report_keeps_its_content_and_limit() {
    let report = ValidatedSessionReport::from_json(Ok(valid()), 99).unwrap();
    assert_eq!(report.as_report(), &valid());
    assert_eq!(report.max_output_bytes(), 99);
    assert_eq!(report.into_report(), valid());
    assert_eq!(
        ValidatedSessionReport::from_json(Err("not JSON".to_owned()), 99).unwrap_err(),
        ReporterError::Contract("not JSON".to_owned())
    );
}

#[test]
fn a_draft_hides_evidence_content_and_the_machine() {
    let expected = bug_issue_draft_json_bytes(&validated(verified())).unwrap();
    let mut report = verified();
    report.evidence[0].content = Some("something else".to_owned());
    report.observations[0].message = "something else".to_owned();
    report.executions[0].runner.os = Some("plan9".to_owned());
    assert_eq!(bug_issue_draft_json_bytes(&validated(report)).unwrap(), expected);
}

fn two_findings() -> SessionReport {
    let mut report = valid();
    let mut finding = report.findings[0].clone();
    finding.finding_id = id(0x114);
    finding.fingerprint = format!("dtfp1:{}", "f".repeat(64));
    finding.message = "Another".to_owned();
    let mut decision = report.decisions[0].clone();
    decision.decision_id = id(0x115);
    decision.finding_id = id(0x114);
    decision.action = DecisionAction::Warn;
    report.findings.push(finding);
    report.decisions.push(decision);
    report
}

#[test]
fn rows_and_annotations_ignore_the_order_of_findings() {
    let report = two_findings();
    let rows = encode_tsv(&report, MAX).unwrap();
    let annotations = encode_github_annotations(&report, MAX).unwrap();
    assert_eq!(text(rows.clone()).lines().count(), 3);
    assert!(text(rows.clone()).lines().all(|line| line.split('\t').count() == 25));
    assert_eq!(text(annotations.clone()).lines().count(), 2);
    let mut shuffled = report;
    shuffled.findings.reverse();
    shuffled.decisions.reverse();
    shuffled.executions.clear();
    shuffled.evidence.clear();
    assert_eq!(encode_tsv(&shuffled, MAX).unwrap(), rows);
    assert_eq!(encode_github_annotations(&shuffled, MAX).unwrap(), annotations);
    shuffled.verdict = Verdict::Pass;
    assert_eq!(encode_github_annotations(&shuffled, MAX).unwrap(), annotations);
    assert_ne!(encode_tsv(&shuffled, MAX).unwrap(), rows);
}

#[test]
fn identifiers_inside_records_have_no_order_of_their_own() {
    let mut report = verified();
    report.observations[0].evidence_ids = vec![id(0x102), id(0x106)];
    report.findings[0].evidence_ids = vec![id(0x102), id(0x106), id(0x102)];
    report.findings[0].verification_execution_ids = Some(vec![id(0x103), id(0x113)]);
    report.fix_candidates[0].observation_ids = vec![id(0x101), id(0x111)];
    let targets = vec![format!("dtfp1:{}", "e".repeat(64)), format!("dtfp1:{}", "f".repeat(64))];
    report.executions[0].verification.as_mut().unwrap().target_fingerprints = targets;
    let json = canonical_json_bytes(&validated(report.clone())).unwrap();
    let draft = bug_issue_draft_json_bytes(&validated(report.clone())).unwrap();

    let mut shuffled = report;
    shuffled.observations[0].evidence_ids.reverse();
    shuffled.findings[0].evidence_ids = vec![id(0x106), id(0x102), id(0x102)];
    shuffled.findings[0].verification_execution_ids.as_mut().unwrap().reverse();
    shuffled.fix_candidates[0].observation_ids.reverse();
    shuffled.executions[0].verification.as_mut().unwrap().target_fingerprints.reverse();
    shuffled.evidence.reverse();
    assert_eq!(canonical_json_bytes(&validated(shuffled.clone())).unwrap(), json);
    assert_eq!(bug_issue_draft_json_bytes(&validated(shuffled)).unwrap(), draft);
}
