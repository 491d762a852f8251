//! Bug issue drafts, as Markdown.
use super::{delivers, utf8_bytes, ReportFault, ReportFormat, Reporter, ReporterError, ValidatedSessionReport};
use super::draft::{
    all_fit, bug_issue_draft_json_bytes, draft_line, draft_object, draft_text, drafted_jsons, drafted_list, Record,
};
use super::records::{
    BugDecision, BugEvidenceRef, BugExecution, BugFinding, BugLocation, BugTaxonomy, BugTool, BugWaiver,
    BUG_ISSUE_DRAFT_SCHEMA_VERSION, BUG_ISSUE_LABEL,
};
use crate::json::{
    json_bool, json_escape, json_escaped, json_items, json_list, json_member, json_named, json_nullable,
    json_object, json_string, ToJson,
};
use crate::model::SessionReport;
use crate::numeral::{decimal, hex, hex_digit};
use crate::order::arranged;
use crate::text::{chars_of, lemma_utf8_concat};
use vstd::prelude::*;
use vstd::string::*;
use vstd::utf8::*;

verus! {

/// What stands above the projection.
pub const MARKDOWN_HEADER: &'static str = "# Diagnostic Triage bug issue draft\n\n> Draft only: no issue was posted.\n\n## Typed projection\n\n";

/// Four spaces, which make a line literal code.
pub open spec fn indent() -> Seq<u8> {
    seq![32u8, 32u8, 32u8, 32u8]
}

/// The bytes from the `k`-th on, with each line indented; the first of them begins a line where
/// `fresh` says so.
pub open spec fn indented_from(bytes: Seq<u8>, k: int, fresh: bool) -> Seq<u8>
    decreases bytes.len() - k,
{
    if k < 0 || k >= bytes.len() {
        Seq::empty()
    } else {
        (if fresh {
            indent()
        } else {
            Seq::empty()
        }) + seq![bytes[k]] + indented_from(bytes, k + 1, bytes[k] == 10)
    }
}

/// The projection as an indented code block below the header.
pub open spec fn markdown_bytes(json: Seq<u8>) -> Seq<u8> {
    encode_utf8(MARKDOWN_HEADER@) + indented_from(json, 0, true)
}

/// Encodes a JSON projection as Markdown of at most `limit` bytes.
pub fn encode_markdown(json: &[u8], limit: usize) -> (r: Result<Vec<u8>, ReporterError>)
    ensures
        if markdown_bytes(json@).len() <= limit {
            r matches Ok(bytes) && bytes@ == markdown_bytes(json@)
        } else {
            r == Err::<Vec<u8>, ReporterError>(
                ReporterError::OutputTooLarge { format: ReportFormat::BugIssueDraftMarkdown, max: limit },
            )
        },
{
    let too_large: ReporterError = ReporterError::OutputTooLarge {
        format: ReportFormat::BugIssueDraftMarkdown,
        max: limit,
    };
    let header: Vec<char> = chars_of(MARKDOWN_HEADER);
    let mut out: Vec<u8> = utf8_bytes(header.as_slice());
    let ghost whole = markdown_bytes(json@);
    let mut fresh: bool = true;
    let mut k: usize = 0;
    if out.len() > limit {
        return Err(too_large);
    }
    while k < json.len()
        invariant
            k <= json.len(),
            out.len() <= limit,
            whole == markdown_bytes(json@),
            whole == out@ + indented_from(json@, k as int, fresh),
            too_large == (ReporterError::OutputTooLarge {
                format: ReportFormat::BugIssueDraftMarkdown,
                max: limit,
            }),
        decreases json.len() - k,
    {
        let ghost before = out@;
        let room: usize = limit - out.len();
        let wanted: usize = if fresh {
            5
        } else {
            1
        };
        if room < wanted {
            return Err(too_large);
        }
        if fresh {
            out.push(32);
            out.push(32);
            out.push(32);
            out.push(32);
        }
        out.push(json[k]);
        proof {
            let rest = indented_from(json@, k + 1, json@[k as int] == 10);
            assert(out@ + rest =~= before + indented_from(json@, k as int, fresh));
        }
        fresh = json[k] == 10;
        k = k + 1;
    }
    assert(out@ + indented_from(json@, k as int, fresh) =~= out@);
    Ok(out)
}

/// The Markdown of a report's draft: it holds the draft's JSON, and fails as that does.
pub open spec fn draft_markdown(report: SessionReport, max: nat) -> Result<Seq<u8>, ReportFault> {
    match draft_text(report, ReportFormat::BugIssueDraftJson, max, max) {
        Err(fault) => Err(fault),
        Ok(text) => {
            let bytes = markdown_bytes(encode_utf8(text));
            if bytes.len() <= max {
                Ok(bytes)
            } else {
                Err(ReportFault::OutputTooLarge { format: ReportFormat::BugIssueDraftMarkdown, max })
            }
        },
    }
}

/// Encodes the draft of a validated report as bounded Markdown.
pub fn bug_issue_draft_markdown_bytes(report: &ValidatedSessionReport) -> (r: Result<Vec<u8>, ReporterError>)
    ensures
        delivers(r, draft_markdown(report.content(), report.limit())),
{
    match bug_issue_draft_json_bytes(report) {
        Err(error) => Err(error),
        Ok(json) => encode_markdown(json.as_slice(), report.max_output_bytes()),
    }
}

/// The Markdown reporter of bug issue drafts.
#[derive(Clone, Copy, Debug, Default)]
pub struct BugIssueDraftMarkdownReporter;

impl Reporter for BugIssueDraftMarkdownReporter {
    open spec fn rendering(&self, report: SessionReport, max: nat) -> Result<Seq<u8>, ReportFault> {
        draft_markdown(report, max)
    }

    fn report_bytes(&self, report: &ValidatedSessionReport) -> (r: Result<Vec<u8>, ReporterError>) {
        bug_issue_draft_markdown_bytes(report)
    }
}

/// No character is a control character below U+0020.
pub open spec fn printable(s: Seq<char>) -> bool {
    forall|i: int| 0 <= i < s.len() ==> (#[trigger] s[i]) as u32 >= 32
}

proof fn lemma_printable_add(a: Seq<char>, b: Seq<char>)
    requires
        printable(a),
        printable(b),
    ensures
        printable(a + b),
{
    assert forall|i: int| 0 <= i < (a + b).len() implies (#[trigger] (a + b)[i]) as u32 >= 32 by {
        if i < a.len() {
            assert((a + b)[i] == a[i]);
        } else {
            assert((a + b)[i] == b[i - a.len()]);
        }
    }
}

proof fn lemma_printable_escape(c: char)
    ensures
        printable(json_escape(c)),
{
    if (c as u32) < 32 {
        reveal_with_fuel(hex, 3);
        let n = c as nat;
        let digits = hex(n, 2, false);
        assert(digits =~= seq![hex_digit(n / 16, false), hex_digit(n % 16, false)]);
        assert(printable(digits));
        lemma_printable_add(seq!['\\', 'u', '0', '0'], digits);
    }
}

proof fn lemma_printable_escaped(s: Seq<char>)
    ensures
        printable(json_escaped(s)),
    decreases s.len(),
{
    if s.len() > 0 {
        lemma_printable_escaped(s.drop_last());
        lemma_printable_escape(s.last());
        lemma_printable_add(json_escaped(s.drop_last()), json_escape(s.last()));
    }
}

/// A JSON string is printable, whatever the text it holds.
pub proof fn lemma_printable_string(s: Seq<char>)
    ensures
        printable(json_string(s)),
{
    lemma_printable_escaped(s);
    lemma_printable_add(seq!['"'], json_escaped(s));
    lemma_printable_add(seq!['"'] + json_escaped(s), seq!['"']);
}

pub proof fn lemma_printable_member(body: Seq<char>, key: Seq<char>, value: Seq<char>)
    requires
        printable(body),
        printable(value),
    ensures
        printable(json_member(body, key, value)),
{
    lemma_printable_string(key);
    let head = json_string(key).push(':');
    assert(head =~= json_string(key) + seq![':']);
    lemma_printable_add(json_string(key), seq![':']);
    lemma_printable_add(head, value);
    if body.len() > 0 {
        assert(body.push(',') =~= body + seq![',']);
        lemma_printable_add(body, seq![',']);
        lemma_printable_add(body.push(','), json_named(key, value));
    }
}

pub proof fn lemma_printable_object(body: Seq<char>)
    requires
        printable(body),
    ensures
        printable(json_object(body)),
{
    lemma_printable_add(seq!['{'], body);
    lemma_printable_add(seq!['{'] + body, seq!['}']);
}

proof fn lemma_printable_items(items: Seq<Seq<char>>)
    requires
        forall|i: int| 0 <= i < items.len() ==> printable(#[trigger] items[i]),
    ensures
        printable(json_items(items)),
    decreases items.len(),
{
    if items.len() > 0 {
        lemma_printable_items(items.drop_last());
        let body = json_items(items.drop_last());
        if body.len() > 0 {
            assert(body.push(',') =~= body + seq![',']);
            lemma_printable_add(body, seq![',']);
            lemma_printable_add(body.push(','), items.last());
        }
    }
}

pub proof fn lemma_printable_list(items: Seq<Seq<char>>)
    requires
        forall|i: int| 0 <= i < items.len() ==> printable(#[trigger] items[i]),
    ensures
        printable(json_list(items)),
{
    lemma_printable_items(items);
    lemma_printable_add(seq!['['], json_items(items));
    lemma_printable_add(seq!['['] + json_items(items), seq![']']);
}

pub proof fn lemma_printable_decimal(n: nat)
    ensures
        printable(decimal(n)),
    decreases n,
{
    if n >= 10 {
        lemma_printable_decimal(n / 10);
        let tail = seq![('0' as u32 + n % 10) as char];
        assert(decimal(n) =~= decimal(n / 10) + tail);
        lemma_printable_add(decimal(n / 10), tail);
    }
}

proof fn lemma_printable_optional(s: Option<Seq<char>>)
    ensures
        printable(
            json_nullable(
                match s {
                    Some(t) => Some(json_string(t)),
                    None => None,
                },
            ),
        ),
{
    if let Some(t) = s {
        lemma_printable_string(t);
    }
}

proof fn lemma_printable_ids(ids: Seq<Seq<char>>)
    ensures
        printable(json_list(super::records::id_jsons(ids))),
{
    assert forall|i: int| 0 <= i < ids.len() implies printable(#[trigger] super::records::id_jsons(ids)[i]) by {
        lemma_printable_string(ids[i]);
    }
    lemma_printable_list(super::records::id_jsons(ids));
}

proof fn lemma_printable_position(p: crate::model::Position)
    ensures
        printable(p.json()),
{
    lemma_printable_decimal(p.line as nat);
    lemma_printable_decimal(p.column as nat);
    let body = Seq::<char>::empty();
    lemma_printable_member(body, "line"@, decimal(p.line as nat));
    let body = json_member(body, "line"@, decimal(p.line as nat));
    lemma_printable_member(body, "column"@, decimal(p.column as nat));
    let body = json_member(body, "column"@, decimal(p.column as nat));
    lemma_printable_object(body);
}

proof fn lemma_printable_tool(v: BugTool)
    ensures
        printable(v.json()),
{
    reveal(BugTool::json);
    let body = Seq::<char>::empty();
    lemma_printable_string(v.name);
    lemma_printable_member(body, "name"@, json_string(v.name));
    let body = json_member(body, "name"@, json_string(v.name));
    lemma_printable_string(v.version);
    lemma_printable_member(body, "version"@, json_string(v.version));
    let body = json_member(body, "version"@, json_string(v.version));
    lemma_printable_optional(v.rule_id);
    lemma_printable_member(body, "rule_id"@, json_nullable(match v.rule_id { Some(s) => Some(json_string(s)), None => None }));
    let body = json_member(body, "rule_id"@, json_nullable(match v.rule_id { Some(s) => Some(json_string(s)), None => None }));
    lemma_printable_object(body);
}

proof fn lemma_printable_location(v: BugLocation)
    ensures
        printable(v.json()),
{
    reveal(BugLocation::json);
    let body = Seq::<char>::empty();
    lemma_printable_string(v.path);
    lemma_printable_member(body, "path"@, json_string(v.path));
    let body = json_member(body, "path"@, json_string(v.path));
    lemma_printable_position(v.start);
    lemma_printable_member(body, "start"@, v.start.json());
    let body = json_member(body, "start"@, v.start.json());
    if let Some(x) = v.end {
        lemma_printable_position(x);
    }
    lemma_printable_member(body, "end"@, json_nullable(match v.end { Some(x) => Some(x.json()), None => None }));
    let body = json_member(body, "end"@, json_nullable(match v.end { Some(x) => Some(x.json()), None => None }));
    lemma_printable_object(body);
}

proof fn lemma_printable_taxonomy(v: BugTaxonomy)
    ensures
        printable(v.json()),
{
    reveal(BugTaxonomy::json);
    let body = Seq::<char>::empty();
    lemma_printable_string(v.category);
    lemma_printable_member(body, "category"@, json_string(v.category));
    let body = json_member(body, "category"@, json_string(v.category));
    lemma_printable_string(v.micro_category);
    lemma_printable_member(body, "micro_category"@, json_string(v.micro_category));
    let body = json_member(body, "micro_category"@, json_string(v.micro_category));
    lemma_printable_object(body);
}

proof fn lemma_printable_finding(v: BugFinding)
    ensures
        printable(v.json()),
{
    reveal(BugFinding::json);
    let body = Seq::<char>::empty();
    lemma_printable_string(v.finding_id);
    lemma_printable_member(body, "finding_id"@, json_string(v.finding_id));
    let body = json_member(body, "finding_id"@, json_string(v.finding_id));
    lemma_printable_string(v.fingerprint);
    lemma_printable_member(body, "fingerprint"@, json_string(v.fingerprint));
    let body = json_member(body, "fingerprint"@, json_string(v.fingerprint));
    lemma_printable_ids(v.observation_ids);
    lemma_printable_member(body, "observation_ids"@, json_list(super::records::id_jsons(v.observation_ids)));
    let body = json_member(body, "observation_ids"@, json_list(super::records::id_jsons(v.observation_ids)));
    lemma_printable_tool(v.tool);
    lemma_printable_member(body, "tool"@, v.tool.json());
    let body = json_member(body, "tool"@, v.tool.json());
    lemma_printable_string(v.language);
    lemma_printable_member(body, "language"@, json_string(v.language));
    let body = json_member(body, "language"@, json_string(v.language));
    lemma_printable_string(v.severity.word());
    lemma_printable_member(body, "severity"@, v.severity.json());
    let body = json_member(body, "severity"@, v.severity.json());
    lemma_printable_taxonomy(v.taxonomy);
    lemma_printable_member(body, "taxonomy"@, v.taxonomy.json());
    let body = json_member(body, "taxonomy"@, v.taxonomy.json());
    lemma_printable_string(v.message);
    lemma_printable_member(body, "message"@, json_string(v.message));
    let body = json_member(body, "message"@, json_string(v.message));
    if let Some(x) = v.location {
        lemma_printable_location(x);
    }
    lemma_printable_member(body, "location"@, json_nullable(match v.location { Some(x) => Some(x.json()), None => None }));
    let body = json_member(body, "location"@, json_nullable(match v.location { Some(x) => Some(x.json()), None => None }));
    lemma_printable_optional(v.symbol);
    lemma_printable_member(body, "symbol"@, json_nullable(match v.symbol { Some(s) => Some(json_string(s)), None => None }));
    let body = json_member(body, "symbol"@, json_nullable(match v.symbol { Some(s) => Some(json_string(s)), None => None }));
    lemma_printable_optional(v.expected);
    lemma_printable_member(body, "expected"@, json_nullable(match v.expected { Some(s) => Some(json_string(s)), None => None }));
    let body = json_member(body, "expected"@, json_nullable(match v.expected { Some(s) => Some(json_string(s)), None => None }));
    lemma_printable_optional(v.observed);
    lemma_printable_member(body, "observed"@, json_nullable(match v.observed { Some(s) => Some(json_string(s)), None => None }));
    let body = json_member(body, "observed"@, json_nullable(match v.observed { Some(s) => Some(json_string(s)), None => None }));
    lemma_printable_ids(v.evidence_ids);
    lemma_printable_member(body, "evidence_ids"@, json_list(super::records::id_jsons(v.evidence_ids)));
    let body = json_member(body, "evidence_ids"@, json_list(super::records::id_jsons(v.evidence_ids)));
    lemma_printable_object(body);
}

proof fn lemma_printable_waiver(v: BugWaiver)
    ensures
        printable(v.json()),
{
    reveal(BugWaiver::json);
    let body = Seq::<char>::empty();
    lemma_printable_string(v.fingerprint);
    lemma_printable_member(body, "fingerprint"@, json_string(v.fingerprint));
    let body = json_member(body, "fingerprint"@, json_string(v.fingerprint));
    lemma_printable_string(v.waived_action.word());
    lemma_printable_member(body, "waived_action"@, v.waived_action.json());
    let body = json_member(body, "waived_action"@, v.waived_action.json());
    lemma_printable_string(v.reason);
    lemma_printable_member(body, "reason"@, json_string(v.reason));
    let body = json_member(body, "reason"@, json_string(v.reason));
    lemma_printable_string(v.owner);
    lemma_printable_member(body, "owner"@, json_string(v.owner));
    let body = json_member(body, "owner"@, json_string(v.owner));
    lemma_printable_string(v.expires_at);
    lemma_printable_member(body, "expires_at"@, json_string(v.expires_at));
    let body = json_member(body, "expires_at"@, json_string(v.expires_at));
    lemma_printable_object(body);
}

proof fn lemma_printable_decision(v: BugDecision)
    ensures
        printable(v.json()),
{
    reveal(BugDecision::json);
    let body = Seq::<char>::empty();
    lemma_printable_string(v.decision_id);
    lemma_printable_member(body, "decision_id"@, json_string(v.decision_id));
    let body = json_member(body, "decision_id"@, json_string(v.decision_id));
    lemma_printable_string(v.finding_id);
    lemma_printable_member(body, "finding_id"@, json_string(v.finding_id));
    let body = json_member(body, "finding_id"@, json_string(v.finding_id));
    lemma_printable_string(v.action.word());
    lemma_printable_member(body, "action"@, v.action.json());
    let body = json_member(body, "action"@, v.action.json());
    lemma_printable_string(v.evaluated_at);
    lemma_printable_member(body, "evaluated_at"@, json_string(v.evaluated_at));
    let body = json_member(body, "evaluated_at"@, json_string(v.evaluated_at));
    lemma_printable_string(v.matched_rule_id);
    lemma_printable_member(body, "matched_rule_id"@, json_string(v.matched_rule_id));
    let body = json_member(body, "matched_rule_id"@, json_string(v.matched_rule_id));
    if let Some(x) = v.waiver {
        lemma_printable_waiver(x);
    }
    lemma_printable_member(body, "waiver"@, json_nullable(match v.waiver { Some(x) => Some(x.json()), None => None }));
    let body = json_member(body, "waiver"@, json_nullable(match v.waiver { Some(x) => Some(x.json()), None => None }));
    lemma_printable_object(body);
}

proof fn lemma_printable_evidence(v: BugEvidenceRef)
    ensures
        printable(v.json()),
{
    reveal(BugEvidenceRef::json);
    let body = Seq::<char>::empty();
    lemma_printable_string(v.evidence_id);
    lemma_printable_member(body, "evidence_id"@, json_string(v.evidence_id));
    let body = json_member(body, "evidence_id"@, json_string(v.evidence_id));
    lemma_printable_optional(v.execution_id);
    lemma_printable_member(body, "execution_id"@, json_nullable(match v.execution_id { Some(s) => Some(json_string(s)), None => None }));
    let body = json_member(body, "execution_id"@, json_nullable(match v.execution_id { Some(s) => Some(json_string(s)), None => None }));
    lemma_printable_string(v.source);
    lemma_printable_member(body, "source"@, json_string(v.source));
    let body = json_member(body, "source"@, json_string(v.source));
    lemma_printable_string(v.sha256);
    lemma_printable_member(body, "sha256"@, json_string(v.sha256));
    let body = json_member(body, "sha256"@, json_string(v.sha256));
    lemma_printable_optional(v.relative_path);
    lemma_printable_member(body, "relative_path"@, json_nullable(match v.relative_path { Some(s) => Some(json_string(s)), None => None }));
    let body = json_member(body, "relative_path"@, json_nullable(match v.relative_path { Some(s) => Some(json_string(s)), None => None }));
    lemma_printable_object(body);
}

proof fn lemma_printable_execution(v: BugExecution)
    ensures
        printable(v.json()),
{
    reveal(BugExecution::json);
    let body = Seq::<char>::empty();
    lemma_printable_string(v.execution_id);
    lemma_printable_member(body, "execution_id"@, json_string(v.execution_id));
    let body = json_member(body, "execution_id"@, json_string(v.execution_id));
    lemma_printable_string(v.adapter_id);
    lemma_printable_member(body, "adapter_id"@, json_string(v.adapter_id));
    let body = json_member(body, "adapter_id"@, json_string(v.adapter_id));
    lemma_printable_string(v.adapter_kind.word());
    lemma_printable_member(body, "adapter_kind"@, v.adapter_kind.json());
    let body = json_member(body, "adapter_kind"@, v.adapter_kind.json());
    lemma_printable_tool(v.tool);
    lemma_printable_member(body, "tool"@, v.tool.json());
    let body = json_member(body, "tool"@, v.tool.json());
    lemma_printable_member(body, "required"@, json_bool(v.required));
    let body = json_member(body, "required"@, json_bool(v.required));
    lemma_printable_string(v.status.word());
    lemma_printable_member(body, "status"@, v.status.json());
    let body = json_member(body, "status"@, v.status.json());
    if let Some(x) = v.exit_code {
        lemma_printable_decimal(x as nat);
    }
    lemma_printable_member(body, "exit_code"@, json_nullable(match v.exit_code { Some(x) => Some(decimal(x as nat)), None => None }));
    let body = json_member(body, "exit_code"@, json_nullable(match v.exit_code { Some(x) => Some(decimal(x as nat)), None => None }));
    lemma_printable_optional(v.message);
    lemma_printable_member(body, "message"@, json_nullable(match v.message { Some(s) => Some(json_string(s)), None => None }));
    let body = json_member(body, "message"@, json_nullable(match v.message { Some(s) => Some(json_string(s)), None => None }));
    lemma_printable_object(body);
}

/// The drafts of the records are printable.
spec fn drafts_printable<T: Record>(v: Seq<T>, max: nat) -> bool {
    forall|i: int| 0 <= i < v.len() && v[i].drafted_json(max) is Some ==> printable((#[trigger] v[i]).drafted_json(max).unwrap())
}

proof fn lemma_printable_drafts<T: Record>(v: Seq<T>, max: nat)
    requires
        all_fit(v, max),
        drafts_printable(arranged(v), max),
    ensures
        printable(drafted_list(v, max)),
{
    super::draft::lemma_arranged_fits(v, max);
    let all = arranged(v);
    assert forall|i: int| 0 <= i < all.len() implies printable(#[trigger] drafted_jsons(all, max)[i]) by {
        super::draft::lemma_all_fit_at(all, max, i);
        assert(printable(all[i].drafted_json(max).unwrap()));
    }
    lemma_printable_list(drafted_jsons(all, max));
}

/// A draft is one line: whatever its texts hold, the only control character is the line end behind
/// it.
pub proof fn law_draft_is_one_line(report: SessionReport, max: nat)
    requires
        super::draft::report_fits(report, max),
    ensures
        printable(draft_line(report, max).drop_last()),
        draft_line(report, max).last() == '\n',
{
    reveal(draft_object);
    let f = arranged(report.findings@);
    assert forall|i: int| 0 <= i < f.len() && f[i].drafted_json(max) is Some implies printable(
        (#[trigger] f[i]).drafted_json(max).unwrap(),
    ) by {
        lemma_printable_finding(super::records::finding_projection(f[i], max).unwrap());
    }
    lemma_printable_drafts(report.findings@, max);
    let d = arranged(report.decisions@);
    assert forall|i: int| 0 <= i < d.len() && d[i].drafted_json(max) is Some implies printable(
        (#[trigger] d[i]).drafted_json(max).unwrap(),
    ) by {
        lemma_printable_decision(super::records::decision_projection(d[i], max).unwrap());
    }
    lemma_printable_drafts(report.decisions@, max);
    let e = arranged(report.evidence@);
    assert forall|i: int| 0 <= i < e.len() && e[i].drafted_json(max) is Some implies printable(
        (#[trigger] e[i]).drafted_json(max).unwrap(),
    ) by {
        lemma_printable_evidence(super::records::evidence_projection(e[i], max).unwrap());
    }
    lemma_printable_drafts(report.evidence@, max);
    let x = arranged(report.executions@);
    assert forall|i: int| 0 <= i < x.len() && x[i].drafted_json(max) is Some implies printable(
        (#[trigger] x[i]).drafted_json(max).unwrap(),
    ) by {
        lemma_printable_execution(super::records::execution_projection(x[i], max).unwrap());
    }
    lemma_printable_drafts(report.executions@, max);
    let body = Seq::<char>::empty();
    lemma_printable_string(BUG_ISSUE_DRAFT_SCHEMA_VERSION@);
    lemma_printable_member(body, "schema_version"@, json_string(BUG_ISSUE_DRAFT_SCHEMA_VERSION@));
    let body = json_member(body, "schema_version"@, json_string(BUG_ISSUE_DRAFT_SCHEMA_VERSION@));
    lemma_printable_string(BUG_ISSUE_LABEL@);
    let labels = json_list(seq![json_string(BUG_ISSUE_LABEL@)]);
    lemma_printable_list(seq![json_string(BUG_ISSUE_LABEL@)]);
    lemma_printable_member(body, "labels"@, labels);
    let body = json_member(body, "labels"@, labels);
    lemma_printable_string(report.session_id@);
    lemma_printable_member(body, "session_id"@, json_string(report.session_id@));
    let body = json_member(body, "session_id"@, json_string(report.session_id@));
    lemma_printable_string(report.contract_sha256@);
    lemma_printable_member(body, "contract_sha256"@, json_string(report.contract_sha256@));
    let body = json_member(body, "contract_sha256"@, json_string(report.contract_sha256@));
    lemma_printable_string(report.policy_digest@);
    lemma_printable_member(body, "policy_digest"@, json_string(report.policy_digest@));
    let body = json_member(body, "policy_digest"@, json_string(report.policy_digest@));
    lemma_printable_string(report.verdict.word());
    lemma_printable_member(body, "verdict"@, report.verdict.json());
    let body = json_member(body, "verdict"@, report.verdict.json());
    lemma_printable_member(body, "findings"@, drafted_list(report.findings@, max));
    let body = json_member(body, "findings"@, drafted_list(report.findings@, max));
    lemma_printable_member(body, "decisions"@, drafted_list(report.decisions@, max));
    let body = json_member(body, "decisions"@, drafted_list(report.decisions@, max));
    lemma_printable_member(body, "evidence"@, drafted_list(report.evidence@, max));
    let body = json_member(body, "evidence"@, drafted_list(report.evidence@, max));
    lemma_printable_member(body, "executions"@, drafted_list(report.executions@, max));
    let body = json_member(body, "executions"@, drafted_list(report.executions@, max));
    lemma_printable_object(body);
    assert(draft_line(report, max).drop_last() =~= json_object(body));
}

/// No byte of a printable text is a line end.
proof fn lemma_printable_bytes(s: Seq<char>)
    requires
        printable(s),
    ensures
        forall|i: int| 0 <= i < encode_utf8(s).len() ==> #[trigger] encode_utf8(s)[i] != 10,
    decreases s.len(),
{
    if s.len() > 0 {
        let rest = s.drop_first();
        assert forall|i: int| 0 <= i < rest.len() implies (#[trigger] rest[i]) as u32 >= 32 by {
            assert(rest[i] == s[i + 1]);
        }
        lemma_printable_bytes(rest);
        let head = encode_scalar(s[0] as u32);
        lemma_scalar_bytes(s[0]);
        assert(encode_utf8(s) =~= head + encode_utf8(rest));
        assert forall|i: int| 0 <= i < encode_utf8(s).len() implies #[trigger] encode_utf8(s)[i] != 10 by {
            if i < head.len() {
                assert(encode_utf8(s)[i] == head[i]);
            } else {
                assert(encode_utf8(s)[i] == encode_utf8(rest)[i - head.len()]);
            }
        }
    }
}

proof fn lemma_scalar_bytes(c: char)
    requires
        c as u32 >= 32,
    ensures
        forall|i: int| 0 <= i < encode_scalar(c as u32).len() ==> #[trigger] encode_scalar(c as u32)[i] != 10,
{
    let v: u32 = c as u32;
    assert(v <= 0x7f ==> (v & 0x7F) as u8 == v as u8) by (bit_vector);
    assert(0xC0 | ((v >> 6) & 0x1F) as u8 >= 0x80) by (bit_vector);
    assert(0xE0 | ((v >> 12) & 0x0F) as u8 >= 0x80) by (bit_vector);
    assert(0xF0 | ((v >> 18) & 0x7) as u8 >= 0x80) by (bit_vector);
    assert(0x80 | (v & 0x3F) as u8 >= 0x80) by (bit_vector);
    assert(0x80 | ((v >> 6) & 0x3F) as u8 >= 0x80) by (bit_vector);
    assert(0x80 | ((v >> 12) & 0x3F) as u8 >= 0x80) by (bit_vector);
}

proof fn lemma_one_line_indented(bytes: Seq<u8>, k: int)
    requires
        0 < k <= bytes.len(),
        forall|i: int| 0 <= i < bytes.len() - 1 ==> #[trigger] bytes[i] != 10,
    ensures
        indented_from(bytes, k, bytes[k - 1] == 10) == bytes.skip(k),
    decreases bytes.len() - k,
{
    if k < bytes.len() {
        lemma_one_line_indented(bytes, k + 1);
        assert(bytes.skip(k) =~= seq![bytes[k]] + bytes.skip(k + 1));
        assert(bytes[k - 1] != 10);
        assert(indented_from(bytes, k, false) =~= bytes.skip(k));
    } else {
        assert(bytes.skip(k) =~= Seq::<u8>::empty());
    }
}

/// The Markdown of a draft is the header, four spaces, and the draft's JSON unchanged, which is one
/// line of literal code: nothing that a text of the report holds is read as Markdown.
pub proof fn law_markdown_embeds_the_draft(report: SessionReport, max: nat)
    requires
        super::draft::report_fits(report, max),
    ensures
        ({
            let json = encode_utf8(draft_line(report, max));
            markdown_bytes(json) == encode_utf8(MARKDOWN_HEADER@) + indent() + json
        }),
{
    law_draft_is_one_line(report, max);
    let line = draft_line(report, max);
    let inner = line.drop_last();
    assert(line =~= inner + seq!['\n']);
    lemma_utf8_concat(inner, seq!['\n']);
    reveal_with_fuel(encode_utf8, 2);
    assert(seq!['\n'].drop_first() =~= Seq::<char>::empty());
    let v: u32 = '\n' as u32;
    assert((v & 0x7F) as u8 == 10) by (bit_vector)
        requires
            v == 10u32,
    ;
    assert(encode_scalar('\n' as u32) =~= seq![10u8]);
    assert(encode_utf8(seq!['\n']) =~= seq![10u8]);
    let json = encode_utf8(line);
    lemma_printable_bytes(inner);
    assert forall|i: int| 0 <= i < json.len() - 1 implies #[trigger] json[i] != 10 by {
        assert(json[i] == encode_utf8(inner)[i]);
    }
    lemma_one_line_indented(json, 1);
    assert(indented_from(json, 0, true) =~= indent() + json);
    assert(markdown_bytes(json) =~= encode_utf8(MARKDOWN_HEADER@) + indent() + json);
}

} // verus!
