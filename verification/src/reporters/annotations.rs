//! GitHub workflow-command annotations.
use super::{
    in_utf8, renders, utf8_bytes, utf8_size, ReportFault, ReportFormat, Reporter, ReporterError,
    ValidatedSessionReport,
};
use super::tsv::{
    decision_on, find_decision, lemma_decision_ignores_order, lemma_no_occurrence, lemma_occurrences_add,
    occurrences, one_decision_each,
};
use crate::json::push_chars;
use crate::model::{DecisionAction, Finding, Location, Position, SessionReport, Tool};
use crate::numeral::{decimal, push_decimal};
use crate::order::{arranged, arrangement, distinct, law_arranging_ignores_order};
use crate::text::{chars_of, lemma_utf8_concat, push_text, utf8_len};
use vstd::prelude::*;
use vstd::utf8::*;

verus! {

/// The largest line or column that an annotation may name.
pub const MAX_GITHUB_COORDINATE: u32 = 0x7fff_ffff;

/// What stands for `c`; in metadata, the colon and the comma are escaped too.
pub open spec fn annotation_char(c: char, metadata: bool) -> Seq<char> {
    if c == '%' {
        seq!['%', '2', '5']
    } else if c == '\r' {
        seq!['%', '0', 'D']
    } else if c == '\n' {
        seq!['%', '0', 'A']
    } else if metadata && c == ':' {
        seq!['%', '3', 'A']
    } else if metadata && c == ',' {
        seq!['%', '2', 'C']
    } else {
        seq![c]
    }
}

/// What stands for the text.
pub open spec fn annotation_text(s: Seq<char>, metadata: bool) -> Seq<char>
    decreases s.len(),
{
    if s.len() == 0 {
        s
    } else {
        annotation_text(s.drop_last(), metadata) + annotation_char(s.last(), metadata)
    }
}

/// How the action is shown.
pub open spec fn level_word(action: DecisionAction) -> Seq<char> {
    match action {
        DecisionAction::Block => "error"@,
        DecisionAction::Warn => "warning"@,
        DecisionAction::Observe => "notice"@,
        DecisionAction::Waive => "notice"@,
    }
}

/// Metadata, followed by another entry.
pub open spec fn metadata_with(metadata: Seq<char>, key: Seq<char>, value: Seq<char>) -> Seq<char> {
    metadata + (if metadata.len() == 0 {
        seq![' ']
    } else {
        seq![',']
    }) + key + seq!['='] + annotation_text(value, true)
}

pub open spec fn number_with(metadata: Seq<char>, key: Seq<char>, value: nat) -> Seq<char> {
    metadata_with(metadata, key, decimal(value))
}

/// Metadata, followed by the start column where an annotation may name it.
pub open spec fn column_with(metadata: Seq<char>, column: u32) -> Seq<char> {
    if column <= MAX_GITHUB_COORDINATE {
        number_with(metadata, "col"@, column as nat)
    } else {
        metadata
    }
}

/// The last line that the range reaches into.
pub open spec fn last_line(end: Position) -> nat {
    if end.column == 1 && end.line > 0 {
        (end.line - 1) as nat
    } else {
        end.line as nat
    }
}

/// The metadata of a location. A range that ends on another line names lines only; the end of a
/// range is named by the last column in it.
pub open spec fn location_metadata(location: Location) -> Seq<char> {
    let start = location.start;
    if start.line > MAX_GITHUB_COORDINATE {
        Seq::empty()
    } else {
        let file = metadata_with(Seq::empty(), "file"@, location.path@);
        let line = number_with(file, "line"@, start.line as nat);
        match location.end {
            None => column_with(line, start.column),
            Some(end) => if end.line == start.line {
                let columns = column_with(number_with(line, "endLine"@, end.line as nat), start.column);
                if start.column <= MAX_GITHUB_COORDINATE && end.column > start.column && end.column - 1
                    <= MAX_GITHUB_COORDINATE {
                    number_with(columns, "endColumn"@, (end.column - 1) as nat)
                } else {
                    columns
                }
            } else if last_line(end) <= MAX_GITHUB_COORDINATE {
                number_with(line, "endLine"@, last_line(end))
            } else {
                column_with(line, start.column)
            },
        }
    }
}

/// The title: the tool, and the rule where there is one.
pub open spec fn title_text(tool: Tool) -> Seq<char> {
    let name = annotation_text(tool.name@, true);
    match tool.rule_id {
        Some(rule) => name + annotation_text(": "@, true) + annotation_text(rule@, true),
        None => name,
    }
}

/// The metadata of a finding.
pub open spec fn finding_metadata(finding: Finding) -> Seq<char> {
    match finding.location {
        Some(location) => location_metadata(location),
        None => Seq::empty(),
    }
}

/// The annotation of a finding.
pub open spec fn annotation(finding: Finding, action: DecisionAction) -> Seq<char> {
    let metadata = finding_metadata(finding);
    seq![':', ':'] + level_word(action) + metadata + (if metadata.len() > 0 {
        ",title="@
    } else {
        " title="@
    }) + title_text(finding.tool) + seq![':', ':'] + annotation_text(finding.message@, false) + seq!['\n']
}

/// The annotations, from the `k`-th finding on, where `text` stands already.
pub open spec fn annotations_from(
    report: SessionReport,
    findings: Seq<Finding>,
    k: int,
    text: Seq<char>,
    max: nat,
) -> Result<Seq<char>, ReportFault>
    decreases findings.len() - k,
{
    if utf8_len(text) > max {
        Err(ReportFault::OutputTooLarge { format: ReportFormat::GitHubAnnotations, max })
    } else if k < 0 || k >= findings.len() {
        Ok(text)
    } else {
        match decision_on(report.decisions@, findings[k].finding_id@) {
            None => Err(ReportFault::MissingDecision { finding_id: findings[k].finding_id@ }),
            Some(decision) => annotations_from(
                report,
                findings,
                k + 1,
                text + annotation(findings[k], decision.action),
                max,
            ),
        }
    }
}

/// The annotations of a report: one for each finding, by fingerprint and identifier.
pub open spec fn annotations_text(report: SessionReport, max: nat) -> Result<Seq<char>, ReportFault> {
    annotations_from(report, arranged(report.findings@), 0, Seq::empty(), max)
}

/// How the action is shown.
pub fn annotation_level(action: &DecisionAction) -> (r: &'static str)
    ensures
        r@ == level_word(*action),
{
    match action {
        DecisionAction::Block => "error",
        DecisionAction::Warn => "warning",
        DecisionAction::Observe => "notice",
        DecisionAction::Waive => "notice",
    }
}

fn push_escaped_char(out: &mut Vec<char>, c: char, metadata: bool)
    ensures
        final(out)@ == old(out)@ + annotation_char(c, metadata),
{
    if c == '%' {
        out.push('%');
        out.push('2');
        out.push('5');
    } else if c == '\r' {
        out.push('%');
        out.push('0');
        out.push('D');
    } else if c == '\n' {
        out.push('%');
        out.push('0');
        out.push('A');
    } else if metadata && c == ':' {
        out.push('%');
        out.push('3');
        out.push('A');
    } else if metadata && c == ',' {
        out.push('%');
        out.push('2');
        out.push('C');
    } else {
        out.push(c);
    }
    assert(out@ =~= old(out)@ + annotation_char(c, metadata));
}

fn push_escaped(out: &mut Vec<char>, value: &[char], metadata: bool)
    ensures
        final(out)@ == old(out)@ + annotation_text(value@, metadata),
{
    let mut i: usize = 0;
    assert(out@ =~= old(out)@ + annotation_text(value@.take(0), metadata));
    while i < value.len()
        invariant
            i <= value.len(),
            out@ == old(out)@ + annotation_text(value@.take(i as int), metadata),
        decreases value.len() - i,
    {
        push_escaped_char(out, value[i], metadata);
        proof {
            let next = value@.take(i + 1);
            assert(next.drop_last() =~= value@.take(i as int));
            assert(next.last() == value@[i as int]);
            assert(out@ =~= old(out)@ + annotation_text(next, metadata));
        }
        i = i + 1;
    }
    assert(value@.take(value@.len() as int) =~= value@);
}

fn add_metadata(metadata: &mut Vec<char>, key: &str, value: &[char])
    ensures
        final(metadata)@ == metadata_with(old(metadata)@, key@, value@),
{
    if metadata.len() == 0 {
        metadata.push(' ');
    } else {
        metadata.push(',');
    }
    push_text(metadata, key);
    metadata.push('=');
    push_escaped(metadata, value, true);
    assert(metadata@ =~= metadata_with(old(metadata)@, key@, value@));
}

fn add_number_metadata(metadata: &mut Vec<char>, key: &str, value: u32)
    ensures
        final(metadata)@ == number_with(old(metadata)@, key@, value as nat),
{
    let mut digits: Vec<char> = Vec::new();
    push_decimal(&mut digits, value as u64);
    assert(digits@ =~= decimal(value as nat));
    add_metadata(metadata, key, digits.as_slice());
}

fn add_start_column(metadata: &mut Vec<char>, column: u32)
    ensures
        final(metadata)@ == column_with(old(metadata)@, column),
{
    if column <= MAX_GITHUB_COORDINATE {
        add_number_metadata(metadata, "col", column);
    }
}

/// The metadata of a location.
fn metadata_of(location: &Location) -> (r: Vec<char>)
    ensures
        r@ == location_metadata(*location),
{
    let mut metadata: Vec<char> = Vec::new();
    let start: Position = location.start;
    if start.line > MAX_GITHUB_COORDINATE {
        return metadata;
    }
    let path: Vec<char> = chars_of(location.path.as_str());
    assert(metadata@ =~= Seq::<char>::empty());
    add_metadata(&mut metadata, "file", path.as_slice());
    add_number_metadata(&mut metadata, "line", start.line);
    match &location.end {
        None => add_start_column(&mut metadata, start.column),
        Some(end) => {
            if end.line == start.line {
                add_number_metadata(&mut metadata, "endLine", end.line);
                add_start_column(&mut metadata, start.column);
                if start.column <= MAX_GITHUB_COORDINATE && end.column > start.column && end.column - 1
                    <= MAX_GITHUB_COORDINATE {
                    add_number_metadata(&mut metadata, "endColumn", end.column - 1);
                }
            } else {
                let last: u32 = if end.column == 1 && end.line > 0 {
                    end.line - 1
                } else {
                    end.line
                };
                if last <= MAX_GITHUB_COORDINATE {
                    add_number_metadata(&mut metadata, "endLine", last);
                } else {
                    add_start_column(&mut metadata, start.column);
                }
            }
        },
    }
    metadata
}

fn push_title(out: &mut Vec<char>, tool: &Tool)
    ensures
        final(out)@ == old(out)@ + title_text(*tool),
{
    let name: Vec<char> = chars_of(tool.name.as_str());
    push_escaped(out, name.as_slice(), true);
    if let Some(rule) = &tool.rule_id {
        let colon: Vec<char> = chars_of(": ");
        push_escaped(out, colon.as_slice(), true);
        let rule: Vec<char> = chars_of(rule.as_str());
        push_escaped(out, rule.as_slice(), true);
    }
    assert(out@ =~= old(out)@ + title_text(*tool));
}

/// The annotation of a finding.
pub fn annotation_of(finding: &Finding, action: &DecisionAction) -> (r: Vec<char>)
    ensures
        r@ == annotation(*finding, *action),
{
    let mut out: Vec<char> = Vec::new();
    out.push(':');
    out.push(':');
    push_text(&mut out, annotation_level(action));
    let metadata: Vec<char> = match &finding.location {
        Some(location) => metadata_of(location),
        None => Vec::new(),
    };
    assert(metadata@ == finding_metadata(*finding));
    push_chars(&mut out, metadata.as_slice());
    push_text(&mut out, if metadata.len() > 0 {
        ",title="
    } else {
        " title="
    });
    push_title(&mut out, &finding.tool);
    out.push(':');
    out.push(':');
    let message: Vec<char> = chars_of(finding.message.as_str());
    push_escaped(&mut out, message.as_slice(), false);
    out.push('\n');
    assert(out@ =~= annotation(*finding, *action));
    out
}

/// Encodes the annotations of a report in at most `limit` bytes.
pub fn encode_github_annotations(report: &SessionReport, limit: usize) -> (r: Result<Vec<u8>, ReporterError>)
    ensures
        renders(r, annotations_text(*report, limit as nat)),
{
    let order: Vec<usize> = arrangement(&report.findings);
    let ghost all = arranged(report.findings@);
    let mut text: Vec<char> = Vec::new();
    assert(text@ =~= Seq::<char>::empty());
    let mut size: u128 = utf8_size(text.as_slice());
    let mut k: usize = 0;
    loop
        invariant
            k <= order.len(),
            order.len() == all.len(),
            all == arranged(report.findings@),
            forall|i: int|
                0 <= i < order.len() ==> #[trigger] order@[i] < report.findings.len()
                    && report.findings@[order@[i] as int] == all[i],
            size == utf8_len(text@),
            annotations_text(*report, limit as nat) == annotations_from(
                *report,
                all,
                k as int,
                text@,
                limit as nat,
            ),
        decreases order.len() - k,
    {
        if size > limit as u128 {
            return Err(ReporterError::OutputTooLarge { format: ReportFormat::GitHubAnnotations, max: limit });
        }
        if k >= order.len() {
            return Ok(utf8_bytes(text.as_slice()));
        }
        let finding: &Finding = &report.findings[order[k]];
        match find_decision(&report.decisions, finding.finding_id.as_str()) {
            None => {
                return Err(ReporterError::MissingDecision { finding_id: finding.finding_id.clone() });
            },
            Some(decision) => {
                let one: Vec<char> = annotation_of(finding, &decision.action);
                proof {
                    lemma_utf8_concat(text@, one@);
                }
                push_chars(&mut text, one.as_slice());
                size = size + utf8_size(one.as_slice());
            },
        }
        k = k + 1;
    }
}

/// Encodes a validated report as bounded annotations.
pub fn github_annotations_bytes(report: &ValidatedSessionReport) -> (r: Result<Vec<u8>, ReporterError>)
    ensures
        renders(r, annotations_text(report.content(), report.limit())),
{
    encode_github_annotations(report.as_report(), report.max_output_bytes())
}

/// The reporter of annotations.
#[derive(Clone, Copy, Debug, Default)]
pub struct GitHubAnnotationReporter;

impl Reporter for GitHubAnnotationReporter {
    open spec fn rendering(&self, report: SessionReport, max: nat) -> Result<Seq<u8>, ReportFault> {
        in_utf8(annotations_text(report, max))
    }

    fn report_bytes(&self, report: &ValidatedSessionReport) -> (r: Result<Vec<u8>, ReporterError>) {
        github_annotations_bytes(report)
    }
}

/// A report without findings has no annotations, whatever its verdict.
pub proof fn law_no_findings_no_annotations(report: SessionReport, max: nat)
    requires
        report.findings@.len() == 0,
    ensures
        annotations_text(report, max) == Ok::<Seq<char>, ReportFault>(Seq::empty()),
{
    assert(arranged(report.findings@) == report.findings@);
    assert(encode_utf8(Seq::<char>::empty()) =~= Seq::<u8>::empty());
}

/// Escaped text holds no line end; in metadata, it holds no colon and no comma either.
pub proof fn law_escaped_text_is_inert(s: Seq<char>, metadata: bool)
    ensures
        forall|i: int|
            0 <= i < annotation_text(s, metadata).len() ==> {
                let c = #[trigger] annotation_text(s, metadata)[i];
                c != '\n' && c != '\r' && (metadata ==> c != ':' && c != ',')
            },
    decreases s.len(),
{
    if s.len() > 0 {
        law_escaped_text_is_inert(s.drop_last(), metadata);
        let head = annotation_text(s.drop_last(), metadata);
        let tail = annotation_char(s.last(), metadata);
        assert forall|i: int| 0 <= i < annotation_text(s, metadata).len() implies ({
            let c = #[trigger] annotation_text(s, metadata)[i];
            c != '\n' && c != '\r' && (metadata ==> c != ':' && c != ',')
        }) by {
            if i < head.len() {
                assert(annotation_text(s, metadata)[i] == head[i]);
            } else {
                assert(annotation_text(s, metadata)[i] == tail[i - head.len()]);
            }
        }
    }
}

proof fn lemma_annotation_text_ends(s: Seq<char>, metadata: bool)
    ensures
        occurrences(annotation_text(s, metadata), '\n') == 0,
{
    law_escaped_text_is_inert(s, metadata);
    let t = annotation_text(s, metadata);
    assert forall|i: int| 0 <= i < t.len() implies #[trigger] t[i] != '\n' by {
        assert(annotation_text(s, metadata)[i] != '\n');
    }
    lemma_no_occurrence(t, '\n');
}

proof fn lemma_metadata_ends(metadata: Seq<char>, key: Seq<char>, value: Seq<char>)
    requires
        occurrences(metadata, '\n') == 0,
        occurrences(key, '\n') == 0,
    ensures
        occurrences(metadata_with(metadata, key, value), '\n') == 0,
{
    let sep = if metadata.len() == 0 {
        seq![' ']
    } else {
        seq![',']
    };
    lemma_no_occurrence(sep, '\n');
    lemma_no_occurrence(seq!['='], '\n');
    lemma_annotation_text_ends(value, true);
    lemma_occurrences_add(metadata, sep, '\n');
    lemma_occurrences_add(metadata + sep, key, '\n');
    lemma_occurrences_add(metadata + sep + key, seq!['='], '\n');
    lemma_occurrences_add(metadata + sep + key + seq!['='], annotation_text(value, true), '\n');
}

proof fn lemma_words_end()
    ensures
        occurrences("file"@, '\n') == 0,
        occurrences("line"@, '\n') == 0,
        occurrences("col"@, '\n') == 0,
        occurrences("endLine"@, '\n') == 0,
        occurrences("endColumn"@, '\n') == 0,
        occurrences("error"@, '\n') == 0,
        occurrences("warning"@, '\n') == 0,
        occurrences("notice"@, '\n') == 0,
        occurrences(",title="@, '\n') == 0,
        occurrences(" title="@, '\n') == 0,
{
    reveal_strlit("file");
    lemma_no_occurrence("file"@, '\n');
    reveal_strlit("line");
    lemma_no_occurrence("line"@, '\n');
    reveal_strlit("col");
    lemma_no_occurrence("col"@, '\n');
    reveal_strlit("endLine");
    lemma_no_occurrence("endLine"@, '\n');
    reveal_strlit("endColumn");
    lemma_no_occurrence("endColumn"@, '\n');
    reveal_strlit("error");
    lemma_no_occurrence("error"@, '\n');
    reveal_strlit("warning");
    lemma_no_occurrence("warning"@, '\n');
    reveal_strlit("notice");
    lemma_no_occurrence("notice"@, '\n');
    reveal_strlit(",title=");
    lemma_no_occurrence(",title="@, '\n');
    reveal_strlit(" title=");
    lemma_no_occurrence(" title="@, '\n');
}

proof fn lemma_location_ends(location: Location)
    ensures
        occurrences(location_metadata(location), '\n') == 0,
{
    lemma_words_end();
    let start = location.start;
    let file = metadata_with(Seq::empty(), "file"@, location.path@);
    lemma_metadata_ends(Seq::empty(), "file"@, location.path@);
    let line = number_with(file, "line"@, start.line as nat);
    lemma_metadata_ends(file, "line"@, decimal(start.line as nat));
    lemma_metadata_ends(line, "col"@, decimal(start.column as nat));
    if let Some(end) = location.end {
        lemma_metadata_ends(line, "endLine"@, decimal(end.line as nat));
        lemma_metadata_ends(line, "endLine"@, decimal(last_line(end)));
        let ends = number_with(line, "endLine"@, end.line as nat);
        lemma_metadata_ends(ends, "col"@, decimal(start.column as nat));
        let columns = column_with(ends, start.column);
        lemma_metadata_ends(columns, "endColumn"@, decimal((end.column - 1) as nat));
    }
}

/// Whatever the texts of a finding hold, its annotation is one line.
pub proof fn law_annotation_is_one_line(finding: Finding, action: DecisionAction)
    ensures
        occurrences(annotation(finding, action), '\n') == 1,
        annotation(finding, action).last() == '\n',
{
    lemma_words_end();
    let metadata = finding_metadata(finding);
    if let Some(location) = finding.location {
        lemma_location_ends(location);
    }
    let colons = seq![':', ':'];
    lemma_no_occurrence(colons, '\n');
    let level = level_word(action);
    let title = if metadata.len() > 0 {
        ",title="@
    } else {
        " title="@
    };
    let name = annotation_text(finding.tool.name@, true);
    lemma_annotation_text_ends(finding.tool.name@, true);
    if let Some(rule) = finding.tool.rule_id {
        lemma_annotation_text_ends(": "@, true);
        lemma_annotation_text_ends(rule@, true);
        lemma_occurrences_add(name, annotation_text(": "@, true), '\n');
        lemma_occurrences_add(name + annotation_text(": "@, true), annotation_text(rule@, true), '\n');
    }
    let tool = title_text(finding.tool);
    let message = annotation_text(finding.message@, false);
    lemma_annotation_text_ends(finding.message@, false);
    lemma_occurrences_add(colons, level, '\n');
    lemma_occurrences_add(colons + level, metadata, '\n');
    lemma_occurrences_add(colons + level + metadata, title, '\n');
    lemma_occurrences_add(colons + level + metadata + title, tool, '\n');
    lemma_occurrences_add(colons + level + metadata + title + tool, colons, '\n');
    lemma_occurrences_add(colons + level + metadata + title + tool + colons, message, '\n');
    let all = colons + level + metadata + title + tool + colons + message;
    assert((all + seq!['\n']).drop_last() =~= all);
}

proof fn lemma_annotations_from(
    a: SessionReport,
    b: SessionReport,
    findings: Seq<Finding>,
    k: int,
    text: Seq<char>,
    max: nat,
)
    requires
        one_decision_each(a.decisions@),
        a.decisions@.to_multiset() == b.decisions@.to_multiset(),
    ensures
        annotations_from(a, findings, k, text, max) == annotations_from(b, findings, k, text, max),
    decreases findings.len() - k,
{
    if 0 <= k < findings.len() {
        lemma_decision_ignores_order(a.decisions@, b.decisions@, findings[k].finding_id@);
        if let Some(decision) = decision_on(a.decisions@, findings[k].finding_id@) {
            lemma_annotations_from(a, b, findings, k + 1, text + annotation(findings[k], decision.action), max);
        }
    }
}

/// Only findings with their decisions become annotations: nothing else of a report shows in them,
/// neither its verdict nor what an execution says, nor the order in which they were given.
pub proof fn law_annotations_show_only_findings(a: SessionReport, b: SessionReport, max: nat)
    requires
        distinct(a.findings@),
        a.findings@.to_multiset() == b.findings@.to_multiset(),
        one_decision_each(a.decisions@),
        a.decisions@.to_multiset() == b.decisions@.to_multiset(),
    ensures
        annotations_text(a, max) == annotations_text(b, max),
{
    law_arranging_ignores_order(a.findings@, b.findings@);
    lemma_annotations_from(a, b, arranged(a.findings@), 0, Seq::empty(), max);
}

} // verus!
