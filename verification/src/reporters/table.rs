//! What a reader of the tab-separated projection takes out of it.
use super::ReportFault;
use super::readback::{lemma_place_of_char, place_of_char};
use super::tsv::{
    decision_on, law_tsv_cells_are_inert, law_tsv_cells_are_reversible, law_tsv_rows_are_rectangular,
    lemma_first_line, lemma_header_is_one_line, lemma_tsv_rows, location_cells, text_lines, text_or_empty, tsv_cell,
    tsv_decoded, tsv_from, tsv_head, tsv_next, tsv_row, tsv_rows, tsv_text, TSV_HEADER,
};
use crate::model::{Decision, DecisionAction, Finding, SessionReport, Severity, Verdict};
use crate::numeral::{law_decimals_read_back, written_number};
use crate::order::{arranged, lemma_arranged_members};
use crate::text::ascii_control;
use vstd::prelude::*;
use vstd::string::*;

verus! {

/// The text of the `j`-th cell of a line, where tabs stand between the cells.
pub open spec fn cell_text(line: Seq<char>, j: nat) -> Seq<char>
    decreases j,
{
    let end = place_of_char(line, '\t');
    if j == 0 {
        line.take(end)
    } else {
        cell_text(line.skip(end + 1), (j - 1) as nat)
    }
}

/// What the `j`-th cell of a line says.
pub open spec fn cell(line: Seq<char>, j: nat) -> Seq<char> {
    tsv_decoded(cell_text(line, j))
}

#[verifier::opaque]
spec fn cells_text(values: Seq<Seq<char>>) -> Seq<char>
    decreases values.len(),
{
    if values.len() == 0 {
        Seq::empty()
    } else if values.len() == 1 {
        tsv_cell(values[0])
    } else {
        tsv_cell(values[0]) + seq!['\t'] + cells_text(values.skip(1))
    }
}

proof fn lemma_cells_push(values: Seq<Seq<char>>, value: Seq<char>)
    requires
        values.len() > 0,
    ensures
        cells_text(values.push(value)) == tsv_next(cells_text(values), value),
    decreases values.len(),
{
    reveal(cells_text);
    let more = values.push(value);
    if values.len() == 1 {
        assert(more.skip(1) =~= seq![value]);
        assert(cells_text(seq![value]) == tsv_cell(value));
        assert(cells_text(more) =~= tsv_next(cells_text(values), value));
    } else {
        lemma_cells_push(values.skip(1), value);
        assert(more.skip(1) =~= values.skip(1).push(value));
        assert(cells_text(more) =~= tsv_next(cells_text(values), value));
    }
}

proof fn lemma_cell(values: Seq<Seq<char>>, j: nat)
    requires
        j < values.len(),
    ensures
        cell(cells_text(values), j) == values[j as int],
    decreases j,
{
    reveal(cells_text);
    let first = tsv_cell(values[0]);
    let line = cells_text(values);
    law_tsv_cells_are_inert(values[0]);
    law_tsv_cells_are_reversible(values[0]);
    assert forall|i: int| 0 <= i < first.len() implies #[trigger] first[i] != '\t' by {
        assert(!ascii_control(tsv_cell(values[0])[i]));
    }
    let rest = cells_text(values.skip(1));
    lemma_place_of_char(first, '\t', rest);
    if j == 0 {
        assert(line.take(first.len() as int) =~= first);
    } else {
        lemma_cell(values.skip(1), (j - 1) as nat);
        assert(line.skip(first.len() as int + 1) =~= rest);
    }
}

/// The text that stands for a missing one.
pub open spec fn or_nothing(value: Option<String>) -> Seq<char> {
    match value {
        Some(text) => text@,
        None => Seq::empty(),
    }
}

/// The line says, cell by cell in the order of the header, what was found, where, and what was decided on it.
pub open spec fn tells_finding(line: Seq<char>, report: SessionReport, finding: Finding, decision: Decision) -> bool {
    &&& cell(line, 0) == report.session_id@
    &&& cell(line, 1) == finding.finding_id@
    &&& cell(line, 2) == finding.fingerprint@
    &&& cell(line, 3) == finding.tool.name@
    &&& cell(line, 4) == finding.tool.version@
    &&& cell(line, 5) == or_nothing(finding.tool.rule_id)
    &&& cell(line, 6) == finding.language@
    &&& cell(line, 7) == (match finding.severity {
        Severity::Error => "ERROR"@,
        Severity::Warning => "WARNING"@,
        Severity::Info => "INFO"@,
    })
    &&& cell(line, 8) == finding.classification.category@
    &&& cell(line, 9) == finding.classification.micro_category@
    &&& cell(line, 10) == finding.message@
    &&& match finding.location {
        Some(location) => {
            &&& cell(line, 11) == location.path@
            &&& written_number(cell(line, 12)) == Some(location.start.line as nat)
            &&& written_number(cell(line, 13)) == Some(location.start.column as nat)
            &&& match location.end {
                Some(end) => written_number(cell(line, 14)) == Some(end.line as nat) && written_number(cell(line, 15))
                    == Some(end.column as nat),
                None => cell(line, 14).len() == 0 && cell(line, 15).len() == 0,
            }
        },
        None => forall|j: nat| 11 <= j <= 15 ==> (#[trigger] cell(line, j)).len() == 0,
    }
    &&& cell(line, 16) == or_nothing(finding.symbol)
    &&& cell(line, 17) == finding.state@
    &&& cell(line, 18) == or_nothing(finding.pre_report_state)
    &&& cell(line, 19) == decision.decision_id@
    &&& cell(line, 20) == (match decision.action {
        DecisionAction::Observe => "OBSERVE"@,
        DecisionAction::Warn => "WARN"@,
        DecisionAction::Block => "BLOCK"@,
        DecisionAction::Waive => "WAIVE"@,
    })
    &&& cell(line, 21) == decision.evaluated_at@
    &&& cell(line, 22) == decision.policy_digest@
    &&& cell(line, 23) == decision.matched_rule_id@
    &&& cell(line, 24) == (match report.verdict {
        Verdict::Pass => "PASS"@,
        Verdict::PolicyFail => "POLICY_FAIL"@,
        Verdict::Incomplete => "INCOMPLETE"@,
        Verdict::Unsupported => "UNSUPPORTED"@,
    })
}

/// The values of a row.
spec fn row_values(report: SessionReport, finding: Finding, decision: Decision) -> Seq<Seq<char>> {
    let (path, start_line, start_column, end_line, end_column) = location_cells(finding);
    let values = seq![report.session_id@];
    let values = values.push(finding.finding_id@);
    let values = values.push(finding.fingerprint@);
    let values = values.push(finding.tool.name@);
    let values = values.push(finding.tool.version@);
    let values = values.push(text_or_empty(finding.tool.rule_id));
    let values = values.push(finding.language@);
    let values = values.push(finding.severity.word());
    let values = values.push(finding.classification.category@);
    let values = values.push(finding.classification.micro_category@);
    let values = values.push(finding.message@);
    let values = values.push(path);
    let values = values.push(start_line);
    let values = values.push(start_column);
    let values = values.push(end_line);
    let values = values.push(end_column);
    let values = values.push(text_or_empty(finding.symbol));
    let values = values.push(finding.state@);
    let values = values.push(text_or_empty(finding.pre_report_state));
    let values = values.push(decision.decision_id@);
    let values = values.push(decision.action.word());
    let values = values.push(decision.evaluated_at@);
    let values = values.push(decision.policy_digest@);
    let values = values.push(decision.matched_rule_id@);
    let values = values.push(report.verdict.word());
    values
}

proof fn lemma_line_without_end(line: Seq<char>)
    ensures
        line.push('\n').drop_last() == line,
{
    assert(line.push('\n').drop_last() =~= line);
}

proof fn lemma_one_more(row: Seq<char>, values: Seq<Seq<char>>, value: Seq<char>)
    requires
        values.len() > 0,
        row == cells_text(values),
    ensures
        tsv_next(row, value) == cells_text(values.push(value)),
{
    lemma_cells_push(values, value);
}

#[verifier::rlimit(40)]
proof fn lemma_row_cells(report: SessionReport, finding: Finding, decision: Decision)
    ensures
        tsv_row(report, finding, decision).drop_last() == cells_text(row_values(report, finding, decision)),
{
    reveal(tsv_row);
    let (path, start_line, start_column, end_line, end_column) = location_cells(finding);
    let values = seq![report.session_id@];
    let row = tsv_cell(report.session_id@);
    assert(row == cells_text(values)) by {
        reveal(cells_text);
    }
    lemma_one_more(row, values, finding.finding_id@);
    let row = tsv_next(row, finding.finding_id@);
    let values = values.push(finding.finding_id@);
    lemma_one_more(row, values, finding.fingerprint@);
    let row = tsv_next(row, finding.fingerprint@);
    let values = values.push(finding.fingerprint@);
    lemma_one_more(row, values, finding.tool.name@);
    let row = tsv_next(row, finding.tool.name@);
    let values = values.push(finding.tool.name@);
    lemma_one_more(row, values, finding.tool.version@);
    let row = tsv_next(row, finding.tool.version@);
    let values = values.push(finding.tool.version@);
    lemma_one_more(row, values, text_or_empty(finding.tool.rule_id));
    let row = tsv_next(row, text_or_empty(finding.tool.rule_id));
    let values = values.push(text_or_empty(finding.tool.rule_id));
    lemma_one_more(row, values, finding.language@);
    let row = tsv_next(row, finding.language@);
    let values = values.push(finding.language@);
    lemma_one_more(row, values, finding.severity.word());
    let row = tsv_next(row, finding.severity.word());
    let values = values.push(finding.severity.word());
    lemma_one_more(row, values, finding.classification.category@);
    let row = tsv_next(row, finding.classification.category@);
    let values = values.push(finding.classification.category@);
    lemma_one_more(row, values, finding.classification.micro_category@);
    let row = tsv_next(row, finding.classification.micro_category@);
    let values = values.push(finding.classification.micro_category@);
    lemma_one_more(row, values, finding.message@);
    let row = tsv_next(row, finding.message@);
    let values = values.push(finding.message@);
    lemma_one_more(row, values, path);
    let row = tsv_next(row, path);
    let values = values.push(path);
    lemma_one_more(row, values, start_line);
    let row = tsv_next(row, start_line);
    let values = values.push(start_line);
    lemma_one_more(row, values, start_column);
    let row = tsv_next(row, start_column);
    let values = values.push(start_column);
    lemma_one_more(row, values, end_line);
    let row = tsv_next(row, end_line);
    let values = values.push(end_line);
    lemma_one_more(row, values, end_column);
    let row = tsv_next(row, end_column);
    let values = values.push(end_column);
    lemma_one_more(row, values, text_or_empty(finding.symbol));
    let row = tsv_next(row, text_or_empty(finding.symbol));
    let values = values.push(text_or_empty(finding.symbol));
    lemma_one_more(row, values, finding.state@);
    let row = tsv_next(row, finding.state@);
    let values = values.push(finding.state@);
    lemma_one_more(row, values, text_or_empty(finding.pre_report_state));
    let row = tsv_next(row, text_or_empty(finding.pre_report_state));
    let values = values.push(text_or_empty(finding.pre_report_state));
    lemma_one_more(row, values, decision.decision_id@);
    let row = tsv_next(row, decision.decision_id@);
    let values = values.push(decision.decision_id@);
    lemma_one_more(row, values, decision.action.word());
    let row = tsv_next(row, decision.action.word());
    let values = values.push(decision.action.word());
    lemma_one_more(row, values, decision.evaluated_at@);
    let row = tsv_next(row, decision.evaluated_at@);
    let values = values.push(decision.evaluated_at@);
    lemma_one_more(row, values, decision.policy_digest@);
    let row = tsv_next(row, decision.policy_digest@);
    let values = values.push(decision.policy_digest@);
    lemma_one_more(row, values, decision.matched_rule_id@);
    let row = tsv_next(row, decision.matched_rule_id@);
    let values = values.push(decision.matched_rule_id@);
    lemma_one_more(row, values, report.verdict.word());
    let row = tsv_next(row, report.verdict.word());
    let values = values.push(report.verdict.word());
    lemma_line_without_end(row);
}

/// Read back cell by cell, a row says what was found, where, and what was decided on it.
#[verifier::rlimit(40)]
pub proof fn law_rows_tell_findings(report: SessionReport, finding: Finding, decision: Decision)
    ensures
        tells_finding(tsv_row(report, finding, decision).drop_last(), report, finding, decision),
{
    let values = row_values(report, finding, decision);
    lemma_row_cells(report, finding, decision);
    assert forall|j: nat| j < 25 implies #[trigger] cell(cells_text(values), j) == values[j as int] by {
        lemma_cell(values, j);
    }
    if let Some(location) = finding.location {
        law_decimals_read_back(location.start.line as nat);
        law_decimals_read_back(location.start.column as nat);
        if let Some(end) = location.end {
            law_decimals_read_back(end.line as nat);
            law_decimals_read_back(end.column as nat);
        }
    }
}

/// The decision on a finding is one that names it, and there is one exactly where one names it.
pub proof fn law_decisions_name_their_findings(decisions: Seq<Decision>, id: Seq<char>)
    ensures
        decision_on(decisions, id) matches Some(d) ==> d.finding_id@ == id && decisions.contains(d),
        decision_on(decisions, id) is None <==> forall|i: int|
            0 <= i < decisions.len() ==> (#[trigger] decisions[i]).finding_id@ != id,
    decreases decisions.len(),
{
    if decisions.len() > 0 {
        let front = decisions.drop_last();
        law_decisions_name_their_findings(front, id);
        assert(decisions[decisions.len() - 1] == decisions.last());
        if decision_on(front, id) is Some {
            let d = decision_on(front, id).unwrap();
            let i = choose|i: int| 0 <= i < front.len() && front[i] == d;
            assert(decisions[i] == d);
        }
        if decisions.last().finding_id@ != id && decision_on(front, id) is None {
            assert forall|i: int| 0 <= i < decisions.len() implies (#[trigger] decisions[i]).finding_id@ != id by {
                if i < front.len() {
                    assert(front[i] == decisions[i]);
                }
            }
        }
        if forall|i: int| 0 <= i < decisions.len() ==> (#[trigger] decisions[i]).finding_id@ != id {
            assert forall|i: int| 0 <= i < front.len() implies (#[trigger] front[i]).finding_id@ != id by {
                assert(front[i] == decisions[i]);
            }
        }
    }
}

#[verifier::rlimit(40)]
proof fn lemma_lines_tell(report: SessionReport, findings: Seq<Finding>, k: int, text: Seq<char>, max: nat, i: int)
    requires
        0 <= k <= i < findings.len(),
        tsv_from(report, findings, k, text, max) is Ok,
    ensures
        decision_on(report.decisions@, findings[i].finding_id@) is Some,
        i - k < text_lines(tsv_rows(report, findings, k)).len(),
        tells_finding(
            text_lines(tsv_rows(report, findings, k))[i - k],
            report,
            findings[i],
            decision_on(report.decisions@, findings[i].finding_id@).unwrap(),
        ),
    decreases i - k,
{
    lemma_tsv_rows(report, findings, k, text, max);
    let decision = decision_on(report.decisions@, findings[k].finding_id@).unwrap();
    let row = tsv_row(report, findings[k], decision);
    let rest = tsv_rows(report, findings, k + 1);
    let line = row.drop_last();
    law_tsv_rows_are_rectangular(report, findings[k], decision);
    assert(row =~= line.push('\n'));
    lemma_first_line(line, rest);
    assert(tsv_rows(report, findings, k) == line.push('\n') + rest);
    law_rows_tell_findings(report, findings[k], decision);
    if k < i {
        lemma_lines_tell(report, findings, k + 1, text + row, max, i);
        assert(text_lines(tsv_rows(report, findings, k))[i - k] == text_lines(rest)[i - k - 1]);
    }
}

/// Every finding of a report has a line of its projection, behind the header, that says what was found, where,
/// and what the decision that names it decided.
pub proof fn law_every_finding_is_told(report: SessionReport, max: nat, text: Seq<char>, finding: Finding) -> (at: int)
    requires
        tsv_text(report, max) == Ok::<Seq<char>, ReportFault>(text),
        report.findings@.contains(finding),
    ensures
        0 < at < text_lines(text).len(),
        decision_on(report.decisions@, finding.finding_id@) is Some,
        tells_finding(
            text_lines(text)[at],
            report,
            finding,
            decision_on(report.decisions@, finding.finding_id@).unwrap(),
        ),
{
    let findings = arranged(report.findings@);
    lemma_arranged_members(report.findings@);
    let j = choose|j: int| 0 <= j < report.findings@.len() && report.findings@[j] == finding;
    assert(findings.contains(report.findings@[j]));
    let i = choose|i: int| 0 <= i < findings.len() && findings[i] == finding;
    lemma_lines_tell(report, findings, 0, tsv_head(), max, i);
    lemma_tsv_rows(report, findings, 0, tsv_head(), max);
    let rows = tsv_rows(report, findings, 0);
    lemma_header_is_one_line();
    lemma_first_line(TSV_HEADER@, rows);
    assert(text == tsv_head() + rows);
    assert(text_lines(text)[i + 1] == text_lines(rows)[i]);
    i + 1
}

} // verus!
