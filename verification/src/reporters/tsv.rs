//! The tab-separated finding and decision projection.
use super::{
    in_utf8, renders, utf8_bytes, utf8_size, ReportFault, ReportFormat, Reporter, ReporterError,
    ValidatedSessionReport,
};
use crate::json::push_chars;
use crate::model::{Decision, Finding, SessionReport};
use crate::numeral::{decimal, hex, hex_digit, push_decimal, push_hex};
use crate::order::{arranged, arrangement, distinct, equal_texts, law_arranging_ignores_order, lemma_arranged_sorts};
use crate::text::{ascii_control, chars_of, lemma_utf8_concat, utf8_len};
use vstd::prelude::*;
use vstd::utf8::*;

verus! {

/// The projection's header, in the order of its columns.
///
/// Cells escape backslash, tab, line feed and carriage return as `\\`, `\t`, `\n` and `\r`. Other
/// ASCII controls and DEL take the form `\xNN`. So that no spreadsheet reads a cell as a formula,
/// `=`, `+`, `-` and `@` take that form too where they come first.
pub const TSV_HEADER: &'static str = "session_id\tfinding_id\tfingerprint\ttool_name\ttool_version\trule_id\tlanguage\tseverity\tcategory\tmicro_category\tmessage\tpath\tstart_line\tstart_column\tend_line\tend_column\tsymbol\tfinding_state\tpre_report_state\tdecision_id\taction\tevaluated_at\tpolicy_digest\tmatched_rule_id\tverdict";

/// `\xNN`, with the character's code.
pub open spec fn hex_escape(c: char) -> Seq<char> {
    seq!['\\', 'x'] + hex(c as nat, 2, false)
}

/// A spreadsheet takes a cell that begins with it for a formula.
pub open spec fn formula_start(c: char) -> bool {
    c == '=' || c == '+' || c == '-' || c == '@'
}

/// What stands for `c` in a cell.
pub open spec fn tsv_char(c: char) -> Seq<char> {
    if c == '\\' {
        seq!['\\', '\\']
    } else if c == '\t' {
        seq!['\\', 't']
    } else if c == '\n' {
        seq!['\\', 'n']
    } else if c == '\r' {
        seq!['\\', 'r']
    } else if c as u32 <= 0x1f || c as u32 == 0x7f {
        hex_escape(c)
    } else {
        seq![c]
    }
}

/// What stands for `c` at the beginning of a cell.
pub open spec fn tsv_first(c: char) -> Seq<char> {
    if formula_start(c) {
        hex_escape(c)
    } else {
        tsv_char(c)
    }
}

/// What stands for the characters that are not the first of a cell.
pub open spec fn tsv_rest(s: Seq<char>) -> Seq<char>
    decreases s.len(),
{
    if s.len() == 0 {
        s
    } else {
        tsv_char(s[0]) + tsv_rest(s.drop_first())
    }
}

/// The cell that holds `s`.
pub open spec fn tsv_cell(s: Seq<char>) -> Seq<char> {
    if s.len() == 0 {
        s
    } else {
        tsv_first(s[0]) + tsv_rest(s.drop_first())
    }
}

/// A row, followed by another cell.
pub open spec fn tsv_next(row: Seq<char>, value: Seq<char>) -> Seq<char> {
    row.push('\t') + tsv_cell(value)
}

pub open spec fn text_or_empty(value: Option<String>) -> Seq<char> {
    match value {
        Some(text) => text@,
        None => Seq::empty(),
    }
}

/// The path and the four numbers of the finding's location, each empty where there is none.
pub open spec fn location_cells(finding: Finding) -> (Seq<char>, Seq<char>, Seq<char>, Seq<char>, Seq<char>) {
    let none = Seq::<char>::empty();
    match finding.location {
        None => (none, none, none, none, none),
        Some(location) => (
            location.path@,
            decimal(location.start.line as nat),
            decimal(location.start.column as nat),
            match location.end {
                Some(end) => decimal(end.line as nat),
                None => none,
            },
            match location.end {
                Some(end) => decimal(end.column as nat),
                None => none,
            },
        ),
    }
}

/// The row of a finding and the decision on it.
#[verifier::opaque]
pub open spec fn tsv_row(report: SessionReport, finding: Finding, decision: Decision) -> Seq<char> {
    let (path, start_line, start_column, end_line, end_column) = location_cells(finding);
    let row = tsv_cell(report.session_id@);
    let row = tsv_next(row, finding.finding_id@);
    let row = tsv_next(row, finding.fingerprint@);
    let row = tsv_next(row, finding.tool.name@);
    let row = tsv_next(row, finding.tool.version@);
    let row = tsv_next(row, text_or_empty(finding.tool.rule_id));
    let row = tsv_next(row, finding.language@);
    let row = tsv_next(row, finding.severity.word());
    let row = tsv_next(row, finding.classification.category@);
    let row = tsv_next(row, finding.classification.micro_category@);
    let row = tsv_next(row, finding.message@);
    let row = tsv_next(row, path);
    let row = tsv_next(row, start_line);
    let row = tsv_next(row, start_column);
    let row = tsv_next(row, end_line);
    let row = tsv_next(row, end_column);
    let row = tsv_next(row, text_or_empty(finding.symbol));
    let row = tsv_next(row, finding.state@);
    let row = tsv_next(row, text_or_empty(finding.pre_report_state));
    let row = tsv_next(row, decision.decision_id@);
    let row = tsv_next(row, decision.action.word());
    let row = tsv_next(row, decision.evaluated_at@);
    let row = tsv_next(row, decision.policy_digest@);
    let row = tsv_next(row, decision.matched_rule_id@);
    let row = tsv_next(row, report.verdict.word());
    row.push('\n')
}

/// The decision on a finding: the last one that names it.
pub open spec fn decision_on(decisions: Seq<Decision>, finding_id: Seq<char>) -> Option<Decision>
    decreases decisions.len(),
{
    if decisions.len() == 0 {
        None
    } else if decisions.last().finding_id@ == finding_id {
        Some(decisions.last())
    } else {
        decision_on(decisions.drop_last(), finding_id)
    }
}

/// The header line.
pub open spec fn tsv_head() -> Seq<char> {
    TSV_HEADER@.push('\n')
}

/// The projection, from the `k`-th finding on, where `text` stands already.
pub open spec fn tsv_from(
    report: SessionReport,
    findings: Seq<Finding>,
    k: int,
    text: Seq<char>,
    max: nat,
) -> Result<Seq<char>, ReportFault>
    decreases findings.len() - k,
{
    if utf8_len(text) > max {
        Err(ReportFault::OutputTooLarge { format: ReportFormat::Tsv, max })
    } else if k < 0 || k >= findings.len() {
        Ok(text)
    } else {
        match decision_on(report.decisions@, findings[k].finding_id@) {
            None => Err(ReportFault::MissingDecision { finding_id: findings[k].finding_id@ }),
            Some(decision) => tsv_from(
                report,
                findings,
                k + 1,
                text + tsv_row(report, findings[k], decision),
                max,
            ),
        }
    }
}

/// The projection of a report: the header, and a row for each finding, by fingerprint and
/// identifier.
pub open spec fn tsv_text(report: SessionReport, max: nat) -> Result<Seq<char>, ReportFault> {
    tsv_from(report, arranged(report.findings@), 0, tsv_head(), max)
}

fn push_hex_escape(out: &mut Vec<char>, c: char)
    ensures
        final(out)@ == old(out)@ + hex_escape(c),
{
    out.push('\\');
    out.push('x');
    push_hex(out, c as u32 as u64, 2, false);
    assert(out@ =~= old(out)@ + hex_escape(c));
}

fn push_tsv_char(out: &mut Vec<char>, c: char)
    ensures
        final(out)@ == old(out)@ + tsv_char(c),
{
    if c == '\\' {
        out.push('\\');
        out.push('\\');
    } else if c == '\t' {
        out.push('\\');
        out.push('t');
    } else if c == '\n' {
        out.push('\\');
        out.push('n');
    } else if c == '\r' {
        out.push('\\');
        out.push('r');
    } else if c as u32 <= 0x1f || c as u32 == 0x7f {
        push_hex_escape(out, c);
    } else {
        out.push(c);
    }
    assert(out@ =~= old(out)@ + tsv_char(c));
}

/// Adds a cell that holds the text.
fn push_cell(out: &mut Vec<char>, value: &[char])
    ensures
        final(out)@ == old(out)@ + tsv_cell(value@),
{
    if value.len() == 0 {
        assert(out@ =~= old(out)@ + tsv_cell(value@));
        return;
    }
    let first: char = value[0];
    if first == '=' || first == '+' || first == '-' || first == '@' {
        push_hex_escape(out, first);
    } else {
        push_tsv_char(out, first);
    }
    let ghost rest = value@.drop_first();
    let mut i: usize = 1;
    assert(rest.skip(0) =~= rest);
    while i < value.len()
        invariant
            1 <= i <= value.len(),
            rest == value@.drop_first(),
            out@ + tsv_rest(rest.skip(i - 1)) == old(out)@ + tsv_cell(value@),
        decreases value.len() - i,
    {
        push_tsv_char(out, value[i]);
        proof {
            let here = rest.skip(i - 1);
            assert(here[0] == value@[i as int]);
            assert(here.drop_first() =~= rest.skip(i as int));
            assert(out@ + tsv_rest(rest.skip(i as int)) =~= old(out)@ + tsv_cell(value@));
        }
        i = i + 1;
    }
    assert(rest.skip(value@.len() - 1) =~= Seq::<char>::empty());
    assert(out@ =~= out@ + tsv_rest(Seq::<char>::empty()));
}

fn next_cell(out: &mut Vec<char>, value: &[char])
    ensures
        final(out)@ == tsv_next(old(out)@, value@),
{
    out.push('\t');
    push_cell(out, value);
}

fn next_text(out: &mut Vec<char>, value: &str)
    ensures
        final(out)@ == tsv_next(old(out)@, value@),
{
    let chars: Vec<char> = chars_of(value);
    next_cell(out, chars.as_slice());
}

fn next_optional(out: &mut Vec<char>, value: &Option<String>)
    ensures
        final(out)@ == tsv_next(old(out)@, text_or_empty(*value)),
{
    match value {
        Some(text) => next_text(out, text.as_str()),
        None => {
            let none: Vec<char> = Vec::new();
            next_cell(out, none.as_slice());
        },
    }
}

fn next_number(out: &mut Vec<char>, value: u32)
    ensures
        final(out)@ == tsv_next(old(out)@, decimal(value as nat)),
{
    let mut digits: Vec<char> = Vec::new();
    push_decimal(&mut digits, value as u64);
    assert(digits@ =~= decimal(value as nat));
    next_cell(out, digits.as_slice());
}

/// Adds the five cells of the finding's location.
fn next_location(out: &mut Vec<char>, finding: &Finding)
    ensures
        ({
            let (path, start_line, start_column, end_line, end_column) = location_cells(*finding);
            final(out)@ == tsv_next(
                tsv_next(tsv_next(tsv_next(tsv_next(old(out)@, path), start_line), start_column), end_line),
                end_column,
            )
        }),
{
    let none: Vec<char> = Vec::new();
    match &finding.location {
        None => {
            next_cell(out, none.as_slice());
            next_cell(out, none.as_slice());
            next_cell(out, none.as_slice());
            next_cell(out, none.as_slice());
            next_cell(out, none.as_slice());
        },
        Some(location) => {
            next_text(out, location.path.as_str());
            next_number(out, location.start.line);
            next_number(out, location.start.column);
            match &location.end {
                Some(end) => {
                    next_number(out, end.line);
                    next_number(out, end.column);
                },
                None => {
                    next_cell(out, none.as_slice());
                    next_cell(out, none.as_slice());
                },
            }
        },
    }
}

/// The row of a finding and the decision on it.
fn row_of(report: &SessionReport, finding: &Finding, decision: &Decision) -> (r: Vec<char>)
    ensures
        r@ == tsv_row(*report, *finding, *decision),
{
    proof {
        reveal(tsv_row);
    }
    let mut row: Vec<char> = Vec::new();
    let session_id: Vec<char> = chars_of(report.session_id.as_str());
    push_cell(&mut row, session_id.as_slice());
    assert(row@ =~= tsv_cell(report.session_id@));
    next_text(&mut row, finding.finding_id.as_str());
    next_text(&mut row, finding.fingerprint.as_str());
    next_text(&mut row, finding.tool.name.as_str());
    next_text(&mut row, finding.tool.version.as_str());
    next_optional(&mut row, &finding.tool.rule_id);
    next_text(&mut row, finding.language.as_str());
    next_text(&mut row, finding.severity.wire());
    next_text(&mut row, finding.classification.category.as_str());
    next_text(&mut row, finding.classification.micro_category.as_str());
    next_text(&mut row, finding.message.as_str());
    next_location(&mut row, finding);
    next_optional(&mut row, &finding.symbol);
    next_text(&mut row, finding.state.as_str());
    next_optional(&mut row, &finding.pre_report_state);
    next_text(&mut row, decision.decision_id.as_str());
    next_text(&mut row, decision.action.wire());
    next_text(&mut row, decision.evaluated_at.as_str());
    next_text(&mut row, decision.policy_digest.as_str());
    next_text(&mut row, decision.matched_rule_id.as_str());
    next_text(&mut row, report.verdict.wire());
    row.push('\n');
    row
}

/// The decision on a finding: the last one that names it.
pub fn find_decision<'a>(decisions: &'a Vec<Decision>, finding_id: &str) -> (r: Option<&'a Decision>)
    ensures
        match decision_on(decisions@, finding_id@) {
            Some(decision) => r == Some(&decision),
            None => r is None,
        },
{
    let mut n: usize = decisions.len();
    assert(decisions@.take(n as int) =~= decisions@);
    while n > 0
        invariant
            n <= decisions.len(),
            decision_on(decisions@, finding_id@) == decision_on(decisions@.take(n as int), finding_id@),
        decreases n,
    {
        assert(decisions@.take(n as int).last() == decisions@[n - 1]);
        assert(decisions@.take(n as int).drop_last() =~= decisions@.take(n - 1));
        if equal_texts(decisions[n - 1].finding_id.as_str(), finding_id) {
            return Some(&decisions[n - 1]);
        }
        n = n - 1;
    }
    None
}

/// Encodes the projection of a report in at most `limit` bytes.
pub fn encode_tsv(report: &SessionReport, limit: usize) -> (r: Result<Vec<u8>, ReporterError>)
    ensures
        renders(r, tsv_text(*report, limit as nat)),
{
    let order: Vec<usize> = arrangement(&report.findings);
    let ghost all = arranged(report.findings@);
    let mut text: Vec<char> = chars_of(TSV_HEADER);
    text.push('\n');
    let mut size: u128 = utf8_size(text.as_slice());
    let mut k: usize = 0;
    loop
        invariant
            k <= order.len(),
            order.len() == all.len(),
            all == arranged(report.findings@),
            forall|i: int|
                0 <= i < order.len() ==> #[trigger] order@[i] < report.findings.len()
                    && report.findings@[order@[i] as int] == all[i],
            size == utf8_len(text@),
            tsv_text(*report, limit as nat) == tsv_from(*report, all, k as int, text@, limit as nat),
        decreases order.len() - k,
    {
        if size > limit as u128 {
            return Err(ReporterError::OutputTooLarge { format: ReportFormat::Tsv, max: limit });
        }
        if k >= order.len() {
            return Ok(utf8_bytes(text.as_slice()));
        }
        let finding: &Finding = &report.findings[order[k]];
        match find_decision(&report.decisions, finding.finding_id.as_str()) {
            None => {
                return Err(ReporterError::MissingDecision { finding_id: finding.finding_id.clone() });
            },
            Some(decision) => {
                let row: Vec<char> = row_of(report, finding, decision);
                proof {
                    lemma_utf8_concat(text@, row@);
                }
                push_chars(&mut text, row.as_slice());
                size = size + utf8_size(row.as_slice());
            },
        }
        k = k + 1;
    }
}

/// Encodes a validated report as the bounded projection.
pub fn tsv_bytes(report: &ValidatedSessionReport) -> (r: Result<Vec<u8>, ReporterError>)
    ensures
        renders(r, tsv_text(report.content(), report.limit())),
{
    encode_tsv(report.as_report(), report.max_output_bytes())
}

/// The fixed-schema finding and decision projection reporter.
#[derive(Clone, Copy, Debug, Default)]
pub struct TsvReporter;

impl Reporter for TsvReporter {
    open spec fn rendering(&self, report: SessionReport, max: nat) -> Result<Seq<u8>, ReportFault> {
        in_utf8(tsv_text(report, max))
    }

    fn report_bytes(&self, report: &ValidatedSessionReport) -> (r: Result<Vec<u8>, ReporterError>) {
        tsv_bytes(report)
    }
}

/// Reads a cell back.
pub open spec fn tsv_decoded(t: Seq<char>) -> Seq<char>
    decreases t.len(),
{
    if t.len() == 0 {
        t
    } else if t[0] != '\\' || t.len() < 2 {
        seq![t[0]] + tsv_decoded(t.drop_first())
    } else if t[1] == 't' {
        seq!['\t'] + tsv_decoded(t.skip(2))
    } else if t[1] == 'n' {
        seq!['\n'] + tsv_decoded(t.skip(2))
    } else if t[1] == 'r' {
        seq!['\r'] + tsv_decoded(t.skip(2))
    } else if t[1] == 'x' && t.len() >= 4 {
        seq![(16 * hex_value(t[2]) + hex_value(t[3])) as char] + tsv_decoded(t.skip(4))
    } else {
        seq![t[1]] + tsv_decoded(t.skip(2))
    }
}

/// The value of a hexadecimal digit.
pub open spec fn hex_value(c: char) -> nat {
    if '0' <= c <= '9' {
        (c as u32 - '0' as u32) as nat
    } else {
        (c as u32 - 'a' as u32 + 10) as nat
    }
}

proof fn lemma_hex_pair(c: char)
    requires
        (c as u32) < 128,
    ensures
        hex(c as nat, 2, false).len() == 2,
        16 * hex_value(hex(c as nat, 2, false)[0]) + hex_value(hex(c as nat, 2, false)[1]) == c as u32,
        forall|i: int|
            0 <= i < 2 ==> '0' <= #[trigger] hex(c as nat, 2, false)[i] <= '9' || 'a' <= hex(c as nat, 2, false)[i]
                <= 'f',
{
    reveal_with_fuel(hex, 3);
    let n = c as nat;
    let high = hex_digit(n / 16, false);
    let low = hex_digit(n % 16, false);
    assert(hex(n, 2, false) =~= seq![high, low]);
    assert(hex_value(high) == n / 16);
    assert(hex_value(low) == n % 16);
}

proof fn lemma_decoded_step(c: char, escaped: Seq<char>, rest: Seq<char>)
    requires
        escaped == tsv_char(c) || (formula_start(c) && escaped == hex_escape(c)),
    ensures
        tsv_decoded(escaped + rest) == seq![c] + tsv_decoded(rest),
{
    let all = escaped + rest;
    if escaped == hex_escape(c) && (c as u32) < 128 {
        lemma_hex_pair(c);
        assert(all.skip(4) =~= rest);
        assert(all[0] == '\\' && all[1] == 'x');
        assert(all[2] == hex(c as nat, 2, false)[0]);
        assert(all[3] == hex(c as nat, 2, false)[1]);
    } else if escaped.len() == 2 {
        assert(all.skip(2) =~= rest);
    } else {
        assert(all.drop_first() =~= rest);
    }
}

proof fn lemma_rest_decodes(s: Seq<char>)
    ensures
        tsv_decoded(tsv_rest(s)) == s,
    decreases s.len(),
{
    if s.len() > 0 {
        lemma_rest_decodes(s.drop_first());
        lemma_decoded_step(s[0], tsv_char(s[0]), tsv_rest(s.drop_first()));
        assert(s =~= seq![s[0]] + s.drop_first());
    }
}

/// A cell holds its text reversibly: reading it back gives the text, so no two texts share a cell.
pub proof fn law_tsv_cells_are_reversible(s: Seq<char>)
    ensures
        tsv_decoded(tsv_cell(s)) == s,
{
    if s.len() > 0 {
        lemma_rest_decodes(s.drop_first());
        lemma_decoded_step(s[0], tsv_first(s[0]), tsv_rest(s.drop_first()));
        assert(s =~= seq![s[0]] + s.drop_first());
    }
}

proof fn lemma_char_is_printable(c: char)
    ensures
        forall|i: int| 0 <= i < tsv_char(c).len() ==> !ascii_control(#[trigger] tsv_char(c)[i]),
        tsv_char(c).len() > 0,
        forall|i: int| 0 <= i < hex_escape(c).len() && (c as u32) < 128 ==> !ascii_control(#[trigger] hex_escape(c)[i]),
        hex_escape(c)[0] == '\\',
        hex_escape(c).len() > 0,
{
    if (c as u32) < 128 {
        lemma_hex_pair(c);
        let digits = hex(c as nat, 2, false);
        assert forall|i: int| 0 <= i < hex_escape(c).len() implies !ascii_control(#[trigger] hex_escape(c)[i]) by {
            if i >= 2 {
                assert(hex_escape(c)[i] == digits[i - 2]);
            }
        }
    }
}

proof fn lemma_rest_is_printable(s: Seq<char>)
    ensures
        forall|i: int| 0 <= i < tsv_rest(s).len() ==> !ascii_control(#[trigger] tsv_rest(s)[i]),
    decreases s.len(),
{
    if s.len() > 0 {
        lemma_char_is_printable(s[0]);
        lemma_rest_is_printable(s.drop_first());
        let head = tsv_char(s[0]);
        let tail = tsv_rest(s.drop_first());
        assert forall|i: int| 0 <= i < tsv_rest(s).len() implies !ascii_control(#[trigger] tsv_rest(s)[i]) by {
            if i < head.len() {
                assert(tsv_rest(s)[i] == head[i]);
            } else {
                assert(tsv_rest(s)[i] == tail[i - head.len()]);
            }
        }
    }
}

/// No cell holds a control character, so tabs and line ends only part cells and rows; and none
/// begins as a formula does.
pub proof fn law_tsv_cells_are_inert(s: Seq<char>)
    ensures
        forall|i: int| 0 <= i < tsv_cell(s).len() ==> !ascii_control(#[trigger] tsv_cell(s)[i]),
        tsv_cell(s).len() > 0 ==> !formula_start(tsv_cell(s)[0]),
{
    if s.len() > 0 {
        lemma_char_is_printable(s[0]);
        lemma_rest_is_printable(s.drop_first());
        let head = tsv_first(s[0]);
        let tail = tsv_rest(s.drop_first());
        assert forall|i: int| 0 <= i < tsv_cell(s).len() implies !ascii_control(#[trigger] tsv_cell(s)[i]) by {
            if i < head.len() {
                assert(tsv_cell(s)[i] == head[i]);
            } else {
                assert(tsv_cell(s)[i] == tail[i - head.len()]);
            }
        }
        assert(tsv_cell(s)[0] == head[0]);
    }
}

/// How often `c` stands in `s`.
pub open spec fn occurrences(s: Seq<char>, c: char) -> nat
    decreases s.len(),
{
    if s.len() == 0 {
        0
    } else {
        occurrences(s.drop_last(), c) + (if s.last() == c {
            1nat
        } else {
            0
        })
    }
}

pub proof fn lemma_occurrences_add(a: Seq<char>, b: Seq<char>, c: char)
    ensures
        occurrences(a + b, c) == occurrences(a, c) + occurrences(b, c),
    decreases b.len(),
{
    if b.len() == 0 {
        assert(a + b =~= a);
    } else {
        assert((a + b).drop_last() =~= a + b.drop_last());
        assert((a + b).last() == b.last());
        lemma_occurrences_add(a, b.drop_last(), c);
    }
}

pub proof fn lemma_no_occurrence(s: Seq<char>, c: char)
    requires
        forall|i: int| 0 <= i < s.len() ==> #[trigger] s[i] != c,
    ensures
        occurrences(s, c) == 0,
    decreases s.len(),
{
    if s.len() > 0 {
        lemma_no_occurrence(s.drop_last(), c);
    }
}

proof fn lemma_cell_occurrences(s: Seq<char>)
    ensures
        occurrences(tsv_cell(s), '\t') == 0,
        occurrences(tsv_cell(s), '\n') == 0,
{
    law_tsv_cells_are_inert(s);
    assert forall|i: int| 0 <= i < tsv_cell(s).len() implies #[trigger] tsv_cell(s)[i] != '\t' && tsv_cell(s)[i] != '\n' by {
        assert(!ascii_control(tsv_cell(s)[i]));
    }
    lemma_no_occurrence(tsv_cell(s), '\t');
    lemma_no_occurrence(tsv_cell(s), '\n');
}

proof fn lemma_next_occurrences(row: Seq<char>, value: Seq<char>)
    ensures
        occurrences(tsv_next(row, value), '\t') == occurrences(row, '\t') + 1,
        occurrences(tsv_next(row, value), '\n') == occurrences(row, '\n'),
{
    lemma_cell_occurrences(value);
    lemma_occurrences_add(row.push('\t'), tsv_cell(value), '\t');
    lemma_occurrences_add(row.push('\t'), tsv_cell(value), '\n');
    assert(row.push('\t').drop_last() =~= row);
}

/// Whatever the texts of a report hold, each of its rows is one line of twenty-five cells.
pub proof fn law_tsv_rows_are_rectangular(report: SessionReport, finding: Finding, decision: Decision)
    ensures
        occurrences(tsv_row(report, finding, decision), '\t') == 24,
        occurrences(tsv_row(report, finding, decision), '\n') == 1,
        tsv_row(report, finding, decision).last() == '\n',
{
    reveal(tsv_row);
    let (path, start_line, start_column, end_line, end_column) = location_cells(finding);
    lemma_cell_occurrences(report.session_id@);
    let row = tsv_cell(report.session_id@);
    lemma_next_occurrences(row, finding.finding_id@);
    let row = tsv_next(row, finding.finding_id@);
    lemma_next_occurrences(row, finding.fingerprint@);
    let row = tsv_next(row, finding.fingerprint@);
    lemma_next_occurrences(row, finding.tool.name@);
    let row = tsv_next(row, finding.tool.name@);
    lemma_next_occurrences(row, finding.tool.version@);
    let row = tsv_next(row, finding.tool.version@);
    lemma_next_occurrences(row, text_or_empty(finding.tool.rule_id));
    let row = tsv_next(row, text_or_empty(finding.tool.rule_id));
    lemma_next_occurrences(row, finding.language@);
    let row = tsv_next(row, finding.language@);
    lemma_next_occurrences(row, finding.severity.word());
    let row = tsv_next(row, finding.severity.word());
    lemma_next_occurrences(row, finding.classification.category@);
    let row = tsv_next(row, finding.classification.category@);
    lemma_next_occurrences(row, finding.classification.micro_category@);
    let row = tsv_next(row, finding.classification.micro_category@);
    lemma_next_occurrences(row, finding.message@);
    let row = tsv_next(row, finding.message@);
    lemma_next_occurrences(row, path);
    let row = tsv_next(row, path);
    lemma_next_occurrences(row, start_line);
    let row = tsv_next(row, start_line);
    lemma_next_occurrences(row, start_column);
    let row = tsv_next(row, start_column);
    lemma_next_occurrences(row, end_line);
    let row = tsv_next(row, end_line);
    lemma_next_occurrences(row, end_column);
    let row = tsv_next(row, end_column);
    lemma_next_occurrences(row, text_or_empty(finding.symbol));
    let row = tsv_next(row, text_or_empty(finding.symbol));
    lemma_next_occurrences(row, finding.state@);
    let row = tsv_next(row, finding.state@);
    lemma_next_occurrences(row, text_or_empty(finding.pre_report_state));
    let row = tsv_next(row, text_or_empty(finding.pre_report_state));
    lemma_next_occurrences(row, decision.decision_id@);
    let row = tsv_next(row, decision.decision_id@);
    lemma_next_occurrences(row, decision.action.word());
    let row = tsv_next(row, decision.action.word());
    lemma_next_occurrences(row, decision.evaluated_at@);
    let row = tsv_next(row, decision.evaluated_at@);
    lemma_next_occurrences(row, decision.policy_digest@);
    let row = tsv_next(row, decision.policy_digest@);
    lemma_next_occurrences(row, decision.matched_rule_id@);
    let row = tsv_next(row, decision.matched_rule_id@);
    lemma_next_occurrences(row, report.verdict.word());
    let row = tsv_next(row, report.verdict.word());
    assert(row.push('\n').drop_last() =~= row);
}

/// No two decisions are on the same finding.
pub open spec fn one_decision_each(decisions: Seq<Decision>) -> bool {
    forall|i: int, j: int|
        0 <= i < j < decisions.len() ==> (#[trigger] decisions[i]).finding_id@ != (#[trigger] decisions[j]).finding_id@
}

proof fn lemma_decision_found(decisions: Seq<Decision>, finding_id: Seq<char>)
    ensures
        match decision_on(decisions, finding_id) {
            Some(d) => decisions.contains(d) && d.finding_id@ == finding_id,
            None => forall|i: int| 0 <= i < decisions.len() ==> (#[trigger] decisions[i]).finding_id@ != finding_id,
        },
    decreases decisions.len(),
{
    if decisions.len() > 0 {
        let last = decisions.last();
        assert(decisions[decisions.len() - 1] == last);
        if last.finding_id@ != finding_id {
            lemma_decision_found(decisions.drop_last(), finding_id);
            match decision_on(decisions.drop_last(), finding_id) {
                Some(d) => {
                    let k = choose|k: int| 0 <= k < decisions.len() - 1 && decisions.drop_last()[k] == d;
                    assert(decisions[k] == d);
                },
                None => {
                    assert forall|i: int| 0 <= i < decisions.len() implies (#[trigger] decisions[i]).finding_id@
                        != finding_id by {
                        if i < decisions.len() - 1 {
                            assert(decisions.drop_last()[i] == decisions[i]);
                        }
                    }
                },
            }
        }
    }
}

/// The order in which the decisions were given does not matter, where no two are on the same finding.
pub proof fn lemma_decision_ignores_order(a: Seq<Decision>, b: Seq<Decision>, finding_id: Seq<char>)
    requires
        one_decision_each(a),
        a.to_multiset() == b.to_multiset(),
    ensures
        decision_on(a, finding_id) == decision_on(b, finding_id),
{
    broadcast use vstd::seq_lib::group_to_multiset_ensures;

    lemma_decision_found(a, finding_id);
    lemma_decision_found(b, finding_id);
    if let Some(y) = decision_on(b, finding_id) {
        assert(b.to_multiset().contains(y));
        assert(a.contains(y));
        let k = choose|k: int| 0 <= k < a.len() && a[k] == y;
        assert(a[k].finding_id@ == finding_id);
        let x = decision_on(a, finding_id).unwrap();
        let i = choose|i: int| 0 <= i < a.len() && a[i] == x;
        assert(a[i].finding_id@ == a[k].finding_id@);
    } else if let Some(x) = decision_on(a, finding_id) {
        assert(a.to_multiset().contains(x));
        assert(b.contains(x));
    }
}

proof fn lemma_tsv_from(
    a: SessionReport,
    b: SessionReport,
    findings: Seq<Finding>,
    k: int,
    text: Seq<char>,
    max: nat,
)
    requires
        one_decision_each(a.decisions@),
        a.decisions@.to_multiset() == b.decisions@.to_multiset(),
        a.session_id@ == b.session_id@,
        a.verdict == b.verdict,
    ensures
        tsv_from(a, findings, k, text, max) == tsv_from(b, findings, k, text, max),
    decreases findings.len() - k,
{
    if 0 <= k < findings.len() {
        lemma_decision_ignores_order(a.decisions@, b.decisions@, findings[k].finding_id@);
        if let Some(decision) = decision_on(a.decisions@, findings[k].finding_id@) {
            reveal(tsv_row);
            lemma_tsv_from(a, b, findings, k + 1, text + tsv_row(a, findings[k], decision), max);
        }
    }
}

/// Nothing shows in the rows but the session, its verdict, its findings and its decisions; nor does
/// the order in which those were given.
pub proof fn law_tsv_ignores_order(a: SessionReport, b: SessionReport, max: nat)
    requires
        distinct(a.findings@),
        a.findings@.to_multiset() == b.findings@.to_multiset(),
        one_decision_each(a.decisions@),
        a.decisions@.to_multiset() == b.decisions@.to_multiset(),
        a.session_id@ == b.session_id@,
        a.verdict == b.verdict,
    ensures
        tsv_text(a, max) == tsv_text(b, max),
{
    law_arranging_ignores_order(a.findings@, b.findings@);
    lemma_tsv_from(a, b, arranged(a.findings@), 0, tsv_head(), max);
}

/// How many characters stand before the first line end.
pub open spec fn line_length(text: Seq<char>) -> nat
    decreases text.len(),
{
    if text.len() == 0 || text[0] == '\n' {
        0
    } else {
        1 + line_length(text.drop_first())
    }
}

/// The lines of the text, without their ends.
pub open spec fn text_lines(text: Seq<char>) -> Seq<Seq<char>>
    decreases text.len(),
{
    let n = line_length(text) as int;
    if text.len() == 0 {
        Seq::empty()
    } else if n >= text.len() {
        seq![text]
    } else {
        seq![text.take(n)] + text_lines(text.skip(n + 1))
    }
}

proof fn lemma_line_length(line: Seq<char>, rest: Seq<char>)
    requires
        occurrences(line, '\n') == 0,
    ensures
        line_length(line.push('\n') + rest) == line.len(),
    decreases line.len(),
{
    let text = line.push('\n') + rest;
    if line.len() > 0 {
        lemma_occurrences_add(seq![line[0]], line.drop_first(), '\n');
        assert(line =~= seq![line[0]] + line.drop_first());
        assert(seq![line[0]].drop_last() =~= Seq::<char>::empty());
        assert(seq![line[0]].last() == line[0]);
        lemma_line_length(line.drop_first(), rest);
        assert(text.drop_first() =~= line.drop_first().push('\n') + rest);
    }
}

pub proof fn lemma_first_line(line: Seq<char>, rest: Seq<char>)
    requires
        occurrences(line, '\n') == 0,
    ensures
        text_lines(line.push('\n') + rest) == seq![line] + text_lines(rest),
{
    let text = line.push('\n') + rest;
    lemma_line_length(line, rest);
    assert(text.take(line.len() as int) =~= line);
    assert(text.skip(line.len() as int + 1) =~= rest);
}

/// The rows of the findings from the `k`-th on, one behind the other.
pub open spec fn tsv_rows(report: SessionReport, findings: Seq<Finding>, k: int) -> Seq<char>
    decreases findings.len() - k,
{
    if k < 0 || k >= findings.len() {
        Seq::empty()
    } else {
        match decision_on(report.decisions@, findings[k].finding_id@) {
            None => Seq::empty(),
            Some(decision) => tsv_row(report, findings[k], decision) + tsv_rows(report, findings, k + 1),
        }
    }
}

pub proof fn lemma_tsv_rows(report: SessionReport, findings: Seq<Finding>, k: int, text: Seq<char>, max: nat)
    requires
        0 <= k <= findings.len(),
    ensures
        tsv_from(report, findings, k, text, max) matches Ok(whole) ==> {
            &&& whole == text + tsv_rows(report, findings, k)
            &&& text_lines(tsv_rows(report, findings, k)).len() == findings.len() - k
            &&& forall|i: int|
                0 <= i < findings.len() - k ==> occurrences(#[trigger] text_lines(tsv_rows(report, findings, k))[i], '\t')
                    == 24
        },
    decreases findings.len() - k,
{
    let rows = tsv_rows(report, findings, k);
    if k >= findings.len() {
        assert(text + rows =~= text);
    } else if utf8_len(text) <= max {
        match decision_on(report.decisions@, findings[k].finding_id@) {
            None => {},
            Some(decision) => {
                let row = tsv_row(report, findings[k], decision);
                let rest = tsv_rows(report, findings, k + 1);
                lemma_tsv_rows(report, findings, k + 1, text + row, max);
                assert((text + row) + rest =~= text + rows);
                law_tsv_rows_are_rectangular(report, findings[k], decision);
                let line = row.drop_last();
                assert(row =~= line.push('\n'));
                assert(occurrences(row, '\t') == occurrences(line, '\t'));
                lemma_first_line(line, rest);
                assert(rows == line.push('\n') + rest);
                if tsv_from(report, findings, k, text, max) is Ok {
                    let lines = text_lines(rows);
                    assert forall|i: int| 0 <= i < lines.len() implies occurrences(#[trigger] lines[i], '\t') == 24 by {
                        if i > 0 {
                            assert(lines[i] == text_lines(rest)[i - 1]);
                        } else {
                            assert(lines[i] == line);
                        }
                    }
                }
            },
        }
    }
}

/// A projection has the header and one line for each finding, and each of these has twenty-five cells.
pub proof fn law_tsv_has_a_row_for_each_finding(report: SessionReport, max: nat)
    ensures
        tsv_text(report, max) matches Ok(text) ==> {
            &&& text_lines(text).len() == report.findings@.len() + 1
            &&& text_lines(text)[0] == TSV_HEADER@
            &&& forall|i: int|
                0 < i < text_lines(text).len() ==> occurrences(#[trigger] text_lines(text)[i], '\t') == 24
        },
{
    broadcast use vstd::seq_lib::group_to_multiset_ensures;

    let findings = arranged(report.findings@);
    lemma_arranged_sorts(report.findings@);
    assert(findings.len() == findings.to_multiset().len());
    assert(report.findings@.len() == report.findings@.to_multiset().len());
    lemma_tsv_rows(report, findings, 0, tsv_head(), max);
    let rows = tsv_rows(report, findings, 0);
    lemma_header_is_one_line();
    lemma_first_line(TSV_HEADER@, rows);
    let lines = text_lines(tsv_head() + rows);
    assert forall|i: int| 0 < i < lines.len() implies #[trigger] lines[i] == text_lines(rows)[i - 1] by {}
}

pub proof fn lemma_header_is_one_line()
    ensures
        occurrences(TSV_HEADER@, '\n') == 0,
{
    reveal_strlit("session_id\tfinding_id\tfingerprint\ttool_name\ttool_version\trule_id\tlanguage\tseverity\tcategory\tmicro_category\tmessage\tpath\tstart_line\tstart_column\tend_line\tend_column\tsymbol\tfinding_state\tpre_report_state\tdecision_id\taction\tevaluated_at\tpolicy_digest\tmatched_rule_id\tverdict");
    assert forall|i: int| 0 <= i < TSV_HEADER@.len() implies #[trigger] TSV_HEADER@[i] != '\n' by {}
    lemma_no_occurrence(TSV_HEADER@, '\n');
}

} // verus!
