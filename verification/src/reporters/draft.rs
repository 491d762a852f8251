//! Bug issue drafts, as JSON.
use super::{
    bounded_bytes, in_utf8, renders, same_execution, same_finding, same_ids, same_inside, same_records,
    same_up_to_order, utf8_size, ReportFault, ReportFormat, Reporter, ReporterError, ValidatedSessionReport,
};
use super::records::{
    decision_projection, evidence_projection, execution_projection, finding_projection, id_views, project_decision,
    project_evidence, project_execution, project_finding, BugDecision, BugDecisionV1, BugEvidenceRef,
    BugEvidenceRefV1, BugExecution, BugExecutionV1, BugFinding, BugFindingV1, BUG_ISSUE_DRAFT_SCHEMA_VERSION,
    BUG_ISSUE_LABEL,
};
use crate::json::{
    add_member, add_string, add_value, json_items, json_list, json_member, json_object, json_string, jsons,
    list_json, object_json, ToJson,
};
use crate::model::{Decision, Evidence, Execution, Finding, SessionReport, Verdict};
use crate::order::{
    arranged, arrangement, distinct, key_order, law_arranged_texts_ignore_order, law_arranging_ignores_order,
    placed, Keyed, Placement,
};
use crate::process::invocation::texts;
use crate::text::{lemma_utf8_concat, lemma_utf8_push, utf8_len};
use vstd::prelude::*;
use vstd::utf8::*;

verus! {

/// There is a value, and it is `x`.
pub open spec fn holds<X>(value: Option<X>, x: X) -> bool {
    value == Some(x)
}

/// A record of a report that has a place in a draft.
pub trait Record: Keyed {
    type Draft: ToJson + View;

    /// What the draft holds of it; nothing where a text goes over `max` bytes.
    spec fn drafted(&self, max: nat) -> Option<<Self::Draft as View>::V>;

    /// The same as JSON.
    spec fn drafted_json(&self, max: nat) -> Option<Seq<char>>;

    fn draft(&self, max: usize) -> (r: Option<Self::Draft>)
        ensures
            match r {
                Some(v) => holds(self.drafted(max as nat), v@) && holds(self.drafted_json(max as nat), v.json()),
                None => self.drafted(max as nat) is None && self.drafted_json(max as nat) is None,
            },
    ;

    /// No JSON form is empty.
    proof fn lemma_json_is_not_empty(&self, max: nat)
        ensures
            self.drafted_json(max) matches Some(text) ==> text.len() > 0,
    ;
}

impl Record for Finding {
    type Draft = BugFindingV1;

    open spec fn drafted(&self, max: nat) -> Option<BugFinding> {
        finding_projection(*self, max)
    }

    open spec fn drafted_json(&self, max: nat) -> Option<Seq<char>> {
        match finding_projection(*self, max) {
            Some(v) => Some(v.json()),
            None => None,
        }
    }

    fn draft(&self, max: usize) -> (r: Option<BugFindingV1>) {
        let r = project_finding(self, max);
        proof {
            if let Some(v) = &r {
                assert(holds(self.drafted(max as nat), v@));
                assert(v.json() == v@.json());
            }
        }
        r
    }

    proof fn lemma_json_is_not_empty(&self, max: nat) {
        reveal(BugFinding::json);
    }
}

impl Record for Decision {
    type Draft = BugDecisionV1;

    open spec fn drafted(&self, max: nat) -> Option<BugDecision> {
        decision_projection(*self, max)
    }

    open spec fn drafted_json(&self, max: nat) -> Option<Seq<char>> {
        match decision_projection(*self, max) {
            Some(v) => Some(v.json()),
            None => None,
        }
    }

    fn draft(&self, max: usize) -> (r: Option<BugDecisionV1>) {
        let r = project_decision(self, max);
        proof {
            if let Some(v) = &r {
                assert(holds(self.drafted(max as nat), v@));
                assert(v.json() == v@.json());
            }
        }
        r
    }

    proof fn lemma_json_is_not_empty(&self, max: nat) {
        reveal(BugDecision::json);
    }
}

impl Record for Evidence {
    type Draft = BugEvidenceRefV1;

    open spec fn drafted(&self, max: nat) -> Option<BugEvidenceRef> {
        evidence_projection(*self, max)
    }

    open spec fn drafted_json(&self, max: nat) -> Option<Seq<char>> {
        match evidence_projection(*self, max) {
            Some(v) => Some(v.json()),
            None => None,
        }
    }

    fn draft(&self, max: usize) -> (r: Option<BugEvidenceRefV1>) {
        let r = project_evidence(self, max);
        proof {
            if let Some(v) = &r {
                assert(holds(self.drafted(max as nat), v@));
                assert(v.json() == v@.json());
            }
        }
        r
    }

    proof fn lemma_json_is_not_empty(&self, max: nat) {
        reveal(BugEvidenceRef::json);
    }
}

impl Record for Execution {
    type Draft = BugExecutionV1;

    open spec fn drafted(&self, max: nat) -> Option<BugExecution> {
        execution_projection(*self, max)
    }

    open spec fn drafted_json(&self, max: nat) -> Option<Seq<char>> {
        match execution_projection(*self, max) {
            Some(v) => Some(v.json()),
            None => None,
        }
    }

    fn draft(&self, max: usize) -> (r: Option<BugExecutionV1>) {
        let r = project_execution(self, max);
        proof {
            if let Some(v) = &r {
                assert(holds(self.drafted(max as nat), v@));
                assert(v.json() == v@.json());
            }
        }
        r
    }

    proof fn lemma_json_is_not_empty(&self, max: nat) {
        reveal(BugExecution::json);
    }
}

/// All records can be drafted.
pub open spec fn all_fit<T: Record>(v: Seq<T>, max: nat) -> bool
    decreases v.len(),
{
    v.len() == 0 || all_fit(v.drop_last(), max) && v.last().drafted_json(max) is Some
}

/// The JSON forms of the records in a draft.
pub open spec fn drafted_jsons<T: Record>(v: Seq<T>, max: nat) -> Seq<Seq<char>> {
    Seq::new(v.len(), |i: int| v[i].drafted_json(max).unwrap())
}

/// The list of the records in a draft.
pub open spec fn drafted_list<T: Record>(v: Seq<T>, max: nat) -> Seq<char> {
    json_list(drafted_jsons(arranged(v), max))
}

/// A draft's JSON form, made of what it says itself and its four lists.
#[verifier::opaque]
pub open spec fn draft_object(
    report: SessionReport,
    findings: Seq<char>,
    decisions: Seq<char>,
    evidence: Seq<char>,
    executions: Seq<char>,
) -> Seq<char> {
    let body = Seq::<char>::empty();
    let body = json_member(body, "schema_version"@, json_string(BUG_ISSUE_DRAFT_SCHEMA_VERSION@));
    let body = json_member(body, "labels"@, json_list(seq![json_string(BUG_ISSUE_LABEL@)]));
    let body = json_member(body, "session_id"@, json_string(report.session_id@));
    let body = json_member(body, "contract_sha256"@, json_string(report.contract_sha256@));
    let body = json_member(body, "policy_digest"@, json_string(report.policy_digest@));
    let body = json_member(body, "verdict"@, report.verdict.json());
    let body = json_member(body, "findings"@, findings);
    let body = json_member(body, "decisions"@, decisions);
    let body = json_member(body, "evidence"@, evidence);
    let body = json_member(body, "executions"@, executions);
    json_object(body)
}

/// Every text of the report's records stays within `max` bytes when it is sanitized.
pub open spec fn report_fits(report: SessionReport, max: nat) -> bool {
    &&& all_fit(report.findings@, max)
    &&& all_fit(report.decisions@, max)
    &&& all_fit(report.evidence@, max)
    &&& all_fit(report.executions@, max)
}

/// The draft of a report as one line of JSON.
pub open spec fn draft_line(report: SessionReport, max: nat) -> Seq<char> {
    draft_object(
        report,
        drafted_list(report.findings@, max),
        drafted_list(report.decisions@, max),
        drafted_list(report.evidence@, max),
        drafted_list(report.executions@, max),
    ).push('\n')
}

/// The draft of a report, where its texts and the draft itself stay within their limits.
pub open spec fn draft_text(report: SessionReport, format: ReportFormat, max: nat, limit: nat) -> Result<
    Seq<char>,
    ReportFault,
> {
    if report_fits(report, max) && utf8_len(draft_line(report, max)) <= limit {
        Ok(draft_line(report, max))
    } else {
        Err(ReportFault::OutputTooLarge { format, max: limit })
    }
}

proof fn lemma_fit_at<T: Record>(v: Seq<T>, max: nat, i: int)
    requires
        0 <= i < v.len(),
        v[i].drafted_json(max) is None,
    ensures
        !all_fit(v, max),
    decreases v.len(),
{
    if i < v.len() - 1 {
        lemma_fit_at(v.drop_last(), max, i);
    }
}

pub proof fn lemma_all_fit_at<T: Record>(v: Seq<T>, max: nat, i: int)
    requires
        0 <= i < v.len(),
        all_fit(v, max),
    ensures
        v[i].drafted_json(max) is Some,
    decreases v.len(),
{
    if i < v.len() - 1 {
        lemma_all_fit_at(v.drop_last(), max, i);
    }
}

/// Whether the records can be drafted does not go by their order.
pub proof fn lemma_arranged_fits<T: Record>(v: Seq<T>, max: nat)
    ensures
        all_fit(arranged(v), max) == all_fit(v, max),
{
    lemma_arranged_size(v, max);
}

/// The bytes of the records' JSON forms together.
pub open spec fn drafted_size<T: Record>(v: Seq<T>, max: nat) -> nat
    decreases v.len(),
{
    if v.len() == 0 {
        0
    } else {
        drafted_size(v.drop_last(), max) + utf8_len(v.last().drafted_json(max).unwrap())
    }
}

/// The bytes of a list of records, without its brackets.
pub open spec fn items_size<T: Record>(v: Seq<T>, max: nat) -> nat {
    drafted_size(v, max) + (if v.len() == 0 {
        0nat
    } else {
        (v.len() - 1) as nat
    })
}

proof fn lemma_placed_size<T: Record>(v: Seq<T>, x: T, max: nat)
    ensures
        drafted_size(placed(v, x), max) == drafted_size(v, max) + utf8_len(x.drafted_json(max).unwrap()),
        all_fit(placed(v, x), max) == (all_fit(v, max) && x.drafted_json(max) is Some),
        placed(v, x).len() == v.len() + 1,
    decreases v.len(),
{
    if v.len() == 0 || key_order(v.last().key(), x.key()) != Placement::After {
        assert(v.push(x).drop_last() =~= v);
    } else {
        lemma_placed_size(v.drop_last(), x, max);
        let p = placed(v.drop_last(), x);
        assert(p.push(v.last()).drop_last() =~= p);
    }
}

/// Neither the size of a list nor whether it can be drafted goes by the order of its records.
proof fn lemma_arranged_size<T: Record>(v: Seq<T>, max: nat)
    ensures
        drafted_size(arranged(v), max) == drafted_size(v, max),
        all_fit(arranged(v), max) == all_fit(v, max),
        arranged(v).len() == v.len(),
    decreases v.len(),
{
    if v.len() > 0 {
        lemma_arranged_size(v.drop_last(), max);
        lemma_placed_size(arranged(v.drop_last()), v.last(), max);
    }
}

proof fn lemma_items_size<T: Record>(v: Seq<T>, max: nat)
    requires
        all_fit(v, max),
    ensures
        utf8_len(json_items(drafted_jsons(v, max))) == items_size(v, max),
        v.len() > 0 ==> json_items(drafted_jsons(v, max)).len() > 0,
    decreases v.len(),
{
    if v.len() == 0 {
        assert(encode_utf8(Seq::<char>::empty()) =~= Seq::<u8>::empty());
    } else {
        let before = v.drop_last();
        let last = v.last().drafted_json(max).unwrap();
        lemma_items_size(before, max);
        v.last().lemma_json_is_not_empty(max);
        assert(drafted_jsons(v, max).drop_last() =~= drafted_jsons(before, max));
        assert(drafted_jsons(v, max).last() == last);
        let body = json_items(drafted_jsons(before, max));
        if before.len() > 0 {
            lemma_utf8_push(body, ',');
            lemma_utf8_concat(body.push(','), last);
        } else {
            assert(body =~= Seq::<char>::empty());
        }
    }
}

proof fn lemma_list_size(items: Seq<char>)
    ensures
        utf8_len(seq!['['] + items + seq![']']) == utf8_len(items) + 2,
{
    reveal_with_fuel(encode_utf8, 2);
    lemma_utf8_concat(seq!['['] + items, seq![']']);
    lemma_utf8_concat(seq!['['], items);
    assert(seq!['['].drop_first() =~= Seq::<char>::empty());
    assert(seq![']'].drop_first() =~= Seq::<char>::empty());
}

proof fn lemma_member_size(body: Seq<char>, key: Seq<char>, a: Seq<char>, b: Seq<char>)
    ensures
        utf8_len(json_member(body, key, a)) + utf8_len(b) == utf8_len(json_member(body, key, b)) + utf8_len(a),
        json_member(body, key, a).len() > 0,
{
    let head = json_string(key).push(':');
    lemma_utf8_concat(head, a);
    lemma_utf8_concat(head, b);
    lemma_utf8_concat(body.push(','), head + a);
    lemma_utf8_concat(body.push(','), head + b);
}

/// Two objects that share their members but one differ in size as their bodies do.
proof fn lemma_object_size(a: Seq<char>, b: Seq<char>)
    ensures
        utf8_len(json_object(a)) + utf8_len(b) == utf8_len(json_object(b)) + utf8_len(a),
{
    lemma_utf8_concat(seq!['{'] + a, seq!['}']);
    lemma_utf8_concat(seq!['{'], a);
    lemma_utf8_concat(seq!['{'] + b, seq!['}']);
    lemma_utf8_concat(seq!['{'], b);
}

proof fn lemma_next_member_size(a: Seq<char>, b: Seq<char>, key: Seq<char>, value: Seq<char>)
    requires
        a.len() > 0,
        b.len() > 0,
    ensures
        utf8_len(json_member(a, key, value)) + utf8_len(b) == utf8_len(json_member(b, key, value)) + utf8_len(a),
{
    let member = crate::json::json_named(key, value);
    lemma_utf8_push(a, ',');
    lemma_utf8_push(b, ',');
    lemma_utf8_concat(a.push(','), member);
    lemma_utf8_concat(b.push(','), member);
}

/// The lists of a draft add their own sizes to that of the draft without them.
proof fn lemma_draft_size(
    report: SessionReport,
    findings: Seq<char>,
    decisions: Seq<char>,
    evidence: Seq<char>,
    executions: Seq<char>,
    none: Seq<char>,
)
    ensures
        utf8_len(draft_object(report, findings, decisions, evidence, executions)) + 4 * utf8_len(none) == utf8_len(
            draft_object(report, none, none, none, none),
        ) + utf8_len(findings) + utf8_len(decisions) + utf8_len(evidence) + utf8_len(executions),
{
    reveal(draft_object);
    let head = Seq::<char>::empty();
    let head = json_member(head, "schema_version"@, json_string(BUG_ISSUE_DRAFT_SCHEMA_VERSION@));
    let head = json_member(head, "labels"@, json_list(seq![json_string(BUG_ISSUE_LABEL@)]));
    let head = json_member(head, "session_id"@, json_string(report.session_id@));
    let head = json_member(head, "contract_sha256"@, json_string(report.contract_sha256@));
    let head = json_member(head, "policy_digest"@, json_string(report.policy_digest@));
    let head = json_member(head, "verdict"@, report.verdict.json());
    lemma_member_size(head, "findings"@, findings, none);
    lemma_member_size(head, "findings"@, none, findings);
    let a1 = json_member(head, "findings"@, findings);
    let b1 = json_member(head, "findings"@, none);
    lemma_member_size(a1, "decisions"@, decisions, none);
    lemma_next_member_size(a1, b1, "decisions"@, none);
    lemma_member_size(b1, "decisions"@, none, decisions);
    let a2 = json_member(a1, "decisions"@, decisions);
    let b2 = json_member(b1, "decisions"@, none);
    lemma_member_size(a2, "evidence"@, evidence, none);
    lemma_next_member_size(a2, b2, "evidence"@, none);
    lemma_member_size(b2, "evidence"@, none, evidence);
    let a3 = json_member(a2, "evidence"@, evidence);
    let b3 = json_member(b2, "evidence"@, none);
    lemma_member_size(a3, "executions"@, executions, none);
    lemma_next_member_size(a3, b3, "executions"@, none);
    lemma_member_size(b3, "executions"@, none, executions);
    let a4 = json_member(a3, "executions"@, executions);
    let b4 = json_member(b3, "executions"@, none);
    lemma_object_size(a4, b4);
}

/// What measuring a list of records comes to: the bytes counted so far, or nothing where they go
/// over the limit or a record cannot be drafted; and how many records were drafted on the way.
pub struct Tally {
    pub total: Option<nat>,
    pub drafted: nat,
}

/// Measures the records from the `k`-th on, where `total` bytes are counted already.
#[verifier::opaque]
pub open spec fn tally<T: Record>(v: Seq<T>, k: int, total: nat, max: nat, limit: nat) -> Tally
    decreases v.len() - k,
{
    if k < 0 || k >= v.len() {
        Tally { total: Some(total), drafted: v.len() }
    } else {
        match v[k].drafted_json(max) {
            None => Tally { total: None, drafted: (k + 1) as nat },
            Some(text) => {
                let next = total + (if k > 0 {
                    1nat
                } else {
                    0
                }) + utf8_len(text);
                if next > limit {
                    Tally { total: None, drafted: (k + 1) as nat }
                } else {
                    tally(v, k + 1, next, max, limit)
                }
            },
        }
    }
}

/// The draft of a report that has no records.
pub open spec fn empty_line(report: SessionReport) -> Seq<char> {
    let none = json_list(Seq::empty());
    draft_object(report, none, none, none, none).push('\n')
}

/// Measures a whole report, list by list.
pub open spec fn report_tally(report: SessionReport, max: nat, limit: nat) -> Tally {
    let none = Tally { total: None, drafted: 0 };
    if utf8_len(empty_line(report)) > limit {
        none
    } else {
        match tally(report.findings@, 0, utf8_len(empty_line(report)), max, limit).total {
            None => none,
            Some(a) => match tally(report.decisions@, 0, a, max, limit).total {
                None => none,
                Some(b) => match tally(report.evidence@, 0, b, max, limit).total {
                    None => none,
                    Some(c) => tally(report.executions@, 0, c, max, limit),
                },
            },
        }
    }
}

proof fn lemma_take_step<T: Record>(v: Seq<T>, k: int, max: nat)
    requires
        0 <= k < v.len(),
    ensures
        items_size(v.take(k + 1), max) == items_size(v.take(k), max) + (if k > 0 {
            1nat
        } else {
            0
        }) + utf8_len(v[k].drafted_json(max).unwrap()),
        all_fit(v.take(k + 1), max) == (all_fit(v.take(k), max) && v[k].drafted_json(max) is Some),
{
    assert(v.take(k + 1).drop_last() =~= v.take(k));
    assert(v.take(k + 1).last() == v[k]);
}

proof fn lemma_take_grows<T: Record>(v: Seq<T>, k: int, max: nat)
    requires
        0 <= k <= v.len(),
    ensures
        items_size(v.take(k), max) <= items_size(v, max),
        all_fit(v, max) ==> all_fit(v.take(k), max),
    decreases v.len() - k,
{
    if k < v.len() {
        lemma_take_step(v, k, max);
        lemma_take_grows(v, k + 1, max);
    } else {
        assert(v.take(k) =~= v);
    }
}

/// Measuring counts every byte of the list once, and fails only where a record cannot be drafted or
/// the whole list goes over the limit.
proof fn lemma_tally<T: Record>(v: Seq<T>, k: int, base: nat, max: nat, limit: nat)
    requires
        0 <= k <= v.len(),
        all_fit(v.take(k), max),
        base + items_size(v.take(k), max) <= limit,
    ensures
        ({
            let t = tally(v, k, base + items_size(v.take(k), max), max, limit);
            if all_fit(v, max) && base + items_size(v, max) <= limit {
                t.total == Some(base + items_size(v, max))
            } else {
                t.total is None
            }
        }),
    decreases v.len() - k,
{
    reveal(tally);
    if k < v.len() {
        lemma_take_step(v, k, max);
        lemma_take_grows(v, k + 1, max);
        if v[k].drafted_json(max) is Some && base + items_size(v.take(k + 1), max) <= limit {
            lemma_tally(v, k + 1, base, max, limit);
        }
    } else {
        assert(v.take(k) =~= v);
    }
}

proof fn lemma_list_tally<T: Record>(v: Seq<T>, base: nat, max: nat, limit: nat)
    requires
        base <= limit,
    ensures
        tally(v, 0, base, max, limit).total == (if all_fit(v, max) && base + items_size(v, max) <= limit {
            Some(base + items_size(v, max))
        } else {
            None
        }),
{
    assert(v.take(0) =~= Seq::<T>::empty());
    lemma_tally(v, 0, base, max, limit);
}

proof fn lemma_drafted_list_size<T: Record>(v: Seq<T>, max: nat)
    requires
        all_fit(v, max),
    ensures
        utf8_len(drafted_list(v, max)) == items_size(v, max) + 2,
{
    lemma_arranged_size(v, max);
    lemma_items_size(arranged(v), max);
    lemma_list_size(json_items(drafted_jsons(arranged(v), max)));
}

/// The bytes of the report's records in a draft, with the commas between them.
spec fn records_size(report: SessionReport, max: nat) -> nat {
    items_size(report.findings@, max) + items_size(report.decisions@, max) + items_size(report.evidence@, max)
        + items_size(report.executions@, max)
}

/// A draft takes the bytes of one without records, and those of its records.
proof fn lemma_line_size(report: SessionReport, max: nat)
    requires
        report_fits(report, max),
    ensures
        utf8_len(draft_line(report, max)) == utf8_len(empty_line(report)) + records_size(report, max),
{
    let none = json_list(Seq::<Seq<char>>::empty());
    lemma_empty_list_size();
    let f = drafted_list(report.findings@, max);
    let d = drafted_list(report.decisions@, max);
    let e = drafted_list(report.evidence@, max);
    let x = drafted_list(report.executions@, max);
    lemma_drafted_list_size(report.findings@, max);
    lemma_drafted_list_size(report.decisions@, max);
    lemma_drafted_list_size(report.evidence@, max);
    lemma_drafted_list_size(report.executions@, max);
    lemma_utf8_push(draft_object(report, none, none, none, none), '\n');
    lemma_utf8_push(draft_object(report, f, d, e, x), '\n');
    lemma_draft_size(report, f, d, e, x, none);
}

proof fn lemma_empty_list_size()
    ensures
        utf8_len(json_list(Seq::<Seq<char>>::empty())) == 2,
{
    assert(encode_utf8(Seq::<char>::empty()) =~= Seq::<u8>::empty());
    lemma_list_size(Seq::<char>::empty());
}

proof fn lemma_report_tally(report: SessionReport, max: nat, limit: nat)
    ensures
        report_tally(report, max, limit).total == (if report_fits(report, max) && utf8_len(empty_line(report))
            + records_size(report, max) <= limit {
            Some(utf8_len(empty_line(report)) + records_size(report, max))
        } else {
            None
        }),
{
    let base = utf8_len(empty_line(report));
    if base <= limit {
        lemma_list_tally(report.findings@, base, max, limit);
        let a = base + items_size(report.findings@, max);
        if a <= limit {
            lemma_list_tally(report.decisions@, a, max, limit);
            let b = a + items_size(report.decisions@, max);
            if b <= limit {
                lemma_list_tally(report.evidence@, b, max, limit);
                let c = b + items_size(report.evidence@, max);
                if c <= limit {
                    lemma_list_tally(report.executions@, c, max, limit);
                }
            }
        }
    }
}

/// Measuring a report record by record gives exactly the size of its draft, and fails exactly where
/// the draft cannot be made within the limit.
pub proof fn law_measured_size_is_exact(report: SessionReport, max: nat, limit: nat)
    ensures
        report_tally(report, max, limit).total == (if report_fits(report, max) && utf8_len(draft_line(report, max))
            <= limit {
            Some(utf8_len(draft_line(report, max)))
        } else {
            None
        }),
{
    lemma_report_tally(report, max, limit);
    if report_fits(report, max) {
        lemma_line_size(report, max);
    }
}

/// A count of bytes up to a limit.
#[derive(Clone, Copy, Debug)]
pub struct ProjectionCounter {
    bytes: Option<usize>,
    limit: usize,
}

impl ProjectionCounter {
    /// The bytes counted, where they did not go over the limit.
    pub closed spec fn total(&self) -> Option<nat> {
        match self.bytes {
            Some(n) => Some(n as nat),
            None => None,
        }
    }

    pub closed spec fn bound(&self) -> nat {
        self.limit as nat
    }

    pub fn new(limit: usize) -> (r: Self)
        ensures
            r.total() == Some(0nat),
            r.bound() == limit,
    {
        ProjectionCounter { bytes: Some(0), limit }
    }

    /// Counts more bytes. Once over the limit, the count stays so.
    pub fn record(&mut self, more: u128)
        ensures
            final(self).bound() == old(self).bound(),
            final(self).total() == (match old(self).total() {
                Some(n) => if n + more <= old(self).bound() {
                    Some((n + more) as nat)
                } else {
                    None
                },
                None => None,
            }),
    {
        self.bytes = match self.bytes {
            Some(n) => if more <= usize::MAX as u128 && n as u128 + more <= self.limit as u128 {
                Some((n as u128 + more) as usize)
            } else {
                None
            },
            None => None,
        };
    }

    /// Gives the count up.
    pub fn give_up(&mut self)
        ensures
            final(self).bound() == old(self).bound(),
            final(self).total() is None,
    {
        self.bytes = None;
    }

    /// The bytes counted, where they did not go over the limit.
    pub fn counted(&self) -> (r: Option<usize>)
        ensures
            match r {
                Some(n) => self.total() == Some(n as nat),
                None => self.total() is None,
            },
    {
        self.bytes
    }
}

/// Measures the records, one at a time, and says how many were drafted.
fn measure_collection<T: Record>(counter: &mut ProjectionCounter, v: &Vec<T>, max: usize) -> (r: usize)
    requires
        old(counter).total() is Some,
    ensures
        final(counter).bound() == old(counter).bound(),
        ({
            let t = tally(v@, 0, old(counter).total().unwrap(), max as nat, old(counter).bound());
            final(counter).total() == t.total && r == t.drafted
        }),
{
    proof {
        reveal(tally);
    }
    let ghost whole = tally(v@, 0, counter.total().unwrap(), max as nat, counter.bound());
    let ghost bound = counter.bound();
    let mut k: usize = 0;
    while k < v.len()
        invariant
            k <= v.len(),
            counter.total() is Some,
            counter.bound() == bound,
            bound == old(counter).bound(),
            whole == tally(v@, 0, old(counter).total().unwrap(), max as nat, bound),
            whole == tally(v@, k as int, counter.total().unwrap(), max as nat, bound),
        decreases v.len() - k,
    {
        proof {
            reveal(tally);
        }
        match v[k].draft(max) {
            None => {
                proof {
                    assert(v@[k as int].drafted_json(max as nat) is None);
                }
                counter.give_up();
                return k + 1;
            },
            Some(one) => {
                let text: Vec<char> = one.write_json();
                assert(v@[k as int].drafted_json(max as nat) == Some(text@));
                counter.record(if k > 0 {
                    1
                } else {
                    0
                });
                counter.record(utf8_size(text.as_slice()));
                if counter.counted().is_none() {
                    return k + 1;
                }
            },
        }
        k = k + 1;
    }
    k
}

/// What measuring a report comes to: its size, where the draft can be made, and how many executions
/// were drafted on the way.
#[derive(Clone, Copy, Debug, PartialEq, Eq, Structural)]
pub struct Measurement {
    pub bytes: Option<usize>,
    pub executions: usize,
}

/// Measures the draft of a report without making more of it than one record at a time.
pub fn measure_report(report: &SessionReport, max: usize, limit: usize) -> (r: Measurement)
    ensures
        ({
            let t = report_tally(*report, max as nat, limit as nat);
            &&& r.executions == t.drafted
            &&& match r.bytes {
                Some(n) => t.total == Some(n as nat),
                None => t.total is None,
            }
        }),
{
    let mut counter: ProjectionCounter = ProjectionCounter::new(limit);
    let none: Vec<char> = empty_list();
    let empty: Vec<char> = draft_of(
        report,
        none.as_slice(),
        none.as_slice(),
        none.as_slice(),
        none.as_slice(),
    );
    counter.record(utf8_size(empty.as_slice()));
    if counter.counted().is_none() {
        return Measurement { bytes: None, executions: 0 };
    }
    let _ = measure_collection(&mut counter, &report.findings, max);
    if counter.counted().is_none() {
        return Measurement { bytes: None, executions: 0 };
    }
    let _ = measure_collection(&mut counter, &report.decisions, max);
    if counter.counted().is_none() {
        return Measurement { bytes: None, executions: 0 };
    }
    let _ = measure_collection(&mut counter, &report.evidence, max);
    if counter.counted().is_none() {
        return Measurement { bytes: None, executions: 0 };
    }
    let executions: usize = measure_collection(&mut counter, &report.executions, max);
    Measurement { bytes: counter.counted(), executions }
}

/// The size of a report's draft, where it can be made within the limit.
pub fn measure_project_report(report: &SessionReport, max: usize, limit: usize, format: ReportFormat) -> (r: Result<
    usize,
    ReporterError,
>)
    ensures
        if report_fits(*report, max as nat) && utf8_len(draft_line(*report, max as nat)) <= limit {
            r matches Ok(n) && n == utf8_len(draft_line(*report, max as nat))
        } else {
            r == Err::<usize, ReporterError>(ReporterError::OutputTooLarge { format, max: limit })
        },
{
    proof {
        law_measured_size_is_exact(*report, max as nat, limit as nat);
    }
    match measure_report(report, max, limit).bytes {
        Some(n) => Ok(n),
        None => Err(ReporterError::OutputTooLarge { format, max: limit }),
    }
}

fn empty_list() -> (r: Vec<char>)
    ensures
        r@ == json_list(Seq::empty()),
{
    let mut out: Vec<char> = Vec::new();
    out.push('[');
    out.push(']');
    assert(out@ =~= json_list(Seq::empty()));
    out
}

/// A draft's JSON form and the line end behind it.
fn draft_of(
    report: &SessionReport,
    findings: &[char],
    decisions: &[char],
    evidence: &[char],
    executions: &[char],
) -> (r: Vec<char>)
    ensures
        r@ == draft_object(*report, findings@, decisions@, evidence@, executions@).push('\n'),
{
    proof {
        reveal(draft_object);
    }
    let mut body: Vec<char> = Vec::new();
    add_string(&mut body, "schema_version", BUG_ISSUE_DRAFT_SCHEMA_VERSION);
    let labels: Vec<char> = label_list();
    add_member(&mut body, "labels", labels.as_slice());
    add_string(&mut body, "session_id", report.session_id.as_str());
    add_string(&mut body, "contract_sha256", report.contract_sha256.as_str());
    add_string(&mut body, "policy_digest", report.policy_digest.as_str());
    add_value(&mut body, "verdict", &report.verdict);
    add_member(&mut body, "findings", findings);
    add_member(&mut body, "decisions", decisions);
    add_member(&mut body, "evidence", evidence);
    add_member(&mut body, "executions", executions);
    let mut out: Vec<char> = object_json(body.as_slice());
    out.push('\n');
    out
}

fn label_list() -> (r: Vec<char>)
    ensures
        r@ == json_list(seq![json_string(BUG_ISSUE_LABEL@)]),
{
    let mut labels: Vec<String> = Vec::new();
    labels.push(BUG_ISSUE_LABEL.to_owned());
    assert(jsons(labels@) =~= seq![json_string(BUG_ISSUE_LABEL@)]);
    list_json(&labels)
}

/// The records of a draft, in order.
fn draft_all<T: Record>(v: &Vec<T>, max: usize) -> (r: Option<Vec<T::Draft>>)
    ensures
        match r {
            Some(d) => {
                &&& all_fit(v@, max as nat)
                &&& drafts_of(v@, d@, max as nat)
                &&& jsons(d@) == drafted_jsons(arranged(v@), max as nat)
            },
            None => !all_fit(v@, max as nat),
        },
{
    let order: Vec<usize> = arrangement(v);
    let ghost all = arranged(v@);
    proof {
        lemma_arranged_size(v@, max as nat);
    }
    let mut out: Vec<T::Draft> = Vec::new();
    let mut i: usize = 0;
    while i < order.len()
        invariant
            i <= order.len(),
            order.len() == all.len(),
            all == arranged(v@),
            all_fit(all, max as nat) == all_fit(v@, max as nat),
            forall|k: int| 0 <= k < order.len() ==> #[trigger] order@[k] < v.len() && v@[order@[k] as int] == all[k],
            out.len() == i,
            all_fit(all.take(i as int), max as nat),
            forall|k: int|
                0 <= k < i ==> holds(all[k].drafted(max as nat), (#[trigger] out@[k])@) && holds(
                    all[k].drafted_json(max as nat),
                    out@[k].json(),
                ),
        decreases order.len() - i,
    {
        match v[order[i]].draft(max) {
            None => {
                proof {
                    lemma_fit_at(all, max as nat, i as int);
                }
                return None;
            },
            Some(one) => {
                proof {
                    assert(all.take(i + 1).drop_last() =~= all.take(i as int));
                    assert(all.take(i + 1).last() == all[i as int]);
                }
                out.push(one);
            },
        }
        i = i + 1;
    }
    assert(all.take(all.len() as int) =~= all);
    assert(jsons(out@) =~= drafted_jsons(all, max as nat));
    Some(out)
}

/// The drafts are those of the records, in order.
pub open spec fn drafts_of<T: Record>(v: Seq<T>, d: Seq<T::Draft>, max: nat) -> bool {
    &&& d.len() == arranged(v).len()
    &&& forall|i: int| 0 <= i < d.len() ==> holds(arranged(v)[i].drafted(max), (#[trigger] d[i])@)
}

/// A sanitized, canonical bug issue draft.
#[derive(Clone, Debug, PartialEq, Eq)]
pub struct BugIssueDraftV1 {
    pub session_id: String,
    pub contract_sha256: String,
    pub policy_digest: String,
    pub verdict: Verdict,
    pub findings: Vec<BugFindingV1>,
    pub decisions: Vec<BugDecisionV1>,
    pub evidence: Vec<BugEvidenceRefV1>,
    pub executions: Vec<BugExecutionV1>,
}

impl BugIssueDraftV1 {
    /// It is the draft of the report.
    pub open spec fn is_draft_of(&self, report: SessionReport, max: nat) -> bool {
        &&& self.session_id@ == report.session_id@
        &&& self.contract_sha256@ == report.contract_sha256@
        &&& self.policy_digest@ == report.policy_digest@
        &&& self.verdict == report.verdict
        &&& drafts_of(report.findings@, self.findings@, max)
        &&& drafts_of(report.decisions@, self.decisions@, max)
        &&& drafts_of(report.evidence@, self.evidence@, max)
        &&& drafts_of(report.executions@, self.executions@, max)
        &&& self.line() == draft_line(report, max)
    }

    /// The draft as one line of JSON.
    pub open spec fn line(&self) -> Seq<char> {
        let body = Seq::<char>::empty();
        let body = json_member(body, "schema_version"@, json_string(BUG_ISSUE_DRAFT_SCHEMA_VERSION@));
        let body = json_member(body, "labels"@, json_list(seq![json_string(BUG_ISSUE_LABEL@)]));
        let body = json_member(body, "session_id"@, json_string(self.session_id@));
        let body = json_member(body, "contract_sha256"@, json_string(self.contract_sha256@));
        let body = json_member(body, "policy_digest"@, json_string(self.policy_digest@));
        let body = json_member(body, "verdict"@, self.verdict.json());
        let body = json_member(body, "findings"@, json_list(jsons(self.findings@)));
        let body = json_member(body, "decisions"@, json_list(jsons(self.decisions@)));
        let body = json_member(body, "evidence"@, json_list(jsons(self.evidence@)));
        let body = json_member(body, "executions"@, json_list(jsons(self.executions@)));
        json_object(body).push('\n')
    }

    /// Projects a report; none where one of its texts goes over `max` bytes.
    pub fn project_unchecked(report: &SessionReport, max: usize) -> (r: Option<BugIssueDraftV1>)
        ensures
            match r {
                Some(draft) => report_fits(*report, max as nat) && draft.is_draft_of(*report, max as nat),
                None => !report_fits(*report, max as nat),
            },
    {
        proof {
            reveal(draft_object);
        }
        let findings: Vec<BugFindingV1> = match draft_all(&report.findings, max) {
            Some(d) => d,
            None => return None,
        };
        let decisions: Vec<BugDecisionV1> = match draft_all(&report.decisions, max) {
            Some(d) => d,
            None => return None,
        };
        let evidence: Vec<BugEvidenceRefV1> = match draft_all(&report.evidence, max) {
            Some(d) => d,
            None => return None,
        };
        let executions: Vec<BugExecutionV1> = match draft_all(&report.executions, max) {
            Some(d) => d,
            None => return None,
        };
        Some(
            BugIssueDraftV1 {
                session_id: report.session_id.clone(),
                contract_sha256: report.contract_sha256.clone(),
                policy_digest: report.policy_digest.clone(),
                verdict: report.verdict,
                findings,
                decisions,
                evidence,
                executions,
            },
        )
    }

    /// Projects a report whose draft, and whose texts, take at most `max` bytes.
    pub fn project_report(report: &SessionReport, max: usize, format: ReportFormat) -> (r: Result<
        BugIssueDraftV1,
        ReporterError,
    >)
        ensures
            if report_fits(*report, max as nat) && utf8_len(draft_line(*report, max as nat)) <= max {
                r matches Ok(draft) && draft.is_draft_of(*report, max as nat)
            } else {
                r == Err::<BugIssueDraftV1, ReporterError>(ReporterError::OutputTooLarge { format, max })
            },
    {
        match measure_project_report(report, max, max, format) {
            Err(error) => Err(error),
            Ok(_) => match BugIssueDraftV1::project_unchecked(report, max) {
                Some(draft) => Ok(draft),
                None => Err(ReporterError::OutputTooLarge { format, max }),
            },
        }
    }

    /// Projects a validated report.
    pub fn project(report: &ValidatedSessionReport) -> (r: Result<BugIssueDraftV1, ReporterError>)
        ensures
            if report_fits(report.content(), report.limit()) && utf8_len(draft_line(report.content(), report.limit()))
                <= report.limit() {
                r matches Ok(draft) && draft.is_draft_of(report.content(), report.limit())
            } else {
                r matches Err(error) && super::reports_fault(
                    error,
                    ReportFault::OutputTooLarge { format: ReportFormat::BugIssueDraftJson, max: report.limit() },
                )
            },
    {
        BugIssueDraftV1::project_report(
            report.as_report(),
            report.max_output_bytes(),
            ReportFormat::BugIssueDraftJson,
        )
    }
}

/// Encodes a draft as one line of JSON of at most `limit` bytes.
pub fn encode_draft(draft: &BugIssueDraftV1, limit: usize) -> (r: Result<Vec<u8>, ReporterError>)
    ensures
        renders(r, super::bounded(draft.line(), ReportFormat::BugIssueDraftJson, limit as nat)),
{
    let mut body: Vec<char> = Vec::new();
    add_string(&mut body, "schema_version", BUG_ISSUE_DRAFT_SCHEMA_VERSION);
    let labels: Vec<char> = label_list();
    add_member(&mut body, "labels", labels.as_slice());
    add_string(&mut body, "session_id", draft.session_id.as_str());
    add_string(&mut body, "contract_sha256", draft.contract_sha256.as_str());
    add_string(&mut body, "policy_digest", draft.policy_digest.as_str());
    add_value(&mut body, "verdict", &draft.verdict);
    let findings: Vec<char> = list_json(&draft.findings);
    add_member(&mut body, "findings", findings.as_slice());
    let decisions: Vec<char> = list_json(&draft.decisions);
    add_member(&mut body, "decisions", decisions.as_slice());
    let evidence: Vec<char> = list_json(&draft.evidence);
    add_member(&mut body, "evidence", evidence.as_slice());
    let executions: Vec<char> = list_json(&draft.executions);
    add_member(&mut body, "executions", executions.as_slice());
    let mut out: Vec<char> = object_json(body.as_slice());
    out.push('\n');
    bounded_bytes(out.as_slice(), ReportFormat::BugIssueDraftJson, limit)
}

/// Encodes the draft of a validated report as one line of bounded JSON.
pub fn bug_issue_draft_json_bytes(report: &ValidatedSessionReport) -> (r: Result<Vec<u8>, ReporterError>)
    ensures
        renders(
            r,
            draft_text(report.content(), ReportFormat::BugIssueDraftJson, report.limit(), report.limit()),
        ),
{
    match BugIssueDraftV1::project(report) {
        Err(error) => Err(error),
        Ok(draft) => encode_draft(&draft, report.max_output_bytes()),
    }
}

/// The JSON reporter of bug issue drafts.
#[derive(Clone, Copy, Debug, Default)]
pub struct BugIssueDraftJsonReporter;

impl Reporter for BugIssueDraftJsonReporter {
    open spec fn rendering(&self, report: SessionReport, max: nat) -> Result<Seq<u8>, ReportFault> {
        in_utf8(draft_text(report, ReportFormat::BugIssueDraftJson, max, max))
    }

    fn report_bytes(&self, report: &ValidatedSessionReport) -> (r: Result<Vec<u8>, ReporterError>) {
        bug_issue_draft_json_bytes(report)
    }
}

proof fn lemma_same_records_fit<T: Record>(a: Seq<T>, b: Seq<T>, max: nat)
    requires
        distinct(a),
        a.to_multiset() == b.to_multiset(),
    ensures
        all_fit(a, max) == all_fit(b, max),
        drafted_list(a, max) == drafted_list(b, max),
{
    law_arranging_ignores_order(a, b);
    lemma_arranged_size(a, max);
    lemma_arranged_size(b, max);
}

proof fn lemma_same_records_draft(a: SessionReport, b: SessionReport, format: ReportFormat, max: nat, limit: nat)
    requires
        same_records(a, b),
    ensures
        draft_text(a, format, max, limit) == draft_text(b, format, max, limit),
{
    lemma_same_records_fit(a.findings@, b.findings@, max);
    lemma_same_records_fit(a.decisions@, b.decisions@, max);
    lemma_same_records_fit(a.evidence@, b.evidence@, max);
    lemma_same_records_fit(a.executions@, b.executions@, max);
    assert(draft_line(a, max) == draft_line(b, max)) by {
        reveal(draft_object);
    }
}

/// The findings say the same of everything that a draft holds, in whatever order they name their
/// observations and evidence.
pub open spec fn same_listed_finding(a: Finding, b: Finding) -> bool {
    &&& b == Finding {
        schema_version: b.schema_version,
        state: b.state,
        pre_report_state: b.pre_report_state,
        observation_ids: b.observation_ids,
        evidence_ids: b.evidence_ids,
        fix_candidate_id: b.fix_candidate_id,
        verification_execution_ids: b.verification_execution_ids,
        ..a
    }
    &&& same_ids(a.observation_ids@, b.observation_ids@)
    &&& same_ids(a.evidence_ids@, b.evidence_ids@)
}

/// The decisions say the same of everything that a draft holds.
pub open spec fn same_listed_decision(a: Decision, b: Decision) -> bool {
    b == Decision { schema_version: b.schema_version, policy_digest: b.policy_digest, ..a }
}

/// The pieces of evidence say the same of everything that a draft holds: all but what was kept, and
/// how much of it.
pub open spec fn same_listed_evidence(a: Evidence, b: Evidence) -> bool {
    b == Evidence {
        schema_version: b.schema_version,
        media_type: b.media_type,
        retained_bytes: b.retained_bytes,
        observed_bytes: b.observed_bytes,
        limit_bytes: b.limit_bytes,
        truncated: b.truncated,
        content: b.content,
        ..a
    }
}

/// The executions say the same of everything that a draft holds: all but how they were run.
pub open spec fn same_listed_execution(a: Execution, b: Execution) -> bool {
    b == Execution {
        schema_version: b.schema_version,
        toolchain_fingerprint: b.toolchain_fingerprint,
        phases_ms: b.phases_ms,
        performance: b.performance,
        cache: b.cache,
        retry: b.retry,
        runner: b.runner,
        verification: b.verification,
        ..a
    }
}

/// The reports say the same of everything that a draft holds.
pub open spec fn same_listed(a: SessionReport, b: SessionReport) -> bool {
    &&& a.session_id@ == b.session_id@
    &&& a.contract_sha256@ == b.contract_sha256@
    &&& a.policy_digest@ == b.policy_digest@
    &&& a.verdict == b.verdict
    &&& a.findings@.len() == b.findings@.len()
    &&& forall|i: int| 0 <= i < a.findings@.len() ==> same_listed_finding(#[trigger] a.findings@[i], b.findings@[i])
    &&& a.decisions@.len() == b.decisions@.len()
    &&& forall|i: int| 0 <= i < a.decisions@.len() ==> same_listed_decision(#[trigger] a.decisions@[i], b.decisions@[i])
    &&& a.evidence@.len() == b.evidence@.len()
    &&& forall|i: int| 0 <= i < a.evidence@.len() ==> same_listed_evidence(#[trigger] a.evidence@[i], b.evidence@[i])
    &&& a.executions@.len() == b.executions@.len()
    &&& forall|i: int|
        0 <= i < a.executions@.len() ==> same_listed_execution(#[trigger] a.executions@[i], b.executions@[i])
}

/// The records have the same places, and the same drafts.
spec fn drafted_alike<T: Record>(a: Seq<T>, b: Seq<T>, max: nat) -> bool {
    &&& a.len() == b.len()
    &&& forall|i: int|
        0 <= i < a.len() ==> (#[trigger] a[i]).key() == b[i].key() && a[i].drafted_json(max) == b[i].drafted_json(max)
}

proof fn lemma_placed_alike<T: Record>(a: Seq<T>, b: Seq<T>, x: T, y: T, max: nat)
    requires
        drafted_alike(a, b, max),
        x.key() == y.key(),
        x.drafted_json(max) == y.drafted_json(max),
    ensures
        drafted_alike(placed(a, x), placed(b, y), max),
    decreases a.len(),
{
    if a.len() > 0 {
        assert(a.last() == a[a.len() - 1] && b.last() == b[b.len() - 1]);
        assert forall|i: int| 0 <= i < a.len() - 1 implies (#[trigger] a.drop_last()[i]).key() == b.drop_last()[i].key()
            && a.drop_last()[i].drafted_json(max) == b.drop_last()[i].drafted_json(max) by {
            assert(a.drop_last()[i] == a[i] && b.drop_last()[i] == b[i]);
        }
        lemma_placed_alike(a.drop_last(), b.drop_last(), x, y, max);
    }
}

proof fn lemma_arranged_alike<T: Record>(a: Seq<T>, b: Seq<T>, max: nat)
    requires
        drafted_alike(a, b, max),
    ensures
        drafted_alike(arranged(a), arranged(b), max),
        all_fit(a, max) == all_fit(b, max),
    decreases a.len(),
{
    if a.len() > 0 {
        assert(a.last() == a[a.len() - 1] && b.last() == b[b.len() - 1]);
        assert forall|i: int| 0 <= i < a.len() - 1 implies (#[trigger] a.drop_last()[i]).key() == b.drop_last()[i].key()
            && a.drop_last()[i].drafted_json(max) == b.drop_last()[i].drafted_json(max) by {
            assert(a.drop_last()[i] == a[i] && b.drop_last()[i] == b[i]);
        }
        lemma_arranged_alike(a.drop_last(), b.drop_last(), max);
        lemma_placed_alike(arranged(a.drop_last()), arranged(b.drop_last()), a.last(), b.last(), max);
    }
}

proof fn lemma_alike_lists<T: Record>(a: Seq<T>, b: Seq<T>, max: nat)
    requires
        drafted_alike(a, b, max),
    ensures
        all_fit(a, max) == all_fit(b, max),
        drafted_list(a, max) == drafted_list(b, max),
{
    lemma_arranged_alike(a, b, max);
    let x = arranged(a);
    let y = arranged(b);
    assert forall|i: int| 0 <= i < x.len() implies drafted_jsons(x, max)[i] == drafted_jsons(y, max)[i] by {
        assert(x[i].drafted_json(max) == y[i].drafted_json(max));
    }
    assert(drafted_jsons(x, max) =~= drafted_jsons(y, max));
}

proof fn lemma_same_id_views(a: Seq<String>, b: Seq<String>)
    requires
        same_ids(a, b),
    ensures
        id_views(arranged(a)) == id_views(arranged(b)),
{
    law_arranged_texts_ignore_order(a, b);
    assert(id_views(arranged(a)) =~= texts(arranged(a)));
    assert(id_views(arranged(b)) =~= texts(arranged(b)));
}

/// A draft shows nothing of a report but what it lists: no observation, no fix candidate, nothing of
/// what was kept as evidence, and nothing of the machine on which a tool was run.
pub proof fn law_draft_shows_only_what_it_lists(
    a: SessionReport,
    b: SessionReport,
    format: ReportFormat,
    max: nat,
    limit: nat,
)
    requires
        same_listed(a, b),
    ensures
        draft_text(a, format, max, limit) == draft_text(b, format, max, limit),
{
    assert forall|i: int| 0 <= i < a.findings@.len() implies (#[trigger] a.findings@[i]).key() == b.findings@[i].key()
        && a.findings@[i].drafted_json(max) == b.findings@[i].drafted_json(max) by {
        assert(same_listed_finding(a.findings@[i], b.findings@[i]));
        lemma_same_id_views(a.findings@[i].observation_ids@, b.findings@[i].observation_ids@);
        lemma_same_id_views(a.findings@[i].evidence_ids@, b.findings@[i].evidence_ids@);
    }
    assert forall|i: int| 0 <= i < a.decisions@.len() implies (#[trigger] a.decisions@[i]).key()
        == b.decisions@[i].key() && a.decisions@[i].drafted_json(max) == b.decisions@[i].drafted_json(max) by {
        assert(same_listed_decision(a.decisions@[i], b.decisions@[i]));
    }
    assert forall|i: int| 0 <= i < a.evidence@.len() implies (#[trigger] a.evidence@[i]).key() == b.evidence@[i].key()
        && a.evidence@[i].drafted_json(max) == b.evidence@[i].drafted_json(max) by {
        assert(same_listed_evidence(a.evidence@[i], b.evidence@[i]));
    }
    assert forall|i: int| 0 <= i < a.executions@.len() implies (#[trigger] a.executions@[i]).key()
        == b.executions@[i].key() && a.executions@[i].drafted_json(max) == b.executions@[i].drafted_json(max) by {
        assert(same_listed_execution(a.executions@[i], b.executions@[i]));
    }
    lemma_alike_lists(a.findings@, b.findings@, max);
    lemma_alike_lists(a.decisions@, b.decisions@, max);
    lemma_alike_lists(a.evidence@, b.evidence@, max);
    lemma_alike_lists(a.executions@, b.executions@, max);
    assert(draft_line(a, max) == draft_line(b, max)) by {
        reveal(draft_object);
    }
}

/// A draft does not show the order in which the records of the report were given, nor that of the
/// identifiers in the lists inside a record.
pub proof fn law_draft_ignores_order(a: SessionReport, b: SessionReport, format: ReportFormat, max: nat, limit: nat)
    requires
        same_up_to_order(a, b),
    ensures
        draft_text(a, format, max, limit) == draft_text(b, format, max, limit),
{
    let between = choose|between: SessionReport| #[trigger] same_records(a, between) && same_inside(between, b);
    lemma_same_records_draft(a, between, format, max, limit);
    assert forall|i: int| 0 <= i < between.findings@.len() implies same_listed_finding(
        #[trigger] between.findings@[i],
        b.findings@[i],
    ) by {
        assert(same_finding(between.findings@[i], b.findings@[i]));
    }
    assert forall|i: int| 0 <= i < between.executions@.len() implies same_listed_execution(
        #[trigger] between.executions@[i],
        b.executions@[i],
    ) by {
        assert(same_execution(between.executions@[i], b.executions@[i]));
    }
    law_draft_shows_only_what_it_lists(between, b, format, max, limit);
}

} // verus!
