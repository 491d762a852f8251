//! What a reader of a draft's JSON takes out of it.
use super::draft::BugIssueDraftV1;
use super::records::{
    id_jsons, BugDecision, BugEvidenceRef, BugExecution, BugFinding, BugLocation, BugTaxonomy, BugTool, BugWaiver,
    BUG_ISSUE_DRAFT_SCHEMA_VERSION, BUG_ISSUE_LABEL,
};
use crate::json::{json_bool, json_list, json_member, json_nullable, json_object, json_string, jsons, ToJson};
use crate::json::reading::{
    items_of, law_json_lists_read_back, law_json_strings_read_back, law_plain_json_is_one_value, lemma_no_members,
    lemma_object_read_back, lemma_one_more_member, members_of, one_value, plain_name,
};
use crate::model::reading::law_position_reads_back;
use crate::numeral::decimal;
use vstd::prelude::*;
use vstd::string::*;

verus! {

proof fn lemma_id_list(ids: Seq<Seq<char>>)
    ensures
        items_of(json_list(id_jsons(ids))) == id_jsons(ids),
        one_value(json_list(id_jsons(ids))),
{
    assert forall|i: int| 0 <= i < id_jsons(ids).len() implies one_value(#[trigger] id_jsons(ids)[i]) by {
        law_json_strings_read_back(ids[i]);
    }
    law_json_lists_read_back(id_jsons(ids));
}

/// Read back, the JSON of a list of drafted records has the JSON of each, in their order.
pub proof fn law_drafted_lists_read_back<T: ToJson>(v: Seq<T>)
    requires
        forall|i: int| 0 <= i < v.len() ==> one_value((#[trigger] v[i]).json()),
    ensures
        items_of(json_list(jsons(v))) == jsons(v),
        one_value(json_list(jsons(v))),
{
    assert forall|i: int| 0 <= i < jsons(v).len() implies one_value(#[trigger] jsons(v)[i]) by {
        assert(one_value(v[i].json()));
    }
    law_json_lists_read_back(jsons(v));
}

proof fn lemma_names_of_bug_tool()
    ensures
        plain_name("name"@),
        plain_name("version"@),
        plain_name("rule_id"@),
{
    assert(plain_name("name"@)) by {
        reveal(plain_name);
        reveal_strlit("name");
    }
    assert(plain_name("version"@)) by {
        reveal(plain_name);
        reveal_strlit("version");
    }
    assert(plain_name("rule_id"@)) by {
        reveal(plain_name);
        reveal_strlit("rule_id");
    }
}

/// What the JSON of a drafted tool says, member by member.
pub open spec fn bug_tool_members(v: BugTool) -> Seq<(Seq<char>, Seq<char>)> {
    let m = Seq::empty();
    let m = m.push(("name"@, json_string(v.name)));
    let m = m.push(("version"@, json_string(v.version)));
    let m = m.push(("rule_id"@, json_nullable(match v.rule_id { Some(s) => Some(json_string(s)), None => None })));
    m
}

/// Read back, the JSON of a drafted tool says each thing of it under its own name, and null for what is missing.
pub proof fn law_bug_tool_reads_back(v: BugTool)
    ensures
        members_of(v.json()) == bug_tool_members(v),
        one_value(v.json()),
{
    let body = Seq::<char>::empty();
    let m = Seq::<(Seq<char>, Seq<char>)>::empty();
    lemma_no_members();
    lemma_names_of_bug_tool();
    reveal(BugTool::json);
    law_json_strings_read_back(v.name);
    lemma_one_more_member(body, m, "name"@, json_string(v.name));
    let body = json_member(body, "name"@, json_string(v.name));
    let m = m.push(("name"@, json_string(v.name)));
    law_json_strings_read_back(v.version);
    lemma_one_more_member(body, m, "version"@, json_string(v.version));
    let body = json_member(body, "version"@, json_string(v.version));
    let m = m.push(("version"@, json_string(v.version)));
    law_plain_json_is_one_value(0, true);
    if let Some(y) = v.rule_id {
        law_json_strings_read_back(y);
    }
    lemma_one_more_member(body, m, "rule_id"@, json_nullable(match v.rule_id { Some(s) => Some(json_string(s)), None => None }));
    let body = json_member(body, "rule_id"@, json_nullable(match v.rule_id { Some(s) => Some(json_string(s)), None => None }));
    let m = m.push(("rule_id"@, json_nullable(match v.rule_id { Some(s) => Some(json_string(s)), None => None })));
    lemma_object_read_back(body, m);
}

proof fn lemma_names_of_bug_location()
    ensures
        plain_name("path"@),
        plain_name("start"@),
        plain_name("end"@),
{
    assert(plain_name("path"@)) by {
        reveal(plain_name);
        reveal_strlit("path");
    }
    assert(plain_name("start"@)) by {
        reveal(plain_name);
        reveal_strlit("start");
    }
    assert(plain_name("end"@)) by {
        reveal(plain_name);
        reveal_strlit("end");
    }
}

/// What the JSON of a drafted location says, member by member.
pub open spec fn bug_location_members(v: BugLocation) -> Seq<(Seq<char>, Seq<char>)> {
    let m = Seq::empty();
    let m = m.push(("path"@, json_string(v.path)));
    let m = m.push(("start"@, v.start.json()));
    let m = m.push(("end"@, json_nullable(match v.end { Some(x) => Some(x.json()), None => None })));
    m
}

/// Read back, the JSON of a drafted location says each thing of it under its own name, and null for what is missing.
pub proof fn law_bug_location_reads_back(v: BugLocation)
    ensures
        members_of(v.json()) == bug_location_members(v),
        one_value(v.json()),
{
    let body = Seq::<char>::empty();
    let m = Seq::<(Seq<char>, Seq<char>)>::empty();
    lemma_no_members();
    lemma_names_of_bug_location();
    reveal(BugLocation::json);
    law_json_strings_read_back(v.path);
    lemma_one_more_member(body, m, "path"@, json_string(v.path));
    let body = json_member(body, "path"@, json_string(v.path));
    let m = m.push(("path"@, json_string(v.path)));
    law_position_reads_back(v.start);
    lemma_one_more_member(body, m, "start"@, v.start.json());
    let body = json_member(body, "start"@, v.start.json());
    let m = m.push(("start"@, v.start.json()));
    law_plain_json_is_one_value(0, true);
    if let Some(y) = v.end {
        law_position_reads_back(y);
    }
    lemma_one_more_member(body, m, "end"@, json_nullable(match v.end { Some(x) => Some(x.json()), None => None }));
    let body = json_member(body, "end"@, json_nullable(match v.end { Some(x) => Some(x.json()), None => None }));
    let m = m.push(("end"@, json_nullable(match v.end { Some(x) => Some(x.json()), None => None })));
    lemma_object_read_back(body, m);
}

proof fn lemma_names_of_bug_taxonomy()
    ensures
        plain_name("category"@),
        plain_name("micro_category"@),
{
    assert(plain_name("category"@)) by {
        reveal(plain_name);
        reveal_strlit("category");
    }
    assert(plain_name("micro_category"@)) by {
        reveal(plain_name);
        reveal_strlit("micro_category");
    }
}

/// What the JSON of a drafted taxonomy says, member by member.
pub open spec fn bug_taxonomy_members(v: BugTaxonomy) -> Seq<(Seq<char>, Seq<char>)> {
    let m = Seq::empty();
    let m = m.push(("category"@, json_string(v.category)));
    let m = m.push(("micro_category"@, json_string(v.micro_category)));
    m
}

/// Read back, the JSON of a drafted taxonomy says each thing of it under its own name, and null for what is missing.
pub proof fn law_bug_taxonomy_reads_back(v: BugTaxonomy)
    ensures
        members_of(v.json()) == bug_taxonomy_members(v),
        one_value(v.json()),
{
    let body = Seq::<char>::empty();
    let m = Seq::<(Seq<char>, Seq<char>)>::empty();
    lemma_no_members();
    lemma_names_of_bug_taxonomy();
    reveal(BugTaxonomy::json);
    law_json_strings_read_back(v.category);
    lemma_one_more_member(body, m, "category"@, json_string(v.category));
    let body = json_member(body, "category"@, json_string(v.category));
    let m = m.push(("category"@, json_string(v.category)));
    law_json_strings_read_back(v.micro_category);
    lemma_one_more_member(body, m, "micro_category"@, json_string(v.micro_category));
    let body = json_member(body, "micro_category"@, json_string(v.micro_category));
    let m = m.push(("micro_category"@, json_string(v.micro_category)));
    lemma_object_read_back(body, m);
}

proof fn lemma_names_of_bug_finding()
    ensures
        plain_name("finding_id"@),
        plain_name("fingerprint"@),
        plain_name("observation_ids"@),
        plain_name("tool"@),
        plain_name("language"@),
        plain_name("severity"@),
        plain_name("taxonomy"@),
        plain_name("message"@),
        plain_name("location"@),
        plain_name("symbol"@),
        plain_name("expected"@),
        plain_name("observed"@),
        plain_name("evidence_ids"@),
{
    assert(plain_name("finding_id"@)) by {
        reveal(plain_name);
        reveal_strlit("finding_id");
    }
    assert(plain_name("fingerprint"@)) by {
        reveal(plain_name);
        reveal_strlit("fingerprint");
    }
    assert(plain_name("observation_ids"@)) by {
        reveal(plain_name);
        reveal_strlit("observation_ids");
    }
    assert(plain_name("tool"@)) by {
        reveal(plain_name);
        reveal_strlit("tool");
    }
    assert(plain_name("language"@)) by {
        reveal(plain_name);
        reveal_strlit("language");
    }
    assert(plain_name("severity"@)) by {
        reveal(plain_name);
        reveal_strlit("severity");
    }
    assert(plain_name("taxonomy"@)) by {
        reveal(plain_name);
        reveal_strlit("taxonomy");
    }
    assert(plain_name("message"@)) by {
        reveal(plain_name);
        reveal_strlit("message");
    }
    assert(plain_name("location"@)) by {
        reveal(plain_name);
        reveal_strlit("location");
    }
    assert(plain_name("symbol"@)) by {
        reveal(plain_name);
        reveal_strlit("symbol");
    }
    assert(plain_name("expected"@)) by {
        reveal(plain_name);
        reveal_strlit("expected");
    }
    assert(plain_name("observed"@)) by {
        reveal(plain_name);
        reveal_strlit("observed");
    }
    assert(plain_name("evidence_ids"@)) by {
        reveal(plain_name);
        reveal_strlit("evidence_ids");
    }
}

/// What the JSON of a drafted finding says, member by member.
pub open spec fn bug_finding_members(v: BugFinding) -> Seq<(Seq<char>, Seq<char>)> {
    let m = Seq::empty();
    let m = m.push(("finding_id"@, json_string(v.finding_id)));
    let m = m.push(("fingerprint"@, json_string(v.fingerprint)));
    let m = m.push(("observation_ids"@, json_list(id_jsons(v.observation_ids))));
    let m = m.push(("tool"@, v.tool.json()));
    let m = m.push(("language"@, json_string(v.language)));
    let m = m.push(("severity"@, v.severity.json()));
    let m = m.push(("taxonomy"@, v.taxonomy.json()));
    let m = m.push(("message"@, json_string(v.message)));
    let m = m.push(("location"@, json_nullable(match v.location { Some(x) => Some(x.json()), None => None })));
    let m = m.push(("symbol"@, json_nullable(match v.symbol { Some(s) => Some(json_string(s)), None => None })));
    let m = m.push(("expected"@, json_nullable(match v.expected { Some(s) => Some(json_string(s)), None => None })));
    let m = m.push(("observed"@, json_nullable(match v.observed { Some(s) => Some(json_string(s)), None => None })));
    let m = m.push(("evidence_ids"@, json_list(id_jsons(v.evidence_ids))));
    m
}

/// Read back, the JSON of a drafted finding says each thing of it under its own name, and null for what is missing.
#[verifier::rlimit(40)]
pub proof fn law_bug_finding_reads_back(v: BugFinding)
    ensures
        members_of(v.json()) == bug_finding_members(v),
        one_value(v.json()),
{
    let body = Seq::<char>::empty();
    let m = Seq::<(Seq<char>, Seq<char>)>::empty();
    lemma_no_members();
    lemma_names_of_bug_finding();
    reveal(BugFinding::json);
    law_json_strings_read_back(v.finding_id);
    lemma_one_more_member(body, m, "finding_id"@, json_string(v.finding_id));
    let body = json_member(body, "finding_id"@, json_string(v.finding_id));
    let m = m.push(("finding_id"@, json_string(v.finding_id)));
    law_json_strings_read_back(v.fingerprint);
    lemma_one_more_member(body, m, "fingerprint"@, json_string(v.fingerprint));
    let body = json_member(body, "fingerprint"@, json_string(v.fingerprint));
    let m = m.push(("fingerprint"@, json_string(v.fingerprint)));
    lemma_id_list(v.observation_ids);
    lemma_one_more_member(body, m, "observation_ids"@, json_list(id_jsons(v.observation_ids)));
    let body = json_member(body, "observation_ids"@, json_list(id_jsons(v.observation_ids)));
    let m = m.push(("observation_ids"@, json_list(id_jsons(v.observation_ids))));
    law_bug_tool_reads_back(v.tool);
    lemma_one_more_member(body, m, "tool"@, v.tool.json());
    let body = json_member(body, "tool"@, v.tool.json());
    let m = m.push(("tool"@, v.tool.json()));
    law_json_strings_read_back(v.language);
    lemma_one_more_member(body, m, "language"@, json_string(v.language));
    let body = json_member(body, "language"@, json_string(v.language));
    let m = m.push(("language"@, json_string(v.language)));
    law_json_strings_read_back(v.severity.word());
    lemma_one_more_member(body, m, "severity"@, v.severity.json());
    let body = json_member(body, "severity"@, v.severity.json());
    let m = m.push(("severity"@, v.severity.json()));
    law_bug_taxonomy_reads_back(v.taxonomy);
    lemma_one_more_member(body, m, "taxonomy"@, v.taxonomy.json());
    let body = json_member(body, "taxonomy"@, v.taxonomy.json());
    let m = m.push(("taxonomy"@, v.taxonomy.json()));
    law_json_strings_read_back(v.message);
    lemma_one_more_member(body, m, "message"@, json_string(v.message));
    let body = json_member(body, "message"@, json_string(v.message));
    let m = m.push(("message"@, json_string(v.message)));
    law_plain_json_is_one_value(0, true);
    if let Some(y) = v.location {
        law_bug_location_reads_back(y);
    }
    lemma_one_more_member(body, m, "location"@, json_nullable(match v.location { Some(x) => Some(x.json()), None => None }));
    let body = json_member(body, "location"@, json_nullable(match v.location { Some(x) => Some(x.json()), None => None }));
    let m = m.push(("location"@, json_nullable(match v.location { Some(x) => Some(x.json()), None => None })));
    law_plain_json_is_one_value(0, true);
    if let Some(y) = v.symbol {
        law_json_strings_read_back(y);
    }
    lemma_one_more_member(body, m, "symbol"@, json_nullable(match v.symbol { Some(s) => Some(json_string(s)), None => None }));
    let body = json_member(body, "symbol"@, json_nullable(match v.symbol { Some(s) => Some(json_string(s)), None => None }));
    let m = m.push(("symbol"@, json_nullable(match v.symbol { Some(s) => Some(json_string(s)), None => None })));
    law_plain_json_is_one_value(0, true);
    if let Some(y) = v.expected {
        law_json_strings_read_back(y);
    }
    lemma_one_more_member(body, m, "expected"@, json_nullable(match v.expected { Some(s) => Some(json_string(s)), None => None }));
    let body = json_member(body, "expected"@, json_nullable(match v.expected { Some(s) => Some(json_string(s)), None => None }));
    let m = m.push(("expected"@, json_nullable(match v.expected { Some(s) => Some(json_string(s)), None => None })));
    law_plain_json_is_one_value(0, true);
    if let Some(y) = v.observed {
        law_json_strings_read_back(y);
    }
    lemma_one_more_member(body, m, "observed"@, json_nullable(match v.observed { Some(s) => Some(json_string(s)), None => None }));
    let body = json_member(body, "observed"@, json_nullable(match v.observed { Some(s) => Some(json_string(s)), None => None }));
    let m = m.push(("observed"@, json_nullable(match v.observed { Some(s) => Some(json_string(s)), None => None })));
    lemma_id_list(v.evidence_ids);
    lemma_one_more_member(body, m, "evidence_ids"@, json_list(id_jsons(v.evidence_ids)));
    let body = json_member(body, "evidence_ids"@, json_list(id_jsons(v.evidence_ids)));
    let m = m.push(("evidence_ids"@, json_list(id_jsons(v.evidence_ids))));
    lemma_object_read_back(body, m);
}

proof fn lemma_names_of_bug_waiver()
    ensures
        plain_name("fingerprint"@),
        plain_name("waived_action"@),
        plain_name("reason"@),
        plain_name("owner"@),
        plain_name("expires_at"@),
{
    assert(plain_name("fingerprint"@)) by {
        reveal(plain_name);
        reveal_strlit("fingerprint");
    }
    assert(plain_name("waived_action"@)) by {
        reveal(plain_name);
        reveal_strlit("waived_action");
    }
    assert(plain_name("reason"@)) by {
        reveal(plain_name);
        reveal_strlit("reason");
    }
    assert(plain_name("owner"@)) by {
        reveal(plain_name);
        reveal_strlit("owner");
    }
    assert(plain_name("expires_at"@)) by {
        reveal(plain_name);
        reveal_strlit("expires_at");
    }
}

/// What the JSON of a drafted waiver says, member by member.
pub open spec fn bug_waiver_members(v: BugWaiver) -> Seq<(Seq<char>, Seq<char>)> {
    let m = Seq::empty();
    let m = m.push(("fingerprint"@, json_string(v.fingerprint)));
    let m = m.push(("waived_action"@, v.waived_action.json()));
    let m = m.push(("reason"@, json_string(v.reason)));
    let m = m.push(("owner"@, json_string(v.owner)));
    let m = m.push(("expires_at"@, json_string(v.expires_at)));
    m
}

/// Read back, the JSON of a drafted waiver says each thing of it under its own name, and null for what is missing.
pub proof fn law_bug_waiver_reads_back(v: BugWaiver)
    ensures
        members_of(v.json()) == bug_waiver_members(v),
        one_value(v.json()),
{
    let body = Seq::<char>::empty();
    let m = Seq::<(Seq<char>, Seq<char>)>::empty();
    lemma_no_members();
    lemma_names_of_bug_waiver();
    reveal(BugWaiver::json);
    law_json_strings_read_back(v.fingerprint);
    lemma_one_more_member(body, m, "fingerprint"@, json_string(v.fingerprint));
    let body = json_member(body, "fingerprint"@, json_string(v.fingerprint));
    let m = m.push(("fingerprint"@, json_string(v.fingerprint)));
    law_json_strings_read_back(v.waived_action.word());
    lemma_one_more_member(body, m, "waived_action"@, v.waived_action.json());
    let body = json_member(body, "waived_action"@, v.waived_action.json());
    let m = m.push(("waived_action"@, v.waived_action.json()));
    law_json_strings_read_back(v.reason);
    lemma_one_more_member(body, m, "reason"@, json_string(v.reason));
    let body = json_member(body, "reason"@, json_string(v.reason));
    let m = m.push(("reason"@, json_string(v.reason)));
    law_json_strings_read_back(v.owner);
    lemma_one_more_member(body, m, "owner"@, json_string(v.owner));
    let body = json_member(body, "owner"@, json_string(v.owner));
    let m = m.push(("owner"@, json_string(v.owner)));
    law_json_strings_read_back(v.expires_at);
    lemma_one_more_member(body, m, "expires_at"@, json_string(v.expires_at));
    let body = json_member(body, "expires_at"@, json_string(v.expires_at));
    let m = m.push(("expires_at"@, json_string(v.expires_at)));
    lemma_object_read_back(body, m);
}

proof fn lemma_names_of_bug_decision()
    ensures
        plain_name("decision_id"@),
        plain_name("finding_id"@),
        plain_name("action"@),
        plain_name("evaluated_at"@),
        plain_name("matched_rule_id"@),
        plain_name("waiver"@),
{
    assert(plain_name("decision_id"@)) by {
        reveal(plain_name);
        reveal_strlit("decision_id");
    }
    assert(plain_name("finding_id"@)) by {
        reveal(plain_name);
        reveal_strlit("finding_id");
    }
    assert(plain_name("action"@)) by {
        reveal(plain_name);
        reveal_strlit("action");
    }
    assert(plain_name("evaluated_at"@)) by {
        reveal(plain_name);
        reveal_strlit("evaluated_at");
    }
    assert(plain_name("matched_rule_id"@)) by {
        reveal(plain_name);
        reveal_strlit("matched_rule_id");
    }
    assert(plain_name("waiver"@)) by {
        reveal(plain_name);
        reveal_strlit("waiver");
    }
}

/// What the JSON of a drafted decision says, member by member.
pub open spec fn bug_decision_members(v: BugDecision) -> Seq<(Seq<char>, Seq<char>)> {
    let m = Seq::empty();
    let m = m.push(("decision_id"@, json_string(v.decision_id)));
    let m = m.push(("finding_id"@, json_string(v.finding_id)));
    let m = m.push(("action"@, v.action.json()));
    let m = m.push(("evaluated_at"@, json_string(v.evaluated_at)));
    let m = m.push(("matched_rule_id"@, json_string(v.matched_rule_id)));
    let m = m.push(("waiver"@, json_nullable(match v.waiver { Some(x) => Some(x.json()), None => None })));
    m
}

/// Read back, the JSON of a drafted decision says each thing of it under its own name, and null for what is missing.
pub proof fn law_bug_decision_reads_back(v: BugDecision)
    ensures
        members_of(v.json()) == bug_decision_members(v),
        one_value(v.json()),
{
    let body = Seq::<char>::empty();
    let m = Seq::<(Seq<char>, Seq<char>)>::empty();
    lemma_no_members();
    lemma_names_of_bug_decision();
    reveal(BugDecision::json);
    law_json_strings_read_back(v.decision_id);
    lemma_one_more_member(body, m, "decision_id"@, json_string(v.decision_id));
    let body = json_member(body, "decision_id"@, json_string(v.decision_id));
    let m = m.push(("decision_id"@, json_string(v.decision_id)));
    law_json_strings_read_back(v.finding_id);
    lemma_one_more_member(body, m, "finding_id"@, json_string(v.finding_id));
    let body = json_member(body, "finding_id"@, json_string(v.finding_id));
    let m = m.push(("finding_id"@, json_string(v.finding_id)));
    law_json_strings_read_back(v.action.word());
    lemma_one_more_member(body, m, "action"@, v.action.json());
    let body = json_member(body, "action"@, v.action.json());
    let m = m.push(("action"@, v.action.json()));
    law_json_strings_read_back(v.evaluated_at);
    lemma_one_more_member(body, m, "evaluated_at"@, json_string(v.evaluated_at));
    let body = json_member(body, "evaluated_at"@, json_string(v.evaluated_at));
    let m = m.push(("evaluated_at"@, json_string(v.evaluated_at)));
    law_json_strings_read_back(v.matched_rule_id);
    lemma_one_more_member(body, m, "matched_rule_id"@, json_string(v.matched_rule_id));
    let body = json_member(body, "matched_rule_id"@, json_string(v.matched_rule_id));
    let m = m.push(("matched_rule_id"@, json_string(v.matched_rule_id)));
    law_plain_json_is_one_value(0, true);
    if let Some(y) = v.waiver {
        law_bug_waiver_reads_back(y);
    }
    lemma_one_more_member(body, m, "waiver"@, json_nullable(match v.waiver { Some(x) => Some(x.json()), None => None }));
    let body = json_member(body, "waiver"@, json_nullable(match v.waiver { Some(x) => Some(x.json()), None => None }));
    let m = m.push(("waiver"@, json_nullable(match v.waiver { Some(x) => Some(x.json()), None => None })));
    lemma_object_read_back(body, m);
}

proof fn lemma_names_of_bug_evidence_ref()
    ensures
        plain_name("evidence_id"@),
        plain_name("execution_id"@),
        plain_name("source"@),
        plain_name("sha256"@),
        plain_name("relative_path"@),
{
    assert(plain_name("evidence_id"@)) by {
        reveal(plain_name);
        reveal_strlit("evidence_id");
    }
    assert(plain_name("execution_id"@)) by {
        reveal(plain_name);
        reveal_strlit("execution_id");
    }
    assert(plain_name("source"@)) by {
        reveal(plain_name);
        reveal_strlit("source");
    }
    assert(plain_name("sha256"@)) by {
        reveal(plain_name);
        reveal_strlit("sha256");
    }
    assert(plain_name("relative_path"@)) by {
        reveal(plain_name);
        reveal_strlit("relative_path");
    }
}

/// What the JSON of a drafted piece of evidence says, member by member.
pub open spec fn bug_evidence_ref_members(v: BugEvidenceRef) -> Seq<(Seq<char>, Seq<char>)> {
    let m = Seq::empty();
    let m = m.push(("evidence_id"@, json_string(v.evidence_id)));
    let m = m.push(("execution_id"@, json_nullable(match v.execution_id { Some(s) => Some(json_string(s)), None => None })));
    let m = m.push(("source"@, json_string(v.source)));
    let m = m.push(("sha256"@, json_string(v.sha256)));
    let m = m.push(("relative_path"@, json_nullable(match v.relative_path { Some(s) => Some(json_string(s)), None => None })));
    m
}

/// Read back, the JSON of a drafted piece of evidence says each thing of it under its own name, and null for what is missing.
pub proof fn law_bug_evidence_ref_reads_back(v: BugEvidenceRef)
    ensures
        members_of(v.json()) == bug_evidence_ref_members(v),
        one_value(v.json()),
{
    let body = Seq::<char>::empty();
    let m = Seq::<(Seq<char>, Seq<char>)>::empty();
    lemma_no_members();
    lemma_names_of_bug_evidence_ref();
    reveal(BugEvidenceRef::json);
    law_json_strings_read_back(v.evidence_id);
    lemma_one_more_member(body, m, "evidence_id"@, json_string(v.evidence_id));
    let body = json_member(body, "evidence_id"@, json_string(v.evidence_id));
    let m = m.push(("evidence_id"@, json_string(v.evidence_id)));
    law_plain_json_is_one_value(0, true);
    if let Some(y) = v.execution_id {
        law_json_strings_read_back(y);
    }
    lemma_one_more_member(body, m, "execution_id"@, json_nullable(match v.execution_id { Some(s) => Some(json_string(s)), None => None }));
    let body = json_member(body, "execution_id"@, json_nullable(match v.execution_id { Some(s) => Some(json_string(s)), None => None }));
    let m = m.push(("execution_id"@, json_nullable(match v.execution_id { Some(s) => Some(json_string(s)), None => None })));
    law_json_strings_read_back(v.source);
    lemma_one_more_member(body, m, "source"@, json_string(v.source));
    let body = json_member(body, "source"@, json_string(v.source));
    let m = m.push(("source"@, json_string(v.source)));
    law_json_strings_read_back(v.sha256);
    lemma_one_more_member(body, m, "sha256"@, json_string(v.sha256));
    let body = json_member(body, "sha256"@, json_string(v.sha256));
    let m = m.push(("sha256"@, json_string(v.sha256)));
    law_plain_json_is_one_value(0, true);
    if let Some(y) = v.relative_path {
        law_json_strings_read_back(y);
    }
    lemma_one_more_member(body, m, "relative_path"@, json_nullable(match v.relative_path { Some(s) => Some(json_string(s)), None => None }));
    let body = json_member(body, "relative_path"@, json_nullable(match v.relative_path { Some(s) => Some(json_string(s)), None => None }));
    let m = m.push(("relative_path"@, json_nullable(match v.relative_path { Some(s) => Some(json_string(s)), None => None })));
    lemma_object_read_back(body, m);
}

proof fn lemma_names_of_bug_execution()
    ensures
        plain_name("execution_id"@),
        plain_name("adapter_id"@),
        plain_name("adapter_kind"@),
        plain_name("tool"@),
        plain_name("required"@),
        plain_name("status"@),
        plain_name("exit_code"@),
        plain_name("message"@),
{
    assert(plain_name("execution_id"@)) by {
        reveal(plain_name);
        reveal_strlit("execution_id");
    }
    assert(plain_name("adapter_id"@)) by {
        reveal(plain_name);
        reveal_strlit("adapter_id");
    }
    assert(plain_name("adapter_kind"@)) by {
        reveal(plain_name);
        reveal_strlit("adapter_kind");
    }
    assert(plain_name("tool"@)) by {
        reveal(plain_name);
        reveal_strlit("tool");
    }
    assert(plain_name("required"@)) by {
        reveal(plain_name);
        reveal_strlit("required");
    }
    assert(plain_name("status"@)) by {
        reveal(plain_name);
        reveal_strlit("status");
    }
    assert(plain_name("exit_code"@)) by {
        reveal(plain_name);
        reveal_strlit("exit_code");
    }
    assert(plain_name("message"@)) by {
        reveal(plain_name);
        reveal_strlit("message");
    }
}

/// What the JSON of a drafted execution says, member by member.
pub open spec fn bug_execution_members(v: BugExecution) -> Seq<(Seq<char>, Seq<char>)> {
    let m = Seq::empty();
    let m = m.push(("execution_id"@, json_string(v.execution_id)));
    let m = m.push(("adapter_id"@, json_string(v.adapter_id)));
    let m = m.push(("adapter_kind"@, v.adapter_kind.json()));
    let m = m.push(("tool"@, v.tool.json()));
    let m = m.push(("required"@, json_bool(v.required)));
    let m = m.push(("status"@, v.status.json()));
    let m = m.push(("exit_code"@, json_nullable(match v.exit_code { Some(x) => Some(decimal(x as nat)), None => None })));
    let m = m.push(("message"@, json_nullable(match v.message { Some(s) => Some(json_string(s)), None => None })));
    m
}

/// Read back, the JSON of a drafted execution says each thing of it under its own name, and null for what is missing.
#[verifier::rlimit(40)]
pub proof fn law_bug_execution_reads_back(v: BugExecution)
    ensures
        members_of(v.json()) == bug_execution_members(v),
        one_value(v.json()),
{
    let body = Seq::<char>::empty();
    let m = Seq::<(Seq<char>, Seq<char>)>::empty();
    lemma_no_members();
    lemma_names_of_bug_execution();
    reveal(BugExecution::json);
    law_json_strings_read_back(v.execution_id);
    lemma_one_more_member(body, m, "execution_id"@, json_string(v.execution_id));
    let body = json_member(body, "execution_id"@, json_string(v.execution_id));
    let m = m.push(("execution_id"@, json_string(v.execution_id)));
    law_json_strings_read_back(v.adapter_id);
    lemma_one_more_member(body, m, "adapter_id"@, json_string(v.adapter_id));
    let body = json_member(body, "adapter_id"@, json_string(v.adapter_id));
    let m = m.push(("adapter_id"@, json_string(v.adapter_id)));
    law_json_strings_read_back(v.adapter_kind.word());
    lemma_one_more_member(body, m, "adapter_kind"@, v.adapter_kind.json());
    let body = json_member(body, "adapter_kind"@, v.adapter_kind.json());
    let m = m.push(("adapter_kind"@, v.adapter_kind.json()));
    law_bug_tool_reads_back(v.tool);
    lemma_one_more_member(body, m, "tool"@, v.tool.json());
    let body = json_member(body, "tool"@, v.tool.json());
    let m = m.push(("tool"@, v.tool.json()));
    law_plain_json_is_one_value(0, v.required);
    lemma_one_more_member(body, m, "required"@, json_bool(v.required));
    let body = json_member(body, "required"@, json_bool(v.required));
    let m = m.push(("required"@, json_bool(v.required)));
    law_json_strings_read_back(v.status.word());
    lemma_one_more_member(body, m, "status"@, v.status.json());
    let body = json_member(body, "status"@, v.status.json());
    let m = m.push(("status"@, v.status.json()));
    law_plain_json_is_one_value(0, true);
    if let Some(y) = v.exit_code {
        law_plain_json_is_one_value(y as nat, true);
    }
    lemma_one_more_member(body, m, "exit_code"@, json_nullable(match v.exit_code { Some(x) => Some(decimal(x as nat)), None => None }));
    let body = json_member(body, "exit_code"@, json_nullable(match v.exit_code { Some(x) => Some(decimal(x as nat)), None => None }));
    let m = m.push(("exit_code"@, json_nullable(match v.exit_code { Some(x) => Some(decimal(x as nat)), None => None })));
    law_plain_json_is_one_value(0, true);
    if let Some(y) = v.message {
        law_json_strings_read_back(y);
    }
    lemma_one_more_member(body, m, "message"@, json_nullable(match v.message { Some(s) => Some(json_string(s)), None => None }));
    let body = json_member(body, "message"@, json_nullable(match v.message { Some(s) => Some(json_string(s)), None => None }));
    let m = m.push(("message"@, json_nullable(match v.message { Some(s) => Some(json_string(s)), None => None })));
    lemma_object_read_back(body, m);
}

proof fn lemma_labels()
    ensures
        one_value(json_list(seq![json_string(BUG_ISSUE_LABEL@)])),
{
    let items = seq![json_string(BUG_ISSUE_LABEL@)];
    law_json_strings_read_back(BUG_ISSUE_LABEL@);
    assert forall|i: int| 0 <= i < items.len() implies one_value(#[trigger] items[i]) by {}
    law_json_lists_read_back(items);
}

proof fn lemma_names_of_draft()
    ensures
        plain_name("schema_version"@),
        plain_name("labels"@),
        plain_name("session_id"@),
        plain_name("contract_sha256"@),
        plain_name("policy_digest"@),
        plain_name("verdict"@),
        plain_name("findings"@),
        plain_name("decisions"@),
        plain_name("evidence"@),
        plain_name("executions"@),
{
    assert(plain_name("schema_version"@)) by {
        reveal(plain_name);
        reveal_strlit("schema_version");
    }
    assert(plain_name("labels"@)) by {
        reveal(plain_name);
        reveal_strlit("labels");
    }
    assert(plain_name("session_id"@)) by {
        reveal(plain_name);
        reveal_strlit("session_id");
    }
    assert(plain_name("contract_sha256"@)) by {
        reveal(plain_name);
        reveal_strlit("contract_sha256");
    }
    assert(plain_name("policy_digest"@)) by {
        reveal(plain_name);
        reveal_strlit("policy_digest");
    }
    assert(plain_name("verdict"@)) by {
        reveal(plain_name);
        reveal_strlit("verdict");
    }
    assert(plain_name("findings"@)) by {
        reveal(plain_name);
        reveal_strlit("findings");
    }
    assert(plain_name("decisions"@)) by {
        reveal(plain_name);
        reveal_strlit("decisions");
    }
    assert(plain_name("evidence"@)) by {
        reveal(plain_name);
        reveal_strlit("evidence");
    }
    assert(plain_name("executions"@)) by {
        reveal(plain_name);
        reveal_strlit("executions");
    }
}

/// What the line of a draft says, member by member.
pub open spec fn draft_members(draft: BugIssueDraftV1) -> Seq<(Seq<char>, Seq<char>)> {
    let m = Seq::empty();
    let m = m.push(("schema_version"@, json_string(BUG_ISSUE_DRAFT_SCHEMA_VERSION@)));
    let m = m.push(("labels"@, json_list(seq![json_string(BUG_ISSUE_LABEL@)])));
    let m = m.push(("session_id"@, json_string(draft.session_id@)));
    let m = m.push(("contract_sha256"@, json_string(draft.contract_sha256@)));
    let m = m.push(("policy_digest"@, json_string(draft.policy_digest@)));
    let m = m.push(("verdict"@, draft.verdict.json()));
    let m = m.push(("findings"@, json_list(jsons(draft.findings@))));
    let m = m.push(("decisions"@, json_list(jsons(draft.decisions@))));
    let m = m.push(("evidence"@, json_list(jsons(draft.evidence@))));
    let m = m.push(("executions"@, json_list(jsons(draft.executions@))));
    m
}

/// Read back, the line of a draft says each thing of it under its own name, in one JSON value and a line end.
#[verifier::rlimit(40)]
pub proof fn law_drafts_read_back(draft: BugIssueDraftV1)
    ensures
        draft.line().last() == '\n',
        members_of(draft.line().drop_last()) == draft_members(draft),
        one_value(draft.line().drop_last()),
{
    let body = Seq::<char>::empty();
    let m = Seq::<(Seq<char>, Seq<char>)>::empty();
    lemma_no_members();
    lemma_names_of_draft();
    law_json_strings_read_back(BUG_ISSUE_DRAFT_SCHEMA_VERSION@);
    lemma_one_more_member(body, m, "schema_version"@, json_string(BUG_ISSUE_DRAFT_SCHEMA_VERSION@));
    let body = json_member(body, "schema_version"@, json_string(BUG_ISSUE_DRAFT_SCHEMA_VERSION@));
    let m = m.push(("schema_version"@, json_string(BUG_ISSUE_DRAFT_SCHEMA_VERSION@)));
    lemma_labels();
    lemma_one_more_member(body, m, "labels"@, json_list(seq![json_string(BUG_ISSUE_LABEL@)]));
    let body = json_member(body, "labels"@, json_list(seq![json_string(BUG_ISSUE_LABEL@)]));
    let m = m.push(("labels"@, json_list(seq![json_string(BUG_ISSUE_LABEL@)])));
    law_json_strings_read_back(draft.session_id@);
    lemma_one_more_member(body, m, "session_id"@, json_string(draft.session_id@));
    let body = json_member(body, "session_id"@, json_string(draft.session_id@));
    let m = m.push(("session_id"@, json_string(draft.session_id@)));
    law_json_strings_read_back(draft.contract_sha256@);
    lemma_one_more_member(body, m, "contract_sha256"@, json_string(draft.contract_sha256@));
    let body = json_member(body, "contract_sha256"@, json_string(draft.contract_sha256@));
    let m = m.push(("contract_sha256"@, json_string(draft.contract_sha256@)));
    law_json_strings_read_back(draft.policy_digest@);
    lemma_one_more_member(body, m, "policy_digest"@, json_string(draft.policy_digest@));
    let body = json_member(body, "policy_digest"@, json_string(draft.policy_digest@));
    let m = m.push(("policy_digest"@, json_string(draft.policy_digest@)));
    law_json_strings_read_back(draft.verdict.word());
    lemma_one_more_member(body, m, "verdict"@, draft.verdict.json());
    let body = json_member(body, "verdict"@, draft.verdict.json());
    let m = m.push(("verdict"@, draft.verdict.json()));
    assert forall|i: int| 0 <= i < draft.findings@.len() implies one_value((#[trigger] draft.findings@[i]).json()) by {
        law_bug_finding_reads_back(draft.findings@[i]@);
    }
    law_drafted_lists_read_back(draft.findings@);
    lemma_one_more_member(body, m, "findings"@, json_list(jsons(draft.findings@)));
    let body = json_member(body, "findings"@, json_list(jsons(draft.findings@)));
    let m = m.push(("findings"@, json_list(jsons(draft.findings@))));
    assert forall|i: int| 0 <= i < draft.decisions@.len() implies one_value((#[trigger] draft.decisions@[i]).json()) by {
        law_bug_decision_reads_back(draft.decisions@[i]@);
    }
    law_drafted_lists_read_back(draft.decisions@);
    lemma_one_more_member(body, m, "decisions"@, json_list(jsons(draft.decisions@)));
    let body = json_member(body, "decisions"@, json_list(jsons(draft.decisions@)));
    let m = m.push(("decisions"@, json_list(jsons(draft.decisions@))));
    assert forall|i: int| 0 <= i < draft.evidence@.len() implies one_value((#[trigger] draft.evidence@[i]).json()) by {
        law_bug_evidence_ref_reads_back(draft.evidence@[i]@);
    }
    law_drafted_lists_read_back(draft.evidence@);
    lemma_one_more_member(body, m, "evidence"@, json_list(jsons(draft.evidence@)));
    let body = json_member(body, "evidence"@, json_list(jsons(draft.evidence@)));
    let m = m.push(("evidence"@, json_list(jsons(draft.evidence@))));
    assert forall|i: int| 0 <= i < draft.executions@.len() implies one_value((#[trigger] draft.executions@[i]).json()) by {
        law_bug_execution_reads_back(draft.executions@[i]@);
    }
    law_drafted_lists_read_back(draft.executions@);
    lemma_one_more_member(body, m, "executions"@, json_list(jsons(draft.executions@)));
    let body = json_member(body, "executions"@, json_list(jsons(draft.executions@)));
    let m = m.push(("executions"@, json_list(jsons(draft.executions@))));
    lemma_object_read_back(body, m);
    lemma_without_line_end(json_object(body));
}

proof fn lemma_without_line_end(text: Seq<char>)
    ensures
        text.push('\n').drop_last() == text,
        text.push('\n').last() == '\n',
{
    assert(text.push('\n').drop_last() =~= text);
}

} // verus!
