//! What a reader of a report's JSON takes out of it.
use super::{
    AdapterKind, Applicability, Cache, Decision, DecisionAction, Evidence, EvidenceSource, Execution,
    ExecutionPhases, ExecutionStatus, Finding, FixCandidate, Location, Observation, Performance, PerformanceStatus,
    PhaseDuration, Position, Retry, Runner, SessionReport, Severity, Taxonomy, Tool, ToolchainFingerprint, Verdict,
    VerificationAttribution, Waiver, UNAVAILABLE,
};
use crate::config::runtime::{EngineConfig, WaivedAction};
use crate::json::{
    json_bool, json_list, json_member, json_nullable, json_optional, json_string, jsons, optional_json,
    optional_string, ToJson,
};
use crate::json::reading::{
    items_of, law_json_lists_read_back, law_json_strings_read_back, law_plain_json_is_one_value, lemma_no_members,
    lemma_object_read_back, lemma_one_more_member, members_of, one_value, plain_name, writes_members,
};
use crate::numeral::decimal;
use crate::order::arranged;
use vstd::prelude::*;
use vstd::string::*;

verus! {

/// The members, and one more where there is a value for it.
pub open spec fn and_if(m: Seq<(Seq<char>, Seq<char>)>, name: Seq<char>, value: Option<Seq<char>>) -> Seq<
    (Seq<char>, Seq<char>),
> {
    match value {
        Some(text) => m.push((name, text)),
        None => m,
    }
}

/// One more member, where there is a value for it.
pub proof fn lemma_one_more_if(
    body: Seq<char>,
    m: Seq<(Seq<char>, Seq<char>)>,
    name: Seq<char>,
    value: Option<Seq<char>>,
)
    requires
        writes_members(body, m),
        plain_name(name),
        value matches Some(text) ==> one_value(text),
    ensures
        writes_members(json_optional(body, name, value), and_if(m, name, value)),
        body.len() > 0 ==> json_optional(body, name, value).len() > 0,
{
    if let Some(text) = value {
        lemma_one_more_member(body, m, name, text);
    }
}

/// Read back, the JSON of a list has the JSON of each of its values, in their order.
pub proof fn law_lists_read_back<T: ToJson>(v: Seq<T>)
    requires
        forall|i: int| 0 <= i < v.len() ==> one_value((#[trigger] v[i]).json()),
    ensures
        items_of(json_list(jsons(v))) == jsons(v),
        one_value(json_list(jsons(v))),
{
    assert forall|i: int| 0 <= i < jsons(v).len() implies one_value(#[trigger] jsons(v)[i]) by {
        assert(one_value(v[i].json()));
    }
    law_json_lists_read_back(jsons(v));
}

proof fn lemma_phase(x: PhaseDuration)
    ensures
        one_value(x.json()),
{
    if let PhaseDuration::Milliseconds(n) = x {
        law_plain_json_is_one_value(n as nat, true);
    }
    law_json_strings_read_back(UNAVAILABLE@);
}

proof fn lemma_toolchain(x: ToolchainFingerprint)
    ensures
        one_value(x.json()),
{
    if let ToolchainFingerprint::Known(text) = x {
        law_json_strings_read_back(text@);
    }
    law_json_strings_read_back(UNAVAILABLE@);
}

proof fn lemma_string_list(v: Seq<String>)
    ensures
        items_of(json_list(jsons(v))) == jsons(v),
        one_value(json_list(jsons(v))),
{
    assert forall|i: int| 0 <= i < v.len() implies one_value((#[trigger] v[i]).json()) by {
        law_json_strings_read_back(v[i]@);
    }
    law_lists_read_back(v);
}

proof fn lemma_observation_list(v: Seq<Observation>)
    ensures
        items_of(json_list(jsons(v))) == jsons(v),
        one_value(json_list(jsons(v))),
{
    assert forall|i: int| 0 <= i < v.len() implies one_value((#[trigger] v[i]).json()) by {
        law_observation_reads_back(v[i]);
    }
    law_lists_read_back(v);
}

proof fn lemma_finding_list(v: Seq<Finding>)
    ensures
        items_of(json_list(jsons(v))) == jsons(v),
        one_value(json_list(jsons(v))),
{
    assert forall|i: int| 0 <= i < v.len() implies one_value((#[trigger] v[i]).json()) by {
        law_finding_reads_back(v[i]);
    }
    law_lists_read_back(v);
}

proof fn lemma_decision_list(v: Seq<Decision>)
    ensures
        items_of(json_list(jsons(v))) == jsons(v),
        one_value(json_list(jsons(v))),
{
    assert forall|i: int| 0 <= i < v.len() implies one_value((#[trigger] v[i]).json()) by {
        law_decision_reads_back(v[i]);
    }
    law_lists_read_back(v);
}

proof fn lemma_evidence_list(v: Seq<Evidence>)
    ensures
        items_of(json_list(jsons(v))) == jsons(v),
        one_value(json_list(jsons(v))),
{
    assert forall|i: int| 0 <= i < v.len() implies one_value((#[trigger] v[i]).json()) by {
        law_evidence_reads_back(v[i]);
    }
    law_lists_read_back(v);
}

proof fn lemma_fix_candidate_list(v: Seq<FixCandidate>)
    ensures
        items_of(json_list(jsons(v))) == jsons(v),
        one_value(json_list(jsons(v))),
{
    assert forall|i: int| 0 <= i < v.len() implies one_value((#[trigger] v[i]).json()) by {
        law_fix_candidate_reads_back(v[i]);
    }
    law_lists_read_back(v);
}

proof fn lemma_execution_list(v: Seq<Execution>)
    ensures
        items_of(json_list(jsons(v))) == jsons(v),
        one_value(json_list(jsons(v))),
{
    assert forall|i: int| 0 <= i < v.len() implies one_value((#[trigger] v[i]).json()) by {
        law_execution_reads_back(v[i]);
    }
    law_lists_read_back(v);
}

proof fn lemma_names_of_position()
    ensures
        plain_name("line"@),
        plain_name("column"@),
{
    assert(plain_name("line"@)) by {
        reveal(plain_name);
        reveal_strlit("line");
    }
    assert(plain_name("column"@)) by {
        reveal(plain_name);
        reveal_strlit("column");
    }
}

/// What the JSON of a position says, member by member.
pub open spec fn position_members(x: Position) -> Seq<(Seq<char>, Seq<char>)> {
    let m = Seq::empty();
    let m = m.push(("line"@, decimal(x.line as nat)));
    let m = m.push(("column"@, decimal(x.column as nat)));
    m
}

/// Read back, the JSON of a position says each thing of it under its own name.
pub proof fn law_position_reads_back(x: Position)
    ensures
        members_of(x.json()) == position_members(x),
        one_value(x.json()),
{
    let body = Seq::<char>::empty();
    let m = Seq::<(Seq<char>, Seq<char>)>::empty();
    lemma_no_members();
    lemma_names_of_position();
    law_plain_json_is_one_value(x.line as nat, true);
    lemma_one_more_member(body, m, "line"@, decimal(x.line as nat));
    let body = json_member(body, "line"@, decimal(x.line as nat));
    let m = m.push(("line"@, decimal(x.line as nat)));
    law_plain_json_is_one_value(x.column as nat, true);
    lemma_one_more_member(body, m, "column"@, decimal(x.column as nat));
    let body = json_member(body, "column"@, decimal(x.column as nat));
    let m = m.push(("column"@, decimal(x.column as nat)));
    lemma_object_read_back(body, m);
}

proof fn lemma_names_of_location()
    ensures
        plain_name("path"@),
        plain_name("start"@),
        plain_name("end"@),
{
    assert(plain_name("path"@)) by {
        reveal(plain_name);
        reveal_strlit("path");
    }
    assert(plain_name("start"@)) by {
        reveal(plain_name);
        reveal_strlit("start");
    }
    assert(plain_name("end"@)) by {
        reveal(plain_name);
        reveal_strlit("end");
    }
}

/// What the JSON of a location says, member by member.
pub open spec fn location_members(x: Location) -> Seq<(Seq<char>, Seq<char>)> {
    let m = Seq::empty();
    let m = m.push(("path"@, json_string(x.path@)));
    let m = m.push(("start"@, x.start.json()));
    let m = and_if(m, "end"@, optional_json(x.end));
    m
}

/// Read back, the JSON of a location says each thing of it under its own name.
pub proof fn law_location_reads_back(x: Location)
    ensures
        members_of(x.json()) == location_members(x),
        one_value(x.json()),
{
    let body = Seq::<char>::empty();
    let m = Seq::<(Seq<char>, Seq<char>)>::empty();
    lemma_no_members();
    lemma_names_of_location();
    law_json_strings_read_back(x.path@);
    lemma_one_more_member(body, m, "path"@, json_string(x.path@));
    let body = json_member(body, "path"@, json_string(x.path@));
    let m = m.push(("path"@, json_string(x.path@)));
    law_position_reads_back(x.start);
    lemma_one_more_member(body, m, "start"@, x.start.json());
    let body = json_member(body, "start"@, x.start.json());
    let m = m.push(("start"@, x.start.json()));
    if let Some(y) = x.end {
        law_position_reads_back(y);
    }
    lemma_one_more_if(body, m, "end"@, optional_json(x.end));
    let body = json_optional(body, "end"@, optional_json(x.end));
    let m = and_if(m, "end"@, optional_json(x.end));
    lemma_object_read_back(body, m);
}

proof fn lemma_names_of_tool()
    ensures
        plain_name("name"@),
        plain_name("version"@),
        plain_name("rule_id"@),
{
    assert(plain_name("name"@)) by {
        reveal(plain_name);
        reveal_strlit("name");
    }
    assert(plain_name("version"@)) by {
        reveal(plain_name);
        reveal_strlit("version");
    }
    assert(plain_name("rule_id"@)) by {
        reveal(plain_name);
        reveal_strlit("rule_id");
    }
}

/// What the JSON of a tool says, member by member.
pub open spec fn tool_members(x: Tool) -> Seq<(Seq<char>, Seq<char>)> {
    let m = Seq::empty();
    let m = m.push(("name"@, json_string(x.name@)));
    let m = m.push(("version"@, json_string(x.version@)));
    let m = and_if(m, "rule_id"@, optional_string(x.rule_id));
    m
}

/// Read back, the JSON of a tool says each thing of it under its own name.
pub proof fn law_tool_reads_back(x: Tool)
    ensures
        members_of(x.json()) == tool_members(x),
        one_value(x.json()),
{
    let body = Seq::<char>::empty();
    let m = Seq::<(Seq<char>, Seq<char>)>::empty();
    lemma_no_members();
    lemma_names_of_tool();
    law_json_strings_read_back(x.name@);
    lemma_one_more_member(body, m, "name"@, json_string(x.name@));
    let body = json_member(body, "name"@, json_string(x.name@));
    let m = m.push(("name"@, json_string(x.name@)));
    law_json_strings_read_back(x.version@);
    lemma_one_more_member(body, m, "version"@, json_string(x.version@));
    let body = json_member(body, "version"@, json_string(x.version@));
    let m = m.push(("version"@, json_string(x.version@)));
    if let Some(y) = x.rule_id {
        law_json_strings_read_back(y@);
    }
    lemma_one_more_if(body, m, "rule_id"@, optional_string(x.rule_id));
    let body = json_optional(body, "rule_id"@, optional_string(x.rule_id));
    let m = and_if(m, "rule_id"@, optional_string(x.rule_id));
    lemma_object_read_back(body, m);
}

proof fn lemma_names_of_taxonomy()
    ensures
        plain_name("category"@),
        plain_name("micro_category"@),
{
    assert(plain_name("category"@)) by {
        reveal(plain_name);
        reveal_strlit("category");
    }
    assert(plain_name("micro_category"@)) by {
        reveal(plain_name);
        reveal_strlit("micro_category");
    }
}

/// What the JSON of a taxonomy says, member by member.
pub open spec fn taxonomy_members(x: Taxonomy) -> Seq<(Seq<char>, Seq<char>)> {
    let m = Seq::empty();
    let m = m.push(("category"@, json_string(x.category@)));
    let m = m.push(("micro_category"@, json_string(x.micro_category@)));
    m
}

/// Read back, the JSON of a taxonomy says each thing of it under its own name.
pub proof fn law_taxonomy_reads_back(x: Taxonomy)
    ensures
        members_of(x.json()) == taxonomy_members(x),
        one_value(x.json()),
{
    let body = Seq::<char>::empty();
    let m = Seq::<(Seq<char>, Seq<char>)>::empty();
    lemma_no_members();
    lemma_names_of_taxonomy();
    law_json_strings_read_back(x.category@);
    lemma_one_more_member(body, m, "category"@, json_string(x.category@));
    let body = json_member(body, "category"@, json_string(x.category@));
    let m = m.push(("category"@, json_string(x.category@)));
    law_json_strings_read_back(x.micro_category@);
    lemma_one_more_member(body, m, "micro_category"@, json_string(x.micro_category@));
    let body = json_member(body, "micro_category"@, json_string(x.micro_category@));
    let m = m.push(("micro_category"@, json_string(x.micro_category@)));
    lemma_object_read_back(body, m);
}

proof fn lemma_names_of_observation()
    ensures
        plain_name("schema_version"@),
        plain_name("observation_id"@),
        plain_name("tool"@),
        plain_name("language"@),
        plain_name("severity"@),
        plain_name("origin"@),
        plain_name("message"@),
        plain_name("location"@),
        plain_name("symbol"@),
        plain_name("expected"@),
        plain_name("observed"@),
        plain_name("evidence_ids"@),
{
    assert(plain_name("schema_version"@)) by {
        reveal(plain_name);
        reveal_strlit("schema_version");
    }
    assert(plain_name("observation_id"@)) by {
        reveal(plain_name);
        reveal_strlit("observation_id");
    }
    assert(plain_name("tool"@)) by {
        reveal(plain_name);
        reveal_strlit("tool");
    }
    assert(plain_name("language"@)) by {
        reveal(plain_name);
        reveal_strlit("language");
    }
    assert(plain_name("severity"@)) by {
        reveal(plain_name);
        reveal_strlit("severity");
    }
    assert(plain_name("origin"@)) by {
        reveal(plain_name);
        reveal_strlit("origin");
    }
    assert(plain_name("message"@)) by {
        reveal(plain_name);
        reveal_strlit("message");
    }
    assert(plain_name("location"@)) by {
        reveal(plain_name);
        reveal_strlit("location");
    }
    assert(plain_name("symbol"@)) by {
        reveal(plain_name);
        reveal_strlit("symbol");
    }
    assert(plain_name("expected"@)) by {
        reveal(plain_name);
        reveal_strlit("expected");
    }
    assert(plain_name("observed"@)) by {
        reveal(plain_name);
        reveal_strlit("observed");
    }
    assert(plain_name("evidence_ids"@)) by {
        reveal(plain_name);
        reveal_strlit("evidence_ids");
    }
}

/// What the JSON of an observation says, member by member.
pub open spec fn observation_members(x: Observation) -> Seq<(Seq<char>, Seq<char>)> {
    let m = Seq::empty();
    let m = m.push(("schema_version"@, json_string(x.schema_version@)));
    let m = m.push(("observation_id"@, json_string(x.observation_id@)));
    let m = m.push(("tool"@, x.tool.json()));
    let m = m.push(("language"@, json_string(x.language@)));
    let m = m.push(("severity"@, x.severity.json()));
    let m = m.push(("origin"@, json_string(x.origin@)));
    let m = m.push(("message"@, json_string(x.message@)));
    let m = and_if(m, "location"@, optional_json(x.location));
    let m = and_if(m, "symbol"@, optional_string(x.symbol));
    let m = and_if(m, "expected"@, optional_string(x.expected));
    let m = and_if(m, "observed"@, optional_string(x.observed));
    let m = m.push(("evidence_ids"@, json_list(jsons(arranged(x.evidence_ids@)))));
    m
}

/// Read back, the JSON of an observation says each thing of it under its own name.
#[verifier::rlimit(40)]
pub proof fn law_observation_reads_back(x: Observation)
    ensures
        members_of(x.json()) == observation_members(x),
        one_value(x.json()),
{
    let body = Seq::<char>::empty();
    let m = Seq::<(Seq<char>, Seq<char>)>::empty();
    lemma_no_members();
    lemma_names_of_observation();
    law_json_strings_read_back(x.schema_version@);
    lemma_one_more_member(body, m, "schema_version"@, json_string(x.schema_version@));
    let body = json_member(body, "schema_version"@, json_string(x.schema_version@));
    let m = m.push(("schema_version"@, json_string(x.schema_version@)));
    law_json_strings_read_back(x.observation_id@);
    lemma_one_more_member(body, m, "observation_id"@, json_string(x.observation_id@));
    let body = json_member(body, "observation_id"@, json_string(x.observation_id@));
    let m = m.push(("observation_id"@, json_string(x.observation_id@)));
    law_tool_reads_back(x.tool);
    lemma_one_more_member(body, m, "tool"@, x.tool.json());
    let body = json_member(body, "tool"@, x.tool.json());
    let m = m.push(("tool"@, x.tool.json()));
    law_json_strings_read_back(x.language@);
    lemma_one_more_member(body, m, "language"@, json_string(x.language@));
    let body = json_member(body, "language"@, json_string(x.language@));
    let m = m.push(("language"@, json_string(x.language@)));
    law_json_strings_read_back(x.severity.word());
    lemma_one_more_member(body, m, "severity"@, x.severity.json());
    let body = json_member(body, "severity"@, x.severity.json());
    let m = m.push(("severity"@, x.severity.json()));
    law_json_strings_read_back(x.origin@);
    lemma_one_more_member(body, m, "origin"@, json_string(x.origin@));
    let body = json_member(body, "origin"@, json_string(x.origin@));
    let m = m.push(("origin"@, json_string(x.origin@)));
    law_json_strings_read_back(x.message@);
    lemma_one_more_member(body, m, "message"@, json_string(x.message@));
    let body = json_member(body, "message"@, json_string(x.message@));
    let m = m.push(("message"@, json_string(x.message@)));
    if let Some(y) = x.location {
        law_location_reads_back(y);
    }
    lemma_one_more_if(body, m, "location"@, optional_json(x.location));
    let body = json_optional(body, "location"@, optional_json(x.location));
    let m = and_if(m, "location"@, optional_json(x.location));
    if let Some(y) = x.symbol {
        law_json_strings_read_back(y@);
    }
    lemma_one_more_if(body, m, "symbol"@, optional_string(x.symbol));
    let body = json_optional(body, "symbol"@, optional_string(x.symbol));
    let m = and_if(m, "symbol"@, optional_string(x.symbol));
    if let Some(y) = x.expected {
        law_json_strings_read_back(y@);
    }
    lemma_one_more_if(body, m, "expected"@, optional_string(x.expected));
    let body = json_optional(body, "expected"@, optional_string(x.expected));
    let m = and_if(m, "expected"@, optional_string(x.expected));
    if let Some(y) = x.observed {
        law_json_strings_read_back(y@);
    }
    lemma_one_more_if(body, m, "observed"@, optional_string(x.observed));
    let body = json_optional(body, "observed"@, optional_string(x.observed));
    let m = and_if(m, "observed"@, optional_string(x.observed));
    lemma_string_list(arranged(x.evidence_ids@));
    lemma_one_more_member(body, m, "evidence_ids"@, json_list(jsons(arranged(x.evidence_ids@))));
    let body = json_member(body, "evidence_ids"@, json_list(jsons(arranged(x.evidence_ids@))));
    let m = m.push(("evidence_ids"@, json_list(jsons(arranged(x.evidence_ids@)))));
    lemma_object_read_back(body, m);
}

proof fn lemma_names_of_finding()
    ensures
        plain_name("schema_version"@),
        plain_name("finding_id"@),
        plain_name("fingerprint"@),
        plain_name("observation_ids"@),
        plain_name("tool"@),
        plain_name("language"@),
        plain_name("severity"@),
        plain_name("classification"@),
        plain_name("message"@),
        plain_name("location"@),
        plain_name("symbol"@),
        plain_name("expected"@),
        plain_name("observed"@),
        plain_name("state"@),
        plain_name("pre_report_state"@),
        plain_name("evidence_ids"@),
        plain_name("fix_candidate_id"@),
        plain_name("verification_execution_ids"@),
{
    assert(plain_name("schema_version"@)) by {
        reveal(plain_name);
        reveal_strlit("schema_version");
    }
    assert(plain_name("finding_id"@)) by {
        reveal(plain_name);
        reveal_strlit("finding_id");
    }
    assert(plain_name("fingerprint"@)) by {
        reveal(plain_name);
        reveal_strlit("fingerprint");
    }
    assert(plain_name("observation_ids"@)) by {
        reveal(plain_name);
        reveal_strlit("observation_ids");
    }
    assert(plain_name("tool"@)) by {
        reveal(plain_name);
        reveal_strlit("tool");
    }
    assert(plain_name("language"@)) by {
        reveal(plain_name);
        reveal_strlit("language");
    }
    assert(plain_name("severity"@)) by {
        reveal(plain_name);
        reveal_strlit("severity");
    }
    assert(plain_name("classification"@)) by {
        reveal(plain_name);
        reveal_strlit("classification");
    }
    assert(plain_name("message"@)) by {
        reveal(plain_name);
        reveal_strlit("message");
    }
    assert(plain_name("location"@)) by {
        reveal(plain_name);
        reveal_strlit("location");
    }
    assert(plain_name("symbol"@)) by {
        reveal(plain_name);
        reveal_strlit("symbol");
    }
    assert(plain_name("expected"@)) by {
        reveal(plain_name);
        reveal_strlit("expected");
    }
    assert(plain_name("observed"@)) by {
        reveal(plain_name);
        reveal_strlit("observed");
    }
    assert(plain_name("state"@)) by {
        reveal(plain_name);
        reveal_strlit("state");
    }
    assert(plain_name("pre_report_state"@)) by {
        reveal(plain_name);
        reveal_strlit("pre_report_state");
    }
    assert(plain_name("evidence_ids"@)) by {
        reveal(plain_name);
        reveal_strlit("evidence_ids");
    }
    assert(plain_name("fix_candidate_id"@)) by {
        reveal(plain_name);
        reveal_strlit("fix_candidate_id");
    }
    assert(plain_name("verification_execution_ids"@)) by {
        reveal(plain_name);
        reveal_strlit("verification_execution_ids");
    }
}

/// What the JSON of a finding says, member by member.
pub open spec fn finding_members(x: Finding) -> Seq<(Seq<char>, Seq<char>)> {
    let m = Seq::empty();
    let m = m.push(("schema_version"@, json_string(x.schema_version@)));
    let m = m.push(("finding_id"@, json_string(x.finding_id@)));
    let m = m.push(("fingerprint"@, json_string(x.fingerprint@)));
    let m = m.push(("observation_ids"@, json_list(jsons(arranged(x.observation_ids@)))));
    let m = m.push(("tool"@, x.tool.json()));
    let m = m.push(("language"@, json_string(x.language@)));
    let m = m.push(("severity"@, x.severity.json()));
    let m = m.push(("classification"@, x.classification.json()));
    let m = m.push(("message"@, json_string(x.message@)));
    let m = and_if(m, "location"@, optional_json(x.location));
    let m = and_if(m, "symbol"@, optional_string(x.symbol));
    let m = and_if(m, "expected"@, optional_string(x.expected));
    let m = and_if(m, "observed"@, optional_string(x.observed));
    let m = m.push(("state"@, json_string(x.state@)));
    let m = and_if(m, "pre_report_state"@, optional_string(x.pre_report_state));
    let m = m.push(("evidence_ids"@, json_list(jsons(arranged(x.evidence_ids@)))));
    let m = and_if(m, "fix_candidate_id"@, optional_string(x.fix_candidate_id));
    let m = and_if(m, "verification_execution_ids"@, match x.verification_execution_ids { Some(ids) => Some(json_list(jsons(arranged(ids@)))), None => None });
    m
}

/// Read back, the JSON of a finding says each thing of it under its own name.
#[verifier::rlimit(40)]
pub proof fn law_finding_reads_back(x: Finding)
    ensures
        members_of(x.json()) == finding_members(x),
        one_value(x.json()),
{
    let body = Seq::<char>::empty();
    let m = Seq::<(Seq<char>, Seq<char>)>::empty();
    lemma_no_members();
    lemma_names_of_finding();
    law_json_strings_read_back(x.schema_version@);
    lemma_one_more_member(body, m, "schema_version"@, json_string(x.schema_version@));
    let body = json_member(body, "schema_version"@, json_string(x.schema_version@));
    let m = m.push(("schema_version"@, json_string(x.schema_version@)));
    law_json_strings_read_back(x.finding_id@);
    lemma_one_more_member(body, m, "finding_id"@, json_string(x.finding_id@));
    let body = json_member(body, "finding_id"@, json_string(x.finding_id@));
    let m = m.push(("finding_id"@, json_string(x.finding_id@)));
    law_json_strings_read_back(x.fingerprint@);
    lemma_one_more_member(body, m, "fingerprint"@, json_string(x.fingerprint@));
    let body = json_member(body, "fingerprint"@, json_string(x.fingerprint@));
    let m = m.push(("fingerprint"@, json_string(x.fingerprint@)));
    lemma_string_list(arranged(x.observation_ids@));
    lemma_one_more_member(body, m, "observation_ids"@, json_list(jsons(arranged(x.observation_ids@))));
    let body = json_member(body, "observation_ids"@, json_list(jsons(arranged(x.observation_ids@))));
    let m = m.push(("observation_ids"@, json_list(jsons(arranged(x.observation_ids@)))));
    law_tool_reads_back(x.tool);
    lemma_one_more_member(body, m, "tool"@, x.tool.json());
    let body = json_member(body, "tool"@, x.tool.json());
    let m = m.push(("tool"@, x.tool.json()));
    law_json_strings_read_back(x.language@);
    lemma_one_more_member(body, m, "language"@, json_string(x.language@));
    let body = json_member(body, "language"@, json_string(x.language@));
    let m = m.push(("language"@, json_string(x.language@)));
    law_json_strings_read_back(x.severity.word());
    lemma_one_more_member(body, m, "severity"@, x.severity.json());
    let body = json_member(body, "severity"@, x.severity.json());
    let m = m.push(("severity"@, x.severity.json()));
    law_taxonomy_reads_back(x.classification);
    lemma_one_more_member(body, m, "classification"@, x.classification.json());
    let body = json_member(body, "classification"@, x.classification.json());
    let m = m.push(("classification"@, x.classification.json()));
    law_json_strings_read_back(x.message@);
    lemma_one_more_member(body, m, "message"@, json_string(x.message@));
    let body = json_member(body, "message"@, json_string(x.message@));
    let m = m.push(("message"@, json_string(x.message@)));
    if let Some(y) = x.location {
        law_location_reads_back(y);
    }
    lemma_one_more_if(body, m, "location"@, optional_json(x.location));
    let body = json_optional(body, "location"@, optional_json(x.location));
    let m = and_if(m, "location"@, optional_json(x.location));
    if let Some(y) = x.symbol {
        law_json_strings_read_back(y@);
    }
    lemma_one_more_if(body, m, "symbol"@, optional_string(x.symbol));
    let body = json_optional(body, "symbol"@, optional_string(x.symbol));
    let m = and_if(m, "symbol"@, optional_string(x.symbol));
    if let Some(y) = x.expected {
        law_json_strings_read_back(y@);
    }
    lemma_one_more_if(body, m, "expected"@, optional_string(x.expected));
    let body = json_optional(body, "expected"@, optional_string(x.expected));
    let m = and_if(m, "expected"@, optional_string(x.expected));
    if let Some(y) = x.observed {
        law_json_strings_read_back(y@);
    }
    lemma_one_more_if(body, m, "observed"@, optional_string(x.observed));
    let body = json_optional(body, "observed"@, optional_string(x.observed));
    let m = and_if(m, "observed"@, optional_string(x.observed));
    law_json_strings_read_back(x.state@);
    lemma_one_more_member(body, m, "state"@, json_string(x.state@));
    let body = json_member(body, "state"@, json_string(x.state@));
    let m = m.push(("state"@, json_string(x.state@)));
    if let Some(y) = x.pre_report_state {
        law_json_strings_read_back(y@);
    }
    lemma_one_more_if(body, m, "pre_report_state"@, optional_string(x.pre_report_state));
    let body = json_optional(body, "pre_report_state"@, optional_string(x.pre_report_state));
    let m = and_if(m, "pre_report_state"@, optional_string(x.pre_report_state));
    lemma_string_list(arranged(x.evidence_ids@));
    lemma_one_more_member(body, m, "evidence_ids"@, json_list(jsons(arranged(x.evidence_ids@))));
    let body = json_member(body, "evidence_ids"@, json_list(jsons(arranged(x.evidence_ids@))));
    let m = m.push(("evidence_ids"@, json_list(jsons(arranged(x.evidence_ids@)))));
    if let Some(y) = x.fix_candidate_id {
        law_json_strings_read_back(y@);
    }
    lemma_one_more_if(body, m, "fix_candidate_id"@, optional_string(x.fix_candidate_id));
    let body = json_optional(body, "fix_candidate_id"@, optional_string(x.fix_candidate_id));
    let m = and_if(m, "fix_candidate_id"@, optional_string(x.fix_candidate_id));
    if let Some(ids) = x.verification_execution_ids {
        lemma_string_list(arranged(ids@));
    }
    lemma_one_more_if(body, m, "verification_execution_ids"@, match x.verification_execution_ids { Some(ids) => Some(json_list(jsons(arranged(ids@)))), None => None });
    let body = json_optional(body, "verification_execution_ids"@, match x.verification_execution_ids { Some(ids) => Some(json_list(jsons(arranged(ids@)))), None => None });
    let m = and_if(m, "verification_execution_ids"@, match x.verification_execution_ids { Some(ids) => Some(json_list(jsons(arranged(ids@)))), None => None });
    lemma_object_read_back(body, m);
}

proof fn lemma_names_of_waiver()
    ensures
        plain_name("fingerprint"@),
        plain_name("waived_action"@),
        plain_name("reason"@),
        plain_name("owner"@),
        plain_name("expires_at"@),
{
    assert(plain_name("fingerprint"@)) by {
        reveal(plain_name);
        reveal_strlit("fingerprint");
    }
    assert(plain_name("waived_action"@)) by {
        reveal(plain_name);
        reveal_strlit("waived_action");
    }
    assert(plain_name("reason"@)) by {
        reveal(plain_name);
        reveal_strlit("reason");
    }
    assert(plain_name("owner"@)) by {
        reveal(plain_name);
        reveal_strlit("owner");
    }
    assert(plain_name("expires_at"@)) by {
        reveal(plain_name);
        reveal_strlit("expires_at");
    }
}

/// What the JSON of a waiver says, member by member.
pub open spec fn waiver_members(x: Waiver) -> Seq<(Seq<char>, Seq<char>)> {
    let m = Seq::empty();
    let m = m.push(("fingerprint"@, json_string(x.fingerprint@)));
    let m = m.push(("waived_action"@, x.waived_action.json()));
    let m = m.push(("reason"@, json_string(x.reason@)));
    let m = m.push(("owner"@, json_string(x.owner@)));
    let m = m.push(("expires_at"@, json_string(x.expires_at@)));
    m
}

/// Read back, the JSON of a waiver says each thing of it under its own name.
pub proof fn law_waiver_reads_back(x: Waiver)
    ensures
        members_of(x.json()) == waiver_members(x),
        one_value(x.json()),
{
    let body = Seq::<char>::empty();
    let m = Seq::<(Seq<char>, Seq<char>)>::empty();
    lemma_no_members();
    lemma_names_of_waiver();
    law_json_strings_read_back(x.fingerprint@);
    lemma_one_more_member(body, m, "fingerprint"@, json_string(x.fingerprint@));
    let body = json_member(body, "fingerprint"@, json_string(x.fingerprint@));
    let m = m.push(("fingerprint"@, json_string(x.fingerprint@)));
    law_json_strings_read_back(x.waived_action.word());
    lemma_one_more_member(body, m, "waived_action"@, x.waived_action.json());
    let body = json_member(body, "waived_action"@, x.waived_action.json());
    let m = m.push(("waived_action"@, x.waived_action.json()));
    law_json_strings_read_back(x.reason@);
    lemma_one_more_member(body, m, "reason"@, json_string(x.reason@));
    let body = json_member(body, "reason"@, json_string(x.reason@));
    let m = m.push(("reason"@, json_string(x.reason@)));
    law_json_strings_read_back(x.owner@);
    lemma_one_more_member(body, m, "owner"@, json_string(x.owner@));
    let body = json_member(body, "owner"@, json_string(x.owner@));
    let m = m.push(("owner"@, json_string(x.owner@)));
    law_json_strings_read_back(x.expires_at@);
    lemma_one_more_member(body, m, "expires_at"@, json_string(x.expires_at@));
    let body = json_member(body, "expires_at"@, json_string(x.expires_at@));
    let m = m.push(("expires_at"@, json_string(x.expires_at@)));
    lemma_object_read_back(body, m);
}

proof fn lemma_names_of_decision()
    ensures
        plain_name("schema_version"@),
        plain_name("decision_id"@),
        plain_name("finding_id"@),
        plain_name("action"@),
        plain_name("evaluated_at"@),
        plain_name("policy_digest"@),
        plain_name("matched_rule_id"@),
        plain_name("waiver"@),
{
    assert(plain_name("schema_version"@)) by {
        reveal(plain_name);
        reveal_strlit("schema_version");
    }
    assert(plain_name("decision_id"@)) by {
        reveal(plain_name);
        reveal_strlit("decision_id");
    }
    assert(plain_name("finding_id"@)) by {
        reveal(plain_name);
        reveal_strlit("finding_id");
    }
    assert(plain_name("action"@)) by {
        reveal(plain_name);
        reveal_strlit("action");
    }
    assert(plain_name("evaluated_at"@)) by {
        reveal(plain_name);
        reveal_strlit("evaluated_at");
    }
    assert(plain_name("policy_digest"@)) by {
        reveal(plain_name);
        reveal_strlit("policy_digest");
    }
    assert(plain_name("matched_rule_id"@)) by {
        reveal(plain_name);
        reveal_strlit("matched_rule_id");
    }
    assert(plain_name("waiver"@)) by {
        reveal(plain_name);
        reveal_strlit("waiver");
    }
}

/// What the JSON of a decision says, member by member.
pub open spec fn decision_members(x: Decision) -> Seq<(Seq<char>, Seq<char>)> {
    let m = Seq::empty();
    let m = m.push(("schema_version"@, json_string(x.schema_version@)));
    let m = m.push(("decision_id"@, json_string(x.decision_id@)));
    let m = m.push(("finding_id"@, json_string(x.finding_id@)));
    let m = m.push(("action"@, x.action.json()));
    let m = m.push(("evaluated_at"@, json_string(x.evaluated_at@)));
    let m = m.push(("policy_digest"@, json_string(x.policy_digest@)));
    let m = m.push(("matched_rule_id"@, json_string(x.matched_rule_id@)));
    let m = and_if(m, "waiver"@, optional_json(x.waiver));
    m
}

/// Read back, the JSON of a decision says each thing of it under its own name.
pub proof fn law_decision_reads_back(x: Decision)
    ensures
        members_of(x.json()) == decision_members(x),
        one_value(x.json()),
{
    let body = Seq::<char>::empty();
    let m = Seq::<(Seq<char>, Seq<char>)>::empty();
    lemma_no_members();
    lemma_names_of_decision();
    law_json_strings_read_back(x.schema_version@);
    lemma_one_more_member(body, m, "schema_version"@, json_string(x.schema_version@));
    let body = json_member(body, "schema_version"@, json_string(x.schema_version@));
    let m = m.push(("schema_version"@, json_string(x.schema_version@)));
    law_json_strings_read_back(x.decision_id@);
    lemma_one_more_member(body, m, "decision_id"@, json_string(x.decision_id@));
    let body = json_member(body, "decision_id"@, json_string(x.decision_id@));
    let m = m.push(("decision_id"@, json_string(x.decision_id@)));
    law_json_strings_read_back(x.finding_id@);
    lemma_one_more_member(body, m, "finding_id"@, json_string(x.finding_id@));
    let body = json_member(body, "finding_id"@, json_string(x.finding_id@));
    let m = m.push(("finding_id"@, json_string(x.finding_id@)));
    law_json_strings_read_back(x.action.word());
    lemma_one_more_member(body, m, "action"@, x.action.json());
    let body = json_member(body, "action"@, x.action.json());
    let m = m.push(("action"@, x.action.json()));
    law_json_strings_read_back(x.evaluated_at@);
    lemma_one_more_member(body, m, "evaluated_at"@, json_string(x.evaluated_at@));
    let body = json_member(body, "evaluated_at"@, json_string(x.evaluated_at@));
    let m = m.push(("evaluated_at"@, json_string(x.evaluated_at@)));
    law_json_strings_read_back(x.policy_digest@);
    lemma_one_more_member(body, m, "policy_digest"@, json_string(x.policy_digest@));
    let body = json_member(body, "policy_digest"@, json_string(x.policy_digest@));
    let m = m.push(("policy_digest"@, json_string(x.policy_digest@)));
    law_json_strings_read_back(x.matched_rule_id@);
    lemma_one_more_member(body, m, "matched_rule_id"@, json_string(x.matched_rule_id@));
    let body = json_member(body, "matched_rule_id"@, json_string(x.matched_rule_id@));
    let m = m.push(("matched_rule_id"@, json_string(x.matched_rule_id@)));
    if let Some(y) = x.waiver {
        law_waiver_reads_back(y);
    }
    lemma_one_more_if(body, m, "waiver"@, optional_json(x.waiver));
    let body = json_optional(body, "waiver"@, optional_json(x.waiver));
    let m = and_if(m, "waiver"@, optional_json(x.waiver));
    lemma_object_read_back(body, m);
}

proof fn lemma_names_of_evidence()
    ensures
        plain_name("schema_version"@),
        plain_name("evidence_id"@),
        plain_name("execution_id"@),
        plain_name("source"@),
        plain_name("media_type"@),
        plain_name("retained_bytes"@),
        plain_name("observed_bytes"@),
        plain_name("limit_bytes"@),
        plain_name("truncated"@),
        plain_name("sha256"@),
        plain_name("relative_path"@),
        plain_name("content"@),
{
    assert(plain_name("schema_version"@)) by {
        reveal(plain_name);
        reveal_strlit("schema_version");
    }
    assert(plain_name("evidence_id"@)) by {
        reveal(plain_name);
        reveal_strlit("evidence_id");
    }
    assert(plain_name("execution_id"@)) by {
        reveal(plain_name);
        reveal_strlit("execution_id");
    }
    assert(plain_name("source"@)) by {
        reveal(plain_name);
        reveal_strlit("source");
    }
    assert(plain_name("media_type"@)) by {
        reveal(plain_name);
        reveal_strlit("media_type");
    }
    assert(plain_name("retained_bytes"@)) by {
        reveal(plain_name);
        reveal_strlit("retained_bytes");
    }
    assert(plain_name("observed_bytes"@)) by {
        reveal(plain_name);
        reveal_strlit("observed_bytes");
    }
    assert(plain_name("limit_bytes"@)) by {
        reveal(plain_name);
        reveal_strlit("limit_bytes");
    }
    assert(plain_name("truncated"@)) by {
        reveal(plain_name);
        reveal_strlit("truncated");
    }
    assert(plain_name("sha256"@)) by {
        reveal(plain_name);
        reveal_strlit("sha256");
    }
    assert(plain_name("relative_path"@)) by {
        reveal(plain_name);
        reveal_strlit("relative_path");
    }
    assert(plain_name("content"@)) by {
        reveal(plain_name);
        reveal_strlit("content");
    }
}

/// What the JSON of a piece of evidence says, member by member.
pub open spec fn evidence_members(x: Evidence) -> Seq<(Seq<char>, Seq<char>)> {
    let m = Seq::empty();
    let m = m.push(("schema_version"@, json_string(x.schema_version@)));
    let m = m.push(("evidence_id"@, json_string(x.evidence_id@)));
    let m = and_if(m, "execution_id"@, optional_string(x.execution_id));
    let m = m.push(("source"@, x.source.json()));
    let m = m.push(("media_type"@, json_string(x.media_type@)));
    let m = m.push(("retained_bytes"@, decimal(x.retained_bytes as nat)));
    let m = m.push(("observed_bytes"@, decimal(x.observed_bytes as nat)));
    let m = m.push(("limit_bytes"@, decimal(x.limit_bytes as nat)));
    let m = m.push(("truncated"@, json_bool(x.truncated)));
    let m = m.push(("sha256"@, json_string(x.sha256@)));
    let m = and_if(m, "relative_path"@, optional_string(x.relative_path));
    let m = and_if(m, "content"@, optional_string(x.content));
    m
}

/// Read back, the JSON of a piece of evidence says each thing of it under its own name.
#[verifier::rlimit(40)]
pub proof fn law_evidence_reads_back(x: Evidence)
    ensures
        members_of(x.json()) == evidence_members(x),
        one_value(x.json()),
{
    let body = Seq::<char>::empty();
    let m = Seq::<(Seq<char>, Seq<char>)>::empty();
    lemma_no_members();
    lemma_names_of_evidence();
    law_json_strings_read_back(x.schema_version@);
    lemma_one_more_member(body, m, "schema_version"@, json_string(x.schema_version@));
    let body = json_member(body, "schema_version"@, json_string(x.schema_version@));
    let m = m.push(("schema_version"@, json_string(x.schema_version@)));
    law_json_strings_read_back(x.evidence_id@);
    lemma_one_more_member(body, m, "evidence_id"@, json_string(x.evidence_id@));
    let body = json_member(body, "evidence_id"@, json_string(x.evidence_id@));
    let m = m.push(("evidence_id"@, json_string(x.evidence_id@)));
    if let Some(y) = x.execution_id {
        law_json_strings_read_back(y@);
    }
    lemma_one_more_if(body, m, "execution_id"@, optional_string(x.execution_id));
    let body = json_optional(body, "execution_id"@, optional_string(x.execution_id));
    let m = and_if(m, "execution_id"@, optional_string(x.execution_id));
    law_json_strings_read_back(x.source.word());
    lemma_one_more_member(body, m, "source"@, x.source.json());
    let body = json_member(body, "source"@, x.source.json());
    let m = m.push(("source"@, x.source.json()));
    law_json_strings_read_back(x.media_type@);
    lemma_one_more_member(body, m, "media_type"@, json_string(x.media_type@));
    let body = json_member(body, "media_type"@, json_string(x.media_type@));
    let m = m.push(("media_type"@, json_string(x.media_type@)));
    law_plain_json_is_one_value(x.retained_bytes as nat, true);
    lemma_one_more_member(body, m, "retained_bytes"@, decimal(x.retained_bytes as nat));
    let body = json_member(body, "retained_bytes"@, decimal(x.retained_bytes as nat));
    let m = m.push(("retained_bytes"@, decimal(x.retained_bytes as nat)));
    law_plain_json_is_one_value(x.observed_bytes as nat, true);
    lemma_one_more_member(body, m, "observed_bytes"@, decimal(x.observed_bytes as nat));
    let body = json_member(body, "observed_bytes"@, decimal(x.observed_bytes as nat));
    let m = m.push(("observed_bytes"@, decimal(x.observed_bytes as nat)));
    law_plain_json_is_one_value(x.limit_bytes as nat, true);
    lemma_one_more_member(body, m, "limit_bytes"@, decimal(x.limit_bytes as nat));
    let body = json_member(body, "limit_bytes"@, decimal(x.limit_bytes as nat));
    let m = m.push(("limit_bytes"@, decimal(x.limit_bytes as nat)));
    law_plain_json_is_one_value(0, x.truncated);
    lemma_one_more_member(body, m, "truncated"@, json_bool(x.truncated));
    let body = json_member(body, "truncated"@, json_bool(x.truncated));
    let m = m.push(("truncated"@, json_bool(x.truncated)));
    law_json_strings_read_back(x.sha256@);
    lemma_one_more_member(body, m, "sha256"@, json_string(x.sha256@));
    let body = json_member(body, "sha256"@, json_string(x.sha256@));
    let m = m.push(("sha256"@, json_string(x.sha256@)));
    if let Some(y) = x.relative_path {
        law_json_strings_read_back(y@);
    }
    lemma_one_more_if(body, m, "relative_path"@, optional_string(x.relative_path));
    let body = json_optional(body, "relative_path"@, optional_string(x.relative_path));
    let m = and_if(m, "relative_path"@, optional_string(x.relative_path));
    if let Some(y) = x.content {
        law_json_strings_read_back(y@);
    }
    lemma_one_more_if(body, m, "content"@, optional_string(x.content));
    let body = json_optional(body, "content"@, optional_string(x.content));
    let m = and_if(m, "content"@, optional_string(x.content));
    lemma_object_read_back(body, m);
}

proof fn lemma_names_of_fix_candidate()
    ensures
        plain_name("schema_version"@),
        plain_name("fix_candidate_id"@),
        plain_name("observation_ids"@),
        plain_name("applicability"@),
        plain_name("tool_native"@),
        plain_name("patch_evidence_id"@),
{
    assert(plain_name("schema_version"@)) by {
        reveal(plain_name);
        reveal_strlit("schema_version");
    }
    assert(plain_name("fix_candidate_id"@)) by {
        reveal(plain_name);
        reveal_strlit("fix_candidate_id");
    }
    assert(plain_name("observation_ids"@)) by {
        reveal(plain_name);
        reveal_strlit("observation_ids");
    }
    assert(plain_name("applicability"@)) by {
        reveal(plain_name);
        reveal_strlit("applicability");
    }
    assert(plain_name("tool_native"@)) by {
        reveal(plain_name);
        reveal_strlit("tool_native");
    }
    assert(plain_name("patch_evidence_id"@)) by {
        reveal(plain_name);
        reveal_strlit("patch_evidence_id");
    }
}

/// What the JSON of a fix says, member by member.
pub open spec fn fix_candidate_members(x: FixCandidate) -> Seq<(Seq<char>, Seq<char>)> {
    let m = Seq::empty();
    let m = m.push(("schema_version"@, json_string(x.schema_version@)));
    let m = m.push(("fix_candidate_id"@, json_string(x.fix_candidate_id@)));
    let m = m.push(("observation_ids"@, json_list(jsons(arranged(x.observation_ids@)))));
    let m = m.push(("applicability"@, x.applicability.json()));
    let m = m.push(("tool_native"@, json_bool(x.tool_native)));
    let m = m.push(("patch_evidence_id"@, json_string(x.patch_evidence_id@)));
    m
}

/// Read back, the JSON of a fix says each thing of it under its own name.
pub proof fn law_fix_candidate_reads_back(x: FixCandidate)
    ensures
        members_of(x.json()) == fix_candidate_members(x),
        one_value(x.json()),
{
    let body = Seq::<char>::empty();
    let m = Seq::<(Seq<char>, Seq<char>)>::empty();
    lemma_no_members();
    lemma_names_of_fix_candidate();
    law_json_strings_read_back(x.schema_version@);
    lemma_one_more_member(body, m, "schema_version"@, json_string(x.schema_version@));
    let body = json_member(body, "schema_version"@, json_string(x.schema_version@));
    let m = m.push(("schema_version"@, json_string(x.schema_version@)));
    law_json_strings_read_back(x.fix_candidate_id@);
    lemma_one_more_member(body, m, "fix_candidate_id"@, json_string(x.fix_candidate_id@));
    let body = json_member(body, "fix_candidate_id"@, json_string(x.fix_candidate_id@));
    let m = m.push(("fix_candidate_id"@, json_string(x.fix_candidate_id@)));
    lemma_string_list(arranged(x.observation_ids@));
    lemma_one_more_member(body, m, "observation_ids"@, json_list(jsons(arranged(x.observation_ids@))));
    let body = json_member(body, "observation_ids"@, json_list(jsons(arranged(x.observation_ids@))));
    let m = m.push(("observation_ids"@, json_list(jsons(arranged(x.observation_ids@)))));
    law_json_strings_read_back(x.applicability.word());
    lemma_one_more_member(body, m, "applicability"@, x.applicability.json());
    let body = json_member(body, "applicability"@, x.applicability.json());
    let m = m.push(("applicability"@, x.applicability.json()));
    law_plain_json_is_one_value(0, x.tool_native);
    lemma_one_more_member(body, m, "tool_native"@, json_bool(x.tool_native));
    let body = json_member(body, "tool_native"@, json_bool(x.tool_native));
    let m = m.push(("tool_native"@, json_bool(x.tool_native)));
    law_json_strings_read_back(x.patch_evidence_id@);
    lemma_one_more_member(body, m, "patch_evidence_id"@, json_string(x.patch_evidence_id@));
    let body = json_member(body, "patch_evidence_id"@, json_string(x.patch_evidence_id@));
    let m = m.push(("patch_evidence_id"@, json_string(x.patch_evidence_id@)));
    lemma_object_read_back(body, m);
}

proof fn lemma_names_of_execution_phases()
    ensures
        plain_name("queue"@),
        plain_name("setup"@),
        plain_name("run"@),
        plain_name("normalize"@),
        plain_name("total"@),
{
    assert(plain_name("queue"@)) by {
        reveal(plain_name);
        reveal_strlit("queue");
    }
    assert(plain_name("setup"@)) by {
        reveal(plain_name);
        reveal_strlit("setup");
    }
    assert(plain_name("run"@)) by {
        reveal(plain_name);
        reveal_strlit("run");
    }
    assert(plain_name("normalize"@)) by {
        reveal(plain_name);
        reveal_strlit("normalize");
    }
    assert(plain_name("total"@)) by {
        reveal(plain_name);
        reveal_strlit("total");
    }
}

/// What the JSON of the phases of an execution says, member by member.
pub open spec fn execution_phases_members(x: ExecutionPhases) -> Seq<(Seq<char>, Seq<char>)> {
    let m = Seq::empty();
    let m = m.push(("queue"@, x.queue.json()));
    let m = m.push(("setup"@, x.setup.json()));
    let m = m.push(("run"@, x.run.json()));
    let m = m.push(("normalize"@, x.normalize.json()));
    let m = m.push(("total"@, x.total.json()));
    m
}

/// Read back, the JSON of the phases of an execution says each thing of it under its own name.
pub proof fn law_execution_phases_reads_back(x: ExecutionPhases)
    ensures
        members_of(x.json()) == execution_phases_members(x),
        one_value(x.json()),
{
    let body = Seq::<char>::empty();
    let m = Seq::<(Seq<char>, Seq<char>)>::empty();
    lemma_no_members();
    lemma_names_of_execution_phases();
    lemma_phase(x.queue);
    lemma_one_more_member(body, m, "queue"@, x.queue.json());
    let body = json_member(body, "queue"@, x.queue.json());
    let m = m.push(("queue"@, x.queue.json()));
    lemma_phase(x.setup);
    lemma_one_more_member(body, m, "setup"@, x.setup.json());
    let body = json_member(body, "setup"@, x.setup.json());
    let m = m.push(("setup"@, x.setup.json()));
    lemma_phase(x.run);
    lemma_one_more_member(body, m, "run"@, x.run.json());
    let body = json_member(body, "run"@, x.run.json());
    let m = m.push(("run"@, x.run.json()));
    lemma_phase(x.normalize);
    lemma_one_more_member(body, m, "normalize"@, x.normalize.json());
    let body = json_member(body, "normalize"@, x.normalize.json());
    let m = m.push(("normalize"@, x.normalize.json()));
    lemma_phase(x.total);
    lemma_one_more_member(body, m, "total"@, x.total.json());
    let body = json_member(body, "total"@, x.total.json());
    let m = m.push(("total"@, x.total.json()));
    lemma_object_read_back(body, m);
}

proof fn lemma_names_of_performance()
    ensures
        plain_name("status"@),
        plain_name("budget_ms"@),
{
    assert(plain_name("status"@)) by {
        reveal(plain_name);
        reveal_strlit("status");
    }
    assert(plain_name("budget_ms"@)) by {
        reveal(plain_name);
        reveal_strlit("budget_ms");
    }
}

/// What the JSON of a performance says, member by member.
pub open spec fn performance_members(x: Performance) -> Seq<(Seq<char>, Seq<char>)> {
    let m = Seq::empty();
    let m = m.push(("status"@, x.status.json()));
    let m = m.push(("budget_ms"@, decimal(x.budget_ms as nat)));
    m
}

/// Read back, the JSON of a performance says each thing of it under its own name.
pub proof fn law_performance_reads_back(x: Performance)
    ensures
        members_of(x.json()) == performance_members(x),
        one_value(x.json()),
{
    let body = Seq::<char>::empty();
    let m = Seq::<(Seq<char>, Seq<char>)>::empty();
    lemma_no_members();
    lemma_names_of_performance();
    law_json_strings_read_back(x.status.word());
    lemma_one_more_member(body, m, "status"@, x.status.json());
    let body = json_member(body, "status"@, x.status.json());
    let m = m.push(("status"@, x.status.json()));
    law_plain_json_is_one_value(x.budget_ms as nat, true);
    lemma_one_more_member(body, m, "budget_ms"@, decimal(x.budget_ms as nat));
    let body = json_member(body, "budget_ms"@, decimal(x.budget_ms as nat));
    let m = m.push(("budget_ms"@, decimal(x.budget_ms as nat)));
    lemma_object_read_back(body, m);
}

proof fn lemma_names_of_cache()
    ensures
        plain_name("status"@),
        plain_name("restore_ms"@),
        plain_name("save_ms"@),
{
    assert(plain_name("status"@)) by {
        reveal(plain_name);
        reveal_strlit("status");
    }
    assert(plain_name("restore_ms"@)) by {
        reveal(plain_name);
        reveal_strlit("restore_ms");
    }
    assert(plain_name("save_ms"@)) by {
        reveal(plain_name);
        reveal_strlit("save_ms");
    }
}

/// What the JSON of what was cached says, member by member.
pub open spec fn cache_members(x: Cache) -> Seq<(Seq<char>, Seq<char>)> {
    let m = Seq::empty();
    let m = m.push(("status"@, json_string(x.status@)));
    let m = and_if(m, "restore_ms"@, optional_json(x.restore_ms));
    let m = and_if(m, "save_ms"@, optional_json(x.save_ms));
    m
}

/// Read back, the JSON of what was cached says each thing of it under its own name.
pub proof fn law_cache_reads_back(x: Cache)
    ensures
        members_of(x.json()) == cache_members(x),
        one_value(x.json()),
{
    let body = Seq::<char>::empty();
    let m = Seq::<(Seq<char>, Seq<char>)>::empty();
    lemma_no_members();
    lemma_names_of_cache();
    law_json_strings_read_back(x.status@);
    lemma_one_more_member(body, m, "status"@, json_string(x.status@));
    let body = json_member(body, "status"@, json_string(x.status@));
    let m = m.push(("status"@, json_string(x.status@)));
    if let Some(y) = x.restore_ms {
        law_plain_json_is_one_value(y as nat, true);
    }
    lemma_one_more_if(body, m, "restore_ms"@, optional_json(x.restore_ms));
    let body = json_optional(body, "restore_ms"@, optional_json(x.restore_ms));
    let m = and_if(m, "restore_ms"@, optional_json(x.restore_ms));
    if let Some(y) = x.save_ms {
        law_plain_json_is_one_value(y as nat, true);
    }
    lemma_one_more_if(body, m, "save_ms"@, optional_json(x.save_ms));
    let body = json_optional(body, "save_ms"@, optional_json(x.save_ms));
    let m = and_if(m, "save_ms"@, optional_json(x.save_ms));
    lemma_object_read_back(body, m);
}

proof fn lemma_names_of_retry()
    ensures
        plain_name("status"@),
        plain_name("attempt"@),
        plain_name("same_revision"@),
        plain_name("group_id"@),
{
    assert(plain_name("status"@)) by {
        reveal(plain_name);
        reveal_strlit("status");
    }
    assert(plain_name("attempt"@)) by {
        reveal(plain_name);
        reveal_strlit("attempt");
    }
    assert(plain_name("same_revision"@)) by {
        reveal(plain_name);
        reveal_strlit("same_revision");
    }
    assert(plain_name("group_id"@)) by {
        reveal(plain_name);
        reveal_strlit("group_id");
    }
}

/// What the JSON of a retry says, member by member.
pub open spec fn retry_members(x: Retry) -> Seq<(Seq<char>, Seq<char>)> {
    let m = Seq::empty();
    let m = m.push(("status"@, json_string(x.status@)));
    let m = and_if(m, "attempt"@, optional_json(x.attempt));
    let m = and_if(m, "same_revision"@, optional_json(x.same_revision));
    let m = and_if(m, "group_id"@, optional_string(x.group_id));
    m
}

/// Read back, the JSON of a retry says each thing of it under its own name.
pub proof fn law_retry_reads_back(x: Retry)
    ensures
        members_of(x.json()) == retry_members(x),
        one_value(x.json()),
{
    let body = Seq::<char>::empty();
    let m = Seq::<(Seq<char>, Seq<char>)>::empty();
    lemma_no_members();
    lemma_names_of_retry();
    law_json_strings_read_back(x.status@);
    lemma_one_more_member(body, m, "status"@, json_string(x.status@));
    let body = json_member(body, "status"@, json_string(x.status@));
    let m = m.push(("status"@, json_string(x.status@)));
    if let Some(y) = x.attempt {
        law_plain_json_is_one_value(y as nat, true);
    }
    lemma_one_more_if(body, m, "attempt"@, optional_json(x.attempt));
    let body = json_optional(body, "attempt"@, optional_json(x.attempt));
    let m = and_if(m, "attempt"@, optional_json(x.attempt));
    if let Some(y) = x.same_revision {
        law_plain_json_is_one_value(0, y);
    }
    lemma_one_more_if(body, m, "same_revision"@, optional_json(x.same_revision));
    let body = json_optional(body, "same_revision"@, optional_json(x.same_revision));
    let m = and_if(m, "same_revision"@, optional_json(x.same_revision));
    if let Some(y) = x.group_id {
        law_json_strings_read_back(y@);
    }
    lemma_one_more_if(body, m, "group_id"@, optional_string(x.group_id));
    let body = json_optional(body, "group_id"@, optional_string(x.group_id));
    let m = and_if(m, "group_id"@, optional_string(x.group_id));
    lemma_object_read_back(body, m);
}

proof fn lemma_names_of_runner()
    ensures
        plain_name("status"@),
        plain_name("os"@),
        plain_name("arch"@),
        plain_name("image"@),
        plain_name("fingerprint"@),
{
    assert(plain_name("status"@)) by {
        reveal(plain_name);
        reveal_strlit("status");
    }
    assert(plain_name("os"@)) by {
        reveal(plain_name);
        reveal_strlit("os");
    }
    assert(plain_name("arch"@)) by {
        reveal(plain_name);
        reveal_strlit("arch");
    }
    assert(plain_name("image"@)) by {
        reveal(plain_name);
        reveal_strlit("image");
    }
    assert(plain_name("fingerprint"@)) by {
        reveal(plain_name);
        reveal_strlit("fingerprint");
    }
}

/// What the JSON of a runner says, member by member.
pub open spec fn runner_members(x: Runner) -> Seq<(Seq<char>, Seq<char>)> {
    let m = Seq::empty();
    let m = m.push(("status"@, json_string(x.status@)));
    let m = and_if(m, "os"@, optional_string(x.os));
    let m = and_if(m, "arch"@, optional_string(x.arch));
    let m = and_if(m, "image"@, optional_string(x.image));
    let m = and_if(m, "fingerprint"@, optional_string(x.fingerprint));
    m
}

/// Read back, the JSON of a runner says each thing of it under its own name.
pub proof fn law_runner_reads_back(x: Runner)
    ensures
        members_of(x.json()) == runner_members(x),
        one_value(x.json()),
{
    let body = Seq::<char>::empty();
    let m = Seq::<(Seq<char>, Seq<char>)>::empty();
    lemma_no_members();
    lemma_names_of_runner();
    law_json_strings_read_back(x.status@);
    lemma_one_more_member(body, m, "status"@, json_string(x.status@));
    let body = json_member(body, "status"@, json_string(x.status@));
    let m = m.push(("status"@, json_string(x.status@)));
    if let Some(y) = x.os {
        law_json_strings_read_back(y@);
    }
    lemma_one_more_if(body, m, "os"@, optional_string(x.os));
    let body = json_optional(body, "os"@, optional_string(x.os));
    let m = and_if(m, "os"@, optional_string(x.os));
    if let Some(y) = x.arch {
        law_json_strings_read_back(y@);
    }
    lemma_one_more_if(body, m, "arch"@, optional_string(x.arch));
    let body = json_optional(body, "arch"@, optional_string(x.arch));
    let m = and_if(m, "arch"@, optional_string(x.arch));
    if let Some(y) = x.image {
        law_json_strings_read_back(y@);
    }
    lemma_one_more_if(body, m, "image"@, optional_string(x.image));
    let body = json_optional(body, "image"@, optional_string(x.image));
    let m = and_if(m, "image"@, optional_string(x.image));
    if let Some(y) = x.fingerprint {
        law_json_strings_read_back(y@);
    }
    lemma_one_more_if(body, m, "fingerprint"@, optional_string(x.fingerprint));
    let body = json_optional(body, "fingerprint"@, optional_string(x.fingerprint));
    let m = and_if(m, "fingerprint"@, optional_string(x.fingerprint));
    lemma_object_read_back(body, m);
}

proof fn lemma_names_of_verification_attribution()
    ensures
        plain_name("fix_candidate_id"@),
        plain_name("patch_sha256"@),
        plain_name("base_snapshot_sha256"@),
        plain_name("base_snapshot_evidence_id"@),
        plain_name("target_fingerprints"@),
        plain_name("result_evidence_id"@),
{
    assert(plain_name("fix_candidate_id"@)) by {
        reveal(plain_name);
        reveal_strlit("fix_candidate_id");
    }
    assert(plain_name("patch_sha256"@)) by {
        reveal(plain_name);
        reveal_strlit("patch_sha256");
    }
    assert(plain_name("base_snapshot_sha256"@)) by {
        reveal(plain_name);
        reveal_strlit("base_snapshot_sha256");
    }
    assert(plain_name("base_snapshot_evidence_id"@)) by {
        reveal(plain_name);
        reveal_strlit("base_snapshot_evidence_id");
    }
    assert(plain_name("target_fingerprints"@)) by {
        reveal(plain_name);
        reveal_strlit("target_fingerprints");
    }
    assert(plain_name("result_evidence_id"@)) by {
        reveal(plain_name);
        reveal_strlit("result_evidence_id");
    }
}

/// What the JSON of a verification says, member by member.
pub open spec fn verification_attribution_members(x: VerificationAttribution) -> Seq<(Seq<char>, Seq<char>)> {
    let m = Seq::empty();
    let m = m.push(("fix_candidate_id"@, json_string(x.fix_candidate_id@)));
    let m = m.push(("patch_sha256"@, json_string(x.patch_sha256@)));
    let m = m.push(("base_snapshot_sha256"@, json_string(x.base_snapshot_sha256@)));
    let m = m.push(("base_snapshot_evidence_id"@, json_string(x.base_snapshot_evidence_id@)));
    let m = m.push(("target_fingerprints"@, json_list(jsons(arranged(x.target_fingerprints@)))));
    let m = m.push(("result_evidence_id"@, json_string(x.result_evidence_id@)));
    m
}

/// Read back, the JSON of a verification says each thing of it under its own name.
pub proof fn law_verification_attribution_reads_back(x: VerificationAttribution)
    ensures
        members_of(x.json()) == verification_attribution_members(x),
        one_value(x.json()),
{
    let body = Seq::<char>::empty();
    let m = Seq::<(Seq<char>, Seq<char>)>::empty();
    lemma_no_members();
    lemma_names_of_verification_attribution();
    law_json_strings_read_back(x.fix_candidate_id@);
    lemma_one_more_member(body, m, "fix_candidate_id"@, json_string(x.fix_candidate_id@));
    let body = json_member(body, "fix_candidate_id"@, json_string(x.fix_candidate_id@));
    let m = m.push(("fix_candidate_id"@, json_string(x.fix_candidate_id@)));
    law_json_strings_read_back(x.patch_sha256@);
    lemma_one_more_member(body, m, "patch_sha256"@, json_string(x.patch_sha256@));
    let body = json_member(body, "patch_sha256"@, json_string(x.patch_sha256@));
    let m = m.push(("patch_sha256"@, json_string(x.patch_sha256@)));
    law_json_strings_read_back(x.base_snapshot_sha256@);
    lemma_one_more_member(body, m, "base_snapshot_sha256"@, json_string(x.base_snapshot_sha256@));
    let body = json_member(body, "base_snapshot_sha256"@, json_string(x.base_snapshot_sha256@));
    let m = m.push(("base_snapshot_sha256"@, json_string(x.base_snapshot_sha256@)));
    law_json_strings_read_back(x.base_snapshot_evidence_id@);
    lemma_one_more_member(body, m, "base_snapshot_evidence_id"@, json_string(x.base_snapshot_evidence_id@));
    let body = json_member(body, "base_snapshot_evidence_id"@, json_string(x.base_snapshot_evidence_id@));
    let m = m.push(("base_snapshot_evidence_id"@, json_string(x.base_snapshot_evidence_id@)));
    lemma_string_list(arranged(x.target_fingerprints@));
    lemma_one_more_member(body, m, "target_fingerprints"@, json_list(jsons(arranged(x.target_fingerprints@))));
    let body = json_member(body, "target_fingerprints"@, json_list(jsons(arranged(x.target_fingerprints@))));
    let m = m.push(("target_fingerprints"@, json_list(jsons(arranged(x.target_fingerprints@)))));
    law_json_strings_read_back(x.result_evidence_id@);
    lemma_one_more_member(body, m, "result_evidence_id"@, json_string(x.result_evidence_id@));
    let body = json_member(body, "result_evidence_id"@, json_string(x.result_evidence_id@));
    let m = m.push(("result_evidence_id"@, json_string(x.result_evidence_id@)));
    lemma_object_read_back(body, m);
}

proof fn lemma_names_of_execution()
    ensures
        plain_name("schema_version"@),
        plain_name("execution_id"@),
        plain_name("adapter_id"@),
        plain_name("adapter_kind"@),
        plain_name("tool"@),
        plain_name("toolchain_fingerprint"@),
        plain_name("required"@),
        plain_name("status"@),
        plain_name("exit_code"@),
        plain_name("message"@),
        plain_name("phases_ms"@),
        plain_name("performance"@),
        plain_name("cache"@),
        plain_name("retry"@),
        plain_name("runner"@),
        plain_name("verification"@),
{
    assert(plain_name("schema_version"@)) by {
        reveal(plain_name);
        reveal_strlit("schema_version");
    }
    assert(plain_name("execution_id"@)) by {
        reveal(plain_name);
        reveal_strlit("execution_id");
    }
    assert(plain_name("adapter_id"@)) by {
        reveal(plain_name);
        reveal_strlit("adapter_id");
    }
    assert(plain_name("adapter_kind"@)) by {
        reveal(plain_name);
        reveal_strlit("adapter_kind");
    }
    assert(plain_name("tool"@)) by {
        reveal(plain_name);
        reveal_strlit("tool");
    }
    assert(plain_name("toolchain_fingerprint"@)) by {
        reveal(plain_name);
        reveal_strlit("toolchain_fingerprint");
    }
    assert(plain_name("required"@)) by {
        reveal(plain_name);
        reveal_strlit("required");
    }
    assert(plain_name("status"@)) by {
        reveal(plain_name);
        reveal_strlit("status");
    }
    assert(plain_name("exit_code"@)) by {
        reveal(plain_name);
        reveal_strlit("exit_code");
    }
    assert(plain_name("message"@)) by {
        reveal(plain_name);
        reveal_strlit("message");
    }
    assert(plain_name("phases_ms"@)) by {
        reveal(plain_name);
        reveal_strlit("phases_ms");
    }
    assert(plain_name("performance"@)) by {
        reveal(plain_name);
        reveal_strlit("performance");
    }
    assert(plain_name("cache"@)) by {
        reveal(plain_name);
        reveal_strlit("cache");
    }
    assert(plain_name("retry"@)) by {
        reveal(plain_name);
        reveal_strlit("retry");
    }
    assert(plain_name("runner"@)) by {
        reveal(plain_name);
        reveal_strlit("runner");
    }
    assert(plain_name("verification"@)) by {
        reveal(plain_name);
        reveal_strlit("verification");
    }
}

/// What the JSON of an execution says, member by member.
pub open spec fn execution_members(x: Execution) -> Seq<(Seq<char>, Seq<char>)> {
    let m = Seq::empty();
    let m = m.push(("schema_version"@, json_string(x.schema_version@)));
    let m = m.push(("execution_id"@, json_string(x.execution_id@)));
    let m = m.push(("adapter_id"@, json_string(x.adapter_id@)));
    let m = m.push(("adapter_kind"@, x.adapter_kind.json()));
    let m = m.push(("tool"@, x.tool.json()));
    let m = m.push(("toolchain_fingerprint"@, x.toolchain_fingerprint.json()));
    let m = m.push(("required"@, json_bool(x.required)));
    let m = m.push(("status"@, x.status.json()));
    let m = m.push(("exit_code"@, json_nullable(optional_json(x.exit_code))));
    let m = and_if(m, "message"@, optional_string(x.message));
    let m = m.push(("phases_ms"@, x.phases_ms.json()));
    let m = m.push(("performance"@, x.performance.json()));
    let m = m.push(("cache"@, x.cache.json()));
    let m = m.push(("retry"@, x.retry.json()));
    let m = m.push(("runner"@, x.runner.json()));
    let m = and_if(m, "verification"@, optional_json(x.verification));
    m
}

/// Read back, the JSON of an execution says each thing of it under its own name.
#[verifier::rlimit(40)]
pub proof fn law_execution_reads_back(x: Execution)
    ensures
        members_of(x.json()) == execution_members(x),
        one_value(x.json()),
{
    let body = Seq::<char>::empty();
    let m = Seq::<(Seq<char>, Seq<char>)>::empty();
    lemma_no_members();
    lemma_names_of_execution();
    law_json_strings_read_back(x.schema_version@);
    lemma_one_more_member(body, m, "schema_version"@, json_string(x.schema_version@));
    let body = json_member(body, "schema_version"@, json_string(x.schema_version@));
    let m = m.push(("schema_version"@, json_string(x.schema_version@)));
    law_json_strings_read_back(x.execution_id@);
    lemma_one_more_member(body, m, "execution_id"@, json_string(x.execution_id@));
    let body = json_member(body, "execution_id"@, json_string(x.execution_id@));
    let m = m.push(("execution_id"@, json_string(x.execution_id@)));
    law_json_strings_read_back(x.adapter_id@);
    lemma_one_more_member(body, m, "adapter_id"@, json_string(x.adapter_id@));
    let body = json_member(body, "adapter_id"@, json_string(x.adapter_id@));
    let m = m.push(("adapter_id"@, json_string(x.adapter_id@)));
    law_json_strings_read_back(x.adapter_kind.word());
    lemma_one_more_member(body, m, "adapter_kind"@, x.adapter_kind.json());
    let body = json_member(body, "adapter_kind"@, x.adapter_kind.json());
    let m = m.push(("adapter_kind"@, x.adapter_kind.json()));
    law_tool_reads_back(x.tool);
    lemma_one_more_member(body, m, "tool"@, x.tool.json());
    let body = json_member(body, "tool"@, x.tool.json());
    let m = m.push(("tool"@, x.tool.json()));
    lemma_toolchain(x.toolchain_fingerprint);
    lemma_one_more_member(body, m, "toolchain_fingerprint"@, x.toolchain_fingerprint.json());
    let body = json_member(body, "toolchain_fingerprint"@, x.toolchain_fingerprint.json());
    let m = m.push(("toolchain_fingerprint"@, x.toolchain_fingerprint.json()));
    law_plain_json_is_one_value(0, x.required);
    lemma_one_more_member(body, m, "required"@, json_bool(x.required));
    let body = json_member(body, "required"@, json_bool(x.required));
    let m = m.push(("required"@, json_bool(x.required)));
    law_json_strings_read_back(x.status.word());
    lemma_one_more_member(body, m, "status"@, x.status.json());
    let body = json_member(body, "status"@, x.status.json());
    let m = m.push(("status"@, x.status.json()));
    law_plain_json_is_one_value(0, true);
    if let Some(y) = x.exit_code {
        law_plain_json_is_one_value(y as nat, true);
    }
    lemma_one_more_member(body, m, "exit_code"@, json_nullable(optional_json(x.exit_code)));
    let body = json_member(body, "exit_code"@, json_nullable(optional_json(x.exit_code)));
    let m = m.push(("exit_code"@, json_nullable(optional_json(x.exit_code))));
    if let Some(y) = x.message {
        law_json_strings_read_back(y@);
    }
    lemma_one_more_if(body, m, "message"@, optional_string(x.message));
    let body = json_optional(body, "message"@, optional_string(x.message));
    let m = and_if(m, "message"@, optional_string(x.message));
    law_execution_phases_reads_back(x.phases_ms);
    lemma_one_more_member(body, m, "phases_ms"@, x.phases_ms.json());
    let body = json_member(body, "phases_ms"@, x.phases_ms.json());
    let m = m.push(("phases_ms"@, x.phases_ms.json()));
    law_performance_reads_back(x.performance);
    lemma_one_more_member(body, m, "performance"@, x.performance.json());
    let body = json_member(body, "performance"@, x.performance.json());
    let m = m.push(("performance"@, x.performance.json()));
    law_cache_reads_back(x.cache);
    lemma_one_more_member(body, m, "cache"@, x.cache.json());
    let body = json_member(body, "cache"@, x.cache.json());
    let m = m.push(("cache"@, x.cache.json()));
    law_retry_reads_back(x.retry);
    lemma_one_more_member(body, m, "retry"@, x.retry.json());
    let body = json_member(body, "retry"@, x.retry.json());
    let m = m.push(("retry"@, x.retry.json()));
    law_runner_reads_back(x.runner);
    lemma_one_more_member(body, m, "runner"@, x.runner.json());
    let body = json_member(body, "runner"@, x.runner.json());
    let m = m.push(("runner"@, x.runner.json()));
    if let Some(y) = x.verification {
        law_verification_attribution_reads_back(y);
    }
    lemma_one_more_if(body, m, "verification"@, optional_json(x.verification));
    let body = json_optional(body, "verification"@, optional_json(x.verification));
    let m = and_if(m, "verification"@, optional_json(x.verification));
    lemma_object_read_back(body, m);
}

proof fn lemma_names_of_engine_config()
    ensures
        plain_name("version"@),
        plain_name("source_revision"@),
{
    assert(plain_name("version"@)) by {
        reveal(plain_name);
        reveal_strlit("version");
    }
    assert(plain_name("source_revision"@)) by {
        reveal(plain_name);
        reveal_strlit("source_revision");
    }
}

/// What the JSON of an engine says, member by member.
pub open spec fn engine_config_members(x: EngineConfig) -> Seq<(Seq<char>, Seq<char>)> {
    let m = Seq::empty();
    let m = m.push(("version"@, json_string(x.version@)));
    let m = m.push(("source_revision"@, json_string(x.source_revision@)));
    m
}

/// Read back, the JSON of an engine says each thing of it under its own name.
pub proof fn law_engine_config_reads_back(x: EngineConfig)
    ensures
        members_of(x.json()) == engine_config_members(x),
        one_value(x.json()),
{
    let body = Seq::<char>::empty();
    let m = Seq::<(Seq<char>, Seq<char>)>::empty();
    lemma_no_members();
    lemma_names_of_engine_config();
    law_json_strings_read_back(x.version@);
    lemma_one_more_member(body, m, "version"@, json_string(x.version@));
    let body = json_member(body, "version"@, json_string(x.version@));
    let m = m.push(("version"@, json_string(x.version@)));
    law_json_strings_read_back(x.source_revision@);
    lemma_one_more_member(body, m, "source_revision"@, json_string(x.source_revision@));
    let body = json_member(body, "source_revision"@, json_string(x.source_revision@));
    let m = m.push(("source_revision"@, json_string(x.source_revision@)));
    lemma_object_read_back(body, m);
}

proof fn lemma_names_of_session_report()
    ensures
        plain_name("schema_version"@),
        plain_name("session_id"@),
        plain_name("engine"@),
        plain_name("contract_sha256"@),
        plain_name("policy_digest"@),
        plain_name("verdict"@),
        plain_name("observations"@),
        plain_name("findings"@),
        plain_name("decisions"@),
        plain_name("evidence"@),
        plain_name("fix_candidates"@),
        plain_name("executions"@),
{
    assert(plain_name("schema_version"@)) by {
        reveal(plain_name);
        reveal_strlit("schema_version");
    }
    assert(plain_name("session_id"@)) by {
        reveal(plain_name);
        reveal_strlit("session_id");
    }
    assert(plain_name("engine"@)) by {
        reveal(plain_name);
        reveal_strlit("engine");
    }
    assert(plain_name("contract_sha256"@)) by {
        reveal(plain_name);
        reveal_strlit("contract_sha256");
    }
    assert(plain_name("policy_digest"@)) by {
        reveal(plain_name);
        reveal_strlit("policy_digest");
    }
    assert(plain_name("verdict"@)) by {
        reveal(plain_name);
        reveal_strlit("verdict");
    }
    assert(plain_name("observations"@)) by {
        reveal(plain_name);
        reveal_strlit("observations");
    }
    assert(plain_name("findings"@)) by {
        reveal(plain_name);
        reveal_strlit("findings");
    }
    assert(plain_name("decisions"@)) by {
        reveal(plain_name);
        reveal_strlit("decisions");
    }
    assert(plain_name("evidence"@)) by {
        reveal(plain_name);
        reveal_strlit("evidence");
    }
    assert(plain_name("fix_candidates"@)) by {
        reveal(plain_name);
        reveal_strlit("fix_candidates");
    }
    assert(plain_name("executions"@)) by {
        reveal(plain_name);
        reveal_strlit("executions");
    }
}

/// What the JSON of a report says, member by member.
pub open spec fn session_report_members(x: SessionReport) -> Seq<(Seq<char>, Seq<char>)> {
    let m = Seq::empty();
    let m = m.push(("schema_version"@, json_string(x.schema_version@)));
    let m = m.push(("session_id"@, json_string(x.session_id@)));
    let m = m.push(("engine"@, x.engine.json()));
    let m = m.push(("contract_sha256"@, json_string(x.contract_sha256@)));
    let m = m.push(("policy_digest"@, json_string(x.policy_digest@)));
    let m = m.push(("verdict"@, x.verdict.json()));
    let m = m.push(("observations"@, json_list(jsons(arranged(x.observations@)))));
    let m = m.push(("findings"@, json_list(jsons(arranged(x.findings@)))));
    let m = m.push(("decisions"@, json_list(jsons(arranged(x.decisions@)))));
    let m = m.push(("evidence"@, json_list(jsons(arranged(x.evidence@)))));
    let m = m.push(("fix_candidates"@, json_list(jsons(arranged(x.fix_candidates@)))));
    let m = m.push(("executions"@, json_list(jsons(arranged(x.executions@)))));
    m
}

/// Read back, the JSON of a report says each thing of it under its own name.
#[verifier::rlimit(40)]
pub proof fn law_session_report_reads_back(x: SessionReport)
    ensures
        members_of(x.json()) == session_report_members(x),
        one_value(x.json()),
{
    let body = Seq::<char>::empty();
    let m = Seq::<(Seq<char>, Seq<char>)>::empty();
    lemma_no_members();
    lemma_names_of_session_report();
    law_json_strings_read_back(x.schema_version@);
    lemma_one_more_member(body, m, "schema_version"@, json_string(x.schema_version@));
    let body = json_member(body, "schema_version"@, json_string(x.schema_version@));
    let m = m.push(("schema_version"@, json_string(x.schema_version@)));
    law_json_strings_read_back(x.session_id@);
    lemma_one_more_member(body, m, "session_id"@, json_string(x.session_id@));
    let body = json_member(body, "session_id"@, json_string(x.session_id@));
    let m = m.push(("session_id"@, json_string(x.session_id@)));
    law_engine_config_reads_back(x.engine);
    lemma_one_more_member(body, m, "engine"@, x.engine.json());
    let body = json_member(body, "engine"@, x.engine.json());
    let m = m.push(("engine"@, x.engine.json()));
    law_json_strings_read_back(x.contract_sha256@);
    lemma_one_more_member(body, m, "contract_sha256"@, json_string(x.contract_sha256@));
    let body = json_member(body, "contract_sha256"@, json_string(x.contract_sha256@));
    let m = m.push(("contract_sha256"@, json_string(x.contract_sha256@)));
    law_json_strings_read_back(x.policy_digest@);
    lemma_one_more_member(body, m, "policy_digest"@, json_string(x.policy_digest@));
    let body = json_member(body, "policy_digest"@, json_string(x.policy_digest@));
    let m = m.push(("policy_digest"@, json_string(x.policy_digest@)));
    law_json_strings_read_back(x.verdict.word());
    lemma_one_more_member(body, m, "verdict"@, x.verdict.json());
    let body = json_member(body, "verdict"@, x.verdict.json());
    let m = m.push(("verdict"@, x.verdict.json()));
    lemma_observation_list(arranged(x.observations@));
    lemma_one_more_member(body, m, "observations"@, json_list(jsons(arranged(x.observations@))));
    let body = json_member(body, "observations"@, json_list(jsons(arranged(x.observations@))));
    let m = m.push(("observations"@, json_list(jsons(arranged(x.observations@)))));
    lemma_finding_list(arranged(x.findings@));
    lemma_one_more_member(body, m, "findings"@, json_list(jsons(arranged(x.findings@))));
    let body = json_member(body, "findings"@, json_list(jsons(arranged(x.findings@))));
    let m = m.push(("findings"@, json_list(jsons(arranged(x.findings@)))));
    lemma_decision_list(arranged(x.decisions@));
    lemma_one_more_member(body, m, "decisions"@, json_list(jsons(arranged(x.decisions@))));
    let body = json_member(body, "decisions"@, json_list(jsons(arranged(x.decisions@))));
    let m = m.push(("decisions"@, json_list(jsons(arranged(x.decisions@)))));
    lemma_evidence_list(arranged(x.evidence@));
    lemma_one_more_member(body, m, "evidence"@, json_list(jsons(arranged(x.evidence@))));
    let body = json_member(body, "evidence"@, json_list(jsons(arranged(x.evidence@))));
    let m = m.push(("evidence"@, json_list(jsons(arranged(x.evidence@)))));
    lemma_fix_candidate_list(arranged(x.fix_candidates@));
    lemma_one_more_member(body, m, "fix_candidates"@, json_list(jsons(arranged(x.fix_candidates@))));
    let body = json_member(body, "fix_candidates"@, json_list(jsons(arranged(x.fix_candidates@))));
    let m = m.push(("fix_candidates"@, json_list(jsons(arranged(x.fix_candidates@)))));
    lemma_execution_list(arranged(x.executions@));
    lemma_one_more_member(body, m, "executions"@, json_list(jsons(arranged(x.executions@))));
    let body = json_member(body, "executions"@, json_list(jsons(arranged(x.executions@))));
    let m = m.push(("executions"@, json_list(jsons(arranged(x.executions@)))));
    lemma_object_read_back(body, m);
}

/// In a report each thing goes by the word that stands for it.
pub proof fn law_words_stand_for_what_they_say()
    ensures
        Severity::Error.word() == "ERROR"@ && Severity::Warning.word() == "WARNING"@ && Severity::Info.word() == "INFO"@,
        Verdict::Pass.word() == "PASS"@ && Verdict::PolicyFail.word() == "POLICY_FAIL"@ && Verdict::Incomplete.word()
            == "INCOMPLETE"@ && Verdict::Unsupported.word() == "UNSUPPORTED"@,
        ExecutionStatus::Complete.word() == "COMPLETE"@ && ExecutionStatus::Incomplete.word() == "INCOMPLETE"@
            && ExecutionStatus::Unsupported.word() == "UNSUPPORTED"@,
        AdapterKind::Provider.word() == "PROVIDER"@ && AdapterKind::Observer.word() == "OBSERVER"@,
        DecisionAction::Observe.word() == "OBSERVE"@ && DecisionAction::Warn.word() == "WARN"@
            && DecisionAction::Block.word() == "BLOCK"@ && DecisionAction::Waive.word() == "WAIVE"@,
        Applicability::Safe.word() == "SAFE"@ && Applicability::Unsafe.word() == "UNSAFE"@
            && Applicability::Manual.word() == "MANUAL"@,
        PerformanceStatus::NotEvaluated.word() == "NOT_EVALUATED"@ && PerformanceStatus::WithinBudget.word()
            == "WITHIN_BUDGET"@ && PerformanceStatus::ImprovementCandidate.word() == "IMPROVEMENT_CANDIDATE"@,
        WaivedAction::Warn.word() == "WARN"@ && WaivedAction::Block.word() == "BLOCK"@,
        EvidenceSource::Stdout.word() == "STDOUT"@ && EvidenceSource::Stderr.word() == "STDERR"@
            && EvidenceSource::Patch.word() == "PATCH"@,
        forall|name: String| #[trigger] EvidenceSource::Other(name).word() == name@,
{
}

/// No two severities, verdicts, statuses, kinds, actions, applicabilities or performances go by one word.
#[verifier::rlimit(40)]
pub proof fn law_words_differ(
    severities: (Severity, Severity),
    verdicts: (Verdict, Verdict),
    statuses: (ExecutionStatus, ExecutionStatus),
    kinds: (AdapterKind, AdapterKind),
    actions: (DecisionAction, DecisionAction),
    applicabilities: (Applicability, Applicability),
    performances: (PerformanceStatus, PerformanceStatus),
)
    ensures
        severities.0.word() == severities.1.word() ==> severities.0 == severities.1,
        verdicts.0.word() == verdicts.1.word() ==> verdicts.0 == verdicts.1,
        statuses.0.word() == statuses.1.word() ==> statuses.0 == statuses.1,
        kinds.0.word() == kinds.1.word() ==> kinds.0 == kinds.1,
        actions.0.word() == actions.1.word() ==> actions.0 == actions.1,
        applicabilities.0.word() == applicabilities.1.word() ==> applicabilities.0 == applicabilities.1,
        performances.0.word() == performances.1.word() ==> performances.0 == performances.1,
{
    reveal_strlit("ERROR");
    reveal_strlit("WARNING");
    reveal_strlit("INFO");
    assert("ERROR"@.len() == 5 && "WARNING"@.len() == 7 && "INFO"@.len() == 4);
    reveal_strlit("PASS");
    reveal_strlit("POLICY_FAIL");
    reveal_strlit("INCOMPLETE");
    reveal_strlit("UNSUPPORTED");
    assert("PASS"@.len() == 4 && "POLICY_FAIL"@[0] == 'P' && "INCOMPLETE"@.len() == 10 && "UNSUPPORTED"@[0] == 'U');
    assert("POLICY_FAIL"@.len() == 11 && "UNSUPPORTED"@.len() == 11);
    reveal_strlit("COMPLETE");
    assert("COMPLETE"@.len() == 8);
    reveal_strlit("PROVIDER");
    reveal_strlit("OBSERVER");
    assert("PROVIDER"@[0] == 'P' && "OBSERVER"@[0] == 'O');
    reveal_strlit("OBSERVE");
    reveal_strlit("WARN");
    reveal_strlit("BLOCK");
    reveal_strlit("WAIVE");
    assert("OBSERVE"@.len() == 7 && "WARN"@.len() == 4 && "BLOCK"@[0] == 'B' && "WAIVE"@[0] == 'W' && "WAIVE"@.len() == 5);
    reveal_strlit("SAFE");
    reveal_strlit("UNSAFE");
    reveal_strlit("MANUAL");
    assert("SAFE"@.len() == 4 && "UNSAFE"@[0] == 'U' && "MANUAL"@[0] == 'M' && "MANUAL"@.len() == 6);
    reveal_strlit("NOT_EVALUATED");
    reveal_strlit("WITHIN_BUDGET");
    reveal_strlit("IMPROVEMENT_CANDIDATE");
    assert("NOT_EVALUATED"@[0] == 'N' && "WITHIN_BUDGET"@[0] == 'W' && "IMPROVEMENT_CANDIDATE"@[0] == 'I');
}

} // verus!
