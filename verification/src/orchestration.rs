//! Deterministic planning of read-only sessions, and what their outcomes come to.
use crate::config::provider::ProviderConfig;
use crate::order::equal_texts;
use crate::process::invocation::{texts, Invocation, ProcessSpec};
use crate::process::limits::RequestLimits;
use crate::protocol::{copy_texts, Operation, Request, RequestEnvelope};
use vstd::prelude::*;

pub mod laws;
pub mod paths;
pub mod projection;


verus! {

pub const PLAN_ID_DOMAIN: &'static str = "diagnostic-triage.runtime-plan/v1";

pub const REQUEST_ID_DOMAIN: &'static str = "diagnostic-triage.runtime-request/v1";

pub const EXECUTION_ID_DOMAIN: &'static str = "diagnostic-triage.runtime-execution/v1";

#[derive(Clone, Copy, Debug, PartialEq, Eq, Structural)]
pub enum ReadOnlyMode {
    Check,
    Ci,
}

impl ReadOnlyMode {
    /// The word by which it enters a plan's identity.
    pub open spec fn word(self) -> Seq<char> {
        match self {
            ReadOnlyMode::Check => "check"@,
            ReadOnlyMode::Ci => "ci"@,
        }
    }
}

/// What an identifier is derived from: a domain, and texts in that domain.
#[derive(Clone, Debug, PartialEq, Eq)]
pub struct IdentitySource {
    pub domain: &'static str,
    pub parts: Vec<String>,
}

impl IdentitySource {
    /// The domain, and the texts behind it.
    pub open spec fn content(&self) -> (Seq<char>, Seq<Seq<char>>) {
        (self.domain@, texts(self.parts@))
    }
}

/// What a plan's identifier is derived from.
pub open spec fn plan_source(mode: ReadOnlyMode, config_json: Seq<char>, repository_digest: Seq<char>) -> (
    Seq<char>,
    Seq<Seq<char>>,
) {
    (PLAN_ID_DOMAIN@, seq![mode.word(), config_json, repository_digest])
}

/// What the identifier of a provider's request is derived from.
pub open spec fn request_source(plan_id: Seq<char>, adapter_id: Seq<char>) -> (Seq<char>, Seq<Seq<char>>) {
    (REQUEST_ID_DOMAIN@, seq![plan_id, adapter_id])
}

/// What the identifier of a provider's execution is derived from.
pub open spec fn execution_source(plan_id: Seq<char>, adapter_id: Seq<char>) -> (Seq<char>, Seq<Seq<char>>) {
    (EXECUTION_ID_DOMAIN@, seq![plan_id, adapter_id])
}

/// What a plan's identifier is derived from: the mode, the configuration and the repository.
pub fn plan_identity(mode: ReadOnlyMode, config_json: &str, repository_digest: &str) -> (r: IdentitySource)
    ensures
        r.content() == plan_source(mode, config_json@, repository_digest@),
{
    let mut parts: Vec<String> = Vec::new();
    parts.push(
        match mode {
            ReadOnlyMode::Check => "check".to_owned(),
            ReadOnlyMode::Ci => "ci".to_owned(),
        },
    );
    parts.push(config_json.to_owned());
    parts.push(repository_digest.to_owned());
    assert(texts(parts@) =~= seq![mode.word(), config_json@, repository_digest@]);
    IdentitySource { domain: PLAN_ID_DOMAIN, parts }
}

fn provider_parts(plan_id: &str, adapter_id: &str) -> (r: Vec<String>)
    ensures
        texts(r@) == seq![plan_id@, adapter_id@],
{
    let mut parts: Vec<String> = Vec::new();
    parts.push(plan_id.to_owned());
    parts.push(adapter_id.to_owned());
    assert(texts(parts@) =~= seq![plan_id@, adapter_id@]);
    parts
}

/// What the identifier of a provider's request is derived from.
pub fn request_identity(plan_id: &str, adapter_id: &str) -> (r: IdentitySource)
    ensures
        r.content() == request_source(plan_id@, adapter_id@),
{
    IdentitySource { domain: REQUEST_ID_DOMAIN, parts: provider_parts(plan_id, adapter_id) }
}

/// What the identifier of a provider's execution is derived from.
pub fn execution_identity(plan_id: &str, adapter_id: &str) -> (r: IdentitySource)
    ensures
        r.content() == execution_source(plan_id@, adapter_id@),
{
    IdentitySource { domain: EXECUTION_ID_DOMAIN, parts: provider_parts(plan_id, adapter_id) }
}

/// A request and an execution of one provider, and a plan, never have their identifiers from the
/// same source; nor have two providers of one plan, nor two plans that differ in mode,
/// configuration or repository.
pub proof fn law_identity_sources_differ(
    mode: ReadOnlyMode,
    other_mode: ReadOnlyMode,
    config_json: Seq<char>,
    other_config_json: Seq<char>,
    digest: Seq<char>,
    other_digest: Seq<char>,
    plan_id: Seq<char>,
    adapter_id: Seq<char>,
    other_adapter_id: Seq<char>,
)
    ensures
        request_source(plan_id, adapter_id) != execution_source(plan_id, other_adapter_id),
        plan_source(mode, config_json, digest) != request_source(plan_id, adapter_id),
        plan_source(mode, config_json, digest) != execution_source(plan_id, adapter_id),
        adapter_id != other_adapter_id ==> request_source(plan_id, adapter_id) != request_source(
            plan_id,
            other_adapter_id,
        ) && execution_source(plan_id, adapter_id) != execution_source(plan_id, other_adapter_id),
        mode != other_mode || config_json != other_config_json || digest != other_digest ==> plan_source(
            mode,
            config_json,
            digest,
        ) != plan_source(other_mode, other_config_json, other_digest),
{
    reveal_strlit("diagnostic-triage.runtime-plan/v1");
    reveal_strlit("diagnostic-triage.runtime-request/v1");
    reveal_strlit("diagnostic-triage.runtime-execution/v1");
    reveal_strlit("check");
    reveal_strlit("ci");
    assert(PLAN_ID_DOMAIN@.len() == 33);
    assert(REQUEST_ID_DOMAIN@.len() == 36);
    assert(EXECUTION_ID_DOMAIN@.len() == 38);
    assert("check"@.len() == 5 && "ci"@.len() == 2);
    let a = seq![mode.word(), config_json, digest];
    let b = seq![other_mode.word(), other_config_json, other_digest];
    assert(a[0] == mode.word() && a[1] == config_json && a[2] == digest);
    assert(b[0] == other_mode.word() && b[1] == other_config_json && b[2] == other_digest);
    assert(seq![plan_id, adapter_id][1] == adapter_id);
    assert(seq![plan_id, other_adapter_id][1] == other_adapter_id);
}

/// What a provider's configuration says of the adapter and its tool.
#[derive(Clone, Debug, PartialEq, Eq)]
pub struct ProviderIdentity {
    pub adapter_version: String,
    pub tool_name: String,
    pub tool_version: String,
}

/// A provider of a plan.
#[derive(Clone, Debug, PartialEq, Eq)]
pub struct PlannedProvider {
    pub config: ProviderConfig,
    pub identity: ProviderIdentity,
    pub request: RequestEnvelope,
    pub execution_id: String,
}

impl PlannedProvider {
    /// How the provider is run: its program with its configured arguments, in the repository, and with
    /// its request to read.
    pub fn invocation(&self, program: &[u8], repository_root: &[u8], request_line: Vec<u8>) -> (r: ProcessSpec)
        ensures
            r@ == (Invocation {
                program: program@,
                argv: texts(self.config.argv@),
                current_dir: Some(repository_root@),
                stdin: request_line@,
            }),
    {
        let argv: &Vec<String> = &self.config.argv;
        let mut spec = ProcessSpec::new(program).current_dir(repository_root).stdin(request_line);
        let mut i: usize = 0;
        assert(texts(argv@).take(0) =~= Seq::<Seq<char>>::empty());
        while i < argv.len()
            invariant
                i <= argv.len(),
                spec@ == (Invocation {
                    program: program@,
                    argv: texts(argv@).take(i as int),
                    current_dir: Some(repository_root@),
                    stdin: request_line@,
                }),
            decreases argv.len() - i,
        {
            assert(texts(argv@).take(i as int).push(argv@[i as int]@) =~= texts(argv@).take(i + 1));
            spec = spec.arg(argv[i].as_str());
            i = i + 1;
        }
        assert(texts(argv@).take(argv@.len() as int) =~= texts(argv@));
        spec
    }
}

/// A provider that is to be planned, with the identifiers derived for it.
#[derive(Clone, Debug, PartialEq, Eq)]
pub struct ProviderToPlan {
    pub config: ProviderConfig,
    /// What the configuration says of the adapter and its tool; none, where it does not say so yet.
    pub identity: Option<ProviderIdentity>,
    pub request_id: String,
    pub execution_id: String,
    /// What the request contract finds wrong with the request that `planned_request` gives.
    pub violation: Option<String>,
}

/// What the requests of a plan share.
#[derive(Clone, Debug, PartialEq, Eq)]
pub struct PlanScope {
    pub plan_id: String,
    pub workspace: String,
    pub targets: Vec<String>,
    pub limits: RequestLimits,
}

/// The providers of a plan, with what their requests share.
#[derive(Clone, Debug, PartialEq, Eq)]
pub struct ReadOnlyPlan {
    pub plan_id: String,
    pub targets: Vec<String>,
    pub providers: Vec<PlannedProvider>,
}

#[derive(Clone, Debug, PartialEq, Eq)]
pub enum ReadOnlyPlanError {
    /// The configuration has to be migrated: it does not say which adapter and tool this provider
    /// is, and nobody guesses.
    MissingIdentity { adapter_id: String },
    /// The request contract refuses a request.
    Contract(String),
    /// Two identifiers of the plan are the same.
    IdentityCollision,
}

/// The request of a provider: a check of the plan's targets.
pub open spec fn planned_request_view(scope: PlanScope, config: ProviderConfig, request_id: Seq<char>) -> Request {
    Request {
        request_id,
        operation: Operation::Check,
        workspace: scope.workspace@,
        targets: texts(scope.targets@),
        required_capabilities: texts(config.required_capabilities@),
        optional_capabilities: texts(config.optional_capabilities@),
        limits: scope.limits,
    }
}

/// The request of a provider.
pub fn planned_request(scope: &PlanScope, config: &ProviderConfig, request_id: &str) -> (r: RequestEnvelope)
    ensures
        r@ == planned_request_view(*scope, *config, request_id@),
{
    RequestEnvelope {
        request_id: request_id.to_owned(),
        operation: Operation::Check,
        workspace: scope.workspace.clone(),
        targets: copy_texts(&scope.targets),
        required_capabilities: copy_texts(&config.required_capabilities),
        optional_capabilities: copy_texts(&config.optional_capabilities),
        limits: scope.limits,
    }
}

/// The identifiers that a plan has taken before its `k`-th provider.
pub open spec fn taken_ids(plan_id: Seq<char>, providers: Seq<ProviderToPlan>, k: int) -> Seq<Seq<char>>
    decreases k,
{
    if k <= 0 {
        seq![plan_id]
    } else {
        taken_ids(plan_id, providers, k - 1) + seq![
            providers[k - 1].request_id@,
            providers[k - 1].execution_id@,
        ]
    }
}

/// Why the plan cannot be made, from the `k`-th provider on.
pub open spec fn plan_fault(plan_id: Seq<char>, providers: Seq<ProviderToPlan>, k: int) -> Option<PlanFault>
    decreases providers.len() - k,
{
    if k < 0 || k >= providers.len() {
        None
    } else {
        let p = providers[k];
        let taken = taken_ids(plan_id, providers, k);
        if taken.contains(p.request_id@) || taken.contains(p.execution_id@) || p.request_id@ == p.execution_id@ {
            Some(PlanFault::IdentityCollision)
        } else {
            match p.violation {
                Some(message) => Some(PlanFault::Contract(message@)),
                None => plan_fault(plan_id, providers, k + 1),
            }
        }
    }
}

/// The first provider from the `k`-th on of which the configuration does not say what it is.
pub open spec fn unidentified(providers: Seq<ProviderToPlan>, k: int) -> Option<Seq<char>>
    decreases providers.len() - k,
{
    if k < 0 || k >= providers.len() {
        None
    } else if providers[k].identity is None {
        Some(providers[k].config.adapter_id@)
    } else {
        unidentified(providers, k + 1)
    }
}

/// Why a plan cannot be made.
pub enum PlanFault {
    Contract(Seq<char>),
    IdentityCollision,
}

/// The error says what the fault is.
pub open spec fn reports_plan_fault(error: ReadOnlyPlanError, fault: PlanFault) -> bool {
    match fault {
        PlanFault::Contract(message) => error matches ReadOnlyPlanError::Contract(text) && text@ == message,
        PlanFault::IdentityCollision => error is IdentityCollision,
    }
}

/// The provider is planned as it was to be.
pub open spec fn is_planned(planned: PlannedProvider, p: ProviderToPlan, scope: PlanScope) -> bool {
    &&& planned.config == p.config
    &&& p.identity == Some(planned.identity)
    &&& planned.execution_id == p.execution_id
    &&& planned.request@ == planned_request_view(scope, p.config, p.request_id@)
}

/// The plan holds the providers as they were to be planned.
pub open spec fn is_plan(plan: ReadOnlyPlan, providers: Seq<ProviderToPlan>, scope: PlanScope) -> bool {
    &&& plan.plan_id@ == scope.plan_id@
    &&& texts(plan.targets@) == texts(scope.targets@)
    &&& plan.providers.len() == providers.len()
    &&& forall|i: int| 0 <= i < providers.len() ==> is_planned(#[trigger] plan.providers@[i], providers[i], scope)
}

fn find_unidentified(providers: &Vec<ProviderToPlan>) -> (r: Option<String>)
    ensures
        match r {
            Some(id) => unidentified(providers@, 0) == Some(id@),
            None => unidentified(providers@, 0) is None,
        },
{
    let mut i: usize = 0;
    while i < providers.len()
        invariant
            i <= providers.len(),
            unidentified(providers@, 0) == unidentified(providers@, i as int),
        decreases providers.len() - i,
    {
        if providers[i].identity.is_none() {
            return Some(providers[i].config.adapter_id.clone());
        }
        i = i + 1;
    }
    None
}

/// Where no provider is unidentified, each of them is identified.
pub proof fn lemma_identified(providers: Seq<ProviderToPlan>, from: int, k: int)
    requires
        0 <= from <= k < providers.len(),
        unidentified(providers, from) is None,
    ensures
        providers[k].identity is Some,
    decreases k - from,
{
    if from < k {
        lemma_identified(providers, from + 1, k);
    }
}

fn is_taken(ids: &Vec<String>, id: &str) -> (r: bool)
    ensures
        r == texts(ids@).contains(id@),
{
    crate::protocol::names(ids, id)
}

/// Plans the providers. Each of them must say what it is, and every identifier of a plan is its own:
/// a derived one that is taken already is a collision.
pub fn build_read_only_plan(scope: PlanScope, providers: Vec<ProviderToPlan>) -> (r: Result<
    ReadOnlyPlan,
    ReadOnlyPlanError,
>)
    ensures
        match unidentified(providers@, 0) {
            Some(id) => r matches Err(ReadOnlyPlanError::MissingIdentity { adapter_id }) && adapter_id@ == id,
            None => match plan_fault(scope.plan_id@, providers@, 0) {
                Some(fault) => r matches Err(error) && reports_plan_fault(error, fault),
                None => r matches Ok(plan) && is_plan(plan, providers@, scope),
            },
        },
{
    let ghost all = providers@;
    if let Some(adapter_id) = find_unidentified(&providers) {
        return Err(ReadOnlyPlanError::MissingIdentity { adapter_id });
    }
    let mut ids: Vec<String> = Vec::new();
    ids.push(scope.plan_id.clone());
    let mut planned: Vec<PlannedProvider> = Vec::new();
    assert(texts(ids@) =~= taken_ids(scope.plan_id@, all, 0));
    for provider in it: providers.into_iter()
        invariant
            it.seq() == all,
            all == providers@,
            unidentified(all, 0) is None,
            planned.len() == it.index(),
            texts(ids@) == taken_ids(scope.plan_id@, all, it.index() as int),
            plan_fault(scope.plan_id@, all, 0) == plan_fault(scope.plan_id@, all, it.index() as int),
            forall|i: int| 0 <= i < it.index() ==> is_planned(#[trigger] planned@[i], all[i], scope),
    {
        let ghost k = it.index() as int;
        assert(provider == all[k]);
        if is_taken(&ids, provider.request_id.as_str()) || is_taken(&ids, provider.execution_id.as_str())
            || equal_texts(provider.request_id.as_str(), provider.execution_id.as_str()) {
            return Err(ReadOnlyPlanError::IdentityCollision);
        }
        if let Some(message) = provider.violation {
            return Err(ReadOnlyPlanError::Contract(message));
        }
        let request: RequestEnvelope = planned_request(&scope, &provider.config, provider.request_id.as_str());
        let ghost before = ids@;
        ids.push(provider.request_id);
        ids.push(provider.execution_id.clone());
        assert(texts(ids@) =~= taken_ids(scope.plan_id@, all, k + 1));
        proof {
            lemma_identified(all, 0, k);
        }
        if let Some(identity) = provider.identity {
            planned.push(
                PlannedProvider {
                    config: provider.config,
                    identity,
                    request,
                    execution_id: provider.execution_id,
                },
            );
        }
    }
    Ok(ReadOnlyPlan { plan_id: scope.plan_id, targets: scope.targets, providers: planned })
}

/// No two identifiers of a plan that could be made are the same.
pub proof fn law_planned_identifiers_are_distinct(plan_id: Seq<char>, providers: Seq<ProviderToPlan>, k: int)
    requires
        0 <= k <= providers.len(),
        plan_fault(plan_id, providers, 0) is None,
    ensures
        taken_ids(plan_id, providers, k).no_duplicates(),
    decreases k,
{
    if k > 0 {
        law_planned_identifiers_are_distinct(plan_id, providers, k - 1);
        lemma_no_fault_at(plan_id, providers, 0, k - 1);
        let taken = taken_ids(plan_id, providers, k - 1);
        let p = providers[k - 1];
        let next = taken + seq![p.request_id@, p.execution_id@];
        assert forall|i: int, j: int| 0 <= i < next.len() && 0 <= j < next.len() && i != j implies next[i] != next[j] by {
            if i < taken.len() && j < taken.len() {
                assert(next[i] == taken[i] && next[j] == taken[j]);
            } else if i < taken.len() {
                assert(taken.contains(taken[i]));
            } else if j < taken.len() {
                assert(taken.contains(taken[j]));
            }
        }
    }
}

proof fn lemma_no_fault_at(plan_id: Seq<char>, providers: Seq<ProviderToPlan>, from: int, k: int)
    requires
        0 <= from <= k < providers.len(),
        plan_fault(plan_id, providers, from) is None,
    ensures
        ({
            let p = providers[k];
            let taken = taken_ids(plan_id, providers, k);
            !taken.contains(p.request_id@) && !taken.contains(p.execution_id@) && p.request_id@ != p.execution_id@
        }),
    decreases k - from,
{
    if from < k {
        lemma_no_fault_at(plan_id, providers, from + 1, k);
    }
}

} // verus!
