//! What a plan asks of its providers, and what its outcome says of them.
use super::{is_plan, is_planned, planned_request_view, PlanScope, PlannedProvider, ProviderToPlan, ReadOnlyPlan};
use super::projection::{
    evidence_in, execution_fault, fix_candidates_in, is_canonical_fix, is_canonical_observation, is_execution_of,
    is_projection, observations_in, payload, payloads, session_fault, ProviderRun, ProviderSessionState,
    ReadOnlyRuntimeProjection,
};
use crate::model::{
    AdapterKind, Evidence, Execution, ExecutionStatus, FixCandidate, Observation, PerformanceStatus, PhaseDuration,
};
use crate::order::{arranged, lemma_arranged_members, lemma_arranged_texts};
use crate::process::invocation::texts;
use crate::protocol::{Operation, ProtocolEvent, ValidatedSession};
use vstd::prelude::*;

verus! {

/// The execution tells how its provider ended: its status and exit code, how long the tool ran where that
/// is known, whether that was within a minute, and the reason where it did not complete.
pub open spec fn tells(execution: Execution, state: ProviderSessionState) -> bool {
    &&& execution.status == ExecutionStatus::Complete <==> state is Complete
    &&& execution.status == ExecutionStatus::Incomplete <==> state is Incomplete
    &&& execution.status == ExecutionStatus::Unsupported <==> state is Unsupported
    &&& match state {
        ProviderSessionState::Complete(session) => {
            &&& execution.exit_code == session.completion.tool_exit_code
            &&& ran_for(execution, Some(session.completion.tool_duration_ms as int))
            &&& match (execution.message, session.completion.message) {
                (Some(message), Some(said)) => message@ == said@,
                (None, None) => true,
                _ => false,
            }
        },
        ProviderSessionState::Incomplete { reason, validated_session } => {
            &&& execution.exit_code is None
            &&& ran_for(execution, duration_in(validated_session))
            &&& execution.message is Some && gives_reason(execution.message.unwrap()@, reason@)
        },
        ProviderSessionState::Unsupported { reason, validated_session, .. } => {
            &&& execution.exit_code is None
            &&& ran_for(execution, duration_in(validated_session))
            &&& execution.message is Some && gives_reason(execution.message.unwrap()@, reason@)
        },
    }
}

/// The milliseconds that the tool of a session ran.
pub open spec fn duration_in(session: Option<ValidatedSession>) -> Option<int> {
    match session {
        Some(session) => Some(session.completion.tool_duration_ms as int),
        None => None,
    }
}

/// The execution has that duration for its run and none for its other phases; more than 60 seconds are too
/// many.
pub open spec fn ran_for(execution: Execution, milliseconds: Option<int>) -> bool {
    &&& execution.performance.budget_ms == 60_000
    &&& execution.phases_ms.queue is Unavailable
    &&& execution.phases_ms.setup is Unavailable
    &&& execution.phases_ms.normalize is Unavailable
    &&& execution.phases_ms.total is Unavailable
    &&& match milliseconds {
        Some(n) => {
            &&& execution.phases_ms.run matches PhaseDuration::Milliseconds(m) && m == n
            &&& execution.performance.status == PerformanceStatus::ImprovementCandidate <==> n > 60_000
            &&& execution.performance.status == PerformanceStatus::WithinBudget <==> n <= 60_000
        },
        None => {
            &&& execution.phases_ms.run is Unavailable
            &&& execution.performance.status == PerformanceStatus::NotEvaluated
        },
    }
}

/// The message is the reason: all of it where it has at most 8192 characters, the beginning of it where it has
/// more, and never nothing.
pub open spec fn gives_reason(message: Seq<char>, reason: Seq<char>) -> bool {
    &&& 0 < message.len() <= 8192
    &&& 0 < reason.len() <= 8192 ==> message == reason
    &&& reason.len() > 8192 ==> message.len() == 8192 && message.is_prefix_of(reason)
}

/// An execution is of the provider that was planned and tells how it ended.
pub proof fn law_executions_tell_how_providers_ended(
    execution: Execution,
    planned: PlannedProvider,
    state: ProviderSessionState,
)
    requires
        session_fault(planned, state) is None,
        is_execution_of(execution, planned, state),
    ensures
        execution.execution_id@ == planned.execution_id@,
        execution.adapter_id@ == planned.config.adapter_id@,
        execution.adapter_kind == AdapterKind::Provider,
        execution.tool.name@ == planned.identity.tool_name@,
        execution.tool.version@ == planned.identity.tool_version@,
        execution.required == planned.config.required,
        tells(execution, state),
{
    reveal_strlit("provider session ended without a reason");
}

/// The session is the planned provider's own answer to the request that was planned.
pub open spec fn answers(session: ValidatedSession, planned: PlannedProvider) -> bool {
    &&& session.request@ == planned.request@
    &&& session.adapter.id@ == planned.config.adapter_id@
    &&& session.adapter.version@ == planned.identity.adapter_version@
    &&& session.adapter.kind == AdapterKind::Provider
    &&& session.completion.tool_duration_ms <= 0xffff_ffff
    &&& forall|i: int| 0 <= i < session.events.len() ==> {
        &&& !(#[trigger] session.events@[i] is Execution)
        &&& session.events@[i] matches ProtocolEvent::Observation(e) ==> e.observation.tool.name@
            == planned.identity.tool_name@ && e.observation.tool.version@ == planned.identity.tool_version@
    }
}

/// The session ended in that state, for that reason.
pub open spec fn ended_so(session: ValidatedSession, state: ProviderSessionState) -> bool {
    match state {
        ProviderSessionState::Complete(_) => session.completion.status == ExecutionStatus::Complete,
        ProviderSessionState::Incomplete { reason, .. } => session.completion.status == ExecutionStatus::Incomplete
            && session.completion.message is Some && session.completion.message.unwrap()@ == reason@,
        ProviderSessionState::Unsupported { reason, .. } => session.completion.status == ExecutionStatus::Unsupported
            && session.completion.message is Some && session.completion.message.unwrap()@ == reason@,
    }
}

proof fn lemma_events_match(events: Seq<ProtocolEvent>, k: int, name: Seq<char>, version: Seq<char>)
    requires
        0 <= k <= events.len(),
    ensures
        crate::execution::event_mismatch(events, k, name, version) is None <==> forall|i: int|
            k <= i < events.len() ==> {
                &&& !(#[trigger] events[i] is Execution)
                &&& events[i] matches ProtocolEvent::Observation(e) ==> e.observation.tool.name@ == name
                    && e.observation.tool.version@ == version
            },
    decreases events.len() - k,
{
    if k < events.len() {
        lemma_events_match(events, k + 1, name, version);
        let here = {
            &&& !(events[k] is Execution)
            &&& events[k] matches ProtocolEvent::Observation(e) ==> e.observation.tool.name@ == name
                && e.observation.tool.version@ == version
        };
        if here && crate::execution::event_mismatch(events, k + 1, name, version) is None {
            assert forall|i: int| k <= i < events.len() implies {
                &&& !(#[trigger] events[i] is Execution)
                &&& events[i] matches ProtocolEvent::Observation(e) ==> e.observation.tool.name@ == name
                    && e.observation.tool.version@ == version
            } by {
                assert(i == k || i >= k + 1);
            }
        }
    }
}

/// A session is taken exactly where it is the planned provider's own answer and ended as it is said to have
/// ended; and where there is no session, there is nothing to hold against the provider.
#[verifier::rlimit(40)]
pub proof fn law_only_the_planned_provider_answers(planned: PlannedProvider, state: ProviderSessionState)
    ensures
        session_fault(planned, state) is None <==> match state {
            ProviderSessionState::Complete(session) => answers(session, planned) && ended_so(session, state),
            ProviderSessionState::Incomplete { validated_session, .. } => validated_session matches Some(session)
                ==> answers(session, planned) && ended_so(session, state),
            ProviderSessionState::Unsupported { validated_session, .. } => validated_session matches Some(session)
                ==> answers(session, planned) && ended_so(session, state),
        },
{
    if let Some(session) = state.session() {
        lemma_events_match(
            session.events@,
            0,
            planned.identity.tool_name@,
            planned.identity.tool_version@,
        );
    }
}

/// A run is recorded with an exit code exactly where it completed; and what the engine rejects is not
/// recorded.
pub proof fn law_exit_codes_are_of_complete_runs(
    planned: PlannedProvider,
    state: ProviderSessionState,
    violation: Option<Seq<char>>,
)
    requires
        execution_fault(planned, state, violation) is None,
    ensures
        violation is None,
        session_fault(planned, state) is None,
        state matches ProviderSessionState::Complete(session) ==> session.completion.tool_exit_code is Some,
{
}

/// Every provider of a plan is asked to check all the targets, in the workspace, with its own capabilities,
/// within the limits that all share, under the identifier that is its request's.
pub proof fn law_plans_ask_for_every_target(
    plan: ReadOnlyPlan,
    providers: Seq<ProviderToPlan>,
    scope: PlanScope,
    i: int,
)
    requires
        is_plan(plan, providers, scope),
        0 <= i < providers.len(),
    ensures
        plan.plan_id@ == scope.plan_id@,
        texts(plan.targets@) == texts(scope.targets@),
        plan.providers.len() == providers.len(),
        plan.providers@[i].config == providers[i].config,
        plan.providers@[i].execution_id@ == providers[i].execution_id@,
        plan.providers@[i].request.operation == Operation::Check,
        plan.providers@[i].request.request_id@ == providers[i].request_id@,
        plan.providers@[i].request.workspace@ == scope.workspace@,
        texts(plan.providers@[i].request.targets@) == texts(scope.targets@),
        texts(plan.providers@[i].request.required_capabilities@) == texts(
            providers[i].config.required_capabilities@,
        ),
        texts(plan.providers@[i].request.optional_capabilities@) == texts(
            providers[i].config.optional_capabilities@,
        ),
        plan.providers@[i].request.limits == scope.limits,
{
    assert(is_planned(plan.providers@[i], providers[i], scope));
    assert(plan.providers@[i].request@ == planned_request_view(scope, providers[i].config, providers[i].request_id@));
}

/// The event is among those of a run that completed.
pub open spec fn came_of(event: ProtocolEvent, runs: Seq<ProviderRun>) -> bool {
    exists|i: int| #![trigger runs[i]]
        0 <= i < runs.len() && (runs[i].state matches ProviderSessionState::Complete(session)
            && session.events@.contains(event))
}

proof fn lemma_payloads(runs: Seq<ProviderRun>, event: ProtocolEvent)
    ensures
        payloads(runs).contains(event) <==> came_of(event, runs),
    decreases runs.len(),
{
    if runs.len() > 0 {
        let front = runs.drop_last();
        lemma_payloads(front, event);
        let before = payloads(front);
        let last = payload(runs.last());
        if payloads(runs).contains(event) {
            let k = choose|k: int| 0 <= k < payloads(runs).len() && payloads(runs)[k] == event;
            if k < before.len() {
                assert(before[k] == event);
                assert(before.contains(event));
                let i = choose|i: int| #![trigger front[i]]
                    0 <= i < front.len() && (front[i].state matches ProviderSessionState::Complete(session)
                        && session.events@.contains(event));
                assert(runs[i] == front[i]);
            } else {
                assert(last[k - before.len()] == event);
                assert(last.contains(event));
                assert(runs[runs.len() - 1] == runs.last());
            }
        }
        if came_of(event, runs) {
            let i = choose|i: int| #![trigger runs[i]]
                0 <= i < runs.len() && (runs[i].state matches ProviderSessionState::Complete(session)
                    && session.events@.contains(event));
            if i < runs.len() - 1 {
                assert(front[i] == runs[i]);
                assert(came_of(event, front));
                let k = choose|k: int| 0 <= k < before.len() && before[k] == event;
                assert(payloads(runs)[k] == event);
            } else {
                let k = choose|k: int| 0 <= k < last.len() && last[k] == event;
                assert(payloads(runs)[before.len() + k] == event);
            }
        }
    }
}

proof fn lemma_observations_in(events: Seq<ProtocolEvent>, o: Observation)
    ensures
        observations_in(events).contains(o) <==> exists|k: int| #![trigger events[k]]
            0 <= k < events.len() && (events[k] matches ProtocolEvent::Observation(e) && e.observation == o),
    decreases events.len(),
{
    if events.len() > 0 {
        let front = events.drop_last();
        lemma_observations_in(front, o);
        let before = observations_in(front);
        let all = observations_in(events);
        if before.contains(o) {
            let k = choose|k: int| 0 <= k < before.len() && before[k] == o;
            assert(all[k] == o);
            let j = choose|j: int| #![trigger front[j]]
                0 <= j < front.len() && (front[j] matches ProtocolEvent::Observation(e) && e.observation == o);
            assert(events[j] == front[j]);
        }
        if all.contains(o) && !before.contains(o) {
            let k = choose|k: int| 0 <= k < all.len() && all[k] == o;
            if k < before.len() {
                assert(before[k] == o);
            }
            assert(events[events.len() - 1] == events.last());
        }
        if exists|k: int| #![trigger events[k]]
            0 <= k < events.len() && (events[k] matches ProtocolEvent::Observation(e) && e.observation == o) {
            let k = choose|k: int| #![trigger events[k]]
                0 <= k < events.len() && (events[k] matches ProtocolEvent::Observation(e) && e.observation == o);
            if k < events.len() - 1 {
                assert(front[k] == events[k]);
            } else {
                assert(all[all.len() - 1] == o);
            }
        }
    }
}

proof fn lemma_evidence_in(events: Seq<ProtocolEvent>, x: Evidence)
    ensures
        evidence_in(events).contains(x) <==> exists|k: int| #![trigger events[k]]
            0 <= k < events.len() && (events[k] matches ProtocolEvent::Evidence(e) && e.evidence == x),
    decreases events.len(),
{
    if events.len() > 0 {
        let front = events.drop_last();
        lemma_evidence_in(front, x);
        let before = evidence_in(front);
        let all = evidence_in(events);
        if before.contains(x) {
            let k = choose|k: int| 0 <= k < before.len() && before[k] == x;
            assert(all[k] == x);
            let j = choose|j: int| #![trigger front[j]]
                0 <= j < front.len() && (front[j] matches ProtocolEvent::Evidence(e) && e.evidence == x);
            assert(events[j] == front[j]);
        }
        if all.contains(x) && !before.contains(x) {
            let k = choose|k: int| 0 <= k < all.len() && all[k] == x;
            if k < before.len() {
                assert(before[k] == x);
            }
            assert(events[events.len() - 1] == events.last());
        }
        if exists|k: int| #![trigger events[k]]
            0 <= k < events.len() && (events[k] matches ProtocolEvent::Evidence(e) && e.evidence == x) {
            let k = choose|k: int| #![trigger events[k]]
                0 <= k < events.len() && (events[k] matches ProtocolEvent::Evidence(e) && e.evidence == x);
            if k < events.len() - 1 {
                assert(front[k] == events[k]);
            } else {
                assert(all[all.len() - 1] == x);
            }
        }
    }
}

proof fn lemma_fix_candidates_in(events: Seq<ProtocolEvent>, x: FixCandidate)
    ensures
        fix_candidates_in(events).contains(x) <==> exists|k: int| #![trigger events[k]]
            0 <= k < events.len() && (events[k] matches ProtocolEvent::FixCandidate(e) && e.fix_candidate == x),
    decreases events.len(),
{
    if events.len() > 0 {
        let front = events.drop_last();
        lemma_fix_candidates_in(front, x);
        let before = fix_candidates_in(front);
        let all = fix_candidates_in(events);
        if before.contains(x) {
            let k = choose|k: int| 0 <= k < before.len() && before[k] == x;
            assert(all[k] == x);
            let j = choose|j: int| #![trigger front[j]]
                0 <= j < front.len() && (front[j] matches ProtocolEvent::FixCandidate(e) && e.fix_candidate == x);
            assert(events[j] == front[j]);
        }
        if all.contains(x) && !before.contains(x) {
            let k = choose|k: int| 0 <= k < all.len() && all[k] == x;
            if k < before.len() {
                assert(before[k] == x);
            }
            assert(events[events.len() - 1] == events.last());
        }
        if exists|k: int| #![trigger events[k]]
            0 <= k < events.len() && (events[k] matches ProtocolEvent::FixCandidate(e) && e.fix_candidate == x) {
            let k = choose|k: int| #![trigger events[k]]
                0 <= k < events.len() && (events[k] matches ProtocolEvent::FixCandidate(e) && e.fix_candidate == x);
            if k < events.len() - 1 {
                assert(front[k] == events[k]);
            } else {
                assert(all[all.len() - 1] == x);
            }
        }
    }
}

/// The projected observation is the provider's but for the order of its evidence.
pub open spec fn same_observation(o: Observation, raw: Observation) -> bool {
    &&& o == Observation { evidence_ids: o.evidence_ids, ..raw }
    &&& texts(o.evidence_ids@).to_multiset() == texts(raw.evidence_ids@).to_multiset()
}

/// The projected observation is one of a completed run.
pub open spec fn is_observation_of(x: Observation, runs: Seq<ProviderRun>) -> bool {
    exists|event: ProtocolEvent| #[trigger]
        came_of(event, runs) && (event matches ProtocolEvent::Observation(e) && same_observation(x, e.observation))
}

/// The observation of the event stands among the projected ones.
pub open spec fn shows_observation(projected: Seq<Observation>, event: ProtocolEvent) -> bool {
    exists|i: int|
        0 <= i < projected.len() && (event matches ProtocolEvent::Observation(e) && same_observation(#[trigger] projected[i], e.observation))
}

/// Every observation that a completed run made stands in the projection, and no other does.
#[verifier::rlimit(40)]
pub proof fn law_projected_observations_are_those_of_complete_runs(
    p: ReadOnlyRuntimeProjection,
    plan_id: Seq<char>,
    runs: Seq<ProviderRun>,
)
    requires
        is_projection(p, plan_id, runs),
    ensures
        forall|i: int| 0 <= i < p.observations.len() ==> is_observation_of(#[trigger] p.observations@[i], runs),
        forall|event: ProtocolEvent| #[trigger]
            came_of(event, runs) && event is Observation ==> shows_observation(p.observations@, event),
{
    let events = payloads(runs);
    let found = observations_in(events);
    let sorted = arranged(found);
    lemma_arranged_members(found);
    assert forall|i: int| 0 <= i < sorted.len() implies same_observation(#[trigger] p.observations@[i], sorted[i]) by {
        assert(is_canonical_observation(p.observations@[i], sorted[i]));
        lemma_arranged_texts(sorted[i].evidence_ids@);
    }
    assert forall|i: int| 0 <= i < p.observations.len() implies is_observation_of(#[trigger] p.observations@[i], runs) by {
        let x = sorted[i];
        assert(found.contains(x));
        lemma_observations_in(events, x);
        let k = choose|k: int| #![trigger events[k]]
            0 <= k < events.len() && (events[k] matches ProtocolEvent::Observation(e) && e.observation == x);
        assert(events.contains(events[k]));
        lemma_payloads(runs, events[k]);
        assert(same_observation(p.observations@[i], x));
    }
    assert forall|event: ProtocolEvent| #[trigger] came_of(event, runs) && event is Observation implies shows_observation(
        p.observations@,
        event,
    ) by {
        let x = event->Observation_0.observation;
        lemma_payloads(runs, event);
        let k = choose|k: int| 0 <= k < events.len() && events[k] == event;
        assert(events[k] == event);
        lemma_observations_in(events, x);
        assert(found.contains(x));
        let j = choose|j: int| 0 <= j < found.len() && found[j] == x;
        assert(sorted.contains(found[j]));
        let i = choose|i: int| 0 <= i < sorted.len() && sorted[i] == x;
        assert(same_observation(p.observations@[i], sorted[i]));
    }
}

/// The projected fix is the provider's but for the order of the observations that it is for.
pub open spec fn same_fix(f: FixCandidate, raw: FixCandidate) -> bool {
    &&& f == FixCandidate { observation_ids: f.observation_ids, ..raw }
    &&& texts(f.observation_ids@).to_multiset() == texts(raw.observation_ids@).to_multiset()
}

/// The projected fix is one of a completed run.
pub open spec fn is_fix_of(x: FixCandidate, runs: Seq<ProviderRun>) -> bool {
    exists|event: ProtocolEvent| #[trigger]
        came_of(event, runs) && (event matches ProtocolEvent::FixCandidate(e) && same_fix(x, e.fix_candidate))
}

/// The fix of the event stands among the projected ones.
pub open spec fn shows_fix(projected: Seq<FixCandidate>, event: ProtocolEvent) -> bool {
    exists|i: int|
        0 <= i < projected.len() && (event matches ProtocolEvent::FixCandidate(e) && same_fix(#[trigger] projected[i], e.fix_candidate))
}

/// Every fix that a completed run proposed stands in the projection, and no other does.
#[verifier::rlimit(40)]
pub proof fn law_projected_fixes_are_those_of_complete_runs(
    p: ReadOnlyRuntimeProjection,
    plan_id: Seq<char>,
    runs: Seq<ProviderRun>,
)
    requires
        is_projection(p, plan_id, runs),
    ensures
        forall|i: int| 0 <= i < p.fix_candidates.len() ==> is_fix_of(#[trigger] p.fix_candidates@[i], runs),
        forall|event: ProtocolEvent| #[trigger]
            came_of(event, runs) && event is FixCandidate ==> shows_fix(p.fix_candidates@, event),
{
    let events = payloads(runs);
    let found = fix_candidates_in(events);
    let sorted = arranged(found);
    lemma_arranged_members(found);
    assert forall|i: int| 0 <= i < sorted.len() implies same_fix(#[trigger] p.fix_candidates@[i], sorted[i]) by {
        assert(is_canonical_fix(p.fix_candidates@[i], sorted[i]));
        lemma_arranged_texts(sorted[i].observation_ids@);
    }
    assert forall|i: int| 0 <= i < p.fix_candidates.len() implies is_fix_of(#[trigger] p.fix_candidates@[i], runs) by {
        let x = sorted[i];
        assert(found.contains(x));
        lemma_fix_candidates_in(events, x);
        let k = choose|k: int| #![trigger events[k]]
            0 <= k < events.len() && (events[k] matches ProtocolEvent::FixCandidate(e) && e.fix_candidate == x);
        assert(events.contains(events[k]));
        lemma_payloads(runs, events[k]);
        assert(same_fix(p.fix_candidates@[i], x));
    }
    assert forall|event: ProtocolEvent| #[trigger] came_of(event, runs) && event is FixCandidate implies shows_fix(
        p.fix_candidates@,
        event,
    ) by {
        let x = event->FixCandidate_0.fix_candidate;
        lemma_payloads(runs, event);
        let k = choose|k: int| 0 <= k < events.len() && events[k] == event;
        assert(events[k] == event);
        lemma_fix_candidates_in(events, x);
        assert(found.contains(x));
        let j = choose|j: int| 0 <= j < found.len() && found[j] == x;
        assert(sorted.contains(found[j]));
        let i = choose|i: int| 0 <= i < sorted.len() && sorted[i] == x;
        assert(same_fix(p.fix_candidates@[i], sorted[i]));
    }
}

/// Every piece of evidence that a completed run kept stands in the projection as it was kept, and no other
/// does.
pub proof fn law_projected_evidence_is_that_of_complete_runs(
    p: ReadOnlyRuntimeProjection,
    plan_id: Seq<char>,
    runs: Seq<ProviderRun>,
    x: Evidence,
)
    requires
        is_projection(p, plan_id, runs),
    ensures
        p.evidence@.contains(x) <==> exists|event: ProtocolEvent| #[trigger]
            came_of(event, runs) && (event matches ProtocolEvent::Evidence(e) && e.evidence == x),
{
    let events = payloads(runs);
    let found = evidence_in(events);
    lemma_arranged_members(found);
    lemma_evidence_in(events, x);
    if p.evidence@.contains(x) {
        let i = choose|i: int| 0 <= i < p.evidence@.len() && p.evidence@[i] == x;
        assert(found.contains(arranged(found)[i]));
        let k = choose|k: int| #![trigger events[k]]
            0 <= k < events.len() && (events[k] matches ProtocolEvent::Evidence(e) && e.evidence == x);
        assert(events.contains(events[k]));
        lemma_payloads(runs, events[k]);
    }
    if exists|event: ProtocolEvent| #[trigger]
        came_of(event, runs) && (event matches ProtocolEvent::Evidence(e) && e.evidence == x) {
        let event = choose|event: ProtocolEvent| #[trigger]
            came_of(event, runs) && (event matches ProtocolEvent::Evidence(e) && e.evidence == x);
        lemma_payloads(runs, event);
        let k = choose|k: int| 0 <= k < events.len() && events[k] == event;
        assert(events[k] == event);
        let j = choose|j: int| 0 <= j < found.len() && found[j] == x;
        assert(arranged(found).contains(found[j]));
    }
}

} // verus!
