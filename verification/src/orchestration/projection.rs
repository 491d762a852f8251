//! What the sessions of a plan come to.
use super::PlannedProvider;
use crate::execution::{
    exit_code_fits, identity_mismatch, provider_execution, records_run, validate_provider_execution_identity,
    validated_provider_execution, ExecutionContractError, ExpectedCompletion, ProviderExecutionIdentity,
    ProviderExecutionInput, ProviderIdentityMismatch,
};
use crate::model::{AdapterKind, Evidence, Execution, ExecutionStatus, FixCandidate, Observation, Tool};
use crate::order::{
    arranged, compare_texts, distinct, equal_texts, in_order, key_order, law_arranging_ignores_order,
    lemma_in_order_total, lemma_single_key, lemma_text_order, placed, sort, sorted, text_order, Keyed, Placement,
};
use crate::protocol::{ProtocolEvent, ValidatedSession};
use crate::text::{chars_of, string_of};
use crate::time::Duration;
use vstd::prelude::*;

verus! {

/// The longest message that an execution keeps, in characters.
pub const MAX_EXECUTION_MESSAGE_CHARS: usize = 8_192;

/// The message of an execution that ended without a reason.
pub const EMPTY_EXECUTION_MESSAGE: &'static str = "provider session ended without a reason";

/// How a provider's session ended.
#[derive(Clone, Debug, PartialEq, Eq)]
pub enum ProviderSessionState {
    Complete(ValidatedSession),
    Incomplete { reason: String, validated_session: Option<ValidatedSession> },
    Unsupported { missing_required: Vec<String>, reason: String, validated_session: Option<ValidatedSession> },
}

impl ProviderSessionState {
    pub open spec fn session(self) -> Option<ValidatedSession> {
        match self {
            ProviderSessionState::Complete(session) => Some(session),
            ProviderSessionState::Incomplete { validated_session, .. } => validated_session,
            ProviderSessionState::Unsupported { validated_session, .. } => validated_session,
        }
    }

    pub open spec fn status(self) -> ExecutionStatus {
        match self {
            ProviderSessionState::Complete(_) => ExecutionStatus::Complete,
            ProviderSessionState::Incomplete { .. } => ExecutionStatus::Incomplete,
            ProviderSessionState::Unsupported { .. } => ExecutionStatus::Unsupported,
        }
    }

    /// The reason for which the session did not complete.
    pub open spec fn reason(self) -> Option<Seq<char>> {
        match self {
            ProviderSessionState::Complete(_) => None,
            ProviderSessionState::Incomplete { reason, .. } => Some(reason@),
            ProviderSessionState::Unsupported { reason, .. } => Some(reason@),
        }
    }
}

/// Why a session has no place in a report.
#[derive(Clone, Debug, PartialEq, Eq)]
pub enum ProviderExecutionError {
    Mismatch(String, ProviderIdentityMismatch),
    Duration,
    Contract(ExecutionContractError),
}

/// Why a session has no place in a report.
pub enum ExecutionFault {
    Mismatch(Seq<char>, ProviderIdentityMismatch),
    Duration,
    /// The record contract refuses the record, for the reason given.
    Rejected(Seq<char>),
    /// The exit code does not fit how the session ended.
    ExitCode,
}

/// The error says what the fault is.
pub open spec fn reports_execution_fault(error: ProviderExecutionError, fault: ExecutionFault) -> bool {
    match fault {
        ExecutionFault::Mismatch(id, mismatch) => error matches ProviderExecutionError::Mismatch(a, m) && a@ == id && m
            == mismatch,
        ExecutionFault::Duration => error is Duration,
        ExecutionFault::Rejected(text) => error matches ProviderExecutionError::Contract(
            ExecutionContractError::Rejected(said),
        ) && said@ == text,
        ExecutionFault::ExitCode => error matches ProviderExecutionError::Contract(ExecutionContractError::ExitCode),
    }
}

/// The message that an execution keeps of a reason.
pub open spec fn bounded_message_text(message: Seq<char>) -> Seq<char> {
    if message.len() == 0 {
        EMPTY_EXECUTION_MESSAGE@
    } else if message.len() > MAX_EXECUTION_MESSAGE_CHARS {
        message.take(MAX_EXECUTION_MESSAGE_CHARS as int)
    } else {
        message
    }
}

/// The message that an execution keeps of a reason.
pub fn bounded_message(message: &str) -> (r: String)
    ensures
        r@ == bounded_message_text(message@),
{
    let mut chars: Vec<char> = chars_of(message);
    if chars.len() == 0 {
        return EMPTY_EXECUTION_MESSAGE.to_owned();
    }
    if chars.len() > MAX_EXECUTION_MESSAGE_CHARS {
        chars.truncate(MAX_EXECUTION_MESSAGE_CHARS);
        assert(chars@ =~= message@.take(MAX_EXECUTION_MESSAGE_CHARS as int));
    }
    string_of(chars.as_slice())
}

/// In what the session is not the one that the plan asked for.
pub open spec fn planned_mismatch(planned: PlannedProvider, state: ProviderSessionState) -> Option<
    ProviderIdentityMismatch,
> {
    match state.session() {
        None => None,
        Some(session) => if session.request@ != planned.request@ {
            Some(ProviderIdentityMismatch::Request)
        } else if session.adapter.id@ != planned.config.adapter_id@ {
            Some(ProviderIdentityMismatch::AdapterId)
        } else if session.adapter.version@ != planned.identity.adapter_version@ {
            Some(ProviderIdentityMismatch::AdapterVersion)
        } else if session.adapter.kind != AdapterKind::Provider {
            Some(ProviderIdentityMismatch::AdapterKind)
        } else if session.completion.status != state.status() {
            Some(ProviderIdentityMismatch::CompletionStatus)
        } else if state.reason() is Some && crate::execution::text_of(session.completion.message) != state.reason() {
            Some(ProviderIdentityMismatch::TerminalReason)
        } else {
            crate::execution::event_mismatch(
                session.events@,
                0,
                planned.identity.tool_name@,
                planned.identity.tool_version@,
            )
        },
    }
}

/// The exit code that the session reported: only a complete one has any.
pub open spec fn session_exit_code(state: ProviderSessionState) -> Option<u8> {
    match state {
        ProviderSessionState::Complete(session) => session.completion.tool_exit_code,
        _ => None,
    }
}

/// Why no record can be made of the session: it is not the one that was planned, or its duration is
/// too long for a record.
pub open spec fn session_fault(planned: PlannedProvider, state: ProviderSessionState) -> Option<ExecutionFault> {
    match planned_mismatch(planned, state) {
        Some(mismatch) => Some(ExecutionFault::Mismatch(planned.config.adapter_id@, mismatch)),
        None => if state.session() matches Some(session) && session.completion.tool_duration_ms > u32::MAX {
            Some(ExecutionFault::Duration)
        } else {
            None
        },
    }
}

/// Why the session has no place in a report. `violation` is what the record contract reports of the
/// session's record.
pub open spec fn execution_fault(
    planned: PlannedProvider,
    state: ProviderSessionState,
    violation: Option<Seq<char>>,
) -> Option<ExecutionFault> {
    match session_fault(planned, state) {
        Some(fault) => Some(fault),
        None => match violation {
            Some(text) => Some(ExecutionFault::Rejected(text)),
            None => if exit_code_fits(state.status(), session_exit_code(state)) {
                None
            } else {
                Some(ExecutionFault::ExitCode)
            },
        },
    }
}

/// How long the run took, where a session says so.
pub open spec fn run_duration(state: ProviderSessionState) -> Option<u32> {
    match state.session() {
        Some(session) => Some(session.completion.tool_duration_ms as u32),
        None => None,
    }
}

/// The message of the execution: what a complete session said, or the bounded reason.
pub open spec fn execution_message(state: ProviderSessionState) -> Option<Seq<char>> {
    match state.reason() {
        Some(reason) => Some(bounded_message_text(reason)),
        None => match state.session() {
            Some(session) => crate::execution::text_of(session.completion.message),
            None => None,
        },
    }
}

/// The input says of the run what the plan and the session's end say, and nothing else.
pub open spec fn is_input_of(
    input: ProviderExecutionInput,
    planned: PlannedProvider,
    state: ProviderSessionState,
) -> bool {
    &&& input.execution_id@ == planned.execution_id@
    &&& input.adapter_id@ == planned.config.adapter_id@
    &&& input.tool.name@ == planned.identity.tool_name@
    &&& input.tool.version@ == planned.identity.tool_version@
    &&& input.tool.rule_id is None
    &&& input.required == planned.config.required
    &&& input.status == state.status()
    &&& input.exit_code == session_exit_code(state)
    &&& crate::execution::text_of(input.message) == execution_message(state)
    &&& input.run_duration_ms == run_duration(state)
}

/// The execution is made of the planned identity and the session's end alone.
pub open spec fn is_execution_of(
    execution: Execution,
    planned: PlannedProvider,
    state: ProviderSessionState,
) -> bool {
    exists|input: ProviderExecutionInput| #[trigger]
        records_run(execution, input) && is_input_of(input, planned, state)
}

fn copy_message(message: &Option<String>) -> (r: Option<String>)
    ensures
        crate::execution::text_of(r) == crate::execution::text_of(*message),
{
    match message {
        Some(text) => Some(text.clone()),
        None => None,
    }
}

/// What is known of the run of a planned provider's session.
fn execution_input(planned: &PlannedProvider, state: &ProviderSessionState) -> (r: Result<
    ProviderExecutionInput,
    ProviderExecutionError,
>)
    ensures
        match session_fault(*planned, *state) {
            Some(fault) => r matches Err(error) && reports_execution_fault(error, fault),
            None => r matches Ok(input) && is_input_of(input, *planned, *state),
        },
{
    let (status, session, completion, exit_code): (
        ExecutionStatus,
        Option<&ValidatedSession>,
        ExpectedCompletion<'_>,
        Option<u8>,
    ) = match state {
        ProviderSessionState::Complete(session) => (
            ExecutionStatus::Complete,
            Some(session),
            ExpectedCompletion::Complete,
            session.completion.tool_exit_code,
        ),
        ProviderSessionState::Incomplete { reason, validated_session } => (
            ExecutionStatus::Incomplete,
            validated_session.as_ref(),
            ExpectedCompletion::Incomplete(reason.as_str()),
            None,
        ),
        ProviderSessionState::Unsupported { missing_required: _, reason, validated_session } => (
            ExecutionStatus::Unsupported,
            validated_session.as_ref(),
            ExpectedCompletion::Unsupported(reason.as_str()),
            None,
        ),
    };
    assert(completion.status() == state.status());
    assert(completion.reason() == state.reason());
    let mut run_ms: Option<u32> = None;
    if let Some(session) = session {
        let expected = ProviderExecutionIdentity {
            request: &planned.request,
            adapter_id: planned.config.adapter_id.as_str(),
            adapter_version: planned.identity.adapter_version.as_str(),
            adapter_kind: AdapterKind::Provider,
            tool_name: planned.identity.tool_name.as_str(),
            tool_version: planned.identity.tool_version.as_str(),
            completion,
        };
        assert(identity_mismatch(expected, *session) == planned_mismatch(*planned, *state));
        match validate_provider_execution_identity(&expected, session) {
            Err(mismatch) => {
                return Err(ProviderExecutionError::Mismatch(planned.config.adapter_id.clone(), mismatch));
            },
            Ok(()) => {},
        }
        if session.completion.tool_duration_ms > u32::MAX as u64 {
            return Err(ProviderExecutionError::Duration);
        }
        run_ms = Some(session.completion.tool_duration_ms as u32);
    }
    let message: Option<String> = match completion {
        ExpectedCompletion::Complete => match session {
            Some(session) => copy_message(&session.completion.message),
            None => None,
        },
        ExpectedCompletion::Incomplete(reason) => Some(bounded_message(reason)),
        ExpectedCompletion::Unsupported(reason) => Some(bounded_message(reason)),
    };
    Ok(
        ProviderExecutionInput {
            execution_id: planned.execution_id.clone(),
            adapter_id: planned.config.adapter_id.clone(),
            tool: Tool {
                name: planned.identity.tool_name.clone(),
                version: planned.identity.tool_version.clone(),
                rule_id: None,
            },
            required: planned.config.required,
            status,
            exit_code,
            message,
            run_duration_ms: run_ms,
        },
    )
}

/// The record of a planned provider's session, as it is handed to the record contract.
pub fn planned_execution(planned: &PlannedProvider, state: &ProviderSessionState) -> (r: Result<
    Execution,
    ProviderExecutionError,
>)
    ensures
        match session_fault(*planned, *state) {
            Some(fault) => r matches Err(error) && reports_execution_fault(error, fault),
            None => r matches Ok(execution) && is_execution_of(execution, *planned, *state),
        },
{
    match execution_input(planned, state) {
        Ok(input) => {
            let ghost given = input;
            let execution = provider_execution(input);
            assert(records_run(execution, given));
            Ok(execution)
        },
        Err(error) => Err(error),
    }
}

/// The execution record of a planned provider's session. `violation` is what the record contract
/// reports of the record that `planned_execution` makes.
pub fn synthesize_execution(planned: &PlannedProvider, state: &ProviderSessionState, violation: Option<String>) -> (r: Result<
    Execution,
    ProviderExecutionError,
>)
    ensures
        match execution_fault(*planned, *state, crate::execution::text_of(violation)) {
            Some(fault) => r matches Err(error) && reports_execution_fault(error, fault),
            None => r matches Ok(execution) && is_execution_of(execution, *planned, *state),
        },
{
    match execution_input(planned, state) {
        Ok(input) => {
            let ghost given = input;
            match validated_provider_execution(input, violation) {
                Ok(execution) => {
                    assert(records_run(execution, given));
                    Ok(execution)
                },
                Err(error) => Err(ProviderExecutionError::Contract(error)),
            }
        },
        Err(error) => Err(error),
    }
}

/// A planned provider, how its session ended, and what the record contract reports of its record.
#[derive(Clone, Debug, PartialEq, Eq)]
pub struct ProviderRun {
    pub planned: PlannedProvider,
    pub state: ProviderSessionState,
    pub violation: Option<String>,
}

impl Keyed for ProviderRun {
    open spec fn key(&self) -> Seq<Seq<char>> {
        seq![self.planned.config.adapter_id@]
    }

    fn compare(&self, other: &Self) -> (r: Placement) {
        proof {
            lemma_single_key(self.planned.config.adapter_id@, other.planned.config.adapter_id@);
        }
        compare_texts(self.planned.config.adapter_id.as_str(), other.planned.config.adapter_id.as_str())
    }
}

/// Why the sessions do not come to a report.
#[derive(Clone, Debug, PartialEq, Eq)]
pub enum RuntimeProjectionError {
    Provider(ProviderExecutionError),
    ObjectIdCollision(String),
}

/// What the sessions of a plan come to.
#[derive(Clone, Debug, PartialEq, Eq)]
pub struct ReadOnlyRuntimeProjection {
    pub plan_id: String,
    pub observations: Vec<Observation>,
    pub evidence: Vec<Evidence>,
    pub fix_candidates: Vec<FixCandidate>,
    pub executions: Vec<Execution>,
}

/// The first fault among the runs from the `k`-th on.
pub open spec fn runs_fault(runs: Seq<ProviderRun>, k: int) -> Option<ExecutionFault>
    decreases runs.len() - k,
{
    if k < 0 || k >= runs.len() {
        None
    } else {
        match execution_fault(runs[k].planned, runs[k].state, crate::execution::text_of(runs[k].violation)) {
            Some(fault) => Some(fault),
            None => runs_fault(runs, k + 1),
        }
    }
}

/// The events of a run that count: those of a complete session.
pub open spec fn payload(run: ProviderRun) -> Seq<ProtocolEvent> {
    match run.state {
        ProviderSessionState::Complete(session) => session.events@,
        _ => Seq::empty(),
    }
}

/// The events of all runs that count, in order.
pub open spec fn payloads(runs: Seq<ProviderRun>) -> Seq<ProtocolEvent>
    decreases runs.len(),
{
    if runs.len() == 0 {
        Seq::empty()
    } else {
        payloads(runs.drop_last()) + payload(runs.last())
    }
}

pub open spec fn observations_in(events: Seq<ProtocolEvent>) -> Seq<Observation>
    decreases events.len(),
{
    if events.len() == 0 {
        Seq::empty()
    } else {
        match events.last() {
            ProtocolEvent::Observation(e) => observations_in(events.drop_last()).push(e.observation),
            _ => observations_in(events.drop_last()),
        }
    }
}

pub open spec fn evidence_in(events: Seq<ProtocolEvent>) -> Seq<Evidence>
    decreases events.len(),
{
    if events.len() == 0 {
        Seq::empty()
    } else {
        match events.last() {
            ProtocolEvent::Evidence(e) => evidence_in(events.drop_last()).push(e.evidence),
            _ => evidence_in(events.drop_last()),
        }
    }
}

pub open spec fn fix_candidates_in(events: Seq<ProtocolEvent>) -> Seq<FixCandidate>
    decreases events.len(),
{
    if events.len() == 0 {
        Seq::empty()
    } else {
        match events.last() {
            ProtocolEvent::FixCandidate(e) => fix_candidates_in(events.drop_last()).push(e.fix_candidate),
            _ => fix_candidates_in(events.drop_last()),
        }
    }
}

/// The identifiers that the events give.
pub open spec fn event_ids(events: Seq<ProtocolEvent>) -> Seq<Seq<char>>
    decreases events.len(),
{
    if events.len() == 0 {
        Seq::empty()
    } else {
        let before = event_ids(events.drop_last());
        match events.last() {
            ProtocolEvent::Observation(e) => before.push(e.observation.observation_id@),
            ProtocolEvent::Evidence(e) => before.push(e.evidence.evidence_id@),
            ProtocolEvent::FixCandidate(e) => before.push(e.fix_candidate.fix_candidate_id@),
            ProtocolEvent::Execution(_) => before,
        }
    }
}

/// The identifiers that the plan gives.
pub open spec fn planned_ids(plan_id: Seq<char>, runs: Seq<ProviderRun>) -> Seq<Seq<char>>
    decreases runs.len(),
{
    if runs.len() == 0 {
        seq![plan_id]
    } else {
        planned_ids(plan_id, runs.drop_last()) + seq![
            runs.last().planned.request.request_id@,
            runs.last().planned.execution_id@,
        ]
    }
}

/// All identifiers of the projection, in the order of the runs.
pub open spec fn object_ids(plan_id: Seq<char>, runs: Seq<ProviderRun>) -> Seq<Seq<char>> {
    planned_ids(plan_id, runs) + event_ids(payloads(runs))
}

/// The observation is `raw` with its evidence in order.
pub open spec fn is_canonical_observation(o: Observation, raw: Observation) -> bool {
    &&& o.evidence_ids@ == arranged(raw.evidence_ids@)
    &&& o.schema_version == raw.schema_version
    &&& o.observation_id == raw.observation_id
    &&& o.tool == raw.tool
    &&& o.language == raw.language
    &&& o.severity == raw.severity
    &&& o.origin == raw.origin
    &&& o.message == raw.message
    &&& o.location == raw.location
    &&& o.symbol == raw.symbol
    &&& o.expected == raw.expected
    &&& o.observed == raw.observed
}

/// The fix candidate is `raw` with its observations in order.
pub open spec fn is_canonical_fix(f: FixCandidate, raw: FixCandidate) -> bool {
    &&& f.observation_ids@ == arranged(raw.observation_ids@)
    &&& f.schema_version == raw.schema_version
    &&& f.fix_candidate_id == raw.fix_candidate_id
    &&& f.applicability == raw.applicability
    &&& f.tool_native == raw.tool_native
    &&& f.patch_evidence_id == raw.patch_evidence_id
}

/// The executions are those of the runs, in the order of the runs.
pub open spec fn are_executions_of(executions: Seq<Execution>, runs: Seq<ProviderRun>) -> bool {
    &&& executions.len() == runs.len()
    &&& forall|i: int|
        0 <= i < runs.len() ==> is_execution_of(#[trigger] executions[i], runs[i].planned, runs[i].state)
}

/// The projection holds what the runs came to, each list in the order of its identifiers.
pub open spec fn is_projection(p: ReadOnlyRuntimeProjection, plan_id: Seq<char>, runs: Seq<ProviderRun>) -> bool {
    let events = payloads(runs);
    let observations = arranged(observations_in(events));
    let fixes = arranged(fix_candidates_in(events));
    &&& p.plan_id@ == plan_id
    &&& p.observations.len() == observations.len()
    &&& forall|i: int|
        0 <= i < observations.len() ==> is_canonical_observation(#[trigger] p.observations@[i], observations[i])
    &&& p.evidence@ == arranged(evidence_in(events))
    &&& p.fix_candidates.len() == fixes.len()
    &&& forall|i: int| 0 <= i < fixes.len() ==> is_canonical_fix(#[trigger] p.fix_candidates@[i], fixes[i])
    &&& exists|executions: Seq<Execution>| #[trigger]
        are_executions_of(executions, runs) && p.executions@ == arranged(executions)
}

/// No two of the texts are the same.
pub open spec fn all_different(ids: Seq<Seq<char>>) -> bool {
    ids.no_duplicates()
}

/// What projecting the runs of a plan comes to.
pub open spec fn projects(
    r: Result<ReadOnlyRuntimeProjection, RuntimeProjectionError>,
    plan_id: Seq<char>,
    runs: Seq<ProviderRun>,
) -> bool {
    let sorted = arranged(runs);
    match runs_fault(sorted, 0) {
        Some(fault) => r matches Err(RuntimeProjectionError::Provider(error)) && reports_execution_fault(error, fault),
        None => {
            let ids = object_ids(plan_id, sorted);
            if all_different(ids) {
                r matches Ok(p) && is_projection(p, plan_id, sorted)
            } else {
                r matches Err(RuntimeProjectionError::ObjectIdCollision(id)) && is_first_collision(id@, ids)
            }
        },
    }
}

/// The text stands twice among the texts, and none that comes before it does.
pub open spec fn is_first_collision(id: Seq<char>, ids: Seq<Seq<char>>) -> bool {
    &&& stands_twice(id, ids)
    &&& forall|other: Seq<char>| #[trigger]
        stands_twice(other, ids) ==> text_order(id, other) != Placement::After
}

/// The text stands twice among the texts.
pub open spec fn stands_twice(id: Seq<char>, ids: Seq<Seq<char>>) -> bool {
    exists|i: int, j: int| 0 <= i < j < ids.len() && #[trigger] ids[i] == id && #[trigger] ids[j] == id
}

/// How often the text stands among the texts.
pub open spec fn times(ids: Seq<Seq<char>>, id: Seq<char>) -> nat
    decreases ids.len(),
{
    if ids.len() == 0 {
        0
    } else {
        times(ids.drop_last(), id) + (if ids.last() == id {
            1nat
        } else {
            0
        })
    }
}

proof fn lemma_times_positive(ids: Seq<Seq<char>>, id: Seq<char>)
    ensures
        times(ids, id) > 0 <==> exists|i: int| 0 <= i < ids.len() && #[trigger] ids[i] == id,
    decreases ids.len(),
{
    if ids.len() > 0 {
        let before = ids.drop_last();
        lemma_times_positive(before, id);
        if times(before, id) > 0 {
            let i = choose|i: int| 0 <= i < before.len() && #[trigger] before[i] == id;
            assert(ids[i] == id);
        }
        if ids.last() == id {
            assert(ids[ids.len() - 1] == id);
        }
        if exists|i: int| 0 <= i < ids.len() && #[trigger] ids[i] == id {
            let i = choose|i: int| 0 <= i < ids.len() && #[trigger] ids[i] == id;
            if i < before.len() {
                assert(before[i] == id);
            }
        }
    }
}

proof fn lemma_times_twice(ids: Seq<Seq<char>>, id: Seq<char>)
    ensures
        times(ids, id) >= 2 <==> stands_twice(id, ids),
    decreases ids.len(),
{
    if ids.len() > 0 {
        let before = ids.drop_last();
        lemma_times_twice(before, id);
        lemma_times_positive(before, id);
        if stands_twice(id, before) {
            let (i, j) = choose|i: int, j: int|
                0 <= i < j < before.len() && #[trigger] before[i] == id && #[trigger] before[j] == id;
            assert(ids[i] == id && ids[j] == id);
        }
        if times(before, id) > 0 && ids.last() == id {
            let i = choose|i: int| 0 <= i < before.len() && #[trigger] before[i] == id;
            assert(ids[i] == id && ids[ids.len() - 1] == id);
        }
        if stands_twice(id, ids) {
            let (i, j) = choose|i: int, j: int|
                0 <= i < j < ids.len() && #[trigger] ids[i] == id && #[trigger] ids[j] == id;
            assert(before[i] == id);
            if j < before.len() {
                assert(before[j] == id);
            }
        }
    }
}

/// The texts of the strings.
pub open spec fn id_texts(v: Seq<String>) -> Seq<Seq<char>> {
    Seq::new(v.len(), |i: int| v[i]@)
}

proof fn lemma_placed_times(v: Seq<String>, x: String, id: Seq<char>)
    ensures
        times(id_texts(placed(v, x)), id) == times(id_texts(v), id) + (if x@ == id {
            1nat
        } else {
            0
        }),
    decreases v.len(),
{
    if v.len() == 0 || key_order(v.last().key(), x.key()) != Placement::After {
        assert(id_texts(v.push(x)).drop_last() =~= id_texts(v));
    } else {
        lemma_placed_times(v.drop_last(), x, id);
        let p = placed(v.drop_last(), x);
        assert(id_texts(p.push(v.last())).drop_last() =~= id_texts(p));
        assert(id_texts(v).drop_last() =~= id_texts(v.drop_last()));
    }
}

proof fn lemma_arranged_times(v: Seq<String>, id: Seq<char>)
    ensures
        times(id_texts(arranged(v)), id) == times(id_texts(v), id),
    decreases v.len(),
{
    if v.len() > 0 {
        lemma_arranged_times(v.drop_last(), id);
        lemma_placed_times(arranged(v.drop_last()), v.last(), id);
        assert(id_texts(v).drop_last() =~= id_texts(v.drop_last()));
    }
}

/// In sorted texts, a text that stands twice stands twice in a row.
proof fn lemma_sorted_neighbours(v: Seq<String>, i: int, j: int)
    requires
        sorted(v),
        0 <= i < j < v.len(),
        v[i]@ == v[j]@,
    ensures
        v[i]@ == v[i + 1]@,
{
    if i + 1 < j {
        assert(in_order(v[i].key(), v[i + 1].key()));
        assert(in_order(v[i + 1].key(), v[j].key()));
        lemma_in_order_total(v[i].key(), v[i + 1].key());
        assert(v[i].key() == v[j].key());
        assert(v[i].key()[0] == v[i]@ && v[i + 1].key()[0] == v[i + 1]@);
    }
}

/// The first text that stands twice, of those in order.
fn first_collision(unsorted: Vec<String>) -> (r: Option<String>)
    ensures
        match r {
            Some(id) => is_first_collision(id@, id_texts(unsorted@)),
            None => all_different(id_texts(unsorted@)),
        },
{
    let ghost given = unsorted@;
    let mut ids: Vec<String> = unsorted;
    sort(&mut ids);
    let mut i: usize = 0;
    while i + 1 < ids.len()
        invariant
            sorted(ids@),
            ids@ == arranged(given),
            given == unsorted@,
            i < ids.len() || ids.len() == 0 && i == 0,
            forall|k: int| 0 <= k < i ==> (#[trigger] ids@[k])@ != ids@[k + 1]@,
        decreases ids.len() - i,
    {
        if equal_texts(ids[i].as_str(), ids[i + 1].as_str()) {
            proof {
                let id = ids@[i as int]@;
                let sorted_ids = id_texts(ids@);
                assert(sorted_ids[i as int] == id && sorted_ids[i + 1] == id);
                assert(stands_twice(id, sorted_ids));
                lemma_times_twice(sorted_ids, id);
                lemma_arranged_times(given, id);
                lemma_times_twice(id_texts(given), id);
                assert forall|other: Seq<char>| #[trigger] stands_twice(other, id_texts(given)) implies text_order(
                    id,
                    other,
                ) != Placement::After by {
                    lemma_times_twice(id_texts(given), other);
                    lemma_arranged_times(given, other);
                    lemma_times_twice(sorted_ids, other);
                    let (a, b) = choose|a: int, b: int|
                        0 <= a < b < sorted_ids.len() && #[trigger] sorted_ids[a] == other && #[trigger] sorted_ids[b]
                            == other;
                    assert(ids@[a]@ == other && ids@[b]@ == other);
                    lemma_sorted_neighbours(ids@, a, b);
                    assert(a >= i);
                    if a > i {
                        assert(in_order(ids@[i as int].key(), ids@[a].key()));
                        lemma_single_key(id, other);
                    } else {
                        lemma_text_order(id, other);
                    }
                }
            }
            return Some(ids[i].clone());
        }
        i = i + 1;
    }
    proof {
        let before = id_texts(given);
        assert forall|a: int, b: int| 0 <= a < before.len() && 0 <= b < before.len() && a != b implies before[a]
            != before[b] by {
            if before[a] == before[b] {
                let id = before[a];
                if a < b {
                    assert(before[a] == id && before[b] == id);
                } else {
                    assert(before[b] == id && before[a] == id);
                }
                assert(stands_twice(id, before));
                lemma_times_twice(before, id);
                lemma_arranged_times(given, id);
                lemma_times_twice(id_texts(ids@), id);
                let (p, q) = choose|p: int, q: int|
                    0 <= p < q < id_texts(ids@).len() && #[trigger] id_texts(ids@)[p] == id && #[trigger] id_texts(
                        ids@,
                    )[q] == id;
                assert(ids@[p]@ == id && ids@[q]@ == id);
                lemma_sorted_neighbours(ids@, p, q);
                assert(ids@[p]@ != ids@[p + 1]@);
            }
        }
    }
    None
}

/// What the events of complete sessions hold.
struct Collected {
    observations: Vec<Observation>,
    evidence: Vec<Evidence>,
    fix_candidates: Vec<FixCandidate>,
    ids: Vec<String>,
}

impl Collected {
    /// It holds what the events hold, and the identifiers behind `first`.
    spec fn holds(self, first: Seq<Seq<char>>, events: Seq<ProtocolEvent>) -> bool {
        &&& self.observations@ == observations_in(events)
        &&& self.evidence@ == evidence_in(events)
        &&& self.fix_candidates@ == fix_candidates_in(events)
        &&& id_texts(self.ids@) == first + event_ids(events)
    }

    /// Adds what one more session holds.
    fn collect(&mut self, events: Vec<ProtocolEvent>, Ghost(first): Ghost<Seq<Seq<char>>>, Ghost(seen): Ghost<Seq<ProtocolEvent>>)
        requires
            old(self).holds(first, seen),
        ensures
            final(self).holds(first, seen + events@),
    {
        let ghost all = events@;
        assert(seen + all.take(0) =~= seen);
        for event in it: events.into_iter()
            invariant
                it.seq() == all,
                self.holds(first, seen + all.take(it.index() as int)),
        {
            let ghost k = it.index() as int;
            assert(event == all[k]);
            proof {
                let next = seen + all.take(k + 1);
                assert(next.drop_last() =~= seen + all.take(k));
                assert(next.last() == all[k]);
            }
            let ghost ids_before = self.ids@;
            match event {
                ProtocolEvent::Observation(envelope) => {
                    self.ids.push(envelope.observation.observation_id.clone());
                    self.observations.push(envelope.observation);
                },
                ProtocolEvent::Evidence(envelope) => {
                    self.ids.push(envelope.evidence.evidence_id.clone());
                    self.evidence.push(envelope.evidence);
                },
                ProtocolEvent::FixCandidate(envelope) => {
                    self.ids.push(envelope.fix_candidate.fix_candidate_id.clone());
                    self.fix_candidates.push(envelope.fix_candidate);
                },
                ProtocolEvent::Execution(_) => {},
            }
            proof {
                let ids_after = event_ids(seen + all.take(k + 1));
                if self.ids@.len() > ids_before.len() {
                    assert(id_texts(self.ids@) =~= id_texts(ids_before).push(self.ids@.last()@));
                    assert(ids_after == event_ids(seen + all.take(k)).push(self.ids@.last()@));
                } else {
                    assert(ids_after == event_ids(seen + all.take(k)));
                }
                assert(id_texts(self.ids@) =~= first + ids_after);
            }
        }
        assert(all.take(all.len() as int) =~= all);
    }
}

/// Projects the sessions of a plan: the payload of complete ones, and an execution for each.
/// Nothing comes of them where one is not the session that was planned, the record contract refuses
/// a record, or two objects share an identifier.
pub fn project_provider_states(plan_id: String, providers: Vec<ProviderRun>) -> (r: Result<
    ReadOnlyRuntimeProjection,
    RuntimeProjectionError,
>)
    ensures
        projects(r, plan_id@, providers@),
{
    let mut runs: Vec<ProviderRun> = providers;
    sort(&mut runs);
    let ghost all = arranged(providers@);
    let mut executions: Vec<Execution> = Vec::new();
    let mut ids: Vec<String> = Vec::new();
    ids.push(plan_id.clone());
    assert(all.take(0) =~= Seq::<ProviderRun>::empty());
    assert(id_texts(ids@) =~= planned_ids(plan_id@, all.take(0)));
    let mut k: usize = 0;
    while k < runs.len()
        invariant
            k <= runs.len(),
            runs@ == all,
            all == arranged(providers@),
            runs_fault(all, 0) == runs_fault(all, k as int),
            executions.len() == k,
            forall|i: int| 0 <= i < k ==> is_execution_of(#[trigger] executions@[i], all[i].planned, all[i].state),
            id_texts(ids@) == planned_ids(plan_id@, all.take(k as int)),
        decreases runs.len() - k,
    {
        match synthesize_execution(&runs[k].planned, &runs[k].state, copy_message(&runs[k].violation)) {
            Err(error) => {
                return Err(RuntimeProjectionError::Provider(error));
            },
            Ok(execution) => {
                executions.push(execution);
            },
        }
        ids.push(runs[k].planned.request.request_id.clone());
        ids.push(runs[k].planned.execution_id.clone());
        proof {
            assert(all.take(k + 1).drop_last() =~= all.take(k as int));
            assert(all.take(k + 1).last() == all[k as int]);
            assert(id_texts(ids@) =~= planned_ids(plan_id@, all.take(k + 1)));
        }
        k = k + 1;
    }
    assert(all.take(all.len() as int) =~= all);
    assert(are_executions_of(executions@, all));
    let ghost first = planned_ids(plan_id@, all);
    let mut collected = Collected {
        observations: Vec::new(),
        evidence: Vec::new(),
        fix_candidates: Vec::new(),
        ids,
    };
    assert(first + event_ids(Seq::empty()) =~= first);
    assert(payloads(all.take(0)) =~= Seq::empty());
    for run in it: runs.into_iter()
        invariant
            it.seq() == all,
            collected.holds(first, payloads(all.take(it.index() as int))),
    {
        let ghost k = it.index() as int;
        proof {
            assert(all.take(k + 1).drop_last() =~= all.take(k));
            assert(all.take(k + 1).last() == all[k]);
        }
        match run.state {
            ProviderSessionState::Complete(session) => {
                collected.collect(session.events, Ghost(first), Ghost(payloads(all.take(k))));
            },
            _ => {
                assert(payloads(all.take(k)) + Seq::<ProtocolEvent>::empty() =~= payloads(all.take(k)));
            },
        }
    }
    assert(all.take(all.len() as int) =~= all);
    let Collected { observations, evidence, fix_candidates, ids } = collected;
    let ghost events = payloads(all);
    assert(id_texts(ids@) == object_ids(plan_id@, all));
    if let Some(collision) = first_collision(ids) {
        proof {
            let (i, j) = choose|i: int, j: int|
                0 <= i < j < object_ids(plan_id@, all).len() && #[trigger] object_ids(plan_id@, all)[i] == collision@
                    && #[trigger] object_ids(plan_id@, all)[j] == collision@;
            assert(!all_different(object_ids(plan_id@, all)));
        }
        return Err(RuntimeProjectionError::ObjectIdCollision(collision));
    }
    let mut observations: Vec<Observation> = observations;
    let mut evidence: Vec<Evidence> = evidence;
    let mut fix_candidates: Vec<FixCandidate> = fix_candidates;
    let ghost made = executions@;
    sort(&mut observations);
    sort(&mut evidence);
    sort(&mut fix_candidates);
    sort(&mut executions);
    sort_references(&mut observations);
    sort_fix_references(&mut fix_candidates);
    assert(are_executions_of(made, all) && executions@ == arranged(made));
    Ok(ReadOnlyRuntimeProjection { plan_id, observations, evidence, fix_candidates, executions })
}

/// Puts the evidence of each observation in order.
fn sort_references(v: &mut Vec<Observation>)
    ensures
        final(v).len() == old(v).len(),
        forall|i: int| 0 <= i < old(v).len() ==> is_canonical_observation(#[trigger] final(v)@[i], old(v)@[i]),
{
    let mut k: usize = 0;
    while k < v.len()
        invariant
            k <= v.len(),
            v.len() == old(v).len(),
            forall|i: int| 0 <= i < k ==> is_canonical_observation(#[trigger] v@[i], old(v)@[i]),
            forall|i: int| k <= i < v.len() ==> #[trigger] v@[i] == old(v)@[i],
        decreases v.len() - k,
    {
        sort(&mut v[k].evidence_ids);
        k = k + 1;
    }
}

/// Puts the observations of each fix candidate in order.
fn sort_fix_references(v: &mut Vec<FixCandidate>)
    ensures
        final(v).len() == old(v).len(),
        forall|i: int| 0 <= i < old(v).len() ==> is_canonical_fix(#[trigger] final(v)@[i], old(v)@[i]),
{
    let mut k: usize = 0;
    while k < v.len()
        invariant
            k <= v.len(),
            v.len() == old(v).len(),
            forall|i: int| 0 <= i < k ==> is_canonical_fix(#[trigger] v@[i], old(v)@[i]),
            forall|i: int| k <= i < v.len() ==> #[trigger] v@[i] == old(v)@[i],
        decreases v.len() - k,
    {
        sort(&mut v[k].observation_ids);
        k = k + 1;
    }
}

/// What a plan's sessions come to does not go by the order in which they are given, where no two
/// providers share an adapter.
pub proof fn law_projection_ignores_order(
    r: Result<ReadOnlyRuntimeProjection, RuntimeProjectionError>,
    plan_id: Seq<char>,
    a: Seq<ProviderRun>,
    b: Seq<ProviderRun>,
)
    requires
        distinct(a),
        a.to_multiset() == b.to_multiset(),
    ensures
        projects(r, plan_id, a) == projects(r, plan_id, b),
{
    law_arranging_ignores_order(a, b);
}

/// Only complete sessions have a payload: runs that did not complete add nothing to it.
pub proof fn law_incomplete_runs_have_no_payload(runs: Seq<ProviderRun>)
    requires
        forall|i: int| 0 <= i < runs.len() ==> !((#[trigger] runs[i]).state is Complete),
    ensures
        payloads(runs) == Seq::<ProtocolEvent>::empty(),
    decreases runs.len(),
{
    if runs.len() > 0 {
        law_incomplete_runs_have_no_payload(runs.drop_last());
        assert(!(runs[runs.len() - 1].state is Complete));
        assert(payloads(runs) =~= Seq::<ProtocolEvent>::empty());
    }
}

} // verus!
