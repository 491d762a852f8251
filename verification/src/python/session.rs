//! One session of the provider: which version of Ruff is there, and what it finds.
use super::builder::{evidence_fault, is_evidence, reports_event_fault, Builder, CompletionBuilder, EventFault};
use super::error::ProviderError;
use crate::model::EvidenceSource;
use crate::numeral::{as_length, saturated};
use crate::process::capture::{BoundedOutput, ProcessOutcome};
use crate::process::error::ProcessError;
use crate::process::invocation::texts;
use crate::process::limits::{ProcessLimits, RequestLimits};
use crate::protocol::ProtocolEvent;
use crate::text::{chars_of, push_text, string_of, trim, trimmed};
use crate::time::Duration;
use crate::utf8::{invalid_text_words, retained, text_from};
use vstd::prelude::*;
use vstd::utf8::*;

verus! {

/// The version that the output of the probe names, or what is wrong with the output.
pub open spec fn version_in(bytes: Seq<u8>) -> Result<Seq<char>, Seq<char>> {
    if !valid_utf8(bytes) {
        Err("Ruff version is not UTF-8: "@ + invalid_text_words(bytes))
    } else {
        let line = trimmed(decode_utf8(bytes));
        let word = "ruff "@;
        if !(word.len() < line.len() && line.take(word.len() as int) == word) {
            Err("Ruff version output is malformed"@)
        } else if line.len() - word.len() > 64 {
            Err("Ruff version exceeds the v1 tool version bound"@)
        } else {
            Ok(line.skip(word.len() as int))
        }
    }
}

/// The version that the output of the probe names.
pub fn parse_ruff_version(bytes: &[u8]) -> (r: Result<String, ProviderError>)
    ensures
        match version_in(bytes@) {
            Ok(version) => r matches Ok(text) && text@ == version,
            Err(text) => r matches Err(ProviderError::Process(said)) && said@ == text,
        },
{
    match text_from(bytes) {
        Err(invalid) => {
            let mut out: Vec<char> = Vec::new();
            push_text(&mut out, "Ruff version is not UTF-8: ");
            push_text(&mut out, invalid.message.as_str());
            assert(out@ =~= "Ruff version is not UTF-8: "@ + invalid_text_words(bytes@));
            Err(ProviderError::Process(string_of(out.as_slice())))
        },
        Ok(text) => {
            let line: Vec<char> = trim(&chars_of(text.as_str()));
            proof {
                reveal_strlit("ruff ");
            }
            if line.len() <= 5 || line[0] != 'r' || line[1] != 'u' || line[2] != 'f' || line[3] != 'f' || line[4] != ' ' {
                proof {
                    if line.len() > 5 {
                        let head = line@.take(5);
                        assert(head[0] == line@[0] && head[1] == line@[1] && head[2] == line@[2] && head[3] == line@[3]
                            && head[4] == line@[4]);
                    }
                }
                return Err(ProviderError::Process("Ruff version output is malformed".to_owned()));
            }
            assert(line@.take(5) =~= "ruff "@);
            if line.len() - 5 > 64 {
                return Err(ProviderError::Process("Ruff version exceeds the v1 tool version bound".to_owned()));
            }
            let mut version: Vec<char> = Vec::new();
            let mut i: usize = 5;
            while i < line.len()
                invariant
                    5 <= i <= line.len(),
                    version@ == line@.skip(5).take(i - 5),
                decreases line.len() - i,
            {
                version.push(line[i]);
                assert(line@.skip(5).take(i + 1 - 5) =~= line@.skip(5).take(i - 5).push(line@[i as int]));
                i = i + 1;
            }
            assert(line@.skip(5).take(line@.len() - 5) =~= line@.skip(5));
            Ok(string_of(version.as_slice()))
        },
    }
}

/// The number as large as a length can be, less what was used.
pub open spec fn rest_of(limit: u64, used: u64) -> nat {
    let cap = as_length(limit);
    let spent = as_length(used);
    if cap > spent {
        (cap - spent) as nat
    } else {
        0
    }
}

/// What is left of the limits after a process that used so much of them: whole milliseconds, of
/// which none may be left.
pub open spec fn remaining(limits: RequestLimits, stdout_used: u64, stderr_used: u64, elapsed: Duration) -> Option<
    ProcessLimits,
> {
    let timeout: int = limits.timeout_ms * 1_000_000;
    if elapsed.nanos > timeout || (timeout - elapsed.nanos) / 1_000_000 == 0 {
        None
    } else {
        Some(
            ProcessLimits {
                timeout: Duration { nanos: ((timeout - elapsed.nanos) / 1_000_000 * 1_000_000) as u128 },
                max_stdout_bytes: rest_of(limits.max_stdout_bytes, stdout_used) as usize,
                max_stderr_bytes: rest_of(limits.max_stderr_bytes, stderr_used) as usize,
            },
        )
    }
}

fn limits_error(error: ProcessError) -> (r: ProviderError)
    ensures
        error matches ProcessError::InvalidLimits(why) ==> (r matches ProviderError::Process(text) && text@
            == "invalid process limits: "@ + why@),
{
    let mut out: Vec<char> = Vec::new();
    push_text(&mut out, "invalid process limits: ");
    if let ProcessError::InvalidLimits(why) = error {
        push_text(&mut out, why);
        assert(out@ =~= "invalid process limits: "@ + why@);
    }
    ProviderError::Process(string_of(out.as_slice()))
}

/// What is left of the limits after a process.
pub fn remaining_process_limits(limits: &RequestLimits, stdout_used: u64, stderr_used: u64, elapsed: Duration) -> (r: Result<
    Option<ProcessLimits>,
    ProviderError,
>)
    ensures
        match remaining(*limits, stdout_used, stderr_used, elapsed) {
            None => r == Ok::<Option<ProcessLimits>, ProviderError>(None),
            Some(left) => match left.rejection() {
                None => r == Ok::<Option<ProcessLimits>, ProviderError>(Some(left)),
                Some(why) => r matches Err(ProviderError::Process(text)) && text@ == "invalid process limits: "@ + why@,
            },
        },
{
    let timeout: Duration = Duration::from_millis(limits.timeout_ms);
    if elapsed.nanos > timeout.nanos {
        return Ok(None);
    }
    let left_ms: u128 = (timeout.nanos - elapsed.nanos) / 1_000_000;
    if left_ms == 0 {
        return Ok(None);
    }
    let left = ProcessLimits {
        timeout: Duration { nanos: left_ms * 1_000_000 },
        max_stdout_bytes: saturated(limits.max_stdout_bytes).saturating_sub(saturated(stdout_used)),
        max_stderr_bytes: saturated(limits.max_stderr_bytes).saturating_sub(saturated(stderr_used)),
    };
    match left.validate() {
        Ok(limits) => Ok(Some(limits)),
        Err(error) => Err(limits_error(error)),
    }
}

/// What is known of a stream beside its bytes: the digest of the text that is kept of them, and what
/// the protocol contract finds wrong with the envelope.
#[derive(Clone, Debug, PartialEq, Eq)]
pub struct Attested {
    pub digest: String,
    pub violation: Option<String>,
}

/// A process that ended, and what is known of its streams.
#[derive(Clone, Debug, PartialEq, Eq)]
pub struct Run {
    pub outcome: ProcessOutcome,
    pub stdout: Attested,
    pub stderr: Attested,
}

/// The stream is kept as evidence.
pub open spec fn keeps(builder: Builder, output: BoundedOutput) -> bool {
    output.observed_bytes > 0 && builder.has_room()
}

/// The builder after a stream was kept, or not.
pub open spec fn after_stream(builder: Builder, output: BoundedOutput) -> Builder {
    if keeps(builder, output) {
        builder.with_evidence(retained(output.bytes@, builder.max_evidence_bytes).len())
    } else {
        builder
    }
}

/// What stands against keeping a stream.
pub open spec fn stream_fault(builder: Builder, output: BoundedOutput, attested: Attested) -> Option<EventFault> {
    if keeps(builder, output) {
        evidence_fault(builder, attested.violation)
    } else {
        None
    }
}

/// The builder after both streams of a process were kept.
pub open spec fn after_streams(builder: Builder, run: Run) -> Builder {
    after_stream(after_stream(builder, run.outcome.stdout), run.outcome.stderr)
}

/// What stands against keeping the streams of a process.
pub open spec fn streams_fault(builder: Builder, run: Run) -> Option<EventFault> {
    match stream_fault(builder, run.outcome.stdout, run.stdout) {
        Some(fault) => Some(fault),
        None => stream_fault(after_stream(builder, run.outcome.stdout), run.outcome.stderr, run.stderr),
    }
}

/// The event is the evidence of a stream.
pub open spec fn is_stream_event(
    event: ProtocolEvent,
    builder: Builder,
    source: EvidenceSource,
    media_type: Seq<char>,
    output: BoundedOutput,
    attested: Attested,
) -> bool {
    event matches ProtocolEvent::Evidence(e) && e.request_id@ == builder.request_id && e.sequence
        == builder.next_sequence && is_evidence(
        e.evidence,
        builder,
        source,
        media_type,
        output.bytes@,
        output.observed_bytes,
        attested.digest@,
    )
}

/// The events are those kept of a process behind `before`.
pub open spec fn keeps_streams(
    events: Seq<ProtocolEvent>,
    before: Seq<ProtocolEvent>,
    builder: Builder,
    run: Run,
    media_type: Seq<char>,
) -> bool {
    let out = keeps(builder, run.outcome.stdout);
    let b1 = after_stream(builder, run.outcome.stdout);
    let err = keeps(b1, run.outcome.stderr);
    let n = before.len() as int;
    let m = if out {
        n + 1
    } else {
        n
    };
    &&& before.is_prefix_of(events)
    &&& events.len() == m + (if err {
        1int
    } else {
        0
    })
    &&& out ==> is_stream_event(
        events[n],
        builder,
        EvidenceSource::Stdout,
        media_type,
        run.outcome.stdout,
        run.stdout,
    )
    &&& err ==> is_stream_event(events[m], b1, EvidenceSource::Stderr, "text/plain"@, run.outcome.stderr, run.stderr)
}

/// The identifiers of the evidence kept of standard output.
pub open spec fn stdout_ids(builder: Builder, run: Run) -> Seq<Seq<char>> {
    if keeps(builder, run.outcome.stdout) {
        seq![builder.next_id().unwrap()]
    } else {
        Seq::empty()
    }
}

/// Keeps the streams of a process as evidence, as far as there is room for them.
pub fn retain_process_evidence(
    builder: &mut CompletionBuilder,
    events: &mut Vec<ProtocolEvent>,
    run: &Run,
    stdout_media_type: &str,
) -> (r: Result<Vec<String>, ProviderError>)
    requires
        old(builder)@.wf(),
    ensures
        final(builder)@.wf(),
        match streams_fault(old(builder)@, *run) {
            Some(fault) => r matches Err(error) && reports_event_fault(error, fault),
            None => {
                &&& r matches Ok(ids) && texts(ids@) == stdout_ids(old(builder)@, *run)
                &&& final(builder)@ == after_streams(old(builder)@, *run)
                &&& keeps_streams(final(events)@, old(events)@, old(builder)@, *run, stdout_media_type@)
            },
        },
{
    let ghost before = events@;
    let ghost start = builder@;
    let mut ids: Vec<String> = Vec::new();
    if run.outcome.stdout.observed_bytes > 0 && builder.has_room() {
        match builder.evidence(
            EvidenceSource::Stdout,
            stdout_media_type,
            run.outcome.stdout.bytes.as_slice(),
            run.outcome.stdout.observed_bytes,
            run.stdout.digest.clone(),
            copy_violation(&run.stdout.violation),
        ) {
            Err(error) => {
                return Err(error);
            },
            Ok(envelope) => {
                ids.push(envelope.evidence.evidence_id.clone());
                events.push(ProtocolEvent::Evidence(envelope));
            },
        }
    }
    assert(texts(ids@) =~= stdout_ids(start, *run));
    let ghost middle = events@;
    if run.outcome.stderr.observed_bytes > 0 && builder.has_room() {
        match builder.evidence(
            EvidenceSource::Stderr,
            "text/plain",
            run.outcome.stderr.bytes.as_slice(),
            run.outcome.stderr.observed_bytes,
            run.stderr.digest.clone(),
            copy_violation(&run.stderr.violation),
        ) {
            Err(error) => {
                return Err(error);
            },
            Ok(envelope) => {
                events.push(ProtocolEvent::Evidence(envelope));
            },
        }
    }
    assert(before =~= events@.subrange(0, before.len() as int));
    Ok(ids)
}

fn copy_violation(violation: &Option<String>) -> (r: Option<String>)
    ensures
        r == *violation,
{
    match violation {
        Some(text) => Some(text.clone()),
        None => None,
    }
}

} // verus!
