//! The events of one session, with what was already said in it.
use super::place::Place;
use crate::execution::text_of;
use crate::identifier::{derive_id, derived_id, law_derived_ids_differ, lemma_small_changes_fit, suffix_number};
use crate::model::{
    Evidence, EvidenceSource, Location, Severity, EVIDENCE_SCHEMA, NORMAL_ORIGIN, OBSERVATION_SCHEMA,
};
use crate::process::capture::{BoundedOutput, ProcessOutcome};
use crate::process::invocation::texts;
use crate::protocol::{EvidenceEnvelope, ProtocolEvent};
use crate::utf8::{retain, retained};
use vstd::prelude::*;
use vstd::utf8::*;

verus! {

/// What one event says.
pub enum Note {
    Observation {
        id: Seq<char>,
        tool: Seq<char>,
        version: Seq<char>,
        rule: Option<Seq<char>>,
        severity: Severity,
        message: Seq<char>,
        place: Option<Place>,
        evidence_ids: Seq<Seq<char>>,
    },
    Evidence {
        id: Seq<char>,
        source: EvidenceSource,
        media_type: Seq<char>,
        kept: Seq<u8>,
        observed: u64,
        limit: u32,
        digest: Seq<char>,
    },
    Other,
}

impl Note {
    /// The identifier of what the event holds.
    pub open spec fn id(self) -> Seq<char> {
        match self {
            Note::Observation { id, .. } => id,
            Note::Evidence { id, .. } => id,
            Note::Other => Seq::empty(),
        }
    }
}

/// The place that a location says.
pub open spec fn place_in(location: Option<Location>) -> Option<Place> {
    match location {
        Some(location) => Some(
            Place { path: location.path@, start: location.start, end: location.end.unwrap() },
        ),
        None => None,
    }
}

/// The bytes of a text.
pub open spec fn bytes_of(content: Option<String>) -> Seq<u8> {
    match content {
        Some(text) => encode_utf8(text@),
        None => Seq::empty(),
    }
}

/// What an event says.
pub open spec fn note_of(event: ProtocolEvent) -> Note {
    match event {
        ProtocolEvent::Observation(e) => {
            let o = e.observation;
            Note::Observation {
                id: o.observation_id@,
                tool: o.tool.name@,
                version: o.tool.version@,
                rule: text_of(o.tool.rule_id),
                severity: o.severity,
                message: o.message@,
                place: place_in(o.location),
                evidence_ids: texts(o.evidence_ids@),
            }
        },
        ProtocolEvent::Evidence(e) => {
            let v = e.evidence;
            Note::Evidence {
                id: v.evidence_id@,
                source: v.source,
                media_type: v.media_type@,
                kept: bytes_of(v.content),
                observed: v.observed_bytes,
                limit: v.limit_bytes,
                digest: v.sha256@,
            }
        },
        _ => Note::Other,
    }
}

/// What the events say.
pub open spec fn notes_of(events: Seq<ProtocolEvent>) -> Seq<Note> {
    Seq::new(events.len(), |i: int| note_of(events[i]))
}

/// The event is one that the provider makes: an observation or evidence, numbered `i`, with nothing
/// in it that its note does not say.
pub open spec fn is_made(event: ProtocolEvent, request_id: Seq<char>, i: nat) -> bool {
    match event {
        ProtocolEvent::Observation(e) => {
            let o = e.observation;
            &&& e.request_id@ == request_id
            &&& e.sequence == i
            &&& o.schema_version@ == OBSERVATION_SCHEMA@
            &&& o.language@ == "rust"@
            &&& o.origin@ == NORMAL_ORIGIN@
            &&& o.location matches Some(location) ==> location.end is Some
            &&& o.symbol is None
            &&& o.expected is None
            &&& o.observed is None
        },
        ProtocolEvent::Evidence(e) => {
            let v = e.evidence;
            &&& e.request_id@ == request_id
            &&& e.sequence == i
            &&& v.schema_version@ == EVIDENCE_SCHEMA@
            &&& v.execution_id is None
            &&& v.content is Some
            &&& v.retained_bytes == bytes_of(v.content).len()
            &&& v.truncated == (v.observed_bytes > v.retained_bytes)
            &&& v.relative_path is None
        },
        _ => false,
    }
}

/// The events are ones that the provider makes, numbered through.
pub open spec fn all_made(events: Seq<ProtocolEvent>, request_id: Seq<char>) -> bool {
    forall|i: int| 0 <= i < events.len() ==> is_made(#[trigger] events[i], request_id, i as nat)
}

/// How many identifiers there are.
pub const IDENTIFIERS: u64 = 0x1_0000_0000_0000;

/// What a session has said: its events, how many identifiers it used, and by which keys it tells its
/// observations apart.
pub struct Notes {
    pub request_id: Seq<char>,
    pub notes: Seq<Note>,
    pub next: u64,
    pub seen: Seq<Seq<char>>,
}

impl Notes {
    /// The identifier of the next event.
    pub open spec fn id(self) -> Seq<char> {
        derived_id(self.request_id, self.next).unwrap()
    }

    /// There are identifiers for so many more events.
    pub open spec fn has_ids(self, n: nat) -> bool {
        suffix_number(self.request_id) is Some && self.next + n <= IDENTIFIERS
    }

    /// No identifier that was used is still to come.
    pub open spec fn ids_are_spent(self) -> bool {
        forall|i: int, salt: u64|
            0 <= i < self.notes.len() && self.next <= salt < IDENTIFIERS ==> (#[trigger] self.notes[i]).id()
                != (#[trigger] derived_id(self.request_id, salt)).unwrap()
    }

    /// No two events have the same identifier.
    pub open spec fn ids_are_distinct(self) -> bool {
        forall|i: int, j: int|
            0 <= i < j < self.notes.len() ==> (#[trigger] self.notes[i]).id() != (#[trigger] self.notes[j]).id()
    }

    /// No two observations have the same key.
    pub open spec fn keys_are_distinct(self) -> bool {
        self.seen.no_duplicates()
    }

    /// Every identifier and every key was used once.
    pub open spec fn wf(self) -> bool {
        self.ids_are_spent() && self.ids_are_distinct() && self.keys_are_distinct()
    }

    /// The session after an event that takes the next identifier.
    pub open spec fn with(self, note: Note) -> Notes {
        Notes { notes: self.notes.push(note), next: (self.next + 1) as u64, ..self }
    }

    /// The session after evidence of a stream: of one that stayed silent there is none, and none
    /// either where the limit is larger than records can say.
    pub open spec fn with_stream(
        self,
        source: EvidenceSource,
        media_type: Seq<char>,
        output: BoundedOutput,
        limit: u64,
        digest: Seq<char>,
    ) -> Notes {
        if output.observed_bytes == 0 {
            self
        } else if limit > u32::MAX {
            Notes { next: (self.next + 1) as u64, ..self }
        } else {
            let kept = retained(output.bytes@, limit as u32);
            self.with(
                Note::Evidence {
                    id: self.id(),
                    source,
                    media_type,
                    kept,
                    observed: if output.observed_bytes as nat >= kept.len() {
                        output.observed_bytes
                    } else {
                        kept.len() as u64
                    },
                    limit: limit as u32,
                    digest,
                },
            )
        }
    }

    /// The session after evidence of both streams of a process; of one that builds in a directory of
    /// its own there is none.
    pub open spec fn with_streams(self, run: Run, media_type: Seq<char>, limit: u64, apart: bool) -> Notes {
        if apart {
            self
        } else {
            self.with_stream(
                EvidenceSource::Stdout,
                media_type,
                run.outcome.stdout,
                limit,
                run.stdout_digest@,
            ).with_stream(EvidenceSource::Stderr, "text/plain"@, run.outcome.stderr, limit, run.stderr_digest@)
        }
    }

    /// The identifier of the evidence of a process's output.
    pub open spec fn output_id(self, run: Run, limit: u64, apart: bool) -> Option<Seq<char>> {
        if apart || run.outcome.stdout.observed_bytes == 0 || limit > u32::MAX {
            None
        } else {
            Some(self.id())
        }
    }
}

/// The beginning of a session.
pub open spec fn first_notes(request_id: Seq<char>) -> Notes {
    Notes { request_id, notes: Seq::empty(), next: 1, seen: Seq::empty() }
}

/// A process that ended, and the digests of the texts that evidence keeps of its streams.
#[derive(Clone, Debug, PartialEq, Eq)]
pub struct Run {
    pub outcome: ProcessOutcome,
    pub stdout_digest: String,
    pub stderr_digest: String,
}

/// An event takes an identifier that was not used before.
pub proof fn lemma_next_id_is_new(before: Notes, note: Note)
    requires
        before.wf(),
        before.has_ids(1),
        note.id() == before.id(),
    ensures
        before.with(note).wf(),
{
    let after = before.with(note);
    lemma_small_changes_fit(before.request_id, before.next);
    assert forall|i: int, salt: u64|
        0 <= i < after.notes.len() && after.next <= salt < IDENTIFIERS implies (#[trigger] after.notes[i]).id() != (
    #[trigger] derived_id(after.request_id, salt)).unwrap() by {
        lemma_small_changes_fit(before.request_id, salt);
        if i < before.notes.len() {
            assert(before.notes[i].id() != derived_id(before.request_id, salt).unwrap());
        } else {
            law_derived_ids_differ(before.request_id, before.next, salt);
        }
    }
    assert forall|i: int, j: int| 0 <= i < j < after.notes.len() implies (#[trigger] after.notes[i]).id() != (
    #[trigger] after.notes[j]).id() by {
        if j == before.notes.len() {
            assert(before.notes[i].id() != derived_id(before.request_id, before.next).unwrap());
        }
    }
}

/// The events of one session, the identifiers that it can still use, and the keys of its
/// observations.
#[derive(Debug)]
pub struct Ledger {
    pub request_id: String,
    pub next: u64,
    pub seen: Vec<String>,
    pub events: Vec<ProtocolEvent>,
}

impl View for Ledger {
    type V = Notes;

    open spec fn view(&self) -> Notes {
        Notes {
            request_id: self.request_id@,
            notes: notes_of(self.events@),
            next: self.next,
            seen: texts(self.seen@),
        }
    }
}

impl Ledger {
    pub open spec fn wf(self) -> bool {
        all_made(self.events@, self.request_id@) && self@.wf()
    }

    /// The ledger of a session that begins.
    pub fn new(request_id: &str) -> (r: Ledger)
        ensures
            r.wf(),
            r@ == first_notes(request_id@),
    {
        let ledger = Ledger { request_id: request_id.to_owned(), next: 1, seen: Vec::new(), events: Vec::new() };
        assert(notes_of(ledger.events@) =~= Seq::empty());
        assert(texts(ledger.seen@) =~= Seq::empty());
        ledger
    }

    /// The next identifier.
    pub(crate) fn next_id(&mut self) -> (r: String)
        requires
            old(self)@.has_ids(1),
            old(self).wf(),
        ensures
            r@ == old(self)@.id(),
            final(self)@ == (Notes { next: (old(self)@.next + 1) as u64, ..old(self)@ }),
            final(self).wf(),
            final(self).events == old(self).events,
            final(self).seen == old(self).seen,
            final(self).request_id == old(self).request_id,
            final(self).next == old(self).next + 1,
    {
        proof {
            lemma_small_changes_fit(self.request_id@, self.next);
        }
        let id: Option<String> = derive_id(self.request_id.as_str(), self.next);
        self.next = self.next + 1;
        match id {
            Some(id) => id,
            None => String::new(),
        }
    }

    /// Writes evidence of a stream, and gives its identifier.
    fn captured_evidence(
        &mut self,
        source: EvidenceSource,
        media_type: &str,
        output: &BoundedOutput,
        limit: u64,
        digest: &str,
    ) -> (r: Option<String>)
        requires
            old(self).wf(),
            old(self)@.has_ids(1),
        ensures
            final(self).wf(),
            final(self)@ == old(self)@.with_stream(source, media_type@, *output, limit, digest@),
            match r {
                Some(id) => output.observed_bytes > 0 && limit <= u32::MAX && id@ == old(self)@.id(),
                None => output.observed_bytes == 0 || limit > u32::MAX,
            },
    {
        if output.observed_bytes == 0 {
            return None;
        }
        let ghost before = *self;
        let evidence_id: String = self.next_id();
        if limit > u32::MAX as u64 {
            return None;
        }
        let limit_bytes: u32 = limit as u32;
        let content: String = retain(output.bytes.as_slice(), limit_bytes);
        let retained_bytes: u64 = content.as_str().as_bytes().len() as u64;
        let observed_bytes: u64 = if output.observed_bytes >= retained_bytes {
            output.observed_bytes
        } else {
            retained_bytes
        };
        let id: String = evidence_id.clone();
        let envelope = EvidenceEnvelope {
            request_id: self.request_id.clone(),
            sequence: self.events.len() as u64,
            evidence: Evidence {
                schema_version: EVIDENCE_SCHEMA.to_owned(),
                evidence_id,
                execution_id: None,
                source,
                media_type: media_type.to_owned(),
                retained_bytes,
                observed_bytes,
                limit_bytes,
                truncated: observed_bytes > retained_bytes,
                sha256: digest.to_owned(),
                relative_path: None,
                content: Some(content),
            },
        };
        let event = ProtocolEvent::Evidence(envelope);
        let ghost note = note_of(event);
        let ghost made = event;
        self.events.push(event);
        proof {
            lemma_next_id_is_new(before@, note);
            assert(notes_of(self.events@) =~= notes_of(before.events@).push(note));
            assert(is_made(made, before.request_id@, before.events@.len()));
        }
        Some(id)
    }

    /// Writes evidence of both streams of a process, and gives the identifier of that of its output.
    pub fn append_process_evidence(&mut self, run: &Run, stdout_media_type: &str, limit: u64, apart: bool) -> (r: Option<
        String,
    >)
        requires
            old(self).wf(),
            old(self)@.has_ids(2),
        ensures
            final(self).wf(),
            final(self)@ == old(self)@.with_streams(*run, stdout_media_type@, limit, apart),
            final(self)@.next <= old(self)@.next + 2,
            text_of(r) == old(self)@.output_id(*run, limit, apart),
    {
        if apart {
            return None;
        }
        let id: Option<String> = self.captured_evidence(
            EvidenceSource::Stdout,
            stdout_media_type,
            &run.outcome.stdout,
            limit,
            run.stdout_digest.as_str(),
        );
        let _ = self.captured_evidence(
            EvidenceSource::Stderr,
            "text/plain",
            &run.outcome.stderr,
            limit,
            run.stderr_digest.as_str(),
        );
        id
    }
}

} // verus!
