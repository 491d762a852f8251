//! From the compiler's diagnostics to observations.
use super::cargo_json::{RustcDiagnostic, RustcSpan};
use super::error::{Fault, ProviderError};
use super::ledger::{is_made, lemma_next_id_is_new, note_of, notes_of, place_in, Ledger, Note, Notes, IDENTIFIERS};
use super::place::{scoped_location, scoped_place, DiagnosticScope, Place, SpanFacts};
use super::target::{
    absent, diagnostic_is_generated, generated, identity_label, label_identity, law_redacted_text_hides_the_target,
    redact_verification_target, target_view, without_target,
};
use super::words::{diagnostic_message, message_of, severity, severity_of};
use crate::execution::text_of;
use crate::identifier::derived_id;
use crate::model::{Location, Observation, Severity, Tool, NORMAL_ORIGIN, OBSERVATION_SCHEMA};
use crate::numeral::{decimal, push_decimal};
use crate::order::equal_texts;
use crate::process::invocation::texts;
use crate::protocol::{names, ObservationEnvelope, ProtocolEvent};
use crate::text::{push_text, string_of, text_at};
use vstd::prelude::*;

verus! {

/// What is known of a diagnostic beside what the compiler says: the digest of what it is told apart
/// by, and what the system knows of the place that it names.
#[derive(Debug, PartialEq, Eq)]
pub struct DiagnosticFacts {
    pub digest: String,
    pub span: SpanFacts,
}

/// What the observations of one phase share.
pub struct Phase {
    pub tool: Seq<char>,
    pub version: Seq<char>,
    pub output_id: Option<Seq<char>>,
    pub scope: DiagnosticScope,
}

/// The first primary span from `k` on.
pub open spec fn primary_from(spans: Seq<RustcSpan>, k: nat) -> Option<RustcSpan>
    decreases spans.len() - k,
{
    if k >= spans.len() {
        None
    } else if spans[k as int].is_primary {
        Some(spans[k as int])
    } else {
        primary_from(spans, k + 1)
    }
}

/// The first primary span.
fn primary_of(spans: &Vec<RustcSpan>) -> (r: Option<&RustcSpan>)
    ensures
        match r {
            Some(span) => primary_from(spans@, 0) == Some(*span),
            None => primary_from(spans@, 0) is None,
        },
{
    let mut i: usize = 0;
    while i < spans.len()
        invariant
            i <= spans.len(),
            primary_from(spans@, 0) == primary_from(spans@, i as nat),
        decreases spans.len() - i,
    {
        if spans[i].is_primary {
            return Some(&spans[i]);
        }
        i = i + 1;
    }
    None
}

/// The level is one of a diagnostic that counts even without a code and a place.
pub open spec fn counts_alone(level: Seq<char>) -> bool {
    level == "error"@ || level == "warning"@ || level == "ice"@
}

/// What is observed of a diagnostic, and by which key it is told apart.
pub struct Reading {
    pub severity: Severity,
    pub rule: Option<Seq<char>>,
    pub message: Seq<char>,
    pub place: Option<Place>,
    pub key: Seq<char>,
}

/// The word for a severity in a key.
pub open spec fn severity_key(severity: Severity) -> Seq<char> {
    match severity {
        Severity::Error => "Error"@,
        Severity::Warning => "Warning"@,
        Severity::Info => "Info"@,
    }
}

/// The place in a key.
pub open spec fn place_key(place: Option<Place>) -> Seq<char> {
    match place {
        None => Seq::empty(),
        Some(place) => place.path + ":"@ + decimal(place.start.line as nat) + ":"@ + decimal(
            place.start.column as nat,
        ) + ":Some(Position { line: "@ + decimal(place.end.line as nat) + ", column: "@ + decimal(
            place.end.column as nat,
        ) + " })"@,
    }
}

/// What an observation is told apart by.
pub open spec fn key_of(severity: Severity, rule: Option<Seq<char>>, label: Seq<char>, place: Option<Place>) -> Seq<
    char,
> {
    let rule = match rule {
        Some(rule) => rule,
        None => Seq::empty(),
    };
    severity_key(severity) + seq!['\0'] + rule + seq!['\0'] + label + seq!['\0'] + place_key(place)
}

/// The place of a diagnostic, where it is not about what the build made.
pub open spec fn diagnostic_place(d: RustcDiagnostic, facts: DiagnosticFacts, scope: DiagnosticScope) -> Result<
    Option<Place>,
    Fault,
> {
    if generated(d, target_view(scope.verification_target)) {
        Ok(None)
    } else {
        match primary_from(d.spans@, 0) {
            None => Ok(None),
            Some(span) => scoped_place(span, scope, facts.span),
        }
    }
}

/// What is observed of a diagnostic: nothing where it only comments on another one, or stands outside
/// the scope.
pub open spec fn reading_of(d: RustcDiagnostic, facts: DiagnosticFacts, scope: DiagnosticScope) -> Result<
    Option<Reading>,
    Fault,
> {
    let primary = primary_from(d.spans@, 0);
    let target = target_view(scope.verification_target);
    match severity_of(d.level@) {
        None => Err(Fault::Model("unsupported rustc diagnostic level"@)),
        Some(severity) => if d.code is None && primary is None && !counts_alone(d.level@) {
            Ok(None)
        } else {
            match diagnostic_place(d, facts, scope) {
                Err(fault) => Err(fault),
                Ok(place) => if primary is Some && place is None && !generated(d, target) {
                    Ok(None)
                } else {
                    let label = identity_label(facts.digest@);
                    let rule = match d.code {
                        Some(code) => Some(without_target(code.code@, target)),
                        None => None,
                    };
                    Ok(
                        Some(
                            Reading {
                                severity,
                                rule,
                                message: if generated(d, target) {
                                    label
                                } else {
                                    without_target(message_of(d), target)
                                },
                                place,
                                key: key_of(severity, rule, label, place),
                            },
                        ),
                    )
                },
            }
        },
    }
}

impl Notes {
    /// The session after a reading: one observation more, if nothing with its key was observed yet.
    pub open spec fn with_reading(self, reading: Reading, phase: Phase) -> Notes {
        if self.seen.contains(reading.key) {
            self
        } else {
            Notes {
                seen: self.seen.push(reading.key),
                ..self.with(
                    Note::Observation {
                        id: self.id(),
                        tool: phase.tool,
                        version: phase.version,
                        rule: reading.rule,
                        severity: reading.severity,
                        message: reading.message,
                        place: reading.place,
                        evidence_ids: match phase.output_id {
                            Some(id) => seq![id],
                            None => Seq::empty(),
                        },
                    },
                )
            }
        }
    }

    /// The session after a diagnostic, or what keeps the diagnostic from being taken.
    pub open spec fn with_diagnostic(self, d: RustcDiagnostic, facts: DiagnosticFacts, phase: Phase) -> Result<
        Notes,
        Fault,
    > {
        match reading_of(d, facts, phase.scope) {
            Err(fault) => Err(fault),
            Ok(None) => Ok(self),
            Ok(Some(reading)) => Ok(self.with_reading(reading, phase)),
        }
    }

    /// The session after the diagnostics from the `k`-th on, up to the first that cannot be taken,
    /// and what keeps that one from it.
    pub open spec fn with_diagnostics(
        self,
        diagnostics: Seq<RustcDiagnostic>,
        facts: Seq<DiagnosticFacts>,
        k: nat,
        phase: Phase,
    ) -> (Notes, Option<Fault>)
        decreases diagnostics.len() - k,
    {
        if k >= diagnostics.len() {
            (self, None)
        } else {
            match self.with_diagnostic(diagnostics[k as int], facts[k as int], phase) {
                Err(fault) => (self, Some(fault)),
                Ok(next) => next.with_diagnostics(diagnostics, facts, k + 1, phase),
            }
        }
    }
}

/// What is observed of a diagnostic, in the form of an observation.
struct Draft {
    severity: Severity,
    rule_id: Option<String>,
    message: String,
    location: Option<Location>,
    key: String,
}

spec fn drafts(draft: Draft, reading: Reading) -> bool {
    &&& draft.severity == reading.severity
    &&& text_of(draft.rule_id) == reading.rule
    &&& draft.message@ == reading.message
    &&& place_in(draft.location) == reading.place
    &&& draft.location matches Some(location) ==> location.end is Some
    &&& draft.key@ == reading.key
}

fn push_position(out: &mut Vec<char>, location: &Location)
    requires
        location.end is Some,
    ensures
        final(out)@ == old(out)@ + place_key(place_in(Some(*location))),
{
    push_text(out, location.path.as_str());
    push_text(out, ":");
    push_decimal(out, location.start.line as u64);
    push_text(out, ":");
    push_decimal(out, location.start.column as u64);
    if let Some(end) = &location.end {
        push_text(out, ":Some(Position { line: ");
        push_decimal(out, end.line as u64);
        push_text(out, ", column: ");
        push_decimal(out, end.column as u64);
        push_text(out, " })");
    }
    assert(out@ =~= old(out)@ + place_key(place_in(Some(*location))));
}

/// What an observation is told apart by.
fn observation_key(severity: Severity, rule_id: &Option<String>, label: &str, location: &Option<Location>) -> (r: String)
    requires
        location matches Some(place) ==> place.end is Some,
    ensures
        r@ == key_of(severity, text_of(*rule_id), label@, place_in(*location)),
{
    let mut out: Vec<char> = Vec::new();
    push_text(
        &mut out,
        match severity {
            Severity::Error => "Error",
            Severity::Warning => "Warning",
            Severity::Info => "Info",
        },
    );
    out.push('\0');
    if let Some(rule) = rule_id {
        push_text(&mut out, rule.as_str());
    }
    out.push('\0');
    push_text(&mut out, label);
    out.push('\0');
    if let Some(place) = location {
        push_position(&mut out, place);
    }
    assert(out@ =~= key_of(severity, text_of(*rule_id), label@, place_in(*location)));
    string_of(out.as_slice())
}

/// Reads one diagnostic.
fn read_diagnostic(d: &RustcDiagnostic, facts: &DiagnosticFacts, scope: &DiagnosticScope) -> (r: Result<
    Option<Draft>,
    ProviderError,
>)
    ensures
        match reading_of(*d, *facts, *scope) {
            Err(fault) => r matches Err(error) && error@ == fault,
            Ok(None) => r matches Ok(None),
            Ok(Some(reading)) => r matches Ok(Some(draft)) && drafts(draft, reading),
        },
{
    let found: Severity = match severity(d.level.as_str()) {
        Some(found) => found,
        None => {
            return Err(ProviderError::model("unsupported rustc diagnostic level"));
        },
    };
    let primary: Option<&RustcSpan> = primary_of(&d.spans);
    let level: &str = d.level.as_str();
    if d.code.is_none() && primary.is_none() && !equal_texts(level, "error") && !equal_texts(level, "warning")
        && !equal_texts(level, "ice") {
        return Ok(None);
    }
    let made: bool = diagnostic_is_generated(d, &scope.verification_target);
    let mut place: Option<Location> = None;
    if !made {
        if let Some(span) = primary {
            match scoped_location(span, scope, &facts.span) {
                Err(error) => {
                    return Err(error);
                },
                Ok(found) => {
                    place = found;
                },
            }
        }
    }
    if primary.is_some() && place.is_none() && !made {
        return Ok(None);
    }
    let label: String = label_identity(facts.digest.as_str());
    let rule_id: Option<String> = match &d.code {
        Some(code) => Some(redact_verification_target(code.code.as_str(), &scope.verification_target)),
        None => None,
    };
    let key: String = observation_key(found, &rule_id, label.as_str(), &place);
    let message: String = if made {
        label
    } else {
        let whole: String = diagnostic_message(d);
        redact_verification_target(whole.as_str(), &scope.verification_target)
    };
    Ok(Some(Draft { severity: found, rule_id, message, location: place, key }))
}

/// Writes an observation, if nothing with its key was observed yet.
fn observe(
    ledger: &mut Ledger,
    draft: Draft,
    tool_name: &str,
    tool_version: &str,
    output_id: &Option<String>,
    Ghost(reading): Ghost<Reading>,
    Ghost(phase): Ghost<Phase>,
)
    requires
        old(ledger).wf(),
        old(ledger)@.has_ids(1),
        drafts(draft, reading),
        phase.tool == tool_name@,
        phase.version == tool_version@,
        phase.output_id == text_of(*output_id),
    ensures
        final(ledger).wf(),
        final(ledger)@ == old(ledger)@.with_reading(reading, phase),
{
    if names(&ledger.seen, draft.key.as_str()) {
        return ;
    }
    let ghost before = *ledger;
    let observation_id: String = ledger.next_id();
    let mut evidence_ids: Vec<String> = Vec::new();
    if let Some(id) = output_id {
        evidence_ids.push(id.clone());
        assert(texts(evidence_ids@) =~= seq![id@]);
    } else {
        assert(texts(evidence_ids@) =~= Seq::empty());
    }
    let envelope = ObservationEnvelope {
        request_id: ledger.request_id.clone(),
        sequence: ledger.events.len() as u64,
        observation: Observation {
            schema_version: OBSERVATION_SCHEMA.to_owned(),
            observation_id,
            tool: Tool { name: tool_name.to_owned(), version: tool_version.to_owned(), rule_id: draft.rule_id },
            language: "rust".to_owned(),
            severity: draft.severity,
            origin: NORMAL_ORIGIN.to_owned(),
            message: draft.message,
            location: draft.location,
            symbol: None,
            expected: None,
            observed: None,
            evidence_ids,
        },
    };
    let event = ProtocolEvent::Observation(envelope);
    let ghost note = note_of(event);
    let ghost made = event;
    ledger.events.push(event);
    ledger.seen.push(draft.key);
    proof {
        lemma_next_id_is_new(before@, note);
        assert(notes_of(ledger.events@) =~= notes_of(before.events@).push(note));
        assert(texts(ledger.seen@) =~= texts(before.seen@).push(reading.key));
        assert(is_made(made, before.request_id@, before.events@.len()));
        let with = before@.with(note);
        assert(with.ids_are_spent() && with.ids_are_distinct());
        assert(ledger@.notes == with.notes && ledger@.next == with.next);
        assert forall|i: int, salt: u64|
            0 <= i < ledger@.notes.len() && ledger@.next <= salt < IDENTIFIERS implies (#[trigger] ledger@.notes[i]).id()
            != (#[trigger] derived_id(ledger@.request_id, salt)).unwrap() by {
            assert(with.notes[i].id() != derived_id(with.request_id, salt).unwrap());
        }
        assert forall|i: int, j: int|
            0 <= i < ledger@.seen.len() && 0 <= j < ledger@.seen.len() && i != j implies ledger@.seen[i]
            != ledger@.seen[j] by {
            let n = before@.seen.len();
            if i == n && j < n {
                assert(before@.seen.contains(before@.seen[j]));
            } else if j == n && i < n {
                assert(before@.seen.contains(before@.seen[i]));
            }
        }
    }
}

/// Writes the observations of a report, up to the first diagnostic that cannot be taken.
pub fn append_observations(
    ledger: &mut Ledger,
    scope: &DiagnosticScope,
    tool_name: &str,
    tool_version: &str,
    diagnostics: &Vec<RustcDiagnostic>,
    facts: &Vec<DiagnosticFacts>,
    output_id: &Option<String>,
) -> (r: Result<(), ProviderError>)
    requires
        old(ledger).wf(),
        old(ledger)@.has_ids(diagnostics.len() as nat),
        facts.len() == diagnostics.len(),
    ensures
        final(ledger).wf(),
        final(ledger)@.request_id == old(ledger)@.request_id,
        final(ledger)@.next <= old(ledger)@.next + diagnostics.len(),
        ({
            let phase = Phase {
                tool: tool_name@,
                version: tool_version@,
                output_id: text_of(*output_id),
                scope: *scope,
            };
            let (notes, fault) = old(ledger)@.with_diagnostics(diagnostics@, facts@, 0, phase);
            &&& final(ledger)@ == notes
            &&& match fault {
                Some(fault) => r matches Err(error) && error@ == fault,
                None => r is Ok,
            }
        }),
{
    let ghost phase = Phase {
        tool: tool_name@,
        version: tool_version@,
        output_id: text_of(*output_id),
        scope: *scope,
    };
    let ghost start = ledger@;
    let ghost whole = start.with_diagnostics(diagnostics@, facts@, 0, phase);
    let mut i: usize = 0;
    while i < diagnostics.len()
        invariant
            i <= diagnostics.len(),
            facts.len() == diagnostics.len(),
            phase == (Phase {
                tool: tool_name@,
                version: tool_version@,
                output_id: text_of(*output_id),
                scope: *scope,
            }),
            ledger.wf(),
            start == old(ledger)@,
            start.has_ids(diagnostics.len() as nat),
            ledger@.request_id == start.request_id,
            ledger@.next <= start.next + i,
            whole == start.with_diagnostics(diagnostics@, facts@, 0, phase),
            whole == ledger@.with_diagnostics(diagnostics@, facts@, i as nat, phase),
        decreases diagnostics.len() - i,
    {
        match read_diagnostic(&diagnostics[i], &facts[i], scope) {
            Err(error) => {
                return Err(error);
            },
            Ok(None) => {},
            Ok(Some(draft)) => {
                let ghost reading = reading_of(diagnostics@[i as int], facts@[i as int], *scope)->Ok_0.unwrap();
                observe(
                    ledger,
                    draft,
                    tool_name,
                    tool_version,
                    output_id,
                    Ghost(reading),
                    Ghost(phase),
                );
            },
        }
        i = i + 1;
    }
    Ok(())
}

/// However often a session observes the same thing, it says so once: a reading whose key was seen
/// changes nothing, and any other adds exactly one observation.
pub proof fn law_observations_are_deduplicated(notes: Notes, reading: Reading, phase: Phase)
    ensures
        notes.with_reading(reading, phase).with_reading(reading, phase) == notes.with_reading(reading, phase),
        notes.with_reading(reading, phase).notes.len() == notes.notes.len() + if notes.seen.contains(reading.key) {
            0nat
        } else {
            1nat
        },
{
    let seen = notes.seen.push(reading.key);
    assert(seen[notes.seen.len() as int] == reading.key);
}

/// Neither the message nor the rule of an observation names the directory that the session builds in,
/// if that is an absolute path without angle brackets. A digest never holds a slash.
pub proof fn law_observations_hide_the_target(
    d: RustcDiagnostic,
    facts: DiagnosticFacts,
    scope: DiagnosticScope,
    reading: Reading,
    root: Seq<char>,
)
    requires
        reading_of(d, facts, scope) == Ok::<Option<Reading>, Fault>(Some(reading)),
        target_view(scope.verification_target) == Some(root),
        root.len() > 0,
        root[0] == '/',
        !root.contains('<'),
        !root.contains('>'),
        !facts.digest@.contains('/'),
    ensures
        absent(reading.message, root),
        reading.rule matches Some(rule) ==> absent(rule, root),
{
    if let Some(code) = d.code {
        law_redacted_text_hides_the_target(code.code@, root);
    }
    if generated(d, Some(root)) {
        let label = identity_label(facts.digest@);
        reveal_strlit("generated Rust diagnostic ");
        let head = "generated Rust diagnostic "@;
        assert forall|i: int| !text_at(label, i, root) by {
            if text_at(label, i, root) {
                assert(label[i] == '/');
                if i >= head.len() {
                    assert(facts.digest@[i - head.len()] == '/');
                }
            }
        }
    } else {
        law_redacted_text_hides_the_target(message_of(d), root);
    }
}

} // verus!
