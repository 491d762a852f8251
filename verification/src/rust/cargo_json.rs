//! The typed boundary for Cargo's JSON Lines messages.
use crate::json::{json_fault, json_member_text, json_text_member};
use crate::order::equal_texts;
use crate::text::{chars_of, push_text, string_of};
use vstd::prelude::*;

verus! {

pub const MAX_DIAGNOSTICS: usize = 10_000;

pub const MAX_SPANS: usize = 64;

pub const MAX_CHILDREN: usize = 64;

pub const MAX_CODE_CHARS: usize = 128;

/// What Cargo reported of a build.
#[derive(Clone, Debug, PartialEq, Eq)]
pub struct CargoReport {
    pub diagnostics: Vec<RustcDiagnostic>,
    pub success: bool,
}

/// One diagnostic of the compiler.
#[derive(Clone, Debug, PartialEq, Eq)]
pub struct RustcDiagnostic {
    pub message: String,
    pub code: Option<RustcCode>,
    pub level: String,
    pub spans: Vec<RustcSpan>,
    pub children: Vec<RustcChild>,
    pub rendered: Option<String>,
}

#[derive(Clone, Debug, PartialEq, Eq)]
pub struct RustcCode {
    pub code: String,
}

#[derive(Clone, Debug, PartialEq, Eq)]
pub struct RustcChild {
    pub message: String,
    pub level: String,
}

#[derive(Clone, Debug, PartialEq, Eq)]
pub struct RustcSpan {
    pub file_name: String,
    pub line_start: u64,
    pub line_end: u64,
    pub column_start: u64,
    pub column_end: u64,
    pub is_primary: bool,
}

/// Why a stream is not one of Cargo's.
#[derive(Clone, Debug, PartialEq, Eq)]
pub enum CargoJsonError {
    MissingBuildFinished,
    PartialObject,
    Malformed(String),
    Invalid(String),
}

/// What an error says.
pub open spec fn cargo_error_text(error: CargoJsonError) -> Seq<char> {
    match error {
        CargoJsonError::MissingBuildFinished => "Cargo JSON stream is empty or lacks build-finished"@,
        CargoJsonError::PartialObject => "Cargo JSON object is incomplete at end of stream"@,
        CargoJsonError::Malformed(text) => "Cargo JSON is malformed: "@ + text@,
        CargoJsonError::Invalid(text) => "Cargo JSON violates the typed boundary: "@ + text@,
    }
}

impl CargoJsonError {
    /// What the error says.
    pub fn message(&self) -> (r: String)
        ensures
            r@ == cargo_error_text(*self),
    {
        let mut out: Vec<char> = Vec::new();
        match self {
            CargoJsonError::MissingBuildFinished => {
                push_text(&mut out, "Cargo JSON stream is empty or lacks build-finished");
            },
            CargoJsonError::PartialObject => {
                push_text(&mut out, "Cargo JSON object is incomplete at end of stream");
            },
            CargoJsonError::Malformed(text) => {
                push_text(&mut out, "Cargo JSON is malformed: ");
                push_text(&mut out, text.as_str());
            },
            CargoJsonError::Invalid(text) => {
                push_text(&mut out, "Cargo JSON violates the typed boundary: ");
                push_text(&mut out, text.as_str());
            },
        }
        assert(out@ =~= cargo_error_text(*self));
        string_of(out.as_slice())
    }
}

/// A message of a stream.
#[derive(Debug)]
pub enum CargoMessage {
    /// It is no JSON, or not what its reason says.
    Malformed(String),
    /// It has no reason.
    NoReason,
    /// A message of the compiler.
    Compiler(RustcDiagnostic),
    /// The build is over, with success or not.
    Finished(bool),
    /// A message of another kind.
    Other,
}

/// What a message says.
pub enum Message {
    Malformed(Seq<char>),
    NoReason,
    Compiler(RustcDiagnostic),
    Finished(bool),
    Other,
}

impl View for CargoMessage {
    type V = Message;

    open spec fn view(&self) -> Message {
        match *self {
            CargoMessage::Malformed(text) => Message::Malformed(text@),
            CargoMessage::NoReason => Message::NoReason,
            CargoMessage::Compiler(diagnostic) => Message::Compiler(diagnostic),
            CargoMessage::Finished(success) => Message::Finished(success),
            CargoMessage::Other => Message::Other,
        }
    }
}

/// What the messages say.
pub open spec fn messages(decoded: Seq<CargoMessage>) -> Seq<Message> {
    decoded.map_values(|message: CargoMessage| message@)
}

/// What a line that claims to be a message holds, read as each of the messages that count.
#[derive(Debug)]
pub struct ParsedLine {
    /// The diagnostic of a message of the compiler, or why the line holds none.
    pub compiler: Result<RustcDiagnostic, String>,
    /// Whether the build succeeded, or why the line does not say so.
    pub finished: Result<bool, String>,
}

/// The message that the line is: where it is JSON, its reason decides what is read in it.
pub open spec fn message_in(line: Seq<u8>, parsed: ParsedLine) -> Message {
    match json_fault(line) {
        Some(text) => Message::Malformed(text),
        None => match json_text_member(line, "reason"@) {
            None => Message::NoReason,
            Some(reason) => if reason == "compiler-message"@ {
                match parsed.compiler {
                    Ok(diagnostic) => Message::Compiler(diagnostic),
                    Err(text) => Message::Malformed(text@),
                }
            } else if reason == "build-finished"@ {
                match parsed.finished {
                    Ok(success) => Message::Finished(success),
                    Err(text) => Message::Malformed(text@),
                }
            } else {
                Message::Other
            },
        },
    }
}

/// The message that the line is.
pub fn cargo_message(line: &[u8], parsed: ParsedLine) -> (r: CargoMessage)
    ensures
        r@ == message_in(line@, parsed),
{
    match json_member_text(line, "reason") {
        Err(text) => CargoMessage::Malformed(text),
        Ok(None) => CargoMessage::NoReason,
        Ok(Some(reason)) => {
            if equal_texts(reason.as_str(), "compiler-message") {
                match parsed.compiler {
                    Ok(diagnostic) => CargoMessage::Compiler(diagnostic),
                    Err(text) => CargoMessage::Malformed(text),
                }
            } else if equal_texts(reason.as_str(), "build-finished") {
                match parsed.finished {
                    Ok(success) => CargoMessage::Finished(success),
                    Err(text) => CargoMessage::Malformed(text),
                }
            } else {
                CargoMessage::Other
            }
        },
    }
}

/// Why a stream is not one of Cargo's.
pub enum CargoFault {
    MissingBuildFinished,
    PartialObject,
    Malformed(Seq<char>),
    Invalid(Seq<char>),
}

/// The error says what the fault is.
pub open spec fn reports_cargo_fault(error: CargoJsonError, fault: CargoFault) -> bool {
    match fault {
        CargoFault::MissingBuildFinished => error is MissingBuildFinished,
        CargoFault::PartialObject => error is PartialObject,
        CargoFault::Malformed(message) => error matches CargoJsonError::Malformed(text) && text@ == message,
        CargoFault::Invalid(message) => error matches CargoJsonError::Invalid(text) && text@ == message,
    }
}

/// What a fault is said to be.
pub open spec fn cargo_fault_text(fault: CargoFault) -> Seq<char> {
    match fault {
        CargoFault::MissingBuildFinished => "Cargo JSON stream is empty or lacks build-finished"@,
        CargoFault::PartialObject => "Cargo JSON object is incomplete at end of stream"@,
        CargoFault::Malformed(text) => "Cargo JSON is malformed: "@ + text,
        CargoFault::Invalid(text) => "Cargo JSON violates the typed boundary: "@ + text,
    }
}

/// A position behind another one, or at it.
pub open spec fn span_ordered(span: RustcSpan) -> bool {
    span.line_start < span.line_end || span.line_start == span.line_end && span.column_start <= span.column_end
}

/// The span stands where positions can.
pub open spec fn span_fits(span: RustcSpan) -> bool {
    &&& span.file_name@.len() > 0
    &&& 0 < span.line_start <= u32::MAX
    &&& 0 < span.line_end <= u32::MAX
    &&& 0 < span.column_start <= u32::MAX
    &&& 0 < span.column_end <= u32::MAX
    &&& span_ordered(span)
}

/// What is wrong with a diagnostic.
pub open spec fn diagnostic_invalid(d: RustcDiagnostic) -> Option<Seq<char>> {
    if d.message@.len() == 0 {
        Some("diagnostic message is empty"@)
    } else if d.level@.len() == 0 {
        Some("diagnostic level is empty"@)
    } else if d.spans.len() > MAX_SPANS {
        Some("diagnostic span count exceeds 64"@)
    } else if d.children.len() > MAX_CHILDREN {
        Some("diagnostic child count exceeds 64"@)
    } else if d.code matches Some(code) && (code.code@.len() == 0 || code.code@.len() > MAX_CODE_CHARS) {
        Some("diagnostic code is outside the v1 bound"@)
    } else if exists|i: int| 0 <= i < d.spans.len() && !span_fits(#[trigger] d.spans@[i]) {
        Some("diagnostic span is outside the v1 position range"@)
    } else {
        None
    }
}

fn length_of(s: &str) -> (r: usize)
    ensures
        r == s@.len(),
{
    chars_of(s).len()
}

fn is_span_fit(span: &RustcSpan) -> (r: bool)
    ensures
        r == span_fits(*span),
{
    let max: u64 = u32::MAX as u64;
    length_of(span.file_name.as_str()) > 0 && span.line_start > 0 && span.line_end > 0 && span.column_start > 0
        && span.column_end > 0 && span.line_start <= max && span.line_end <= max && span.column_start <= max
        && span.column_end <= max && (span.line_start < span.line_end || span.line_start == span.line_end
        && span.column_start <= span.column_end)
}

/// Checks that a diagnostic keeps to its bounds.
pub fn validate_diagnostic(d: &RustcDiagnostic) -> (r: Result<(), CargoJsonError>)
    ensures
        match diagnostic_invalid(*d) {
            Some(message) => r matches Err(error) && reports_cargo_fault(error, CargoFault::Invalid(message)),
            None => r is Ok,
        },
{
    if length_of(d.message.as_str()) == 0 {
        return Err(CargoJsonError::Invalid("diagnostic message is empty".to_owned()));
    }
    if length_of(d.level.as_str()) == 0 {
        return Err(CargoJsonError::Invalid("diagnostic level is empty".to_owned()));
    }
    if d.spans.len() > MAX_SPANS {
        return Err(CargoJsonError::Invalid("diagnostic span count exceeds 64".to_owned()));
    }
    if d.children.len() > MAX_CHILDREN {
        return Err(CargoJsonError::Invalid("diagnostic child count exceeds 64".to_owned()));
    }
    if let Some(code) = &d.code {
        let n: usize = length_of(code.code.as_str());
        if n == 0 || n > MAX_CODE_CHARS {
            return Err(CargoJsonError::Invalid("diagnostic code is outside the v1 bound".to_owned()));
        }
    }
    let mut i: usize = 0;
    while i < d.spans.len()
        invariant
            i <= d.spans.len(),
            d.message@.len() > 0,
            d.level@.len() > 0,
            d.spans.len() <= MAX_SPANS,
            d.children.len() <= MAX_CHILDREN,
            d.code matches Some(code) ==> 0 < code.code@.len() <= MAX_CODE_CHARS,
            forall|k: int| 0 <= k < i ==> span_fits(#[trigger] d.spans@[k]),
        decreases d.spans.len() - i,
    {
        if !is_span_fit(&d.spans[i]) {
            assert(!span_fits(d.spans@[i as int]));
            return Err(CargoJsonError::Invalid("diagnostic span is outside the v1 position range".to_owned()));
        }
        i = i + 1;
    }
    Ok(())
}

/// The end of the line that begins at `k`: behind its line feed, or the end of the input.
pub open spec fn line_end(input: Seq<u8>, k: int) -> int
    decreases input.len() - k,
{
    if k < 0 || k >= input.len() {
        input.len() as int
    } else if input[k] == 10 {
        k + 1
    } else {
        line_end(input, k + 1)
    }
}

pub proof fn lemma_line_end(input: Seq<u8>, k: int)
    requires
        0 <= k < input.len(),
    ensures
        k < line_end(input, k) <= input.len(),
        line_end(input, k) < input.len() ==> input[line_end(input, k) - 1] == 10,
    decreases input.len() - k,
{
    reveal_with_fuel(line_end, 2);
    if input[k] != 10 && k + 1 < input.len() {
        lemma_line_end(input, k + 1);
    }
}

/// The line from `k` up to `end` without its line end.
pub open spec fn line_text(input: Seq<u8>, k: int, end: int) -> Seq<u8> {
    let stop = if input[end - 1] == 10 {
        end - 1
    } else {
        end
    };
    if stop > k && input[stop - 1] == 13 {
        input.subrange(k, stop - 1)
    } else {
        input.subrange(k, stop)
    }
}

/// The line claims to be a message: it begins with a brace.
pub open spec fn claims(line: Seq<u8>) -> bool {
    line.len() > 0 && line[0] == 123
}

/// The lines from `k` on that claim to be messages, whole ones only, up to the first that is not.
pub open spec fn claimed_from(input: Seq<u8>, k: int) -> Seq<Seq<u8>>
    decreases input.len() - k,
{
    if k < 0 || k >= input.len() {
        Seq::empty()
    } else {
        let end = line_end(input, k);
        if end <= k || end > input.len() {
            Seq::empty()
        } else {
            let line = line_text(input, k, end);
            if !claims(line) {
                claimed_from(input, end)
            } else if input[end - 1] != 10 {
                Seq::empty()
            } else {
                seq![line] + claimed_from(input, end)
            }
        }
    }
}

/// What the lines from `k` on come to, where the `m`-th message is the next one, so many diagnostics
/// were taken, and the build may be over.
pub open spec fn cargo_from(
    input: Seq<u8>,
    k: int,
    decoded: Seq<Message>,
    m: int,
    taken: Seq<RustcDiagnostic>,
    finished: Option<bool>,
) -> Result<(Seq<RustcDiagnostic>, bool), CargoFault>
    decreases input.len() - k,
{
    if k < 0 || k >= input.len() {
        match finished {
            Some(success) => Ok((taken, success)),
            None => Err(CargoFault::MissingBuildFinished),
        }
    } else {
        let end = line_end(input, k);
        if end <= k || end > input.len() {
            Err(CargoFault::MissingBuildFinished)
        } else if !claims(line_text(input, k, end)) {
            cargo_from(input, end, decoded, m, taken, finished)
        } else if input[end - 1] != 10 {
            Err(CargoFault::PartialObject)
        } else if finished is Some {
            Err(CargoFault::Invalid("structured message follows build-finished"@))
        } else if m < 0 || m >= decoded.len() {
            Err(CargoFault::Malformed("message was not decoded"@))
        } else {
            match decoded[m] {
                Message::Malformed(text) => Err(CargoFault::Malformed(text)),
                Message::NoReason => Err(CargoFault::Invalid("message reason is missing"@)),
                Message::Compiler(d) => match diagnostic_invalid(d) {
                    Some(message) => Err(CargoFault::Invalid(message)),
                    None => if taken.len() + 1 > MAX_DIAGNOSTICS {
                        Err(CargoFault::Invalid("diagnostic count exceeds 10000"@))
                    } else {
                        cargo_from(input, end, decoded, m + 1, taken.push(d), finished)
                    },
                },
                Message::Finished(success) => cargo_from(input, end, decoded, m + 1, taken, Some(success)),
                Message::Other => cargo_from(input, end, decoded, m + 1, taken, finished),
            }
        }
    }
}

/// What a stream comes to, with what its messages say.
pub open spec fn cargo_report(input: Seq<u8>, decoded: Seq<Message>) -> Result<
    (Seq<RustcDiagnostic>, bool),
    CargoFault,
> {
    cargo_from(input, 0, decoded, 0, Seq::empty(), None)
}

fn find_line_end(input: &[u8], k: usize) -> (r: usize)
    requires
        k < input.len(),
    ensures
        r == line_end(input@, k as int),
        k < r <= input.len(),
{
    let mut i: usize = k;
    while i < input.len()
        invariant
            k <= i <= input.len(),
            line_end(input@, k as int) == line_end(input@, i as int),
        decreases input.len() - i,
    {
        if input[i] == 10 {
            return i + 1;
        }
        i = i + 1;
    }
    input.len()
}

fn line_of(input: &[u8], k: usize, end: usize) -> (r: &[u8])
    requires
        k < end <= input.len(),
    ensures
        r@ == line_text(input@, k as int, end as int),
{
    let mut stop: usize = end;
    if input[end - 1] == 10 {
        stop = end - 1;
    }
    if stop > k && input[stop - 1] == 13 {
        stop = stop - 1;
    }
    vstd::slice::slice_subrange(input, k, stop)
}

/// The lines that claim to be messages and have to be decoded.
pub fn claimed_lines(input: &[u8]) -> (r: Vec<Vec<u8>>)
    ensures
        r.len() == claimed_from(input@, 0).len(),
        forall|i: int| 0 <= i < r.len() ==> (#[trigger] r@[i])@ == claimed_from(input@, 0)[i],
{
    let mut out: Vec<Vec<u8>> = Vec::new();
    let ghost whole = claimed_from(input@, 0);
    let mut k: usize = 0;
    while k < input.len()
        invariant
            k <= input.len(),
            whole == claimed_from(input@, 0),
            out.len() + claimed_from(input@, k as int).len() == whole.len(),
            forall|i: int| 0 <= i < out.len() ==> (#[trigger] out@[i])@ == whole[i],
            forall|i: int|
                0 <= i < claimed_from(input@, k as int).len() ==> #[trigger] claimed_from(input@, k as int)[i]
                    == whole[out.len() + i],
        decreases input.len() - k,
    {
        let end: usize = find_line_end(input, k);
        let line: &[u8] = line_of(input, k, end);
        let ghost here = claimed_from(input@, k as int);
        if line.len() > 0 && line[0] == 123 {
            if input[end - 1] != 10 {
                return out;
            }
            let ghost rest = claimed_from(input@, end as int);
            assert(here =~= seq![line@] + rest);
            assert(here[0] == line@);
            let mut copy: Vec<u8> = Vec::new();
            copy.extend_from_slice(line);
            assert(copy@ =~= line@);
            proof {
                assert forall|i: int| 0 <= i < rest.len() implies #[trigger] rest[i] == whole[out.len() + 1 + i] by {
                    assert(here[i + 1] == rest[i]);
                }
            }
            out.push(copy);
        }
        k = end;
    }
    out
}

/// What the messages of a stream say, where the lines that claim to be messages hold what `parsed`
/// says; a line that it does not reach is no message yet.
pub open spec fn messages_in(input: Seq<u8>, parsed: Seq<ParsedLine>) -> Seq<Message> {
    let claimed = claimed_from(input, 0);
    Seq::new(
        if parsed.len() < claimed.len() {
            parsed.len()
        } else {
            claimed.len()
        },
        |i: int| message_in(claimed[i], parsed[i]),
    )
}

/// The messages of a stream. `parsed` tells what the lines hold that `claimed_lines` gives.
pub fn decode_messages(input: &[u8], parsed: Vec<ParsedLine>) -> (r: Vec<CargoMessage>)
    ensures
        messages(r@) == messages_in(input@, parsed@),
{
    let lines: Vec<Vec<u8>> = claimed_lines(input);
    let ghost all = parsed@;
    let ghost claimed = claimed_from(input@, 0);
    let mut out: Vec<CargoMessage> = Vec::new();
    for line in it: parsed.into_iter()
        invariant
            it.seq() == all,
            lines.len() == claimed.len(),
            forall|i: int| 0 <= i < lines.len() ==> (#[trigger] lines@[i])@ == claimed[i],
            out.len() == (if it.index() < claimed.len() {
                it.index() as nat
            } else {
                claimed.len()
            }),
            forall|i: int| 0 <= i < out.len() ==> (#[trigger] out@[i])@ == message_in(claimed[i], all[i]),
    {
        let k: usize = out.len();
        if k < lines.len() {
            assert(lines@[k as int]@ == claimed[k as int]);
            out.push(cargo_message(lines[k].as_slice(), line));
        }
    }
    assert(messages(out@) =~= messages_in(input@, all));
    out
}

fn reversed(v: Vec<CargoMessage>) -> (r: Vec<CargoMessage>)
    ensures
        r@ == v@.reverse(),
{
    let mut from: Vec<CargoMessage> = v;
    let mut out: Vec<CargoMessage> = Vec::new();
    let ghost all = from@;
    while from.len() > 0
        invariant
            from@ == all.take(from.len() as int),
            from.len() <= all.len(),
            out@ == all.skip(from.len() as int).reverse(),
        decreases from.len(),
    {
        let ghost n = from.len() as int;
        match from.pop() {
            Some(last) => {
                out.push(last);
                assert(out@ =~= all.skip(n - 1).reverse());
            },
            None => {},
        }
    }
    assert(all.skip(0) =~= all);
    out
}

/// The result is what the stream comes to.
pub open spec fn gives_report(
    r: Result<CargoReport, CargoJsonError>,
    report: Result<(Seq<RustcDiagnostic>, bool), CargoFault>,
) -> bool {
    match report {
        Ok((diagnostics, success)) => r matches Ok(given) && given.diagnostics@ == diagnostics && given.success == success,
        Err(fault) => r matches Err(error) && reports_cargo_fault(error, fault),
    }
}

/// Takes Cargo's stream of one JSON object to a line. Lines that do not begin with a brace are not
/// Cargo's and are passed over; one that does must be whole and valid. `decoded` holds its
/// messages, as `decode_messages` gives them.
pub fn parse_cargo_jsonl(input: &[u8], decoded: Vec<CargoMessage>) -> (r: Result<CargoReport, CargoJsonError>)
    ensures
        gives_report(r, cargo_report(input@, messages(decoded@))),
{
    let ghost all = decoded@;
    let ghost said = messages(decoded@);
    let mut left: Vec<CargoMessage> = reversed(decoded);
    let mut diagnostics: Vec<RustcDiagnostic> = Vec::new();
    let mut finished: Option<bool> = None;
    let mut k: usize = 0;
    let ghost mut m: int = 0;
    assert(all.skip(0) =~= all);
    assert(diagnostics@ =~= Seq::empty());
    while k < input.len()
        invariant
            k <= input.len(),
            0 <= m <= all.len(),
            all == decoded@,
            left@ == all.skip(m).reverse(),
            said == messages(all),
            cargo_report(input@, said) == cargo_from(input@, k as int, said, m, diagnostics@, finished),
        decreases input.len() - k,
    {
        let end: usize = find_line_end(input, k);
        let line: &[u8] = line_of(input, k, end);
        if line.len() > 0 && line[0] == 123 {
            if input[end - 1] != 10 {
                return Err(CargoJsonError::PartialObject);
            }
            if finished.is_some() {
                return Err(CargoJsonError::Invalid("structured message follows build-finished".to_owned()));
            }
            match left.pop() {
                None => {
                    assert(all.skip(m).reverse().len() == all.len() - m);
                    return Err(CargoJsonError::Malformed("message was not decoded".to_owned()));
                },
                Some(message) => {
                    proof {
                        assert(message == all[m] && message@ == said[m]);
                        assert(left@ =~= all.skip(m + 1).reverse());
                        m = m + 1;
                    }
                    match message {
                        CargoMessage::Malformed(text) => {
                            return Err(CargoJsonError::Malformed(text));
                        },
                        CargoMessage::NoReason => {
                            return Err(CargoJsonError::Invalid("message reason is missing".to_owned()));
                        },
                        CargoMessage::Compiler(d) => {
                            match validate_diagnostic(&d) {
                                Err(error) => {
                                    return Err(error);
                                },
                                Ok(()) => {},
                            }
                            if diagnostics.len() >= MAX_DIAGNOSTICS {
                                return Err(CargoJsonError::Invalid("diagnostic count exceeds 10000".to_owned()));
                            }
                            diagnostics.push(d);
                        },
                        CargoMessage::Finished(success) => {
                            finished = Some(success);
                        },
                        CargoMessage::Other => {},
                    }
                },
            }
        }
        k = end;
    }
    match finished {
        Some(success) => Ok(CargoReport { diagnostics, success }),
        None => Err(CargoJsonError::MissingBuildFinished),
    }
}

/// Takes Cargo's stream, where `parsed` tells what the lines hold that `claimed_lines` gives.
pub fn parse_cargo_lines(input: &[u8], parsed: Vec<ParsedLine>) -> (r: Result<CargoReport, CargoJsonError>)
    ensures
        gives_report(r, cargo_report(input@, messages_in(input@, parsed@))),
{
    parse_cargo_jsonl(input, decode_messages(input, parsed))
}

/// A report holds at most so many diagnostics, each within its bounds.
pub proof fn law_reports_are_bounded(
    input: Seq<u8>,
    k: int,
    decoded: Seq<Message>,
    m: int,
    taken: Seq<RustcDiagnostic>,
    finished: Option<bool>,
)
    requires
        0 <= k <= input.len(),
        taken.len() <= MAX_DIAGNOSTICS,
        forall|i: int| 0 <= i < taken.len() ==> diagnostic_invalid(#[trigger] taken[i]) is None,
    ensures
        cargo_from(input, k, decoded, m, taken, finished) matches Ok((diagnostics, _)) ==> diagnostics.len()
            <= MAX_DIAGNOSTICS && forall|i: int|
            0 <= i < diagnostics.len() ==> diagnostic_invalid(#[trigger] diagnostics[i]) is None,
    decreases input.len() - k,
{
    if k < input.len() {
        lemma_line_end(input, k);
        let end = line_end(input, k);
        if !claims(line_text(input, k, end)) {
            law_reports_are_bounded(input, end, decoded, m, taken, finished);
        } else if 0 <= m < decoded.len() {
            match decoded[m] {
                Message::Compiler(d) => {
                    if diagnostic_invalid(d) is None && taken.len() + 1 <= MAX_DIAGNOSTICS {
                        law_reports_are_bounded(input, end, decoded, m + 1, taken.push(d), finished);
                    }
                },
                Message::Finished(success) => law_reports_are_bounded(
                    input,
                    end,
                    decoded,
                    m + 1,
                    taken,
                    Some(success),
                ),
                Message::Other => law_reports_are_bounded(input, end, decoded, m + 1, taken, finished),
                _ => {},
            }
        }
    }
}

/// A line starts at `k`.
pub open spec fn line_starts(input: Seq<u8>, k: int) -> bool {
    k == 0 || 0 < k <= input.len() && input[k - 1] == 10
}

/// Whole lines, none of which begins with a brace.
pub open spec fn is_noise(lines: Seq<u8>) -> bool {
    &&& line_starts(lines, lines.len() as int)
    &&& forall|k: int| 0 <= k < lines.len() && #[trigger] line_starts(lines, k) ==> lines[k] != 123
}

proof fn lemma_line_end_shifts(a: Seq<u8>, i: int, b: Seq<u8>, j: int)
    requires
        0 <= i <= a.len(),
        0 <= j <= b.len(),
        a.skip(i) == b.skip(j),
    ensures
        line_end(a, i) - i == line_end(b, j) - j,
    decreases a.len() - i,
{
    assert(a.skip(i).len() == a.len() - i && b.skip(j).len() == b.len() - j);
    if i < a.len() {
        assert(a.skip(i)[0] == a[i] && b.skip(j)[0] == b[j]);
        assert(a.skip(i + 1) =~= a.skip(i).skip(1));
        assert(b.skip(j + 1) =~= b.skip(j).skip(1));
        lemma_line_end_shifts(a, i + 1, b, j + 1);
    }
}

/// What lines come to depends on them alone, not on what stands before them.
proof fn lemma_same_rest(
    a: Seq<u8>,
    i: int,
    b: Seq<u8>,
    j: int,
    decoded: Seq<Message>,
    m: int,
    taken: Seq<RustcDiagnostic>,
    finished: Option<bool>,
)
    requires
        0 <= i <= a.len(),
        0 <= j <= b.len(),
        a.skip(i) == b.skip(j),
    ensures
        cargo_from(a, i, decoded, m, taken, finished) == cargo_from(b, j, decoded, m, taken, finished),
    decreases a.len() - i,
{
    assert(a.skip(i).len() == a.len() - i && b.skip(j).len() == b.len() - j);
    if i < a.len() {
        lemma_line_end(a, i);
        lemma_line_end_shifts(a, i, b, j);
        let end = line_end(a, i);
        let other = line_end(b, j);
        assert forall|n: int| i <= n < a.len() implies #[trigger] a[n] == b[n - i + j] by {
            assert(a.skip(i)[n - i] == a[n] && b.skip(j)[n - i] == b[n - i + j]);
        }
        assert(a[end - 1] == b[other - 1]);
        if end - 1 > i {
            assert(a[end - 2] == b[other - 2]);
        }
        assert(line_text(a, i, end) =~= line_text(b, j, other));
        assert(a.skip(end) =~= a.skip(i).skip(end - i));
        assert(b.skip(other) =~= b.skip(j).skip(other - j));
        lemma_same_rest(a, end, b, other, decoded, m, taken, finished);
        if 0 <= m < decoded.len() {
            match decoded[m] {
                Message::Compiler(d) => lemma_same_rest(a, end, b, other, decoded, m + 1, taken.push(d), finished),
                Message::Finished(success) => lemma_same_rest(a, end, b, other, decoded, m + 1, taken, Some(success)),
                _ => lemma_same_rest(a, end, b, other, decoded, m + 1, taken, finished),
            }
        }
    }
}

/// A line of a text that ends with a line ends in it, whatever stands behind the text.
proof fn lemma_line_end_within(text: Seq<u8>, more: Seq<u8>, k: int)
    requires
        0 <= k < text.len(),
        text.last() == 10,
    ensures
        line_end(text + more, k) == line_end(text, k),
        k < line_end(text, k) <= text.len(),
    decreases text.len() - k,
{
    assert((text + more)[k] == text[k]);
    if text[k] != 10 {
        lemma_line_end_within(text, more, k + 1);
    }
}

proof fn lemma_noise_is_passed_over(
    before: Seq<u8>,
    noise: Seq<u8>,
    after: Seq<u8>,
    n: int,
    decoded: Seq<Message>,
    m: int,
    taken: Seq<RustcDiagnostic>,
    finished: Option<bool>,
)
    requires
        is_noise(noise),
        0 <= n <= noise.len(),
        line_starts(noise, n),
    ensures
        ({
            let input = before + noise + after;
            cargo_from(input, before.len() + n, decoded, m, taken, finished) == cargo_from(
                input,
                (before.len() + noise.len()) as int,
                decoded,
                m,
                taken,
                finished,
            )
        }),
    decreases noise.len() - n,
{
    if n < noise.len() {
        let input = before + noise + after;
        let k = before.len() + n;
        lemma_line_end_within(noise, after, n);
        assert(input.skip(k) =~= (noise + after).skip(n));
        lemma_line_end_shifts(input, k, noise + after, n);
        let end = line_end(input, k);
        let next = line_end(noise, n);
        assert(end == before.len() + next);
        lemma_line_end(noise, n);
        assert(noise[next - 1] == 10);
        assert(input[k] == noise[n]);
        assert(line_text(input, k, end).len() > 0 ==> line_text(input, k, end)[0] == noise[n]);
        assert(!claims(line_text(input, k, end)));
        lemma_noise_is_passed_over(before, noise, after, next, decoded, m, taken, finished);
    }
}

proof fn lemma_noise_between(
    before: Seq<u8>,
    noise: Seq<u8>,
    after: Seq<u8>,
    k: int,
    decoded: Seq<Message>,
    m: int,
    taken: Seq<RustcDiagnostic>,
    finished: Option<bool>,
)
    requires
        is_noise(noise),
        line_starts(before, before.len() as int),
        0 <= k <= before.len(),
    ensures
        cargo_from(before + noise + after, k, decoded, m, taken, finished) == cargo_from(
            before + after,
            k,
            decoded,
            m,
            taken,
            finished,
        ),
    decreases before.len() - k,
{
    let long = before + noise + after;
    let short = before + after;
    if k == before.len() {
        lemma_noise_is_passed_over(before, noise, after, 0, decoded, m, taken, finished);
        let behind = (before.len() + noise.len()) as int;
        assert(long.skip(behind) =~= after);
        assert(short.skip(k) =~= after);
        lemma_same_rest(long, behind, short, k, decoded, m, taken, finished);
    } else {
        assert(long =~= before + (noise + after));
        lemma_line_end_within(before, noise + after, k);
        lemma_line_end_within(before, after, k);
        let end = line_end(before, k);
        assert forall|n: int| 0 <= n < before.len() implies long[n] == before[n] && short[n] == before[n] by {}
        assert(long[end - 1] == short[end - 1]);
        assert(line_text(long, k, end) =~= line_text(short, k, end));
        lemma_noise_between(before, noise, after, end, decoded, m, taken, finished);
        if 0 <= m < decoded.len() {
            match decoded[m] {
                Message::Compiler(d) => lemma_noise_between(
                    before,
                    noise,
                    after,
                    end,
                    decoded,
                    m + 1,
                    taken.push(d),
                    finished,
                ),
                Message::Finished(success) => lemma_noise_between(
                    before,
                    noise,
                    after,
                    end,
                    decoded,
                    m + 1,
                    taken,
                    Some(success),
                ),
                _ => lemma_noise_between(before, noise, after, end, decoded, m + 1, taken, finished),
            }
        }
    }
}

/// Whole lines that do not begin with a brace do not count: put in where a line starts, they leave
/// what a stream comes to as it is.
pub proof fn law_noise_is_passed_over(before: Seq<u8>, noise: Seq<u8>, after: Seq<u8>, decoded: Seq<Message>)
    requires
        line_starts(before, before.len() as int),
        is_noise(noise),
    ensures
        cargo_report(before + noise + after, decoded) == cargo_report(before + after, decoded),
{
    lemma_noise_between(before, noise, after, 0, decoded, 0, Seq::empty(), None);
}

} // verus!
