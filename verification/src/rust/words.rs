//! Versions, levels and messages of Cargo, Clippy and the compiler.
use super::cargo_json::{RustcChild, RustcDiagnostic};
use crate::model::Severity;
use crate::order::equal_texts;
use crate::process::capture::{IncompleteReason, ProcessOutcome, ProcessState};
use crate::text::{
    ascii_alphanumeric, chars_of, is_ascii_alphanumeric, push_text, string_of, trim, trimmed, trimmed_start,
    white_space,
};
use crate::utf8::{invalid_text_words, text_from};
use vstd::prelude::*;
use vstd::utf8::*;

verus! {

/// The longest message, in characters.
pub const MAX_MESSAGE_CHARS: usize = 8_192;

/// The text, of at most `maximum` characters; where it is cut, the last of them says so.
pub open spec fn truncated(s: Seq<char>, maximum: nat) -> Seq<char> {
    if s.len() <= maximum {
        s
    } else if maximum == 0 {
        seq!['…']
    } else {
        s.take(maximum - 1).push('…')
    }
}

/// The text, of at most `maximum` characters.
pub fn truncate_chars(value: &str, maximum: usize) -> (r: String)
    ensures
        r@ == truncated(value@, maximum as nat),
{
    let mut s: Vec<char> = chars_of(value);
    if s.len() > maximum {
        s.truncate(if maximum == 0 {
            0
        } else {
            maximum - 1
        });
        s.push('…');
        assert(s@ =~= truncated(value@, maximum as nat));
    }
    string_of(s.as_slice())
}

/// The severity that the compiler's level stands for.
pub open spec fn severity_of(level: Seq<char>) -> Option<Severity> {
    if level == "error"@ || level == "ice"@ {
        Some(Severity::Error)
    } else if level == "warning"@ {
        Some(Severity::Warning)
    } else if level == "note"@ || level == "help"@ || level == "failure-note"@ {
        Some(Severity::Info)
    } else {
        None
    }
}

/// The severity that the compiler's level stands for.
pub fn severity(level: &str) -> (r: Option<Severity>)
    ensures
        r == severity_of(level@),
{
    if equal_texts(level, "error") || equal_texts(level, "ice") {
        Some(Severity::Error)
    } else if equal_texts(level, "warning") {
        Some(Severity::Warning)
    } else if equal_texts(level, "note") || equal_texts(level, "help") || equal_texts(level, "failure-note") {
        Some(Severity::Info)
    } else {
        None
    }
}

/// The message, followed by the level and the message of each of the first `n` children.
pub open spec fn with_children(message: Seq<char>, children: Seq<RustcChild>, n: nat) -> Seq<char>
    decreases n,
{
    if n == 0 || n > children.len() {
        message
    } else {
        with_children(message, children, (n - 1) as nat) + "\n"@ + children[n - 1].level@ + ": "@ + children[n
            - 1].message@
    }
}

/// What a diagnostic says: as the compiler rendered it, or else its message and those of its
/// children.
pub open spec fn message_of(d: RustcDiagnostic) -> Seq<char> {
    let rendered = match d.rendered {
        Some(text) => trimmed(text@),
        None => Seq::empty(),
    };
    truncated(
        if rendered.len() > 0 {
            rendered
        } else {
            trimmed(with_children(d.message@, d.children@, d.children.len() as nat))
        },
        MAX_MESSAGE_CHARS as nat,
    )
}

/// What a diagnostic says.
pub fn diagnostic_message(d: &RustcDiagnostic) -> (r: String)
    ensures
        r@ == message_of(*d),
{
    if let Some(text) = &d.rendered {
        let rendered: Vec<char> = trim(&chars_of(text.as_str()));
        if rendered.len() > 0 {
            let whole: String = string_of(rendered.as_slice());
            return truncate_chars(whole.as_str(), MAX_MESSAGE_CHARS);
        }
    }
    let mut out: Vec<char> = chars_of(d.message.as_str());
    let mut i: usize = 0;
    while i < d.children.len()
        invariant
            i <= d.children.len(),
            out@ == with_children(d.message@, d.children@, i as nat),
        decreases d.children.len() - i,
    {
        push_text(&mut out, "\n");
        push_text(&mut out, d.children[i].level.as_str());
        push_text(&mut out, ": ");
        push_text(&mut out, d.children[i].message.as_str());
        i = i + 1;
    }
    let whole: String = string_of(trim(&out).as_slice());
    truncate_chars(whole.as_str(), MAX_MESSAGE_CHARS)
}

/// How many characters from the beginning are no white space.
pub open spec fn word_length(s: Seq<char>) -> nat
    decreases s.len(),
{
    if s.len() == 0 || white_space(s[0]) {
        0
    } else {
        1 + word_length(s.drop_first())
    }
}

/// The first word of the text; empty, where there is none.
pub open spec fn first_word(s: Seq<char>) -> Seq<char> {
    let t = trimmed_start(s);
    t.take(word_length(t) as int)
}

/// What stands behind the first word of the text.
pub open spec fn behind_first_word(s: Seq<char>) -> Seq<char> {
    let t = trimmed_start(s);
    t.skip(word_length(t) as int)
}

/// The text is made of what versions are made of.
pub open spec fn version_chars(s: Seq<char>) -> bool {
    forall|i: int|
        0 <= i < s.len() ==> ascii_alphanumeric(#[trigger] s[i]) || s[i] == '.' || s[i] == '-' || s[i] == '+'
}

/// The version that the output names; none, where its first word is not the name, or its second no
/// version.
pub open spec fn version_word(s: Seq<char>, name: Seq<char>) -> Option<Seq<char>> {
    let version = first_word(behind_first_word(s));
    if first_word(s) != name || version.len() == 0 || version.len() > 64 || !version_chars(version) {
        None
    } else {
        Some(version)
    }
}

/// The version that the output of a probe names, or what is wrong with the output.
pub open spec fn version_of(bytes: Seq<u8>, name: Seq<char>) -> Option<Seq<char>> {
    if valid_utf8(bytes) {
        version_word(decode_utf8(bytes), name)
    } else {
        None
    }
}

proof fn lemma_word_length(s: Seq<char>)
    ensures
        word_length(s) <= s.len(),
        word_length(s) < s.len() ==> white_space(s[word_length(s) as int]),
        forall|i: int| 0 <= i < word_length(s) ==> !white_space(#[trigger] s[i]),
    decreases s.len(),
{
    if s.len() > 0 && !white_space(s[0]) {
        let rest = s.drop_first();
        lemma_word_length(rest);
        assert forall|i: int| 0 <= i < word_length(s) implies !white_space(#[trigger] s[i]) by {
            if i > 0 {
                assert(s[i] == rest[i - 1]);
            }
        }
    }
}

/// Takes the first word off the text: the word, and what stands behind it.
fn take_word(s: &Vec<char>) -> (r: (Vec<char>, Vec<char>))
    ensures
        r.0@ == first_word(s@),
        r.1@ == behind_first_word(s@),
{
    let mut from: usize = 0;
    assert(s@.skip(0) =~= s@);
    while from < s.len() && s[from].is_whitespace()
        invariant
            from <= s.len(),
            trimmed_start(s@) == trimmed_start(s@.skip(from as int)),
        decreases s.len() - from,
    {
        assert(s@.skip(from as int)[0] == s@[from as int]);
        assert(s@.skip(from as int).drop_first() =~= s@.skip(from + 1));
        from = from + 1;
    }
    proof {
        if from < s.len() {
            assert(s@.skip(from as int)[0] == s@[from as int]);
        }
    }
    let ghost t = s@.skip(from as int);
    assert(trimmed_start(s@) == t);
    let mut word: Vec<char> = Vec::new();
    let mut i: usize = from;
    while i < s.len() && !s[i].is_whitespace()
        invariant
            from <= i <= s.len(),
            t == s@.skip(from as int),
            word@ == t.take(i - from),
            forall|k: int| 0 <= k < i - from ==> !white_space(#[trigger] t[k]),
        decreases s.len() - i,
    {
        assert(t[i - from] == s@[i as int]);
        word.push(s[i]);
        assert(t.take(i + 1 - from) =~= t.take(i - from).push(t[i - from]));
        i = i + 1;
    }
    proof {
        lemma_word_length(t);
        if i < s.len() {
            assert(t[i - from] == s@[i as int]);
        }
        assert(word_length(t) == i - from) by {
            if word_length(t) < i - from {
                assert(!white_space(t[word_length(t) as int]));
            }
            if word_length(t) > i - from {
                assert(!white_space(t[i - from]));
            }
        }
    }
    let mut rest: Vec<char> = Vec::new();
    let ghost start = i as int;
    while i < s.len()
        invariant
            start <= i <= s.len(),
            from <= start,
            t == s@.skip(from as int),
            rest@ == t.skip(start - from).take(i - start),
        decreases s.len() - i,
    {
        rest.push(s[i]);
        assert(t.skip(start - from).take(i + 1 - start) =~= t.skip(start - from).take(i - start).push(s@[i as int]));
        i = i + 1;
    }
    assert(t.skip(start - from).take(s@.len() - start) =~= t.skip(start - from));
    (word, rest)
}

fn named(name: &str, text: &str) -> (r: String)
    ensures
        r@ == name@ + text@,
{
    let mut out: Vec<char> = chars_of(name);
    push_text(&mut out, text);
    string_of(out.as_slice())
}

/// What is wrong with the output of a probe that names no version.
pub open spec fn no_version_words(bytes: Seq<u8>, expected_name: Seq<char>) -> Seq<char> {
    if valid_utf8(bytes) {
        expected_name + " version output is malformed"@
    } else {
        expected_name + " version is not UTF-8: "@ + invalid_text_words(bytes)
    }
}

/// The version that the output of a probe names, or what is wrong with the output.
pub fn parse_version(bytes: &[u8], expected_name: &str) -> (r: Result<String, String>)
    ensures
        match version_of(bytes@, expected_name@) {
            Some(version) => r matches Ok(text) && text@ == version,
            None => r matches Err(message) && message@ == no_version_words(bytes@, expected_name@),
        },
{
    match text_from(bytes) {
        Err(invalid) => {
            let mut out: Vec<char> = chars_of(expected_name);
            push_text(&mut out, " version is not UTF-8: ");
            push_text(&mut out, invalid.message.as_str());
            assert(out@ =~= no_version_words(bytes@, expected_name@));
            Err(string_of(out.as_slice()))
        },
        Ok(text) => {
            let (name, rest) = take_word(&chars_of(text.as_str()));
            let (version, _) = take_word(&rest);
            let mut fits: bool = version.len() > 0 && version.len() <= 64;
            let mut i: usize = 0;
            while i < version.len()
                invariant
                    i <= version.len(),
                    fits == (version.len() > 0 && version.len() <= 64 && forall|k: int|
                        0 <= k < i ==> ascii_alphanumeric(#[trigger] version@[k]) || version@[k] == '.' || version@[k]
                            == '-' || version@[k] == '+'),
                decreases version.len() - i,
            {
                let c: char = version[i];
                fits = fits && (is_ascii_alphanumeric(c) || c == '.' || c == '-' || c == '+');
                i = i + 1;
            }
            let found: String = string_of(name.as_slice());
            if !equal_texts(found.as_str(), expected_name) || !fits {
                return Err(named(expected_name, " version output is malformed"));
            }
            Ok(string_of(version.as_slice()))
        },
    }
}

/// The version that a probe found, or why it found none.
pub fn completed_probe(outcome: &ProcessOutcome, expected_name: &str) -> (r: Result<String, String>)
    ensures
        if outcome.state != ProcessState::Complete || outcome.exit_code != Some(0u8) {
            r matches Err(message) && message@ == expected_name@ + " version probe did not complete successfully"@
        } else {
            match version_of(outcome.stdout.bytes@, expected_name@) {
                Some(version) => r matches Ok(text) && text@ == version,
                None => r matches Err(message) && message@ == no_version_words(outcome.stdout.bytes@, expected_name@),
            }
        },
{
    let succeeded: bool = match outcome.exit_code {
        Some(code) => code == 0,
        None => false,
    };
    if outcome.state != ProcessState::Complete || !succeeded {
        return Err(named(expected_name, " version probe did not complete successfully"));
    }
    parse_version(outcome.stdout.bytes.as_slice(), expected_name)
}

/// What is said of a Cargo run that did not complete.
pub open spec fn incomplete_words(state: ProcessState) -> Seq<char> {
    match state {
        ProcessState::Complete => "Cargo completed"@,
        ProcessState::Incomplete(IncompleteReason::Timeout) => "Cargo timed out"@,
        ProcessState::Incomplete(IncompleteReason::StdoutLimitExceeded) => "Cargo stdout exceeded the request limit"@,
        ProcessState::Incomplete(IncompleteReason::StderrLimitExceeded) => "Cargo stderr exceeded the request limit"@,
        ProcessState::Incomplete(IncompleteReason::UnrepresentableExitCode) =>
            "Cargo exit code is outside the protocol range"@,
        ProcessState::Incomplete(_) => "Cargo terminated without an exit code"@,
    }
}

/// What is said of a Cargo run that did not complete.
pub fn incomplete_message(state: ProcessState) -> (r: String)
    ensures
        r@ == incomplete_words(state),
{
    match state {
        ProcessState::Complete => "Cargo completed".to_owned(),
        ProcessState::Incomplete(reason) => match reason {
            IncompleteReason::Timeout => "Cargo timed out".to_owned(),
            IncompleteReason::StdoutLimitExceeded => "Cargo stdout exceeded the request limit".to_owned(),
            IncompleteReason::StderrLimitExceeded => "Cargo stderr exceeded the request limit".to_owned(),
            IncompleteReason::UnrepresentableExitCode => "Cargo exit code is outside the protocol range".to_owned(),
            _ => "Cargo terminated without an exit code".to_owned(),
        },
    }
}

} // verus!
