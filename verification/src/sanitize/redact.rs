//! Redaction of secrets, tokens and absolute paths in a neutralized text.
use super::bounded::{BoundedText, SanitizeError, SanitizedText};
use super::bounds::{
    lemma_absolute_path, lemma_authorization_secret, lemma_json_secret, lemma_quoted_secret, lemma_token_shape,
    lemma_unquoted_secret,
};
use super::marks::{unsafe_kind, MarkedText, Neutral};
use super::paths::{
    absolute_path, absolute_path_end, advance_double_quote_context, double_quote_after, web_address, web_span,
    web_url_span, WebUrlSpan,
};
use super::secrets::{
    authorization_secret, authorization_secret_at, json_quoted_secret_at, json_secret, quoted_secret,
    quoted_secret_span, unquoted_secret, unquoted_secret_span,
};
use super::tokens::{token_shape, token_shape_at};
use crate::text::{chars_of, lemma_utf8_concat, utf8_len};
use vstd::prelude::*;

verus! {

/// What a text is, and so what may be redacted in it.
#[derive(Clone, Copy, Debug, PartialEq, Eq, Structural)]
pub enum SanitizationMode {
    /// Free text: secrets, tokens and absolute paths go.
    ExternalText,
    /// An identifier: values of named secrets go, whatever it looks like stays.
    Identifier,
    /// A path in a repository: values of named secrets and tokens with a known beginning go.
    RepositoryPath,
}

/// What looks like a token at `i`, in the mode.
pub open spec fn mode_token(t: Neutral, mode: SanitizationMode, i: int) -> Option<(int, int)> {
    let end = match mode {
        SanitizationMode::ExternalText => token_shape(t.text, i, true),
        SanitizationMode::RepositoryPath => token_shape(t.text, i, false),
        SanitizationMode::Identifier => None,
    };
    match end {
        Some(end) => Some((i, end)),
        None => None,
    }
}

/// The secret that is found at `i`: where it starts and ends.
#[verifier::opaque]
pub open spec fn secret_span(t: Neutral, mode: SanitizationMode, i: int) -> Option<(int, int)> {
    if unquoted_secret(t, false, i) is Some {
        unquoted_secret(t, false, i)
    } else if quoted_secret(t, false, i) is Some {
        quoted_secret(t, false, i)
    } else if json_secret(t, i) is Some {
        json_secret(t, i)
    } else if authorization_secret(t, i) is Some {
        authorization_secret(t, i)
    } else {
        mode_token(t, mode, i)
    }
}

/// A redacted text, and how many texts were looked at as possible web addresses.
pub struct Redaction {
    pub text: Seq<char>,
    pub url_checks: nat,
}

/// Where a redaction has got to: the place, up to where a web address is known to go, up to where
/// web addresses have been looked for, and whether a double quote is open.
pub struct Progress {
    pub at: int,
    pub web_until: int,
    pub checked_until: int,
    pub double_quote: Option<bool>,
}

/// The web address that is looked at at the present place, if any.
pub open spec fn address_here(t: Neutral, p: Progress) -> Option<int> {
    if p.at >= p.checked_until {
        web_span(t, p.at)
    } else {
        None
    }
}

/// Up to where a web address is known to go, once the present place has been looked at.
pub open spec fn web_until(t: Neutral, p: Progress) -> int {
    match address_here(t, p) {
        Some(end) => if web_address(t.text.subrange(p.at, end)) {
            end
        } else {
            p.web_until
        },
        None => p.web_until,
    }
}

/// The absolute path at the present place. There is none inside a web address.
pub open spec fn path_here(t: Neutral, mode: SanitizationMode, p: Progress) -> Option<int> {
    if mode == SanitizationMode::ExternalText && p.at >= web_until(t, p) {
        absolute_path(t, p.at, p.double_quote)
    } else {
        None
    }
}

/// What is written for the present place, and where the next one is.
pub open spec fn piece_here(t: Neutral, mode: SanitizationMode, p: Progress) -> (Seq<char>, int) {
    match secret_span(t, mode, p.at) {
        Some((start, end)) => (t.text.subrange(p.at, start) + "[REDACTED_SECRET]"@, end),
        None => match path_here(t, mode, p) {
            Some(end) => ("[REDACTED_PATH]"@, end),
            None => (seq![t.text[p.at]], p.at + 1),
        },
    }
}

/// The progress after the present place.
pub open spec fn next_progress(t: Neutral, mode: SanitizationMode, p: Progress) -> Progress {
    let next = piece_here(t, mode, p).1;
    Progress {
        at: next,
        web_until: web_until(t, p),
        checked_until: match address_here(t, p) {
            Some(end) => end,
            None => p.checked_until,
        },
        double_quote: double_quote_after(t.text, p.at, next, p.double_quote),
    }
}

/// The redacted rest of the text, from the present place on.
pub open spec fn redacted_from(t: Neutral, mode: SanitizationMode, p: Progress) -> Redaction
    decreases t.text.len() - p.at,
    when t.wf()
{
    proof {
        lemma_piece_here(t, mode, p);
    }
    if p.at < 0 || p.at >= t.text.len() {
        Redaction { text: Seq::empty(), url_checks: 0 }
    } else {
        let rest = redacted_from(t, mode, next_progress(t, mode, p));
        Redaction {
            text: piece_here(t, mode, p).0 + rest.text,
            url_checks: rest.url_checks + if address_here(t, p) is Some {
                1nat
            } else {
                0
            },
        }
    }
}

/// A redaction at its beginning.
pub open spec fn at_start() -> Progress {
    Progress { at: 0, web_until: 0, checked_until: 0, double_quote: None }
}

/// The redacted text.
pub open spec fn redacted(t: Neutral, mode: SanitizationMode) -> Redaction {
    redacted_from(t, mode, at_start())
}

pub proof fn lemma_secret_span(t: Neutral, mode: SanitizationMode, i: int)
    requires
        t.wf(),
        0 <= i <= t.text.len(),
    ensures
        secret_span(t, mode, i) matches Some((start, end)) ==> i <= start < end <= t.text.len(),
{
    reveal(secret_span);
    lemma_unquoted_secret(t, false, i);
    lemma_quoted_secret(t, false, i);
    lemma_json_secret(t, i);
    lemma_authorization_secret(t, i);
    lemma_token_shape(t.text, i, true);
    lemma_token_shape(t.text, i, false);
}

pub proof fn lemma_piece_here(t: Neutral, mode: SanitizationMode, p: Progress)
    requires
        t.wf(),
    ensures
        0 <= p.at < t.text.len() ==> p.at < piece_here(t, mode, p).1 <= t.text.len(),
{
    if 0 <= p.at < t.text.len() {
        lemma_secret_span(t, mode, p.at);
        lemma_absolute_path(t, p.at, p.double_quote);
    }
}

proof fn lemma_redaction_marks_safe()
    ensures
        forall|k: int| 0 <= k < "[REDACTED_SECRET]"@.len() ==> unsafe_kind(#[trigger] "[REDACTED_SECRET]"@[k]) is None,
        forall|k: int| 0 <= k < "[REDACTED_PATH]"@.len() ==> unsafe_kind(#[trigger] "[REDACTED_PATH]"@[k]) is None,
{
    reveal_strlit("[REDACTED_SECRET]");
    reveal_strlit("[REDACTED_PATH]");
}

/// Redaction brings no unsafe character into a text that has none.
pub proof fn law_redaction_keeps_text_safe(t: Neutral, mode: SanitizationMode, p: Progress)
    requires
        t.wf(),
        forall|k: int| 0 <= k < t.text.len() ==> unsafe_kind(#[trigger] t.text[k]) is None,
    ensures
        forall|k: int|
            0 <= k < redacted_from(t, mode, p).text.len() ==> unsafe_kind(#[trigger] redacted_from(t, mode, p).text[k]) is None,
    decreases t.text.len() - p.at,
{
    if 0 <= p.at < t.text.len() {
        lemma_piece_here(t, mode, p);
        lemma_secret_span(t, mode, p.at);
        lemma_redaction_marks_safe();
        let next = next_progress(t, mode, p);
        law_redaction_keeps_text_safe(t, mode, next);
        let piece = piece_here(t, mode, p).0;
        let rest = redacted_from(t, mode, next).text;
        let whole = redacted_from(t, mode, p).text;
        assert forall|k: int| 0 <= k < piece.len() implies unsafe_kind(#[trigger] piece[k]) is None by {
            match secret_span(t, mode, p.at) {
                Some((start, end)) => {
                    let context = t.text.subrange(p.at, start);
                    if k < context.len() {
                        assert(piece[k] == t.text[p.at + k]);
                    } else {
                        assert(piece[k] == "[REDACTED_SECRET]"@[k - context.len()]);
                    }
                },
                None => {},
            }
        }
        assert forall|k: int| 0 <= k < whole.len() implies unsafe_kind(#[trigger] whole[k]) is None by {
            if k < piece.len() {
                assert(whole[k] == piece[k]);
            } else {
                assert(whole[k] == rest[k - piece.len()]);
            }
        }
    }
}

/// A part of a text that is redacted, and the mark that stands for it.
pub struct Redacted {
    pub start: int,
    pub end: int,
    pub mark: Seq<char>,
}

/// What is redacted at the present place, if anything.
pub open spec fn redacted_here(t: Neutral, mode: SanitizationMode, p: Progress) -> Option<Redacted> {
    match secret_span(t, mode, p.at) {
        Some((start, end)) => Some(Redacted { start, end, mark: "[REDACTED_SECRET]"@ }),
        None => match path_here(t, mode, p) {
            Some(end) => Some(Redacted { start: p.at, end, mark: "[REDACTED_PATH]"@ }),
            None => None,
        },
    }
}

/// What is redacted from the present place on, in the order in which it stands.
pub open spec fn redacted_parts(t: Neutral, mode: SanitizationMode, p: Progress) -> Seq<Redacted>
    decreases t.text.len() - p.at,
    when t.wf()
{
    proof {
        lemma_piece_here(t, mode, p);
    }
    if p.at < 0 || p.at >= t.text.len() {
        Seq::empty()
    } else {
        let rest = redacted_parts(t, mode, next_progress(t, mode, p));
        match redacted_here(t, mode, p) {
            Some(part) => seq![part] + rest,
            None => rest,
        }
    }
}

/// The text from `at` on, with each of the parts replaced by its mark and all else kept.
pub open spec fn with_marks(text: Seq<char>, parts: Seq<Redacted>, at: int) -> Seq<char>
    decreases parts.len(),
{
    if parts.len() == 0 {
        text.skip(at)
    } else {
        text.subrange(at, parts[0].start) + parts[0].mark + with_marks(text, parts.skip(1), parts[0].end)
    }
}

proof fn lemma_with_marks_steps(text: Seq<char>, parts: Seq<Redacted>, at: int)
    requires
        0 <= at < text.len(),
        parts.len() > 0 ==> at < parts[0].start <= text.len(),
    ensures
        with_marks(text, parts, at) == seq![text[at]] + with_marks(text, parts, at + 1),
{
    if parts.len() == 0 {
        assert(text.skip(at) =~= seq![text[at]] + text.skip(at + 1));
    } else {
        let rest = with_marks(text, parts.skip(1), parts[0].end);
        assert(text.subrange(at, parts[0].start) =~= seq![text[at]] + text.subrange(at + 1, parts[0].start));
        assert(with_marks(text, parts, at) =~= seq![text[at]] + with_marks(text, parts, at + 1));
    }
}

/// Redaction replaces the parts that it finds, each by one mark, and keeps every other character
/// where it stands. The parts are not empty, lie in the text and follow one another.
pub proof fn law_redaction_replaces_only_what_it_finds(t: Neutral, mode: SanitizationMode, p: Progress)
    requires
        t.wf(),
        0 <= p.at <= t.text.len(),
    ensures
        redacted_from(t, mode, p).text == with_marks(t.text, redacted_parts(t, mode, p), p.at),
        forall|k: int|
            0 <= k < redacted_parts(t, mode, p).len() ==> p.at <= (#[trigger] redacted_parts(t, mode, p)[k]).start
                < redacted_parts(t, mode, p)[k].end <= t.text.len(),
        forall|j: int, k: int|
            0 <= j < k < redacted_parts(t, mode, p).len() ==> (#[trigger] redacted_parts(t, mode, p)[j]).end <= (
            #[trigger] redacted_parts(t, mode, p)[k]).start,
    decreases t.text.len() - p.at,
{
    if p.at < t.text.len() {
        lemma_piece_here(t, mode, p);
        lemma_secret_span(t, mode, p.at);
        let next = next_progress(t, mode, p);
        law_redaction_replaces_only_what_it_finds(t, mode, next);
        let rest = redacted_parts(t, mode, next);
        let parts = redacted_parts(t, mode, p);
        match redacted_here(t, mode, p) {
            Some(part) => {
                assert(parts =~= seq![part] + rest);
                assert(parts.skip(1) =~= rest);
                assert(part.end == next.at);
                assert(t.text.subrange(p.at, p.at) =~= Seq::empty());
                assert(redacted_from(t, mode, p).text =~= with_marks(t.text, parts, p.at));
                assert forall|k: int| 0 < k < parts.len() implies (#[trigger] parts[k]) == rest[k - 1] by {}
            },
            None => {
                lemma_with_marks_steps(t.text, rest, p.at);
            },
        }
    } else {
        assert(t.text.skip(p.at) =~= Seq::empty());
    }
}

/// A text in which no secret and no path is found anywhere stays as it is.
pub proof fn law_text_without_findings_is_kept(t: Neutral, mode: SanitizationMode, p: Progress)
    requires
        t.wf(),
        0 <= p.at <= t.text.len(),
        forall|i: int| p.at <= i < t.text.len() ==> #[trigger] secret_span(t, mode, i) is None,
        mode == SanitizationMode::ExternalText ==> forall|i: int, q: Option<bool>|
            p.at <= i < t.text.len() ==> #[trigger] absolute_path(t, i, q) is None,
    ensures
        redacted_from(t, mode, p).text == t.text.skip(p.at),
    decreases t.text.len() - p.at,
{
    if p.at < t.text.len() {
        let next = next_progress(t, mode, p);
        assert(secret_span(t, mode, p.at) is None);
        assert(path_here(t, mode, p) is None);
        law_text_without_findings_is_kept(t, mode, next);
        assert(redacted_from(t, mode, p).text =~= t.text.skip(p.at));
    } else {
        assert(t.text.skip(p.at) =~= Seq::empty());
    }
}

fn found_secret(t: &MarkedText, mode: SanitizationMode, i: usize) -> (r: Option<(usize, usize)>)
    requires
        t@.wf(),
        i <= t.chars.len(),
    ensures
        match r {
            Some((start, end)) => secret_span(t@, mode, i as int) == Some((start as int, end as int)) && i <= start < end
                <= t.chars.len(),
            None => secret_span(t@, mode, i as int) is None,
        },
{
    proof {
        reveal(secret_span);
    }
    match unquoted_secret_span(t, false, i) {
        Some(found) => {
            return Some(found);
        },
        None => {},
    }
    match quoted_secret_span(t, false, i) {
        Some(found) => {
            return Some(found);
        },
        None => {},
    }
    match json_quoted_secret_at(t, i) {
        Some(found) => {
            return Some(found);
        },
        None => {},
    }
    match authorization_secret_at(t, i) {
        Some(found) => {
            return Some(found);
        },
        None => {},
    }
    let token: Option<usize> = match mode {
        SanitizationMode::ExternalText => token_shape_at(t.chars.as_slice(), i, true),
        SanitizationMode::RepositoryPath => token_shape_at(t.chars.as_slice(), i, false),
        SanitizationMode::Identifier => None,
    };
    match token {
        Some(end) => Some((i, end)),
        None => None,
    }
}

proof fn lemma_overflow(written: Seq<char>, piece: Seq<char>, rest: Seq<char>, part: int, max: nat)
    requires
        0 <= part <= piece.len(),
        utf8_len(written + piece.take(part)) > max,
    ensures
        utf8_len(written + (piece + rest)) > max,
{
    lemma_utf8_concat(written + piece.take(part), piece.skip(part) + rest);
    assert(written + piece.take(part) + (piece.skip(part) + rest) =~= written + (piece + rest));
}

/// Redacts the text, unless the result takes more than `max_bytes` bytes. The number tells how
/// many texts were looked at as possible web addresses.
pub fn redact_secret_assignments(t: &MarkedText, max_bytes: usize, mode: SanitizationMode) -> (r: Result<
    (SanitizedText, usize),
    SanitizeError,
>)
    requires
        t@.wf(),
    ensures
        match r {
            Ok((text, checks)) => {
                &&& text@ == redacted(t@, mode).text
                &&& checks == redacted(t@, mode).url_checks
                &&& utf8_len(text@) <= max_bytes
            },
            Err(e) => {
                &&& utf8_len(redacted(t@, mode).text) > max_bytes
                &&& e->max_bytes == max_bytes
            },
        },
{
    let s: &[char] = t.chars.as_slice();
    let secret_mark: Vec<char> = chars_of("[REDACTED_SECRET]");
    let path_mark: Vec<char> = chars_of("[REDACTED_PATH]");
    let mut output = BoundedText::new(max_bytes);
    let mut i: usize = 0;
    let mut web: usize = 0;
    let mut checked: usize = 0;
    let mut double_quote: Option<bool> = None;
    let mut checks: usize = 0;
    let ghost whole = redacted(t@, mode);
    let ghost mut p = at_start();
    assert(output@ + whole.text =~= whole.text);
    while i < s.len()
        invariant
            t@.wf(),
            s@ == t@.text,
            secret_mark@ == "[REDACTED_SECRET]"@,
            path_mark@ == "[REDACTED_PATH]"@,
            i <= s.len(),
            output.wf(),
            output.limit() == max_bytes,
            whole == redacted(t@, mode),
            p.at == i,
            p.web_until == web,
            p.checked_until == checked,
            p.double_quote == double_quote,
            whole.text == output@ + redacted_from(t@, mode, p).text,
            whole.url_checks == checks + redacted_from(t@, mode, p).url_checks,
            checks <= i,
        decreases s.len() - i,
    {
        let ghost next = next_progress(t@, mode, p);
        let ghost piece = piece_here(t@, mode, p).0;
        let ghost rest = redacted_from(t@, mode, next);
        let ghost written = output@;
        assert(whole.text == written + (piece + rest.text));
        if i >= checked {
            match web_url_span(t, i) {
                Some(WebUrlSpan::Preserve(end)) => {
                    checked = end;
                    web = end;
                    checks = checks + 1;
                },
                Some(WebUrlSpan::Reject(end)) => {
                    checked = end;
                    checks = checks + 1;
                },
                None => {},
            }
        }
        let end: usize = match found_secret(t, mode, i) {
            Some((start, end)) => {
                let context: &[char] = vstd::slice::slice_subrange(s, i, start);
                proof {
                    assert(piece.take(start - i) =~= context@);
                    assert(piece.take(piece.len() as int) =~= piece);
                    assert(written + piece =~= written + context@ + secret_mark@);
                }
                match output.push_chars(context) {
                    Ok(()) => {},
                    Err(e) => {
                        proof {
                            lemma_overflow(written, piece, rest.text, start - i, max_bytes as nat);
                        }
                        return Err(e);
                    },
                }
                match output.push_chars(secret_mark.as_slice()) {
                    Ok(()) => {},
                    Err(e) => {
                        proof {
                            lemma_overflow(written, piece, rest.text, piece.len() as int, max_bytes as nat);
                        }
                        return Err(e);
                    },
                }
                end
            },
            None => {
                let path: Option<usize> = if mode == SanitizationMode::ExternalText && i >= web {
                    absolute_path_end(t, i, double_quote)
                } else {
                    None
                };
                match path {
                    Some(end) => {
                        assert(piece.take(piece.len() as int) =~= piece);
                        match output.push_chars(path_mark.as_slice()) {
                            Ok(()) => {},
                            Err(e) => {
                                proof {
                                    lemma_overflow(written, piece, rest.text, piece.len() as int, max_bytes as nat);
                                }
                                return Err(e);
                            },
                        }
                        end
                    },
                    None => {
                        assert(piece.take(piece.len() as int) =~= piece);
                        assert(written.push(s@[i as int]) =~= written + piece);
                        match output.push_char(s[i]) {
                            Ok(()) => {},
                            Err(e) => {
                                proof {
                                    lemma_overflow(written, piece, rest.text, piece.len() as int, max_bytes as nat);
                                }
                                return Err(e);
                            },
                        }
                        i + 1
                    },
                }
            },
        };
        double_quote = advance_double_quote_context(s, i, end, double_quote);
        i = end;
        assert(output@ + rest.text =~= whole.text);
        proof {
            p = next;
        }
    }
    assert(output@ + Seq::<char>::empty() =~= output@);
    Ok((output.finish(), checks))
}

} // verus!
