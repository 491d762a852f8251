//! Bounded neutralization of untrusted text: what can mislead a reader is spelled out, and
//! secrets, tokens and absolute paths are redacted.
use crate::sanitize::bounded::{SanitizeError, SanitizedText};
use crate::sanitize::keys::{secret_key, secret_key_at, secret_key_steps, SecretKeyMatch};
use crate::sanitize::marks::{
    all_in_bytes, in_bytes, law_neutral_text_is_safe, lemma_neutral_text_grows, lemma_neutralized_wf, neutral_marks,
    neutral_text, neutralize, neutralized, unsafe_kind, views, GeneratedMarker, MarkedText, Neutral,
};
use crate::sanitize::redact::{
    at_start, law_redaction_keeps_text_safe, redact_secret_assignments, redacted, SanitizationMode,
};
use crate::sanitize::secrets::{quoted_secret, quoted_secret_span, unquoted_secret, unquoted_secret_span};
use crate::text::{chars_of, lemma_utf8_concat, lemma_utf8_push, utf8_len, utf8_width, width_of};
use vstd::prelude::*;

pub mod bounded;
pub mod bounds;
pub mod keys;
pub mod laws;
pub mod named;
pub mod marks;
pub mod paths;
pub mod places;
pub mod redact;
pub mod scan;
pub mod secrets;
pub mod tokens;

verus! {

/// The sanitized text of `s`.
pub open spec fn sanitized(s: Seq<char>, mode: SanitizationMode) -> Seq<char> {
    redacted(neutralized(s), mode).text
}

/// Both the neutralized and the sanitized text of `s` take at most `max_bytes` bytes.
pub open spec fn sanitizes_within(s: Seq<char>, mode: SanitizationMode, max_bytes: nat) -> bool {
    utf8_len(neutral_text(s)) <= max_bytes && utf8_len(sanitized(s, mode)) <= max_bytes
}

/// What sanitizing gives: the sanitized text, or that it goes over the limit.
pub open spec fn sanitizes_to(
    s: Seq<char>,
    mode: SanitizationMode,
    max_bytes: usize,
    r: Result<SanitizedText, SanitizeError>,
) -> bool {
    match r {
        Ok(text) => sanitizes_within(s, mode, max_bytes as nat) && text@ == sanitized(s, mode),
        Err(e) => !sanitizes_within(s, mode, max_bytes as nat) && e == (SanitizeError::OutputLimitExceeded {
            max_bytes,
        }),
    }
}

/// No bidirectional control, pinned format character or ASCII control character is left in a
/// sanitized text.
pub proof fn law_sanitized_text_is_safe(s: Seq<char>, mode: SanitizationMode)
    ensures
        forall|k: int| 0 <= k < sanitized(s, mode).len() ==> unsafe_kind(#[trigger] sanitized(s, mode)[k]) is None,
{
    lemma_neutralized_wf(s);
    law_neutral_text_is_safe(s);
    law_redaction_keeps_text_safe(neutralized(s), mode, at_start());
}

/// A text that takes more bytes than the limit is never accepted.
pub proof fn law_long_text_is_refused(s: Seq<char>, mode: SanitizationMode, max_bytes: nat)
    requires
        utf8_len(s) > max_bytes,
    ensures
        !sanitizes_within(s, mode, max_bytes),
{
    lemma_neutral_text_grows(s);
}

/// A higher limit accepts whatever a lower one accepts, and gives the same text.
pub proof fn law_limit_only_refuses(s: Seq<char>, mode: SanitizationMode, low: nat, high: nat)
    requires
        low <= high,
        sanitizes_within(s, mode, low),
    ensures
        sanitizes_within(s, mode, high),
{
}

fn sanitize_text(value: &str, max_bytes: usize, mode: SanitizationMode) -> (r: Result<(SanitizedText, usize), SanitizeError>)
    ensures
        match r {
            Ok((text, checks)) => sanitizes_to(value@, mode, max_bytes, Ok(text)) && checks == redacted(
                neutralized(value@),
                mode,
            ).url_checks,
            Err(e) => sanitizes_to(value@, mode, max_bytes, Err(e)),
        },
{
    match neutralize(value, max_bytes) {
        Ok(t) => {
            assert(t@ == neutralized(value@));
            redact_secret_assignments(&t, max_bytes, mode)
        },
        Err(e) => Err(e),
    }
}

/// Sanitizes free text.
pub fn sanitize_external_text(value: &str, max_bytes: usize) -> (r: Result<SanitizedText, SanitizeError>)
    ensures
        sanitizes_to(value@, SanitizationMode::ExternalText, max_bytes, r),
{
    match sanitize_text(value, max_bytes, SanitizationMode::ExternalText) {
        Ok((text, _)) => Ok(text),
        Err(e) => Err(e),
    }
}

/// Sanitizes free text, and counts the texts that were looked at as possible web addresses.
pub fn sanitize_external_text_counted(value: &str, max_bytes: usize) -> (r: Result<(SanitizedText, usize), SanitizeError>)
    ensures
        match r {
            Ok((text, checks)) => sanitizes_to(value@, SanitizationMode::ExternalText, max_bytes, Ok(text)) && checks
                == redacted(neutralized(value@), SanitizationMode::ExternalText).url_checks,
            Err(e) => sanitizes_to(value@, SanitizationMode::ExternalText, max_bytes, Err(e)),
        },
{
    sanitize_text(value, max_bytes, SanitizationMode::ExternalText)
}

/// Sanitizes an identifier.
pub fn sanitize_identifier_text(value: &str, max_bytes: usize) -> (r: Result<SanitizedText, SanitizeError>)
    ensures
        sanitizes_to(value@, SanitizationMode::Identifier, max_bytes, r),
{
    match sanitize_text(value, max_bytes, SanitizationMode::Identifier) {
        Ok((text, _)) => Ok(text),
        Err(e) => Err(e),
    }
}

/// Sanitizes a path in a repository.
pub fn sanitize_repository_path_text(value: &str, max_bytes: usize) -> (r: Result<SanitizedText, SanitizeError>)
    ensures
        sanitizes_to(value@, SanitizationMode::RepositoryPath, max_bytes, r),
{
    match sanitize_text(value, max_bytes, SanitizationMode::RepositoryPath) {
        Ok((text, _)) => Ok(text),
        Err(e) => Err(e),
    }
}

/// A neutralized text with its markers; the markers' places count bytes.
#[derive(Clone, Debug, PartialEq, Eq)]
pub struct NeutralizedText {
    pub text: SanitizedText,
    pub markers: Vec<GeneratedMarker>,
}

impl NeutralizedText {
    pub fn as_str(&self) -> (r: &str)
        ensures
            r@ == self.text@,
    {
        self.text.as_str()
    }
}

/// The number of bytes before the `k`-th character of `s`.
pub open spec fn byte_offset(s: Seq<char>, k: int) -> int {
    utf8_len(s.take(k)) as int
}

proof fn lemma_byte_offset_step(s: Seq<char>, k: int)
    requires
        0 <= k < s.len(),
    ensures
        byte_offset(s, k + 1) == byte_offset(s, k) + utf8_width(s[k]),
{
    lemma_utf8_push(s.take(k), s[k]);
    assert(s.take(k + 1) =~= s.take(k).push(s[k]));
}

proof fn lemma_byte_offset_grows(s: Seq<char>, j: int, k: int)
    requires
        0 <= j <= k <= s.len(),
    ensures
        byte_offset(s, j) + (k - j) <= byte_offset(s, k) <= utf8_len(s),
    decreases k - j,
{
    if j < k {
        lemma_byte_offset_grows(s, j, k - 1);
        lemma_byte_offset_step(s, k - 1);
    }
    lemma_utf8_concat(s.take(k), s.skip(k));
    assert(s.take(k) + s.skip(k) =~= s);
}

/// The bytes before the `k`-th character.
fn offset_of(s: &[char], k: usize) -> (r: usize)
    requires
        k <= s.len(),
        utf8_len(s@) <= usize::MAX,
    ensures
        r == byte_offset(s@, k as int),
{
    let mut bytes: usize = 0;
    let mut i: usize = 0;
    while i < k
        invariant
            i <= k <= s.len(),
            bytes == byte_offset(s@, i as int),
            utf8_len(s@) <= usize::MAX,
        decreases k - i,
    {
        proof {
            lemma_byte_offset_step(s@, i as int);
            lemma_byte_offset_grows(s@, 0, i + 1);
        }
        bytes = bytes + width_of(s[i]);
        i = i + 1;
    }
    bytes
}

/// The character that starts at byte `offset` of `s`, or the end of `s`.
pub open spec fn position(s: Seq<char>, offset: int) -> Option<int> {
    if exists|k: int| 0 <= k <= s.len() && #[trigger] byte_offset(s, k) == offset {
        Some(choose|k: int| 0 <= k <= s.len() && #[trigger] byte_offset(s, k) == offset)
    } else {
        None
    }
}

fn position_of(s: &[char], offset: usize) -> (r: Option<usize>)
    requires
        utf8_len(s@) <= usize::MAX,
    ensures
        match r {
            Some(k) => position(s@, offset as int) == Some(k as int) && k <= s.len(),
            None => position(s@, offset as int) is None,
        },
{
    let mut bytes: usize = 0;
    let mut i: usize = 0;
    while i < s.len() && bytes < offset
        invariant
            i <= s.len(),
            bytes == byte_offset(s@, i as int),
            utf8_len(s@) <= usize::MAX,
            forall|k: int| 0 <= k < i ==> #[trigger] byte_offset(s@, k) < offset,
        decreases s.len() - i,
    {
        proof {
            lemma_byte_offset_step(s@, i as int);
            lemma_byte_offset_grows(s@, 0, i + 1);
        }
        bytes = bytes + width_of(s[i]);
        i = i + 1;
    }
    proof {
        assert forall|k: int| 0 <= k <= s@.len() && #[trigger] byte_offset(s@, k) == offset implies k == i && bytes
            == offset by {
            if k > i {
                lemma_byte_offset_grows(s@, i as int, k);
            }
        }
    }
    if bytes == offset {
        assert(byte_offset(s@, i as int) == offset);
        Some(i)
    } else {
        None
    }
}

/// Neutralizes `value`, unless the result takes more than `max_bytes` bytes.
pub fn neutralize_external_text(value: &str, max_bytes: usize) -> (r: Result<NeutralizedText, SanitizeError>)
    ensures
        match r {
            Ok(t) => {
                &&& utf8_len(neutral_text(value@)) <= max_bytes
                &&& t.text@ == neutral_text(value@)
                &&& views(t.markers@) == all_in_bytes(neutral_text(value@), neutral_marks(value@))
            },
            Err(e) => {
                &&& utf8_len(neutral_text(value@)) > max_bytes
                &&& e == (SanitizeError::OutputLimitExceeded { max_bytes })
            },
        },
{
    match neutralize(value, max_bytes) {
        Ok(t) => {
            let s: &[char] = t.chars.as_slice();
            let mut markers: Vec<GeneratedMarker> = Vec::new();
            let ghost text = neutral_text(value@);
            let mut i: usize = 0;
            while i < t.marks.len()
                invariant
                    t@.wf(),
                    s@ == text,
                    t@.text == text,
                    utf8_len(text) <= usize::MAX,
                    i <= t.marks.len(),
                    views(markers@) == all_in_bytes(text, t@.marks.take(i as int)),
                decreases t.marks.len() - i,
            {
                let m: GeneratedMarker = t.marks[i];
                assert(t@.marks[i as int] == m@);
                let start: usize = offset_of(s, m.start);
                let end: usize = offset_of(s, m.end);
                let ghost before = markers@;
                let moved = GeneratedMarker::new(start, end, m.kind, m.code_point);
                markers.push(moved);
                proof {
                    assert(t@.marks.take(i + 1) =~= t@.marks.take(i as int).push(m@));
                    assert(moved@ == in_bytes(text, m@));
                    assert(views(markers@) =~= views(before).push(moved@));
                    assert(all_in_bytes(text, t@.marks.take(i + 1)) =~= all_in_bytes(text, t@.marks.take(i as int)).push(
                        moved@,
                    ));
                }
                i = i + 1;
            }
            assert(t@.marks.take(t@.marks.len() as int) =~= t@.marks);
            let out = sanitized_text_of(s, max_bytes);
            Ok(NeutralizedText { text: out, markers })
        },
        Err(e) => Err(e),
    }
}

fn sanitized_text_of(s: &[char], max_bytes: usize) -> (r: SanitizedText)
    requires
        utf8_len(s@) <= max_bytes,
    ensures
        r@ == s@,
{
    let mut out = bounded::BoundedText::new(max_bytes);
    let added = out.push_chars(s);
    proof {
        assert(Seq::<char>::empty() + s@ =~= s@);
    }
    out.finish()
}

/// The name of a secret that starts at byte `index`; its end counts bytes, too.
pub fn recognize_secret_key(value: &str, index: usize) -> (r: Option<SecretKeyMatch>)
    ensures
        match position(value@, index as int) {
            Some(k) => match (r, secret_key(value@, k)) {
                (Some(a), Some(b)) => a.end == byte_offset(value@, b.end) && a.cli_dashes == b.dashes,
                (None, None) => true,
                _ => false,
            },
            None => r is None,
        },
{
    let s: Vec<char> = chars_of(value);
    let total: usize = value.as_bytes().len();
    match position_of(s.as_slice(), index) {
        Some(k) => match secret_key_at(s.as_slice(), k).0 {
            Some(found) => Some(
                SecretKeyMatch { end: offset_of(s.as_slice(), found.end), cli_dashes: found.cli_dashes },
            ),
            None => None,
        },
        None => None,
    }
}

/// How many positions of white space are looked at to recognize a name of a secret at byte
/// `index`.
pub fn secret_key_scan_steps(value: &str, index: usize) -> (r: usize)
    ensures
        r == (match position(value@, index as int) {
            Some(k) => secret_key_steps(value@, k),
            None => 0,
        }),
{
    let s: Vec<char> = chars_of(value);
    let total: usize = value.as_bytes().len();
    match position_of(s.as_slice(), index) {
        Some(k) => secret_key_at(s.as_slice(), k).1,
        None => 0,
    }
}

/// `found`, counted in bytes of `s`.
pub open spec fn span_in_bytes(s: Seq<char>, found: Option<(int, int)>) -> Option<(int, int)> {
    match found {
        Some((start, end)) => Some((byte_offset(s, start), byte_offset(s, end))),
        None => None,
    }
}

/// A text as it stands, without a marker that neutralization put there.
pub open spec fn unmarked(s: Seq<char>) -> Neutral {
    Neutral { text: s, marks: Seq::empty() }
}

fn unmarked_text(value: &str) -> (r: MarkedText)
    ensures
        r@ == unmarked(value@),
        r@.wf(),
        utf8_len(r@.text) <= usize::MAX,
{
    let total: usize = value.as_bytes().len();
    let r = MarkedText { chars: chars_of(value), marks: Vec::new() };
    assert(r@.marks =~= Seq::empty());
    r
}

/// The unquoted value of a secret whose name starts at byte `index`, in bytes. Markers count
/// where they are spelled out.
pub fn unquoted_secret_at(value: &str, index: usize) -> (r: Option<(usize, usize)>)
    ensures
        (match r {
            Some((start, end)) => Some((start as int, end as int)),
            None => None,
        }) == (match position(value@, index as int) {
            Some(k) => span_in_bytes(value@, unquoted_secret(unmarked(value@), true, k)),
            None => None,
        }),
{
    let t: MarkedText = unmarked_text(value);
    let s: &[char] = t.chars.as_slice();
    match position_of(s, index) {
        Some(k) => match unquoted_secret_span(&t, true, k) {
            Some((start, end)) => Some((offset_of(s, start), offset_of(s, end))),
            None => None,
        },
        None => None,
    }
}

/// The quoted value of a secret whose name starts at byte `index`, in bytes. Markers count where
/// they are spelled out.
pub fn quoted_secret_at(value: &str, index: usize) -> (r: Option<(usize, usize)>)
    ensures
        (match r {
            Some((start, end)) => Some((start as int, end as int)),
            None => None,
        }) == (match position(value@, index as int) {
            Some(k) => span_in_bytes(value@, quoted_secret(unmarked(value@), true, k)),
            None => None,
        }),
{
    let t: MarkedText = unmarked_text(value);
    let s: &[char] = t.chars.as_slice();
    match position_of(s, index) {
        Some(k) => match quoted_secret_span(&t, true, k) {
            Some((start, end)) => Some((offset_of(s, start), offset_of(s, end))),
            None => None,
        },
        None => None,
    }
}

} // verus!
