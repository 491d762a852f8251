//! Values of secrets: after a name, in JSON, and in authorization headers.
use super::keys::{
    assignment_separator, assignment_separator_at, is_secret_key, secret_name, secret_value, secret_value_start,
    MAX_MARKERS, MAX_NAME, MAX_SPAN,
};
use super::marks::{MarkedText, Neutral};
use super::scan::{
    escaped, escaped_json_end, escaped_json_quoted_value_end, escaped_quote_at, escaped_quoted_end,
    escaped_quoted_value_end, invisible_mark, is_assignment_whitespace_marker, is_escaped, is_escaped_quote_at,
    is_invisible_marker, is_json_key_boundary, is_quote, is_quote_at, is_separator_sign_at, is_word_break_after,
    is_word_break_before, json_key_boundary, lemma_marker_at, quote_at, quoted_end, raw_quoted_value_end,
    separator_sign_at, skip_authorization_value_whitespace, skip_json_space, skip_json_whitespace,
    skip_provenance_whitespace, skip_space, space_breaks_record, space_mark_at, unquoted_end,
    unquoted_value_end_bounded, word_break_after, word_break_before,
};
use crate::text::{
    ascii_alphanumeric, at, chars_of, is_ascii_alphanumeric, is_at, lower, same_text, to_lower, white_space,
};
use vstd::prelude::*;

verus! {

/// A span that is not empty.
pub open spec fn span(start: int, end: int) -> Option<(int, int)> {
    if end > start {
        Some((start, end))
    } else {
        None
    }
}

/// The unquoted value of a secret whose name stands at `i`.
pub open spec fn unquoted_secret(t: Neutral, literal: bool, i: int) -> Option<(int, int)> {
    match secret_value(t, literal, i) {
        Some(v) => if v >= t.text.len() || quote_at(t.text, v) || escaped_quote_at(t.text, v) {
            None
        } else {
            span(v, unquoted_end(t, false, v, v, t.text.len() as int))
        },
        None => None,
    }
}

pub fn unquoted_secret_span(t: &MarkedText, literal: bool, i: usize) -> (r: Option<(usize, usize)>)
    requires
        t@.wf(),
        i <= t.chars.len(),
    ensures
        match r {
            Some((start, end)) => unquoted_secret(t@, literal, i as int) == Some((start as int, end as int)) && i <= start
                < end <= t.chars.len(),
            None => unquoted_secret(t@, literal, i as int) is None,
        },
{
    match secret_value_start(t, literal, i) {
        Some(v) => {
            let s: &[char] = t.chars.as_slice();
            if v >= s.len() || is_quote_at(s, v) || is_escaped_quote_at(s, v) {
                return None;
            }
            let end: usize = unquoted_value_end_bounded(t, false, v, s.len());
            if end > v {
                Some((v, end))
            } else {
                None
            }
        },
        None => None,
    }
}

/// What stands in the quotes that open at `v`; nothing, where no quote opens or nothing is left
/// after it.
pub open spec fn quoted_value(s: Seq<char>, v: int) -> Option<(int, int)> {
    let n = s.len() as int;
    if quote_at(s, v) && v + 1 < n {
        span(v + 1, quoted_end(s, v + 1, v + 1, s[v], n))
    } else if !quote_at(s, v) && escaped_quote_at(s, v) && v + 2 < n {
        span(v + 2, escaped_quoted_end(s, v + 2, v + 2, s[v + 1], n))
    } else {
        None
    }
}

fn quoted_value_span(s: &[char], v: usize) -> (r: Option<(usize, usize)>)
    requires
        v <= s.len(),
    ensures
        match r {
            Some((start, end)) => quoted_value(s@, v as int) == Some((start as int, end as int)) && v < start < end
                <= s.len(),
            None => quoted_value(s@, v as int) is None,
        },
{
    let n: usize = s.len();
    let (start, end) = if is_quote_at(s, v) {
        if v + 1 >= n {
            return None;
        }
        (v + 1, raw_quoted_value_end(s, v + 1, s[v], n))
    } else if is_escaped_quote_at(s, v) {
        if v + 2 >= n {
            return None;
        }
        (v + 2, escaped_quoted_value_end(s, v + 2, s[v + 1], n))
    } else {
        return None;
    };
    if end > start {
        Some((start, end))
    } else {
        None
    }
}

/// The quoted value of a secret whose name stands at `i`.
pub open spec fn quoted_secret(t: Neutral, literal: bool, i: int) -> Option<(int, int)> {
    match secret_value(t, literal, i) {
        Some(v) => quoted_value(t.text, v),
        None => None,
    }
}

pub fn quoted_secret_span(t: &MarkedText, literal: bool, i: usize) -> (r: Option<(usize, usize)>)
    requires
        t@.wf(),
        i <= t.chars.len(),
    ensures
        match r {
            Some((start, end)) => quoted_secret(t@, literal, i as int) == Some((start as int, end as int)) && i <= start
                < end <= t.chars.len(),
            None => quoted_secret(t@, literal, i as int) is None,
        },
{
    match secret_value_start(t, literal, i) {
        Some(v) => quoted_value_span(t.chars.as_slice(), v),
        None => None,
    }
}

/// Reads a name in JSON on at `i`: where it ends, and its letters in lower case with `_` for each
/// separator. Nothing, where what stands there is no name, or ends in a separator.
pub open spec fn json_name(s: Seq<char>, i: int, name: Seq<char>, open: bool) -> Option<(int, Seq<char>)>
    decreases s.len() - i,
{
    if 0 <= i < s.len() && ascii_alphanumeric(s[i]) {
        if name.len() >= MAX_NAME {
            None
        } else {
            json_name(s, i + 1, name.push(lower(s[i])), false)
        }
    } else if at(s, i, '_') || at(s, i, '-') {
        if name.len() == 0 || open || name.len() >= MAX_NAME {
            None
        } else {
            json_name(s, i + 1, name.push('_'), true)
        }
    } else if open {
        None
    } else {
        Some((i, name))
    }
}

fn read_json_name(s: &[char], start: usize) -> (r: Option<(usize, Vec<char>)>)
    requires
        start <= s.len(),
    ensures
        match (r, json_name(s@, start as int, Seq::empty(), false)) {
            (Some(a), Some(b)) => a.0 == b.0 && a.1@ == b.1 && start <= a.0 <= s.len(),
            (None, None) => true,
            _ => false,
        },
{
    let mut i: usize = start;
    let mut name: Vec<char> = Vec::new();
    let mut open: bool = false;
    let ghost whole = json_name(s@, start as int, Seq::empty(), false);
    while i < s.len()
        invariant
            start <= i <= s.len(),
            whole == json_name(s@, start as int, Seq::empty(), false),
            whole == json_name(s@, i as int, name@, open),
        ensures
            start <= i <= s.len(),
            whole == (if open {
                None
            } else {
                Some((i as int, name@))
            }),
        decreases s.len() - i,
    {
        let c: char = s[i];
        if is_ascii_alphanumeric(c) {
            if name.len() >= MAX_NAME {
                return None;
            }
            name.push(to_lower(c));
            open = false;
        } else if c == '_' || c == '-' {
            if name.len() == 0 || open || name.len() >= MAX_NAME {
                return None;
            }
            name.push('_');
            open = true;
        } else {
            break;
        }
        i = i + 1;
    }
    if open {
        None
    } else {
        Some((i, name))
    }
}

/// How many characters the double quote at `i` takes: two, if a backslash escapes it.
pub open spec fn double_quote_width(s: Seq<char>, i: int) -> Option<int> {
    if at(s, i, '"') {
        Some(1)
    } else if at(s, i, '\\') && at(s, i + 1, '"') {
        Some(2)
    } else {
        None
    }
}

fn double_quote_at(s: &[char], i: usize) -> (r: Option<usize>)
    ensures
        match r {
            Some(n) => double_quote_width(s@, i as int) == Some(n as int) && i + n <= s.len() && 1 <= n <= 2,
            None => double_quote_width(s@, i as int) is None,
        },
{
    if i >= s.len() {
        None
    } else if s[i] == '"' {
        Some(1)
    } else if s[i] == '\\' && is_at(s, i + 1, '"') {
        Some(2)
    } else {
        None
    }
}

/// The secret in a JSON member whose name opens at `i`.
pub open spec fn json_secret(t: Neutral, i: int) -> Option<(int, int)> {
    let s = t.text;
    match double_quote_width(s, i) {
        None => None,
        Some(key_quote) => match json_name(s, i + key_quote, Seq::empty(), false) {
            None => None,
            Some((key_end, name)) => {
                let colon = skip_json_space(t, key_end + key_quote);
                let opening = skip_json_space(t, colon + 1);
                if !json_key_boundary(t, i) || double_quote_width(s, key_end) != Some(key_quote) || !(name
                    == "authorization"@ || secret_name(name)) || !at(s, colon, ':') {
                    None
                } else {
                    match double_quote_width(s, opening) {
                        None => None,
                        Some(value_quote) => {
                            let start = opening + value_quote;
                            let end = if value_quote == 2 {
                                escaped_json_end(s, start, 0, '"')
                            } else {
                                quoted_end(s, start, start, '"', s.len() as int)
                            };
                            if start >= s.len() {
                                None
                            } else if name == "authorization"@ {
                                json_authorization(t, start, end)
                            } else {
                                span(start, end)
                            }
                        },
                    }
                }
            },
        },
    }
}

/// The credential in the JSON value of an `authorization` member that goes from `start` to `end`:
/// what an assignment on the same line gives.
pub open spec fn json_authorization(t: Neutral, start: int, end: int) -> Option<(int, int)> {
    let from = skip_space(t, start);
    if space_breaks_record(t, start) || from >= end {
        None
    } else {
        match assignment_separator(t, false, from) {
            Some(separator) => assigned_credential(t, from, separator, end),
            None => None,
        }
    }
}

pub fn json_quoted_secret_at(t: &MarkedText, i: usize) -> (r: Option<(usize, usize)>)
    requires
        t@.wf(),
        i <= t.chars.len(),
    ensures
        match r {
            Some((start, end)) => json_secret(t@, i as int) == Some((start as int, end as int)) && i <= start < end
                <= t.chars.len(),
            None => json_secret(t@, i as int) is None,
        },
{
    let s: &[char] = t.chars.as_slice();
    let key_quote: usize = match double_quote_at(s, i) {
        Some(n) => n,
        None => {
            return None;
        },
    };
    if !is_json_key_boundary(t, i) {
        return None;
    }
    let (key_end, name) = match read_json_name(s, i + key_quote) {
        Some(read) => read,
        None => {
            return None;
        },
    };
    match double_quote_at(s, key_end) {
        Some(n) => {
            if n != key_quote {
                return None;
            }
        },
        None => {
            return None;
        },
    }
    let authorization: bool = same_text(name.as_slice(), "authorization");
    if !authorization && !is_secret_key(name.as_slice()) {
        return None;
    }
    let colon: usize = skip_json_whitespace(t, key_end + key_quote);
    if !is_at(s, colon, ':') {
        return None;
    }
    let opening: usize = skip_json_whitespace(t, colon + 1);
    let value_quote: usize = match double_quote_at(s, opening) {
        Some(n) => n,
        None => {
            return None;
        },
    };
    let start: usize = opening + value_quote;
    if start >= s.len() {
        return None;
    }
    let end: usize = if value_quote == 2 {
        escaped_json_quoted_value_end(s, start, '"')
    } else {
        raw_quoted_value_end(s, start, '"', s.len())
    };
    if authorization {
        let (from, crossed) = skip_authorization_value_whitespace(t, start);
        if crossed || from >= end {
            return None;
        }
        return match assignment_separator_at(t, false, from) {
            Some(separator) => authorization_assignment_credential_at(t, from, separator, end),
            None => None,
        };
    }
    if end > start {
        Some((start, end))
    } else {
        None
    }
}

/// Where the keyword of which `word` is left from the `k`-th letter on ends, when it began at
/// `start` and is read on at `i`; letter case and invisible markers between the letters aside.
pub open spec fn keyword_from(t: Neutral, start: int, word: Seq<char>, k: int, i: int, marks: nat) -> Option<int>
    decreases t.text.len() - i,
    when t.wf()
{
    proof {
        lemma_marker_at(t, i);
    }
    if k >= word.len() {
        if word_break_after(t.text, i) {
            Some(i)
        } else {
            None
        }
    } else {
        let mark = t.marker_at(i);
        if k > 0 && mark is Some && invisible_mark(mark->0) {
            if marks + 1 > MAX_MARKERS || mark->0.end - start > MAX_SPAN {
                None
            } else {
                keyword_from(t, start, word, k, mark->0.end, marks + 1)
            }
        } else if 0 <= i < t.text.len() && lower(t.text[i]) == word[k] {
            keyword_from(t, start, word, k + 1, i + 1, marks)
        } else {
            None
        }
    }
}

/// Where the keyword `word` at `i` ends.
pub open spec fn keyword(t: Neutral, i: int, word: Seq<char>) -> Option<int> {
    if word_break_before(t.text, i) {
        keyword_from(t, i, word, 0, i, 0)
    } else {
        None
    }
}

pub fn generated_keyword_end(t: &MarkedText, start: usize, w: &str) -> (r: Option<usize>)
    requires
        t@.wf(),
        start <= t.chars.len(),
        w@.len() > 0,
    ensures
        match r {
            Some(end) => keyword(t@, start as int, w@) == Some(end as int) && start < end <= t.chars.len(),
            None => keyword(t@, start as int, w@) is None,
        },
{
    let s: &[char] = t.chars.as_slice();
    if !is_word_break_before(s, start) {
        return None;
    }
    let word: Vec<char> = chars_of(w);
    let mut i: usize = start;
    let mut k: usize = 0;
    let mut marks: u8 = 0;
    while k < word.len()
        invariant
            t@.wf(),
            s@ == t@.text,
            word@ == w@,
            k <= word.len(),
            start + k <= i <= s.len(),
            marks <= MAX_MARKERS,
            word_break_before(s@, start as int),
            keyword_from(t@, start as int, w@, 0, start as int, 0) == keyword_from(
                t@,
                start as int,
                w@,
                k as int,
                i as int,
                marks as nat,
            ),
        decreases s.len() - i, word.len() - k,
    {
        if k > 0 {
            match t.marker_at(i) {
                Some(m) => {
                    if is_invisible_marker(m) {
                        if marks == MAX_MARKERS || m.end - start > MAX_SPAN {
                            return None;
                        }
                        marks = marks + 1;
                        i = m.end;
                        continue;
                    }
                },
                None => {},
            }
        }
        if i >= s.len() || to_lower(s[i]) != word[k] {
            return None;
        }
        i = i + 1;
        k = k + 1;
    }
    if is_word_break_after(s, i) {
        Some(i)
    } else {
        None
    }
}

/// Where the authorization scheme at `i` ends.
pub open spec fn scheme(t: Neutral, i: int) -> Option<int> {
    if keyword(t, i, "basic"@) is Some {
        keyword(t, i, "basic"@)
    } else {
        keyword(t, i, "bearer"@)
    }
}

pub fn authorization_scheme_end(t: &MarkedText, i: usize) -> (r: Option<usize>)
    requires
        t@.wf(),
        i <= t.chars.len(),
    ensures
        match r {
            Some(end) => scheme(t@, i as int) == Some(end as int) && i < end <= t.chars.len(),
            None => scheme(t@, i as int) is None,
        },
{
    proof {
        reveal_strlit("basic");
        reveal_strlit("bearer");
    }
    match generated_keyword_end(t, i, "basic") {
        Some(end) => Some(end),
        None => generated_keyword_end(t, i, "bearer"),
    }
}

/// What may follow the quote that closes around a credential.
pub open spec fn credential_quote_suffix(t: Neutral, i: int) -> bool {
    ||| space_mark_at(t, i) is Some
    ||| i >= t.text.len()
    ||| {
        let c = t.text[i];
        c == ',' || c == ';' || c == '&' || c == '}' || c == ']' || c == ')' || white_space(c)
    }
}

pub fn is_authorization_quote_suffix(t: &MarkedText, i: usize) -> (r: bool)
    requires
        t@.wf(),
        i <= t.chars.len(),
    ensures
        r == credential_quote_suffix(t@, i as int),
{
    match t.marker_at(i) {
        Some(m) => {
            if is_assignment_whitespace_marker(m) {
                return true;
            }
        },
        None => {},
    }
    if i >= t.chars.len() {
        return true;
    }
    let c: char = t.chars[i];
    c == ',' || c == ';' || c == '&' || c == '}' || c == ']' || c == ')' || c.is_whitespace()
}

/// Where a credential that began at `start` is closed by a quote, from `i` on and before `end`.
pub open spec fn credential_quote(t: Neutral, start: int, i: int, end: int) -> Option<int>
    decreases end - i,
{
    if i >= end {
        None
    } else if quote_at(t.text, i) && credential_quote_suffix(t, i + 1) {
        if escaped(t.text, start, i) {
            Some(i - 1)
        } else {
            Some(i)
        }
    } else {
        credential_quote(t, start, i + 1, end)
    }
}

pub fn authorization_quote_start(t: &MarkedText, start: usize, end: usize) -> (r: Option<usize>)
    requires
        t@.wf(),
        start <= end <= t.chars.len(),
    ensures
        match r {
            Some(i) => credential_quote(t@, start as int, start as int, end as int) == Some(i as int) && start <= i < end,
            None => credential_quote(t@, start as int, start as int, end as int) is None,
        },
{
    let s: &[char] = t.chars.as_slice();
    let mut i: usize = start;
    while i < end
        invariant
            t@.wf(),
            s@ == t@.text,
            start <= i <= end <= s.len(),
            credential_quote(t@, start as int, start as int, end as int) == credential_quote(
                t@,
                start as int,
                i as int,
                end as int,
            ),
        decreases end - i,
    {
        if is_quote(s[i]) && is_authorization_quote_suffix(t, i + 1) {
            if is_escaped(s, start, i) {
                return Some(i - 1);
            }
            return Some(i);
        }
        i = i + 1;
    }
    None
}

/// The credential at `i`.
pub open spec fn credential(t: Neutral, i: int) -> Option<(int, int)> {
    if quote_at(t.text, i) || escaped_quote_at(t.text, i) {
        quoted_value(t.text, i)
    } else {
        let end = unquoted_end(t, true, i, i, t.text.len() as int);
        span(
            i,
            match credential_quote(t, i, i, end) {
                Some(closing) => closing,
                None => end,
            },
        )
    }
}

pub fn credential_value_at(t: &MarkedText, i: usize) -> (r: Option<(usize, usize)>)
    requires
        t@.wf(),
        i <= t.chars.len(),
    ensures
        match r {
            Some((start, end)) => credential(t@, i as int) == Some((start as int, end as int)) && i <= start < end
                <= t.chars.len(),
            None => credential(t@, i as int) is None,
        },
{
    let s: &[char] = t.chars.as_slice();
    if is_quote_at(s, i) || is_escaped_quote_at(s, i) {
        return quoted_value_span(s, i);
    }
    let mut end: usize = unquoted_value_end_bounded(t, true, i, s.len());
    match authorization_quote_start(t, i, end) {
        Some(closing) => {
            end = closing;
        },
        None => {},
    }
    if end > i {
        Some((i, end))
    } else {
        None
    }
}

/// The credential that is read at `i` and not after `limit`, with its quotes, redacted from
/// `start` on.
pub open spec fn bounded_credential(t: Neutral, start: int, i: int, limit: int) -> Option<(int, int)> {
    let s = t.text;
    if quote_at(s, i) {
        let end = quoted_end(s, i + 1, i + 1, s[i], limit);
        if end > i + 1 {
            Some((start, if end < limit && at(s, end, s[i]) { end + 1 } else { end }))
        } else {
            None
        }
    } else if escaped_quote_at(s, i) {
        let end = escaped_quoted_end(s, i + 2, i + 2, s[i + 1], limit);
        if end > i + 2 {
            Some(
                (
                    start,
                    if end + 1 < limit && at(s, end, '\\') && at(s, end + 1, s[i + 1]) {
                        end + 2
                    } else {
                        end
                    },
                ),
            )
        } else {
            None
        }
    } else {
        let end = unquoted_end(t, true, i, i, limit);
        if end > i {
            Some((start, end))
        } else {
            None
        }
    }
}

fn bounded_credential_at(t: &MarkedText, start: usize, i: usize, limit: usize) -> (r: Option<(usize, usize)>)
    requires
        t@.wf(),
        start <= i < limit <= t.chars.len(),
    ensures
        match r {
            Some((a, b)) => bounded_credential(t@, start as int, i as int, limit as int) == Some((a as int, b as int)) && a
                == start && start < b <= t.chars.len(),
            None => bounded_credential(t@, start as int, i as int, limit as int) is None,
        },
{
    let s: &[char] = t.chars.as_slice();
    if is_quote_at(s, i) {
        let end: usize = raw_quoted_value_end(s, i + 1, s[i], limit);
        if end > i + 1 {
            Some((start, if end < limit && s[end] == s[i] { end + 1 } else { end }))
        } else {
            None
        }
    } else if is_escaped_quote_at(s, i) {
        let end: usize = escaped_quoted_value_end(s, i + 2, s[i + 1], limit);
        if end > i + 2 {
            Some(
                (
                    start,
                    if end < limit && end + 1 < limit && s[end] == '\\' && s[end + 1] == s[i + 1] {
                        end + 2
                    } else {
                        end
                    },
                ),
            )
        } else {
            None
        }
    } else {
        let end: usize = unquoted_value_end_bounded(t, true, i, limit);
        if end > i {
            Some((start, end))
        } else {
            None
        }
    }
}

/// The credential that an assignment from `start` gives, with its separator at `separator`, and
/// not after `limit`.
pub open spec fn assigned_credential(t: Neutral, start: int, separator: int, limit: int) -> Option<(int, int)> {
    let value = skip_space(t, separator + 1);
    if !(separator < limit && value < limit) || space_breaks_record(t, separator + 1) && assignment_separator(
        t,
        false,
        value,
    ) is Some {
        None
    } else {
        match scheme(t, value) {
            Some(scheme_end) => if scheme_end <= limit {
                let after = skip_space(t, scheme_end);
                if after <= scheme_end || after >= limit {
                    None
                } else if space_breaks_record(t, scheme_end) && assignment_separator(t, false, after) is Some {
                    Some((start, scheme_end))
                } else {
                    bounded_credential(t, start, after, limit)
                }
            } else {
                bounded_credential(t, start, value, limit)
            },
            None => bounded_credential(t, start, value, limit),
        }
    }
}

pub fn authorization_assignment_credential_at(t: &MarkedText, start: usize, separator: usize, limit: usize) -> (r: Option<
    (usize, usize),
>)
    requires
        t@.wf(),
        start <= separator < t.chars.len(),
        limit <= t.chars.len(),
    ensures
        match r {
            Some((a, b)) => assigned_credential(t@, start as int, separator as int, limit as int) == Some(
                (a as int, b as int),
            ) && start <= a < b <= t.chars.len(),
            None => assigned_credential(t@, start as int, separator as int, limit as int) is None,
        },
{
    if separator >= limit {
        return None;
    }
    let (value, crossed) = skip_authorization_value_whitespace(t, separator + 1);
    if value >= limit {
        return None;
    }
    if crossed && assignment_separator_at(t, false, value).is_some() {
        return None;
    }
    match authorization_scheme_end(t, value) {
        Some(scheme_end) => {
            if scheme_end > limit {
                return bounded_credential_at(t, start, value, limit);
            }
            let (after, after_crossed) = skip_authorization_value_whitespace(t, scheme_end);
            if after <= scheme_end || after >= limit {
                return None;
            }
            if after_crossed && assignment_separator_at(t, false, after).is_some() {
                return Some((start, scheme_end));
            }
            bounded_credential_at(t, start, after, limit)
        },
        None => bounded_credential_at(t, start, value, limit),
    }
}

/// The credential after the authorization scheme that ends at `scheme_end`.
pub open spec fn credential_after_scheme(t: Neutral, scheme_end: int) -> Option<(int, int)> {
    let value = skip_space(t, scheme_end);
    if value > scheme_end {
        credential(t, value)
    } else {
        None
    }
}

/// The credential of an authorization header, or after an authorization scheme, at `i`.
pub open spec fn authorization_secret(t: Neutral, i: int) -> Option<(int, int)> {
    match keyword(t, i, "authorization"@) {
        Some(key_end) => {
            let sign = skip_space(t, key_end);
            let value = skip_space(t, sign + 1);
            if !separator_sign_at(t.text, sign) {
                None
            } else {
                match assignment_separator(t, false, value) {
                    Some(separator) => if space_breaks_record(t, sign + 1) {
                        None
                    } else {
                        assigned_credential(t, value, separator, t.text.len() as int)
                    },
                    None => match scheme(t, value) {
                        Some(scheme_end) => credential_after_scheme(t, scheme_end),
                        None => credential(t, value),
                    },
                }
            }
        },
        None => match scheme(t, i) {
            Some(scheme_end) => credential_after_scheme(t, scheme_end),
            None => None,
        },
    }
}

fn credential_after_scheme_at(t: &MarkedText, scheme_end: usize) -> (r: Option<(usize, usize)>)
    requires
        t@.wf(),
        scheme_end <= t.chars.len(),
    ensures
        match r {
            Some((start, end)) => credential_after_scheme(t@, scheme_end as int) == Some((start as int, end as int))
                && scheme_end <= start < end <= t.chars.len(),
            None => credential_after_scheme(t@, scheme_end as int) is None,
        },
{
    let value: usize = skip_provenance_whitespace(t, scheme_end);
    if value > scheme_end {
        credential_value_at(t, value)
    } else {
        None
    }
}

pub fn authorization_secret_at(t: &MarkedText, i: usize) -> (r: Option<(usize, usize)>)
    requires
        t@.wf(),
        i <= t.chars.len(),
    ensures
        match r {
            Some((start, end)) => authorization_secret(t@, i as int) == Some((start as int, end as int)) && i <= start < end
                <= t.chars.len(),
            None => authorization_secret(t@, i as int) is None,
        },
{
    proof {
        reveal_strlit("authorization");
    }
    match generated_keyword_end(t, i, "authorization") {
        Some(key_end) => {
            let sign: usize = skip_provenance_whitespace(t, key_end);
            if !is_separator_sign_at(t.chars.as_slice(), sign) {
                return None;
            }
            let (value, crossed) = skip_authorization_value_whitespace(t, sign + 1);
            match assignment_separator_at(t, false, value) {
                Some(separator) => {
                    if crossed {
                        return None;
                    }
                    authorization_assignment_credential_at(t, value, separator, t.chars.len())
                },
                None => match authorization_scheme_end(t, value) {
                    Some(scheme_end) => credential_after_scheme_at(t, scheme_end),
                    None => credential_value_at(t, value),
                },
            }
        },
        None => match authorization_scheme_end(t, i) {
            Some(scheme_end) => credential_after_scheme_at(t, scheme_end),
            None => None,
        },
    }
}

} // verus!
