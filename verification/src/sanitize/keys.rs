//! Names of secrets, and the assignments that they head.
use super::bounds::lemma_secret_key;
use super::marks::{MarkedText, Neutral};
use super::scan::{
    invisible_mark, is_invisible_marker, is_separator_sign_at, is_word_char, lemma_marker_at, separator_sign_at,
    skip_assignment_whitespace, skip_provenance_whitespace, skip_space, skip_spelled_space, spelled_space_steps,
    word_char,
};
use crate::text::{
    ascii, ascii_alphanumeric, ascii_digit, at, is_ascii_alphanumeric, is_ascii_digit, is_at, is_text_at,
    lemma_utf8_concat, lemma_utf8_push, lower, same_text, text_at, to_lower, utf8_len, white_space, width_of,
};
use vstd::prelude::*;

verus! {

/// The most bytes that a name with its markers may span.
pub const MAX_SPAN: usize = 256;

/// The most markers that a name may hold.
pub const MAX_MARKERS: u8 = 8;

/// The most characters that a name may hold, markers aside.
pub const MAX_NAME: usize = 32;

/// A name of a secret that was recognized.
#[derive(Clone, Copy, Debug, PartialEq, Eq, Structural)]
pub struct SecretKeyMatch {
    /// Where the name ends.
    pub end: usize,
    /// How many dashes stand before the name.
    pub cli_dashes: u8,
}

/// The names that secrets go by.
pub open spec fn secret_name(name: Seq<char>) -> bool {
    ||| name == "token"@
    ||| name == "api_key"@
    ||| name == "password"@
    ||| name == "passwd"@
    ||| name == "secret"@
    ||| name == "client_secret"@
    ||| name == "access_token"@
    ||| name == "refresh_token"@
    ||| name == "private_key"@
}

pub fn is_secret_key(name: &[char]) -> (r: bool)
    ensures
        r == secret_name(name@),
{
    same_text(name, "token") || same_text(name, "api_key") || same_text(name, "password") || same_text(
        name,
        "passwd",
    ) || same_text(name, "secret") || same_text(name, "client_secret") || same_text(name, "access_token")
        || same_text(name, "refresh_token") || same_text(name, "private_key")
}

pub open spec fn upper_hex(c: char) -> bool {
    ascii_digit(c) || 'A' <= c <= 'F'
}

/// `digits` capital hexadecimal digits and a closing bracket stand at position `i`.
pub open spec fn code_at(s: Seq<char>, i: int, digits: int) -> bool {
    &&& 0 <= i
    &&& i + digits < s.len()
    &&& forall|k: int| i <= k < i + digits ==> upper_hex(#[trigger] s[k])
    &&& s[i + digits] == ']'
}

fn is_code_at(s: &[char], i: usize, digits: usize) -> (r: bool)
    requires
        i <= s.len(),
        digits <= 6,
    ensures
        r == code_at(s@, i as int, digits as int),
{
    if s.len() - i <= digits {
        return false;
    }
    let mut k: usize = i;
    while k < i + digits
        invariant
            i <= k <= i + digits < s.len(),
            forall|j: int| i <= j < k ==> upper_hex(#[trigger] s@[j]),
        decreases i + digits - k,
    {
        let c: char = s[k];
        if !(is_ascii_digit(c) || 'A' <= c && c <= 'F') {
            assert(!upper_hex(s@[k as int]));
            return false;
        }
        k = k + 1;
    }
    s[i + digits] == ']'
}

/// Where the marker of an invisible character that is spelled out at `i` ends.
pub open spec fn spelled_mark_end(s: Seq<char>, i: int) -> Option<int> {
    let code = if text_at(s, i, "[FORMAT-U+"@) {
        i + "[FORMAT-U+"@.len()
    } else {
        i + "[BIDI-U+"@.len()
    };
    if !(text_at(s, i, "[FORMAT-U+"@) || text_at(s, i, "[BIDI-U+"@)) {
        None
    } else if code_at(s, code, 4) {
        Some(code + 5)
    } else if code_at(s, code, 5) {
        Some(code + 6)
    } else if code_at(s, code, 6) {
        Some(code + 7)
    } else {
        None
    }
}

pub fn neutralization_marker_end(s: &[char], i: usize) -> (r: Option<usize>)
    ensures
        match r {
            Some(end) => spelled_mark_end(s@, i as int) == Some(end as int) && i < end <= s.len(),
            None => spelled_mark_end(s@, i as int) is None,
        },
{
    proof {
        reveal_strlit("[FORMAT-U+");
        reveal_strlit("[BIDI-U+");
    }
    if i >= s.len() {
        return None;
    }
    let code: usize = if is_text_at(s, i, "[FORMAT-U+") {
        i + 10
    } else if is_text_at(s, i, "[BIDI-U+") {
        i + 8
    } else {
        return None;
    };
    if is_code_at(s, code, 4) {
        Some(code + 5)
    } else if is_code_at(s, code, 5) {
        Some(code + 6)
    } else if is_code_at(s, code, 6) {
        Some(code + 7)
    } else {
        None
    }
}

/// A name that was read: where it ends, its letters in lower case with `_` for each separator,
/// and whether it still lacks a letter or a digit at its end.
pub struct NameScan {
    pub end: int,
    pub name: Seq<char>,
    pub open: bool,
}

/// Reads on at `i` a name that began at `start`, of which `name` and `marks` markers were read.
/// Nothing, where what stands there is no name.
pub open spec fn name_scan(s: Seq<char>, start: int, i: int, name: Seq<char>, marks: nat, open: bool) -> Option<
    NameScan,
>
    decreases s.len() - i,
{
    if i - start > MAX_SPAN || i < 0 || i >= s.len() {
        Some(NameScan { end: i, name, open })
    } else if ascii_alphanumeric(s[i]) {
        if name.len() >= MAX_NAME {
            None
        } else {
            name_scan(s, start, i + 1, name.push(lower(s[i])), marks, false)
        }
    } else if s[i] == '_' || s[i] == '-' {
        if name.len() == 0 || open || name.len() >= MAX_NAME {
            None
        } else {
            name_scan(s, start, i + 1, name.push('_'), marks, true)
        }
    } else {
        match spelled_mark_end(s, i) {
            Some(end) => if name.len() == 0 || marks == MAX_MARKERS || end - start > MAX_SPAN || end <= i || end
                > s.len() {
                None
            } else {
                name_scan(s, start, end, name, marks + 1, true)
            },
            None => Some(NameScan { end: i, name, open }),
        }
    }
}

struct NameRead {
    end: usize,
    name: Vec<char>,
    open: bool,
}

fn read_name(s: &[char], start: usize) -> (r: Option<NameRead>)
    requires
        start <= s.len(),
    ensures
        match (r, name_scan(s@, start as int, start as int, Seq::empty(), 0, false)) {
            (Some(a), Some(b)) => a.end == b.end && a.name@ == b.name && a.open == b.open && start <= a.end
                <= s.len(),
            (None, None) => true,
            _ => false,
        },
{
    let mut i: usize = start;
    let mut name: Vec<char> = Vec::new();
    let mut marks: u8 = 0;
    let mut open: bool = false;
    let ghost whole = name_scan(s@, start as int, start as int, Seq::empty(), 0, false);
    while i < s.len() && i - start <= MAX_SPAN
        invariant
            start <= i <= s.len(),
            marks <= MAX_MARKERS,
            whole == name_scan(s@, start as int, start as int, Seq::empty(), 0, false),
            whole == name_scan(s@, start as int, i as int, name@, marks as nat, open),
        ensures
            start <= i <= s.len(),
            whole == Some(NameScan { end: i as int, name: name@, open }),
        decreases s.len() - i,
    {
        let c: char = s[i];
        if is_ascii_alphanumeric(c) {
            if name.len() >= MAX_NAME {
                return None;
            }
            name.push(to_lower(c));
            i = i + 1;
            open = false;
        } else if c == '_' || c == '-' {
            if name.len() == 0 || open || name.len() >= MAX_NAME {
                return None;
            }
            name.push('_');
            i = i + 1;
            open = true;
        } else {
            match neutralization_marker_end(s, i) {
                Some(end) => {
                    if name.len() == 0 || marks == MAX_MARKERS || end - start > MAX_SPAN {
                        return None;
                    }
                    i = end;
                    marks = marks + 1;
                    open = true;
                },
                None => {
                    break;
                },
            }
        }
    }
    Some(NameRead { end: i, name, open })
}

/// A recognized name of a secret: where it ends, and how many dashes stand before it.
pub struct KeyMatch {
    pub end: int,
    pub dashes: nat,
}

/// No name runs into position `i` from the left.
pub open spec fn key_break_before(s: Seq<char>, i: int) -> bool {
    i > 0 ==> {
        let p = s[i - 1];
        if ascii(p) {
            !(ascii_alphanumeric(p) || p == '_' || p == '-')
        } else {
            white_space(p)
        }
    }
}

/// How many dashes, of two at most, stand at `i`.
pub open spec fn leading_dashes(s: Seq<char>, i: int) -> int {
    if at(s, i, '-') {
        if at(s, i + 1, '-') {
            2
        } else {
            1
        }
    } else {
        0
    }
}

/// The cookie name of a GitLab session, with its equals sign, stands at `i`.
pub open spec fn session_key_at(s: Seq<char>, i: int) -> bool {
    text_at(s, i, "_gitlab_session"@) && at(s, i + "_gitlab_session"@.len(), '=')
}

/// The name at `i`, if it starts and ends as a name of a secret may.
pub open spec fn bounded_name(s: Seq<char>, i: int) -> Option<NameScan> {
    let start = i + leading_dashes(s, i);
    if !(0 <= i < s.len() && (ascii_alphanumeric(s[i]) || s[i] == '-')) || at(s, start, '-') {
        None
    } else {
        match name_scan(s, start, start, Seq::empty(), 0, false) {
            Some(scan) => if scan.end - start > MAX_SPAN || scan.open {
                None
            } else {
                Some(scan)
            },
            None => None,
        }
    }
}

/// The name of a secret at `i`.
pub open spec fn secret_key(s: Seq<char>, i: int) -> Option<KeyMatch> {
    if !(0 <= i <= s.len() && key_break_before(s, i)) {
        None
    } else if session_key_at(s, i) {
        Some(KeyMatch { end: i + "_gitlab_session"@.len(), dashes: 0 })
    } else {
        match bounded_name(s, i) {
            Some(scan) => if (scan.end == s.len() || separator_sign_at(s, scan.end) || skip_spelled_space(
                s,
                scan.end,
            ) > scan.end) && secret_name(scan.name) {
                Some(KeyMatch { end: scan.end, dashes: leading_dashes(s, i) as nat })
            } else {
                None
            },
            None => None,
        }
    }
}

/// How many positions of white space are looked at to recognize a name of a secret at `i`: none,
/// where no name can start.
pub open spec fn secret_key_steps(s: Seq<char>, i: int) -> nat {
    if !(0 <= i <= s.len() && key_break_before(s, i)) || session_key_at(s, i) {
        0
    } else {
        match bounded_name(s, i) {
            Some(scan) => if scan.end == s.len() || separator_sign_at(s, scan.end) {
                0
            } else {
                spelled_space_steps(s, scan.end)
            },
            None => 0,
        }
    }
}

/// The name of a secret at character `i`, and how many positions of white space were looked at.
pub fn secret_key_at(s: &[char], i: usize) -> (r: (Option<SecretKeyMatch>, usize))
    requires
        i <= s.len(),
    ensures
        match (r.0, secret_key(s@, i as int)) {
            (Some(a), Some(b)) => a.end == b.end && a.cli_dashes == b.dashes && i < a.end <= s.len(),
            (None, None) => true,
            _ => false,
        },
        r.1 == secret_key_steps(s@, i as int),
{
    proof {
        reveal_strlit("_gitlab_session");
    }
    if i > 0 {
        let p: char = s[i - 1];
        if (p as u32) < 128 {
            if is_ascii_alphanumeric(p) || p == '_' || p == '-' {
                return (None, 0);
            }
        } else if !p.is_whitespace() {
            return (None, 0);
        }
    }
    if is_text_at(s, i, "_gitlab_session") && is_at(s, i + 15, '=') {
        return (Some(SecretKeyMatch { end: i + 15, cli_dashes: 0 }), 0);
    }
    if i >= s.len() {
        return (None, 0);
    }
    let first: char = s[i];
    if !is_ascii_alphanumeric(first) && first != '-' {
        return (None, 0);
    }
    let mut start: usize = i;
    let mut cli_dashes: u8 = 0;
    while cli_dashes < 2 && start < s.len() && s[start] == '-'
        invariant
            cli_dashes <= 2,
            start == i + cli_dashes,
            start <= s.len(),
            cli_dashes >= 1 ==> at(s@, i as int, '-'),
            cli_dashes >= 2 ==> at(s@, i + 1, '-'),
        decreases 2 - cli_dashes,
    {
        start = start + 1;
        cli_dashes = cli_dashes + 1;
    }
    if is_at(s, start, '-') {
        return (None, 0);
    }
    match read_name(s, start) {
        Some(read) => {
            if read.end - start > MAX_SPAN || read.open {
                return (None, 0);
            }
            let mut steps: usize = 0;
            let mut allowed: bool = read.end == s.len() || is_separator_sign_at(s, read.end);
            if !allowed {
                let (end, looked) = skip_assignment_whitespace(s, read.end);
                allowed = end > read.end;
                steps = looked;
            }
            if allowed && is_secret_key(read.name.as_slice()) {
                proof {
                    lemma_secret_key(s@, i as int);
                }
                (Some(SecretKeyMatch { end: read.end, cli_dashes }), steps)
            } else {
                (None, steps)
            }
        },
        None => (None, 0),
    }
}

/// Whether the characters of `s` from `from` up to `to` take at most `max` bytes.
fn spans_at_most(s: &[char], from: usize, to: usize, max: usize) -> (r: bool)
    requires
        from <= to <= s.len(),
    ensures
        r == (utf8_len(s@.subrange(from as int, to as int)) <= max),
{
    let mut bytes: usize = 0;
    let mut i: usize = from;
    while i < to
        invariant
            from <= i <= to <= s.len(),
            bytes == utf8_len(s@.subrange(from as int, i as int)),
            bytes <= max,
        decreases to - i,
    {
        let width: usize = width_of(s[i]);
        proof {
            lemma_utf8_push(s@.subrange(from as int, i as int), s@[i as int]);
            assert(s@.subrange(from as int, i + 1) =~= s@.subrange(from as int, i as int).push(s@[i as int]));
            lemma_utf8_concat(s@.subrange(from as int, i + 1), s@.subrange(i + 1, to as int));
            assert(s@.subrange(from as int, to as int) =~= s@.subrange(from as int, i + 1) + s@.subrange(
                i + 1,
                to as int,
            ));
        }
        if width > max - bytes {
            return false;
        }
        bytes = bytes + width;
        i = i + 1;
    }
    true
}

/// Where the white space at `i` ends. With `literal`, markers count where they are spelled out;
/// else where neutralization put them.
pub open spec fn skip_blank(t: Neutral, literal: bool, i: int) -> int {
    if literal {
        skip_spelled_space(t.text, i)
    } else {
        skip_space(t, i)
    }
}

pub fn skip_assignment_whitespace_with_provenance(t: &MarkedText, literal: bool, i: usize) -> (r: usize)
    requires
        t@.wf(),
        i <= t.chars.len(),
    ensures
        r == skip_blank(t@, literal, i as int),
        i <= r <= t.chars.len(),
{
    if literal {
        skip_assignment_whitespace(t.chars.as_slice(), i).0
    } else {
        skip_provenance_whitespace(t, i)
    }
}

/// The blank between a name and its separator: its end, and whether it is made of white space and
/// of markers that neutralization put there alone.
pub open spec fn separator_blank(t: Neutral, literal: bool, i: int) -> (int, bool) {
    let own = skip_blank(t, literal, i);
    let spelled = skip_spelled_space(t.text, own);
    if literal {
        (own, true)
    } else if spelled > own {
        (spelled, false)
    } else {
        (own, own > i)
    }
}

pub fn skip_key_separator_whitespace(t: &MarkedText, literal: bool, i: usize) -> (r: (usize, bool))
    requires
        t@.wf(),
        i <= t.chars.len(),
    ensures
        r.0 == separator_blank(t@, literal, i as int).0,
        r.1 == separator_blank(t@, literal, i as int).1,
        i <= r.0 <= t.chars.len(),
{
    let own: usize = skip_assignment_whitespace_with_provenance(t, literal, i);
    if literal {
        return (own, true);
    }
    let spelled: usize = skip_assignment_whitespace(t.chars.as_slice(), own).0;
    if spelled > own {
        return (spelled, false);
    }
    (own, own > i)
}

/// An invisible marker, which neutralization put at `i`, inside a name.
pub open spec fn marker_in_name(t: Neutral, literal: bool, i: int) -> Option<int> {
    if literal || !at(t.text, i, '[') {
        None
    } else {
        match t.marker_at(i) {
            Some(m) => if invisible_mark(m) {
                Some(m.end)
            } else {
                None
            },
            None => None,
        }
    }
}

/// Where the name of an assignment that began at `start` ends, from `i` on; nothing, where it
/// holds too many markers, spans too many bytes, or ends in a marker.
pub open spec fn assigned_name_end(
    t: Neutral,
    literal: bool,
    start: int,
    i: int,
    marks: nat,
    seen: bool,
    open: bool,
) -> Option<int>
    decreases t.text.len() - i,
    when t.wf()
{
    proof {
        lemma_marker_at(t, i);
    }
    if seen && marker_in_name(t, literal, i) is Some {
        let end = marker_in_name(t, literal, i)->0;
        if marks + 1 > MAX_MARKERS || utf8_len(t.text.subrange(start, end)) > MAX_SPAN {
            None
        } else {
            assigned_name_end(t, literal, start, end, marks + 1, seen, true)
        }
    } else if 0 <= i < t.text.len() && word_char(t.text[i]) {
        assigned_name_end(t, literal, start, i + 1, marks, true, false)
    } else if !seen || open {
        None
    } else {
        Some(i)
    }
}

/// The place of the separator, where an assignment stands at `start`.
pub open spec fn assignment_separator(t: Neutral, literal: bool, start: int) -> Option<int> {
    match assigned_name_end(t, literal, start, start, 0, false, false) {
        Some(end) => {
            let separator = skip_blank(t, literal, end);
            if separator_sign_at(t.text, separator) {
                Some(separator)
            } else {
                None
            }
        },
        None => None,
    }
}

pub fn assignment_separator_at(t: &MarkedText, literal: bool, start: usize) -> (r: Option<usize>)
    requires
        t@.wf(),
        start <= t.chars.len(),
    ensures
        match r {
            Some(i) => assignment_separator(t@, literal, start as int) == Some(i as int) && start <= i
                < t.chars.len(),
            None => assignment_separator(t@, literal, start as int) is None,
        },
{
    let mut i: usize = start;
    let mut marks: u8 = 0;
    let mut seen: bool = false;
    let mut open: bool = false;
    let ghost whole = assigned_name_end(t@, literal, start as int, start as int, 0, false, false);
    while i < t.chars.len()
        invariant
            t@.wf(),
            start <= i <= t.chars.len(),
            marks <= MAX_MARKERS,
            whole == assigned_name_end(t@, literal, start as int, start as int, 0, false, false),
            whole == assigned_name_end(t@, literal, start as int, i as int, marks as nat, seen, open),
        ensures
            t@.wf(),
            start <= i <= t.chars.len(),
            whole == (if !seen || open {
                None
            } else {
                Some(i as int)
            }),
        decreases t.chars.len() - i,
    {
        if seen && !literal && t.chars[i] == '[' {
            match t.marker_at(i) {
                Some(m) => {
                    if is_invisible_marker(m) {
                        if marks == MAX_MARKERS || !spans_at_most(t.chars.as_slice(), start, m.end, MAX_SPAN) {
                            return None;
                        }
                        marks = marks + 1;
                        i = m.end;
                        open = true;
                        continue;
                    }
                },
                None => {},
            }
        }
        if !is_word_char(t.chars[i]) {
            break;
        }
        i = i + 1;
        seen = true;
        open = false;
    }
    if !seen || open {
        return None;
    }
    let separator: usize = skip_assignment_whitespace_with_provenance(t, literal, i);
    if is_separator_sign_at(t.chars.as_slice(), separator) {
        Some(separator)
    } else {
        None
    }
}

/// Where the value of a secret starts, whose name stands at `i`.
pub open spec fn secret_value(t: Neutral, literal: bool, i: int) -> Option<int> {
    match secret_key(t.text, i) {
        None => None,
        Some(key) => {
            let (blank_end, own_blank) = separator_blank(t, literal, key.end);
            // The value after the separator at `sign`, unless a line of its own starts there.
            let after = |sign: int|
                {
                    let value = skip_blank(t, literal, sign + 1);
                    if value > sign + 1 && assignment_separator(t, literal, value) is Some {
                        None
                    } else {
                        Some(value)
                    }
                };
            if key.dashes > 0 && at(t.text, key.end, '=') {
                after(key.end)
            } else if key.dashes > 0 {
                if blank_end <= key.end {
                    None
                } else if separator_sign_at(t.text, blank_end) {
                    if own_blank {
                        None
                    } else {
                        after(blank_end)
                    }
                } else if own_blank && assignment_separator(t, literal, blank_end) is Some {
                    None
                } else {
                    Some(blank_end)
                }
            } else if !separator_sign_at(t.text, blank_end) || separator_sign_at(
                t.text,
                skip_blank(t, literal, blank_end + 1),
            ) {
                None
            } else {
                after(blank_end)
            }
        },
    }
}

fn value_after(t: &MarkedText, literal: bool, sign: usize) -> (r: Option<usize>)
    requires
        t@.wf(),
        sign < t.chars.len(),
    ensures
        ({
            let value = skip_blank(t@, literal, sign + 1);
            match r {
                Some(v) => v == value && sign < v <= t.chars.len() && !(value > sign + 1
                    && assignment_separator(t@, literal, value) is Some),
                None => value > sign + 1 && assignment_separator(t@, literal, value) is Some,
            }
        }),
{
    let value: usize = skip_assignment_whitespace_with_provenance(t, literal, sign + 1);
    if value > sign + 1 && assignment_separator_at(t, literal, value).is_some() {
        None
    } else {
        Some(value)
    }
}

pub fn secret_value_start(t: &MarkedText, literal: bool, i: usize) -> (r: Option<usize>)
    requires
        t@.wf(),
        i <= t.chars.len(),
    ensures
        match r {
            Some(v) => secret_value(t@, literal, i as int) == Some(v as int) && i < v <= t.chars.len(),
            None => secret_value(t@, literal, i as int) is None,
        },
{
    let s: &[char] = t.chars.as_slice();
    match secret_key_at(s, i).0 {
        None => None,
        Some(key) => {
            if key.cli_dashes > 0 && is_at(s, key.end, '=') {
                return value_after(t, literal, key.end);
            }
            let (blank_end, own_blank) = skip_key_separator_whitespace(t, literal, key.end);
            if key.cli_dashes > 0 {
                if blank_end <= key.end {
                    None
                } else if is_separator_sign_at(s, blank_end) {
                    if own_blank {
                        None
                    } else {
                        value_after(t, literal, blank_end)
                    }
                } else if own_blank && assignment_separator_at(t, literal, blank_end).is_some() {
                    None
                } else {
                    Some(blank_end)
                }
            } else {
                if !is_separator_sign_at(s, blank_end) {
                    return None;
                }
                let value: usize = skip_assignment_whitespace_with_provenance(t, literal, blank_end + 1);
                if is_separator_sign_at(s, value) {
                    return None;
                }
                value_after(t, literal, blank_end)
            }
        },
    }
}

} // verus!
