//! Positions in a text: what to skip, and where a value ends.
use super::marks::{GeneratedMarker, Mark, MarkedText, MarkerKind, Neutral};
use crate::text::{at, is_text_at, letter_or_number, text_at, white_space};
use vstd::prelude::*;

verus! {

pub open spec fn quote(c: char) -> bool {
    c == '\'' || c == '"'
}

pub fn is_quote(c: char) -> (r: bool)
    ensures
        r == quote(c),
{
    c == '\'' || c == '"'
}

/// A quote stands at position `i`.
pub open spec fn quote_at(s: Seq<char>, i: int) -> bool {
    0 <= i < s.len() && quote(s[i])
}

pub fn is_quote_at(s: &[char], i: usize) -> (r: bool)
    ensures
        r == quote_at(s@, i as int),
{
    i < s.len() && is_quote(s[i])
}

/// A backslash and a quote stand at position `i`.
pub open spec fn escaped_quote_at(s: Seq<char>, i: int) -> bool {
    at(s, i, '\\') && quote_at(s, i + 1)
}

pub fn is_escaped_quote_at(s: &[char], i: usize) -> (r: bool)
    ensures
        r == escaped_quote_at(s@, i as int),
{
    i < s.len() && s[i] == '\\' && is_quote_at(s, i + 1)
}

/// An equals sign or a colon stands at position `i`.
pub open spec fn separator_sign_at(s: Seq<char>, i: int) -> bool {
    at(s, i, '=') || at(s, i, ':')
}

pub fn is_separator_sign_at(s: &[char], i: usize) -> (r: bool)
    ensures
        r == separator_sign_at(s@, i as int),
{
    i < s.len() && (s[i] == '=' || s[i] == ':')
}

/// How many backslashes stand in a row just before `i`, counting none before `start`.
pub open spec fn backslashes_before(s: Seq<char>, start: int, i: int) -> nat
    decreases i - start,
{
    if start < i && at(s, i - 1, '\\') {
        1 + backslashes_before(s, start, i - 1)
    } else {
        0
    }
}

/// An odd number of backslashes stands before `i`, so that the last one escapes what follows.
pub open spec fn escaped(s: Seq<char>, start: int, i: int) -> bool {
    backslashes_before(s, start, i) % 2 == 1
}

pub fn is_escaped(s: &[char], start: usize, i: usize) -> (r: bool)
    requires
        i <= s.len(),
    ensures
        r == escaped(s@, start as int, i as int),
{
    let mut boundary: usize = i;
    while boundary > start && s[boundary - 1] == '\\'
        invariant
            boundary <= i <= s.len(),
            backslashes_before(s@, start as int, i as int) == (i - boundary) + backslashes_before(
                s@,
                start as int,
                boundary as int,
            ),
        decreases boundary,
    {
        boundary = boundary - 1;
    }
    (i - boundary) % 2 == 1
}

/// The marker of a tab, a line feed, a vertical tab, a form feed or a carriage return is spelled
/// out at position `i`.
pub open spec fn spelled_space_at(s: Seq<char>, i: int) -> bool {
    &&& i + 16 <= s.len()
    &&& {
        ||| text_at(s, i, "[CONTROL-U+0009]"@)
        ||| text_at(s, i, "[CONTROL-U+000A]"@)
        ||| text_at(s, i, "[CONTROL-U+000B]"@)
        ||| text_at(s, i, "[CONTROL-U+000C]"@)
        ||| text_at(s, i, "[CONTROL-U+000D]"@)
    }
}

pub fn is_spelled_space_at(s: &[char], i: usize) -> (r: bool)
    ensures
        r == spelled_space_at(s@, i as int),
{
    proof {
        reveal_strlit("[CONTROL-U+0009]");
        reveal_strlit("[CONTROL-U+000A]");
        reveal_strlit("[CONTROL-U+000B]");
        reveal_strlit("[CONTROL-U+000C]");
        reveal_strlit("[CONTROL-U+000D]");
    }
    is_text_at(s, i, "[CONTROL-U+0009]") || is_text_at(s, i, "[CONTROL-U+000A]") || is_text_at(
        s,
        i,
        "[CONTROL-U+000B]",
    ) || is_text_at(s, i, "[CONTROL-U+000C]") || is_text_at(s, i, "[CONTROL-U+000D]")
}

/// Where the white space and the spelled out white space at `i` ends.
pub open spec fn skip_spelled_space(s: Seq<char>, i: int) -> int
    decreases s.len() - i,
{
    if i < 0 || i >= s.len() {
        i
    } else if spelled_space_at(s, i) {
        skip_spelled_space(s, i + 16)
    } else if white_space(s[i]) {
        skip_spelled_space(s, i + 1)
    } else {
        i
    }
}

/// How many positions are looked at to find where the white space at `i` ends.
pub open spec fn spelled_space_steps(s: Seq<char>, i: int) -> nat
    decreases s.len() - i,
{
    if i < 0 || i >= s.len() {
        0
    } else if spelled_space_at(s, i) {
        1 + spelled_space_steps(s, i + 16)
    } else if white_space(s[i]) {
        1 + spelled_space_steps(s, i + 1)
    } else {
        1
    }
}

pub proof fn lemma_skip_spelled_space(s: Seq<char>, i: int)
    requires
        0 <= i <= s.len(),
    ensures
        i <= skip_spelled_space(s, i) <= s.len(),
        spelled_space_steps(s, i) <= s.len() - i,
    decreases s.len() - i,
{
    if i < s.len() {
        if spelled_space_at(s, i) {
            lemma_skip_spelled_space(s, i + 16);
        } else if white_space(s[i]) {
            lemma_skip_spelled_space(s, i + 1);
        }
    }
}

/// The end of the white space at `i`, and how many positions were looked at.
pub fn skip_assignment_whitespace(s: &[char], i: usize) -> (r: (usize, usize))
    requires
        i <= s.len(),
    ensures
        r.0 == skip_spelled_space(s@, i as int),
        i <= r.0 <= s.len(),
        r.1 == spelled_space_steps(s@, i as int),
{
    let mut cursor: usize = i;
    let mut steps: usize = 0;
    proof {
        lemma_skip_spelled_space(s@, i as int);
    }
    while cursor < s.len()
        invariant
            i <= cursor <= s.len(),
            skip_spelled_space(s@, i as int) == skip_spelled_space(s@, cursor as int),
            spelled_space_steps(s@, i as int) == steps + spelled_space_steps(s@, cursor as int),
            spelled_space_steps(s@, i as int) <= s.len(),
        decreases s.len() - cursor,
    {
        if is_spelled_space_at(s, cursor) {
            cursor = cursor + 16;
        } else if s[cursor].is_whitespace() {
            cursor = cursor + 1;
        } else {
            return (cursor, steps + 1);
        }
        steps = steps + 1;
    }
    (cursor, steps)
}

/// The marker of white space: a tab, a line feed, a vertical tab, a form feed or a carriage return.
pub open spec fn space_mark(m: Mark) -> bool {
    m.kind == MarkerKind::Control && 0x0009 <= m.code_point <= 0x000d
}

/// The marker of a line feed or a carriage return.
pub open spec fn record_break_mark(m: Mark) -> bool {
    m.kind == MarkerKind::Control && (m.code_point == 0x000a || m.code_point == 0x000d)
}

/// The marker of a character that JSON counts as white space.
pub open spec fn json_space_mark(m: Mark) -> bool {
    m.kind == MarkerKind::Control && (m.code_point == 0x0009 || m.code_point == 0x000a || m.code_point
        == 0x000d)
}

/// The marker of an invisible character.
pub open spec fn invisible_mark(m: Mark) -> bool {
    m.kind == MarkerKind::Bidi || m.kind == MarkerKind::Format
}

pub fn is_assignment_whitespace_marker(m: GeneratedMarker) -> (r: bool)
    ensures
        r == space_mark(m@),
{
    m.kind == MarkerKind::Control && 0x0009 <= m.code_point && m.code_point <= 0x000d
}

pub fn is_record_break_marker(m: GeneratedMarker) -> (r: bool)
    ensures
        r == record_break_mark(m@),
{
    m.kind == MarkerKind::Control && (m.code_point == 0x000a || m.code_point == 0x000d)
}

pub fn is_json_whitespace_marker(m: GeneratedMarker) -> (r: bool)
    ensures
        r == json_space_mark(m@),
{
    m.kind == MarkerKind::Control && (m.code_point == 0x0009 || m.code_point == 0x000a || m.code_point
        == 0x000d)
}

pub fn is_invisible_marker(m: GeneratedMarker) -> (r: bool)
    ensures
        r == invisible_mark(m@),
{
    m.kind == MarkerKind::Bidi || m.kind == MarkerKind::Format
}

pub proof fn lemma_marker_at(t: Neutral, i: int)
    requires
        t.wf(),
    ensures
        t.marker_at(i) matches Some(m) ==> m.start == i && 0 <= i < m.end <= t.text.len(),
{
}

pub proof fn lemma_marker_ending_at(t: Neutral, i: int)
    requires
        t.wf(),
    ensures
        t.marker_ending_at(i) matches Some(m) ==> m.end == i && 0 <= m.start < i <= t.text.len(),
{
}

/// A marker of white space that neutralization put at `i`.
pub open spec fn space_mark_at(t: Neutral, i: int) -> Option<Mark> {
    match t.marker_at(i) {
        Some(m) => if space_mark(m) {
            Some(m)
        } else {
            None
        },
        None => None,
    }
}

/// Where the white space at `i` ends, counting the markers that neutralization put there.
pub open spec fn skip_space(t: Neutral, i: int) -> int
    decreases t.text.len() - i,
    when t.wf()
{
    proof {
        lemma_marker_at(t, i);
    }
    match space_mark_at(t, i) {
        Some(m) => skip_space(t, m.end),
        None => if 0 <= i < t.text.len() && white_space(t.text[i]) {
            skip_space(t, i + 1)
        } else {
            i
        },
    }
}

/// The white space at `i` holds the marker of a line feed or of a carriage return.
pub open spec fn space_breaks_record(t: Neutral, i: int) -> bool
    decreases t.text.len() - i,
    when t.wf()
{
    proof {
        lemma_marker_at(t, i);
    }
    match space_mark_at(t, i) {
        Some(m) => record_break_mark(m) || space_breaks_record(t, m.end),
        None => if 0 <= i < t.text.len() && white_space(t.text[i]) {
            space_breaks_record(t, i + 1)
        } else {
            false
        },
    }
}

/// The end of the white space at `i`, and whether it holds the marker of a line break.
pub fn skip_authorization_value_whitespace(t: &MarkedText, i: usize) -> (r: (usize, bool))
    requires
        t@.wf(),
        i <= t.chars.len(),
    ensures
        r.0 == skip_space(t@, i as int),
        r.1 == space_breaks_record(t@, i as int),
        i <= r.0 <= t.chars.len(),
{
    let mut cursor: usize = i;
    let mut crossed: bool = false;
    loop
        invariant
            t@.wf(),
            i <= cursor <= t.chars.len(),
            skip_space(t@, i as int) == skip_space(t@, cursor as int),
            space_breaks_record(t@, i as int) == (crossed || space_breaks_record(t@, cursor as int)),
        decreases t.chars.len() - cursor,
    {
        match t.marker_at(cursor) {
            Some(m) => {
                if is_assignment_whitespace_marker(m) {
                    crossed = crossed || is_record_break_marker(m);
                    cursor = m.end;
                    continue;
                }
            },
            None => {},
        }
        if cursor < t.chars.len() && t.chars[cursor].is_whitespace() {
            cursor = cursor + 1;
        } else {
            return (cursor, crossed);
        }
    }
}

/// The end of the white space at `i`.
pub fn skip_provenance_whitespace(t: &MarkedText, i: usize) -> (r: usize)
    requires
        t@.wf(),
        i <= t.chars.len(),
    ensures
        r == skip_space(t@, i as int),
        i <= r <= t.chars.len(),
{
    skip_authorization_value_whitespace(t, i).0
}

/// Where the spaces and the markers of JSON white space at `i` end.
pub open spec fn skip_json_space(t: Neutral, i: int) -> int
    decreases t.text.len() - i,
    when t.wf()
{
    proof {
        lemma_marker_at(t, i);
    }
    if at(t.text, i, ' ') {
        skip_json_space(t, i + 1)
    } else {
        match t.marker_at(i) {
            Some(m) => if json_space_mark(m) {
                skip_json_space(t, m.end)
            } else {
                i
            },
            None => i,
        }
    }
}

pub fn skip_json_whitespace(t: &MarkedText, i: usize) -> (r: usize)
    requires
        t@.wf(),
        i <= t.chars.len(),
    ensures
        r == skip_json_space(t@, i as int),
        i <= r <= t.chars.len(),
{
    let mut cursor: usize = i;
    loop
        invariant
            t@.wf(),
            i <= cursor <= t.chars.len(),
            skip_json_space(t@, i as int) == skip_json_space(t@, cursor as int),
        decreases t.chars.len() - cursor,
    {
        if cursor < t.chars.len() && t.chars[cursor] == ' ' {
            cursor = cursor + 1;
            continue;
        }
        match t.marker_at(cursor) {
            Some(m) => {
                if is_json_whitespace_marker(m) {
                    cursor = m.end;
                } else {
                    return cursor;
                }
            },
            None => {
                return cursor;
            },
        }
    }
}

/// Where the spaces and the markers of JSON white space before `i` begin.
pub open spec fn json_space_start(t: Neutral, i: int) -> int
    decreases i,
    when t.wf()
{
    proof {
        lemma_marker_ending_at(t, i);
    }
    if i > 0 && at(t.text, i - 1, ' ') {
        json_space_start(t, i - 1)
    } else {
        match t.marker_ending_at(i) {
            Some(m) => if json_space_mark(m) {
                json_space_start(t, m.start)
            } else {
                i
            },
            None => i,
        }
    }
}

/// What stands before `i`, white space aside, is an opening brace or a comma.
pub open spec fn json_key_boundary(t: Neutral, i: int) -> bool {
    let b = json_space_start(t, i);
    at(t.text, b - 1, '{') || at(t.text, b - 1, ',')
}

pub fn is_json_key_boundary(t: &MarkedText, i: usize) -> (r: bool)
    requires
        t@.wf(),
        i <= t.chars.len(),
    ensures
        r == json_key_boundary(t@, i as int),
{
    let mut cursor: usize = i;
    loop
        invariant
            t@.wf(),
            cursor <= i <= t.chars.len(),
            json_space_start(t@, i as int) == json_space_start(t@, cursor as int),
        decreases cursor,
    {
        if cursor > 0 && t.chars[cursor - 1] == ' ' {
            cursor = cursor - 1;
            continue;
        }
        match t.marker_ending_at(cursor) {
            Some(m) => {
                if is_json_whitespace_marker(m) {
                    cursor = m.start;
                    continue;
                }
            },
            None => {},
        }
        return cursor > 0 && (t.chars[cursor - 1] == '{' || t.chars[cursor - 1] == ',');
    }
}

/// A character that words are made of.
pub open spec fn word_char(c: char) -> bool {
    letter_or_number(c) || c == '_' || c == '-'
}

pub fn is_word_char(c: char) -> (r: bool)
    ensures
        r == word_char(c),
{
    c.is_alphanumeric() || c == '_' || c == '-'
}

/// No word runs into position `i` from the left.
pub open spec fn word_break_before(s: Seq<char>, i: int) -> bool {
    !(0 < i <= s.len() && word_char(s[i - 1]))
}

/// No word runs on at position `i`.
pub open spec fn word_break_after(s: Seq<char>, i: int) -> bool {
    !(0 <= i < s.len() && word_char(s[i]))
}

pub fn is_word_break_before(s: &[char], i: usize) -> (r: bool)
    requires
        i <= s.len(),
    ensures
        r == word_break_before(s@, i as int),
{
    !(0 < i && is_word_char(s[i - 1]))
}

pub fn is_word_break_after(s: &[char], i: usize) -> (r: bool)
    ensures
        r == word_break_after(s@, i as int),
{
    !(i < s.len() && is_word_char(s[i]))
}

/// The first `q` from `i` on, before `limit`, that no backslash after `start` escapes; `limit` or
/// `i` itself, whichever is later, if there is none.
pub open spec fn quoted_end(s: Seq<char>, start: int, i: int, q: char, limit: int) -> int
    decreases limit - i,
{
    if i >= limit || at(s, i, q) && !escaped(s, start, i) {
        i
    } else {
        quoted_end(s, start, i + 1, q, limit)
    }
}

pub fn raw_quoted_value_end(s: &[char], start: usize, q: char, limit: usize) -> (r: usize)
    requires
        start <= limit <= s.len(),
    ensures
        r == quoted_end(s@, start as int, start as int, q, limit as int),
        start <= r <= limit,
{
    let mut i: usize = start;
    while i < limit
        invariant
            start <= i <= limit <= s.len(),
            quoted_end(s@, start as int, start as int, q, limit as int) == quoted_end(
                s@,
                start as int,
                i as int,
                q,
                limit as int,
            ),
        decreases limit - i,
    {
        if s[i] == q && !is_escaped(s, start, i) {
            return i;
        }
        i = i + 1;
    }
    i
}

/// The first backslash from `i` on that stands before `q`, both before `limit`, and that no
/// backslash after `start` escapes; `limit` if there is none.
pub open spec fn escaped_quoted_end(s: Seq<char>, start: int, i: int, q: char, limit: int) -> int
    decreases limit - i,
{
    if i + 1 >= limit {
        limit
    } else if at(s, i, '\\') && at(s, i + 1, q) && !escaped(s, start, i) {
        i
    } else {
        escaped_quoted_end(s, start, i + 1, q, limit)
    }
}

pub fn escaped_quoted_value_end(s: &[char], start: usize, q: char, limit: usize) -> (r: usize)
    requires
        start <= s.len(),
        limit <= s.len(),
    ensures
        r == escaped_quoted_end(s@, start as int, start as int, q, limit as int),
        r <= limit,
        start <= limit ==> start <= r,
{
    let mut i: usize = start;
    while i < limit && i + 1 < limit
        invariant
            limit <= s.len(),
            start <= i,
            i <= limit || i == start,
            escaped_quoted_end(s@, start as int, start as int, q, limit as int) == escaped_quoted_end(
                s@,
                start as int,
                i as int,
                q,
                limit as int,
            ),
        decreases limit - i,
    {
        if s[i] == '\\' && s[i + 1] == q && !is_escaped(s, start, i) {
            return i;
        }
        i = i + 1;
    }
    limit
}

/// In a text that was escaped once, the outer quotes follow 4k + 1 backslashes and the inner ones
/// 4k + 3. This is where the backslash before the first outer `q` from `i` on stands, when `run`
/// backslashes stand before `i`; the end of the text if there is none.
pub open spec fn escaped_json_end(s: Seq<char>, i: int, run: nat, q: char) -> int
    decreases s.len() - i,
{
    if i < 0 || i >= s.len() {
        s.len() as int
    } else if s[i] == '\\' {
        escaped_json_end(s, i + 1, run + 1, q)
    } else if s[i] == q && run % 4 == 1 {
        i - 1
    } else {
        escaped_json_end(s, i + 1, 0, q)
    }
}

pub fn escaped_json_quoted_value_end(s: &[char], start: usize, q: char) -> (r: usize)
    requires
        start <= s.len(),
    ensures
        r == escaped_json_end(s@, start as int, 0, q),
        start <= r <= s.len(),
{
    let mut i: usize = start;
    let mut run: usize = 0;
    while i < s.len()
        invariant
            start <= i <= s.len(),
            run <= i - start,
            escaped_json_end(s@, start as int, 0, q) == escaped_json_end(s@, i as int, run as nat, q),
        decreases s.len() - i,
    {
        if s[i] == '\\' {
            run = run + 1;
        } else {
            if s[i] == q && run % 4 == 1 {
                return i - 1;
            }
            run = 0;
        }
        i = i + 1;
    }
    s.len()
}

/// A character that ends an unquoted value unless it is escaped.
pub open spec fn value_delimiter(c: char) -> bool {
    c == ' ' || c == ',' || c == ';' || c == '&'
}

/// An unquoted value that began at `start` ends at `i`.
pub open spec fn unquoted_stop(t: Neutral, marks: bool, start: int, i: int) -> bool {
    let c = t.text[i];
    ||| marks && space_mark_at(t, i) is Some
    ||| (white_space(c) || value_delimiter(c)) && !(value_delimiter(c) && escaped(t.text, start, i))
}

/// Where an unquoted value that began at `start` ends, from `i` on and not after `limit`. With
/// `marks`, the markers of white space end it too.
pub open spec fn unquoted_end(t: Neutral, marks: bool, start: int, i: int, limit: int) -> int
    decreases limit - i,
{
    if i >= limit || unquoted_stop(t, marks, start, i) {
        i
    } else {
        unquoted_end(t, marks, start, i + 1, limit)
    }
}

pub fn unquoted_value_end_bounded(t: &MarkedText, marks: bool, start: usize, limit: usize) -> (r: usize)
    requires
        t@.wf(),
        start <= limit <= t.chars.len(),
    ensures
        r == unquoted_end(t@, marks, start as int, start as int, limit as int),
        start <= r <= limit,
{
    let mut i: usize = start;
    while i < limit
        invariant
            t@.wf(),
            start <= i <= limit <= t.chars.len(),
            unquoted_end(t@, marks, start as int, start as int, limit as int) == unquoted_end(
                t@,
                marks,
                start as int,
                i as int,
                limit as int,
            ),
        decreases limit - i,
    {
        if marks {
            match t.marker_at(i) {
                Some(m) => {
                    if is_assignment_whitespace_marker(m) {
                        return i;
                    }
                },
                None => {},
            }
        }
        let c: char = t.chars[i];
        let delimiter: bool = c == ' ' || c == ',' || c == ';' || c == '&';
        if (c.is_whitespace() || delimiter) && !(delimiter && is_escaped(t.chars.as_slice(), start, i)) {
            return i;
        }
        i = i + 1;
    }
    i
}

} // verus!
