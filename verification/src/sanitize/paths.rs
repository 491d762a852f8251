//! Absolute paths, and the web addresses that look like them.
use super::marks::{MarkedText, Neutral};
use super::scan::{escaped, is_escaped, is_quote, quote};
use super::tokens::{token_shape, token_shape_at};
use crate::text::{
    ascii_alphabetic, ascii_hexdigit, at, control, is_ascii_alphabetic, is_ascii_hexdigit, is_at, is_control,
    is_word_at, lemma_utf8_concat, lemma_utf8_push, letter, letter_or_number, string_of, utf8_len, white_space,
    width_of, word_at,
};
use vstd::prelude::*;

verus! {

/// Whether a text is a URL, as the `url` crate reads it.
pub uninterp spec fn url_parses(text: Seq<char>) -> bool;

/// `url::Url::parse`: whether it accepts the text depends on the text alone. Which texts those
/// are is not stated here.
#[verifier::external_body]
fn parses_as_url(text: &str) -> (r: bool)
    ensures
        r == url_parses(text@),
{
    url::Url::parse(text).is_ok()
}

/// How an unquoted path goes on at a space.
#[derive(Clone, Copy, Debug, PartialEq, Eq, Structural)]
pub enum UnquotedSpacePolicy {
    /// Spaces belong to the path.
    Continue,
    /// A space belongs to the path only if a separator follows.
    RequireFollowingSeparator,
}

/// What starts like a web address, and where it ends.
#[derive(Clone, Copy, Debug, PartialEq, Eq, Structural)]
pub enum WebUrlSpan {
    /// It is a URL.
    Preserve(usize),
    /// It is none.
    Reject(usize),
}

/// A character that ends an unquoted path.
pub open spec fn path_terminator(c: char) -> bool {
    c == '\'' || c == '"' || c == '`' || c == ')' || c == ']' || c == '}' || c == ',' || c == ';' || c == '&' || c
        == '<' || c == '>' || c == '|'
}

fn is_path_terminator(c: char) -> (r: bool)
    ensures
        r == path_terminator(c),
{
    c == '\'' || c == '"' || c == '`' || c == ')' || c == ']' || c == '}' || c == ',' || c == ';' || c == '&' || c
        == '<' || c == '>' || c == '|'
}

/// A character that Windows allows in a name.
pub open spec fn windows_char(c: char) -> bool {
    !control(c) && c != '<' && c != '>' && c != ':' && c != '"' && c != '/' && c != '\\' && c != '|' && c != '?' && c
        != '*'
}

pub fn is_typed_windows_component_character(c: char) -> (r: bool)
    ensures
        r == windows_char(c),
{
    !is_control(c) && c != '<' && c != '>' && c != ':' && c != '"' && c != '/' && c != '\\' && c != '|' && c != '?'
        && c != '*'
}

/// The end of the path separator at `i`, plain or percent-encoded, and whether it is a slash.
pub open spec fn separator(s: Seq<char>, i: int) -> Option<(int, bool)> {
    if at(s, i, '/') {
        Some((i + 1, true))
    } else if at(s, i, '\\') {
        Some((i + 1, false))
    } else if word_at(s, i, "%2f"@) {
        Some((i + 3, true))
    } else if word_at(s, i, "%5c"@) {
        Some((i + 3, false))
    } else {
        None
    }
}

pub fn separator_end(s: &[char], i: usize) -> (r: Option<(usize, bool)>)
    ensures
        match r {
            Some((end, forward)) => separator(s@, i as int) == Some((end as int, forward)) && i < end <= s.len(),
            None => separator(s@, i as int) is None,
        },
{
    proof {
        reveal_strlit("%2f");
        reveal_strlit("%5c");
    }
    if i >= s.len() {
        return None;
    }
    if s[i] == '/' {
        Some((i + 1, true))
    } else if s[i] == '\\' {
        Some((i + 1, false))
    } else if is_word_at(s, i, "%2f") {
        Some((i + 3, true))
    } else if is_word_at(s, i, "%5c") {
        Some((i + 3, false))
    } else {
        None
    }
}

/// Where a web scheme that ends at `i` starts; `i` itself, if there is none.
pub open spec fn scheme_start(s: Seq<char>, i: int) -> int {
    if word_at(s, i - 5, "http:"@) {
        i - 5
    } else if word_at(s, i - 6, "https:"@) {
        i - 6
    } else {
        i
    }
}

fn find_scheme_start(s: &[char], i: usize) -> (r: usize)
    ensures
        r == scheme_start(s@, i as int),
        r <= i,
{
    if i >= 5 && is_word_at(s, i - 5, "http:") {
        i - 5
    } else if i >= 6 && is_word_at(s, i - 6, "https:") {
        i - 6
    } else {
        i
    }
}

/// The end of a Windows name that is read from `i` on; nothing, where a character stands in it
/// that no name holds. In quotes, the quote ends it; else white space or a terminator does.
pub open spec fn component_end(s: Seq<char>, i: int, q: Option<char>) -> Option<int>
    decreases s.len() - i,
{
    if i < 0 || i >= s.len() || separator(s, i) is Some {
        Some(i)
    } else {
        let c = s[i];
        if q == Some(c) || q is None && (white_space(c) || path_terminator(c)) {
            Some(i)
        } else if windows_char(c) {
            component_end(s, i + 1, q)
        } else {
            None
        }
    }
}

/// The end of a Windows name at `start` of at least one character.
pub open spec fn typed_component(s: Seq<char>, start: int, q: Option<char>) -> Option<int> {
    match component_end(s, start, q) {
        Some(end) => if end > start {
            Some(end)
        } else {
            None
        },
        None => None,
    }
}

pub fn typed_windows_component_end(s: &[char], start: usize, q: Option<char>) -> (r: Option<usize>)
    requires
        start <= s.len(),
    ensures
        match r {
            Some(end) => typed_component(s@, start as int, q) == Some(end as int) && start < end <= s.len(),
            None => typed_component(s@, start as int, q) is None,
        },
{
    let mut i: usize = start;
    while i < s.len()
        invariant
            start <= i <= s.len(),
            component_end(s@, start as int, q) == component_end(s@, i as int, q),
        ensures
            start <= i <= s.len(),
            component_end(s@, start as int, q) == Some(i as int),
        decreases s.len() - i,
    {
        if separator_end(s, i).is_some() {
            break;
        }
        let c: char = s[i];
        let stop: bool = match q {
            Some(mark) => c == mark,
            None => c.is_whitespace() || is_path_terminator(c),
        };
        if stop {
            break;
        }
        if !is_typed_windows_component_character(c) {
            return None;
        }
        i = i + 1;
    }
    if i > start {
        Some(i)
    } else {
        None
    }
}

/// `s` spells the word `w`, letter case aside.
pub open spec fn spells(s: Seq<char>, w: Seq<char>) -> bool {
    s.len() == w.len() && word_at(s, 0, w)
}

/// A name that is known to stand at the root of a Windows drive.
pub open spec fn known_windows_root(name: Seq<char>) -> bool {
    spells(name, "Users"@) || spells(name, "Windows"@)
}

pub fn is_known_windows_root(name: &[char]) -> (r: bool)
    ensures
        r == known_windows_root(name@),
{
    proof {
        reveal_strlit("Users");
        reveal_strlit("Windows");
    }
    name.len() == 5 && is_word_at(name, 0, "Users") || name.len() == 7 && is_word_at(name, 0, "Windows")
}

/// A letter or digit that is an escape sequence by itself after a backslash.
pub open spec fn single_escape(c: char) -> bool {
    c == '0' || c == 'A' || c == 'a' || c == 'b' || c == 'B' || c == 'd' || c == 'D' || c == 'e' || c == 'E' || c
        == 'f' || c == 'G' || c == 'n' || c == 'Q' || c == 'r' || c == 's' || c == 'S' || c == 't' || c == 'v' || c
        == 'w' || c == 'W' || c == 'z' || c == 'Z'
}

pub fn is_single_escape_head(c: char) -> (r: bool)
    ensures
        r == single_escape(c),
{
    c == '0' || c == 'A' || c == 'a' || c == 'b' || c == 'B' || c == 'd' || c == 'D' || c == 'e' || c == 'E' || c
        == 'f' || c == 'G' || c == 'n' || c == 'Q' || c == 'r' || c == 's' || c == 'S' || c == 't' || c == 'v' || c
        == 'w' || c == 'W' || c == 'z' || c == 'Z'
}

/// The characters of `s` from `from` up to `to` are there, and all hexadecimal digits.
pub open spec fn hex_between(s: Seq<char>, from: int, to: int) -> bool {
    to <= s.len() && forall|k: int| from <= k < to ==> ascii_hexdigit(#[trigger] s[k])
}

fn is_hex_between(s: &[char], from: usize, to: usize) -> (r: bool)
    requires
        from <= to,
    ensures
        r == hex_between(s@, from as int, to as int),
{
    if to > s.len() {
        return false;
    }
    let mut k: usize = from;
    while k < to
        invariant
            from <= k <= to <= s.len(),
            forall|j: int| from <= j < k ==> ascii_hexdigit(#[trigger] s@[j]),
        decreases to - k,
    {
        if !is_ascii_hexdigit(s[k]) {
            assert(!ascii_hexdigit(s@[k as int]));
            return false;
        }
        k = k + 1;
    }
    true
}

/// An escape sequence of several characters, and nothing else.
pub open spec fn compound_escape(s: Seq<char>) -> bool {
    s.len() > 0 && {
        let head = s[0];
        let n = s.len() as int;
        if head == 'x' || head == 'X' {
            n == 3 && hex_between(s, 1, n)
        } else if head == 'u' || head == 'U' {
            (n == 5 || n == 9) && hex_between(s, 1, n)
        } else if head == 'c' || head == 'C' {
            n == 2 && ascii_alphabetic(s[1])
        } else if head == 'p' || head == 'P' {
            utf8_len(s.drop_first()) <= 3 && forall|k: int| 1 <= k < n ==> letter(#[trigger] s[k])
        } else {
            false
        }
    }
}

pub fn is_compound_escape_component(s: &[char]) -> (r: bool)
    ensures
        r == compound_escape(s@),
{
    if s.len() == 0 {
        return false;
    }
    let head: char = s[0];
    let n: usize = s.len();
    if head == 'x' || head == 'X' {
        n == 3 && is_hex_between(s, 1, n)
    } else if head == 'u' || head == 'U' {
        (n == 5 || n == 9) && is_hex_between(s, 1, n)
    } else if head == 'c' || head == 'C' {
        n == 2 && is_ascii_alphabetic(s[1])
    } else if head == 'p' || head == 'P' {
        let mut bytes: usize = 0;
        let mut k: usize = 1;
        assert(s@.drop_first().take(0) =~= Seq::<char>::empty());
        while k < n
            invariant
                1 <= k <= n,
                n == s.len(),
                bytes == utf8_len(s@.drop_first().take(k - 1)),
                bytes <= 3,
                forall|j: int| 1 <= j < k ==> letter(#[trigger] s@[j]),
                s@.len() > 0,
                s@[0] == 'p' || s@[0] == 'P',
            decreases n - k,
        {
            let width: usize = width_of(s[k]);
            proof {
                let tail = s@.drop_first();
                lemma_utf8_push(tail.take(k - 1), tail[k - 1]);
                assert(tail.take(k as int) =~= tail.take(k - 1).push(tail[k - 1]));
                lemma_utf8_concat(tail.take(k as int), tail.skip(k as int));
                assert(tail.take(k as int) + tail.skip(k as int) =~= tail);
            }
            if bytes + width > 3 {
                return false;
            }
            if !s[k].is_alphabetic() {
                assert(!letter(s@[k as int]));
                return false;
            }
            bytes = bytes + width;
            k = k + 1;
        }
        assert(s@.drop_first().take(n - 1) =~= s@.drop_first());
        true
    } else {
        false
    }
}

/// An escape sequence, possibly with a plus sign, and nothing else.
pub open spec fn escape_component(s: Seq<char>) -> bool {
    if s.len() == 1 || s.len() == 2 && s[1] == '+' {
        single_escape(s[0])
    } else {
        compound_escape(s)
    }
}

pub fn is_escape_component(s: &[char]) -> (r: bool)
    ensures
        r == escape_component(s@),
{
    if s.len() == 1 || s.len() == 2 && s[1] == '+' {
        is_single_escape_head(s[0])
    } else {
        is_compound_escape_component(s)
    }
}

/// A category of Unicode characters in a regular expression.
pub open spec fn category_letter(c: char) -> bool {
    c == 'L' || c == 'M' || c == 'N' || c == 'P' || c == 'S' || c == 'Z' || c == 'C'
}

/// An escape sequence of several characters stands at the beginning.
pub open spec fn compound_escape_start(s: Seq<char>) -> bool {
    s.len() > 0 && {
        let head = s[0];
        if head == 'x' || head == 'X' {
            hex_between(s, 1, 3)
        } else if head == 'u' {
            hex_between(s, 1, 5)
        } else if head == 'U' {
            hex_between(s, 1, 9)
        } else if head == 'p' || head == 'P' {
            s.len() > 1 && category_letter(s[1])
        } else if head == 'c' || head == 'C' {
            s.len() > 1 && ascii_alphabetic(s[1])
        } else {
            false
        }
    }
}

pub fn starts_compound_escape(s: &[char]) -> (r: bool)
    ensures
        r == compound_escape_start(s@),
{
    if s.len() == 0 {
        return false;
    }
    let head: char = s[0];
    if head == 'x' || head == 'X' {
        is_hex_between(s, 1, 3)
    } else if head == 'u' {
        is_hex_between(s, 1, 5)
    } else if head == 'U' {
        is_hex_between(s, 1, 9)
    } else if head == 'p' || head == 'P' {
        s.len() > 1 && {
            let c: char = s[1];
            c == 'L' || c == 'M' || c == 'N' || c == 'P' || c == 'S' || c == 'Z' || c == 'C'
        }
    } else if head == 'c' || head == 'C' {
        s.len() > 1 && is_ascii_alphabetic(s[1])
    } else {
        false
    }
}

pub open spec fn octal_start(s: Seq<char>) -> bool {
    s.len() > 0 && '0' <= s[0] <= '7'
}

pub fn starts_octal_escape(s: &[char]) -> (r: bool)
    ensures
        r == octal_start(s@),
{
    s.len() > 0 && '0' <= s[0] && s[0] <= '7'
}

/// Two texts, each after a backslash, that read as escape sequences rather than as names.
pub open spec fn escape_pair(first: Seq<char>, second: Seq<char>) -> bool {
    ||| (compound_escape_start(first) || first.len() > 0 && single_escape(first[0])) && (escape_component(second)
        || compound_escape_start(second))
    ||| at(first, 0, 'Q') && at(second, 0, 'E')
    ||| octal_start(first) && octal_start(second)
}

pub fn looks_like_escape_sequence(first: &[char], second: &[char]) -> (r: bool)
    ensures
        r == escape_pair(first@, second@),
{
    (starts_compound_escape(first) || first.len() > 0 && is_single_escape_head(first[0])) && (is_escape_component(
        second,
    ) || starts_compound_escape(second)) || is_at(first, 0, 'Q') && is_at(second, 0, 'E')
        || starts_octal_escape(first) && starts_octal_escape(second)
}

/// The quote just before `i`.
pub open spec fn quote_before(s: Seq<char>, i: int) -> Option<char> {
    if 0 < i <= s.len() && quote(s[i - 1]) {
        Some(s[i - 1])
    } else {
        None
    }
}

/// A single backslash at `root`, with its first name at `start`, roots a path: two names follow,
/// and they do not read as escape sequences.
pub open spec fn backslash_root(s: Seq<char>, root: int, start: int) -> bool {
    let q = quote_before(s, root);
    match typed_component(s, start, q) {
        Some(first_end) => match separator(s, first_end) {
            Some((second_start, _)) => match typed_component(s, second_start, q) {
                Some(second_end) => {
                    let first = s.subrange(start, first_end);
                    let second = s.subrange(second_start, second_end);
                    known_windows_root(first) || !escape_pair(first, second) || separator(s, second_end) is Some
                },
                None => false,
            },
            None => false,
        },
        None => false,
    }
}

fn copied(s: &[char], from: usize, to: usize) -> (r: Vec<char>)
    requires
        from <= to <= s.len(),
    ensures
        r@ == s@.subrange(from as int, to as int),
{
    let mut out: Vec<char> = Vec::new();
    let mut i: usize = from;
    while i < to
        invariant
            from <= i <= to <= s.len(),
            out@ == s@.subrange(from as int, i as int),
        decreases to - i,
    {
        out.push(s[i]);
        i = i + 1;
        assert(out@ =~= s@.subrange(from as int, i as int));
    }
    out
}

pub fn is_single_backslash_root(s: &[char], root: usize, start: usize) -> (r: bool)
    requires
        root <= s.len(),
        start <= s.len(),
    ensures
        r == backslash_root(s@, root as int, start as int),
{
    let q: Option<char> = if root > 0 && is_quote(s[root - 1]) {
        Some(s[root - 1])
    } else {
        None
    };
    match typed_windows_component_end(s, start, q) {
        Some(first_end) => match separator_end(s, first_end) {
            Some((second_start, _)) => match typed_windows_component_end(s, second_start, q) {
                Some(second_end) => {
                    let first: Vec<char> = copied(s, start, first_end);
                    let second: Vec<char> = copied(s, second_start, second_end);
                    is_known_windows_root(first.as_slice()) || !looks_like_escape_sequence(
                        first.as_slice(),
                        second.as_slice(),
                    ) || separator_end(s, second_end).is_some()
                },
                None => false,
            },
            None => false,
        },
        None => false,
    }
}

/// The end of the root of an absolute path at `i`, and how the path goes on at a space.
pub open spec fn path_root(s: Seq<char>, i: int) -> Option<(int, UnquotedSpacePolicy)> {
    let root = if word_at(s, i, "file:"@) {
        i + 5
    } else {
        i
    };
    if 0 <= root < s.len() && ascii_alphabetic(s[root]) && at(s, root + 1, ':') {
        match separator(s, root + 2) {
            Some((end, _)) => Some((end, UnquotedSpacePolicy::Continue)),
            None => None,
        }
    } else {
        match separator(s, root) {
            None => None,
            Some((first, forward)) => if root > i || forward {
                Some((first, UnquotedSpacePolicy::Continue))
            } else if scheme_start(s, i) < i {
                Some((first, UnquotedSpacePolicy::RequireFollowingSeparator))
            } else {
                match separator(s, first) {
                    Some((end, second_forward)) => if second_forward {
                        None
                    } else {
                        Some((end, UnquotedSpacePolicy::Continue))
                    },
                    None => if backslash_root(s, root, first) {
                        Some((first, UnquotedSpacePolicy::RequireFollowingSeparator))
                    } else {
                        None
                    },
                }
            },
        }
    }
}

pub fn absolute_root(s: &[char], i: usize) -> (r: Option<(usize, UnquotedSpacePolicy)>)
    requires
        i <= s.len(),
    ensures
        match r {
            Some((end, policy)) => path_root(s@, i as int) == Some((end as int, policy)) && i < end <= s.len(),
            None => path_root(s@, i as int) is None,
        },
{
    proof {
        reveal_strlit("file:");
    }
    let root: usize = if is_word_at(s, i, "file:") {
        i + 5
    } else {
        i
    };
    if root < s.len() && is_ascii_alphabetic(s[root]) && is_at(s, root + 1, ':') {
        return match separator_end(s, root + 2) {
            Some((end, _)) => Some((end, UnquotedSpacePolicy::Continue)),
            None => None,
        };
    }
    match separator_end(s, root) {
        None => None,
        Some((first, forward)) => {
            if root > i || forward {
                return Some((first, UnquotedSpacePolicy::Continue));
            }
            if find_scheme_start(s, i) < i {
                return Some((first, UnquotedSpacePolicy::RequireFollowingSeparator));
            }
            match separator_end(s, first) {
                Some((end, second_forward)) => {
                    if second_forward {
                        None
                    } else {
                        Some((end, UnquotedSpacePolicy::Continue))
                    }
                },
                None => {
                    if is_single_backslash_root(s, root, first) {
                        Some((first, UnquotedSpacePolicy::RequireFollowingSeparator))
                    } else {
                        None
                    }
                },
            }
        },
    }
}

/// Whether a double quote is open after the characters from `i` up to `end`, when `active` told
/// it before them: nothing, or whether the quote that is open is an escaped one.
pub open spec fn double_quote_after(s: Seq<char>, i: int, end: int, active: Option<bool>) -> Option<bool>
    decreases end - i,
{
    if i >= end {
        active
    } else {
        let next = if at(s, i, '"') {
            match active {
                None => Some(escaped(s, 0, i)),
                Some(kind) => if kind == escaped(s, 0, i) {
                    None
                } else {
                    active
                },
            }
        } else {
            active
        };
        double_quote_after(s, i + 1, end, next)
    }
}

pub fn advance_double_quote_context(s: &[char], start: usize, end: usize, active: Option<bool>) -> (r: Option<bool>)
    requires
        end <= s.len(),
    ensures
        r == double_quote_after(s@, start as int, end as int, active),
{
    let mut i: usize = start;
    let mut now: Option<bool> = active;
    while i < end
        invariant
            start <= i,
            end <= s.len(),
            double_quote_after(s@, start as int, end as int, active) == double_quote_after(
                s@,
                i as int,
                end as int,
                now,
            ),
        decreases end - i,
    {
        if s[i] == '"' {
            let by_backslash: bool = is_escaped(s, 0, i);
            now = match now {
                None => Some(by_backslash),
                Some(kind) => if kind == by_backslash {
                    None
                } else {
                    Some(kind)
                },
            };
        }
        i = i + 1;
    }
    now
}

/// The quote that a path at `start` stands in, and whether it is an escaped one.
pub open spec fn path_quote(s: Seq<char>, start: int, double_quote: Option<bool>) -> Option<(char, bool)> {
    match double_quote {
        Some(by_backslash) => Some(('"', by_backslash)),
        None => {
            let subject = scheme_start(s, start);
            match quote_before(s, subject) {
                Some(q) => Some((q, escaped(s, 0, subject - 1))),
                None => None,
            }
        },
    }
}

pub fn path_quote_context(s: &[char], start: usize, double_quote: Option<bool>) -> (r: Option<(char, bool)>)
    requires
        start <= s.len(),
    ensures
        r == path_quote(s@, start as int, double_quote),
{
    match double_quote {
        Some(by_backslash) => Some(('"', by_backslash)),
        None => {
            let subject: usize = find_scheme_start(s, start);
            if subject > 0 && is_quote(s[subject - 1]) {
                Some((s[subject - 1], is_escaped(s, 0, subject - 1)))
            } else {
                None
            }
        },
    }
}

/// The quote that a path stands in closes at `i`.
pub open spec fn quote_closes(s: Seq<char>, start: int, q: Option<(char, bool)>, i: int) -> bool {
    match q {
        Some((mark, by_backslash)) => !escaped(s, start, i) && if by_backslash {
            at(s, i, '\\') && at(s, i + 1, mark)
        } else {
            at(s, i, mark)
        },
        None => false,
    }
}

/// A path that began at `start` cannot go on at `i`, whatever was read of it.
pub open spec fn path_stops(
    t: Neutral,
    start: int,
    policy: UnquotedSpacePolicy,
    q: Option<(char, bool)>,
    i: int,
) -> bool {
    let c = t.text[i];
    ||| i >= t.text.len()
    ||| token_shape(t.text, i, true) is Some
    ||| t.marker_at(i) is Some
    ||| quote_closes(t.text, start, q, i)
    ||| policy == UnquotedSpacePolicy::RequireFollowingSeparator && separator(t.text, i) is None && !windows_char(c)
    ||| q is None && white_space(c) && c != ' '
    ||| q is None && policy == UnquotedSpacePolicy::Continue && path_terminator(c)
}

/// Where a path that began at `start` ends, read from `i` on. `pending` is the first of the spaces
/// that the path has only if a separator follows, `typed` whether a name began after them.
pub open spec fn path_end_from(
    t: Neutral,
    start: int,
    policy: UnquotedSpacePolicy,
    q: Option<(char, bool)>,
    i: int,
    pending: Option<int>,
    typed: bool,
) -> int
    decreases t.text.len() - i,
{
    let c = t.text[i];
    let here = match pending {
        Some(space) => space,
        None => i,
    };
    if path_stops(t, start, policy, q, i) {
        here
    } else if q is Some {
        path_end_from(t, start, policy, q, i + 1, pending, typed)
    } else if white_space(c) && policy == UnquotedSpacePolicy::RequireFollowingSeparator {
        path_end_from(t, start, policy, q, i + 1, Some(here), false)
    } else if pending is None {
        path_end_from(t, start, policy, q, i + 1, pending, typed)
    } else if separator(t.text, i) is Some {
        if typed {
            path_end_from(t, start, policy, q, i + 1, None, false)
        } else {
            here
        }
    } else if windows_char(c) {
        path_end_from(t, start, policy, q, i + 1, pending, true)
    } else {
        here
    }
}

pub fn path_span_end(
    t: &MarkedText,
    start: usize,
    from: usize,
    policy: UnquotedSpacePolicy,
    double_quote: Option<bool>,
) -> (r: usize)
    requires
        t@.wf(),
        start <= from <= t.chars.len(),
    ensures
        r == path_end_from(
            t@,
            start as int,
            policy,
            path_quote(t@.text, start as int, double_quote),
            from as int,
            None,
            false,
        ),
        from <= r <= t.chars.len(),
{
    let s: &[char] = t.chars.as_slice();
    let q: Option<(char, bool)> = path_quote_context(s, start, double_quote);
    let mut i: usize = from;
    let mut pending: Option<usize> = None;
    let mut typed: bool = false;
    let ghost whole = path_end_from(t@, start as int, policy, q, from as int, None, false);
    loop
        invariant
            t@.wf(),
            s@ == t@.text,
            start <= from <= i <= t.chars.len(),
            pending matches Some(space) ==> from <= space <= i,
            whole == path_end_from(
                t@,
                start as int,
                policy,
                q,
                i as int,
                match pending {
                    Some(space) => Some(space as int),
                    None => None,
                },
                typed,
            ),
        ensures
            start <= from <= i <= t.chars.len(),
            pending matches Some(space) ==> from <= space <= i,
            whole == (match pending {
                Some(space) => space,
                None => i,
            }),
        decreases t.chars.len() - i,
    {
        if i >= s.len() || token_shape_at(s, i, true).is_some() || t.marker_at(i).is_some() {
            break;
        }
        let c: char = s[i];
        match q {
            Some((mark, by_backslash)) => {
                if !is_escaped(s, start, i) && (by_backslash && c == '\\' && is_at(s, i + 1, mark) || !by_backslash && c
                    == mark) {
                    break;
                }
            },
            None => {},
        }
        let separated: bool = separator_end(s, i).is_some();
        if policy == UnquotedSpacePolicy::RequireFollowingSeparator && !separated
            && !is_typed_windows_component_character(c) {
            break;
        }
        if q.is_none() {
            let blank: bool = c.is_whitespace();
            if blank && c != ' ' {
                break;
            }
            if policy == UnquotedSpacePolicy::Continue && is_path_terminator(c) {
                break;
            }
            if blank && policy == UnquotedSpacePolicy::RequireFollowingSeparator {
                if pending.is_none() {
                    pending = Some(i);
                }
                typed = false;
            } else if pending.is_some() {
                if separated {
                    if !typed {
                        break;
                    }
                    pending = None;
                    typed = false;
                } else if is_typed_windows_component_character(c) {
                    typed = true;
                } else {
                    break;
                }
            }
        }
        i = i + 1;
    }
    match pending {
        Some(space) => space,
        None => i,
    }
}

/// A path or a web address may begin at `i`.
pub open spec fn starts_path(t: Neutral, i: int) -> bool {
    t.marker_ending_at(i) is Some || !(0 < i <= t.text.len() && {
        let p = t.text[i - 1];
        letter_or_number(p) || p == '_' || p == '-' || p == '.' || p == '\\' || p == '/' || p == '%'
    })
}

pub fn path_boundary(t: &MarkedText, i: usize) -> (r: bool)
    requires
        t@.wf(),
        i <= t.chars.len(),
    ensures
        r == starts_path(t@, i as int),
{
    if i == 0 {
        return true;
    }
    let p: char = t.chars[i - 1];
    !(p.is_alphanumeric() || p == '_' || p == '-' || p == '.' || p == '\\' || p == '/' || p == '%')
        || t.marker_ending_at(i).is_some()
}

/// The attribute `Path=/;` of a cookie stands around `i`, which is no path.
pub open spec fn cookie_root(s: Seq<char>, i: int, root_end: int, end: int) -> bool {
    let from = if i >= 5 {
        i - 5
    } else {
        0
    };
    end == root_end && root_end - from == 6 && word_at(s, from, "path=/"@) && at(s, end, ';')
}

/// The end of an absolute path at `i`.
#[verifier::opaque]
pub open spec fn absolute_path(t: Neutral, i: int, double_quote: Option<bool>) -> Option<int> {
    if !starts_path(t, i) {
        None
    } else {
        match path_root(t.text, i) {
            Some((root_end, policy)) => {
                let end = path_end_from(
                    t,
                    i,
                    policy,
                    path_quote(t.text, i, double_quote),
                    root_end,
                    None,
                    false,
                );
                if cookie_root(t.text, i, root_end, end) {
                    None
                } else {
                    Some(end)
                }
            },
            None => None,
        }
    }
}

pub fn absolute_path_end(t: &MarkedText, i: usize, double_quote: Option<bool>) -> (r: Option<usize>)
    requires
        t@.wf(),
        i <= t.chars.len(),
    ensures
        match r {
            Some(end) => absolute_path(t@, i as int, double_quote) == Some(end as int) && i < end <= t.chars.len(),
            None => absolute_path(t@, i as int, double_quote) is None,
        },
{
    proof {
        reveal(absolute_path);
    }
    if !path_boundary(t, i) {
        return None;
    }
    let s: &[char] = t.chars.as_slice();
    match absolute_root(s, i) {
        Some((root_end, policy)) => {
            let end: usize = path_span_end(t, i, root_end, policy, double_quote);
            let from: usize = if i >= 5 {
                i - 5
            } else {
                0
            };
            if end == root_end && root_end - from == 6 && is_word_at(s, from, "path=/") && is_at(s, end, ';') {
                None
            } else {
                Some(end)
            }
        },
        None => None,
    }
}

/// How many characters the web scheme at `i` takes.
pub open spec fn web_scheme(s: Seq<char>, i: int) -> Option<int> {
    if word_at(s, i, "http://"@) {
        Some(7)
    } else if word_at(s, i, "https://"@) {
        Some(8)
    } else {
        None
    }
}

/// Where the text of a web address ends, read from `i` on.
pub open spec fn web_text_end(t: Neutral, i: int) -> int
    decreases t.text.len() - i,
{
    if i < 0 || i >= t.text.len() || t.marker_at(i) is Some || white_space(t.text[i]) || t.text[i] == '\'' || t.text[i]
        == '"' || t.text[i] == '<' || t.text[i] == '>' {
        i
    } else {
        web_text_end(t, i + 1)
    }
}

/// The end of what starts like a web address at `i`.
pub open spec fn web_span(t: Neutral, i: int) -> Option<int> {
    if !starts_path(t, i) {
        None
    } else {
        match web_scheme(t.text, i) {
            Some(n) => Some(web_text_end(t, i + n)),
            None => None,
        }
    }
}

/// A text that starts like a web address is one.
pub open spec fn web_address(s: Seq<char>) -> bool {
    !s.contains('\\') && url_parses(s)
}

pub fn web_url_span(t: &MarkedText, i: usize) -> (r: Option<WebUrlSpan>)
    requires
        t@.wf(),
        i <= t.chars.len(),
    ensures
        match r {
            Some(WebUrlSpan::Preserve(end)) => web_span(t@, i as int) == Some(end as int) && i < end <= t.chars.len()
                && web_address(t@.text.subrange(i as int, end as int)),
            Some(WebUrlSpan::Reject(end)) => web_span(t@, i as int) == Some(end as int) && i < end <= t.chars.len()
                && !web_address(t@.text.subrange(i as int, end as int)),
            None => web_span(t@, i as int) is None,
        },
{
    let s: &[char] = t.chars.as_slice();
    proof {
        reveal_strlit("http://");
        reveal_strlit("https://");
    }
    if !path_boundary(t, i) {
        return None;
    }
    let scheme: usize = if is_word_at(s, i, "http://") {
        7
    } else if is_word_at(s, i, "https://") {
        8
    } else {
        return None;
    };
    let mut end: usize = i + scheme;
    let mut backslash: bool = false;
    proof {
        lemma_web_scheme_has_no_backslash(s@, i as int);
    }
    while end < s.len()
        invariant
            t@.wf(),
            s@ == t@.text,
            i < end <= s.len(),
            web_text_end(t@, i + scheme) == web_text_end(t@, end as int),
            backslash == exists|k: int| i <= k < end && #[trigger] s@[k] == '\\',
        ensures
            i < end <= s.len(),
            web_text_end(t@, i + scheme) == end,
            backslash == exists|k: int| i <= k < end && #[trigger] s@[k] == '\\',
        decreases s.len() - end,
    {
        if t.marker_at(end).is_some() {
            break;
        }
        let c: char = s[end];
        if c.is_whitespace() || c == '\'' || c == '"' || c == '<' || c == '>' {
            break;
        }
        assert(c == s@[end as int]);
        backslash = backslash || c == '\\';
        end = end + 1;
    }
    let ghost part = s@.subrange(i as int, end as int);
    proof {
        if backslash {
            let k = choose|k: int| i <= k < end && #[trigger] s@[k] == '\\';
            assert(part[k - i] == '\\');
        }
        assert(part.contains('\\') == backslash);
    }
    if backslash {
        return Some(WebUrlSpan::Reject(end));
    }
    let candidate: String = string_of(copied(s, i, end).as_slice());
    if parses_as_url(candidate.as_str()) {
        Some(WebUrlSpan::Preserve(end))
    } else {
        Some(WebUrlSpan::Reject(end))
    }
}

proof fn lemma_web_scheme_has_no_backslash(s: Seq<char>, i: int)
    ensures
        web_scheme(s, i) matches Some(n) ==> forall|k: int| i <= k < i + n ==> #[trigger] s[k] != '\\',
{
    reveal_strlit("http://");
    reveal_strlit("https://");
    match web_scheme(s, i) {
        Some(n) => {
            let w = if n == 7 {
                "http://"@
            } else {
                "https://"@
            };
            assert forall|k: int| i <= k < i + n implies #[trigger] s[k] != '\\' by {
                assert(crate::text::lower(s[i + (k - i)]) == crate::text::lower(w[k - i]));
            }
        },
        None => {},
    }
}

} // verus!
