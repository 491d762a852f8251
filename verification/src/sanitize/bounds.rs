//! What the scanners find lies in the text, after the place where they look.
use super::keys::{
    assigned_name_end, assignment_separator, bounded_name, key_break_before, leading_dashes, marker_in_name,
    name_scan, secret_key, secret_name, secret_value, separator_blank, session_key_at, skip_blank, spelled_mark_end,
    MAX_MARKERS, MAX_NAME, MAX_SPAN,
};
use super::marks::Neutral;
use super::paths::{absolute_path, path_end_from, path_quote, path_root, path_stops, separator, UnquotedSpacePolicy};
use super::scan::{
    escaped, escaped_json_end, escaped_quoted_end, invisible_mark, json_space_mark, lemma_marker_at,
    lemma_skip_spelled_space, quoted_end, separator_sign_at, skip_json_space, skip_space, space_mark_at,
    unquoted_end, unquoted_stop, word_char,
};
use super::secrets::{
    assigned_credential, authorization_secret, bounded_credential, credential, credential_after_scheme,
    credential_quote, credential_quote_suffix, double_quote_width, json_name, json_secret, keyword, keyword_from,
    quoted_secret, quoted_value, scheme, unquoted_secret,
};
use super::tokens::{
    lemma_prefix_lengths, lemma_token_run_end, prefix_from, provider_prefixes, token_run_end, token_shape,
};
use crate::text::{ascii_alphanumeric, at, lower, text_at, utf8_len, white_space, word_at};
use vstd::prelude::*;

verus! {

pub proof fn lemma_skip_space(t: Neutral, i: int)
    requires
        t.wf(),
        0 <= i <= t.text.len(),
    ensures
        i <= skip_space(t, i) <= t.text.len(),
    decreases t.text.len() - i,
{
    lemma_marker_at(t, i);
    match space_mark_at(t, i) {
        Some(m) => lemma_skip_space(t, m.end),
        None => if i < t.text.len() && white_space(t.text[i]) {
            lemma_skip_space(t, i + 1);
        },
    }
}

pub proof fn lemma_skip_json_space(t: Neutral, i: int)
    requires
        t.wf(),
        0 <= i <= t.text.len(),
    ensures
        i <= skip_json_space(t, i) <= t.text.len(),
    decreases t.text.len() - i,
{
    lemma_marker_at(t, i);
    if at(t.text, i, ' ') {
        lemma_skip_json_space(t, i + 1);
    } else {
        match t.marker_at(i) {
            Some(m) => if json_space_mark(m) {
                lemma_skip_json_space(t, m.end);
            },
            None => {},
        }
    }
}

pub proof fn lemma_skip_blank(t: Neutral, literal: bool, i: int)
    requires
        t.wf(),
        0 <= i <= t.text.len(),
    ensures
        i <= skip_blank(t, literal, i) <= t.text.len(),
{
    if literal {
        lemma_skip_spelled_space(t.text, i);
    } else {
        lemma_skip_space(t, i);
    }
}

proof fn lemma_name_scan(s: Seq<char>, start: int, i: int, name: Seq<char>, marks: nat, open: bool)
    requires
        0 <= i <= s.len(),
    ensures
        name_scan(s, start, i, name, marks, open) matches Some(scan) ==> i <= scan.end <= s.len() && (scan.end == i
            ==> scan.name == name),
    decreases s.len() - i,
{
    if !(i - start > MAX_SPAN || i >= s.len()) {
        if ascii_alphanumeric(s[i]) {
            if name.len() < MAX_NAME {
                lemma_name_scan(s, start, i + 1, name.push(lower(s[i])), marks, false);
            }
        } else if s[i] == '_' || s[i] == '-' {
            if !(name.len() == 0 || open || name.len() >= MAX_NAME) {
                lemma_name_scan(s, start, i + 1, name.push('_'), marks, true);
            }
        } else {
            match spelled_mark_end(s, i) {
                Some(end) => if !(name.len() == 0 || marks == MAX_MARKERS || end - start > MAX_SPAN || end <= i || end
                    > s.len()) {
                    lemma_name_scan(s, start, end, name, marks + 1, true);
                },
                None => {},
            }
        }
    }
}

pub proof fn lemma_secret_name_nonempty(name: Seq<char>)
    requires
        secret_name(name),
    ensures
        name.len() > 0,
{
    reveal_strlit("token");
    reveal_strlit("api_key");
    reveal_strlit("password");
    reveal_strlit("passwd");
    reveal_strlit("secret");
    reveal_strlit("client_secret");
    reveal_strlit("access_token");
    reveal_strlit("refresh_token");
    reveal_strlit("private_key");
}

pub proof fn lemma_secret_key(s: Seq<char>, i: int)
    ensures
        secret_key(s, i) matches Some(key) ==> 0 <= i < key.end <= s.len(),
{
    reveal_strlit("_gitlab_session");
    if 0 <= i <= s.len() && key_break_before(s, i) && !session_key_at(s, i) {
        let start = i + leading_dashes(s, i);
        match bounded_name(s, i) {
            Some(scan) => {
                lemma_name_scan(s, start, start, Seq::empty(), 0, false);
                if secret_name(scan.name) {
                    lemma_secret_name_nonempty(scan.name);
                }
            },
            None => {},
        }
    }
}

proof fn lemma_assigned_name_end(t: Neutral, literal: bool, start: int, i: int, marks: nat, seen: bool, open: bool)
    requires
        t.wf(),
        0 <= i <= t.text.len(),
    ensures
        assigned_name_end(t, literal, start, i, marks, seen, open) matches Some(end) ==> i <= end <= t.text.len(),
    decreases t.text.len() - i,
{
    lemma_marker_at(t, i);
    if seen && marker_in_name(t, literal, i) is Some {
        let end = marker_in_name(t, literal, i)->0;
        if !(marks + 1 > MAX_MARKERS || utf8_len(t.text.subrange(start, end)) > MAX_SPAN) {
            lemma_assigned_name_end(t, literal, start, end, marks + 1, seen, true);
        }
    } else if i < t.text.len() && word_char(t.text[i]) {
        lemma_assigned_name_end(t, literal, start, i + 1, marks, true, false);
    }
}

pub proof fn lemma_assignment_separator(t: Neutral, literal: bool, i: int)
    requires
        t.wf(),
        0 <= i <= t.text.len(),
    ensures
        assignment_separator(t, literal, i) matches Some(separator) ==> i <= separator < t.text.len(),
{
    lemma_assigned_name_end(t, literal, i, i, 0, false, false);
    match assigned_name_end(t, literal, i, i, 0, false, false) {
        Some(end) => lemma_skip_blank(t, literal, end),
        None => {},
    }
}

pub proof fn lemma_secret_value(t: Neutral, literal: bool, i: int)
    requires
        t.wf(),
    ensures
        secret_value(t, literal, i) matches Some(v) ==> 0 <= i < v <= t.text.len(),
{
    lemma_secret_key(t.text, i);
    match secret_key(t.text, i) {
        Some(key) => {
            lemma_skip_blank(t, literal, key.end);
            let own = skip_blank(t, literal, key.end);
            lemma_skip_spelled_space(t.text, own);
            let blank_end = separator_blank(t, literal, key.end).0;
            if at(t.text, key.end, '=') {
                lemma_skip_blank(t, literal, key.end + 1);
            }
            if separator_sign_at(t.text, blank_end) {
                lemma_skip_blank(t, literal, blank_end + 1);
            }
        },
        None => {},
    }
}

pub proof fn lemma_quoted_end(s: Seq<char>, start: int, i: int, q: char, limit: int)
    requires
        i <= limit,
    ensures
        i <= quoted_end(s, start, i, q, limit) <= limit,
    decreases limit - i,
{
    if !(i >= limit || at(s, i, q) && !escaped(s, start, i)) {
        lemma_quoted_end(s, start, i + 1, q, limit);
    }
}

pub proof fn lemma_escaped_quoted_end(s: Seq<char>, start: int, i: int, q: char, limit: int)
    ensures
        escaped_quoted_end(s, start, i, q, limit) <= limit,
    decreases limit - i,
{
    if !(i + 1 >= limit) && !(at(s, i, '\\') && at(s, i + 1, q) && !escaped(s, start, i)) {
        lemma_escaped_quoted_end(s, start, i + 1, q, limit);
    }
}

proof fn lemma_escaped_json_end(s: Seq<char>, i: int, run: nat, q: char)
    ensures
        escaped_json_end(s, i, run, q) <= s.len(),
    decreases s.len() - i,
{
    if 0 <= i < s.len() {
        if s[i] == '\\' {
            lemma_escaped_json_end(s, i + 1, run + 1, q);
        } else if !(s[i] == q && run % 4 == 1) {
            lemma_escaped_json_end(s, i + 1, 0, q);
        }
    }
}

pub proof fn lemma_unquoted_end(t: Neutral, marks: bool, start: int, i: int, limit: int)
    requires
        i <= limit,
    ensures
        i <= unquoted_end(t, marks, start, i, limit) <= limit,
    decreases limit - i,
{
    if !(i >= limit || unquoted_stop(t, marks, start, i)) {
        lemma_unquoted_end(t, marks, start, i + 1, limit);
    }
}

pub proof fn lemma_quoted_value(s: Seq<char>, v: int)
    ensures
        quoted_value(s, v) matches Some((start, end)) ==> 0 <= v < start < end <= s.len(),
{
    let n = s.len() as int;
    if 0 <= v && v + 1 < n {
        lemma_quoted_end(s, v + 1, v + 1, s[v], n);
        lemma_escaped_quoted_end(s, v + 2, v + 2, s[v + 1], n);
    }
}

pub proof fn lemma_unquoted_secret(t: Neutral, literal: bool, i: int)
    requires
        t.wf(),
    ensures
        unquoted_secret(t, literal, i) matches Some((start, end)) ==> 0 <= i <= start < end <= t.text.len(),
{
    lemma_secret_value(t, literal, i);
    match secret_value(t, literal, i) {
        Some(v) => lemma_unquoted_end(t, false, v, v, t.text.len() as int),
        None => {},
    }
}

pub proof fn lemma_quoted_secret(t: Neutral, literal: bool, i: int)
    requires
        t.wf(),
    ensures
        quoted_secret(t, literal, i) matches Some((start, end)) ==> 0 <= i <= start < end <= t.text.len(),
{
    lemma_secret_value(t, literal, i);
    match secret_value(t, literal, i) {
        Some(v) => lemma_quoted_value(t.text, v),
        None => {},
    }
}

proof fn lemma_json_name(s: Seq<char>, i: int, name: Seq<char>, open: bool)
    requires
        0 <= i <= s.len(),
    ensures
        json_name(s, i, name, open) matches Some((end, _)) ==> i <= end <= s.len(),
    decreases s.len() - i,
{
    if i < s.len() && ascii_alphanumeric(s[i]) {
        if name.len() < MAX_NAME {
            lemma_json_name(s, i + 1, name.push(lower(s[i])), false);
        }
    } else if at(s, i, '_') || at(s, i, '-') {
        if !(name.len() == 0 || open || name.len() >= MAX_NAME) {
            lemma_json_name(s, i + 1, name.push('_'), true);
        }
    }
}

proof fn lemma_keyword_from(t: Neutral, start: int, word: Seq<char>, k: int, i: int, marks: nat)
    requires
        t.wf(),
        0 <= i <= t.text.len(),
    ensures
        keyword_from(t, start, word, k, i, marks) matches Some(end) ==> i <= end <= t.text.len() && (k < word.len()
            ==> i < end),
    decreases t.text.len() - i,
{
    lemma_marker_at(t, i);
    if k < word.len() {
        let mark = t.marker_at(i);
        if k > 0 && mark is Some && invisible_mark(mark->0) {
            if !(marks + 1 > MAX_MARKERS || mark->0.end - start > MAX_SPAN) {
                lemma_keyword_from(t, start, word, k, mark->0.end, marks + 1);
            }
        } else if i < t.text.len() && lower(t.text[i]) == word[k] {
            lemma_keyword_from(t, start, word, k + 1, i + 1, marks);
        }
    }
}

pub proof fn lemma_keyword(t: Neutral, i: int, word: Seq<char>)
    requires
        t.wf(),
        0 <= i <= t.text.len(),
        word.len() > 0,
    ensures
        keyword(t, i, word) matches Some(end) ==> i < end <= t.text.len(),
{
    lemma_keyword_from(t, i, word, 0, i, 0);
}

pub proof fn lemma_scheme(t: Neutral, i: int)
    requires
        t.wf(),
        0 <= i <= t.text.len(),
    ensures
        scheme(t, i) matches Some(end) ==> i < end <= t.text.len(),
{
    reveal_strlit("basic");
    reveal_strlit("bearer");
    lemma_keyword(t, i, "basic"@);
    lemma_keyword(t, i, "bearer"@);
}

proof fn lemma_credential_quote(t: Neutral, start: int, i: int, end: int)
    requires
        start <= i <= end,
    ensures
        credential_quote(t, start, i, end) matches Some(closing) ==> start <= closing < end,
    decreases end - i,
{
    if i < end && !(super::scan::quote_at(t.text, i) && credential_quote_suffix(t, i + 1)) {
        lemma_credential_quote(t, start, i + 1, end);
    }
}

pub proof fn lemma_credential(t: Neutral, i: int)
    requires
        t.wf(),
        0 <= i <= t.text.len(),
    ensures
        credential(t, i) matches Some((start, end)) ==> i <= start < end <= t.text.len(),
{
    lemma_quoted_value(t.text, i);
    let n = t.text.len() as int;
    lemma_unquoted_end(t, true, i, i, n);
    let end = unquoted_end(t, true, i, i, n);
    lemma_credential_quote(t, i, i, end);
}

proof fn lemma_credential_after_scheme(t: Neutral, i: int)
    requires
        t.wf(),
        0 <= i <= t.text.len(),
    ensures
        credential_after_scheme(t, i) matches Some((start, end)) ==> i <= start < end <= t.text.len(),
{
    lemma_skip_space(t, i);
    lemma_credential(t, skip_space(t, i));
}

proof fn lemma_bounded_credential(t: Neutral, start: int, i: int, limit: int)
    requires
        t.wf(),
        0 <= start <= i < limit <= t.text.len(),
    ensures
        bounded_credential(t, start, i, limit) matches Some((a, b)) ==> a == start && start < b <= t.text.len(),
{
    let s = t.text;
    lemma_quoted_end(s, i + 1, i + 1, s[i], limit);
    lemma_escaped_quoted_end(s, i + 2, i + 2, s[i + 1], limit);
    lemma_unquoted_end(t, true, i, i, limit);
}

pub proof fn lemma_assigned_credential(t: Neutral, start: int, separator: int, limit: int)
    requires
        t.wf(),
        0 <= start <= separator < t.text.len(),
        limit <= t.text.len(),
    ensures
        assigned_credential(t, start, separator, limit) matches Some((a, b)) ==> start <= a < b <= t.text.len(),
{
    lemma_skip_space(t, separator + 1);
    let value = skip_space(t, separator + 1);
    if value < limit {
        lemma_bounded_credential(t, start, value, limit);
    }
    lemma_scheme(t, value);
    match scheme(t, value) {
        Some(scheme_end) => {
            lemma_skip_space(t, scheme_end);
            let after = skip_space(t, scheme_end);
            if after < limit {
                lemma_bounded_credential(t, start, after, limit);
            }
        },
        None => {},
    }
}

pub proof fn lemma_json_secret(t: Neutral, i: int)
    requires
        t.wf(),
    ensures
        json_secret(t, i) matches Some((start, end)) ==> 0 <= i <= start < end <= t.text.len(),
{
    let s = t.text;
    let n = s.len() as int;
    match double_quote_width(s, i) {
        Some(key_quote) => {
            lemma_json_name(s, i + key_quote, Seq::empty(), false);
            match json_name(s, i + key_quote, Seq::empty(), false) {
                Some((key_end, name)) => {
                    if double_quote_width(s, key_end) == Some(key_quote) {
                        lemma_skip_json_space(t, key_end + key_quote);
                        let colon = skip_json_space(t, key_end + key_quote);
                        if at(s, colon, ':') {
                            lemma_skip_json_space(t, colon + 1);
                            let opening = skip_json_space(t, colon + 1);
                            match double_quote_width(s, opening) {
                                Some(value_quote) => {
                                    let start = opening + value_quote;
                                    lemma_quoted_end(s, start, start, '"', n);
                                    lemma_escaped_json_end(s, start, 0, '"');
                                    let end = if value_quote == 2 {
                                        escaped_json_end(s, start, 0, '"')
                                    } else {
                                        quoted_end(s, start, start, '"', n)
                                    };
                                    lemma_skip_space(t, start);
                                    let from = skip_space(t, start);
                                    lemma_assignment_separator(t, false, from);
                                    match assignment_separator(t, false, from) {
                                        Some(separator) => lemma_assigned_credential(t, from, separator, end),
                                        None => {},
                                    }
                                },
                                None => {},
                            }
                        }
                    }
                },
                None => {},
            }
        },
        None => {},
    }
}

pub proof fn lemma_authorization_secret(t: Neutral, i: int)
    requires
        t.wf(),
        0 <= i <= t.text.len(),
    ensures
        authorization_secret(t, i) matches Some((start, end)) ==> i <= start < end <= t.text.len(),
{
    reveal_strlit("authorization");
    lemma_keyword(t, i, "authorization"@);
    match keyword(t, i, "authorization"@) {
        Some(key_end) => {
            lemma_skip_space(t, key_end);
            let sign = skip_space(t, key_end);
            if separator_sign_at(t.text, sign) {
                lemma_skip_space(t, sign + 1);
                let value = skip_space(t, sign + 1);
                lemma_assignment_separator(t, false, value);
                match assignment_separator(t, false, value) {
                    Some(separator) => lemma_assigned_credential(t, value, separator, t.text.len() as int),
                    None => {},
                }
                lemma_scheme(t, value);
                match scheme(t, value) {
                    Some(scheme_end) => lemma_credential_after_scheme(t, scheme_end),
                    None => lemma_credential(t, value),
                }
            }
        },
        None => {
            lemma_scheme(t, i);
            match scheme(t, i) {
                Some(scheme_end) => lemma_credential_after_scheme(t, scheme_end),
                None => {},
            }
        },
    }
}

proof fn lemma_prefix_from(s: Seq<char>, i: int, k: int)
    requires
        0 <= k,
    ensures
        prefix_from(s, i, k) matches Some(j) ==> k <= j < provider_prefixes().len() && text_at(
            s,
            i,
            provider_prefixes()[j].0,
        ),
    decreases provider_prefixes().len() - k,
{
    if k < provider_prefixes().len() && !text_at(s, i, provider_prefixes()[k].0) {
        lemma_prefix_from(s, i, k + 1);
    }
}

pub proof fn lemma_token_shape(s: Seq<char>, i: int, generic: bool)
    requires
        0 <= i <= s.len(),
    ensures
        token_shape(s, i, generic) matches Some(end) ==> i < end <= s.len(),
{
    lemma_prefix_from(s, i, 0);
    lemma_prefix_lengths();
    lemma_token_run_end(s, i, i, true);
    lemma_token_run_end(s, i, i, false);
    let first = token_run_end(s, i, false);
    let second = token_run_end(s, first + 1, false);
    if at(s, first, '.') {
        lemma_token_run_end(s, first + 1, first + 1, false);
        if at(s, second, '.') {
            lemma_token_run_end(s, second + 1, second + 1, false);
        }
    }
}

pub proof fn lemma_separator(s: Seq<char>, i: int)
    ensures
        separator(s, i) matches Some((end, _)) ==> 0 <= i < end <= s.len(),
{
    reveal_strlit("%2f");
    reveal_strlit("%5c");
}

pub proof fn lemma_path_root(s: Seq<char>, i: int)
    requires
        0 <= i <= s.len(),
    ensures
        path_root(s, i) matches Some((end, _)) ==> i < end <= s.len(),
{
    reveal_strlit("file:");
    let root = if word_at(s, i, "file:"@) {
        i + 5
    } else {
        i
    };
    lemma_separator(s, root);
    lemma_separator(s, root + 2);
    match separator(s, root) {
        Some((first, _)) => lemma_separator(s, first),
        None => {},
    }
}

pub proof fn lemma_path_end_from(
    t: Neutral,
    start: int,
    policy: UnquotedSpacePolicy,
    q: Option<(char, bool)>,
    from: int,
    i: int,
    pending: Option<int>,
    typed: bool,
)
    requires
        from <= i <= t.text.len(),
        pending matches Some(space) ==> from <= space <= i,
    ensures
        from <= path_end_from(t, start, policy, q, i, pending, typed) <= t.text.len(),
    decreases t.text.len() - i,
{
    let c = t.text[i];
    let here = match pending {
        Some(space) => space,
        None => i,
    };
    if path_stops(t, start, policy, q, i) {
    } else if q is Some {
        lemma_path_end_from(t, start, policy, q, from, i + 1, pending, typed);
    } else if white_space(c) && policy == UnquotedSpacePolicy::RequireFollowingSeparator {
        lemma_path_end_from(t, start, policy, q, from, i + 1, Some(here), false);
    } else if pending is None {
        lemma_path_end_from(t, start, policy, q, from, i + 1, pending, typed);
    } else if separator(t.text, i) is Some {
        if typed {
            lemma_path_end_from(t, start, policy, q, from, i + 1, None, false);
        }
    } else if super::paths::windows_char(c) {
        lemma_path_end_from(t, start, policy, q, from, i + 1, pending, true);
    }
}

pub proof fn lemma_absolute_path(t: Neutral, i: int, double_quote: Option<bool>)
    requires
        0 <= i <= t.text.len(),
    ensures
        absolute_path(t, i, double_quote) matches Some(end) ==> i < end <= t.text.len(),
{
    reveal(absolute_path);
    lemma_path_root(t.text, i);
    match path_root(t.text, i) {
        Some((root_end, policy)) => {
            let q = path_quote(t.text, i, double_quote);
            lemma_path_end_from(t, i, policy, q, root_end, root_end, None, false);
        },
        None => {},
    }
}

} // verus!
