//! Texts that look like an access token.
use super::scan::{is_word_break_after, is_word_break_before, word_break_after, word_break_before};
use crate::text::{
    ascii_alphanumeric, ascii_digit, ascii_lowercase, ascii_uppercase, at, is_ascii_alphanumeric, is_ascii_digit,
    is_ascii_lowercase, is_ascii_uppercase, is_at, is_text_at, text_at,
};
use vstd::prelude::*;

verus! {

/// How a provider's tokens begin, how many characters have to follow, and whether dots may be
/// among them.
pub open spec fn provider_prefixes() -> Seq<(Seq<char>, int, bool)> {
    seq![
        ("ghp_"@, 20int, false),
        ("gho_"@, 20int, false),
        ("ghu_"@, 20int, false),
        ("ghs_"@, 20int, true),
        ("ghr_"@, 20int, false),
        ("github_pat_"@, 20int, false),
        ("glpat-"@, 20int, false),
        ("gloas-"@, 20int, false),
        ("gldt-"@, 20int, false),
        ("glrt-"@, 20int, false),
        ("glrtr-"@, 20int, false),
        ("glcbt-"@, 20int, false),
        ("glptt-"@, 20int, false),
        ("glft-"@, 20int, false),
        ("glimt-"@, 20int, false),
        ("glagent-"@, 20int, false),
        ("glwt-"@, 20int, false),
        ("glsoat-"@, 20int, false),
        ("glffct-"@, 20int, false),
        ("npm_"@, 32int, false),
        ("sk-"@, 32int, false),
    ]
}

/// How a provider's tokens begin, how many characters have to follow, and whether dots may be
/// among them.
pub fn provider_token_prefixes() -> (r: Vec<(&'static str, usize, bool)>)
    ensures
        r@.len() == provider_prefixes().len(),
        forall|k: int|
            0 <= k < r@.len() ==> (#[trigger] r@[k]).0@ == provider_prefixes()[k].0 && r@[k].1
                == provider_prefixes()[k].1 && r@[k].2 == provider_prefixes()[k].2,
{
    vec![
        ("ghp_", 20, false),
        ("gho_", 20, false),
        ("ghu_", 20, false),
        ("ghs_", 20, true),
        ("ghr_", 20, false),
        ("github_pat_", 20, false),
        ("glpat-", 20, false),
        ("gloas-", 20, false),
        ("gldt-", 20, false),
        ("glrt-", 20, false),
        ("glrtr-", 20, false),
        ("glcbt-", 20, false),
        ("glptt-", 20, false),
        ("glft-", 20, false),
        ("glimt-", 20, false),
        ("glagent-", 20, false),
        ("glwt-", 20, false),
        ("glsoat-", 20, false),
        ("glffct-", 20, false),
        ("npm_", 32, false),
        ("sk-", 32, false),
    ]
}

/// A character that tokens are made of.
pub open spec fn token_char(c: char, dot: bool) -> bool {
    ascii_alphanumeric(c) || c == '_' || c == '-' || dot && c == '.'
}

/// Where the token characters at `i` end.
pub open spec fn token_run_end(s: Seq<char>, i: int, dot: bool) -> int
    decreases s.len() - i,
{
    if 0 <= i < s.len() && token_char(s[i], dot) {
        token_run_end(s, i + 1, dot)
    } else {
        i
    }
}

pub proof fn lemma_token_run_end(s: Seq<char>, i: int, j: int, dot: bool)
    requires
        0 <= i <= j <= s.len(),
        forall|k: int| i <= k < j ==> token_char(#[trigger] s[k], dot),
    ensures
        token_run_end(s, i, dot) == token_run_end(s, j, dot),
        j <= token_run_end(s, i, dot) <= s.len(),
    decreases s.len() - i,
{
    if i < j {
        assert(token_char(s[i], dot));
        lemma_token_run_end(s, i + 1, j, dot);
    } else if i < s.len() && token_char(s[i], dot) {
        lemma_token_run_end(s, i + 1, i + 1, dot);
    }
}

/// The end of the token characters at `i`, if there are at most `max` of them.
pub fn bounded_token_end(s: &[char], i: usize, max: usize, dot: bool) -> (r: Option<usize>)
    requires
        i <= s.len(),
    ensures
        match r {
            Some(end) => end == token_run_end(s@, i as int, dot) && i <= end <= s.len() && end - i <= max,
            None => token_run_end(s@, i as int, dot) - i > max,
        },
{
    let mut cursor: usize = i;
    while cursor < s.len() && (is_ascii_alphanumeric(s[cursor]) || s[cursor] == '_' || s[cursor] == '-' || dot
        && s[cursor] == '.')
        invariant
            i <= cursor <= s.len(),
            cursor - i <= max,
            forall|k: int| i <= k < cursor ==> token_char(#[trigger] s@[k], dot),
        decreases s.len() - cursor,
    {
        if cursor - i == max {
            proof {
                lemma_token_run_end(s@, i as int, cursor + 1, dot);
            }
            return None;
        }
        cursor = cursor + 1;
    }
    proof {
        lemma_token_run_end(s@, i as int, cursor as int, dot);
    }
    Some(cursor)
}

/// The most characters that a provider's token or a JSON web token may have.
pub const MAX_TOKEN: usize = 1_024;

/// The fewest characters of a token that no prefix gives away.
pub const MIN_GENERIC: usize = 32;

/// The most characters of a token that no prefix gives away.
pub const MAX_GENERIC: usize = 128;

/// The first prefix from the `k`-th on that stands at `i`.
pub open spec fn prefix_from(s: Seq<char>, i: int, k: int) -> Option<int>
    decreases provider_prefixes().len() - k,
{
    if k < 0 || k >= provider_prefixes().len() {
        None
    } else if text_at(s, i, provider_prefixes()[k].0) {
        Some(k)
    } else {
        prefix_from(s, i, k + 1)
    }
}

/// The end of a provider's token at `i`.
pub open spec fn provider_token(s: Seq<char>, i: int) -> Option<int> {
    match prefix_from(s, i, 0) {
        Some(k) => {
            let (prefix, minimum, dot) = provider_prefixes()[k];
            let end = token_run_end(s, i, dot);
            if end - i <= MAX_TOKEN && end - i - prefix.len() >= minimum && word_break_after(s, end) {
                Some(end)
            } else {
                None
            }
        },
        None => None,
    }
}

/// The end of a JSON web token at `i`: three runs of token characters with dots between them.
pub open spec fn web_token(s: Seq<char>, i: int) -> Option<int> {
    let first = token_run_end(s, i, false);
    let second = token_run_end(s, first + 1, false);
    let end = token_run_end(s, second + 1, false);
    if text_at(s, i, "eyJ"@) && at(s, first, '.') && second > first + 1 && at(s, second, '.') && end > second + 1
        && MIN_GENERIC <= end - i <= MAX_TOKEN && word_break_after(s, end) {
        Some(end)
    } else {
        None
    }
}

/// The end of a run of token characters at `i` that mixes small letters, capitals, digits and
/// separators as only generated tokens do.
pub open spec fn generic_token(s: Seq<char>, i: int) -> Option<int> {
    let end = token_run_end(s, i, false);
    if MIN_GENERIC <= end - i <= MAX_GENERIC && (exists|k: int| i <= k < end && ascii_lowercase(#[trigger] s[k]))
        && (exists|k: int| i <= k < end && ascii_uppercase(#[trigger] s[k])) && (exists|k: int|
        i <= k < end && ascii_digit(#[trigger] s[k])) && (exists|k: int|
        i <= k < end && (#[trigger] s[k] == '_' || s[k] == '-')) && word_break_after(s, end) {
        Some(end)
    } else {
        None
    }
}

/// The end of what looks like a token at `i`. With `generic`, tokens without a known beginning
/// count too.
pub open spec fn token_shape(s: Seq<char>, i: int, generic: bool) -> Option<int> {
    if !word_break_before(s, i) {
        None
    } else if provider_token(s, i) is Some {
        provider_token(s, i)
    } else if web_token(s, i) is Some {
        web_token(s, i)
    } else if generic {
        generic_token(s, i)
    } else {
        None
    }
}

pub proof fn lemma_prefix_lengths()
    ensures
        forall|k: int|
            0 <= k < provider_prefixes().len() ==> (#[trigger] provider_prefixes()[k]).0.len() >= 3
                && provider_prefixes()[k].1 >= 20,
{
    reveal_strlit("ghp_");
    reveal_strlit("gho_");
    reveal_strlit("ghu_");
    reveal_strlit("ghs_");
    reveal_strlit("ghr_");
    reveal_strlit("github_pat_");
    reveal_strlit("glpat-");
    reveal_strlit("gloas-");
    reveal_strlit("gldt-");
    reveal_strlit("glrt-");
    reveal_strlit("glrtr-");
    reveal_strlit("glcbt-");
    reveal_strlit("glptt-");
    reveal_strlit("glft-");
    reveal_strlit("glimt-");
    reveal_strlit("glagent-");
    reveal_strlit("glwt-");
    reveal_strlit("glsoat-");
    reveal_strlit("glffct-");
    reveal_strlit("npm_");
    reveal_strlit("sk-");
}

pub fn provider_token_end(s: &[char], i: usize) -> (r: Option<usize>)
    requires
        i <= s.len(),
    ensures
        match r {
            Some(end) => provider_token(s@, i as int) == Some(end as int) && i < end <= s.len(),
            None => provider_token(s@, i as int) is None,
        },
{
    let prefixes: Vec<(&'static str, usize, bool)> = provider_token_prefixes();
    let mut k: usize = 0;
    while k < prefixes.len()
        invariant
            i <= s.len(),
            k <= prefixes.len(),
            prefixes@.len() == provider_prefixes().len(),
            forall|j: int|
                0 <= j < prefixes@.len() ==> (#[trigger] prefixes@[j]).0@ == provider_prefixes()[j].0
                    && prefixes@[j].1 == provider_prefixes()[j].1 && prefixes@[j].2
                    == provider_prefixes()[j].2,
            prefix_from(s@, i as int, 0) == prefix_from(s@, i as int, k as int),
        decreases prefixes.len() - k,
    {
        let (prefix, minimum, dot) = prefixes[k];
        if is_text_at(s, i, prefix) {
            let body: usize = i + prefix.unicode_len();
            proof {
                lemma_prefix_lengths();
                assert(prefix_from(s@, i as int, k as int) == Some(k as int));
                assert(provider_prefixes()[k as int].0 == prefix@);
            }
            match bounded_token_end(s, i, MAX_TOKEN, dot) {
                Some(end) => {
                    if end >= body && end - body >= minimum && is_word_break_after(s, end) {
                        return Some(end);
                    }
                    return None;
                },
                None => {
                    return None;
                },
            }
        }
        k = k + 1;
    }
    None
}

pub fn jwt_token_end(s: &[char], i: usize) -> (r: Option<usize>)
    requires
        i <= s.len(),
    ensures
        match r {
            Some(end) => web_token(s@, i as int) == Some(end as int) && i < end <= s.len(),
            None => web_token(s@, i as int) is None,
        },
{
    if !is_text_at(s, i, "eyJ") {
        return None;
    }
    proof {
        lemma_token_run_end(s@, i as int, i as int, false);
    }
    let first: usize = match bounded_token_end(s, i, MAX_TOKEN, false) {
        Some(end) => end,
        None => {
            proof {
                lemma_web_token_bounds(s@, i as int);
            }
            return None;
        },
    };
    if !is_at(s, first, '.') {
        return None;
    }
    proof {
        lemma_web_token_bounds(s@, i as int);
    }
    if first + 1 - i > MAX_TOKEN {
        return None;
    }
    let second: usize = match bounded_token_end(s, first + 1, MAX_TOKEN - (first + 1 - i), false) {
        Some(end) => end,
        None => {
            return None;
        },
    };
    if !(second > first + 1 && is_at(s, second, '.')) || second + 1 - i > MAX_TOKEN {
        return None;
    }
    let end: usize = match bounded_token_end(s, second + 1, MAX_TOKEN - (second + 1 - i), false) {
        Some(end) => end,
        None => {
            return None;
        },
    };
    if end > second + 1 && end - i >= MIN_GENERIC && is_word_break_after(s, end) {
        Some(end)
    } else {
        None
    }
}

proof fn lemma_web_token_bounds(s: Seq<char>, i: int)
    requires
        0 <= i <= s.len(),
    ensures
        ({
            let first = token_run_end(s, i, false);
            let second = token_run_end(s, first + 1, false);
            let end = token_run_end(s, second + 1, false);
            &&& i <= first <= s.len()
            &&& at(s, first, '.') ==> first + 1 <= second <= s.len()
            &&& at(s, first, '.') && at(s, second, '.') ==> second + 1 <= end <= s.len()
        }),
{
    let first = token_run_end(s, i, false);
    let second = token_run_end(s, first + 1, false);
    lemma_token_run_end(s, i, i, false);
    if at(s, first, '.') {
        lemma_token_run_end(s, first + 1, first + 1, false);
        if at(s, second, '.') {
            lemma_token_run_end(s, second + 1, second + 1, false);
        }
    }
}

pub fn generic_token_end(s: &[char], i: usize) -> (r: Option<usize>)
    requires
        i <= s.len(),
    ensures
        match r {
            Some(end) => generic_token(s@, i as int) == Some(end as int) && i < end <= s.len(),
            None => generic_token(s@, i as int) is None,
        },
{
    let end: usize = match bounded_token_end(s, i, MAX_GENERIC, false) {
        Some(end) => end,
        None => {
            return None;
        },
    };
    if end - i < MIN_GENERIC {
        return None;
    }
    let mut small: bool = false;
    let mut capital: bool = false;
    let mut digit: bool = false;
    let mut separator: bool = false;
    let mut k: usize = i;
    while k < end
        invariant
            i <= k <= end <= s.len(),
            small == exists|j: int| i <= j < k && ascii_lowercase(#[trigger] s@[j]),
            capital == exists|j: int| i <= j < k && ascii_uppercase(#[trigger] s@[j]),
            digit == exists|j: int| i <= j < k && ascii_digit(#[trigger] s@[j]),
            separator == exists|j: int| i <= j < k && (#[trigger] s@[j] == '_' || s@[j] == '-'),
        decreases end - k,
    {
        let c: char = s[k];
        assert(c == s@[k as int]);
        small = small || is_ascii_lowercase(c);
        capital = capital || is_ascii_uppercase(c);
        digit = digit || is_ascii_digit(c);
        separator = separator || c == '_' || c == '-';
        k = k + 1;
    }
    if small && capital && digit && separator && is_word_break_after(s, end) {
        Some(end)
    } else {
        None
    }
}

pub fn token_shape_at(s: &[char], i: usize, generic: bool) -> (r: Option<usize>)
    requires
        i <= s.len(),
    ensures
        match r {
            Some(end) => token_shape(s@, i as int, generic) == Some(end as int) && i < end <= s.len(),
            None => token_shape(s@, i as int, generic) is None,
        },
{
    if !is_word_break_before(s, i) {
        return None;
    }
    match provider_token_end(s, i) {
        Some(end) => {
            return Some(end);
        },
        None => {},
    }
    match jwt_token_end(s, i) {
        Some(end) => {
            return Some(end);
        },
        None => {},
    }
    if generic {
        generic_token_end(s, i)
    } else {
        None
    }
}

} // verus!
