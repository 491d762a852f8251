//! What sanitizing is for: which texts do not come through it.
use super::sanitized;
use super::keys::{
    bounded_name, leading_dashes, name_scan, secret_key, secret_name, secret_value, spelled_mark_end, MAX_SPAN,
};
use super::marks::{law_safe_text_is_kept, lemma_neutralized_wf, neutral_text, neutralized, unsafe_kind, Neutral};
use super::paths::absolute_path;
use super::redact::{at_start, mode_token, next_progress, redacted_from, secret_span, Progress, SanitizationMode};
use super::secrets::{authorization_secret, json_secret, keyword_from};
use super::tokens::{
    lemma_prefix_lengths, lemma_token_run_end, prefix_from, provider_prefixes, provider_token, token_char,
    token_shape,
};
use crate::text::{
    ascii_alphanumeric, ascii_digit, ascii_lowercase, ascii_uppercase, letter_or_number, lower, text_at,
};
use vstd::prelude::*;

verus! {

/// Letters, digits, underscores and hyphens only.
pub open spec fn token_letters(s: Seq<char>) -> bool {
    forall|k: int|
        0 <= k < s.len() ==> 'a' <= (#[trigger] s[k]) <= 'z' || 'A' <= s[k] <= 'Z' || '0' <= s[k] <= '9' || s[k] == '_'
            || s[k] == '-'
}

/// A word does not go on with the character.
pub open spec fn ends_word(c: char) -> bool {
    !letter_or_number(c) && !('a' <= c <= 'z' || 'A' <= c <= 'Z' || '0' <= c <= '9' || c == '_' || c == '-')
}

/// Nothing is redacted that begins before the `i`-th character.
pub open spec fn quiet_before(t: Neutral, mode: SanitizationMode, i: int) -> bool {
    forall|j: int, q: Option<bool>|
        0 <= j < i ==> secret_span(t, mode, j) is None && #[trigger] absolute_path(t, j, q) is None
}

pub proof fn lemma_neutral_concat(a: Seq<char>, b: Seq<char>)
    ensures
        neutral_text(a + b) == neutral_text(a) + neutral_text(b),
    decreases b.len(),
{
    if b.len() == 0 {
        assert(a + b =~= a);
        assert(neutral_text(a) + neutral_text(b) =~= neutral_text(a));
    } else {
        assert((a + b).drop_last() =~= a + b.drop_last());
        assert((a + b).last() == b.last());
        lemma_neutral_concat(a, b.drop_last());
        assert(neutral_text(a + b) =~= neutral_text(a) + neutral_text(b));
    }
}

proof fn lemma_token_letters_safe(x: Seq<char>)
    requires
        forall|k: int| 0 <= k < x.len() ==> token_letters(seq![#[trigger] x[k]]) || x[k] == '.',
    ensures
        neutral_text(x) == x,
{
    assert forall|k: int| 0 <= k < x.len() implies unsafe_kind(#[trigger] x[k]) is None by {
        let one = seq![x[k]];
        assert(token_letters(one) || x[k] == '.');
        assert(one[0] == x[k]);
    }
    law_safe_text_is_kept(x);
}

/// The redaction of a text comes to `i` where nothing is found before it, and keeps all up to there.
pub proof fn lemma_walk_reaches(t: Neutral, mode: SanitizationMode, p: Progress, i: int) -> (q: Progress)
    requires
        t.wf(),
        0 <= p.at <= i <= t.text.len(),
        quiet_before(t, mode, i),
    ensures
        q.at == i,
        redacted_from(t, mode, p).text == t.text.subrange(p.at, i) + redacted_from(t, mode, q).text,
    decreases i - p.at,
{
    if p.at == i {
        assert(t.text.subrange(i, i) + redacted_from(t, mode, p).text =~= redacted_from(t, mode, p).text);
        p
    } else {
        assert(absolute_path(t, p.at, p.double_quote) is None);
        assert(secret_span(t, mode, p.at) is None);
        let next = next_progress(t, mode, p);
        let q = lemma_walk_reaches(t, mode, next, i);
        assert(t.text.subrange(p.at, i) =~= seq![t.text[p.at]] + t.text.subrange(p.at + 1, i));
        assert(redacted_from(t, mode, p).text =~= t.text.subrange(p.at, i) + redacted_from(t, mode, q).text);
        q
    }
}

proof fn lemma_long_name(s: Seq<char>, start: int, i: int, name: Seq<char>, marks: nat, open: bool, end: int)
    requires
        0 <= start <= i <= end <= s.len(),
        name.len() == i - start,
        forall|k: int| i <= k < end ==> token_char(#[trigger] s[k], false),
        end - start <= 64,
    ensures
        name_scan(s, start, i, name, marks, open) matches Some(scan) ==> scan.name.len() >= end - start,
    decreases s.len() - i,
{
    if i < end {
        assert(token_char(s[i], false));
        if ascii_alphanumeric(s[i]) {
            lemma_long_name(s, start, i + 1, name.push(lower(s[i])), marks, false, end);
        } else {
            lemma_long_name(s, start, i + 1, name.push('_'), marks, true, end);
        }
    } else {
        lemma_name_only_grows(s, start, i, name, marks, open);
    }
}

proof fn lemma_name_only_grows(s: Seq<char>, start: int, i: int, name: Seq<char>, marks: nat, open: bool)
    requires
        0 <= i <= s.len(),
    ensures
        name_scan(s, start, i, name, marks, open) matches Some(scan) ==> scan.name.len() >= name.len(),
    decreases s.len() - i,
{
    if !(i - start > MAX_SPAN || i >= s.len()) {
        if ascii_alphanumeric(s[i]) {
            lemma_name_only_grows(s, start, i + 1, name.push(lower(s[i])), marks, false);
        } else if s[i] == '_' || s[i] == '-' {
            lemma_name_only_grows(s, start, i + 1, name.push('_'), marks, true);
        } else {
            match spelled_mark_end(s, i) {
                Some(e) => if i < e <= s.len() {
                    lemma_name_only_grows(s, start, e, name, marks + 1, true);
                },
                None => {},
            }
        }
    }
}

proof fn lemma_secret_names_are_short(name: Seq<char>)
    requires
        secret_name(name),
    ensures
        name.len() < 14,
{
    reveal_strlit("token");
    reveal_strlit("api_key");
    reveal_strlit("password");
    reveal_strlit("passwd");
    reveal_strlit("secret");
    reveal_strlit("client_secret");
    reveal_strlit("access_token");
    reveal_strlit("refresh_token");
    reveal_strlit("private_key");
}

pub proof fn lemma_name_keeps_its_first(s: Seq<char>, start: int, i: int, name: Seq<char>, marks: nat, open: bool)
    requires
        0 <= i <= s.len(),
        name.len() > 0,
    ensures
        name_scan(s, start, i, name, marks, open) matches Some(scan) ==> scan.name.len() > 0 && scan.name[0] == name[0],
    decreases s.len() - i,
{
    if !(i - start > MAX_SPAN || i >= s.len()) {
        if ascii_alphanumeric(s[i]) {
            lemma_name_keeps_its_first(s, start, i + 1, name.push(lower(s[i])), marks, false);
        } else if s[i] == '_' || s[i] == '-' {
            lemma_name_keeps_its_first(s, start, i + 1, name.push('_'), marks, true);
        } else {
            match spelled_mark_end(s, i) {
                Some(e) => if i < e <= s.len() {
                    lemma_name_keeps_its_first(s, start, e, name, marks + 1, true);
                },
                None => {},
            }
        }
    }
}

/// The first letter of a secret's name.
pub open spec fn name_initial(c: char) -> bool {
    c == 'a' || c == 'c' || c == 'p' || c == 'r' || c == 's' || c == 't'
}

pub proof fn lemma_secret_names_begin(name: Seq<char>)
    requires
        secret_name(name),
    ensures
        name.len() > 0,
        name_initial(name[0]),
{
    reveal_strlit("token");
    reveal_strlit("api_key");
    reveal_strlit("password");
    reveal_strlit("passwd");
    reveal_strlit("secret");
    reveal_strlit("client_secret");
    reveal_strlit("access_token");
    reveal_strlit("refresh_token");
    reveal_strlit("private_key");
}

/// A run of token characters that is long, or begins as no name does, is no name of a secret, no
/// keyword and no JSON, so that only its shape counts.
#[verifier::rlimit(40)]
proof fn lemma_only_the_shape_counts(t: Neutral, mode: SanitizationMode, i: int, end: int)
    requires
        t.wf(),
        0 <= i < end <= t.text.len(),
        forall|k: int| i <= k < end ==> token_char(#[trigger] t.text[k], false),
        ascii_alphanumeric(t.text[i]),
        lower(t.text[i]) != 'a',
        lower(t.text[i]) != 'b',
        end >= i + 14 || !name_initial(lower(t.text[i])),
    ensures
        secret_span(t, mode, i) == mode_token(t, mode, i),
{
    let s = t.text;
    reveal(secret_span);
    assert(secret_key(s, i) is None) by {
        reveal_strlit("_gitlab_session");
        if text_at(s, i, "_gitlab_session"@) {
            assert(s.subrange(i, i + "_gitlab_session"@.len())[0] == s[i]);
        }
        assert(leading_dashes(s, i) == 0);
        if end >= i + 14 {
            lemma_long_name(s, i, i, Seq::empty(), 0, false, i + 14);
        }
        let first = Seq::<char>::empty().push(lower(s[i]));
        assert(first[0] == lower(s[i]));
        lemma_name_keeps_its_first(s, i, i + 1, first, 0, false);
        match bounded_name(s, i) {
            Some(scan) => {
                if secret_name(scan.name) {
                    lemma_secret_names_are_short(scan.name);
                    lemma_secret_names_begin(scan.name);
                }
            },
            None => {},
        }
    }
    assert(secret_value(t, false, i) is None);
    assert(json_secret(t, i) is None);
    assert(authorization_secret(t, i) is None) by {
        reveal_strlit("authorization");
        reveal_strlit("basic");
        reveal_strlit("bearer");
        assert("authorization"@[0] == 'a');
        assert("basic"@[0] == 'b');
        assert("bearer"@[0] == 'b');
        assert(keyword_from(t, i, "authorization"@, 0, i, 0) is None);
        assert(keyword_from(t, i, "basic"@, 0, i, 0) is None);
        assert(keyword_from(t, i, "bearer"@, 0, i, 0) is None);
    }
}

/// The sanitized text has the mark of a secret in the place of `x`, which stands between `a` and `b`:
/// what stands before it is kept, and what stands behind it is looked at anew.
pub open spec fn taken_out(a: Seq<char>, x: Seq<char>, b: Seq<char>, mode: SanitizationMode) -> bool {
    let all = a + x + b;
    let before = neutral_text(a);
    exists|q: Progress|
        {
            &&& q.at == before.len() + x.len()
            &&& sanitized(all, mode) == before + "[REDACTED_SECRET]"@ + #[trigger] redacted_from(
                neutralized(all),
                mode,
                q,
            ).text
        } && (b.len() == 0 ==> sanitized(all, mode) == before + "[REDACTED_SECRET]"@)
}

#[verifier::rlimit(40)]
proof fn lemma_taken_out(a: Seq<char>, x: Seq<char>, b: Seq<char>, mode: SanitizationMode)
    requires
        x.len() > 0,
        neutral_text(x) == x,
        quiet_before(neutralized(a + x + b), mode, neutral_text(a).len() as int),
        secret_span(neutralized(a + x + b), mode, neutral_text(a).len() as int) == Some(
            (neutral_text(a).len() as int, (neutral_text(a).len() + x.len()) as int),
        ),
    ensures
        taken_out(a, x, b, mode),
{
    let all = a + x + b;
    let t = neutralized(all);
    let i = neutral_text(a).len() as int;
    let mark = "[REDACTED_SECRET]"@;
    lemma_neutralized_wf(all);
    lemma_neutral_concat(a + x, b);
    lemma_neutral_concat(a, x);
    assert(t.text.subrange(0, i) =~= neutral_text(a));
    let q = lemma_walk_reaches(t, mode, at_start(), i);
    let next = next_progress(t, mode, q);
    let rest = redacted_from(t, mode, next).text;
    assert(t.text.subrange(i, i) + mark =~= mark);
    assert(redacted_from(t, mode, q).text =~= mark + rest);
    assert(sanitized(all, mode) =~= neutral_text(a) + mark + rest);
    if b.len() == 0 {
        assert(rest =~= Seq::empty());
        assert(sanitized(all, mode) =~= neutral_text(a) + mark);
    }
}

proof fn lemma_no_prefix(s: Seq<char>, i: int, k: int)
    requires
        0 <= i < s.len(),
        0 <= k <= provider_prefixes().len(),
        s[i] == 'e',
    ensures
        prefix_from(s, i, k) is None,
    decreases provider_prefixes().len() - k,
{
    if k < provider_prefixes().len() {
        let w = provider_prefixes()[k].0;
        lemma_prefixes_begin();
        if text_at(s, i, w) {
            assert(s.subrange(i, i + w.len())[0] == s[i]);
        }
        lemma_no_prefix(s, i, k + 1);
    }
}

proof fn lemma_prefixes_begin()
    ensures
        forall|k: int|
            0 <= k < provider_prefixes().len() ==> (#[trigger] provider_prefixes()[k]).0.len() >= 3
                && provider_prefixes()[k].0[0] != 'e',
{
    lemma_prefix_lengths();
    reveal_strlit("ghp_");
    reveal_strlit("gho_");
    reveal_strlit("ghu_");
    reveal_strlit("ghs_");
    reveal_strlit("ghr_");
    reveal_strlit("github_pat_");
    reveal_strlit("glpat-");
    reveal_strlit("gloas-");
    reveal_strlit("gldt-");
    reveal_strlit("glrt-");
    reveal_strlit("glrtr-");
    reveal_strlit("glcbt-");
    reveal_strlit("glptt-");
    reveal_strlit("glft-");
    reveal_strlit("glimt-");
    reveal_strlit("glagent-");
    reveal_strlit("glwt-");
    reveal_strlit("glsoat-");
    reveal_strlit("glffct-");
    reveal_strlit("npm_");
    reveal_strlit("sk-");
}

/// A text of letters, digits, underscores, hyphens and dots stands in the neutralized text as it is.
proof fn lemma_set_in(a: Seq<char>, x: Seq<char>, b: Seq<char>)
    requires
        forall|k: int| 0 <= k < x.len() ==> token_letters(seq![#[trigger] x[k]]) || x[k] == '.',
    ensures
        neutral_text(x) == x,
        neutralized(a + x + b).wf(),
        neutralized(a + x + b).text == neutral_text(a) + x + neutral_text(b),
{
    lemma_token_letters_safe(x);
    lemma_neutralized_wf(a + x + b);
    lemma_neutral_concat(a + x, b);
    lemma_neutral_concat(a, x);
}

#[verifier::rlimit(40)]
proof fn lemma_web_token_shape(s: Seq<char>, i: int, first: int, second: int, end: int)
    requires
        0 <= i,
        i + 3 <= first,
        first + 1 < second,
        second + 1 < end <= s.len(),
        32 <= end - i <= 1024,
        s[i] == 'e' && s[i + 1] == 'y' && s[i + 2] == 'J',
        forall|k: int| i <= k < first ==> token_char(#[trigger] s[k], false),
        forall|k: int| first < k < second ==> token_char(#[trigger] s[k], false),
        forall|k: int| second < k < end ==> token_char(#[trigger] s[k], false),
        s[first] == '.' && s[second] == '.',
        i > 0 ==> ends_word(s[i - 1]),
        end < s.len() ==> ends_word(s[end]),
    ensures
        token_shape(s, i, true) == Some(end),
        token_shape(s, i, false) == Some(end),
{
    lemma_token_run_end(s, i, first, false);
    lemma_token_run_end(s, first + 1, second, false);
    lemma_token_run_end(s, second + 1, end, false);
    reveal_strlit("eyJ");
    assert(s.subrange(i, i + 3) =~= "eyJ"@);
    lemma_no_prefix(s, i, 0);
}

/// A JSON web token does not come through: three runs of letters, digits, underscores and hyphens
/// with dots between them, of which the first begins with `eyJ`, 32 to 1024 characters in all, where
/// neither the text before nor that behind goes on with the word, and nothing before it is redacted.
#[verifier::rlimit(40)]
pub proof fn law_web_tokens_are_taken_out(
    a: Seq<char>,
    h: Seq<char>,
    p: Seq<char>,
    g: Seq<char>,
    b: Seq<char>,
    mode: SanitizationMode,
)
    requires
        mode != SanitizationMode::Identifier,
        token_letters(h) && token_letters(p) && token_letters(g),
        h.len() >= 3 && h[0] == 'e' && h[1] == 'y' && h[2] == 'J',
        p.len() > 0 && g.len() > 0,
        32 <= h.len() + 1 + p.len() + 1 + g.len() <= 1024,
        neutral_text(a).len() > 0 ==> ends_word(neutral_text(a).last()),
        neutral_text(b).len() > 0 ==> ends_word(neutral_text(b)[0]),
        quiet_before(neutralized(a + (h.push('.') + p.push('.') + g) + b), mode, neutral_text(a).len() as int),
    ensures
        taken_out(a, h.push('.') + p.push('.') + g, b, mode),
{
    let x = h.push('.') + p.push('.') + g;
    let t = neutralized(a + x + b);
    let s = t.text;
    let i = neutral_text(a).len() as int;
    let first = i + h.len();
    let second = first + 1 + p.len();
    let end = second + 1 + g.len();
    assert forall|k: int| 0 <= k < x.len() implies token_letters(seq![#[trigger] x[k]]) || x[k] == '.' by {
        if k < h.len() {
            assert(x[k] == h[k]);
        } else if h.len() < k < h.len() + 1 + p.len() {
            assert(x[k] == p[k - h.len() - 1]);
        } else if k > h.len() + 1 + p.len() {
            assert(x[k] == g[k - h.len() - p.len() - 2]);
        }
    }
    lemma_set_in(a, x, b);
    assert(secret_span(t, mode, i) == Some((i, end))) by {
        assert forall|k: int| i <= k < first implies token_char(#[trigger] s[k], false) by {
            assert(s[k] == h[k - i]);
        }
        assert forall|k: int| first < k < second implies token_char(#[trigger] s[k], false) by {
            assert(s[k] == p[k - first - 1]);
        }
        assert forall|k: int| second < k < end implies token_char(#[trigger] s[k], false) by {
            assert(s[k] == g[k - second - 1]);
        }
        assert(s[i] == h[0] && s[i + 1] == h[1] && s[i + 2] == h[2]);
        lemma_web_token_shape(s, i, first, second, end);
        lemma_only_the_shape_counts(t, mode, i, first);
    }
    lemma_taken_out(a, x, b, mode);
}

/// How the tokens of known services begin, how many characters follow at least, and whether dots are
/// among them.
pub open spec fn service_prefix(w: Seq<char>, minimum: int, dots: bool) -> bool {
    ||| w == "ghp_"@ && minimum == 20 && !dots
    ||| w == "gho_"@ && minimum == 20 && !dots
    ||| w == "ghu_"@ && minimum == 20 && !dots
    ||| w == "ghs_"@ && minimum == 20 && dots
    ||| w == "ghr_"@ && minimum == 20 && !dots
    ||| w == "github_pat_"@ && minimum == 20 && !dots
    ||| w == "glpat-"@ && minimum == 20 && !dots
    ||| w == "gloas-"@ && minimum == 20 && !dots
    ||| w == "gldt-"@ && minimum == 20 && !dots
    ||| w == "glrt-"@ && minimum == 20 && !dots
    ||| w == "glrtr-"@ && minimum == 20 && !dots
    ||| w == "glcbt-"@ && minimum == 20 && !dots
    ||| w == "glptt-"@ && minimum == 20 && !dots
    ||| w == "glft-"@ && minimum == 20 && !dots
    ||| w == "glimt-"@ && minimum == 20 && !dots
    ||| w == "glagent-"@ && minimum == 20 && !dots
    ||| w == "glwt-"@ && minimum == 20 && !dots
    ||| w == "glsoat-"@ && minimum == 20 && !dots
    ||| w == "glffct-"@ && minimum == 20 && !dots
    ||| w == "npm_"@ && minimum == 32 && !dots
    ||| w == "sk-"@ && minimum == 32 && !dots
}

#[verifier::rlimit(40)]
proof fn lemma_service_prefix(w: Seq<char>, minimum: int, dots: bool) -> (k: int)
    requires
        service_prefix(w, minimum, dots),
    ensures
        0 <= k < provider_prefixes().len(),
        provider_prefixes()[k] == (w, minimum, dots),
        w.len() >= 3,
        w[0] == 'g' || w[0] == 'n' || w[0] == 's' && !dots && minimum >= 14,
        token_letters(w),
{
    reveal_strlit("ghp_");
    reveal_strlit("gho_");
    reveal_strlit("ghu_");
    reveal_strlit("ghs_");
    reveal_strlit("ghr_");
    reveal_strlit("github_pat_");
    reveal_strlit("glpat-");
    reveal_strlit("gloas-");
    reveal_strlit("gldt-");
    reveal_strlit("glrt-");
    reveal_strlit("glrtr-");
    reveal_strlit("glcbt-");
    reveal_strlit("glptt-");
    reveal_strlit("glft-");
    reveal_strlit("glimt-");
    reveal_strlit("glagent-");
    reveal_strlit("glwt-");
    reveal_strlit("glsoat-");
    reveal_strlit("glffct-");
    reveal_strlit("npm_");
    reveal_strlit("sk-");
    let all = provider_prefixes();
    assert(all[0] == ("ghp_"@, 20int, false));
    assert(all[1] == ("gho_"@, 20int, false));
    assert(all[2] == ("ghu_"@, 20int, false));
    assert(all[3] == ("ghs_"@, 20int, true));
    assert(all[4] == ("ghr_"@, 20int, false));
    assert(all[5] == ("github_pat_"@, 20int, false));
    assert(all[6] == ("glpat-"@, 20int, false));
    assert(all[7] == ("gloas-"@, 20int, false));
    assert(all[8] == ("gldt-"@, 20int, false));
    assert(all[9] == ("glrt-"@, 20int, false));
    assert(all[10] == ("glrtr-"@, 20int, false));
    assert(all[11] == ("glcbt-"@, 20int, false));
    assert(all[12] == ("glptt-"@, 20int, false));
    assert(all[13] == ("glft-"@, 20int, false));
    assert(all[14] == ("glimt-"@, 20int, false));
    assert(all[15] == ("glagent-"@, 20int, false));
    assert(all[16] == ("glwt-"@, 20int, false));
    assert(all[17] == ("glsoat-"@, 20int, false));
    assert(all[18] == ("glffct-"@, 20int, false));
    assert(all[19] == ("npm_"@, 32int, false));
    assert(all[20] == ("sk-"@, 32int, false));
    let k = choose|k: int| 0 <= k < all.len() && #[trigger] all[k] == (w, minimum, dots);
    k
}

proof fn lemma_not_at(s: Seq<char>, i: int, w: Seq<char>, v: Seq<char>, d: int)
    requires
        text_at(s, i, w),
        0 <= d < w.len(),
        d < v.len(),
        w[d] != v[d],
    ensures
        !text_at(s, i, v),
{
    assert(s.subrange(i, i + w.len())[d] == s[i + d]);
    if text_at(s, i, v) {
        assert(s.subrange(i, i + v.len())[d] == s[i + d]);
    }
}

proof fn lemma_no_earlier_prefix(s: Seq<char>, i: int, k: int)
    requires
        0 <= k < provider_prefixes().len(),
        text_at(s, i, provider_prefixes()[k].0),
    ensures
        forall|j: int| 0 <= j < k ==> !text_at(s, i, (#[trigger] provider_prefixes()[j]).0),
{
    reveal_strlit("ghp_");
    reveal_strlit("gho_");
    reveal_strlit("ghu_");
    reveal_strlit("ghs_");
    reveal_strlit("ghr_");
    reveal_strlit("github_pat_");
    reveal_strlit("glpat-");
    reveal_strlit("gloas-");
    reveal_strlit("gldt-");
    reveal_strlit("glrt-");
    reveal_strlit("glrtr-");
    reveal_strlit("glcbt-");
    reveal_strlit("glptt-");
    reveal_strlit("glft-");
    reveal_strlit("glimt-");
    reveal_strlit("glagent-");
    reveal_strlit("glwt-");
    reveal_strlit("glsoat-");
    reveal_strlit("glffct-");
    reveal_strlit("npm_");
    reveal_strlit("sk-");
    if k == 1 {
        lemma_not_at(s, i, "gho_"@, "ghp_"@, 2);
    }
    if k == 2 {
        lemma_not_at(s, i, "ghu_"@, "ghp_"@, 2);
        lemma_not_at(s, i, "ghu_"@, "gho_"@, 2);
    }
    if k == 3 {
        lemma_not_at(s, i, "ghs_"@, "ghp_"@, 2);
        lemma_not_at(s, i, "ghs_"@, "gho_"@, 2);
        lemma_not_at(s, i, "ghs_"@, "ghu_"@, 2);
    }
    if k == 4 {
        lemma_not_at(s, i, "ghr_"@, "ghp_"@, 2);
        lemma_not_at(s, i, "ghr_"@, "gho_"@, 2);
        lemma_not_at(s, i, "ghr_"@, "ghu_"@, 2);
        lemma_not_at(s, i, "ghr_"@, "ghs_"@, 2);
    }
    if k == 5 {
        lemma_not_at(s, i, "github_pat_"@, "ghp_"@, 1);
        lemma_not_at(s, i, "github_pat_"@, "gho_"@, 1);
        lemma_not_at(s, i, "github_pat_"@, "ghu_"@, 1);
        lemma_not_at(s, i, "github_pat_"@, "ghs_"@, 1);
        lemma_not_at(s, i, "github_pat_"@, "ghr_"@, 1);
    }
    if k == 6 {
        lemma_not_at(s, i, "glpat-"@, "ghp_"@, 1);
        lemma_not_at(s, i, "glpat-"@, "gho_"@, 1);
        lemma_not_at(s, i, "glpat-"@, "ghu_"@, 1);
        lemma_not_at(s, i, "glpat-"@, "ghs_"@, 1);
        lemma_not_at(s, i, "glpat-"@, "ghr_"@, 1);
        lemma_not_at(s, i, "glpat-"@, "github_pat_"@, 1);
    }
    if k == 7 {
        lemma_not_at(s, i, "gloas-"@, "ghp_"@, 1);
        lemma_not_at(s, i, "gloas-"@, "gho_"@, 1);
        lemma_not_at(s, i, "gloas-"@, "ghu_"@, 1);
        lemma_not_at(s, i, "gloas-"@, "ghs_"@, 1);
        lemma_not_at(s, i, "gloas-"@, "ghr_"@, 1);
        lemma_not_at(s, i, "gloas-"@, "github_pat_"@, 1);
        lemma_not_at(s, i, "gloas-"@, "glpat-"@, 2);
    }
    if k == 8 {
        lemma_not_at(s, i, "gldt-"@, "ghp_"@, 1);
        lemma_not_at(s, i, "gldt-"@, "gho_"@, 1);
        lemma_not_at(s, i, "gldt-"@, "ghu_"@, 1);
        lemma_not_at(s, i, "gldt-"@, "ghs_"@, 1);
        lemma_not_at(s, i, "gldt-"@, "ghr_"@, 1);
        lemma_not_at(s, i, "gldt-"@, "github_pat_"@, 1);
        lemma_not_at(s, i, "gldt-"@, "glpat-"@, 2);
        lemma_not_at(s, i, "gldt-"@, "gloas-"@, 2);
    }
    if k == 9 {
        lemma_not_at(s, i, "glrt-"@, "ghp_"@, 1);
        lemma_not_at(s, i, "glrt-"@, "gho_"@, 1);
        lemma_not_at(s, i, "glrt-"@, "ghu_"@, 1);
        lemma_not_at(s, i, "glrt-"@, "ghs_"@, 1);
        lemma_not_at(s, i, "glrt-"@, "ghr_"@, 1);
        lemma_not_at(s, i, "glrt-"@, "github_pat_"@, 1);
        lemma_not_at(s, i, "glrt-"@, "glpat-"@, 2);
        lemma_not_at(s, i, "glrt-"@, "gloas-"@, 2);
        lemma_not_at(s, i, "glrt-"@, "gldt-"@, 2);
    }
    if k == 10 {
        lemma_not_at(s, i, "glrtr-"@, "ghp_"@, 1);
        lemma_not_at(s, i, "glrtr-"@, "gho_"@, 1);
        lemma_not_at(s, i, "glrtr-"@, "ghu_"@, 1);
        lemma_not_at(s, i, "glrtr-"@, "ghs_"@, 1);
        lemma_not_at(s, i, "glrtr-"@, "ghr_"@, 1);
        lemma_not_at(s, i, "glrtr-"@, "github_pat_"@, 1);
        lemma_not_at(s, i, "glrtr-"@, "glpat-"@, 2);
        lemma_not_at(s, i, "glrtr-"@, "gloas-"@, 2);
        lemma_not_at(s, i, "glrtr-"@, "gldt-"@, 2);
        lemma_not_at(s, i, "glrtr-"@, "glrt-"@, 4);
    }
    if k == 11 {
        lemma_not_at(s, i, "glcbt-"@, "ghp_"@, 1);
        lemma_not_at(s, i, "glcbt-"@, "gho_"@, 1);
        lemma_not_at(s, i, "glcbt-"@, "ghu_"@, 1);
        lemma_not_at(s, i, "glcbt-"@, "ghs_"@, 1);
        lemma_not_at(s, i, "glcbt-"@, "ghr_"@, 1);
        lemma_not_at(s, i, "glcbt-"@, "github_pat_"@, 1);
        lemma_not_at(s, i, "glcbt-"@, "glpat-"@, 2);
        lemma_not_at(s, i, "glcbt-"@, "gloas-"@, 2);
        lemma_not_at(s, i, "glcbt-"@, "gldt-"@, 2);
        lemma_not_at(s, i, "glcbt-"@, "glrt-"@, 2);
        lemma_not_at(s, i, "glcbt-"@, "glrtr-"@, 2);
    }
    if k == 12 {
        lemma_not_at(s, i, "glptt-"@, "ghp_"@, 1);
        lemma_not_at(s, i, "glptt-"@, "gho_"@, 1);
        lemma_not_at(s, i, "glptt-"@, "ghu_"@, 1);
        lemma_not_at(s, i, "glptt-"@, "ghs_"@, 1);
        lemma_not_at(s, i, "glptt-"@, "ghr_"@, 1);
        lemma_not_at(s, i, "glptt-"@, "github_pat_"@, 1);
        lemma_not_at(s, i, "glptt-"@, "glpat-"@, 3);
        lemma_not_at(s, i, "glptt-"@, "gloas-"@, 2);
        lemma_not_at(s, i, "glptt-"@, "gldt-"@, 2);
        lemma_not_at(s, i, "glptt-"@, "glrt-"@, 2);
        lemma_not_at(s, i, "glptt-"@, "glrtr-"@, 2);
        lemma_not_at(s, i, "glptt-"@, "glcbt-"@, 2);
    }
    if k == 13 {
        lemma_not_at(s, i, "glft-"@, "ghp_"@, 1);
        lemma_not_at(s, i, "glft-"@, "gho_"@, 1);
        lemma_not_at(s, i, "glft-"@, "ghu_"@, 1);
        lemma_not_at(s, i, "glft-"@, "ghs_"@, 1);
        lemma_not_at(s, i, "glft-"@, "ghr_"@, 1);
        lemma_not_at(s, i, "glft-"@, "github_pat_"@, 1);
        lemma_not_at(s, i, "glft-"@, "glpat-"@, 2);
        lemma_not_at(s, i, "glft-"@, "gloas-"@, 2);
        lemma_not_at(s, i, "glft-"@, "gldt-"@, 2);
        lemma_not_at(s, i, "glft-"@, "glrt-"@, 2);
        lemma_not_at(s, i, "glft-"@, "glrtr-"@, 2);
        lemma_not_at(s, i, "glft-"@, "glcbt-"@, 2);
        lemma_not_at(s, i, "glft-"@, "glptt-"@, 2);
    }
    if k == 14 {
        lemma_not_at(s, i, "glimt-"@, "ghp_"@, 1);
        lemma_not_at(s, i, "glimt-"@, "gho_"@, 1);
        lemma_not_at(s, i, "glimt-"@, "ghu_"@, 1);
        lemma_not_at(s, i, "glimt-"@, "ghs_"@, 1);
        lemma_not_at(s, i, "glimt-"@, "ghr_"@, 1);
        lemma_not_at(s, i, "glimt-"@, "github_pat_"@, 1);
        lemma_not_at(s, i, "glimt-"@, "glpat-"@, 2);
        lemma_not_at(s, i, "glimt-"@, "gloas-"@, 2);
        lemma_not_at(s, i, "glimt-"@, "gldt-"@, 2);
        lemma_not_at(s, i, "glimt-"@, "glrt-"@, 2);
        lemma_not_at(s, i, "glimt-"@, "glrtr-"@, 2);
        lemma_not_at(s, i, "glimt-"@, "glcbt-"@, 2);
        lemma_not_at(s, i, "glimt-"@, "glptt-"@, 2);
        lemma_not_at(s, i, "glimt-"@, "glft-"@, 2);
    }
    if k == 15 {
        lemma_not_at(s, i, "glagent-"@, "ghp_"@, 1);
        lemma_not_at(s, i, "glagent-"@, "gho_"@, 1);
        lemma_not_at(s, i, "glagent-"@, "ghu_"@, 1);
        lemma_not_at(s, i, "glagent-"@, "ghs_"@, 1);
        lemma_not_at(s, i, "glagent-"@, "ghr_"@, 1);
        lemma_not_at(s, i, "glagent-"@, "github_pat_"@, 1);
        lemma_not_at(s, i, "glagent-"@, "glpat-"@, 2);
        lemma_not_at(s, i, "glagent-"@, "gloas-"@, 2);
        lemma_not_at(s, i, "glagent-"@, "gldt-"@, 2);
        lemma_not_at(s, i, "glagent-"@, "glrt-"@, 2);
        lemma_not_at(s, i, "glagent-"@, "glrtr-"@, 2);
        lemma_not_at(s, i, "glagent-"@, "glcbt-"@, 2);
        lemma_not_at(s, i, "glagent-"@, "glptt-"@, 2);
        lemma_not_at(s, i, "glagent-"@, "glft-"@, 2);
        lemma_not_at(s, i, "glagent-"@, "glimt-"@, 2);
    }
    if k == 16 {
        lemma_not_at(s, i, "glwt-"@, "ghp_"@, 1);
        lemma_not_at(s, i, "glwt-"@, "gho_"@, 1);
        lemma_not_at(s, i, "glwt-"@, "ghu_"@, 1);
        lemma_not_at(s, i, "glwt-"@, "ghs_"@, 1);
        lemma_not_at(s, i, "glwt-"@, "ghr_"@, 1);
        lemma_not_at(s, i, "glwt-"@, "github_pat_"@, 1);
        lemma_not_at(s, i, "glwt-"@, "glpat-"@, 2);
        lemma_not_at(s, i, "glwt-"@, "gloas-"@, 2);
        lemma_not_at(s, i, "glwt-"@, "gldt-"@, 2);
        lemma_not_at(s, i, "glwt-"@, "glrt-"@, 2);
        lemma_not_at(s, i, "glwt-"@, "glrtr-"@, 2);
        lemma_not_at(s, i, "glwt-"@, "glcbt-"@, 2);
        lemma_not_at(s, i, "glwt-"@, "glptt-"@, 2);
        lemma_not_at(s, i, "glwt-"@, "glft-"@, 2);
        lemma_not_at(s, i, "glwt-"@, "glimt-"@, 2);
        lemma_not_at(s, i, "glwt-"@, "glagent-"@, 2);
    }
    if k == 17 {
        lemma_not_at(s, i, "glsoat-"@, "ghp_"@, 1);
        lemma_not_at(s, i, "glsoat-"@, "gho_"@, 1);
        lemma_not_at(s, i, "glsoat-"@, "ghu_"@, 1);
        lemma_not_at(s, i, "glsoat-"@, "ghs_"@, 1);
        lemma_not_at(s, i, "glsoat-"@, "ghr_"@, 1);
        lemma_not_at(s, i, "glsoat-"@, "github_pat_"@, 1);
        lemma_not_at(s, i, "glsoat-"@, "glpat-"@, 2);
        lemma_not_at(s, i, "glsoat-"@, "gloas-"@, 2);
        lemma_not_at(s, i, "glsoat-"@, "gldt-"@, 2);
        lemma_not_at(s, i, "glsoat-"@, "glrt-"@, 2);
        lemma_not_at(s, i, "glsoat-"@, "glrtr-"@, 2);
        lemma_not_at(s, i, "glsoat-"@, "glcbt-"@, 2);
        lemma_not_at(s, i, "glsoat-"@, "glptt-"@, 2);
        lemma_not_at(s, i, "glsoat-"@, "glft-"@, 2);
        lemma_not_at(s, i, "glsoat-"@, "glimt-"@, 2);
        lemma_not_at(s, i, "glsoat-"@, "glagent-"@, 2);
        lemma_not_at(s, i, "glsoat-"@, "glwt-"@, 2);
    }
    if k == 18 {
        lemma_not_at(s, i, "glffct-"@, "ghp_"@, 1);
        lemma_not_at(s, i, "glffct-"@, "gho_"@, 1);
        lemma_not_at(s, i, "glffct-"@, "ghu_"@, 1);
        lemma_not_at(s, i, "glffct-"@, "ghs_"@, 1);
        lemma_not_at(s, i, "glffct-"@, "ghr_"@, 1);
        lemma_not_at(s, i, "glffct-"@, "github_pat_"@, 1);
        lemma_not_at(s, i, "glffct-"@, "glpat-"@, 2);
        lemma_not_at(s, i, "glffct-"@, "gloas-"@, 2);
        lemma_not_at(s, i, "glffct-"@, "gldt-"@, 2);
        lemma_not_at(s, i, "glffct-"@, "glrt-"@, 2);
        lemma_not_at(s, i, "glffct-"@, "glrtr-"@, 2);
        lemma_not_at(s, i, "glffct-"@, "glcbt-"@, 2);
        lemma_not_at(s, i, "glffct-"@, "glptt-"@, 2);
        lemma_not_at(s, i, "glffct-"@, "glft-"@, 3);
        lemma_not_at(s, i, "glffct-"@, "glimt-"@, 2);
        lemma_not_at(s, i, "glffct-"@, "glagent-"@, 2);
        lemma_not_at(s, i, "glffct-"@, "glwt-"@, 2);
        lemma_not_at(s, i, "glffct-"@, "glsoat-"@, 2);
    }
    if k == 19 {
        lemma_not_at(s, i, "npm_"@, "ghp_"@, 0);
        lemma_not_at(s, i, "npm_"@, "gho_"@, 0);
        lemma_not_at(s, i, "npm_"@, "ghu_"@, 0);
        lemma_not_at(s, i, "npm_"@, "ghs_"@, 0);
        lemma_not_at(s, i, "npm_"@, "ghr_"@, 0);
        lemma_not_at(s, i, "npm_"@, "github_pat_"@, 0);
        lemma_not_at(s, i, "npm_"@, "glpat-"@, 0);
        lemma_not_at(s, i, "npm_"@, "gloas-"@, 0);
        lemma_not_at(s, i, "npm_"@, "gldt-"@, 0);
        lemma_not_at(s, i, "npm_"@, "glrt-"@, 0);
        lemma_not_at(s, i, "npm_"@, "glrtr-"@, 0);
        lemma_not_at(s, i, "npm_"@, "glcbt-"@, 0);
        lemma_not_at(s, i, "npm_"@, "glptt-"@, 0);
        lemma_not_at(s, i, "npm_"@, "glft-"@, 0);
        lemma_not_at(s, i, "npm_"@, "glimt-"@, 0);
        lemma_not_at(s, i, "npm_"@, "glagent-"@, 0);
        lemma_not_at(s, i, "npm_"@, "glwt-"@, 0);
        lemma_not_at(s, i, "npm_"@, "glsoat-"@, 0);
        lemma_not_at(s, i, "npm_"@, "glffct-"@, 0);
    }
    if k == 20 {
        lemma_not_at(s, i, "sk-"@, "ghp_"@, 0);
        lemma_not_at(s, i, "sk-"@, "gho_"@, 0);
        lemma_not_at(s, i, "sk-"@, "ghu_"@, 0);
        lemma_not_at(s, i, "sk-"@, "ghs_"@, 0);
        lemma_not_at(s, i, "sk-"@, "ghr_"@, 0);
        lemma_not_at(s, i, "sk-"@, "github_pat_"@, 0);
        lemma_not_at(s, i, "sk-"@, "glpat-"@, 0);
        lemma_not_at(s, i, "sk-"@, "gloas-"@, 0);
        lemma_not_at(s, i, "sk-"@, "gldt-"@, 0);
        lemma_not_at(s, i, "sk-"@, "glrt-"@, 0);
        lemma_not_at(s, i, "sk-"@, "glrtr-"@, 0);
        lemma_not_at(s, i, "sk-"@, "glcbt-"@, 0);
        lemma_not_at(s, i, "sk-"@, "glptt-"@, 0);
        lemma_not_at(s, i, "sk-"@, "glft-"@, 0);
        lemma_not_at(s, i, "sk-"@, "glimt-"@, 0);
        lemma_not_at(s, i, "sk-"@, "glagent-"@, 0);
        lemma_not_at(s, i, "sk-"@, "glwt-"@, 0);
        lemma_not_at(s, i, "sk-"@, "glsoat-"@, 0);
        lemma_not_at(s, i, "sk-"@, "glffct-"@, 0);
        lemma_not_at(s, i, "sk-"@, "npm_"@, 0);
    }
}

proof fn lemma_first_prefix(s: Seq<char>, i: int, j: int, k: int)
    requires
        0 <= j <= k < provider_prefixes().len(),
        text_at(s, i, provider_prefixes()[k].0),
        forall|n: int| 0 <= n < k ==> !text_at(s, i, (#[trigger] provider_prefixes()[n]).0),
    ensures
        prefix_from(s, i, j) == Some(k),
    decreases k - j,
{
    if j < k {
        assert(!text_at(s, i, provider_prefixes()[j].0));
        lemma_first_prefix(s, i, j + 1, k);
    }
}

/// The token of a known service does not come through: one of the beginnings of such tokens, and at
/// least as many characters as they have, 1024 in all at most, where neither the text before nor that
/// behind goes on with the word, and nothing before it is redacted.
#[verifier::rlimit(40)]
pub proof fn law_service_tokens_are_taken_out(
    a: Seq<char>,
    w: Seq<char>,
    minimum: int,
    dots: bool,
    r: Seq<char>,
    b: Seq<char>,
    mode: SanitizationMode,
)
    requires
        mode != SanitizationMode::Identifier,
        service_prefix(w, minimum, dots),
        forall|k: int| 0 <= k < r.len() ==> token_letters(seq![#[trigger] r[k]]) || dots && r[k] == '.',
        r.len() >= minimum,
        w.len() + r.len() <= 1024,
        neutral_text(a).len() > 0 ==> ends_word(neutral_text(a).last()),
        neutral_text(b).len() > 0 ==> ends_word(neutral_text(b)[0]) && !(dots && neutral_text(b)[0] == '.'),
        quiet_before(neutralized(a + (w + r) + b), mode, neutral_text(a).len() as int),
    ensures
        taken_out(a, w + r, b, mode),
{
    let x = w + r;
    let t = neutralized(a + x + b);
    let s = t.text;
    let i = neutral_text(a).len() as int;
    let end = i + x.len();
    let k = lemma_service_prefix(w, minimum, dots);
    assert forall|n: int| 0 <= n < x.len() implies token_letters(seq![#[trigger] x[n]]) || x[n] == '.' by {
        if n < w.len() {
            assert(x[n] == w[n]);
        } else {
            assert(x[n] == r[n - w.len()]);
        }
    }
    lemma_set_in(a, x, b);
    assert forall|n: int| i <= n < end implies token_char(#[trigger] s[n], dots) by {
        assert(s[n] == x[n - i]);
        if n - i < w.len() {
            assert(x[n - i] == w[n - i]);
        } else {
            let c = r[n - i - w.len()];
            assert(x[n - i] == c);
            assert(seq![c][0] == c);
        }
    }
    assert(secret_span(t, mode, i) == Some((i, end))) by {
        lemma_token_run_end(s, i, end, dots);
        if end < s.len() {
            assert(s[end] == neutral_text(b)[0]);
        }
        if i > 0 {
            assert(s[i - 1] == neutral_text(a).last());
        }
        assert(s.subrange(i, i + w.len()) =~= w);
        lemma_no_earlier_prefix(s, i, k);
        lemma_first_prefix(s, i, 0, k);
        assert(provider_token(s, i) == Some(end));
        assert(s[i] == w[0]);
        let known = if s[i] == 's' {
            end
        } else {
            i + w.len()
        };
        assert forall|n: int| i <= n < known implies token_char(#[trigger] s[n], false) by {
            assert(s[n] == x[n - i]);
            if n - i < w.len() {
                assert(x[n - i] == w[n - i]);
            } else {
                let c = r[n - i - w.len()];
                assert(x[n - i] == c);
                assert(seq![c][0] == c);
            }
        }
        lemma_only_the_shape_counts(t, mode, i, known);
    }
    lemma_taken_out(a, x, b, mode);
}

#[verifier::rlimit(40)]
proof fn lemma_generated_shape(s: Seq<char>, i: int, x: Seq<char>)
    requires
        0 <= i,
        i + x.len() <= s.len(),
        s.subrange(i, i + x.len()) == x,
        token_letters(x),
        32 <= x.len() <= 128,
        exists|k: int| 0 <= k < x.len() && 'a' <= #[trigger] x[k] <= 'z',
        exists|k: int| 0 <= k < x.len() && 'A' <= #[trigger] x[k] <= 'Z',
        exists|k: int| 0 <= k < x.len() && '0' <= #[trigger] x[k] <= '9',
        exists|k: int| 0 <= k < x.len() && (#[trigger] x[k] == '_' || x[k] == '-'),
        x[0] == 'e' || x[0] == 'g' || x[0] == 'n' || x[0] == 's' ==> x[1] == x[0],
        i > 0 ==> ends_word(s[i - 1]),
        i + x.len() < s.len() ==> ends_word(s[i + x.len()]),
    ensures
        token_shape(s, i, true) == Some(i + x.len()),
{
    let end = i + x.len();
    assert forall|n: int| 0 <= n < x.len() implies s[i + n] == #[trigger] x[n] by {
        assert(s.subrange(i, end)[n] == s[i + n]);
    }
    assert forall|n: int| i <= n < end implies token_char(#[trigger] s[n], false) by {
        assert(s[i + (n - i)] == x[n - i]);
    }
    lemma_token_run_end(s, i, end, false);
    assert(s[i + 0] == x[0] && s[i + 1] == x[1]);
    lemma_doubled_letter_is_no_prefix(s, i, 0);
    assert(!text_at(s, i, "eyJ"@)) by {
        reveal_strlit("eyJ");
        if text_at(s, i, "eyJ"@) {
            assert(s.subrange(i, i + 3)[0] == s[i] && s.subrange(i, i + 3)[1] == s[i + 1]);
        }
    }
    let k = choose|k: int| 0 <= k < x.len() && 'a' <= #[trigger] x[k] <= 'z';
    assert(ascii_lowercase(s[i + k]));
    let k = choose|k: int| 0 <= k < x.len() && 'A' <= #[trigger] x[k] <= 'Z';
    assert(ascii_uppercase(s[i + k]));
    let k = choose|k: int| 0 <= k < x.len() && '0' <= #[trigger] x[k] <= '9';
    assert(ascii_digit(s[i + k]));
    let k = choose|k: int| 0 <= k < x.len() && (#[trigger] x[k] == '_' || x[k] == '-');
    assert(s[i + k] == '_' || s[i + k] == '-');
}

/// What stands between two texts stands in their concatenation, with their ends beside it.
pub proof fn lemma_stands_between(p: Seq<char>, x: Seq<char>, q: Seq<char>)
    ensures
        (p + x + q).len() == p.len() + x.len() + q.len(),
        (p + x + q).subrange(p.len() as int, (p.len() + x.len()) as int) == x,
        (p + x + q).take(p.len() as int) == p,
        p.len() > 0 ==> (p + x + q)[p.len() - 1] == p.last(),
        q.len() > 0 ==> (p + x + q)[(p.len() + x.len()) as int] == q[0],
        forall|n: int| 0 <= n < x.len() ==> (p + x + q)[p.len() + n] == #[trigger] x[n],
{
    let s = p + x + q;
    assert(s.subrange(p.len() as int, (p.len() + x.len()) as int) =~= x);
    assert(s.take(p.len() as int) =~= p);
}

#[verifier::rlimit(40)]
proof fn lemma_generated_span(t: Neutral, i: int, x: Seq<char>)
    requires
        t.wf(),
        0 <= i,
        i + x.len() <= t.text.len(),
        t.text.subrange(i, i + x.len()) == x,
        token_letters(x),
        32 <= x.len() <= 128,
        exists|k: int| 0 <= k < x.len() && 'a' <= #[trigger] x[k] <= 'z',
        exists|k: int| 0 <= k < x.len() && 'A' <= #[trigger] x[k] <= 'Z',
        exists|k: int| 0 <= k < x.len() && '0' <= #[trigger] x[k] <= '9',
        exists|k: int| 0 <= k < x.len() && (#[trigger] x[k] == '_' || x[k] == '-'),
        x[0] != '_' && x[0] != '-' && x[0] != 'a' && x[0] != 'A' && x[0] != 'b' && x[0] != 'B',
        x[0] == 'e' || x[0] == 'g' || x[0] == 'n' || x[0] == 's' ==> x[1] == x[0],
        i > 0 ==> ends_word(t.text[i - 1]),
        i + x.len() < t.text.len() ==> ends_word(t.text[i + x.len()]),
    ensures
        secret_span(t, SanitizationMode::ExternalText, i) == Some((i, i + x.len())),
{
    let s = t.text;
    let end = i + x.len();
    lemma_generated_shape(s, i, x);
    assert forall|n: int| i <= n < end implies token_char(#[trigger] s[n], false) by {
        assert(s.subrange(i, end)[n - i] == s[n]);
        assert(s[n] == x[n - i]);
    }
    assert(s.subrange(i, end)[0] == s[i]);
    lemma_only_the_shape_counts(t, SanitizationMode::ExternalText, i, end);
}

/// What looks generated does not come through free text, though nothing tells whose token it is: 32 to
/// 128 letters, digits, underscores and hyphens with a small letter, a capital, a digit and a hyphen or
/// underscore among them. It begins with a letter or digit, but not as a keyword might, stands alone,
/// and nothing before it is redacted.
#[verifier::rlimit(40)]
pub proof fn law_generated_words_are_taken_out(a: Seq<char>, x: Seq<char>, b: Seq<char>)
    requires
        token_letters(x),
        32 <= x.len() <= 128,
        exists|k: int| 0 <= k < x.len() && 'a' <= #[trigger] x[k] <= 'z',
        exists|k: int| 0 <= k < x.len() && 'A' <= #[trigger] x[k] <= 'Z',
        exists|k: int| 0 <= k < x.len() && '0' <= #[trigger] x[k] <= '9',
        exists|k: int| 0 <= k < x.len() && (#[trigger] x[k] == '_' || x[k] == '-'),
        x[0] != '_' && x[0] != '-' && x[0] != 'a' && x[0] != 'A' && x[0] != 'b' && x[0] != 'B',
        x[0] == 'e' || x[0] == 'g' || x[0] == 'n' || x[0] == 's' ==> x[1] == x[0],
        neutral_text(a).len() > 0 ==> ends_word(neutral_text(a).last()),
        neutral_text(b).len() > 0 ==> ends_word(neutral_text(b)[0]),
        quiet_before(
            neutralized(a + x + b),
            SanitizationMode::ExternalText,
            neutral_text(a).len() as int,
        ),
    ensures
        taken_out(a, x, b, SanitizationMode::ExternalText),
{
    let t = neutralized(a + x + b);
    let i = neutral_text(a).len() as int;
    assert forall|n: int| 0 <= n < x.len() implies token_letters(seq![#[trigger] x[n]]) || x[n] == '.' by {}
    lemma_set_in(a, x, b);
    lemma_stands_between(neutral_text(a), x, neutral_text(b));
    lemma_generated_span(t, i, x);
    lemma_taken_out(a, x, b, SanitizationMode::ExternalText);
}

proof fn lemma_doubled_letter_is_no_prefix(s: Seq<char>, i: int, k: int)
    requires
        0 <= i < s.len() - 1,
        0 <= k <= provider_prefixes().len(),
        s[i] == 'g' || s[i] == 'n' || s[i] == 's' ==> s[i + 1] == s[i],
    ensures
        prefix_from(s, i, k) is None,
    decreases provider_prefixes().len() - k,
{
    if k < provider_prefixes().len() {
        let w = provider_prefixes()[k].0;
        lemma_prefixes_go_on();
        if text_at(s, i, w) {
            assert(s.subrange(i, i + w.len())[0] == s[i] && s.subrange(i, i + w.len())[1] == s[i + 1]);
        }
        lemma_doubled_letter_is_no_prefix(s, i, k + 1);
    }
}

proof fn lemma_prefixes_go_on()
    ensures
        forall|k: int|
            0 <= k < provider_prefixes().len() ==> (#[trigger] provider_prefixes()[k]).0.len() >= 3 && (
            provider_prefixes()[k].0[0] == 'g' || provider_prefixes()[k].0[0] == 'n' || provider_prefixes()[k].0[0]
                == 's') && provider_prefixes()[k].0[1] != provider_prefixes()[k].0[0],
{
    lemma_prefix_lengths();
    reveal_strlit("ghp_");
    reveal_strlit("gho_");
    reveal_strlit("ghu_");
    reveal_strlit("ghs_");
    reveal_strlit("ghr_");
    reveal_strlit("github_pat_");
    reveal_strlit("glpat-");
    reveal_strlit("gloas-");
    reveal_strlit("gldt-");
    reveal_strlit("glrt-");
    reveal_strlit("glrtr-");
    reveal_strlit("glcbt-");
    reveal_strlit("glptt-");
    reveal_strlit("glft-");
    reveal_strlit("glimt-");
    reveal_strlit("glagent-");
    reveal_strlit("glwt-");
    reveal_strlit("glsoat-");
    reveal_strlit("glffct-");
    reveal_strlit("npm_");
    reveal_strlit("sk-");
}

} // verus!
