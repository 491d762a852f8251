//! Absolute paths do not come through the sanitizing of external text.
use super::sanitized;
use super::keys::{leading_dashes, name_scan, secret_key, NameScan};
use super::laws::{lemma_neutral_concat, quiet_before};
use super::marks::{lemma_neutralized_wf, neutral_text, neutralized, unsafe_kind, Neutral};
use super::named::lemma_no_marks_inside;
use super::paths::{absolute_path, path_end_from, path_quote, path_root, web_span, UnquotedSpacePolicy};
use super::redact::{at_start, next_progress, redacted_from, secret_span, Progress, SanitizationMode};
use super::secrets::{keyword, keyword_from};
use super::tokens::token_shape;
use crate::text::{letter_or_number, lower, text_at, white_space, word_at};
use vstd::prelude::*;

verus! {

/// A character that a path goes on with, in quotes or out of them.
pub open spec fn path_letter(c: char) -> bool {
    &&& unsafe_kind(c) is None
    &&& !white_space(c)
    &&& c != '\'' && c != '"' && c != '`' && c != ')' && c != ']' && c != '}' && c != ',' && c != ';' && c != '&' && c
        != '<' && c != '>' && c != '|'
}

/// A path may begin behind the text.
pub open spec fn path_may_begin_behind(t: Seq<char>) -> bool {
    t.len() > 0 ==> {
        let p = t.last();
        !letter_or_number(p) && p != '_' && p != '-' && p != '.' && p != '\\' && p != '/' && p != '%'
    }
}

/// Up to the `i`-th character there is nothing to redact and no web address.
pub open spec fn plain_before(t: Neutral, i: int) -> bool {
    &&& quiet_before(t, SanitizationMode::ExternalText, i)
    &&& forall|j: int| 0 <= j < i ==> #[trigger] web_span(t, j) is None
}

/// Nothing from the `i`-th character on has the shape of a token, which would end a path.
pub open spec fn no_token_from(s: Seq<char>, i: int) -> bool {
    forall|k: int| i <= k < s.len() ==> #[trigger] token_shape(s, k, true) is None
}

proof fn lemma_path_to_the_end(t: Neutral, start: int, q: Option<(char, bool)>, i: int)
    requires
        0 <= start <= i <= t.text.len(),
        forall|k: int| i <= k < t.text.len() ==> path_letter(#[trigger] t.text[k]),
        forall|k: int| i <= k < t.text.len() ==> #[trigger] t.marker_at(k) is None,
        forall|k: int| i <= k < t.text.len() ==> #[trigger] token_shape(t.text, k, true) is None,
        q matches Some((c, _)) ==> c == '\'' || c == '"',
    ensures
        path_end_from(t, start, UnquotedSpacePolicy::Continue, q, i, None, false) == t.text.len(),
    decreases t.text.len() - i,
{
    if i < t.text.len() {
        assert(path_letter(t.text[i]));
        assert(t.marker_at(i) is None);
        assert(token_shape(t.text, i, true) is None);
        if i + 1 < t.text.len() {
            assert(path_letter(t.text[i + 1]));
        }
        lemma_path_to_the_end(t, start, q, i + 1);
    }
}

proof fn lemma_path_quote(s: Seq<char>, start: int, double_quote: Option<bool>)
    ensures
        path_quote(s, start, double_quote) matches Some((c, _)) ==> c == '\'' || c == '"',
{
}

/// Where nothing stands before it, the walk comes to `i` outside any web address.
proof fn lemma_walk_past_plain(t: Neutral, p: Progress, i: int) -> (q: Progress)
    requires
        t.wf(),
        0 <= p.at <= i <= t.text.len(),
        p.web_until <= p.at,
        plain_before(t, i),
    ensures
        q.at == i,
        q.web_until <= i,
        redacted_from(t, SanitizationMode::ExternalText, p).text == t.text.subrange(p.at, i) + redacted_from(
            t,
            SanitizationMode::ExternalText,
            q,
        ).text,
    decreases i - p.at,
{
    let mode = SanitizationMode::ExternalText;
    if p.at == i {
        assert(t.text.subrange(i, i) + redacted_from(t, mode, p).text =~= redacted_from(t, mode, p).text);
        p
    } else {
        assert(absolute_path(t, p.at, p.double_quote) is None);
        assert(secret_span(t, mode, p.at) is None);
        assert(web_span(t, p.at) is None);
        let next = next_progress(t, mode, p);
        let q = lemma_walk_past_plain(t, next, i);
        assert(t.text.subrange(p.at, i) =~= seq![t.text[p.at]] + t.text.subrange(p.at + 1, i));
        assert(redacted_from(t, mode, p).text =~= t.text.subrange(p.at, i) + redacted_from(t, mode, q).text);
        q
    }
}

#[verifier::rlimit(40)]
proof fn lemma_path_taken_out(a: Seq<char>, x: Seq<char>)
    requires
        x.len() > 0,
        neutral_text(x) == x,
        plain_before(neutralized(a + x), neutral_text(a).len() as int),
        secret_span(neutralized(a + x), SanitizationMode::ExternalText, neutral_text(a).len() as int) is None,
        web_span(neutralized(a + x), neutral_text(a).len() as int) is None,
        forall|q: Option<bool>| #[trigger]
            absolute_path(neutralized(a + x), neutral_text(a).len() as int, q) == Some(
                (neutral_text(a).len() + x.len()) as int,
            ),
    ensures
        sanitized(a + x, SanitizationMode::ExternalText) == neutral_text(a) + "[REDACTED_PATH]"@,
{
    let all = a + x;
    let t = neutralized(all);
    let i = neutral_text(a).len() as int;
    let mode = SanitizationMode::ExternalText;
    lemma_neutralized_wf(all);
    lemma_neutral_concat(a, x);
    assert(t.text.subrange(0, i) =~= neutral_text(a));
    let q = lemma_walk_past_plain(t, at_start(), i);
    assert(absolute_path(t, i, q.double_quote) == Some(t.text.len() as int));
    let next = next_progress(t, mode, q);
    assert(redacted_from(t, mode, next).text =~= Seq::empty());
    assert(redacted_from(t, mode, q).text =~= "[REDACTED_PATH]"@);
}

proof fn lemma_no_scheme(t: Neutral, i: int)
    requires
        0 <= i < t.text.len(),
        lower(t.text[i]) != 'h' || i + 1 < t.text.len() && t.text[i + 1] == ':',
    ensures
        web_span(t, i) is None,
{
    reveal_strlit("http://");
    reveal_strlit("https://");
    let s = t.text;
    if word_at(s, i, "http://"@) {
        assert(lower("http://"@[0]) == lower(s[i + 0]));
        assert(lower("http://"@[1]) == lower(s[i + 1]));
    }
    if word_at(s, i, "https://"@) {
        assert(lower("https://"@[0]) == lower(s[i + 0]));
        assert(lower("https://"@[1]) == lower(s[i + 1]));
    }
}

proof fn lemma_no_secret_at_slash(t: Neutral, i: int)
    requires
        t.wf(),
        0 <= i < t.text.len(),
        t.text[i] == '/',
        token_shape(t.text, i, true) is None,
    ensures
        secret_span(t, SanitizationMode::ExternalText, i) is None,
{
    let s = t.text;
    reveal(secret_span);
    reveal_strlit("_gitlab_session");
    if text_at(s, i, "_gitlab_session"@) {
        assert(s.subrange(i, i + "_gitlab_session"@.len())[0] == s[i]);
    }
    assert(secret_key(s, i) is None);
    reveal_strlit("authorization");
    reveal_strlit("basic");
    reveal_strlit("bearer");
    assert("authorization"@[0] == 'a');
    assert("basic"@[0] == 'b');
    assert("bearer"@[0] == 'b');
    assert(keyword_from(t, i, "authorization"@, 0, i, 0) is None);
    assert(keyword_from(t, i, "basic"@, 0, i, 0) is None);
    assert(keyword_from(t, i, "bearer"@, 0, i, 0) is None);
}

proof fn lemma_slash_root(s: Seq<char>, i: int)
    requires
        0 <= i < s.len(),
        s[i] == '/',
    ensures
        path_root(s, i) == Some((i + 1, UnquotedSpacePolicy::Continue)),
{
    reveal_strlit("file:");
    if word_at(s, i, "file:"@) {
        assert(lower("file:"@[0]) == lower(s[i + 0]));
    }
}

/// A path from the root of the file system does not come through: all that stands from its slash to the end of
/// the text is written over, whether a quote is open before it or not.
#[verifier::rlimit(40)]
pub proof fn law_rooted_paths_are_taken_out(a: Seq<char>, p: Seq<char>)
    requires
        forall|k: int| 0 <= k < p.len() ==> path_letter(#[trigger] p[k]),
        path_may_begin_behind(neutral_text(a)),
        plain_before(neutralized(a + (seq!['/'] + p)), neutral_text(a).len() as int),
        no_token_from(neutral_text(a) + (seq!['/'] + p), neutral_text(a).len() as int),
    ensures
        sanitized(a + (seq!['/'] + p), SanitizationMode::ExternalText) == neutral_text(a) + "[REDACTED_PATH]"@,
{
    let x = seq!['/'] + p;
    let none = Seq::<char>::empty();
    assert forall|k: int| 0 <= k < x.len() implies unsafe_kind(#[trigger] x[k]) is None by {
        if k > 0 {
            assert(path_letter(p[k - 1]));
        }
    }
    lemma_no_marks_inside(a, x, none);
    assert(a + x + none =~= a + x);
    assert(neutral_text(none) =~= none);
    let t = neutralized(a + x);
    let s = t.text;
    let i = neutral_text(a).len() as int;
    assert(s =~= neutral_text(a) + x);
    assert(s[i] == '/');
    assert(token_shape(s, i, true) is None);
    lemma_no_secret_at_slash(t, i);
    lemma_no_scheme(t, i);
    lemma_slash_root(s, i);
    assert forall|q: Option<bool>| #[trigger] absolute_path(t, i, q) == Some(s.len() as int) by {
        reveal(absolute_path);
        lemma_path_quote(s, i, q);
        assert forall|k: int| i + 1 <= k < s.len() implies path_letter(#[trigger] s[k]) by {
            assert(s[k] == p[k - i - 1]);
        }
        lemma_path_to_the_end(t, i, path_quote(s, i, q), i + 1);
        assert(i > 0 ==> s[i - 1] == neutral_text(a).last());
    }
    lemma_path_taken_out(a, x);
}

#[verifier::rlimit(40)]
proof fn lemma_no_secret_at_drive(t: Neutral, i: int)
    requires
        t.wf(),
        0 <= i,
        i + 1 < t.text.len(),
        'a' <= lower(t.text[i]) <= 'z',
        t.text[i + 1] == ':',
        t.marker_at(i + 1) is None,
        token_shape(t.text, i, true) is None,
    ensures
        secret_span(t, SanitizationMode::ExternalText, i) is None,
{
    let s = t.text;
    reveal(secret_span);
    reveal_strlit("_gitlab_session");
    if text_at(s, i, "_gitlab_session"@) {
        assert(s.subrange(i, i + "_gitlab_session"@.len())[0] == s[i]);
    }
    assert(secret_key(s, i) is None) by {
        assert(leading_dashes(s, i) == 0);
        let name = Seq::<char>::empty().push(lower(s[i]));
        reveal_strlit("[FORMAT-U+");
        reveal_strlit("[BIDI-U+");
        if text_at(s, i + 1, "[FORMAT-U+"@) {
            assert(s.subrange(i + 1, i + 1 + "[FORMAT-U+"@.len())[0] == s[i + 1]);
        }
        if text_at(s, i + 1, "[BIDI-U+"@) {
            assert(s.subrange(i + 1, i + 1 + "[BIDI-U+"@.len())[0] == s[i + 1]);
        }
        assert(name_scan(s, i, i + 1, name, 0, false) == Some(NameScan { end: i + 1, name, open: false }));
        assert(name_scan(s, i, i, Seq::empty(), 0, false) == Some(NameScan { end: i + 1, name, open: false }));
        reveal_strlit("token");
        reveal_strlit("api_key");
        reveal_strlit("password");
        reveal_strlit("passwd");
        reveal_strlit("secret");
        reveal_strlit("client_secret");
        reveal_strlit("access_token");
        reveal_strlit("refresh_token");
        reveal_strlit("private_key");
        assert("token"@.len() > 1 && "api_key"@.len() > 1 && "password"@.len() > 1 && "passwd"@.len() > 1
            && "secret"@.len() > 1 && "client_secret"@.len() > 1 && "access_token"@.len() > 1
            && "refresh_token"@.len() > 1 && "private_key"@.len() > 1);
        assert(name.len() == 1);
    }
    lemma_no_keyword_at_drive(t, i, "authorization"@);
    lemma_no_keyword_at_drive(t, i, "basic"@);
    lemma_no_keyword_at_drive(t, i, "bearer"@);
}

proof fn lemma_no_keyword_at_drive(t: Neutral, i: int, word: Seq<char>)
    requires
        t.wf(),
        0 <= i,
        i + 1 < t.text.len(),
        t.text[i + 1] == ':',
        t.marker_at(i + 1) is None,
        word == "authorization"@ || word == "basic"@ || word == "bearer"@,
    ensures
        keyword(t, i, word) is None,
{
    reveal_strlit("authorization");
    reveal_strlit("basic");
    reveal_strlit("bearer");
    assert(word.len() > 1 && word[1] != ':');
    assert(keyword_from(t, i, word, 1, i + 1, 0) is None);
    assert(keyword_from(t, i, word, 0, i, 0) is None);
}

proof fn lemma_drive_root(s: Seq<char>, i: int)
    requires
        0 <= i,
        i + 2 < s.len(),
        'a' <= lower(s[i]) <= 'z',
        s[i + 1] == ':',
        s[i + 2] == '\\' || s[i + 2] == '/',
    ensures
        path_root(s, i) == Some((i + 3, UnquotedSpacePolicy::Continue)),
{
    reveal_strlit("file:");
    if word_at(s, i, "file:"@) {
        assert(lower("file:"@[1]) == lower(s[i + 1]));
    }
}

/// A path on a drive does not come through: all that stands from the drive's letter to the end of the text is
/// written over.
#[verifier::rlimit(40)]
pub proof fn law_drive_paths_are_taken_out(a: Seq<char>, drive: char, slash: char, p: Seq<char>)
    requires
        'a' <= drive <= 'z' || 'A' <= drive <= 'Z',
        slash == '/' || slash == '\\',
        forall|k: int| 0 <= k < p.len() ==> path_letter(#[trigger] p[k]),
        path_may_begin_behind(neutral_text(a)),
        plain_before(neutralized(a + (seq![drive, ':', slash] + p)), neutral_text(a).len() as int),
        no_token_from(neutral_text(a) + (seq![drive, ':', slash] + p), neutral_text(a).len() as int),
    ensures
        sanitized(a + (seq![drive, ':', slash] + p), SanitizationMode::ExternalText) == neutral_text(a)
            + "[REDACTED_PATH]"@,
{
    let x = seq![drive, ':', slash] + p;
    let none = Seq::<char>::empty();
    assert forall|k: int| 0 <= k < x.len() implies unsafe_kind(#[trigger] x[k]) is None by {
        if k > 2 {
            assert(path_letter(p[k - 3]));
        }
    }
    lemma_no_marks_inside(a, x, none);
    assert(a + x + none =~= a + x);
    assert(neutral_text(none) =~= none);
    let t = neutralized(a + x);
    let s = t.text;
    let i = neutral_text(a).len() as int;
    assert(s =~= neutral_text(a) + x);
    assert(s[i] == drive && s[i + 1] == ':' && s[i + 2] == slash);
    assert(token_shape(s, i, true) is None);
    assert(t.marker_at(i + 1) is None);
    lemma_no_secret_at_drive(t, i);
    lemma_no_scheme(t, i);
    lemma_drive_root(s, i);
    assert forall|q: Option<bool>| #[trigger] absolute_path(t, i, q) == Some(s.len() as int) by {
        reveal(absolute_path);
        lemma_path_quote(s, i, q);
        assert forall|k: int| i + 3 <= k < s.len() implies path_letter(#[trigger] s[k]) by {
            assert(s[k] == p[k - i - 3]);
        }
        lemma_path_to_the_end(t, i, path_quote(s, i, q), i + 3);
        assert(i > 0 ==> s[i - 1] == neutral_text(a).last());
    }
    lemma_path_taken_out(a, x);
}

} // verus!
