//! Secrets that a name announces do not come through sanitizing.
use super::sanitized;
use super::keys::{
    bounded_name, key_break_before, leading_dashes, name_scan, secret_key, secret_name, secret_value,
    separator_blank, KeyMatch, NameScan,
};
use super::laws::{
    ends_word, lemma_name_keeps_its_first, lemma_neutral_concat, lemma_secret_names_begin, lemma_stands_between,
    lemma_walk_reaches, name_initial, quiet_before,
};
use super::marks::{
    law_safe_text_is_kept, lemma_neutralized_wf, neutral_marks, neutral_text, neutralized, unsafe_kind, Neutral,
};
use super::redact::{at_start, next_progress, redacted_from, secret_span, Progress, SanitizationMode};
use super::scan::{backslashes_before, quoted_end, skip_space, skip_spelled_space, spelled_space_at, unquoted_end};
use super::secrets::{
    credential_after_scheme, credential_quote, json_secret, keyword, keyword_from, quoted_secret, scheme,
    unquoted_secret,
};
use crate::text::{lower, text_at, white_space};
use vstd::prelude::*;

verus! {

/// No mark of the neutralized text stands where the middle of it is, which holds nothing unsafe.
pub proof fn lemma_no_marks_inside(a: Seq<char>, x: Seq<char>, b: Seq<char>)
    requires
        forall|k: int| 0 <= k < x.len() ==> unsafe_kind(#[trigger] x[k]) is None,
    ensures
        neutral_text(x) == x,
        neutralized(a + x + b).wf(),
        neutralized(a + x + b).text == neutral_text(a) + x + neutral_text(b),
        forall|j: int|
            neutral_text(a).len() <= j < neutral_text(a).len() + x.len() ==> #[trigger] neutralized(a + x + b).marker_at(j)
                is None,
    decreases b.len(),
{
    law_safe_text_is_kept(x);
    lemma_neutralized_wf(a + x + b);
    lemma_neutral_concat(a + x, b);
    lemma_neutral_concat(a, x);
    let n = neutral_text(a).len();
    let marks = neutral_marks(a + x + b);
    lemma_marks_outside(a, x, b);
    assert forall|j: int| n <= j < n + x.len() implies #[trigger] neutralized(a + x + b).marker_at(j) is None by {
        if exists|k: int| 0 <= k < marks.len() && (#[trigger] marks[k]).start == j {
            let k = choose|k: int| 0 <= k < marks.len() && (#[trigger] marks[k]).start == j;
            assert(marks[k].start < n || marks[k].start >= n + x.len());
        }
    }
}

proof fn lemma_marks_outside(a: Seq<char>, x: Seq<char>, b: Seq<char>)
    requires
        forall|k: int| 0 <= k < x.len() ==> unsafe_kind(#[trigger] x[k]) is None,
    ensures
        forall|k: int|
            0 <= k < neutral_marks(a + x + b).len() ==> (#[trigger] neutral_marks(a + x + b)[k]).start < neutral_text(a).len()
                || neutral_marks(a + x + b)[k].start >= neutral_text(a).len() + x.len(),
    decreases b.len() + x.len(),
{
    if b.len() > 0 {
        let c = b.drop_last();
        lemma_marks_outside(a, x, c);
        assert((a + x + b).drop_last() =~= a + x + c);
        assert((a + x + b).last() == b.last());
        lemma_neutral_concat(a + x, c);
        lemma_neutral_concat(a, x);
        law_safe_text_is_kept(x);
        let before = neutral_marks(a + x + c);
        let all = neutral_marks(a + x + b);
        assert forall|k: int| 0 <= k < all.len() implies (#[trigger] all[k]).start < neutral_text(a).len()
            || all[k].start >= neutral_text(a).len() + x.len() by {
            if k < before.len() {
                assert(all[k] == before[k]);
            }
        }
    } else if x.len() > 0 {
        let y = x.drop_last();
        assert forall|k: int| 0 <= k < y.len() implies unsafe_kind(#[trigger] y[k]) is None by {
            assert(y[k] == x[k]);
        }
        lemma_marks_outside(a, y, b);
        assert(a + x + b =~= (a + y + b).push(x.last()));
        assert((a + x + b).drop_last() =~= a + y + b);
        assert(x[x.len() - 1] == x.last());
        lemma_marks_of(a, y);
        assert(a + y + b =~= a + y);
    } else {
        assert(a + x + b =~= a);
        lemma_neutralized_wf(a);
        let marks = neutral_marks(a);
        assert forall|k: int| 0 <= k < marks.len() implies (#[trigger] marks[k]).start < neutral_text(a).len() by {
            assert(neutralized(a).marks[k] == marks[k]);
        }
    }
}

/// Safe characters behind a text add no marks.
proof fn lemma_marks_of(a: Seq<char>, y: Seq<char>)
    requires
        forall|k: int| 0 <= k < y.len() ==> unsafe_kind(#[trigger] y[k]) is None,
    ensures
        neutral_marks(a + y) == neutral_marks(a),
        forall|k: int| 0 <= k < neutral_marks(a).len() ==> (#[trigger] neutral_marks(a)[k]).start < neutral_text(a).len(),
    decreases y.len(),
{
    if y.len() > 0 {
        let z = y.drop_last();
        assert forall|k: int| 0 <= k < z.len() implies unsafe_kind(#[trigger] z[k]) is None by {
            assert(z[k] == y[k]);
        }
        lemma_marks_of(a, z);
        assert((a + y).drop_last() =~= a + z);
        assert((a + y).last() == y[y.len() - 1]);
    } else {
        assert(a + y =~= a);
        lemma_neutralized_wf(a);
        let marks = neutral_marks(a);
        assert forall|k: int| 0 <= k < marks.len() implies (#[trigger] marks[k]).start < neutral_text(a).len() by {
            assert(neutralized(a).marks[k] == marks[k]);
        }
    }
}

/// The names of secrets, as they are written in lower case.
pub open spec fn names_a_secret(w: Seq<char>) -> bool {
    ||| w == seq!['t', 'o', 'k', 'e', 'n']
    ||| w == seq!['a', 'p', 'i', '_', 'k', 'e', 'y']
    ||| w == seq!['p', 'a', 's', 's', 'w', 'o', 'r', 'd']
    ||| w == seq!['p', 'a', 's', 's', 'w', 'd']
    ||| w == seq!['s', 'e', 'c', 'r', 'e', 't']
    ||| w == seq!['c', 'l', 'i', 'e', 'n', 't', '_', 's', 'e', 'c', 'r', 'e', 't']
    ||| w == seq!['a', 'c', 'c', 'e', 's', 's', '_', 't', 'o', 'k', 'e', 'n']
    ||| w == seq!['r', 'e', 'f', 'r', 'e', 's', 'h', '_', 't', 'o', 'k', 'e', 'n']
    ||| w == seq!['p', 'r', 'i', 'v', 'a', 't', 'e', '_', 'k', 'e', 'y']
}

/// The text is the name in letters of either case, with an underscore or a hyphen where the name has an
/// underscore.
pub open spec fn written_as(n: Seq<char>, w: Seq<char>) -> bool {
    &&& n.len() == w.len()
    &&& forall|k: int|
        0 <= k < w.len() ==> if w[k] == '_' {
            #[trigger] n[k] == '_' || n[k] == '-'
        } else {
            n[k] == w[k] || n[k] as int == w[k] as int - 32
        }
}

/// Nothing of a name goes on here: words do not run into it.
pub open spec fn name_may_begin_behind(t: Seq<char>) -> bool {
    t.len() > 0 ==> {
        let p = t.last();
        if (p as u32) < 128 {
            !('a' <= p <= 'z' || 'A' <= p <= 'Z' || '0' <= p <= '9' || p == '_' || p == '-')
        } else {
            white_space(p)
        }
    }
}

#[verifier::rlimit(40)]
proof fn lemma_names(w: Seq<char>)
    requires
        names_a_secret(w),
    ensures
        secret_name(w),
        5 <= w.len() <= 13,
        forall|k: int| 0 <= k < w.len() ==> 'a' <= #[trigger] w[k] <= 'z' || w[k] == '_' && 0 < k < w.len() - 1 && w[k - 1] != '_',
{
    reveal_strlit("token");
    reveal_strlit("api_key");
    reveal_strlit("password");
    reveal_strlit("passwd");
    reveal_strlit("secret");
    reveal_strlit("client_secret");
    reveal_strlit("access_token");
    reveal_strlit("refresh_token");
    reveal_strlit("private_key");
    assert("token"@ =~= seq!['t', 'o', 'k', 'e', 'n']);
    assert("api_key"@ =~= seq!['a', 'p', 'i', '_', 'k', 'e', 'y']);
    assert("password"@ =~= seq!['p', 'a', 's', 's', 'w', 'o', 'r', 'd']);
    assert("passwd"@ =~= seq!['p', 'a', 's', 's', 'w', 'd']);
    assert("secret"@ =~= seq!['s', 'e', 'c', 'r', 'e', 't']);
    assert("client_secret"@ =~= seq!['c', 'l', 'i', 'e', 'n', 't', '_', 's', 'e', 'c', 'r', 'e', 't']);
    assert("access_token"@ =~= seq!['a', 'c', 'c', 'e', 's', 's', '_', 't', 'o', 'k', 'e', 'n']);
    assert("refresh_token"@ =~= seq!['r', 'e', 'f', 'r', 'e', 's', 'h', '_', 't', 'o', 'k', 'e', 'n']);
    assert("private_key"@ =~= seq!['p', 'r', 'i', 'v', 'a', 't', 'e', '_', 'k', 'e', 'y']);
}

proof fn lemma_name_scanned(s: Seq<char>, i: int, w: Seq<char>, k: int)
    requires
        0 <= i,
        0 <= k <= w.len() <= 13,
        i + w.len() < s.len(),
        forall|j: int| 0 <= j < w.len() ==> 'a' <= #[trigger] w[j] <= 'z' || w[j] == '_' && 0 < j < w.len() - 1 && w[j - 1] != '_',
        written_as(s.subrange(i, i + w.len()), w),
        s[i + w.len()] == '=' || s[i + w.len()] == ':',
    ensures
        name_scan(s, i, i + k, w.take(k), 0, k > 0 && w[k - 1] == '_') == Some(
            NameScan { end: i + w.len(), name: w, open: w.len() > 0 && w.last() == '_' },
        ),
    decreases w.len() - k,
{
    let part = s.subrange(i, i + w.len());
    if k < w.len() {
        assert(part[k] == s[i + k]);
        assert(w.take(k).push(w[k]) =~= w.take(k + 1));
        lemma_name_scanned(s, i, w, k + 1);
        if w[k] == '_' {
            assert(s[i + k] == '_' || s[i + k] == '-');
        } else {
            assert(lower(s[i + k]) == w[k]);
        }
    } else {
        assert(w.take(k) =~= w);
        reveal_strlit("[FORMAT-U+");
        reveal_strlit("[BIDI-U+");
        let end = i + w.len();
        if text_at(s, end, "[FORMAT-U+"@) {
            assert(s.subrange(end, end + "[FORMAT-U+"@.len())[0] == s[end]);
        }
        if text_at(s, end, "[BIDI-U+"@) {
            assert(s.subrange(end, end + "[BIDI-U+"@.len())[0] == s[end]);
        }
    }
}

/// A name of a secret and a sign behind it, in a text, announce the value behind the sign.
#[verifier::rlimit(40)]
proof fn lemma_announced(t: Neutral, i: int, w: Seq<char>)
    requires
        t.wf(),
        0 <= i,
        names_a_secret(w),
        i + w.len() + 1 < t.text.len(),
        written_as(t.text.subrange(i, i + w.len()), w),
        name_may_begin_behind(t.text.take(i)),
        t.text[i + w.len()] == '=' || t.text[i + w.len()] == ':',
        !white_space(t.text[i + w.len()]),
        !white_space(t.text[i + w.len() + 1]),
        t.text[i + w.len() + 1] != '=',
        t.text[i + w.len() + 1] != ':',
        t.text[i + w.len() + 1] != '[',
        t.marker_at(i + w.len()) is None,
        t.marker_at(i + w.len() + 1) is None,
    ensures
        secret_value(t, false, i) == Some(i + w.len() + 1),
{
    let s = t.text;
    let end = i + w.len();
    lemma_names(w);
    lemma_name_scanned(s, i, w, 0);
    let part = s.subrange(i, end);
    assert(part[0] == s[i]);
    assert(w.take(0) =~= Seq::<char>::empty());
    assert(leading_dashes(s, i) == 0);
    assert(i > 0 ==> s.take(i).last() == s[i - 1]);
    assert(key_break_before(s, i));
    reveal_strlit("_gitlab_session");
    if text_at(s, i, "_gitlab_session"@) {
        assert(s.subrange(i, i + "_gitlab_session"@.len())[0] == s[i]);
    }
    assert(bounded_name(s, i) == Some(NameScan { end, name: w, open: false }));
    assert(secret_key(s, i) == Some(KeyMatch { end, dashes: 0 }));
    lemma_no_spelled_space(s, end);
    assert(skip_spelled_space(s, end) == end);
    assert(skip_space(t, end) == end);
    assert(skip_space(t, end + 1) == end + 1);
    assert(separator_blank(t, false, end) == (end, false));
}

proof fn lemma_no_spelled_space(s: Seq<char>, i: int)
    requires
        0 <= i < s.len(),
        s[i] != '[',
    ensures
        !spelled_space_at(s, i),
{
    reveal_strlit("[CONTROL-U+0009]");
    reveal_strlit("[CONTROL-U+000A]");
    reveal_strlit("[CONTROL-U+000B]");
    reveal_strlit("[CONTROL-U+000C]");
    reveal_strlit("[CONTROL-U+000D]");
    if spelled_space_at(s, i) {
        assert(s.subrange(i, i + 16)[0] == s[i]);
    }
}

/// The sanitized text has the mark of a secret in the place of `x`, which stands between `a`, `head` and
/// `tail`: what stands before it is kept, and what stands behind it is looked at anew.
pub open spec fn taken_out_behind(a: Seq<char>, head: Seq<char>, x: Seq<char>, tail: Seq<char>, mode: SanitizationMode) -> bool {
    let all = a + head + x + tail;
    let before = neutral_text(a) + head;
    exists|q: Progress|
        {
            &&& q.at == before.len() + x.len()
            &&& sanitized(all, mode) == before + "[REDACTED_SECRET]"@ + #[trigger] redacted_from(
                neutralized(all),
                mode,
                q,
            ).text
        } && (tail.len() == 0 ==> sanitized(all, mode) == before + "[REDACTED_SECRET]"@)
}

#[verifier::rlimit(40)]
proof fn lemma_taken_out_behind(a: Seq<char>, head: Seq<char>, x: Seq<char>, tail: Seq<char>, mode: SanitizationMode)
    requires
        x.len() > 0,
        neutral_text(head) == head,
        neutral_text(x) == x,
        quiet_before(neutralized(a + head + x + tail), mode, neutral_text(a).len() as int),
        secret_span(neutralized(a + head + x + tail), mode, neutral_text(a).len() as int) == Some(
            ((neutral_text(a).len() + head.len()) as int, (neutral_text(a).len() + head.len() + x.len()) as int),
        ),
    ensures
        taken_out_behind(a, head, x, tail, mode),
{
    let all = a + head + x + tail;
    let t = neutralized(all);
    let i = neutral_text(a).len() as int;
    let start = i + head.len();
    let mark = "[REDACTED_SECRET]"@;
    lemma_neutralized_wf(all);
    lemma_neutral_concat(a + head + x, tail);
    lemma_neutral_concat(a + head, x);
    lemma_neutral_concat(a, head);
    assert(t.text.subrange(0, i) =~= neutral_text(a));
    assert(t.text.subrange(i, start) =~= head);
    let q = lemma_walk_reaches(t, mode, at_start(), i);
    let next = next_progress(t, mode, q);
    let rest = redacted_from(t, mode, next).text;
    assert(redacted_from(t, mode, q).text =~= head + mark + rest);
    assert(sanitized(all, mode) =~= neutral_text(a) + head + mark + rest);
    if tail.len() == 0 {
        assert(rest =~= Seq::empty());
        assert(sanitized(all, mode) =~= neutral_text(a) + head + mark);
    }
}

/// A character that a value without quotes goes on with.
pub open spec fn value_letter(c: char) -> bool {
    &&& unsafe_kind(c) is None
    &&& !white_space(c)
    &&& c != ' ' && c != ',' && c != ';' && c != '&' && c != '\\'
}

proof fn lemma_unquoted_end(t: Neutral, start: int, i: int, end: int)
    requires
        0 <= start <= i <= end <= t.text.len(),
        forall|k: int| i <= k < end ==> value_letter(#[trigger] t.text[k]),
        end < t.text.len() ==> {
            let c = t.text[end];
            c == ' ' || c == ',' || c == ';' || c == '&'
        },
        end > start,
        i == end ==> t.text[end - 1] != '\\',
        i < end ==> start == i || t.text[i - 1] != '\\',
    ensures
        unquoted_end(t, false, start, i, t.text.len() as int) == end,
    decreases end - i,
{
    if i < end {
        assert(value_letter(t.text[i]));
        lemma_unquoted_end(t, start, i + 1, end);
    } else if end < t.text.len() {
        assert(backslashes_before(t.text, start, end) == 0);
    }
}

proof fn lemma_assigned_here(t: Neutral, mode: SanitizationMode, i: int, w: Seq<char>, end: int)
    requires
        t.wf(),
        0 <= i,
        names_a_secret(w),
        i + w.len() + 1 < end <= t.text.len(),
        written_as(t.text.subrange(i, i + w.len()), w),
        name_may_begin_behind(t.text.take(i)),
        t.text[i + w.len()] == '=' || t.text[i + w.len()] == ':',
        !white_space(t.text[i + w.len()]),
        forall|k: int| i + w.len() < k < end ==> value_letter(#[trigger] t.text[k]),
        forall|k: int| i <= k < end ==> #[trigger] t.marker_at(k) is None,
        ({
            let c = t.text[i + w.len() + 1];
            c != '=' && c != ':' && c != '[' && c != '\'' && c != '"'
        }),
        end < t.text.len() ==> {
            let c = t.text[end];
            c == ' ' || c == ',' || c == ';' || c == '&'
        },
    ensures
        secret_span(t, mode, i) == Some((i + w.len() + 1, end)),
{
    let start = i + w.len() + 1;
    assert(t.marker_at(i + w.len()) is None);
    assert(t.marker_at(start) is None);
    assert(value_letter(t.text[start]));
    lemma_announced(t, i, w);
    lemma_unquoted_end(t, start, start, end);
    reveal(secret_span);
    assert(unquoted_secret(t, false, i) == Some((start, end)));
}

proof fn lemma_quoted_here(t: Neutral, mode: SanitizationMode, i: int, w: Seq<char>, q: char, end: int)
    requires
        t.wf(),
        0 <= i,
        names_a_secret(w),
        i + w.len() + 2 < end < t.text.len(),
        written_as(t.text.subrange(i, i + w.len()), w),
        name_may_begin_behind(t.text.take(i)),
        t.text[i + w.len()] == '=' || t.text[i + w.len()] == ':',
        !white_space(t.text[i + w.len()]),
        q == '\'' || q == '"',
        t.text[i + w.len() + 1] == q && t.text[end] == q && !white_space(q),
        forall|k: int| i + w.len() + 1 < k < end ==> #[trigger] t.text[k] != q && t.text[k] != '\\',
        forall|k: int| i <= k < end ==> #[trigger] t.marker_at(k) is None,
    ensures
        secret_span(t, mode, i) == Some((i + w.len() + 2, end)),
{
    let start = i + w.len() + 2;
    assert(t.marker_at(i + w.len()) is None);
    assert(t.marker_at(i + w.len() + 1) is None);
    lemma_announced(t, i, w);
    lemma_quoted_end(t.text, start, start, q, end);
    reveal(secret_span);
    assert(unquoted_secret(t, false, i) is None);
    assert(quoted_secret(t, false, i) == Some((start, end)));
}

/// A value without quotes that stands behind a secret's name and a sign does not come through sanitizing, in
/// any mode: all of it, and no more, is written over.
#[verifier::rlimit(40)]
pub proof fn law_assigned_secrets_are_taken_out(
    a: Seq<char>,
    n: Seq<char>,
    w: Seq<char>,
    sign: char,
    v: Seq<char>,
    b: Seq<char>,
    mode: SanitizationMode,
)
    requires
        names_a_secret(w),
        written_as(n, w),
        sign == '=' || sign == ':',
        !white_space(sign),
        v.len() > 0,
        forall|k: int| 0 <= k < v.len() ==> value_letter(#[trigger] v[k]),
        v[0] != '=' && v[0] != ':' && v[0] != '[' && v[0] != '\'' && v[0] != '"',
        b.len() > 0 ==> b[0] == ' ' || b[0] == ',' || b[0] == ';' || b[0] == '&',
        name_may_begin_behind(neutral_text(a)),
        quiet_before(neutralized(a + n.push(sign) + v + b), mode, neutral_text(a).len() as int),
    ensures
        taken_out_behind(a, n.push(sign), v, b, mode),
{
    let head = n.push(sign);
    let x = head + v;
    let i = neutral_text(a).len() as int;
    let end = i + x.len();
    lemma_names(w);
    lemma_head_is_safe(n, w, seq![sign], v);
    assert(head =~= n + seq![sign]);
    assert(a + x + b =~= a + head + v + b);
    lemma_no_marks_inside(a, x, b);
    lemma_stands_between(neutral_text(a), x, neutral_text(b));
    let t = neutralized(a + head + v + b);
    let s = t.text;
    assert(s.subrange(i, i + w.len()) =~= s.subrange(i, end).take(w.len() as int));
    assert(x.take(w.len() as int) =~= n);
    assert(x[w.len() as int] == sign);
    assert(x[w.len() as int + 1] == v[0]);
    assert forall|k: int| i + w.len() < k < end implies value_letter(#[trigger] s[k]) by {
        assert(s[i + (k - i)] == x[k - i]);
        assert(x[k - i] == v[k - i - w.len() - 1]);
    }
    if b.len() > 0 {
        lemma_neutral_first(b);
    } else {
        assert(neutral_text(b).len() == 0);
    }
    lemma_assigned_here(t, mode, i, w, end);
    lemma_parts_kept(head, v, x);
    lemma_taken_out_behind(a, head, v, b, mode);
}

proof fn lemma_head_is_safe(n: Seq<char>, w: Seq<char>, signs: Seq<char>, v: Seq<char>)
    requires
        written_as(n, w),
        forall|k: int| 0 <= k < w.len() ==> 'a' <= #[trigger] w[k] <= 'z' || w[k] == '_',
        forall|k: int|
            0 <= k < signs.len() ==> (#[trigger] signs[k] == '=' || signs[k] == ':' || signs[k] == '\'' || signs[k] == '"'),
        forall|k: int| 0 <= k < v.len() ==> unsafe_kind(#[trigger] v[k]) is None,
    ensures
        forall|k: int| 0 <= k < (n + signs + v).len() ==> unsafe_kind(#[trigger] (n + signs + v)[k]) is None,
{
    let x = n + signs + v;
    assert forall|k: int| 0 <= k < x.len() implies unsafe_kind(#[trigger] x[k]) is None by {
        if k < n.len() {
            assert(x[k] == n[k]);
            assert('a' <= w[k] <= 'z' || w[k] == '_');
        } else if k < n.len() + signs.len() {
            assert(x[k] == signs[k - n.len()]);
        } else {
            assert(x[k] == v[k - n.len() - signs.len()]);
        }
    }
}

proof fn lemma_parts_kept(head: Seq<char>, v: Seq<char>, x: Seq<char>)
    requires
        x == head + v,
        forall|k: int| 0 <= k < x.len() ==> unsafe_kind(#[trigger] x[k]) is None,
    ensures
        neutral_text(head) == head,
        neutral_text(v) == v,
{
    assert forall|k: int| 0 <= k < head.len() implies unsafe_kind(#[trigger] head[k]) is None by {
        assert(x[k] == head[k]);
    }
    assert forall|k: int| 0 <= k < v.len() implies unsafe_kind(#[trigger] v[k]) is None by {
        assert(x[k + head.len()] == v[k]);
    }
    law_safe_text_is_kept(head);
    law_safe_text_is_kept(v);
}

proof fn lemma_neutral_first(b: Seq<char>)
    requires
        b.len() > 0,
        unsafe_kind(b[0]) is None,
    ensures
        neutral_text(b).len() > 0,
        neutral_text(b)[0] == b[0],
{
    let one = seq![b[0]];
    assert(b =~= one + b.skip(1));
    lemma_neutral_concat(one, b.skip(1));
    assert forall|k: int| 0 <= k < one.len() implies unsafe_kind(#[trigger] one[k]) is None by {}
    law_safe_text_is_kept(one);
}

proof fn lemma_quoted_end(s: Seq<char>, start: int, i: int, q: char, end: int)
    requires
        0 <= start <= i <= end < s.len(),
        s[end] == q,
        q == '\'' || q == '"',
        forall|k: int| start <= k < end ==> #[trigger] s[k] != q && s[k] != '\\',
    ensures
        quoted_end(s, start, i, q, s.len() as int) == end,
    decreases end - i,
{
    if i < end {
        assert(s[i] != q);
        lemma_quoted_end(s, start, i + 1, q, end);
    } else {
        if start < end {
            assert(s[end - 1] != '\\');
        }
        assert(backslashes_before(s, start, end) == 0);
    }
}

/// A value in quotes that stands behind a secret's name and a sign does not come through sanitizing, in any
/// mode, whatever spaces and signs it holds: all of it, and no more, is written over.
#[verifier::rlimit(40)]
pub proof fn law_quoted_secrets_are_taken_out(
    a: Seq<char>,
    n: Seq<char>,
    w: Seq<char>,
    sign: char,
    q: char,
    v: Seq<char>,
    b: Seq<char>,
    mode: SanitizationMode,
)
    requires
        names_a_secret(w),
        written_as(n, w),
        sign == '=' || sign == ':',
        q == '\'' || q == '"',
        !white_space(sign),
        !white_space(q),
        v.len() > 0,
        forall|k: int| 0 <= k < v.len() ==> unsafe_kind(#[trigger] v[k]) is None && v[k] != q && v[k] != '\\',
        b.len() > 0,
        b[0] == q,
        name_may_begin_behind(neutral_text(a)),
        quiet_before(neutralized(a + n.push(sign).push(q) + v + b), mode, neutral_text(a).len() as int),
    ensures
        taken_out_behind(a, n.push(sign).push(q), v, b, mode),
{
    let head = n.push(sign).push(q);
    let x = head + v;
    let i = neutral_text(a).len() as int;
    let end = i + x.len();
    lemma_names(w);
    lemma_head_is_safe(n, w, seq![sign, q], v);
    assert(head =~= n + seq![sign, q]);
    assert(a + x + b =~= a + head + v + b);
    lemma_no_marks_inside(a, x, b);
    lemma_stands_between(neutral_text(a), x, neutral_text(b));
    let t = neutralized(a + head + v + b);
    let s = t.text;
    assert(s.subrange(i, i + w.len()) =~= s.subrange(i, end).take(w.len() as int));
    assert(x.take(w.len() as int) =~= n);
    assert(x[w.len() as int] == sign);
    assert(x[w.len() as int + 1] == q);
    assert forall|k: int| i + w.len() + 1 < k < end implies #[trigger] s[k] != q && s[k] != '\\' by {
        assert(s[i + (k - i)] == x[k - i]);
        assert(x[k - i] == v[k - i - w.len() - 2]);
    }
    lemma_neutral_first(b);
    lemma_quoted_here(t, mode, i, w, q, end);
    lemma_parts_kept(head, v, x);
    lemma_taken_out_behind(a, head, v, b, mode);
}

/// The text is the word in letters of either case.
pub open spec fn spelled(n: Seq<char>, w: Seq<char>) -> bool {
    &&& n.len() == w.len()
    &&& forall|k: int| 0 <= k < w.len() ==> #[trigger] n[k] == w[k] || n[k] as int == w[k] as int - 32
}

proof fn lemma_keyword(t: Neutral, start: int, word: Seq<char>, k: int)
    requires
        t.wf(),
        0 <= start,
        0 <= k <= word.len(),
        start + word.len() <= t.text.len(),
        forall|j: int| 0 <= j < word.len() ==> 'a' <= #[trigger] word[j] <= 'z',
        spelled(t.text.subrange(start, start + word.len()), word),
        forall|j: int| start <= j < start + word.len() ==> #[trigger] t.marker_at(j) is None,
        start + word.len() < t.text.len() ==> ends_word(t.text[start + word.len()]),
    ensures
        keyword_from(t, start, word, k, start + k, 0) == Some(start + word.len()),
    decreases word.len() - k,
{
    if k < word.len() {
        assert(t.text.subrange(start, start + word.len())[k] == t.text[start + k]);
        assert(t.marker_at(start + k) is None);
        assert(lower(t.text[start + k]) == word[k]);
        lemma_keyword(t, start, word, k + 1);
    }
}

/// A word that begins with none of the letters that secrets' names begin with announces nothing.
proof fn lemma_no_name(t: Neutral, i: int)
    requires
        t.wf(),
        0 <= i < t.text.len(),
        'a' <= lower(t.text[i]) <= 'z',
        !name_initial(lower(t.text[i])),
    ensures
        unquoted_secret(t, false, i) is None,
        quoted_secret(t, false, i) is None,
        json_secret(t, i) is None,
{
    let s = t.text;
    assert(secret_key(s, i) is None) by {
        reveal_strlit("_gitlab_session");
        if text_at(s, i, "_gitlab_session"@) {
            assert(s.subrange(i, i + "_gitlab_session"@.len())[0] == s[i]);
        }
        assert(leading_dashes(s, i) == 0);
        let first = Seq::<char>::empty().push(lower(s[i]));
        assert(first[0] == lower(s[i]));
        lemma_name_keeps_its_first(s, i, i + 1, first, 0, false);
        match bounded_name(s, i) {
            Some(scan) => {
                if secret_name(scan.name) {
                    lemma_secret_names_begin(scan.name);
                }
            },
            None => {},
        }
    }
}

proof fn lemma_credential_end(t: Neutral, start: int, i: int, end: int)
    requires
        0 <= start <= i <= end <= t.text.len(),
        end > start,
        forall|k: int| start <= k < end ==> value_letter(#[trigger] t.text[k]) && t.text[k] != '\'' && t.text[k] != '"',
        forall|k: int| start <= k < end ==> #[trigger] t.marker_at(k) is None,
        end < t.text.len() ==> {
            let c = t.text[end];
            c == ' ' || c == ',' || c == ';' || c == '&'
        },
    ensures
        unquoted_end(t, true, start, i, t.text.len() as int) == end,
        credential_quote(t, start, i, end) is None,
    decreases end - i,
{
    if i < end {
        assert(value_letter(t.text[i]));
        assert(t.marker_at(i) is None);
        lemma_credential_end(t, start, i + 1, end);
    } else if end < t.text.len() {
        assert(value_letter(t.text[end - 1]));
        assert(backslashes_before(t.text, start, end) == 0);
    }
}

#[verifier::rlimit(40)]
proof fn lemma_scheme_here(t: Neutral, i: int, n: Seq<char>)
    requires
        t.wf(),
        0 <= i,
        i + n.len() < t.text.len(),
        t.text.subrange(i, i + n.len()) == n,
        spelled(n, seq!['b', 'e', 'a', 'r', 'e', 'r']) || spelled(n, seq!['b', 'a', 's', 'i', 'c']),
        ends_word(t.text[i + n.len()]),
        i > 0 ==> ends_word(t.text[i - 1]),
        forall|j: int| i <= j < i + n.len() ==> #[trigger] t.marker_at(j) is None,
    ensures
        scheme(t, i) == Some(i + n.len()),
        keyword(t, i, "authorization"@) is None,
        lower(t.text[i]) == 'b',
{
    let s = t.text;
    reveal_strlit("authorization");
    reveal_strlit("basic");
    reveal_strlit("bearer");
    assert("basic"@ =~= seq!['b', 'a', 's', 'i', 'c']);
    assert("bearer"@ =~= seq!['b', 'e', 'a', 'r', 'e', 'r']);
    assert("authorization"@[0] == 'a');
    assert(n[0] == s[i] && n[1] == s[i + 1]);
    assert(lower(s[i]) == 'b');
    assert(keyword_from(t, i, "authorization"@, 0, i, 0) is None);
    if spelled(n, seq!['b', 'a', 's', 'i', 'c']) {
        lemma_keyword(t, i, "basic"@, 0);
    } else {
        assert(t.marker_at(i) is None);
        assert(t.marker_at(i + 1) is None);
        assert(keyword_from(t, i, "basic"@, 1, i + 1, 0) is None);
        assert(keyword_from(t, i, "basic"@, 0, i, 0) is None);
        lemma_keyword(t, i, "bearer"@, 0);
    }
}

#[verifier::rlimit(40)]
proof fn lemma_credential_here(t: Neutral, mode: SanitizationMode, i: int, n: Seq<char>, end: int)
    requires
        t.wf(),
        0 <= i,
        i + n.len() + 1 < end <= t.text.len(),
        t.text.subrange(i, i + n.len()) == n,
        spelled(n, seq!['b', 'e', 'a', 'r', 'e', 'r']) || spelled(n, seq!['b', 'a', 's', 'i', 'c']),
        t.text[i + n.len()] == ' ' && ends_word(' ') && white_space(' '),
        i > 0 ==> ends_word(t.text[i - 1]),
        forall|j: int| i <= j < end ==> #[trigger] t.marker_at(j) is None,
        forall|k: int|
            i + n.len() < k < end ==> value_letter(#[trigger] t.text[k]) && t.text[k] != '\'' && t.text[k] != '"',
        end < t.text.len() ==> {
            let c = t.text[end];
            c == ' ' || c == ',' || c == ';' || c == '&'
        },
    ensures
        secret_span(t, mode, i) == Some((i + n.len() + 1, end)),
{
    lemma_scheme_here(t, i, n);
    lemma_no_name(t, i);
    let word_end = i + n.len();
    let start = word_end + 1;
    assert(t.marker_at(word_end) is None);
    assert(t.marker_at(start) is None);
    assert(value_letter(t.text[start]));
    assert(skip_space(t, start) == start);
    assert(skip_space(t, word_end) == start);
    lemma_credential_end(t, start, start, end);
    assert(credential_after_scheme(t, word_end) == Some((start, end)));
    reveal(secret_span);
}

/// What stands behind the word Bearer or Basic and a space, up to the next space, comma, semicolon or
/// ampersand, does not come through sanitizing, in any mode.
#[verifier::rlimit(40)]
pub proof fn law_credentials_are_taken_out(
    a: Seq<char>,
    n: Seq<char>,
    v: Seq<char>,
    b: Seq<char>,
    mode: SanitizationMode,
)
    requires
        spelled(n, seq!['b', 'e', 'a', 'r', 'e', 'r']) || spelled(n, seq!['b', 'a', 's', 'i', 'c']),
        ends_word(' ') && white_space(' '),
        v.len() > 0,
        forall|k: int| 0 <= k < v.len() ==> value_letter(#[trigger] v[k]) && v[k] != '\'' && v[k] != '"',
        b.len() > 0 ==> b[0] == ' ' || b[0] == ',' || b[0] == ';' || b[0] == '&',
        neutral_text(a).len() > 0 ==> ends_word(neutral_text(a).last()),
        quiet_before(neutralized(a + n.push(' ') + v + b), mode, neutral_text(a).len() as int),
    ensures
        taken_out_behind(a, n.push(' '), v, b, mode),
{
    let head = n.push(' ');
    let x = head + v;
    let all = a + head + v + b;
    let i = neutral_text(a).len() as int;
    assert forall|k: int| 0 <= k < x.len() implies unsafe_kind(#[trigger] x[k]) is None by {
        if k < n.len() {
            assert(x[k] == n[k]);
        } else if k > n.len() {
            assert(x[k] == v[k - n.len() - 1]);
        }
    }
    assert(a + x + b =~= all);
    lemma_no_marks_inside(a, x, b);
    let t = neutralized(all);
    let s = t.text;
    assert(s.subrange(i, i + n.len()) =~= n);
    let start = i + head.len();
    let end = start + v.len();
    assert(s[i + n.len()] == ' ');
    assert(i > 0 ==> s[i - 1] == neutral_text(a).last());
    assert forall|k: int| i + n.len() < k < end implies value_letter(#[trigger] s[k]) && s[k] != '\'' && s[k] != '"' by {
        assert(s[k] == v[k - start]);
    }
    if b.len() > 0 {
        lemma_neutral_first(b);
        assert(s[end] == neutral_text(b)[0]);
    } else {
        assert(neutral_text(b).len() == 0);
    }
    lemma_credential_here(t, mode, i, n, end);
    lemma_parts_kept(head, v, x);
    lemma_taken_out_behind(a, head, v, b, mode);
}

} // verus!
