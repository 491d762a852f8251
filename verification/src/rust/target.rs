//! The directory that a verification builds in, which no message may name.
use super::cargo_json::RustcDiagnostic;
use crate::json::push_chars;
use crate::numeral::{decimal, push_decimal};
use crate::path::{components, is_rooted, is_within, part_views, parts, rooted, within, Component};
use crate::text::{chars_of, is_text_at, letter_or_number, push_text, string_of, text_at, utf8_len, white_space};
use vstd::prelude::*;

verus! {

/// A path that is written in a text can end before the character, or begin behind it.
pub open spec fn path_boundary(c: char) -> bool {
    white_space(c) || !letter_or_number(c) && c != '_' && c != '-' && c != '.'
}

fn is_path_boundary(c: char) -> (r: bool)
    ensures
        r == path_boundary(c),
{
    c.is_whitespace() || !c.is_alphanumeric() && c != '_' && c != '-' && c != '.'
}

/// The directory is named at `i`.
pub open spec fn named_at(text: Seq<char>, i: int, root: Seq<char>) -> bool {
    &&& text_at(text, i, root)
    &&& i == 0 || path_boundary(text[i - 1])
    &&& i + root.len() == text.len() || text[i + root.len()] == '/' || text[i + root.len()] == '\\' || path_boundary(
        text[i + root.len()],
    )
}

/// Where the next occurrence of `root` is, from `k` on.
pub open spec fn next_occurrence(text: Seq<char>, k: int, root: Seq<char>) -> Option<int>
    decreases text.len() + 1 - k,
{
    if k < 0 || k + root.len() > text.len() {
        None
    } else if text_at(text, k, root) {
        Some(k)
    } else {
        next_occurrence(text, k + 1, root)
    }
}

/// One of the occurrences of `root` from `k` on, taken one behind the other, names the directory.
pub open spec fn named_from(text: Seq<char>, k: int, root: Seq<char>) -> bool
    decreases text.len() - k,
{
    match next_occurrence(text, k, root) {
        None => false,
        Some(i) => root.len() > 0 && k <= i <= text.len() - root.len() && (named_at(text, i, root) || named_from(
            text,
            i + root.len(),
            root,
        )),
    }
}

/// The text names the directory, if there is one.
pub open spec fn mentioned(text: Seq<char>, target: Option<Seq<char>>) -> bool {
    match target {
        Some(root) => root.len() > 0 && named_from(text, 0, root),
        None => false,
    }
}

pub proof fn lemma_next_occurrence(text: Seq<char>, k: int, root: Seq<char>)
    requires
        0 <= k,
    ensures
        next_occurrence(text, k, root) matches Some(i) ==> k <= i && text_at(text, i, root),
    decreases text.len() + 1 - k,
{
    if k + root.len() <= text.len() && !text_at(text, k, root) {
        lemma_next_occurrence(text, k + 1, root);
    }
}

fn find_occurrence(text: &Vec<char>, k: usize, root: &str, len: usize) -> (r: Option<usize>)
    requires
        len == root@.len(),
        len > 0,
    ensures
        match r {
            Some(i) => next_occurrence(text@, k as int, root@) == Some(i as int) && k <= i && i + len <= text.len(),
            None => next_occurrence(text@, k as int, root@) is None,
        },
{
    let mut i: usize = k;
    while i <= text.len() && len <= text.len() - i
        invariant
            k <= i,
            len == root@.len(),
            len > 0,
            next_occurrence(text@, k as int, root@) == next_occurrence(text@, i as int, root@),
        decreases text.len() + 1 - i,
    {
        if is_text_at(text.as_slice(), i, root) {
            return Some(i);
        }
        i = i + 1;
    }
    None
}

/// Whether the text names the directory.
pub fn verification_target_mentioned(text: &str, target: &Option<String>) -> (r: bool)
    ensures
        r == mentioned(text@, target_view(*target)),
{
    let root: &str = match target {
        Some(root) => root.as_str(),
        None => {
            return false;
        },
    };
    let len: usize = chars_of(root).len();
    if len == 0 {
        return false;
    }
    let s: Vec<char> = chars_of(text);
    let mut k: usize = 0;
    loop
        invariant
            k <= s.len(),
            s@ == text@,
            len == root@.len(),
            len > 0,
            target_view(*target) == Some(root@),
            named_from(text@, 0, root@) == named_from(text@, k as int, root@),
        decreases s.len() - k,
    {
        match find_occurrence(&s, k, root, len) {
            None => {
                return false;
            },
            Some(i) => {
                let before: bool = i == 0 || is_path_boundary(s[i - 1]);
                let after: bool = i + len == s.len() || s[i + len] == '/' || s[i + len] == '\\' || is_path_boundary(
                    s[i + len],
                );
                proof {
                    lemma_next_occurrence(text@, k as int, root@);
                }
                if before && after {
                    return true;
                }
                k = i + len;
            },
        }
    }
}

/// The directory, where there is one.
pub open spec fn target_view(target: Option<String>) -> Option<Seq<char>> {
    match target {
        Some(root) => Some(root@),
        None => None,
    }
}

/// The text from `k` on, with the directory written over wherever it stands.
pub open spec fn redacted_from(text: Seq<char>, k: int, root: Seq<char>) -> Seq<char>
    decreases text.len() - k,
{
    match next_occurrence(text, k, root) {
        Some(i) => if root.len() > 0 && 0 <= k <= i <= text.len() - root.len() {
            text.subrange(k, i) + "<verification-target>"@ + redacted_from(text, i + root.len(), root)
        } else {
            text.skip(k)
        },
        None => text.skip(k),
    }
}

/// The mark before, between and behind the characters of the text.
pub open spec fn spread(text: Seq<char>) -> Seq<char>
    decreases text.len(),
{
    if text.len() == 0 {
        "<verification-target>"@
    } else {
        spread(text.drop_last()) + seq![text.last()] + "<verification-target>"@
    }
}

/// The text with the directory written over wherever it stands.
pub open spec fn without_target(text: Seq<char>, target: Option<Seq<char>>) -> Seq<char> {
    match target {
        Some(root) => if root.len() > 0 {
            redacted_from(text, 0, root)
        } else {
            spread(text)
        },
        None => text,
    }
}

fn spread_text(text: &str) -> (r: String)
    ensures
        r@ == spread(text@),
{
    let s: Vec<char> = chars_of(text);
    let mut out: Vec<char> = Vec::new();
    push_text(&mut out, "<verification-target>");
    let mut i: usize = 0;
    assert(text@.take(0) =~= Seq::empty());
    assert(out@ =~= spread(text@.take(0)));
    while i < s.len()
        invariant
            i <= s.len(),
            s@ == text@,
            out@ == spread(text@.take(i as int)),
        decreases s.len() - i,
    {
        out.push(s[i]);
        push_text(&mut out, "<verification-target>");
        proof {
            let next = text@.take(i + 1);
            assert(next.drop_last() =~= text@.take(i as int));
            assert(out@ =~= spread(next));
        }
        i = i + 1;
    }
    assert(text@.take(s@.len() as int) =~= text@);
    string_of(out.as_slice())
}

fn push_part(out: &mut Vec<char>, s: &Vec<char>, from: usize, to: usize)
    requires
        from <= to <= s.len(),
    ensures
        final(out)@ == old(out)@ + s@.subrange(from as int, to as int),
{
    let mut i: usize = from;
    while i < to
        invariant
            from <= i <= to <= s.len(),
            out@ == old(out)@ + s@.subrange(from as int, i as int),
        decreases to - i,
    {
        out.push(s[i]);
        assert(s@.subrange(from as int, i + 1) =~= s@.subrange(from as int, i as int).push(s@[i as int]));
        i = i + 1;
    }
}

/// The text with the directory written over wherever it stands.
pub fn redact_verification_target(message: &str, target: &Option<String>) -> (r: String)
    ensures
        r@ == without_target(message@, target_view(*target)),
{
    let root: &str = match target {
        Some(root) => root.as_str(),
        None => {
            return message.to_owned();
        },
    };
    let len: usize = chars_of(root).len();
    if len == 0 {
        return spread_text(message);
    }
    let s: Vec<char> = chars_of(message);
    let mut out: Vec<char> = Vec::new();
    let ghost whole = redacted_from(message@, 0, root@);
    let mut k: usize = 0;
    assert(out@ + whole =~= whole);
    loop
        invariant
            k <= s.len(),
            s@ == message@,
            len == root@.len(),
            len > 0,
            target_view(*target) == Some(root@),
            whole == redacted_from(message@, 0, root@),
            out@ + redacted_from(message@, k as int, root@) == whole,
        decreases s.len() - k,
    {
        match find_occurrence(&s, k, root, len) {
            None => {
                let end: usize = s.len();
                push_part(&mut out, &s, k, end);
                assert(message@.skip(k as int) =~= message@.subrange(k as int, end as int));
                return string_of(out.as_slice());
            },
            Some(i) => {
                let ghost before = out@;
                push_part(&mut out, &s, k, i);
                push_text(&mut out, "<verification-target>");
                proof {
                    let rest = redacted_from(message@, i + len, root@);
                    assert(out@ + rest =~= before + redacted_from(message@, k as int, root@));
                }
                k = i + len;
            },
        }
    }
}

/// The path is one of a file in the directory.
pub open spec fn in_target(raw: Seq<char>, target: Option<Seq<char>>) -> bool {
    match target {
        None => false,
        Some(root) => {
            &&& !raw.contains('\\') && !raw.contains('\0')
            &&& rooted(raw)
            &&& within(raw, root)
            &&& forall|i: int| 0 <= i < parts(raw).len() ==> !(#[trigger] parts(raw)[i] is Parent)
        },
    }
}

/// Whether one of the characters stands in the text.
pub fn holds_any(text: &str, a: char, b: char) -> (r: bool)
    ensures
        r == (text@.contains(a) || text@.contains(b)),
{
    let s: Vec<char> = chars_of(text);
    let mut i: usize = 0;
    while i < s.len()
        invariant
            i <= s.len(),
            s@ == text@,
            forall|k: int| 0 <= k < i ==> #[trigger] s@[k] != a && s@[k] != b,
        decreases s.len() - i,
    {
        if s[i] == a || s[i] == b {
            assert(text@.contains(s@[i as int]));
            return true;
        }
        i = i + 1;
    }
    false
}

/// Whether the path is one of a file in the directory.
pub fn verification_target_path(raw: &str, target: &Option<String>) -> (r: bool)
    ensures
        r == in_target(raw@, target_view(*target)),
{
    let root: &str = match target {
        Some(root) => root.as_str(),
        None => {
            return false;
        },
    };
    if holds_any(raw, '\\', '\0') || !is_rooted(raw) || !is_within(raw, root) {
        return false;
    }
    let all: Vec<Component> = components(raw);
    let mut i: usize = 0;
    while i < all.len()
        invariant
            i <= all.len(),
            part_views(all@) == parts(raw@),
            target_view(*target) == Some(root@),
            forall|k: int| 0 <= k < i ==> !(#[trigger] parts(raw@)[k] is Parent),
        decreases all.len() - i,
    {
        assert(part_views(all@)[i as int] == all@[i as int]@);
        if let Component::Parent = &all[i] {
            assert(parts(raw@)[i as int] is Parent);
            return false;
        }
        i = i + 1;
    }
    true
}

/// A text of the diagnostic names the directory, or a span stands in it.
pub open spec fn generated(d: RustcDiagnostic, target: Option<Seq<char>>) -> bool {
    ||| exists|i: int| 0 <= i < d.spans.len() && in_target((#[trigger] d.spans@[i]).file_name@, target)
    ||| mentioned(d.message@, target)
    ||| d.rendered matches Some(text) && mentioned(text@, target)
    ||| exists|i: int| 0 <= i < d.children.len() && mentioned((#[trigger] d.children@[i]).message@, target)
}

/// Whether the diagnostic is about what the build made in the directory.
pub fn diagnostic_is_generated(d: &RustcDiagnostic, target: &Option<String>) -> (r: bool)
    ensures
        r == generated(*d, target_view(*target)),
{
    let ghost view = target_view(*target);
    let mut i: usize = 0;
    while i < d.spans.len()
        invariant
            i <= d.spans.len(),
            view == target_view(*target),
            forall|k: int| 0 <= k < i ==> !in_target((#[trigger] d.spans@[k]).file_name@, view),
        decreases d.spans.len() - i,
    {
        if verification_target_path(d.spans[i].file_name.as_str(), target) {
            assert(in_target(d.spans@[i as int].file_name@, view));
            return true;
        }
        i = i + 1;
    }
    if verification_target_mentioned(d.message.as_str(), target) {
        return true;
    }
    if let Some(text) = &d.rendered {
        if verification_target_mentioned(text.as_str(), target) {
            return true;
        }
    }
    let mut j: usize = 0;
    while j < d.children.len()
        invariant
            j <= d.children.len(),
            view == target_view(*target),
            forall|k: int| 0 <= k < d.spans.len() ==> !in_target((#[trigger] d.spans@[k]).file_name@, view),
            !mentioned(d.message@, view),
            d.rendered matches Some(text) ==> !mentioned(text@, view),
            forall|k: int| 0 <= k < j ==> !mentioned((#[trigger] d.children@[k]).message@, view),
        decreases d.children.len() - j,
    {
        if verification_target_mentioned(d.children[j].message.as_str(), target) {
            assert(mentioned(d.children@[j as int].message@, view));
            return true;
        }
        j = j + 1;
    }
    false
}

/// The pieces of the text between the occurrences of `root`, from `k` on.
pub open spec fn pieces_from(text: Seq<char>, k: int, root: Seq<char>) -> Seq<Seq<char>>
    decreases text.len() - k,
{
    match next_occurrence(text, k, root) {
        Some(i) => if root.len() > 0 && 0 <= k <= i <= text.len() - root.len() {
            seq![text.subrange(k, i)] + pieces_from(text, i + root.len(), root)
        } else {
            seq![text.skip(k)]
        },
        None => seq![text.skip(k)],
    }
}

/// The pieces of the text between the occurrences of `root`; where `root` is empty, its characters,
/// between two empty pieces.
pub open spec fn pieces(text: Seq<char>, root: Seq<char>) -> Seq<Seq<char>> {
    if root.len() > 0 {
        pieces_from(text, 0, root)
    } else {
        seq![Seq::<char>::empty()] + Seq::new(text.len(), |i: int| seq![text[i]]) + seq![Seq::<char>::empty()]
    }
}

/// A piece behind its length in bytes.
pub open spec fn framed_piece(piece: Seq<char>) -> Seq<char> {
    decimal(utf8_len(piece)) + seq![':'] + piece
}

/// The pieces one after the other, each behind its length in bytes.
pub open spec fn framed(all: Seq<Seq<char>>) -> Seq<char>
    decreases all.len(),
{
    if all.len() == 0 {
        Seq::empty()
    } else {
        framed_piece(all[0]) + framed(all.drop_first())
    }
}

/// What a diagnostic is told apart by: its description, with every occurrence of the directory left
/// out of it.
pub open spec fn identity_text(description: Seq<char>, root: Seq<char>) -> Seq<char> {
    framed(pieces(description, root))
}

fn push_framed(out: &mut Vec<char>, s: &Vec<char>, from: usize, to: usize)
    requires
        from <= to <= s.len(),
    ensures
        final(out)@ == old(out)@ + framed_piece(s@.subrange(from as int, to as int)),
{
    let mut piece: Vec<char> = Vec::new();
    push_part(&mut piece, s, from, to);
    let ghost view = s@.subrange(from as int, to as int);
    assert(piece@ =~= view);
    let text: String = string_of(piece.as_slice());
    push_decimal(out, text.as_str().as_bytes().len() as u64);
    out.push(':');
    push_chars(out, piece.as_slice());
    assert(out@ =~= old(out)@ + framed_piece(view));
}

/// What a diagnostic is told apart by. The description is its own, and `root` the directory as
/// descriptions write it.
pub fn diagnostic_identity(description: &str, root: &str) -> (r: String)
    ensures
        r@ == identity_text(description@, root@),
{
    let s: Vec<char> = chars_of(description);
    let len: usize = chars_of(root).len();
    let mut out: Vec<char> = Vec::new();
    let ghost whole = identity_text(description@, root@);
    if len == 0 {
        let ghost all = pieces(description@, root@);
        push_framed(&mut out, &s, 0, 0);
        assert(s@.subrange(0, 0) =~= all[0]);
        assert(all.skip(1) =~= all.drop_first());
        let mut i: usize = 0;
        while i < s.len()
            invariant
                i <= s.len(),
                s@ == description@,
                root@.len() == 0,
                all == pieces(description@, root@),
                whole == framed(all),
                out@ + framed(all.skip(i + 1)) == whole,
            decreases s.len() - i,
        {
            let ghost before = out@;
            push_framed(&mut out, &s, i, i + 1);
            proof {
                let rest = all.skip(i + 1);
                assert(s@.subrange(i as int, i + 1) =~= rest[0]);
                assert(rest.drop_first() =~= all.skip(i + 2));
                assert(out@ + framed(all.skip(i + 2)) =~= before + framed(rest));
            }
            i = i + 1;
        }
        let end: usize = s.len();
        let ghost before = out@;
        push_framed(&mut out, &s, end, end);
        proof {
            let rest = all.skip(end + 1);
            assert(s@.subrange(end as int, end as int) =~= rest[0]);
            assert(rest.drop_first() =~= Seq::empty());
            assert(framed(rest.drop_first()) =~= Seq::empty());
            assert(out@ =~= before + framed(rest));
        }
        return string_of(out.as_slice());
    }
    let mut k: usize = 0;
    assert(out@ + whole =~= whole);
    loop
        invariant
            k <= s.len(),
            s@ == description@,
            len == root@.len(),
            len > 0,
            whole == identity_text(description@, root@),
            out@ + framed(pieces_from(description@, k as int, root@)) == whole,
        decreases s.len() - k,
    {
        let ghost before = out@;
        match find_occurrence(&s, k, root, len) {
            None => {
                let end: usize = s.len();
                push_framed(&mut out, &s, k, end);
                proof {
                    let here = pieces_from(description@, k as int, root@);
                    assert(description@.skip(k as int) =~= description@.subrange(k as int, end as int));
                    assert(here.drop_first() =~= Seq::empty());
                    assert(framed(here.drop_first()) =~= Seq::empty());
                    assert(out@ =~= before + framed(here));
                }
                return string_of(out.as_slice());
            },
            Some(i) => {
                push_framed(&mut out, &s, k, i);
                proof {
                    let here = pieces_from(description@, k as int, root@);
                    let next = pieces_from(description@, i + len, root@);
                    assert(here.drop_first() =~= next);
                    assert(out@ + framed(next) =~= before + framed(here));
                }
                k = i + len;
            },
        }
    }
}

/// The label of what has this digest.
pub open spec fn identity_label(digest: Seq<char>) -> Seq<char> {
    "generated Rust diagnostic "@ + digest
}

/// The label of what has this digest.
pub fn label_identity(digest: &str) -> (r: String)
    ensures
        r@ == identity_label(digest@),
{
    let mut out: Vec<char> = Vec::new();
    push_text(&mut out, "generated Rust diagnostic ");
    push_text(&mut out, digest);
    assert(out@ =~= identity_label(digest@));
    string_of(out.as_slice())
}

/// Where no occurrence of `root` is left from `k` on.
proof fn lemma_no_occurrence(text: Seq<char>, k: int, root: Seq<char>, to: int)
    requires
        0 <= k,
        match next_occurrence(text, k, root) {
            Some(i) => to == i,
            None => to == text.len(),
        },
    ensures
        forall|i: int| k <= i < to && i + root.len() <= text.len() ==> !text_at(text, i, root),
    decreases text.len() + 1 - k,
{
    if k + root.len() <= text.len() && !text_at(text, k, root) {
        lemma_no_occurrence(text, k + 1, root, to);
    }
}

/// Nowhere in the text does `root` stand.
pub open spec fn absent(text: Seq<char>, root: Seq<char>) -> bool {
    forall|i: int| !text_at(text, i, root)
}

proof fn lemma_absent_joined(a: Seq<char>, b: Seq<char>, root: Seq<char>)
    requires
        absent(a, root),
        absent(b, root),
        root.len() > 0,
        root[0] == '/',
        !root.contains('<'),
        !root.contains('>'),
    ensures
        absent(a + "<verification-target>"@ + b, root),
{
    reveal_strlit("<verification-target>");
    let mark = "<verification-target>"@;
    let all = a + mark + b;
    assert forall|i: int| !text_at(all, i, root) by {
        if text_at(all, i, root) {
            let end = i + root.len();
            let open = a.len() as int;
            let close = a.len() + mark.len() - 1;
            assert(all[open] == '<');
            assert(all[close] == '>');
            if i <= open < end {
                assert(root[open - i] == '<');
            } else if i <= close < end {
                assert(root[close - i] == '>');
            } else if end <= open {
                assert(a.subrange(i, end) =~= all.subrange(i, end));
                assert(text_at(a, i, root));
            } else if i > close {
                let at = i - mark.len() - a.len();
                assert(b.subrange(at, at + root.len()) =~= all.subrange(i, end));
                assert(text_at(b, at, root));
            } else {
                assert(all[i] == root[0]);
                assert(mark[i - a.len()] == '/');
            }
        }
    }
}

proof fn lemma_redacted_from(text: Seq<char>, k: int, root: Seq<char>)
    requires
        0 <= k <= text.len(),
        root.len() > 0,
        root[0] == '/',
        !root.contains('<'),
        !root.contains('>'),
    ensures
        absent(redacted_from(text, k, root), root),
    decreases text.len() - k,
{
    let next = next_occurrence(text, k, root);
    let to = match next {
        Some(i) => i,
        None => text.len() as int,
    };
    lemma_no_occurrence(text, k, root, to);
    lemma_next_occurrence(text, k, root);
    match next {
        None => {
            let rest = text.skip(k);
            assert forall|i: int| !text_at(rest, i, root) by {
                if text_at(rest, i, root) {
                    assert(rest.subrange(i, i + root.len()) =~= text.subrange(k + i, k + i + root.len()));
                    assert(text_at(text, k + i, root));
                }
            }
        },
        Some(at) => {
            lemma_redacted_from(text, at + root.len(), root);
            let part = text.subrange(k, at);
            assert forall|i: int| !text_at(part, i, root) by {
                if text_at(part, i, root) {
                    assert(part.subrange(i, i + root.len()) =~= text.subrange(k + i, k + i + root.len()));
                    assert(text_at(text, k + i, root));
                }
            }
            lemma_absent_joined(part, redacted_from(text, at + root.len(), root), root);
        },
    }
}

/// A redacted text does not name the directory, if the directory is an absolute path without angle
/// brackets.
pub proof fn law_redacted_text_hides_the_target(text: Seq<char>, root: Seq<char>)
    requires
        root.len() > 0,
        root[0] == '/',
        !root.contains('<'),
        !root.contains('>'),
    ensures
        absent(without_target(text, Some(root)), root),
        !mentioned(without_target(text, Some(root)), Some(root)),
{
    lemma_redacted_from(text, 0, root);
    let r = without_target(text, Some(root));
    lemma_next_occurrence(r, 0, root);
}

} // verus!
