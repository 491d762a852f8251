//! Characters that can mislead a reader, and the visible markers that replace them.
use super::bounded::{BoundedText, SanitizeError};
use crate::numeral::{hex, hex_digit, push_hex};
use crate::text::{
    ascii_control, chars_of, is_ascii_control, lemma_utf8_concat, lemma_utf8_push, utf8_len, utf8_width,
};
use vstd::prelude::*;
use vstd::utf8::encode_utf8;

verus! {

/// Why a character is replaced by a marker.
#[derive(Clone, Copy, Debug, PartialEq, Eq, Structural)]
pub enum MarkerKind {
    /// It reorders the text around it.
    Bidi,
    /// It is invisible formatting.
    Format,
    /// It is an ASCII control character.
    Control,
}

/// A marker that stands in a neutralized text from `start` up to `end`.
#[derive(Clone, Copy, Debug, PartialEq, Eq, Structural)]
pub struct GeneratedMarker {
    pub start: usize,
    pub end: usize,
    pub kind: MarkerKind,
    /// The code point of the character that the marker replaces.
    pub code_point: u32,
}

impl GeneratedMarker {
    pub fn new(start: usize, end: usize, kind: MarkerKind, code_point: u32) -> (r: GeneratedMarker)
        ensures
            r.start == start,
            r.end == end,
            r.kind == kind,
            r.code_point == code_point,
    {
        GeneratedMarker { start, end, kind, code_point }
    }
}

/// A marker, with its place counted in characters.
pub struct Mark {
    pub start: int,
    pub end: int,
    pub kind: MarkerKind,
    pub code_point: u32,
}

impl View for GeneratedMarker {
    type V = Mark;

    open spec fn view(&self) -> Mark {
        Mark {
            start: self.start as int,
            end: self.end as int,
            kind: self.kind,
            code_point: self.code_point,
        }
    }
}

/// A text and the markers that neutralization put into it.
pub struct Neutral {
    pub text: Seq<char>,
    pub marks: Seq<Mark>,
}

impl Neutral {
    /// The markers lie in the text, one after the other.
    pub open spec fn wf(self) -> bool {
        &&& forall|k: int|
            0 <= k < self.marks.len() ==> 0 <= (#[trigger] self.marks[k]).start < self.marks[k].end
                <= self.text.len()
        &&& forall|j: int, k: int|
            0 <= j < k < self.marks.len() ==> (#[trigger] self.marks[j]).end <= (
            #[trigger] self.marks[k]).start
    }

    /// The marker that starts at `i`.
    pub open spec fn marker_at(self, i: int) -> Option<Mark> {
        if exists|k: int| 0 <= k < self.marks.len() && (#[trigger] self.marks[k]).start == i {
            Some(self.marks[choose|k: int| 0 <= k < self.marks.len() && (#[trigger] self.marks[k]).start == i])
        } else {
            None
        }
    }

    /// The marker that ends at `i`.
    pub open spec fn marker_ending_at(self, i: int) -> Option<Mark> {
        if exists|k: int| 0 <= k < self.marks.len() && (#[trigger] self.marks[k]).end == i {
            Some(self.marks[choose|k: int| 0 <= k < self.marks.len() && (#[trigger] self.marks[k]).end == i])
        } else {
            None
        }
    }
}

/// Controls of the bidirectional algorithm.
pub open spec fn bidi_control(c: char) -> bool {
    let u = c as u32;
    ||| u == 0x061c
    ||| 0x200e <= u <= 0x200f
    ||| 0x202a <= u <= 0x202e
    ||| 0x2066 <= u <= 0x2069
}

/// The format characters that are replaced. The set is pinned: it does not follow Unicode.
pub open spec fn pinned_format(c: char) -> bool {
    let u = c as u32;
    ||| u == 0x00ad
    ||| 0x0600 <= u <= 0x0605
    ||| u == 0x061c
    ||| u == 0x06dd
    ||| u == 0x070f
    ||| 0x0890 <= u <= 0x0891
    ||| u == 0x08e2
    ||| u == 0x180e
    ||| 0x200b <= u <= 0x200f
    ||| 0x202a <= u <= 0x202e
    ||| 0x2060 <= u <= 0x2064
    ||| 0x2066 <= u <= 0x206f
    ||| u == 0xfeff
    ||| 0xfff9 <= u <= 0xfffb
    ||| u == 0x110bd
    ||| u == 0x110cd
    ||| 0x13430 <= u <= 0x1343f
    ||| 0x1bca0 <= u <= 0x1bca3
    ||| 0x1d173 <= u <= 0x1d17a
    ||| u == 0xe0001
    ||| 0xe0020 <= u <= 0xe007f
}

/// Why `c` has to be replaced, if it has to.
pub open spec fn unsafe_kind(c: char) -> Option<MarkerKind> {
    if bidi_control(c) {
        Some(MarkerKind::Bidi)
    } else if pinned_format(c) {
        Some(MarkerKind::Format)
    } else if ascii_control(c) {
        Some(MarkerKind::Control)
    } else {
        None
    }
}

/// The opening of a marker, up to the code point.
pub open spec fn marker_opening(kind: MarkerKind) -> Seq<char> {
    match kind {
        MarkerKind::Bidi => "[BIDI-U+"@,
        MarkerKind::Format => "[FORMAT-U+"@,
        MarkerKind::Control => "[CONTROL-U+"@,
    }
}

/// The marker that replaces a character with the given code point.
pub open spec fn marker_text(kind: MarkerKind, code_point: u32) -> Seq<char> {
    (marker_opening(kind) + hex(code_point as nat, 4, true)).push(']')
}

/// What stands for `c` in a neutralized text.
pub open spec fn neutral_piece(c: char) -> Seq<char> {
    match unsafe_kind(c) {
        Some(kind) => marker_text(kind, c as u32),
        None => seq![c],
    }
}

/// `s` with each unsafe character replaced by its marker.
pub open spec fn neutral_text(s: Seq<char>) -> Seq<char>
    decreases s.len(),
{
    if s.len() == 0 {
        Seq::empty()
    } else {
        neutral_text(s.drop_last()) + neutral_piece(s.last())
    }
}

/// The markers in the neutralized text of `s`.
pub open spec fn neutral_marks(s: Seq<char>) -> Seq<Mark>
    decreases s.len(),
{
    if s.len() == 0 {
        Seq::empty()
    } else {
        let before = neutral_marks(s.drop_last());
        let start = neutral_text(s.drop_last()).len() as int;
        match unsafe_kind(s.last()) {
            Some(kind) => before.push(
                Mark {
                    start,
                    end: start + marker_text(kind, s.last() as u32).len(),
                    kind,
                    code_point: s.last() as u32,
                },
            ),
            None => before,
        }
    }
}

/// The neutralized text of `s` with its markers.
pub open spec fn neutralized(s: Seq<char>) -> Neutral {
    Neutral { text: neutral_text(s), marks: neutral_marks(s) }
}

/// A marker with its place counted in bytes of `text`.
pub open spec fn in_bytes(text: Seq<char>, m: Mark) -> Mark {
    Mark {
        start: utf8_len(text.take(m.start)) as int,
        end: utf8_len(text.take(m.end)) as int,
        kind: m.kind,
        code_point: m.code_point,
    }
}

/// Markers with their places counted in bytes of `text`.
pub open spec fn all_in_bytes(text: Seq<char>, marks: Seq<Mark>) -> Seq<Mark> {
    marks.map_values(|m: Mark| in_bytes(text, m))
}

pub open spec fn views(marks: Seq<GeneratedMarker>) -> Seq<Mark> {
    marks.map_values(|m: GeneratedMarker| m@)
}

pub proof fn lemma_marker_len(kind: MarkerKind, code_point: u32)
    ensures
        marker_opening(kind).len() >= 8,
        marker_text(kind, code_point).len() >= 10,
{
    reveal_strlit("[BIDI-U+");
    reveal_strlit("[FORMAT-U+");
    reveal_strlit("[CONTROL-U+");
    assert(hex(code_point as nat, 4, true).len() >= 1);
}

/// Neutralization puts its markers one after the other.
pub proof fn lemma_neutralized_wf(s: Seq<char>)
    ensures
        neutralized(s).wf(),
    decreases s.len(),
{
    if s.len() > 0 {
        lemma_neutralized_wf(s.drop_last());
        let before = neutralized(s.drop_last());
        let after = neutralized(s);
        match unsafe_kind(s.last()) {
            Some(kind) => {
                lemma_marker_len(kind, s.last() as u32);
            },
            None => {},
        }
        assert forall|k: int| 0 <= k < after.marks.len() implies 0 <= (
        #[trigger] after.marks[k]).start < after.marks[k].end <= after.text.len() by {
            if k < before.marks.len() {
                assert(after.marks[k] == before.marks[k]);
            }
        }
        assert forall|j: int, k: int| 0 <= j < k < after.marks.len() implies (
        #[trigger] after.marks[j]).end <= (#[trigger] after.marks[k]).start by {
            assert(after.marks[j] == before.marks[j]);
            if k < before.marks.len() {
                assert(after.marks[k] == before.marks[k]);
            }
        }
    }
}

pub proof fn lemma_hex_safe(n: nat, width: nat)
    ensures
        forall|i: int|
            0 <= i < hex(n, width, true).len() ==> unsafe_kind(#[trigger] hex(n, width, true)[i]) is None,
    decreases n, width,
{
    let w = (if width == 0 { 0 } else { width - 1 }) as nat;
    assert(unsafe_kind(hex_digit(n % 16, true)) is None);
    if !(n < 16 && width <= 1) {
        lemma_hex_safe(n / 16, w);
        let head = hex(n / 16, w, true);
        assert(hex(n, width, true) == head.push(hex_digit(n % 16, true)));
        assert forall|i: int| 0 <= i < hex(n, width, true).len() implies unsafe_kind(
            #[trigger] hex(n, width, true)[i],
        ) is None by {
            if i < head.len() {
                assert(hex(n, width, true)[i] == head[i]);
            }
        }
    }
}

pub proof fn lemma_marker_safe(kind: MarkerKind, code_point: u32)
    ensures
        forall|i: int|
            0 <= i < marker_text(kind, code_point).len() ==> unsafe_kind(
                #[trigger] marker_text(kind, code_point)[i],
            ) is None,
{
    reveal_strlit("[BIDI-U+");
    reveal_strlit("[FORMAT-U+");
    reveal_strlit("[CONTROL-U+");
    let digits = hex(code_point as nat, 4, true);
    lemma_hex_safe(code_point as nat, 4);
    let m = marker_text(kind, code_point);
    let opening = marker_opening(kind);
    assert forall|i: int| 0 <= i < m.len() implies unsafe_kind(#[trigger] m[i]) is None by {
        if i < opening.len() {
            assert(m[i] == opening[i]);
        } else if i < opening.len() + digits.len() {
            assert(m[i] == digits[i - opening.len()]);
        } else {
            assert(m[i] == ']');
        }
    }
}

/// No bidirectional control, pinned format character or ASCII control character is left in
/// a neutralized text.
pub proof fn law_neutral_text_is_safe(s: Seq<char>)
    ensures
        forall|i: int| 0 <= i < neutral_text(s).len() ==> unsafe_kind(#[trigger] neutral_text(s)[i]) is None,
    decreases s.len(),
{
    if s.len() > 0 {
        law_neutral_text_is_safe(s.drop_last());
        let head = neutral_text(s.drop_last());
        let piece = neutral_piece(s.last());
        match unsafe_kind(s.last()) {
            Some(kind) => lemma_marker_safe(kind, s.last() as u32),
            None => {},
        }
        assert forall|i: int| 0 <= i < neutral_text(s).len() implies unsafe_kind(
            #[trigger] neutral_text(s)[i],
        ) is None by {
            if i < head.len() {
                assert(neutral_text(s)[i] == head[i]);
            } else {
                assert(neutral_text(s)[i] == piece[i - head.len()]);
            }
        }
    }
}

/// Neutralization leaves a text without unsafe characters as it is, and puts no marker into it.
pub proof fn law_safe_text_is_kept(s: Seq<char>)
    requires
        forall|i: int| 0 <= i < s.len() ==> unsafe_kind(#[trigger] s[i]) is None,
    ensures
        neutral_text(s) == s,
        neutral_marks(s) == Seq::<Mark>::empty(),
    decreases s.len(),
{
    if s.len() > 0 {
        let front = s.drop_last();
        assert forall|i: int| 0 <= i < front.len() implies unsafe_kind(#[trigger] front[i]) is None by {
            assert(front[i] == s[i]);
        }
        law_safe_text_is_kept(front);
        assert(unsafe_kind(s[s.len() - 1]) is None);
        assert(neutral_text(s) =~= s);
    }
}

/// Neutralizing twice is neutralizing once.
pub proof fn law_neutralization_is_idempotent(s: Seq<char>)
    ensures
        neutral_text(neutral_text(s)) == neutral_text(s),
        neutral_marks(neutral_text(s)) == Seq::<Mark>::empty(),
{
    law_neutral_text_is_safe(s);
    law_safe_text_is_kept(neutral_text(s));
}

/// The text with each marker replaced by the character that has its code point.
pub open spec fn restored(text: Seq<char>, marks: Seq<Mark>) -> Seq<char>
    decreases marks.len(),
{
    if marks.len() == 0 {
        text
    } else {
        let last = marks.last();
        restored(text.take(last.start), marks.drop_last()).push(last.code_point as char) + text.skip(last.end)
    }
}

proof fn lemma_restored_push(text: Seq<char>, marks: Seq<Mark>, c: char)
    requires
        marks.len() > 0 ==> 0 <= marks.last().start <= marks.last().end <= text.len(),
    ensures
        restored(text.push(c), marks) == restored(text, marks).push(c),
{
    if marks.len() > 0 {
        let last = marks.last();
        assert(text.push(c).take(last.start) =~= text.take(last.start));
        assert(text.push(c).skip(last.end) =~= text.skip(last.end).push(c));
        assert(restored(text.push(c), marks) =~= restored(text, marks).push(c));
    }
}

proof fn lemma_code_point(c: char)
    ensures
        (c as u32) as char == c,
{
}

/// The markers tell what was replaced: putting each one's character back gives the text that was
/// neutralized.
pub proof fn law_markers_tell_what_they_replace(s: Seq<char>)
    ensures
        restored(neutral_text(s), neutral_marks(s)) == s,
    decreases s.len(),
{
    if s.len() > 0 {
        let front = s.drop_last();
        let c = s.last();
        let text = neutral_text(front);
        law_markers_tell_what_they_replace(front);
        lemma_neutralized_wf(front);
        assert(s =~= front.push(c));
        match unsafe_kind(c) {
            Some(kind) => {
                let whole = neutral_text(s);
                let marks = neutral_marks(s);
                assert(marks.drop_last() =~= neutral_marks(front));
                assert(whole.take(text.len() as int) =~= text);
                assert(whole.skip(whole.len() as int) =~= Seq::<char>::empty());
                lemma_code_point(c);
                assert(restored(whole, marks) =~= front.push(c));
            },
            None => {
                assert(neutral_text(s) =~= text.push(c));
                if neutral_marks(front).len() > 0 {
                    assert(neutral_marks(front).last() == neutralized(front).marks[neutral_marks(front).len() - 1]);
                }
                lemma_restored_push(text, neutral_marks(front), c);
            },
        }
    }
}

pub proof fn lemma_piece_width(c: char)
    ensures
        utf8_len(neutral_piece(c)) >= utf8_width(c),
{
    match unsafe_kind(c) {
        Some(kind) => {
            lemma_marker_len(kind, c as u32);
            lemma_utf8_at_least_len(neutral_piece(c));
        },
        None => {
            lemma_utf8_push(Seq::empty(), c);
            assert(Seq::<char>::empty().push(c) =~= seq![c]);
        },
    }
}

pub proof fn lemma_utf8_at_least_len(s: Seq<char>)
    ensures
        utf8_len(s) >= s.len(),
    decreases s.len(),
{
    if s.len() > 0 {
        lemma_utf8_at_least_len(s.drop_last());
        lemma_utf8_push(s.drop_last(), s.last());
        assert(s.drop_last().push(s.last()) =~= s);
    }
}

/// Neutralization never shortens a text.
pub proof fn lemma_neutral_text_grows(s: Seq<char>)
    ensures
        utf8_len(s) <= utf8_len(neutral_text(s)),
    decreases s.len(),
{
    if s.len() > 0 {
        lemma_neutral_text_grows(s.drop_last());
        lemma_utf8_push(s.drop_last(), s.last());
        assert(s.drop_last().push(s.last()) =~= s);
        lemma_piece_width(s.last());
        lemma_utf8_concat(neutral_text(s.drop_last()), neutral_piece(s.last()));
    }
}

/// A part of a neutralized text's beginning takes no more bytes than the whole.
pub proof fn lemma_neutral_text_prefix(s: Seq<char>, i: int)
    requires
        0 <= i <= s.len(),
    ensures
        utf8_len(neutral_text(s.take(i))) <= utf8_len(neutral_text(s)),
    decreases s.len() - i,
{
    if i < s.len() {
        lemma_neutral_text_prefix(s, i + 1);
        assert(s.take(i + 1).drop_last() =~= s.take(i));
        lemma_utf8_concat(neutral_text(s.take(i)), neutral_piece(s[i]));
        assert(s.take(i + 1).last() == s[i]);
    } else {
        assert(s.take(i) =~= s);
    }
}

pub fn is_bidi_control(c: char) -> (r: bool)
    ensures
        r == bidi_control(c),
{
    let u: u32 = c as u32;
    u == 0x061c || 0x200e <= u && u <= 0x200f || 0x202a <= u && u <= 0x202e || 0x2066 <= u && u <= 0x2069
}

pub fn is_pinned_format_character(c: char) -> (r: bool)
    ensures
        r == pinned_format(c),
{
    let u: u32 = c as u32;
    u == 0x00ad || 0x0600 <= u && u <= 0x0605 || u == 0x061c || u == 0x06dd || u == 0x070f || 0x0890 <= u
        && u <= 0x0891 || u == 0x08e2 || u == 0x180e || 0x200b <= u && u <= 0x200f || 0x202a <= u && u
        <= 0x202e || 0x2060 <= u && u <= 0x2064 || 0x2066 <= u && u <= 0x206f || u == 0xfeff || 0xfff9
        <= u && u <= 0xfffb || u == 0x110bd || u == 0x110cd || 0x13430 <= u && u <= 0x1343f || 0x1bca0
        <= u && u <= 0x1bca3 || 0x1d173 <= u && u <= 0x1d17a || u == 0xe0001 || 0xe0020 <= u && u
        <= 0xe007f
}

/// A neutralized text with its markers; the markers' places count characters.
pub struct MarkedText {
    pub chars: Vec<char>,
    pub marks: Vec<GeneratedMarker>,
}

impl View for MarkedText {
    type V = Neutral;

    open spec fn view(&self) -> Neutral {
        Neutral { text: self.chars@, marks: views(self.marks@) }
    }
}

impl MarkedText {
    /// The marker that starts at character `i`.
    pub fn marker_at(&self, i: usize) -> (r: Option<GeneratedMarker>)
        requires
            self@.wf(),
        ensures
            match r {
                Some(m) => self@.marker_at(i as int) == Some(m@),
                None => self@.marker_at(i as int) is None,
            },
            r matches Some(m) ==> m.start == i && i < m.end <= self.chars.len(),
    {
        let mut lo: usize = 0;
        let mut hi: usize = self.marks.len();
        while lo < hi
            invariant
                self@.wf(),
                lo <= hi <= self.marks.len(),
                forall|k: int| 0 <= k < lo ==> (#[trigger] self@.marks[k]).start < i,
                forall|k: int| hi <= k < self.marks.len() ==> (#[trigger] self@.marks[k]).start > i,
            decreases hi - lo,
        {
            let mid: usize = lo + (hi - lo) / 2;
            let m: GeneratedMarker = self.marks[mid];
            assert(self@.marks[mid as int] == m@);
            if m.start == i {
                proof {
                    let k = choose|k: int|
                        0 <= k < self@.marks.len() && (#[trigger] self@.marks[k]).start == i;
                    assert(k == mid);
                }
                return Some(m);
            } else if m.start < i {
                assert forall|k: int| 0 <= k < mid + 1 implies (#[trigger] self@.marks[k]).start < i by {
                    if k < mid {
                        assert(self@.marks[k].end <= self@.marks[mid as int].start);
                    }
                }
                lo = mid + 1;
            } else {
                assert forall|k: int| mid <= k < self.marks.len() implies (
                #[trigger] self@.marks[k]).start > i by {
                    if mid < k {
                        assert(self@.marks[mid as int].end <= self@.marks[k].start);
                    }
                }
                hi = mid;
            }
        }
        None
    }

    /// The marker that ends at character `i`.
    pub fn marker_ending_at(&self, i: usize) -> (r: Option<GeneratedMarker>)
        requires
            self@.wf(),
        ensures
            match r {
                Some(m) => self@.marker_ending_at(i as int) == Some(m@),
                None => self@.marker_ending_at(i as int) is None,
            },
            r matches Some(m) ==> m.end == i && m.start < i <= self.chars.len(),
    {
        let mut lo: usize = 0;
        let mut hi: usize = self.marks.len();
        while lo < hi
            invariant
                self@.wf(),
                lo <= hi <= self.marks.len(),
                forall|k: int| 0 <= k < lo ==> (#[trigger] self@.marks[k]).end < i,
                forall|k: int| hi <= k < self.marks.len() ==> (#[trigger] self@.marks[k]).end > i,
            decreases hi - lo,
        {
            let mid: usize = lo + (hi - lo) / 2;
            let m: GeneratedMarker = self.marks[mid];
            assert(self@.marks[mid as int] == m@);
            if m.end == i {
                proof {
                    let k = choose|k: int|
                        0 <= k < self@.marks.len() && (#[trigger] self@.marks[k]).end == i;
                    assert(k == mid);
                }
                return Some(m);
            } else if m.end < i {
                assert forall|k: int| 0 <= k < mid + 1 implies (#[trigger] self@.marks[k]).end < i by {
                    if k < mid {
                        assert(self@.marks[k].end <= self@.marks[mid as int].start);
                    }
                }
                lo = mid + 1;
            } else {
                assert forall|k: int| mid <= k < self.marks.len() implies (
                #[trigger] self@.marks[k]).end > i by {
                    if mid < k {
                        assert(self@.marks[mid as int].end <= self@.marks[k].start);
                    }
                }
                hi = mid;
            }
        }
        None
    }
}

/// The marker of a character, ready to be written.
fn marker_chars(kind: MarkerKind, c: char) -> (r: Vec<char>)
    ensures
        r@ == marker_text(kind, c as u32),
{
    let mut out: Vec<char> = match kind {
        MarkerKind::Bidi => chars_of("[BIDI-U+"),
        MarkerKind::Format => chars_of("[FORMAT-U+"),
        MarkerKind::Control => chars_of("[CONTROL-U+"),
    };
    push_hex(&mut out, c as u32 as u64, 4, true);
    out.push(']');
    out
}

/// Why `c` has to be replaced, if it has to.
pub fn kind_of(c: char) -> (r: Option<MarkerKind>)
    ensures
        r == unsafe_kind(c),
{
    if is_bidi_control(c) {
        Some(MarkerKind::Bidi)
    } else if is_pinned_format_character(c) {
        Some(MarkerKind::Format)
    } else if is_ascii_control(c) {
        Some(MarkerKind::Control)
    } else {
        None
    }
}

/// Neutralizes `value`, unless the result takes more than `max_bytes` bytes.
pub fn neutralize(value: &str, max_bytes: usize) -> (r: Result<MarkedText, SanitizeError>)
    ensures
        match r {
            Ok(t) => {
                &&& t@.wf()
                &&& t@.text == neutral_text(value@)
                &&& t@.marks == neutral_marks(value@)
                &&& utf8_len(neutral_text(value@)) <= max_bytes
            },
            Err(e) => {
                &&& utf8_len(neutral_text(value@)) > max_bytes
                &&& e->max_bytes == max_bytes
            },
        },
{
    let input: Vec<char> = chars_of(value);
    let mut output = BoundedText::new(max_bytes);
    let mut marks: Vec<GeneratedMarker> = Vec::new();
    let mut i: usize = 0;
    while i < input.len()
        invariant
            input@ == value@,
            i <= input.len(),
            output.wf(),
            output.limit() == max_bytes,
            output@ == neutral_text(input@.take(i as int)),
            views(marks@) == neutral_marks(input@.take(i as int)),
        decreases input.len() - i,
    {
        let c: char = input[i];
        proof {
            assert(input@.take(i + 1).drop_last() =~= input@.take(i as int));
            assert(input@.take(i + 1).last() == c);
            lemma_neutral_text_prefix(value@, i + 1);
        }
        match kind_of(c) {
            Some(kind) => {
                let start: usize = output.char_count();
                let marker: Vec<char> = marker_chars(kind, c);
                match output.push_chars(marker.as_slice()) {
                    Ok(()) => {},
                    Err(e) => {
                        return Err(e);
                    },
                }
                let end: usize = output.char_count();
                marks.push(GeneratedMarker::new(start, end, kind, c as u32));
                assert(views(marks@) =~= neutral_marks(input@.take(i + 1)));
            },
            None => {
                assert(output@.push(c) =~= output@ + seq![c]);
                match output.push_char(c) {
                    Ok(()) => {},
                    Err(e) => {
                        return Err(e);
                    },
                }
            },
        }
        i = i + 1;
    }
    proof {
        assert(input@.take(input@.len() as int) =~= value@);
        lemma_neutralized_wf(value@);
    }
    Ok(MarkedText { chars: output.into_chars(), marks })
}

} // verus!
