//! Characters, the words they spell, and their width in UTF-8.
use vstd::prelude::*;
use vstd::utf8::*;

verus! {

/// Whether Unicode gives `c` the `White_Space` property.
pub uninterp spec fn white_space(c: char) -> bool;

/// Whether Unicode counts `c` as a letter or a number.
pub uninterp spec fn letter_or_number(c: char) -> bool;

/// Whether Unicode counts `c` as a letter.
pub uninterp spec fn letter(c: char) -> bool;

/// `char::is_whitespace`: a fixed property of the character. Among the ASCII characters
/// it holds of the space and of U+0009 to U+000D.
pub assume_specification[ char::is_whitespace ](c: char) -> (r: bool)
    ensures
        r == white_space(c),
        (c as u32) < 128 ==> r == (c == ' ' || 9 <= c as u32 <= 13),
;

/// `char::is_alphanumeric`: a fixed property of the character. Among the ASCII characters
/// it holds of the letters and the digits.
pub assume_specification[ char::is_alphanumeric ](c: char) -> (r: bool)
    ensures
        r == letter_or_number(c),
        (c as u32) < 128 ==> r == ascii_alphanumeric(c),
;

/// `char::is_alphabetic`: a fixed property of the character. Among the ASCII characters
/// it holds of the letters.
pub assume_specification[ char::is_alphabetic ](c: char) -> (r: bool)
    ensures
        r == letter(c),
        (c as u32) < 128 ==> r == ascii_alphabetic(c),
;

/// `String::push` adds one character at the end.
pub assume_specification[ String::push ](s: &mut String, c: char)
    ensures
        final(s)@ == old(s)@.push(c),
;

pub open spec fn ascii(c: char) -> bool {
    (c as u32) < 128
}

pub open spec fn ascii_lowercase(c: char) -> bool {
    'a' <= c <= 'z'
}

pub open spec fn ascii_uppercase(c: char) -> bool {
    'A' <= c <= 'Z'
}

pub open spec fn ascii_digit(c: char) -> bool {
    '0' <= c <= '9'
}

pub open spec fn ascii_alphabetic(c: char) -> bool {
    ascii_lowercase(c) || ascii_uppercase(c)
}

pub open spec fn ascii_alphanumeric(c: char) -> bool {
    ascii_alphabetic(c) || ascii_digit(c)
}

pub open spec fn ascii_hexdigit(c: char) -> bool {
    ascii_digit(c) || 'a' <= c <= 'f' || 'A' <= c <= 'F'
}

/// An ASCII control character: U+0000 to U+001F and U+007F.
pub open spec fn ascii_control(c: char) -> bool {
    c as u32 <= 0x1f || c as u32 == 0x7f
}

/// A control character of Unicode: U+0000 to U+001F and U+007F to U+009F.
pub open spec fn control(c: char) -> bool {
    c as u32 <= 0x1f || 0x7f <= c as u32 <= 0x9f
}

/// `c` with an ASCII capital replaced by its small letter.
pub open spec fn lower(c: char) -> char {
    if ascii_uppercase(c) {
        (c as u32 + 32) as char
    } else {
        c
    }
}

/// The number of bytes that `s` takes in UTF-8.
pub open spec fn utf8_len(s: Seq<char>) -> nat {
    encode_utf8(s).len()
}

/// The number of bytes that `c` takes in UTF-8.
pub open spec fn utf8_width(c: char) -> nat {
    if c as u32 <= 0x7f {
        1
    } else if c as u32 <= 0x7ff {
        2
    } else if c as u32 <= 0xffff {
        3
    } else {
        4
    }
}

/// `c` stands at position `i` of `s`.
pub open spec fn at(s: Seq<char>, i: int, c: char) -> bool {
    0 <= i < s.len() && s[i] == c
}

/// The word `w` stands at position `i` of `s`, letter case aside.
pub open spec fn word_at(s: Seq<char>, i: int, w: Seq<char>) -> bool {
    &&& 0 <= i
    &&& i + w.len() <= s.len()
    &&& forall|k: int| 0 <= k < w.len() ==> lower(s[i + k]) == lower(#[trigger] w[k])
}

/// The text `w` stands at position `i` of `s`, exactly.
pub open spec fn text_at(s: Seq<char>, i: int, w: Seq<char>) -> bool {
    &&& 0 <= i
    &&& i + w.len() <= s.len()
    &&& s.subrange(i, i + w.len()) == w
}

pub fn is_ascii_lowercase(c: char) -> (r: bool)
    ensures
        r == ascii_lowercase(c),
{
    'a' <= c && c <= 'z'
}

pub fn is_ascii_uppercase(c: char) -> (r: bool)
    ensures
        r == ascii_uppercase(c),
{
    'A' <= c && c <= 'Z'
}

pub fn is_ascii_digit(c: char) -> (r: bool)
    ensures
        r == ascii_digit(c),
{
    '0' <= c && c <= '9'
}

pub fn is_ascii_alphabetic(c: char) -> (r: bool)
    ensures
        r == ascii_alphabetic(c),
{
    is_ascii_lowercase(c) || is_ascii_uppercase(c)
}

pub fn is_ascii_alphanumeric(c: char) -> (r: bool)
    ensures
        r == ascii_alphanumeric(c),
{
    is_ascii_alphabetic(c) || is_ascii_digit(c)
}

pub fn is_ascii_hexdigit(c: char) -> (r: bool)
    ensures
        r == ascii_hexdigit(c),
{
    is_ascii_digit(c) || 'a' <= c && c <= 'f' || 'A' <= c && c <= 'F'
}

pub fn is_ascii_control(c: char) -> (r: bool)
    ensures
        r == ascii_control(c),
{
    c as u32 <= 0x1f || c as u32 == 0x7f
}

pub fn is_control(c: char) -> (r: bool)
    ensures
        r == control(c),
{
    c as u32 <= 0x1f || 0x7f <= c as u32 && c as u32 <= 0x9f
}

pub fn to_lower(c: char) -> (r: char)
    ensures
        r == lower(c),
{
    if is_ascii_uppercase(c) {
        ((c as u8) + 32) as char
    } else {
        c
    }
}

pub fn width_of(c: char) -> (r: usize)
    ensures
        r == utf8_width(c),
{
    let code: u32 = c as u32;
    if code <= 0x7f {
        1
    } else if code <= 0x7ff {
        2
    } else if code <= 0xffff {
        3
    } else {
        4
    }
}

pub proof fn lemma_utf8_width(c: char)
    ensures
        encode_scalar(c as u32).len() == utf8_width(c),
        1 <= utf8_width(c) <= 4,
{
}

/// UTF-8 encodes a text character by character.
pub proof fn lemma_utf8_concat(a: Seq<char>, b: Seq<char>)
    ensures
        encode_utf8(a + b) == encode_utf8(a) + encode_utf8(b),
        utf8_len(a + b) == utf8_len(a) + utf8_len(b),
    decreases a.len(),
{
    if a.len() == 0 {
        assert(a + b =~= b);
        assert(encode_utf8(a) =~= Seq::<u8>::empty());
        assert(encode_utf8(a) + encode_utf8(b) =~= encode_utf8(b));
    } else {
        assert((a + b).drop_first() =~= a.drop_first() + b);
        lemma_utf8_concat(a.drop_first(), b);
        assert(encode_utf8(a + b) =~= encode_utf8(a) + encode_utf8(b));
    }
}

pub proof fn lemma_utf8_push(a: Seq<char>, c: char)
    ensures
        utf8_len(a.push(c)) == utf8_len(a) + utf8_width(c),
{
    assert(a.push(c) =~= a + seq![c]);
    lemma_utf8_concat(a, seq![c]);
    reveal_with_fuel(encode_utf8, 2);
    assert(seq![c].drop_first() =~= Seq::<char>::empty());
    lemma_utf8_width(c);
}

/// The text of `s`, one character after the other.
pub fn chars_of(s: &str) -> (r: Vec<char>)
    ensures
        r@ == s@,
{
    let mut out: Vec<char> = Vec::new();
    for c in it: s.chars()
        invariant
            out@ == it.seq().take(it.index()),
            it.seq() == s@,
    {
        out.push(c);
    }
    out
}

/// The characters of `s` as a string.
pub fn string_of(s: &[char]) -> (r: String)
    ensures
        r@ == s@,
{
    let mut out = String::new();
    let mut i: usize = 0;
    while i < s.len()
        invariant
            i <= s.len(),
            out@ == s@.take(i as int),
        decreases s.len() - i,
    {
        out.push(s[i]);
        i = i + 1;
    }
    assert(s@.take(s@.len() as int) =~= s@);
    out
}

/// Adds the text at the end of `out`.
pub fn push_text(out: &mut Vec<char>, text: &str)
    ensures
        final(out)@ == old(out)@ + text@,
{
    for c in it: text.chars()
        invariant
            it.seq() == text@,
            out@ == old(out)@ + text@.take(it.index() as int),
    {
        assert(text@.take(it.index() + 1) =~= text@.take(it.index() as int).push(c));
        out.push(c);
    }
    assert(text@.take(text@.len() as int) =~= text@);
}

pub fn is_at(s: &[char], i: usize, c: char) -> (r: bool)
    ensures
        r == at(s@, i as int, c),
{
    i < s.len() && s[i] == c
}

pub fn is_word_at(s: &[char], i: usize, w: &str) -> (r: bool)
    ensures
        r == word_at(s@, i as int, w@),
{
    if i > s.len() {
        return false;
    }
    let mut k: usize = i;
    for c in it: w.chars()
        invariant
            it.seq() == w@,
            k == i + it.index(),
            k <= s.len(),
            forall|j: int| 0 <= j < it.index() ==> lower(s@[i + j]) == lower(#[trigger] w@[j]),
    {
        if k >= s.len() {
            return false;
        }
        if to_lower(s[k]) != to_lower(c) {
            assert(lower(s@[i + it.index()]) != lower(w@[it.index() as int]));
            return false;
        }
        k = k + 1;
    }
    true
}

pub fn is_text_at(s: &[char], i: usize, w: &str) -> (r: bool)
    ensures
        r == text_at(s@, i as int, w@),
{
    if i > s.len() {
        return false;
    }
    let mut k: usize = i;
    for c in it: w.chars()
        invariant
            it.seq() == w@,
            k == i + it.index(),
            k <= s.len(),
            forall|j: int| 0 <= j < it.index() ==> s@[i + j] == #[trigger] w@[j],
    {
        if k >= s.len() {
            return false;
        }
        if s[k] != c {
            proof {
                let part = s@.subrange(i as int, i + w@.len());
                assert(i + w@.len() <= s.len() ==> part[it.index() as int] != w@[it.index() as int]);
            }
            return false;
        }
        k = k + 1;
    }
    assert(s@.subrange(i as int, i + w@.len()) =~= w@);
    true
}

pub fn same_text(s: &[char], w: &str) -> (r: bool)
    ensures
        r == (s@ == w@),
{
    let word: Vec<char> = chars_of(w);
    if word.len() != s.len() {
        return false;
    }
    let r: bool = is_text_at(s, 0, w);
    assert(s@.subrange(0, s@.len() as int) =~= s@);
    r
}

/// The text from the first character on that is not white space.
pub open spec fn trimmed_start(s: Seq<char>) -> Seq<char>
    decreases s.len(),
{
    if s.len() > 0 && white_space(s[0]) {
        trimmed_start(s.drop_first())
    } else {
        s
    }
}

/// The text up to the last character that is not white space.
pub open spec fn trimmed_end(s: Seq<char>) -> Seq<char>
    decreases s.len(),
{
    if s.len() > 0 && white_space(s.last()) {
        trimmed_end(s.drop_last())
    } else {
        s
    }
}

/// The text without the white space at its ends.
pub open spec fn trimmed(s: Seq<char>) -> Seq<char> {
    trimmed_end(trimmed_start(s))
}

/// The text without the white space at its ends.
pub fn trim(s: &Vec<char>) -> (r: Vec<char>)
    ensures
        r@ == trimmed(s@),
{
    let mut from: usize = 0;
    assert(s@.skip(0) =~= s@);
    while from < s.len() && s[from].is_whitespace()
        invariant
            from <= s.len(),
            trimmed_start(s@) == trimmed_start(s@.skip(from as int)),
        decreases s.len() - from,
    {
        assert(s@.skip(from as int)[0] == s@[from as int]);
        assert(s@.skip(from as int).drop_first() =~= s@.skip(from + 1));
        from = from + 1;
    }
    proof {
        if from < s.len() {
            assert(s@.skip(from as int)[0] == s@[from as int]);
        }
    }
    let ghost rest = s@.skip(from as int);
    assert(trimmed_start(s@) == rest);
    let mut to: usize = s.len();
    assert(rest.take(to - from) =~= rest);
    while to > from && s[to - 1].is_whitespace()
        invariant
            from <= to <= s.len(),
            rest == s@.skip(from as int),
            trimmed_end(rest) == trimmed_end(rest.take(to - from)),
        decreases to,
    {
        let ghost here = rest.take(to - from);
        assert(here.last() == s@[to - 1]);
        assert(here.drop_last() =~= rest.take(to - 1 - from));
        to = to - 1;
    }
    proof {
        let here = rest.take(to - from);
        if here.len() > 0 {
            assert(here.last() == s@[to - 1]);
        }
        assert(trimmed_end(here) == here);
    }
    let mut out: Vec<char> = Vec::new();
    let mut i: usize = from;
    while i < to
        invariant
            from <= i <= to <= s.len(),
            rest == s@.skip(from as int),
            out@ == rest.take(i - from),
        decreases to - i,
    {
        out.push(s[i]);
        assert(rest.take(i + 1 - from) =~= rest.take(i - from).push(s@[i as int]));
        i = i + 1;
    }
    out
}

} // verus!
