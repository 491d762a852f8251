//! Text that grows up to a limit counted in UTF-8 bytes.
use crate::numeral::{decimal, push_decimal};
use crate::text::{chars_of, lemma_utf8_concat, lemma_utf8_push, string_of, utf8_len, width_of};
use vstd::prelude::*;

verus! {

/// Text that has gone through a sanitizer.
#[derive(Clone, Debug, PartialEq, Eq)]
pub struct SanitizedText(String);

impl View for SanitizedText {
    type V = Seq<char>;

    closed spec fn view(&self) -> Seq<char> {
        self.0@
    }
}

impl SanitizedText {
    pub fn as_str(&self) -> (r: &str)
        ensures
            r@ == self@,
    {
        self.0.as_str()
    }
}

/// Why a text could not be sanitized.
#[derive(Clone, Copy, Debug, PartialEq, Eq, Structural)]
pub enum SanitizeError {
    /// The sanitized text takes more than `max_bytes` bytes.
    OutputLimitExceeded { max_bytes: usize },
}

impl SanitizeError {
    /// What went wrong, as one line of text.
    pub fn message(&self) -> (r: String)
        ensures
            r@ == "sanitized text exceeds the "@ + decimal(self->max_bytes as nat) + "-byte output limit"@,
    {
        let SanitizeError::OutputLimitExceeded { max_bytes } = *self;
        let mut out: Vec<char> = chars_of("sanitized text exceeds the ");
        push_decimal(&mut out, max_bytes as u64);
        let mut tail: Vec<char> = chars_of("-byte output limit");
        out.append(&mut tail);
        string_of(out.as_slice())
    }
}

/// A text under construction that never takes more than `max_bytes` bytes.
pub struct BoundedText {
    value: Vec<char>,
    bytes: usize,
    max_bytes: usize,
}

impl View for BoundedText {
    type V = Seq<char>;

    closed spec fn view(&self) -> Seq<char> {
        self.value@
    }
}

impl BoundedText {
    /// The limit that the text was made with.
    pub closed spec fn limit(&self) -> nat {
        self.max_bytes as nat
    }

    pub closed spec fn wf(&self) -> bool {
        &&& self.bytes == utf8_len(self.value@)
        &&& self.bytes <= self.max_bytes
    }

    pub fn new(max_bytes: usize) -> (r: BoundedText)
        ensures
            r.wf(),
            r@ == Seq::<char>::empty(),
            r.limit() == max_bytes,
    {
        BoundedText { value: Vec::new(), bytes: 0, max_bytes }
    }

    /// The number of characters so far.
    pub fn char_count(&self) -> (r: usize)
        ensures
            r == self@.len(),
    {
        self.value.len()
    }

    /// Adds `c`, unless that would go over the limit; then the text stays as it was.
    pub fn push_char(&mut self, c: char) -> (r: Result<(), SanitizeError>)
        requires
            old(self).wf(),
        ensures
            final(self).wf(),
            final(self).limit() == old(self).limit(),
            match r {
                Ok(()) => final(self)@ == old(self)@.push(c),
                Err(e) => {
                    &&& final(self)@ == old(self)@
                    &&& utf8_len(old(self)@.push(c)) > old(self).limit()
                    &&& e->max_bytes == old(self).limit()
                },
            },
    {
        let width: usize = width_of(c);
        proof {
            lemma_utf8_push(self.value@, c);
        }
        if width > self.max_bytes - self.bytes {
            return Err(SanitizeError::OutputLimitExceeded { max_bytes: self.max_bytes });
        }
        self.value.push(c);
        self.bytes = self.bytes + width;
        Ok(())
    }

    /// Adds `part`, unless that would go over the limit; then the text stays as it was.
    pub fn push_chars(&mut self, part: &[char]) -> (r: Result<(), SanitizeError>)
        requires
            old(self).wf(),
        ensures
            final(self).wf(),
            final(self).limit() == old(self).limit(),
            match r {
                Ok(()) => final(self)@ == old(self)@ + part@,
                Err(e) => {
                    &&& final(self)@ == old(self)@
                    &&& utf8_len(old(self)@ + part@) > old(self).limit()
                    &&& e->max_bytes == old(self).limit()
                },
            },
    {
        let spare: usize = self.max_bytes - self.bytes;
        let mut bytes: usize = 0;
        let mut i: usize = 0;
        while i < part.len()
            invariant
                i <= part.len(),
                bytes == utf8_len(part@.take(i as int)),
                bytes <= spare,
                self.wf(),
                spare == self.max_bytes - self.bytes,
                self.value@ == old(self).value@,
                self.bytes == old(self).bytes,
                self.max_bytes == old(self).max_bytes,
            decreases part.len() - i,
        {
            let width: usize = width_of(part[i]);
            proof {
                lemma_utf8_push(part@.take(i as int), part@[i as int]);
                assert(part@.take(i + 1) =~= part@.take(i as int).push(part@[i as int]));
                lemma_utf8_concat(part@.take(i + 1), part@.skip(i + 1));
                assert(part@.take(i + 1) + part@.skip(i + 1) =~= part@);
                lemma_utf8_concat(self.value@, part@);
            }
            if width > spare - bytes {
                return Err(SanitizeError::OutputLimitExceeded { max_bytes: self.max_bytes });
            }
            bytes = bytes + width;
            i = i + 1;
        }
        proof {
            assert(part@.take(part@.len() as int) =~= part@);
            lemma_utf8_concat(self.value@, part@);
        }
        self.value.extend_from_slice(part);
        assert(self.value@ =~= old(self).value@ + part@);
        self.bytes = self.bytes + bytes;
        Ok(())
    }

    /// The text, finished.
    pub fn finish(self) -> (r: SanitizedText)
        requires
            self.wf(),
        ensures
            r@ == self@,
            utf8_len(r@) <= self.limit(),
    {
        SanitizedText(string_of(self.value.as_slice()))
    }

    /// The characters, finished.
    pub fn into_chars(self) -> (r: Vec<char>)
        requires
            self.wf(),
        ensures
            r@ == self@,
            utf8_len(r@) <= self.limit(),
    {
        self.value
    }
}

} // verus!
