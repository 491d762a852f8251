//! Bytes that may be text.
use vstd::prelude::*;
use vstd::utf8::*;

verus! {

/// The longest beginning of the first `k` bytes that is text.
pub open spec fn valid_length(bytes: Seq<u8>, k: nat) -> nat
    decreases k,
{
    if k == 0 || valid_utf8(bytes.take(k as int)) {
        k
    } else {
        valid_length(bytes, (k - 1) as nat)
    }
}

/// The text that the bytes begin with: as much of it as is valid UTF-8.
pub open spec fn text_prefix(bytes: Seq<u8>) -> Seq<u8> {
    bytes.take(valid_length(bytes, bytes.len()) as int)
}

/// Why bytes are not text.
#[derive(Clone, Debug, PartialEq, Eq)]
pub struct InvalidText {
    /// How many bytes from the beginning are text.
    pub valid_up_to: usize,
    pub message: String,
}

/// The words in which `str::from_utf8` says of bytes why they are not text.
pub uninterp spec fn invalid_text_words(bytes: Seq<u8>) -> Seq<char>;

/// `str::from_utf8`: the text that the bytes encode, where they are valid UTF-8; otherwise
/// `Utf8Error::valid_up_to`, the largest number of bytes from the beginning that are, and the
/// error's own words, of which the contract claims that they depend on the bytes alone.
#[verifier::external_body]
fn decode(bytes: &[u8]) -> (r: Result<String, InvalidText>)
    ensures
        match r {
            Ok(text) => valid_utf8(bytes@) && encode_utf8(text@) == bytes@,
            Err(invalid) => {
                let n = invalid.valid_up_to;
                &&& !valid_utf8(bytes@)
                &&& n < bytes@.len()
                &&& valid_utf8(bytes@.take(n as int))
                &&& forall|m: int| n < m <= bytes@.len() ==> !valid_utf8(#[trigger] bytes@.take(m))
                &&& invalid.message@ == invalid_text_words(bytes@)
            },
        },
{
    match std::str::from_utf8(bytes) {
        Ok(text) => Ok(text.to_owned()),
        Err(error) => Err(InvalidText { valid_up_to: error.valid_up_to(), message: error.to_string() }),
    }
}

proof fn lemma_valid_length(bytes: Seq<u8>, k: nat, n: nat)
    requires
        n <= k <= bytes.len(),
        valid_utf8(bytes.take(n as int)),
        forall|m: int| n < m <= bytes.len() ==> !valid_utf8(#[trigger] bytes.take(m)),
    ensures
        valid_length(bytes, k) == n,
    decreases k,
{
    if k > n {
        assert(!valid_utf8(bytes.take(k as int)));
        lemma_valid_length(bytes, (k - 1) as nat, n);
    }
}

/// The text that the bytes are, where they are valid UTF-8.
pub fn text_from(bytes: &[u8]) -> (r: Result<String, InvalidText>)
    ensures
        match r {
            Ok(text) => valid_utf8(bytes@) && text@ == decode_utf8(bytes@),
            Err(invalid) => !valid_utf8(bytes@) && invalid.message@ == invalid_text_words(bytes@)
                && invalid.valid_up_to == text_prefix(bytes@).len(),
        },
{
    let r: Result<String, InvalidText> = decode(bytes);
    proof {
        match &r {
            Ok(text) => encode_utf8_decode_utf8(text@),
            Err(invalid) => lemma_valid_length(bytes@, bytes@.len(), invalid.valid_up_to as nat),
        }
    }
    r
}

/// The text that the bytes begin with.
pub fn utf8_prefix(bytes: &[u8]) -> (r: String)
    ensures
        encode_utf8(r@) == text_prefix(bytes@),
{
    match decode(bytes) {
        Ok(text) => {
            assert(bytes@.take(bytes@.len() as int) =~= bytes@);
            text
        },
        Err(invalid) => {
            let n: usize = invalid.valid_up_to;
            let part: &[u8] = vstd::slice::slice_subrange(bytes, 0, n);
            proof {
                lemma_valid_length(bytes@, bytes@.len(), n as nat);
                assert(part@ =~= bytes@.take(n as int));
            }
            match decode(part) {
                Ok(text) => text,
                Err(_) => String::new(),
            }
        },
    }
}

/// What is kept of bytes is text, and no more of it could be.
pub proof fn law_text_prefix_is_longest(bytes: Seq<u8>)
    ensures
        valid_utf8(text_prefix(bytes)),
        forall|m: int|
            text_prefix(bytes).len() < m <= bytes.len() ==> !valid_utf8(#[trigger] bytes.take(m)),
        valid_utf8(bytes) ==> text_prefix(bytes) == bytes,
{
    lemma_longest(bytes, bytes.len());
    assert(bytes.take(bytes.len() as int) =~= bytes);
}

proof fn lemma_longest(bytes: Seq<u8>, k: nat)
    requires
        k <= bytes.len(),
    ensures
        valid_length(bytes, k) <= k,
        valid_utf8(bytes.take(valid_length(bytes, k) as int)),
        forall|m: int| valid_length(bytes, k) < m <= k ==> !valid_utf8(#[trigger] bytes.take(m)),
    decreases k,
{
    if k == 0 {
        assert(bytes.take(0) =~= Seq::<u8>::empty());
    } else if !valid_utf8(bytes.take(k as int)) {
        lemma_longest(bytes, (k - 1) as nat);
    }
}

/// The bytes of `bytes` that evidence keeps: text, and no more than the limit.
pub open spec fn retained(bytes: Seq<u8>, limit: u32) -> Seq<u8> {
    text_prefix(
        if bytes.len() <= limit {
            bytes
        } else {
            bytes.take(limit as int)
        },
    )
}

/// The text that evidence keeps of the bytes.
pub fn retain(bytes: &[u8], limit: u32) -> (r: String)
    ensures
        encode_utf8(r@) == retained(bytes@, limit),
{
    let most: usize = limit as usize;
    if bytes.len() <= most {
        utf8_prefix(bytes)
    } else {
        let part: &[u8] = vstd::slice::slice_subrange(bytes, 0, most);
        assert(part@ =~= bytes@.take(most as int));
        utf8_prefix(part)
    }
}

} // verus!
