//! Identifiers that are derived from another one by its last twelve digits.
use crate::numeral::{hex, hex_digit, push_hex};
use crate::text::{ascii_hexdigit, chars_of, is_ascii_hexdigit, string_of};
use vstd::prelude::*;

verus! {

/// How long an identifier is, and where its last group of digits begins.
pub const IDENTIFIER_CHARS: usize = 36;

pub const SUFFIX_START: usize = 24;

/// The value of a hexadecimal digit in either letter case.
pub open spec fn digit_value(c: char) -> nat {
    if '0' <= c <= '9' {
        (c as u32 - '0' as u32) as nat
    } else if 'a' <= c <= 'f' {
        (c as u32 - 'a' as u32 + 10) as nat
    } else {
        (c as u32 - 'A' as u32 + 10) as nat
    }
}

/// The number that the digits of `s` give.
pub open spec fn hex_number(s: Seq<char>) -> nat
    decreases s.len(),
{
    if s.len() == 0 {
        0
    } else {
        16 * hex_number(s.drop_last()) + digit_value(s.last())
    }
}

/// The number in the last group of an identifier, where it is one of hexadecimal digits.
pub open spec fn suffix_number(id: Seq<char>) -> Option<nat> {
    if id.len() == IDENTIFIER_CHARS && forall|i: int|
        SUFFIX_START <= i < IDENTIFIER_CHARS ==> ascii_hexdigit(#[trigger] id[i]) {
        Some(hex_number(id.skip(SUFFIX_START as int)))
    } else {
        None
    }
}

/// The identifier whose last group is that of `id`, changed by `salt`; none, where the result does
/// not fit the group or `id` has no such group.
pub open spec fn derived_id(id: Seq<char>, salt: u64) -> Option<Seq<char>> {
    match suffix_number(id) {
        None => None,
        Some(n) => {
            let changed = (n as u64) ^ salt;
            if changed < 0x1_0000_0000_0000 {
                Some(id.take(SUFFIX_START as int) + hex(changed as nat, 12, false))
            } else {
                None
            }
        },
    }
}

proof fn lemma_hex_number_bound(s: Seq<char>, n: nat)
    requires
        s.len() <= n,
        n <= 12,
        forall|i: int| 0 <= i < s.len() ==> ascii_hexdigit(#[trigger] s[i]),
    ensures
        s.len() <= 0 ==> hex_number(s) < 0x1,
        s.len() <= 1 ==> hex_number(s) < 0x10,
        s.len() <= 2 ==> hex_number(s) < 0x100,
        s.len() <= 3 ==> hex_number(s) < 0x1000,
        s.len() <= 4 ==> hex_number(s) < 0x1_0000,
        s.len() <= 5 ==> hex_number(s) < 0x10_0000,
        s.len() <= 6 ==> hex_number(s) < 0x100_0000,
        s.len() <= 7 ==> hex_number(s) < 0x1000_0000,
        s.len() <= 8 ==> hex_number(s) < 0x1_0000_0000,
        s.len() <= 9 ==> hex_number(s) < 0x10_0000_0000,
        s.len() <= 10 ==> hex_number(s) < 0x100_0000_0000,
        s.len() <= 11 ==> hex_number(s) < 0x1000_0000_0000,
        hex_number(s) < 0x1_0000_0000_0000,
    decreases s.len(),
{
    if s.len() > 0 {
        assert(ascii_hexdigit(s[s.len() - 1]));
        lemma_hex_number_bound(s.drop_last(), n);
    }
}

fn digit_of(c: char) -> (r: u64)
    requires
        ascii_hexdigit(c),
    ensures
        r == digit_value(c),
        r < 16,
{
    if '0' <= c && c <= '9' {
        (c as u32 - 48) as u64
    } else if 'a' <= c && c <= 'f' {
        (c as u32 - 97 + 10) as u64
    } else {
        (c as u32 - 65 + 10) as u64
    }
}

/// The number in the last group of an identifier, where it is one of hexadecimal digits.
pub fn suffix_of(id: &str) -> (r: Option<u64>)
    ensures
        match r {
            Some(n) => suffix_number(id@) == Some(n as nat) && n < 0x1_0000_0000_0000,
            None => suffix_number(id@) is None,
        },
{
    let s: Vec<char> = chars_of(id);
    if s.len() != IDENTIFIER_CHARS {
        return None;
    }
    let mut n: u64 = 0;
    let mut i: usize = SUFFIX_START;
    let ghost tail = s@.skip(SUFFIX_START as int);
    while i < IDENTIFIER_CHARS
        invariant
            SUFFIX_START <= i <= IDENTIFIER_CHARS,
            s.len() == IDENTIFIER_CHARS,
            s@ == id@,
            tail == s@.skip(SUFFIX_START as int),
            forall|k: int| SUFFIX_START <= k < i ==> ascii_hexdigit(#[trigger] s@[k]),
            n == hex_number(tail.take(i - SUFFIX_START)),
        decreases IDENTIFIER_CHARS - i,
    {
        if !is_ascii_hexdigit(s[i]) {
            return None;
        }
        proof {
            let part = tail.take(i - SUFFIX_START);
            assert forall|k: int| 0 <= k < part.len() implies ascii_hexdigit(#[trigger] part[k]) by {
                assert(part[k] == s@[k + SUFFIX_START]);
            }
            lemma_hex_number_bound(part, 12);
            let next = tail.take(i + 1 - SUFFIX_START);
            assert(next.drop_last() =~= part);
            assert(next.last() == s@[i as int]);
        }
        n = 16 * n + digit_of(s[i]);
        i = i + 1;
    }
    proof {
        assert(tail.take(12) =~= tail);
        assert forall|k: int| 0 <= k < tail.len() implies ascii_hexdigit(#[trigger] tail[k]) by {
            assert(tail[k] == s@[k + SUFFIX_START]);
        }
        lemma_hex_number_bound(tail, 12);
    }
    Some(n)
}

/// The identifier whose last group is that of `id`, changed by `salt`.
pub fn derive_id(id: &str, salt: u64) -> (r: Option<String>)
    ensures
        match r {
            Some(text) => derived_id(id@, salt) == Some(text@),
            None => derived_id(id@, salt) is None,
        },
{
    match suffix_of(id) {
        None => None,
        Some(n) => {
            let changed: u64 = n ^ salt;
            if changed >= 0x1_0000_0000_0000 {
                return None;
            }
            let mut out: Vec<char> = chars_of(id);
            out.truncate(SUFFIX_START);
            assert(out@ =~= id@.take(SUFFIX_START as int));
            push_hex(&mut out, changed, 12, false);
            Some(string_of(out.as_slice()))
        },
    }
}

/// A numeral says which number it is.
proof fn lemma_hex_reads_back(n: nat, width: nat)
    ensures
        hex_number(hex(n, width, false)) == n,
        hex(n, width, false).len() > 0,
    decreases n, width,
{
    if n < 16 && width <= 1 {
        assert(hex(n, width, false).drop_last() =~= Seq::<char>::empty());
        reveal_with_fuel(hex_number, 2);
        assert(digit_value(hex_digit(n, false)) == n);
    } else {
        let shorter = (if width == 0 {
            0
        } else {
            width - 1
        }) as nat;
        lemma_hex_reads_back(n / 16, shorter);
        assert(hex(n, width, false).drop_last() =~= hex(n / 16, shorter, false));
        assert(digit_value(hex_digit(n % 16, false)) == n % 16);
    }
}

/// A change that fits the last group of an identifier gives an identifier.
pub proof fn lemma_small_changes_fit(id: Seq<char>, salt: u64)
    requires
        suffix_number(id) is Some,
        salt < 0x1_0000_0000_0000,
    ensures
        derived_id(id, salt) is Some,
{
    let tail = id.skip(SUFFIX_START as int);
    assert forall|k: int| 0 <= k < tail.len() implies ascii_hexdigit(#[trigger] tail[k]) by {
        assert(tail[k] == id[k + SUFFIX_START]);
    }
    lemma_hex_number_bound(tail, 12);
    let n = suffix_number(id).unwrap() as u64;
    assert(n ^ salt < 0x1_0000_0000_0000) by (bit_vector)
        requires
            n < 0x1_0000_0000_0000,
            salt < 0x1_0000_0000_0000,
    ;
}

/// Different changes give different identifiers.
pub proof fn law_derived_ids_differ(id: Seq<char>, a: u64, b: u64)
    requires
        a != b,
        derived_id(id, a) is Some,
        derived_id(id, b) is Some,
    ensures
        derived_id(id, a) != derived_id(id, b),
{
    let n = suffix_number(id).unwrap() as u64;
    assert(n ^ a != n ^ b) by (bit_vector)
        requires
            a != b,
    ;
    let head = id.take(SUFFIX_START as int);
    let x = hex((n ^ a) as nat, 12, false);
    let y = hex((n ^ b) as nat, 12, false);
    lemma_hex_reads_back((n ^ a) as nat, 12);
    lemma_hex_reads_back((n ^ b) as nat, 12);
    if head + x == head + y {
        assert((head + x).skip(SUFFIX_START as int) =~= x);
        assert((head + y).skip(SUFFIX_START as int) =~= y);
    }
}

} // verus!
