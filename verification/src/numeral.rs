//! Numerals.
use vstd::prelude::*;

verus! {

/// The decimal digits of `n`.
pub open spec fn decimal(n: nat) -> Seq<char>
    decreases n,
{
    if n < 10 {
        seq![('0' as u32 + n) as char]
    } else {
        decimal(n / 10).push(('0' as u32 + n % 10) as char)
    }
}

/// The number that the digits write, read from the left; none where there is no digit or something else.
pub open spec fn written_number(s: Seq<char>) -> Option<nat>
    decreases s.len(),
{
    if s.len() == 0 || s.last() < '0' || s.last() > '9' {
        None
    } else {
        let digit = (s.last() as u32 - '0' as u32) as nat;
        if s.len() == 1 {
            Some(digit)
        } else {
            match written_number(s.drop_last()) {
                Some(n) => Some(10 * n + digit),
                None => None,
            }
        }
    }
}

/// The decimal digits of a number write that number.
pub proof fn law_decimals_read_back(n: nat)
    ensures
        written_number(decimal(n)) == Some(n),
        decimal(n).len() > 0,
        n > 0 ==> decimal(n)[0] != '0',
    decreases n,
{
    if n >= 10 {
        law_decimals_read_back(n / 10);
        assert(decimal(n).drop_last() =~= decimal(n / 10));
    }
}

/// Adds the decimal digits of `n` at the end of `out`.
pub fn push_decimal(out: &mut Vec<char>, n: u64)
    ensures
        final(out)@ == old(out)@ + decimal(n as nat),
    decreases n,
{
    if n >= 10 {
        push_decimal(out, n / 10);
    }
    out.push((48 + (n % 10) as u8) as char);
}

/// The digit `d` of a hexadecimal numeral.
pub open spec fn hex_digit(d: nat, upper: bool) -> char {
    if d < 10 {
        ('0' as u32 + d) as char
    } else if upper {
        ('A' as u32 + d - 10) as char
    } else {
        ('a' as u32 + d - 10) as char
    }
}

/// The hexadecimal digits of `n`, with leading zeros up to `width` digits.
pub open spec fn hex(n: nat, width: nat, upper: bool) -> Seq<char>
    decreases n, width,
{
    if n < 16 && width <= 1 {
        seq![hex_digit(n, upper)]
    } else {
        hex(n / 16, (if width == 0 { 0 } else { width - 1 }) as nat, upper).push(
            hex_digit(n % 16, upper),
        )
    }
}

/// Adds the hexadecimal digits of `n` at the end of `out`.
pub fn push_hex(out: &mut Vec<char>, n: u64, width: usize, upper: bool)
    ensures
        final(out)@ == old(out)@ + hex(n as nat, width as nat, upper),
    decreases n, width,
{
    if n >= 16 || width > 1 {
        push_hex(out, n / 16, if width == 0 { 0 } else { width - 1 }, upper);
    }
    let d: u8 = (n % 16) as u8;
    if d < 10 {
        out.push((48 + d) as char);
    } else if upper {
        out.push((65 + (d - 10)) as char);
    } else {
        out.push((97 + (d - 10)) as char);
    }
}

/// The number as large as a length can be.
pub open spec fn as_length(n: u64) -> nat {
    if n > usize::MAX {
        usize::MAX as nat
    } else {
        n as nat
    }
}

/// The number as large as a length can be.
pub fn saturated(n: u64) -> (r: usize)
    ensures
        r == as_length(n),
{
    if n > usize::MAX as u64 {
        usize::MAX
    } else {
        n as usize
    }
}

/// The sum, as large as one can be.
pub open spec fn capped_sum(a: u64, b: nat) -> u64 {
    if a + b > u64::MAX {
        u64::MAX
    } else {
        (a + b) as u64
    }
}

} // verus!
