//! Small helpers on ASCII text held as bytes.

use vstd::prelude::*;
use crate::ident::{cased, DIGIT_0, LOWER_A, LOWER_Z};

verus! {

/// ASCII `x`, which marks a hexadecimal literal.
pub const LOWER_X: u8 = 120;

/// `s` with every ASCII letter in upper case.
pub open spec fn upper_of(s: Seq<u8>) -> Seq<u8> {
    Seq::new(s.len(), |i: int| cased(s[i], true))
}

/// The decimal digits of `n`, most significant first, without leading zeros.
pub open spec fn decimal_of(n: nat) -> Seq<u8>
    decreases n,
{
    if n < 10 {
        seq![(DIGIT_0 + n) as u8]
    } else {
        decimal_of(n / 10).push((DIGIT_0 + n % 10) as u8)
    }
}

/// Appends `bytes` to `out`.
pub fn append_bytes(out: &mut Vec<u8>, bytes: &[u8])
    ensures
        final(out)@ == old(out)@ + bytes@,
{
    let mut i: usize = 0;
    while i < bytes.len()
        invariant
            i <= bytes@.len(),
            out@ == old(out)@ + bytes@.take(i as int),
        decreases bytes@.len() - i,
    {
        out.push(bytes[i]);
        assert(out@ =~= old(out)@ + bytes@.take(i + 1));
        i += 1;
    }
    assert(bytes@.take(i as int) =~= bytes@);
}

/// `name` with every ASCII letter in upper case and every other byte kept.
pub fn upper_case(name: &[u8]) -> (out: Vec<u8>)
    ensures
        out@ == upper_of(name@),
{
    let mut out: Vec<u8> = Vec::new();
    let mut i: usize = 0;
    while i < name.len()
        invariant
            i <= name@.len(),
            out@.len() == i,
            forall|j: int| 0 <= j < i ==> out@[j] == cased(name@[j], true),
        decreases name@.len() - i,
    {
        let c: u8 = name[i];
        let u: u8 = if LOWER_A <= c && c <= LOWER_Z {
            c - 32
        } else {
            c
        };
        out.push(u);
        i += 1;
    }
    assert(out@ =~= upper_of(name@));
    out
}

/// The decimal digits of `n`.
pub fn decimal(n: u64) -> (out: Vec<u8>)
    ensures
        out@ == decimal_of(n as nat),
    decreases n,
{
    if n < 10 {
        let d: u8 = DIGIT_0 + n as u8;
        let mut out: Vec<u8> = Vec::new();
        out.push(d);
        assert(out@ =~= seq![(DIGIT_0 + n) as u8]);
        out
    } else {
        let mut out = decimal(n / 10);
        let d: u8 = DIGIT_0 + (n % 10) as u8;
        out.push(d);
        out
    }
}

/// The ASCII code of the hexadecimal digit for `d`, in lower case.
pub open spec fn hex_digit(d: nat) -> u8 {
    if d < 10 {
        (DIGIT_0 + d) as u8
    } else {
        (LOWER_A + (d - 10)) as u8
    }
}

/// The hexadecimal digits of `n`, most significant first, without leading zeros.
pub open spec fn hex_digits_of(n: nat) -> Seq<u8>
    decreases n,
{
    if n < 16 {
        seq![hex_digit(n)]
    } else {
        hex_digits_of(n / 16).push(hex_digit(n % 16))
    }
}

/// `n` as a hexadecimal literal: `0x` and its digits.
pub open spec fn hex_of(n: nat) -> Seq<u8> {
    seq![DIGIT_0, LOWER_X] + hex_digits_of(n)
}

fn hex_digits(n: u64) -> (out: Vec<u8>)
    ensures
        out@ == seq![DIGIT_0, LOWER_X] + hex_digits_of(n as nat),
    decreases n,
{
    let d: u8 = (n % 16) as u8;
    let c: u8 = if d < 10 {
        DIGIT_0 + d
    } else {
        LOWER_A + (d - 10)
    };
    if n < 16 {
        let mut out: Vec<u8> = Vec::new();
        out.push(DIGIT_0);
        out.push(LOWER_X);
        out.push(c);
        assert(out@ =~= seq![DIGIT_0, LOWER_X] + seq![hex_digit(n as nat)]);
        out
    } else {
        let mut out = hex_digits(n / 16);
        out.push(c);
        assert(out@ =~= seq![DIGIT_0, LOWER_X] + hex_digits_of((n / 16) as nat).push(
            hex_digit((n % 16) as nat),
        ));
        out
    }
}

/// Renders `n` as a hexadecimal literal in lower case, such as `0x1f`.
pub fn hex(n: u64) -> (out: Vec<u8>)
    ensures
        out@ == hex_of(n as nat),
{
    hex_digits(n)
}

} // verus!
