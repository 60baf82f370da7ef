//! Lowercase hexadecimal rendering of digests, and hex-string validation.

use vstd::prelude::*;
use crate::algo::Algorithm;

verus! {

/// The lowercase hex digit for a nibble value.
pub open spec fn hex_digit_char(n: int) -> char {
    if n == 0 {
        '0'
    } else if n == 1 {
        '1'
    } else if n == 2 {
        '2'
    } else if n == 3 {
        '3'
    } else if n == 4 {
        '4'
    } else if n == 5 {
        '5'
    } else if n == 6 {
        '6'
    } else if n == 7 {
        '7'
    } else if n == 8 {
        '8'
    } else if n == 9 {
        '9'
    } else if n == 10 {
        'a'
    } else if n == 11 {
        'b'
    } else if n == 12 {
        'c'
    } else if n == 13 {
        'd'
    } else if n == 14 {
        'e'
    } else {
        'f'
    }
}

/// Two lowercase hex digits for one byte, high nibble first.
pub open spec fn hex_of_byte(b: u8) -> Seq<char> {
    seq![hex_digit_char(b as int / 16), hex_digit_char(b as int % 16)]
}

/// The lowercase hex rendering of a byte string.
pub open spec fn hex_chars_of(bs: Seq<u8>) -> Seq<char>
    decreases bs.len(),
{
    if bs.len() == 0 {
        Seq::empty()
    } else {
        hex_of_byte(bs[0]) + hex_chars_of(bs.drop_first())
    }
}

pub proof fn lemma_hex_chars_len(bs: Seq<u8>)
    ensures
        hex_chars_of(bs).len() == 2 * bs.len(),
    decreases bs.len(),
{
    if bs.len() > 0 {
        lemma_hex_chars_len(bs.drop_first());
    }
}

/// Relies on hex::encode: each input byte becomes two lowercase hex
/// digits, high nibble first, in input order.
#[verifier::external_body]
pub(crate) fn bytes_to_hex(data: &[u8]) -> (r: String)
    ensures
        r@ == hex_chars_of(data@),
{
    hex::encode(data)
}

/// An ASCII hexadecimal digit, either case.
pub open spec fn spec_is_hex_digit(c: char) -> bool {
    ('0' <= c && c <= '9') || ('a' <= c && c <= 'f') || ('A' <= c && c <= 'F')
}

pub fn is_hex_digit(c: char) -> (r: bool)
    ensures
        r == spec_is_hex_digit(c),
{
    ('0' <= c && c <= '9') || ('a' <= c && c <= 'f') || ('A' <= c && c <= 'F')
}

/// A nonempty string made of hex digits only.
pub open spec fn spec_is_valid_hex(s: Seq<char>) -> bool {
    s.len() > 0 && forall|i: int| 0 <= i < s.len() ==> spec_is_hex_digit(s[i])
}

pub fn is_valid_hex(s: &str) -> (r: bool)
    ensures
        r == spec_is_valid_hex(s@),
{
    let n = s.unicode_len();
    if n == 0 {
        return false;
    }
    let mut i: usize = 0;
    while i < n
        invariant
            n == s@.len(),
            i <= n,
            forall|j: int| 0 <= j < i ==> spec_is_hex_digit(s@[j]),
        decreases n - i,
    {
        if !is_hex_digit(s.get_char(i)) {
            return false;
        }
        i += 1;
    }
    true
}

/// A well-formed expected hash for the algorithm: exactly the
/// algorithm's hex width, hex digits throughout.
pub open spec fn spec_hash_well_formed(s: Seq<char>, algo: Algorithm) -> bool {
    s.len() == algo.spec_hex_len() && spec_is_valid_hex(s)
}

pub fn check_hash_format(s: &str, algo: &Algorithm) -> (r: bool)
    ensures
        r == spec_hash_well_formed(s@, *algo),
{
    let n = s.unicode_len();
    if n != algo.expected_hex_len() {
        return false;
    }
    is_valid_hex(s)
}

} // verus!
