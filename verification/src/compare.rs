//! Constant-time equality of byte strings.
//!
//! The comparison folds the XOR of every byte position into one
//! accumulator and inspects it only once at the end, so its running time
//! does not depend on where two inputs first differ.

use vstd::prelude::*;

verus! {

/// The byte at position `j`, reading positions past the end as zero.
pub open spec fn byte_or_zero(s: Seq<u8>, j: int) -> u8 {
    if 0 <= j < s.len() {
        s[j]
    } else {
        0
    }
}

/// Two character strings are equal exactly when their UTF-8 encodings
/// are, so comparing strings byte by byte decides string equality.
pub proof fn lemma_utf8_eq_iff_chars_eq(a: Seq<char>, b: Seq<char>)
    ensures
        (vstd::utf8::encode_utf8(a) == vstd::utf8::encode_utf8(b)) <==> (a == b),
{
    vstd::utf8::encode_utf8_decode_utf8(a);
    vstd::utf8::encode_utf8_decode_utf8(b);
}

/// Constant-time equality: true iff `a` and `b` have the same length and
/// the same bytes.  Every byte position up to the longer length is
/// visited whether or not an earlier position already differs.
pub fn constant_time_eq(a: &[u8], b: &[u8]) -> (r: bool)
    ensures
        r == (a@ == b@),
{
    let alen = a.len();
    let blen = b.len();
    let len = if alen > blen {
        alen
    } else {
        blen
    };
    let mut diff: u8 = 0;
    let mut i: usize = 0;
    while i < len
        invariant
            i <= len,
            alen == a@.len(),
            blen == b@.len(),
            len == if alen > blen {
                alen
            } else {
                blen
            },
            (diff == 0) <==> (forall|j: int|
                0 <= j < i ==> byte_or_zero(a@, j) == byte_or_zero(b@, j)),
        decreases len - i,
    {
        let av = if i < alen {
            a[i]
        } else {
            0
        };
        let bv = if i < blen {
            b[i]
        } else {
            0
        };
        let x = av ^ bv;
        proof {
            assert((av ^ bv) == 0 <==> av == bv) by (bit_vector);
            assert(((diff | x) == 0) <==> (diff == 0 && x == 0)) by (bit_vector);
            assert(av == byte_or_zero(a@, i as int));
            assert(bv == byte_or_zero(b@, i as int));
        }
        diff = diff | x;
        i += 1;
    }
    if diff == 0 && alen == blen {
        proof {
            assert forall|j: int| 0 <= j < a@.len() implies a@[j] == b@[j] by {
                assert(byte_or_zero(a@, j) == byte_or_zero(b@, j));
            }
            assert(a@ =~= b@);
        }
        true
    } else {
        proof {
            if a@ == b@ {
                assert(alen == blen);
                assert(forall|j: int|
                    0 <= j < len ==> byte_or_zero(a@, j) == byte_or_zero(b@, j));
            }
        }
        false
    }
}

} // verus!
