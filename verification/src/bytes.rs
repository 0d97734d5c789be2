//! Comparison of byte strings and of text without an early exit.

use vstd::prelude::*;

verus! {

/// Whether two byte strings are equal. Of two strings of one length every
/// position is visited whatever the contents are, so the time taken tells
/// nothing about where they differ.
pub fn bytes_equal(a: &[u8], b: &[u8]) -> (same: bool)
    ensures
        same == (a@ == b@),
{
    if a.len() != b.len() {
        return false;
    }
    let mut diff: u8 = 0;
    let mut i: usize = 0;
    while i < a.len()
        invariant
            a@.len() == b@.len(),
            i <= a@.len(),
            (diff == 0) == (a@.subrange(0, i as int) =~= b@.subrange(0, i as int)),
        decreases a@.len() - i,
    {
        let x: u8 = a[i];
        let y: u8 = b[i];
        let d: u8 = x ^ y;
        let next: u8 = diff | d;
        proof {
            assert((d == 0) == (x == y)) by (bit_vector)
                requires
                    d == x ^ y,
            ;
            assert((next == 0) == (diff == 0 && d == 0)) by (bit_vector)
                requires
                    next == diff | d,
            ;
            let pa = a@.subrange(0, i as int);
            let pb = b@.subrange(0, i as int);
            let qa = a@.subrange(0, i + 1);
            let qb = b@.subrange(0, i + 1);
            assert(qa =~= pa.push(x));
            assert(qb =~= pb.push(y));
            if qa == qb {
                assert(pa =~= qa.subrange(0, i as int));
                assert(pb =~= qb.subrange(0, i as int));
                assert(qa[i as int] == qb[i as int]);
            }
        }
        diff = next;
        i = i + 1;
    }
    proof {
        assert(a@.subrange(0, i as int) =~= a@);
        assert(b@.subrange(0, i as int) =~= b@);
    }
    diff == 0
}

/// Whether two pieces of text are equal, decided on their UTF-8 encodings.
pub fn text_equal(a: &str, b: &str) -> (same: bool)
    ensures
        same == (a@ == b@),
{
    proof {
        vstd::utf8::encode_utf8_decode_utf8(a@);
        vstd::utf8::encode_utf8_decode_utf8(b@);
    }
    bytes_equal(a.as_bytes(), b.as_bytes())
}

} // verus!
