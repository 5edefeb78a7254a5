//! The 16-bit additive checksum of a ROM image and the line that records it.

use vstd::prelude::*;
use crate::numfmt::{hex_upper, digits_of};
use crate::text::{from_chars, push_all, to_chars};

verus! {

/// The sum of all bytes.
pub open spec fn byte_sum(b: Seq<u8>) -> nat
    decreases b.len(),
{
    if b.len() == 0 {
        0
    } else {
        byte_sum(b.drop_last()) + b.last() as nat
    }
}

/// The checksum-16 of an image: the sum of its bytes, kept to its low 16 bits.
pub open spec fn checksum16(b: Seq<u8>) -> nat {
    byte_sum(b) % 0x10000
}

/// The text written to `Checksum.txt`: `Checksum-16: 0x` and the checksum in
/// upper-case hexadecimal without leading zeros.
pub open spec fn checksum_line(b: Seq<u8>) -> Seq<char> {
    "Checksum-16: 0x"@ + hex_upper(checksum16(b))
}

/// The sum of the bytes of a concatenation is the sum of the sums.
pub proof fn lemma_byte_sum_concat(a: Seq<u8>, b: Seq<u8>)
    ensures
        byte_sum(a + b) == byte_sum(a) + byte_sum(b),
    decreases b.len(),
{
    if b.len() == 0 {
        assert(a + b =~= a);
    } else {
        assert((a + b).drop_last() =~= a + b.drop_last());
        lemma_byte_sum_concat(a, b.drop_last());
    }
}

/// The checksum of two images laid end to end is the sum of their checksums,
/// kept to 16 bits: the checksum can be computed piecewise.
pub proof fn law_checksum_concat(a: Seq<u8>, b: Seq<u8>)
    ensures
        checksum16(a + b) == (checksum16(a) + checksum16(b)) % 0x10000,
{
    lemma_byte_sum_concat(a, b);
    vstd::arithmetic::div_mod::lemma_add_mod_noop(byte_sum(a) as int, byte_sum(b) as int, 0x10000);
}

/// The checksum-16 of `data`.
pub fn checksum16_of(data: &[u8]) -> (c: u64)
    ensures
        c == checksum16(data@),
        c < 0x10000,
{
    let mut acc: u64 = 0;
    let mut i: usize = 0;
    while i < data.len()
        invariant
            i <= data.len(),
            acc == byte_sum(data@.take(i as int)) % 0x10000,
        decreases data.len() - i,
    {
        let ghost prev = byte_sum(data@.take(i as int));
        assert(data@.take(i + 1).drop_last() =~= data@.take(i as int));
        acc = (acc + data[i] as u64) % 0x10000;
        proof {
            vstd::arithmetic::div_mod::lemma_add_mod_noop_right(data@[i as int] as int, prev as int, 0x10000);
        }
        i = i + 1;
    }
    assert(data@.take(data.len() as int) =~= data@);
    acc
}

/// The line recorded in `Checksum.txt` for the image `data`.
pub fn checksum_report(data: &[u8]) -> (s: String)
    ensures
        s@ == checksum_line(data@),
{
    let c = checksum16_of(data);
    let mut out = to_chars("Checksum-16: 0x");
    let hex = digits_of(c, 16);
    push_all(&mut out, hex.as_slice());
    from_chars(out.as_slice())
}

} // verus!
