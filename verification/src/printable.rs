//! Printable-ASCII classification and counting: the pure half of the
//! heuristic the surrounding tool uses to label a processed file
//! "Encrypted" or "Decrypted".

use vstd::prelude::*;

verus! {

/// Whether a byte reads as printable text: a graphic ASCII character, a
/// space, a newline or a carriage return.
pub open spec fn spec_is_printable_ascii(byte: u8) -> bool {
    (0x21 <= byte && byte <= 0x7e) || byte == 0x20 || byte == 0x0a || byte == 0x0d
}

/// How many bytes of the sequence are printable ASCII.
pub open spec fn count_printable(data: Seq<u8>) -> nat
    decreases data.len(),
{
    if data.len() == 0 {
        0
    } else {
        count_printable(data.drop_last()) + if spec_is_printable_ascii(data.last()) {
            1nat
        } else {
            0nat
        }
    }
}

/// Whether a byte is printable ASCII: a graphic character, a space, a
/// newline or a carriage return.
pub fn is_printable_ascii(byte: u8) -> (r: bool)
    ensures
        r == spec_is_printable_ascii(byte),
{
    (0x21 <= byte && byte <= 0x7e) || byte == 0x20 || byte == 0x0a || byte == 0x0d
}

/// Count the printable ASCII bytes of the buffer.
pub fn printable_count(data: &Vec<u8>) -> (n: usize)
    ensures
        n == count_printable(data@),
{
    let len = data.len();
    let mut n: usize = 0;
    let mut k: usize = 0;
    while k < len
        invariant
            k <= len,
            len == data@.len(),
            n <= k,
            n == count_printable(data@.subrange(0, k as int)),
        decreases len - k,
    {
        if is_printable_ascii(data[k]) {
            n = n + 1;
        }
        proof {
            let next = data@.subrange(0, k + 1);
            assert(next.drop_last() =~= data@.subrange(0, k as int));
            assert(next.last() == data@[k as int]);
        }
        k = k + 1;
    }
    proof {
        assert(data@.subrange(0, len as int) =~= data@);
    }
    n
}

} // verus!
