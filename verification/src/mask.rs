//! The constant XOR mask that hides a block's bytes before any cipher is
//! involved.

use vstd::prelude::*;

verus! {

/// `bytes` with every byte XORed with `mask`.
pub open spec fn unmasked(bytes: Seq<u8>, mask: u8) -> Seq<u8> {
    Seq::new(bytes.len(), |i: int| bytes[i] ^ mask)
}

/// Removes the mask from every byte of a block, in place.
pub fn unmask(bytes: &mut Vec<u8>, mask: u8)
    ensures
        final(bytes)@ == unmasked(old(bytes)@, mask),
{
    let ghost before = bytes@;
    let length: usize = bytes.len();
    let mut i: usize = 0;
    while i < length
        invariant
            i <= length,
            length == before.len(),
            bytes@.len() == length,
            forall|p: int| 0 <= p < i ==> bytes@[p] == before[p] ^ mask,
            forall|p: int| i <= p < length ==> bytes@[p] == before[p],
        decreases length - i,
    {
        let byte: u8 = bytes[i] ^ mask;
        bytes.set(i, byte);
        i = i + 1;
    }
    assert(bytes@ =~= unmasked(before, mask));
}

} // verus!
