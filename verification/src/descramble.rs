//! The payload transform: every byte is XORed with a keystream byte that the
//! key table gives for the byte's index inside its chunk.
//!
//! The index restarts at every chunk. The keystream has period 256, so
//! chunks whose length is a multiple of 256 descramble to the same bytes as
//! the unsplit payload; other chunk lengths do not.

use crate::key_table::{is_permutation, KeyTable};
use vstd::arithmetic::div_mod::{lemma_fundamental_div_mod, lemma_mod_mod};
use vstd::prelude::*;
use vstd::slice::{slice_subrange, slice_to_vec};

verus! {

/// Length of the chunks in which a payload is descrambled.
pub const CHUNK_LEN: usize = 0x8000;

/// The keystream byte for the byte at index `i` of a chunk.
pub open spec fn keystream_byte(table: Seq<u8>, i: int) -> u8 {
    let j = (i + 1) % 256;
    let k = (table[j] + j) % 256;
    let l = (table[j] + table[k]) % 256;
    table[l]
}

/// One chunk after the transform: each byte XORed with the keystream byte of
/// its index in the chunk.
pub open spec fn descrambled_chunk(table: Seq<u8>, chunk: Seq<u8>) -> Seq<u8> {
    Seq::new(chunk.len(), |i: int| chunk[i] ^ keystream_byte(table, i))
}

/// A payload after the transform has been applied to each of its chunks of
/// `chunk_len` bytes, the last of which may be shorter.
pub open spec fn descrambled(table: Seq<u8>, payload: Seq<u8>, chunk_len: int) -> Seq<u8> {
    Seq::new(payload.len(), |p: int| payload[p] ^ keystream_byte(table, p % chunk_len))
}

proof fn lemma_xor_twice(byte: u8, key: u8)
    ensures
        (byte ^ key) ^ key == byte,
{
    assert((byte ^ key) ^ key == byte) by (bit_vector);
}

/// The transform undoes itself: applied twice to a chunk with one table, it
/// gives the chunk back.
pub proof fn descrambling_twice_restores_chunk(table: Seq<u8>, chunk: Seq<u8>)
    ensures
        descrambled_chunk(table, descrambled_chunk(table, chunk)) == chunk,
{
    let once = descrambled_chunk(table, chunk);
    let twice = descrambled_chunk(table, once);
    assert forall|i: int| 0 <= i < chunk.len() implies twice[i] == chunk[i] by {
        lemma_xor_twice(chunk[i], keystream_byte(table, i));
    }
    assert(twice =~= chunk);
}

/// The transform undoes itself on a whole payload too, as long as both
/// passes cut it into chunks of the same length.
pub proof fn descrambling_twice_restores(table: Seq<u8>, payload: Seq<u8>, chunk_len: int)
    ensures
        descrambled(table, descrambled(table, payload, chunk_len), chunk_len) == payload,
{
    let once = descrambled(table, payload, chunk_len);
    let twice = descrambled(table, once, chunk_len);
    assert forall|p: int| 0 <= p < payload.len() implies twice[p] == payload[p] by {
        lemma_xor_twice(payload[p], keystream_byte(table, p % chunk_len));
    }
    assert(twice =~= payload);
}

proof fn lemma_keystream_period(table: Seq<u8>, i: int, j: int)
    requires
        i % 256 == j % 256,
    ensures
        keystream_byte(table, i) == keystream_byte(table, j),
{
}

/// Cutting a payload into chunks whose length is a multiple of 256 changes
/// nothing: it descrambles to the same bytes as one single chunk.
pub proof fn aligned_chunks_descramble_alike(table: Seq<u8>, payload: Seq<u8>, chunk_len: int)
    requires
        chunk_len > 0,
        chunk_len % 256 == 0,
    ensures
        descrambled(table, payload, chunk_len) == descrambled_chunk(table, payload),
{
    let chunked = descrambled(table, payload, chunk_len);
    let whole = descrambled_chunk(table, payload);
    assert forall|p: int| 0 <= p < payload.len() implies chunked[p] == whole[p] by {
        lemma_fundamental_div_mod(chunk_len, 256);
        lemma_mod_mod(p, 256, chunk_len / 256);
        lemma_keystream_period(table, p % chunk_len, p);
    }
    assert(chunked =~= whole);
}

/// A chunk may be cut in two after a multiple of 256 bytes: the two parts,
/// descrambled one by one, give what the whole chunk gives.
pub proof fn split_at_multiple_of_256(table: Seq<u8>, head: Seq<u8>, tail: Seq<u8>)
    requires
        head.len() % 256 == 0,
    ensures
        descrambled_chunk(table, head + tail) == descrambled_chunk(table, head)
            + descrambled_chunk(table, tail),
{
    let whole = descrambled_chunk(table, head + tail);
    let parts = descrambled_chunk(table, head) + descrambled_chunk(table, tail);
    assert forall|p: int| 0 <= p < whole.len() implies whole[p] == parts[p] by {
        if p >= head.len() {
            lemma_keystream_period(table, p, p - head.len());
        }
    }
    assert(whole =~= parts);
}

/// Descrambles one chunk in place.
pub fn descramble_chunk(table: &KeyTable, chunk: &mut Vec<u8>)
    ensures
        final(chunk)@ == descrambled_chunk(table@, old(chunk)@),
{
    let entries = table.as_slice();
    let ghost before = chunk@;
    let size: usize = chunk.len();
    let mut i: usize = 0;
    while i < size
        invariant
            i <= size,
            size == before.len(),
            chunk@.len() == size,
            entries@ == table@,
            is_permutation(table@),
            forall|p: int| 0 <= p < i ==> chunk@[p] == before[p] ^ keystream_byte(table@, p),
            forall|p: int| i <= p < size ==> chunk@[p] == before[p],
        decreases size - i,
    {
        let j: usize = (i + 1) % 256;
        let k: usize = (entries[j] as usize + j) % 256;
        let l: usize = (entries[j] as usize + entries[k] as usize) % 256;
        let byte: u8 = chunk[i] ^ entries[l];
        chunk.set(i, byte);
        i = i + 1;
    }
    assert(chunk@ =~= descrambled_chunk(table@, before));
}

/// Descrambles a whole payload, chunk by chunk, with chunks of [`CHUNK_LEN`]
/// bytes.
pub fn descramble(table: &KeyTable, payload: &[u8]) -> (audio: Vec<u8>)
    ensures
        audio@ == descrambled(table@, payload@, CHUNK_LEN as int),
        audio@ == descrambled_chunk(table@, payload@),
{
    let ghost target = descrambled(table@, payload@, 0x8000);
    let total: usize = payload.len();
    let mut audio: Vec<u8> = Vec::with_capacity(total);
    let mut offset: usize = 0;
    while offset < total
        invariant
            offset <= total,
            total == payload@.len(),
            offset as int % 0x8000 == 0 || offset == total,
            target == descrambled(table@, payload@, 0x8000),
            audio@ == target.take(offset as int),
        decreases total - offset,
    {
        let size: usize = if total - offset < CHUNK_LEN {
            total - offset
        } else {
            CHUNK_LEN
        };
        let mut buffer: Vec<u8> = slice_to_vec(slice_subrange(payload, offset, offset + size));
        descramble_chunk(table, &mut buffer);
        proof {
            let chunk = payload@.subrange(offset as int, offset + size);
            assert forall|p: int| 0 <= p < size implies #[trigger] buffer@[p] == target[offset
                + p] by {
                assert(offset as int % 0x8000 == 0);
                assert(0 <= p < 0x8000);
                assert((offset + p) % 0x8000 == p);
                assert(chunk[p] == payload@[offset + p]);
            }
            assert((audio@ + buffer@) =~= target.take(offset + size));
        }
        audio.append(&mut buffer);
        offset = offset + size;
    }
    proof {
        assert(target.take(total as int) =~= target);
        aligned_chunks_descramble_alike(table@, payload@, 0x8000);
    }
    audio
}

} // verus!
