//! The key table: a permutation of the 256 byte values, shuffled by the seed
//! that a container carries in its key block.

use crate::cipher::{decrypt_block, decrypted, CORE_KEY};
use crate::error::DumpError;
use crate::mask::{unmask, unmasked};
use crate::reader::{Cursor, Reader};
use vstd::arithmetic::div_mod::{lemma_fundamental_div_mod, lemma_fundamental_div_mod_converse};
use vstd::prelude::*;

verus! {

/// Mask over every byte of the key block.
pub const KEY_MASK: u8 = 0x64;

/// Number of leading bytes of the decrypted key block that are not seed.
pub const KEY_PREFIX_LEN: usize = 17;

/// Number of entries of a key table.
pub const TABLE_LEN: usize = 256;

/// The table that maps every byte to itself.
pub open spec fn identity_table() -> Seq<u8> {
    Seq::new(256, |i: int| i as u8)
}

/// A table of 256 entries in which every byte value occurs, and none twice.
pub open spec fn is_permutation(table: Seq<u8>) -> bool {
    &&& table.len() == 256
    &&& table.no_duplicates()
    &&& forall|value: u8| table.contains(value)
}

/// What the key schedule carries from one round to the next.
pub struct Schedule {
    /// The table as shuffled so far.
    pub table: Seq<u8>,
    /// The index that the previous round swapped with; 0 before the first.
    pub last: int,
}

/// Round `i` of the key schedule: entry `i` changes places with the entry
/// whose index is the sum, modulo 256, of entry `i`, of the previous round's
/// index and of the seed byte whose turn it is. The seed is used cyclically.
pub open spec fn schedule_round(state: Schedule, seed: Seq<u8>, i: int) -> Schedule {
    let swap = state.table[i];
    let c = (swap + state.last + seed[i % (seed.len() as int)]) % 256;
    Schedule { table: state.table.update(i, state.table[c]).update(c, swap), last: c }
}

/// The schedule after `rounds` rounds, starting from the identity table.
pub open spec fn schedule_after(seed: Seq<u8>, rounds: nat) -> Schedule
    decreases rounds,
{
    if rounds == 0 {
        Schedule { table: identity_table(), last: 0 }
    } else {
        schedule_round(schedule_after(seed, (rounds - 1) as nat), seed, rounds - 1)
    }
}

/// The key table that a seed gives: the schedule's table after 256 rounds.
pub open spec fn key_table_of(seed: Seq<u8>) -> Seq<u8> {
    schedule_after(seed, 256).table
}

/// The key table that a decrypted key block gives, or the reason it gives
/// none: the block must carry at least one seed byte after its prefix.
pub open spec fn key_table_of_plaintext(plaintext: Seq<u8>) -> Result<Seq<u8>, DumpError> {
    if plaintext.len() > KEY_PREFIX_LEN {
        Ok(key_table_of(plaintext.skip(KEY_PREFIX_LEN as int)))
    } else {
        Err(DumpError::InvalidKeyMaterial)
    }
}

/// The key table that a key block gives: the block is unmasked and
/// decrypted, and the plaintext's seed shuffles the table.
pub open spec fn key_table_of_block(block: Seq<u8>) -> Result<Seq<u8>, DumpError> {
    match decrypted(CORE_KEY@, unmasked(block, KEY_MASK)) {
        Some(plaintext) => key_table_of_plaintext(plaintext),
        None => Err(DumpError::DecryptionFailed),
    }
}

/// The key table that the key block under the cursor gives.
pub open spec fn key_table_at(cursor: Cursor) -> Result<Seq<u8>, DumpError> {
    if cursor.has_block() {
        key_table_of_block(cursor.block())
    } else {
        Err(DumpError::TruncatedInput)
    }
}

proof fn lemma_identity_is_permutation()
    ensures
        is_permutation(identity_table()),
{
    let table = identity_table();
    assert forall|value: u8| table.contains(value) by {
        assert(table[value as int] == value);
    }
}

proof fn lemma_round_keeps_permutation(state: Schedule, seed: Seq<u8>, i: int)
    requires
        is_permutation(state.table),
        0 <= i < 256,
    ensures
        is_permutation(schedule_round(state, seed, i).table),
        0 <= schedule_round(state, seed, i).last < 256,
{
    let next = schedule_round(state, seed, i);
    let c = next.last;
    assert forall|value: u8| next.table.contains(value) by {
        assert(state.table.contains(value));
        let k = choose|k: int| 0 <= k < 256 && state.table[k] == value;
        let moved = if k == i {
            c
        } else if k == c {
            i
        } else {
            k
        };
        assert(next.table[moved] == value);
    }
}

proof fn lemma_schedule_keeps_permutation(seed: Seq<u8>, rounds: nat)
    requires
        rounds <= 256,
    ensures
        is_permutation(schedule_after(seed, rounds).table),
        0 <= schedule_after(seed, rounds).last < 256,
    decreases rounds,
{
    if rounds == 0 {
        lemma_identity_is_permutation();
    } else {
        lemma_schedule_keeps_permutation(seed, (rounds - 1) as nat);
        lemma_round_keeps_permutation(
            schedule_after(seed, (rounds - 1) as nat),
            seed,
            rounds - 1,
        );
    }
}

/// Whatever the seed holds, the table it gives is a permutation of the byte
/// values: all 256 of them, each once.
pub proof fn key_table_is_permutation(seed: Seq<u8>)
    ensures
        is_permutation(key_table_of(seed)),
{
    lemma_schedule_keeps_permutation(seed, 256);
}

proof fn lemma_cyclic_successor(i: int, len: int)
    requires
        0 <= i,
        0 < len,
    ensures
        (i + 1) % len == if i % len + 1 == len {
            0
        } else {
            i % len + 1
        },
{
    lemma_fundamental_div_mod(i, len);
    let q = i / len;
    let r = i % len;
    if r + 1 == len {
        assert(i + 1 == (q + 1) * len + 0) by (nonlinear_arith)
            requires
                i == len * q + r,
                r + 1 == len,
        ;
        lemma_fundamental_div_mod_converse(i + 1, len, q + 1, 0);
    } else {
        assert(i + 1 == q * len + (r + 1)) by (nonlinear_arith)
            requires
                i == len * q + r,
        ;
        lemma_fundamental_div_mod_converse(i + 1, len, q, r + 1);
    }
}

/// A derived key table. It is a permutation of the byte values from the
/// moment it exists, and nothing changes it afterwards.
#[derive(Debug)]
pub struct KeyTable {
    entries: Vec<u8>,
}

impl View for KeyTable {
    type V = Seq<u8>;

    closed spec fn view(&self) -> Seq<u8> {
        self.entries@
    }
}

impl Clone for KeyTable {
    fn clone(&self) -> (copy: Self)
        ensures
            copy@ == self@,
    {
        proof {
            use_type_invariant(self);
        }
        let entries = self.entries.clone();
        assert(entries@ =~= self.entries@);
        KeyTable { entries }
    }
}

impl KeyTable {
    #[verifier::type_invariant]
    spec fn well_formed(self) -> bool {
        is_permutation(self.entries@)
    }

    /// The 256 entries, in order.
    pub fn as_slice(&self) -> (entries: &[u8])
        ensures
            entries@ == self@,
            is_permutation(self@),
    {
        proof {
            use_type_invariant(self);
        }
        self.entries.as_slice()
    }

    /// The entry at `index`.
    pub fn get(&self, index: u8) -> (entry: u8)
        ensures
            entry == self@[index as int],
    {
        proof {
            use_type_invariant(self);
        }
        self.entries[index as usize]
    }
}

/// Derives the key table from a decrypted key block: drops the prefix and
/// runs the key schedule over the seed that follows it.
pub fn convert_key_data(key_data: &Vec<u8>) -> (res: Result<KeyTable, DumpError>)
    ensures
        match res {
            Ok(table) => key_table_of_plaintext(key_data@) == Ok::<Seq<u8>, DumpError>(table@),
            Err(e) => key_table_of_plaintext(key_data@) == Err::<Seq<u8>, DumpError>(e),
        },
        res matches Ok(table) ==> is_permutation(table@),
{
    if key_data.len() <= KEY_PREFIX_LEN {
        return Err(DumpError::InvalidKeyMaterial);
    }
    let key_length: usize = key_data.len() - KEY_PREFIX_LEN;
    let ghost seed = key_data@.skip(KEY_PREFIX_LEN as int);

    let mut key_box: Vec<u8> = Vec::with_capacity(TABLE_LEN);
    let mut value: usize = 0;
    while value < TABLE_LEN
        invariant
            value <= TABLE_LEN,
            key_box@ == Seq::new(value as nat, |i: int| i as u8),
        decreases TABLE_LEN - value,
    {
        key_box.push(value as u8);
        value = value + 1;
    }

    let mut last_byte: u8 = 0;
    let mut key_offset: usize = 0;
    let mut i: usize = 0;
    while i < TABLE_LEN
        invariant
            i <= TABLE_LEN,
            key_data@.len() == key_length + KEY_PREFIX_LEN <= usize::MAX,
            key_length > 0,
            seed == key_data@.skip(KEY_PREFIX_LEN as int),
            key_offset == i as int % key_length as int,
            key_offset < key_length,
            key_box@.len() == TABLE_LEN,
            (Schedule { table: key_box@, last: last_byte as int }) == schedule_after(
                seed,
                i as nat,
            ),
        decreases TABLE_LEN - i,
    {
        let swap: u8 = key_box[i];
        let seed_byte: u8 = key_data[KEY_PREFIX_LEN + key_offset];
        let c: u8 = ((swap as u16 + last_byte as u16 + seed_byte as u16) % 256) as u8;
        proof {
            lemma_cyclic_successor(i as int, key_length as int);
        }
        key_offset = key_offset + 1;
        if key_offset >= key_length {
            key_offset = 0;
        }
        let moved: u8 = key_box[c as usize];
        key_box.set(i, moved);
        key_box.set(c as usize, swap);
        last_byte = c;
        i = i + 1;
    }

    proof {
        key_table_is_permutation(seed);
    }
    Ok(KeyTable { entries: key_box })
}

/// Reads the key block under the cursor and derives the key table from it.
///
/// The cursor moves past the block as soon as the block has been read,
/// whatever the block then turns out to hold; it stays where it was only if
/// the block runs past the end of the container.
pub fn read_key_data(file: &mut Reader) -> (res: Result<KeyTable, DumpError>)
    ensures
        match res {
            Ok(table) => {
                &&& key_table_at(old(file)@) == Ok::<Seq<u8>, DumpError>(table@)
                &&& is_permutation(table@)
            },
            Err(e) => key_table_at(old(file)@) == Err::<Seq<u8>, DumpError>(e),
        },
        final(file)@ == if old(file)@.has_block() {
            old(file)@.after_block()
        } else {
            old(file)@
        },
        !old(file)@.has_block() ==> (res matches Err(e) && e == DumpError::TruncatedInput),
{
    let mut key_data: Vec<u8> = match file.read_block() {
        Ok(block) => block,
        Err(e) => {
            return Err(e);
        },
    };
    unmask(&mut key_data, KEY_MASK);
    let key_data: Vec<u8> = match decrypt_block(&CORE_KEY, key_data.as_slice()) {
        Ok(plaintext) => plaintext,
        Err(e) => {
            return Err(e);
        },
    };
    convert_key_data(&key_data)
}

} // verus!
