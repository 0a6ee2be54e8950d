//! The container as a whole: signature, key block, metadata block, reserved
//! bytes, cover image and payload, in that order.

use crate::descramble::{descramble, descrambled, CHUNK_LEN};
use crate::error::DumpError;
use crate::key_table::{key_table_at, read_key_data};
use crate::metadata::{format_at, read_meta_data};
use crate::reader::{Cursor, Reader};
use vstd::prelude::*;

verus! {

/// The eight bytes that every container starts with.
pub const MAGIC: [u8; 8] = [0x43, 0x54, 0x45, 0x4e, 0x46, 0x44, 0x41, 0x4d];

/// Number of bytes that the signature takes.
pub const MAGIC_LEN: usize = 8;

/// Number of bytes between the signature and the key block; nothing is read
/// from them.
pub const HEADER_GAP_LEN: usize = 2;

/// Number of bytes that the checksum takes.
pub const CHECKSUM_LEN: usize = 4;

/// Number of bytes between the checksum and the cover image; nothing is read
/// from them.
pub const CHECKSUM_GAP_LEN: usize = 5;

/// The cursor at the key block of a container, or the reason the container
/// is refused: it must start with the signature and hold the two bytes that
/// follow it.
pub open spec fn header_of(data: Seq<u8>) -> Result<Cursor, DumpError> {
    if data.len() < MAGIC_LEN {
        Err(DumpError::TruncatedInput)
    } else if data.subrange(0, MAGIC_LEN as int) != MAGIC@ {
        Err(DumpError::InvalidFormat)
    } else if data.len() < MAGIC_LEN + HEADER_GAP_LEN {
        Err(DumpError::TruncatedInput)
    } else {
        Ok(Cursor { data, pos: MAGIC_LEN + HEADER_GAP_LEN })
    }
}

/// Whether a checksum and the bytes after it lie under the cursor.
pub open spec fn has_checksum(cursor: Cursor) -> bool {
    cursor.holds(CHECKSUM_LEN + CHECKSUM_GAP_LEN)
}

/// The cursor after the checksum and the bytes that follow it.
pub open spec fn after_checksum(cursor: Cursor) -> Cursor {
    cursor.advance(CHECKSUM_LEN + CHECKSUM_GAP_LEN)
}

/// The cursor after an attempt to read the checksum and to skip the bytes
/// that follow it: past whatever of the two was there in full.
pub open spec fn checksum_end(cursor: Cursor) -> Cursor {
    if has_checksum(cursor) {
        after_checksum(cursor)
    } else if cursor.holds(CHECKSUM_LEN as int) {
        cursor.advance(CHECKSUM_LEN as int)
    } else {
        cursor
    }
}

/// The cursor at the first byte of the payload, for a cursor that stands
/// after the metadata block; `None` where the checksum or the cover image
/// runs past the end of the container.
pub open spec fn music_start(cursor: Cursor) -> Option<Cursor> {
    if has_checksum(cursor) && after_checksum(cursor).has_block() {
        Some(after_checksum(cursor).after_block())
    } else {
        None
    }
}

/// The cursor after an attempt to move to the payload: past the checksum
/// bytes, the length of the cover image and the cover image itself, as far
/// as each of the three was there in full.
pub open spec fn music_seek_end(cursor: Cursor) -> Cursor {
    if !has_checksum(cursor) {
        cursor
    } else if !after_checksum(cursor).holds(4) {
        after_checksum(cursor)
    } else if !after_checksum(cursor).has_block() {
        after_checksum(cursor).advance(4)
    } else {
        after_checksum(cursor).after_block()
    }
}

/// What a container holds once it is decoded: the audio format, which names
/// the extension of the file to write, and the audio bytes.
pub open spec fn dump_of(data: Seq<u8>) -> Result<(Seq<char>, Seq<u8>), DumpError> {
    match header_of(data) {
        Err(e) => Err(e),
        Ok(keys) => match key_table_at(keys) {
            Err(e) => Err(e),
            Ok(table) => match format_at(keys.after_block()) {
                Err(e) => Err(e),
                Ok(format) => match music_start(keys.after_block().after_block()) {
                    None => Err(DumpError::TruncatedInput),
                    Some(music) => Ok((format, descrambled(table, music.rest(), CHUNK_LEN as int))),
                },
            },
        },
    }
}

/// A decoded container.
#[derive(Clone, Debug)]
pub struct Dump {
    /// Extension of the file that the audio belongs in, without a dot.
    pub extension: String,
    /// The audio stream.
    pub audio: Vec<u8>,
}

impl View for Dump {
    type V = (Seq<char>, Seq<u8>);

    open spec fn view(&self) -> (Seq<char>, Seq<u8>) {
        (self.extension@, self.audio@)
    }
}

fn is_magic(header: &Vec<u8>) -> (same: bool)
    ensures
        same == (header@ == MAGIC@),
{
    if header.len() != MAGIC_LEN {
        return false;
    }
    let mut i: usize = 0;
    while i < MAGIC_LEN
        invariant
            i <= MAGIC_LEN,
            header@.len() == MAGIC_LEN,
            forall|p: int| 0 <= p < i ==> header@[p] == MAGIC@[p],
        decreases MAGIC_LEN - i,
    {
        if header[i] != MAGIC[i] {
            return false;
        }
        i = i + 1;
    }
    assert(header@ =~= MAGIC@);
    true
}

/// Checks the signature of a container and returns a reader that stands at
/// its key block.
pub fn read_ncm(data: &[u8]) -> (res: Result<Reader<'_>, DumpError>)
    ensures
        match res {
            Ok(file) => header_of(data@) == Ok::<Cursor, DumpError>(file@),
            Err(e) => header_of(data@) == Err::<Cursor, DumpError>(e),
        },
        data@.len() >= MAGIC_LEN && data@.subrange(0, MAGIC_LEN as int) != MAGIC@ ==> (res
            matches Err(e) && e == DumpError::InvalidFormat),
{
    let mut file = Reader::new(data);
    let header: Vec<u8> = match file.read_exact(MAGIC_LEN) {
        Ok(header) => header,
        Err(e) => {
            return Err(e);
        },
    };
    if !is_magic(&header) {
        return Err(DumpError::InvalidFormat);
    }
    match file.skip(HEADER_GAP_LEN) {
        Ok(_) => Ok(file),
        Err(e) => Err(e),
    }
}

/// Reads the checksum under the cursor and moves past it and the bytes that
/// follow it. Where those bytes are missing, the cursor stays behind the
/// checksum that was read.
pub fn read_crc32(file: &mut Reader) -> (res: Result<u32, DumpError>)
    ensures
        match res {
            Ok(crc32) => has_checksum(old(file)@) && crc32 == old(file)@.next_u32_le(),
            Err(e) => !has_checksum(old(file)@) && e == DumpError::TruncatedInput,
        },
        final(file)@ == checksum_end(old(file)@),
{
    let crc32: u32 = match file.read_u32_le() {
        Ok(crc32) => crc32,
        Err(e) => {
            return Err(e);
        },
    };
    match file.skip(CHECKSUM_GAP_LEN) {
        Ok(_) => Ok(crc32),
        Err(e) => Err(e),
    }
}

/// Reads the cover image under the cursor: a length-prefixed block.
pub fn read_image_data(file: &mut Reader) -> (res: Result<Vec<u8>, DumpError>)
    ensures
        match res {
            Ok(image) => {
                &&& old(file)@.has_block()
                &&& image@ == old(file)@.block()
                &&& final(file)@ == old(file)@.after_block()
            },
            Err(e) => {
                &&& !old(file)@.has_block()
                &&& e == DumpError::TruncatedInput
                &&& final(file)@ == old(file)@
            },
        },
{
    file.read_block()
}

/// Moves from the end of the metadata block to the first byte of the
/// payload, over the checksum and the cover image, reading neither. Where
/// the container ends too early, the cursor stays behind what was there in
/// full.
pub fn seek_to_music(file: &mut Reader) -> (res: Result<(), DumpError>)
    ensures
        match res {
            Ok(_) => music_start(old(file)@) == Some(final(file)@),
            Err(e) => music_start(old(file)@) is None && e == DumpError::TruncatedInput,
        },
        final(file)@ == music_seek_end(old(file)@),
{
    match file.skip(CHECKSUM_LEN + CHECKSUM_GAP_LEN) {
        Ok(_) => {},
        Err(e) => {
            return Err(e);
        },
    }
    let image_size: u32 = match file.read_u32_le() {
        Ok(image_size) => image_size,
        Err(e) => {
            return Err(e);
        },
    };
    file.skip(image_size as usize)
}

/// Decodes a container held in memory: derives its key table, reads its
/// metadata, finds its payload and descrambles it.
pub fn dump_file(data: &[u8]) -> (res: Result<Dump, DumpError>)
    ensures
        match res {
            Ok(dump) => dump_of(data@) == Ok::<(Seq<char>, Seq<u8>), DumpError>(dump@),
            Err(e) => dump_of(data@) == Err::<(Seq<char>, Seq<u8>), DumpError>(e),
        },
        data@.len() >= MAGIC_LEN && data@.subrange(0, MAGIC_LEN as int) != MAGIC@ ==> (res
            matches Err(e) && e == DumpError::InvalidFormat),
        header_of(data@) matches Ok(keys) && !keys.has_block() ==> (res matches Err(e) && e
            == DumpError::TruncatedInput),
{
    let mut file = match read_ncm(data) {
        Ok(file) => file,
        Err(e) => {
            return Err(e);
        },
    };
    let key_data = match read_key_data(&mut file) {
        Ok(key_data) => key_data,
        Err(e) => {
            return Err(e);
        },
    };
    let meta_data = match read_meta_data(&mut file) {
        Ok(meta_data) => meta_data,
        Err(e) => {
            return Err(e);
        },
    };
    match seek_to_music(&mut file) {
        Ok(_) => {},
        Err(e) => {
            return Err(e);
        },
    }
    let payload: Vec<u8> = file.read_rest();
    let audio: Vec<u8> = descramble(&key_data, payload.as_slice());
    Ok(Dump { extension: meta_data.format, audio })
}

} // verus!
