//! A forward-only cursor over the bytes of one container.
//!
//! Every operation of the reader either succeeds and advances the cursor
//! past what it consumed, or fails with [`DumpError::TruncatedInput`] and
//! leaves the cursor where it was. A function that chains several
//! operations leaves the cursor behind the last one that succeeded.

use crate::error::DumpError;
use vstd::prelude::*;
use vstd::slice::{slice_subrange, slice_to_vec};

verus! {

/// Value of four bytes read as an unsigned little-endian integer.
pub open spec fn u32_le(bytes: Seq<u8>) -> int
    recommends
        bytes.len() == 4,
{
    bytes[0] + 0x100 * bytes[1] + 0x1_0000 * bytes[2] + 0x100_0000 * bytes[3]
}

/// The mathematical state of a [`Reader`]: the whole container and the offset
/// of the next unread byte.
pub struct Cursor {
    pub data: Seq<u8>,
    pub pos: int,
}

impl Cursor {
    /// Number of unread bytes.
    pub open spec fn remaining(self) -> int {
        self.data.len() - self.pos
    }

    /// Whether `n` more bytes can be consumed.
    pub open spec fn holds(self, n: int) -> bool {
        0 <= n <= self.remaining()
    }

    /// The next `n` unread bytes.
    pub open spec fn peek(self, n: int) -> Seq<u8> {
        self.data.subrange(self.pos, self.pos + n)
    }

    /// The cursor after consuming `n` bytes.
    pub open spec fn advance(self, n: int) -> Cursor {
        Cursor { data: self.data, pos: self.pos + n }
    }

    /// Everything from the cursor to the end of the container.
    pub open spec fn rest(self) -> Seq<u8> {
        self.data.skip(self.pos)
    }

    /// The cursor moved to the end of the container.
    pub open spec fn at_end(self) -> Cursor {
        Cursor { data: self.data, pos: self.data.len() as int }
    }

    /// The four bytes under the cursor, read as a little-endian integer.
    pub open spec fn next_u32_le(self) -> int {
        u32_le(self.peek(4))
    }

    /// Whether a length-prefixed block starts at the cursor and lies wholly
    /// inside the container.
    pub open spec fn has_block(self) -> bool {
        self.holds(4) && self.holds(4 + self.next_u32_le())
    }

    /// Body of the length-prefixed block that starts at the cursor.
    pub open spec fn block(self) -> Seq<u8> {
        self.advance(4).peek(self.next_u32_le())
    }

    /// The cursor after the length-prefixed block that starts at it.
    pub open spec fn after_block(self) -> Cursor {
        self.advance(4 + self.next_u32_le())
    }
}

/// Sequential reader over a container held in memory.
#[derive(Clone, Copy, Debug)]
pub struct Reader<'a> {
    data: &'a [u8],
    pos: usize,
}

impl<'a> View for Reader<'a> {
    type V = Cursor;

    closed spec fn view(&self) -> Cursor {
        Cursor { data: self.data@, pos: self.pos as int }
    }
}

impl<'a> Reader<'a> {
    #[verifier::type_invariant]
    spec fn in_bounds(self) -> bool {
        self.pos <= self.data@.len()
    }

    /// Starts reading `data` at its first byte.
    pub fn new(data: &'a [u8]) -> (reader: Self)
        ensures
            reader@ == (Cursor { data: data@, pos: 0 }),
    {
        Reader { data, pos: 0 }
    }

    /// Offset of the next unread byte.
    pub fn position(&self) -> (pos: usize)
        ensures
            pos == self@.pos,
            0 <= self@.pos <= self@.data.len(),
    {
        proof {
            use_type_invariant(self);
        }
        self.pos
    }

    /// Number of unread bytes.
    pub fn remaining(&self) -> (n: usize)
        ensures
            n == self@.remaining(),
    {
        proof {
            use_type_invariant(self);
        }
        self.data.len() - self.pos
    }

    /// Returns the next `n` bytes and moves past them.
    pub fn read_exact(&mut self, n: usize) -> (res: Result<Vec<u8>, DumpError>)
        ensures
            match res {
                Ok(bytes) => {
                    &&& old(self)@.holds(n as int)
                    &&& bytes@ == old(self)@.peek(n as int)
                    &&& final(self)@ == old(self)@.advance(n as int)
                },
                Err(e) => {
                    &&& !old(self)@.holds(n as int)
                    &&& e == DumpError::TruncatedInput
                    &&& final(self)@ == old(self)@
                },
            },
    {
        proof {
            use_type_invariant(&*self);
        }
        if n > self.data.len() - self.pos {
            return Err(DumpError::TruncatedInput);
        }
        let bytes = slice_to_vec(slice_subrange(self.data, self.pos, self.pos + n));
        self.pos = self.pos + n;
        Ok(bytes)
    }

    /// Reads four bytes as an unsigned little-endian integer.
    pub fn read_u32_le(&mut self) -> (res: Result<u32, DumpError>)
        ensures
            match res {
                Ok(value) => {
                    &&& old(self)@.holds(4)
                    &&& value == old(self)@.next_u32_le()
                    &&& final(self)@ == old(self)@.advance(4)
                },
                Err(e) => {
                    &&& !old(self)@.holds(4)
                    &&& e == DumpError::TruncatedInput
                    &&& final(self)@ == old(self)@
                },
            },
    {
        proof {
            use_type_invariant(&*self);
        }
        if 4 > self.data.len() - self.pos {
            return Err(DumpError::TruncatedInput);
        }
        let b0: u32 = self.data[self.pos] as u32;
        let b1: u32 = self.data[self.pos + 1] as u32;
        let b2: u32 = self.data[self.pos + 2] as u32;
        let b3: u32 = self.data[self.pos + 3] as u32;
        self.pos = self.pos + 4;
        Ok(b0 + 0x100 * b1 + 0x1_0000 * b2 + 0x100_0000 * b3)
    }

    /// Moves forward by `n` bytes without looking at them.
    pub fn skip(&mut self, n: usize) -> (res: Result<(), DumpError>)
        ensures
            match res {
                Ok(_) => old(self)@.holds(n as int) && final(self)@ == old(self)@.advance(n as int),
                Err(e) => {
                    &&& !old(self)@.holds(n as int)
                    &&& e == DumpError::TruncatedInput
                    &&& final(self)@ == old(self)@
                },
            },
    {
        proof {
            use_type_invariant(&*self);
        }
        if n > self.data.len() - self.pos {
            return Err(DumpError::TruncatedInput);
        }
        self.pos = self.pos + n;
        Ok(())
    }

    /// Reads a block made of a little-endian length and that many bytes, and
    /// returns the bytes.
    pub fn read_block(&mut self) -> (res: Result<Vec<u8>, DumpError>)
        ensures
            match res {
                Ok(bytes) => {
                    &&& old(self)@.has_block()
                    &&& bytes@ == old(self)@.block()
                    &&& final(self)@ == old(self)@.after_block()
                },
                Err(e) => {
                    &&& !old(self)@.has_block()
                    &&& e == DumpError::TruncatedInput
                    &&& final(self)@ == old(self)@
                },
            },
    {
        let mut ahead: Reader<'a> = *self;
        let length: u32 = match ahead.read_u32_le() {
            Ok(length) => length,
            Err(e) => {
                return Err(e);
            },
        };
        let bytes = match ahead.read_exact(length as usize) {
            Ok(bytes) => bytes,
            Err(e) => {
                return Err(e);
            },
        };
        *self = ahead;
        Ok(bytes)
    }

    /// Returns every unread byte and moves to the end of the container.
    pub fn read_rest(&mut self) -> (bytes: Vec<u8>)
        ensures
            bytes@ == old(self)@.rest(),
            final(self)@ == old(self)@.at_end(),
    {
        proof {
            use_type_invariant(&*self);
        }
        let bytes = slice_to_vec(slice_subrange(self.data, self.pos, self.data.len()));
        self.pos = self.data.len();
        bytes
    }
}

} // verus!
