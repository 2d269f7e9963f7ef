//! Primitive big-endian decoding over a sequential byte source.
//!
//! A [`ByteReader`] owns an immutable byte sequence and a position that only
//! successful reads advance. Every operation either returns exactly the
//! requested bytes or fails and leaves the reader unchanged.

use vstd::prelude::*;

use crate::error::DecodeError;

verus! {

/// The value of the two big-endian bytes of `b` starting at `p`.
pub open spec fn be16(b: Seq<u8>, p: int) -> int {
    b[p] * 0x100 + b[p + 1]
}

/// The value of the four big-endian bytes of `b` starting at `p`.
pub open spec fn be32(b: Seq<u8>, p: int) -> int {
    b[p] * 0x1000000 + b[p + 1] * 0x10000 + b[p + 2] * 0x100 + b[p + 3]
}

/// An exclusively-owned, position-advancing cursor over an immutable byte
/// sequence.
pub struct ByteReader {
    data: Vec<u8>,
    pos: usize,
}

impl ByteReader {
    /// The full underlying byte sequence; reads never change it.
    pub closed spec fn bytes(self) -> Seq<u8> {
        self.data@
    }

    /// The current cursor position.
    pub closed spec fn cursor(self) -> int {
        self.pos as int
    }

    /// Whether `n` more bytes are available at the cursor.
    pub open spec fn can_read(self, n: int) -> bool {
        self.cursor() + n <= self.bytes().len()
    }

    /// The cursor never sits before the start of the byte sequence.
    pub broadcast proof fn lemma_cursor_nonneg(self)
        ensures
            #[trigger] self.cursor() >= 0,
    {
    }

    pub fn new(data: Vec<u8>) -> (r: ByteReader)
        ensures
            r.bytes() == data@,
            r.cursor() == 0,
    {
        ByteReader { data, pos: 0 }
    }

    pub fn position(&self) -> (r: usize)
        ensures
            r as int == self.cursor(),
    {
        self.pos
    }

    pub fn remaining(&self) -> (r: usize)
        ensures
            r as int == if self.can_read(0) {
                self.bytes().len() - self.cursor()
            } else {
                0
            },
    {
        if self.pos <= self.data.len() {
            self.data.len() - self.pos
        } else {
            0
        }
    }

    pub fn stream_len(&self) -> (r: usize)
        ensures
            r == self.bytes().len(),
    {
        self.data.len()
    }

    /// Moves the cursor to an absolute position inside the byte sequence.
    pub fn seek(&mut self, pos: usize)
        requires
            pos <= old(self).bytes().len(),
        ensures
            final(self).bytes() == old(self).bytes(),
            final(self).cursor() == pos,
    {
        self.pos = pos;
    }

    /// Reads one byte.
    pub fn read_u8(&mut self) -> (r: Result<u8, DecodeError>)
        ensures
            final(self).bytes() == old(self).bytes(),
            r is Ok <==> old(self).can_read(1),
            r matches Ok(b) ==> b == old(self).bytes()[old(self).cursor()] && final(self).cursor()
                == old(self).cursor() + 1,
            r is Err ==> r == Err::<u8, DecodeError>(DecodeError::IoTruncated) && *final(self)
                == *old(self),
    {
        if self.pos < self.data.len() {
            let b = self.data[self.pos];
            self.pos = self.pos + 1;
            Ok(b)
        } else {
            Err(DecodeError::IoTruncated)
        }
    }

    /// Reads a 16-bit big-endian unsigned integer.
    pub fn read_u16(&mut self) -> (r: Result<u16, DecodeError>)
        ensures
            final(self).bytes() == old(self).bytes(),
            r is Ok <==> old(self).can_read(2),
            r matches Ok(v) ==> v == be16(old(self).bytes(), old(self).cursor()) && final(self).cursor() == old(self).cursor() + 2,
            r is Err ==> r == Err::<u16, DecodeError>(DecodeError::IoTruncated) && *final(self)
                == *old(self),
    {
        if self.pos < self.data.len() && self.data.len() - self.pos >= 2 {
            let b0 = self.data[self.pos];
            let b1 = self.data[self.pos + 1];
            self.pos = self.pos + 2;
            Ok((b0 as u16) * 0x100 + (b1 as u16))
        } else {
            Err(DecodeError::IoTruncated)
        }
    }

    /// Reads a 32-bit big-endian unsigned integer.
    pub fn read_u32(&mut self) -> (r: Result<u32, DecodeError>)
        ensures
            final(self).bytes() == old(self).bytes(),
            r is Ok <==> old(self).can_read(4),
            r matches Ok(v) ==> v == be32(old(self).bytes(), old(self).cursor()) && final(self).cursor() == old(self).cursor() + 4,
            r is Err ==> r == Err::<u32, DecodeError>(DecodeError::IoTruncated) && *final(self)
                == *old(self),
    {
        if self.pos < self.data.len() && self.data.len() - self.pos >= 4 {
            let b0 = self.data[self.pos];
            let b1 = self.data[self.pos + 1];
            let b2 = self.data[self.pos + 2];
            let b3 = self.data[self.pos + 3];
            self.pos = self.pos + 4;
            Ok((b0 as u32) * 0x1000000 + (b1 as u32) * 0x10000 + (b2 as u32) * 0x100 + (b3 as u32))
        } else {
            Err(DecodeError::IoTruncated)
        }
    }

    /// Reads exactly `limit` raw bytes.
    pub fn read_n(&mut self, limit: usize) -> (r: Result<Vec<u8>, DecodeError>)
        ensures
            final(self).bytes() == old(self).bytes(),
            r is Ok <==> old(self).can_read(limit as int),
            r matches Ok(v) ==> v@ == old(self).bytes().subrange(
                old(self).cursor(),
                old(self).cursor() + limit,
            ) && final(self).cursor() == old(self).cursor() + limit,
            r is Err ==> r == Err::<Vec<u8>, DecodeError>(DecodeError::IoTruncated) && *final(self)
                == *old(self),
    {
        if self.pos <= self.data.len() && self.data.len() - self.pos >= limit {
            let mut buf = Vec::<u8>::new();
            let mut i: usize = 0;
            while i < limit
                invariant
                    i <= limit,
                    self.pos + limit <= self.data.len(),
                    buf@ == self.data@.subrange(self.pos as int, self.pos + i),
                decreases limit - i,
            {
                buf.push(self.data[self.pos + i]);
                i = i + 1;
                proof {
                    assert(buf@ == self.data@.subrange(self.pos as int, self.pos + i));
                }
            }
            self.pos = self.pos + limit;
            Ok(buf)
        } else {
            Err(DecodeError::IoTruncated)
        }
    }

    /// Reads `length` bytes and decodes them as UTF-8 text.
    pub fn read_str(&mut self, length: usize) -> (r: Result<String, DecodeError>)
        ensures
            final(self).bytes() == old(self).bytes(),
            r is Ok <==> old(self).can_read(length as int) && vstd::utf8::valid_utf8(
                old(self).bytes().subrange(old(self).cursor(), old(self).cursor() + length),
            ),
            r matches Ok(s) ==> s@ == vstd::utf8::decode_utf8(
                old(self).bytes().subrange(old(self).cursor(), old(self).cursor() + length),
            ) && final(self).cursor() == old(self).cursor() + length,
            r is Err ==> final(self).cursor() == old(self).cursor(),
            r is Err ==> r == Err::<String, DecodeError>(
                if old(self).can_read(length as int) {
                    DecodeError::InvalidText
                } else {
                    DecodeError::IoTruncated
                },
            ),
    {
        let saved = self.pos;
        match self.read_n(length) {
            Ok(buf) => {
                match vec_to_utf8_string(buf) {
                    Some(s) => Ok(s),
                    None => {
                        self.pos = saved;
                        Err(DecodeError::InvalidText)
                    },
                }
            },
            Err(e) => Err(e),
        }
    }
}

/// Relies on `String::from_utf8`: it succeeds exactly on input that is valid
/// UTF-8, and then returns the decoding of that input.
#[verifier::external_body]
fn vec_to_utf8_string(bytes: Vec<u8>) -> (r: Option<String>)
    ensures
        r is Some <==> vstd::utf8::valid_utf8(bytes@),
        r matches Some(s) ==> s@ == vstd::utf8::decode_utf8(bytes@),
{
    match String::from_utf8(bytes) {
        Ok(s) => Some(s),
        Err(_) => None,
    }
}

} // verus!
