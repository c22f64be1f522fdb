//! A read cursor over an owned byte buffer, with big-endian integer readers.
use vstd::prelude::*;

use crate::error::IoError;

verus! {

/// The big-endian value of the first two bytes of `s`.
pub open spec fn be16(s: Seq<u8>) -> nat {
    s[0] as nat * 0x100 + s[1] as nat
}

/// The big-endian value of the first three bytes of `s`.
pub open spec fn be24(s: Seq<u8>) -> nat {
    s[0] as nat * 0x1_0000 + s[1] as nat * 0x100 + s[2] as nat
}

/// The big-endian value of the first four bytes of `s`.
pub open spec fn be32(s: Seq<u8>) -> nat {
    s[0] as nat * 0x100_0000 + s[1] as nat * 0x1_0000 + s[2] as nat * 0x100 + s[3] as nat
}

/// The big-endian value of the first eight bytes of `s`.
pub open spec fn be64(s: Seq<u8>) -> nat {
    be32(s) * 0x1_0000_0000 + be32(s.subrange(4, 8))
}

/// The signed 24-bit big-endian value (two's complement) of the first three bytes of `s`.
pub open spec fn be_i24(s: Seq<u8>) -> int {
    if be24(s) >= 0x80_0000 {
        be24(s) - 0x100_0000
    } else {
        be24(s) as int
    }
}

/// A cursor over a byte buffer: reads advance the position, and a read that needs more bytes
/// than remain fails with [`IoError::UnexpectedEof`] and leaves the position where it was.
pub struct ByteCursor {
    /// The whole buffer.
    pub data: Vec<u8>,
    /// The number of bytes read so far.
    pub pos: usize,
}

impl ByteCursor {
    pub open spec fn wf(&self) -> bool {
        self.pos <= self.data.len()
    }

    /// The bytes that remain to be read.
    pub open spec fn rest(&self) -> Seq<u8> {
        self.data@.subrange(self.pos as int, self.data.len() as int)
    }

    /// A read consumed `n` bytes: the buffer is the same and the position moved by `n`.
    pub open spec fn advanced(&self, old: &ByteCursor, n: int) -> bool {
        &&& self.wf()
        &&& self.data@ == old.data@
        &&& self.pos == old.pos + n
    }

    /// Creates a cursor at the start of `data`.
    pub fn new(data: Vec<u8>) -> (r: Self)
        ensures
            r.wf(),
            r.data@ == data@,
            r.pos == 0,
            r.rest() == data@,
    {
        let r = ByteCursor { data, pos: 0 };
        assert(r.rest() =~= data@);
        r
    }

    /// The current position.
    pub fn position(&self) -> (r: usize)
        ensures
            r == self.pos,
    {
        self.pos
    }

    /// The number of bytes that remain.
    pub fn remaining(&self) -> (r: usize)
        requires
            self.wf(),
        ensures
            r == self.rest().len(),
    {
        self.data.len() - self.pos
    }

    /// Whether any byte remains.
    pub fn has_remaining(&self) -> (r: bool)
        requires
            self.wf(),
        ensures
            r == (self.rest().len() > 0),
    {
        self.pos < self.data.len()
    }

    /// Reads one byte.
    pub fn read_u8(&mut self) -> (r: Result<u8, IoError>)
        requires
            old(self).wf(),
        ensures
            match r {
                Ok(v) => old(self).rest().len() >= 1 && v == old(self).rest()[0] && final(self).advanced(old(self), 1),
                Err(e) => e == IoError::UnexpectedEof && old(self).rest().len() < 1 && *final(self) == *old(self),
            },
    {
        if self.pos >= self.data.len() {
            return Err(IoError::UnexpectedEof);
        }
        let v = self.data[self.pos];
        self.pos = self.pos + 1;
        Ok(v)
    }

    /// Returns the next byte without consuming it.
    pub fn peek_u8(&self) -> (r: Result<u8, IoError>)
        requires
            self.wf(),
        ensures
            match r {
                Ok(v) => self.rest().len() >= 1 && v == self.rest()[0],
                Err(e) => e == IoError::UnexpectedEof && self.rest().len() < 1,
            },
    {
        if self.pos >= self.data.len() {
            return Err(IoError::UnexpectedEof);
        }
        Ok(self.data[self.pos])
    }

    /// Reads a big-endian 16-bit number.
    pub fn read_u16_be(&mut self) -> (r: Result<u16, IoError>)
        requires
            old(self).wf(),
        ensures
            match r {
                Ok(v) => old(self).rest().len() >= 2 && v == be16(old(self).rest()) && final(self).advanced(old(self), 2),
                Err(e) => e == IoError::UnexpectedEof && old(self).rest().len() < 2 && *final(self) == *old(self),
            },
    {
        if self.data.len() - self.pos < 2 {
            return Err(IoError::UnexpectedEof);
        }
        let p = self.pos;
        let v = (self.data[p] as u16) * 0x100 + (self.data[p + 1] as u16);
        self.pos = p + 2;
        Ok(v)
    }

    /// Reads a big-endian 24-bit number.
    pub fn read_u24_be(&mut self) -> (r: Result<u32, IoError>)
        requires
            old(self).wf(),
        ensures
            match r {
                Ok(v) => old(self).rest().len() >= 3 && v == be24(old(self).rest()) && final(self).advanced(old(self), 3),
                Err(e) => e == IoError::UnexpectedEof && old(self).rest().len() < 3 && *final(self) == *old(self),
            },
    {
        if self.data.len() - self.pos < 3 {
            return Err(IoError::UnexpectedEof);
        }
        let p = self.pos;
        let v = (self.data[p] as u32) * 0x1_0000 + (self.data[p + 1] as u32) * 0x100 + (self.data[p
            + 2] as u32);
        self.pos = p + 3;
        Ok(v)
    }

    /// Reads a big-endian signed 24-bit number (two's complement).
    pub fn read_i24_be(&mut self) -> (r: Result<i32, IoError>)
        requires
            old(self).wf(),
        ensures
            match r {
                Ok(v) => old(self).rest().len() >= 3 && v == be_i24(old(self).rest()) && final(self).advanced(old(self), 3),
                Err(e) => e == IoError::UnexpectedEof && old(self).rest().len() < 3 && *final(self) == *old(self),
            },
    {
        let u = self.read_u24_be()?;
        if u >= 0x80_0000 {
            Ok((u as i32) - 0x100_0000)
        } else {
            Ok(u as i32)
        }
    }

    /// Reads a big-endian 32-bit number.
    pub fn read_u32_be(&mut self) -> (r: Result<u32, IoError>)
        requires
            old(self).wf(),
        ensures
            match r {
                Ok(v) => old(self).rest().len() >= 4 && v == be32(old(self).rest()) && final(self).advanced(old(self), 4),
                Err(e) => e == IoError::UnexpectedEof && old(self).rest().len() < 4 && *final(self) == *old(self),
            },
    {
        if self.data.len() - self.pos < 4 {
            return Err(IoError::UnexpectedEof);
        }
        let p = self.pos;
        let v = (self.data[p] as u32) * 0x100_0000 + (self.data[p + 1] as u32) * 0x1_0000 + (
        self.data[p + 2] as u32) * 0x100 + (self.data[p + 3] as u32);
        self.pos = p + 4;
        Ok(v)
    }

    /// Reads a big-endian 64-bit number.
    pub fn read_u64_be(&mut self) -> (r: Result<u64, IoError>)
        requires
            old(self).wf(),
        ensures
            match r {
                Ok(v) => old(self).rest().len() >= 8 && v == be64(old(self).rest()) && final(self).advanced(old(self), 8),
                Err(e) => e == IoError::UnexpectedEof && old(self).rest().len() < 8 && *final(self) == *old(self),
            },
    {
        if self.data.len() - self.pos < 8 {
            return Err(IoError::UnexpectedEof);
        }
        let ghost start = *self;
        let hi = self.read_u32_be()?;
        let lo = self.read_u32_be()?;
        assert(start.rest().subrange(4, 8) =~= self.data@.subrange(start.pos + 4, start.pos + 8));
        assert(be32(start.rest().subrange(4, 8)) == be32(
            self.data@.subrange(start.pos + 4, self.data.len() as int),
        ));
        Ok((hi as u64) * 0x1_0000_0000 + (lo as u64))
    }

    /// Reads four bytes.
    pub fn read_array4(&mut self) -> (r: Result<[u8; 4], IoError>)
        requires
            old(self).wf(),
        ensures
            match r {
                Ok(v) => old(self).rest().len() >= 4 && v@ == old(self).rest().subrange(0, 4)
                    && final(self).advanced(old(self), 4),
                Err(e) => e == IoError::UnexpectedEof && old(self).rest().len() < 4 && *final(self) == *old(self),
            },
    {
        if self.data.len() - self.pos < 4 {
            return Err(IoError::UnexpectedEof);
        }
        let p = self.pos;
        let v = [self.data[p], self.data[p + 1], self.data[p + 2], self.data[p + 3]];
        self.pos = p + 4;
        assert(v@ =~= old(self).rest().subrange(0, 4));
        Ok(v)
    }

    /// Takes the next `n` bytes.
    pub fn extract_bytes(&mut self, n: usize) -> (r: Result<Vec<u8>, IoError>)
        requires
            old(self).wf(),
        ensures
            match r {
                Ok(v) => old(self).rest().len() >= n && v@ == old(self).rest().subrange(0, n as int)
                    && final(self).advanced(old(self), n as int),
                Err(e) => e == IoError::UnexpectedEof && old(self).rest().len() < n && *final(self) == *old(self),
            },
    {
        if self.data.len() - self.pos < n {
            return Err(IoError::UnexpectedEof);
        }
        let mut v: Vec<u8> = Vec::with_capacity(n);
        let start = self.pos;
        let mut i: usize = 0;
        while i < n
            invariant
                self.wf(),
                self.data@ == old(self).data@,
                self.pos == start == old(self).pos,
                start + n <= self.data.len(),
                i <= n,
                v@ == self.data@.subrange(start as int, start + i),
            decreases n - i,
        {
            v.push(self.data[start + i]);
            i = i + 1;
            assert(v@ =~= self.data@.subrange(start as int, start + i));
        }
        self.pos = start + n;
        assert(v@ =~= old(self).rest().subrange(0, n as int));
        Ok(v)
    }

    /// Takes all remaining bytes.
    pub fn extract_remaining(&mut self) -> (r: Vec<u8>)
        requires
            old(self).wf(),
        ensures
            r@ == old(self).rest(),
            final(self).advanced(old(self), old(self).rest().len() as int),
    {
        let n = self.data.len() - self.pos;
        match self.extract_bytes(n) {
            Ok(v) => {
                assert(old(self).rest().subrange(0, n as int) =~= old(self).rest());
                v
            },
            Err(_) => Vec::new(),
        }
    }
}

} // verus!
