//! A forward-only cursor over a fully buffered byte source: the sole
//! primitive every decoder reads through.
//!
//! Each read either consumes exactly the bytes it names, or fails with
//! [`NetCDFError::IOError`] leaving the cursor where it was; a failed
//! read never consumes part of its bytes.

use vstd::prelude::*;

use crate::grammar::{be16, be32, be64};
use crate::netcdf::NetCDFError;

verus! {

/// A position into an immutable byte buffer. `pos` never exceeds the
/// buffer's length.
pub struct ByteCursor {
    pub data: Vec<u8>,
    pub pos: usize,
}

impl ByteCursor {
    /// The cursor is inside its buffer.
    pub open spec fn wf(&self) -> bool {
        self.pos <= self.data@.len()
    }

    /// A cursor at the start of `data`.
    pub fn new(data: Vec<u8>) -> (c: ByteCursor)
        ensures
            c.wf(),
            c.data@ == data@,
            c.pos == 0,
    {
        ByteCursor { data, pos: 0 }
    }

    /// How many bytes are left to read.
    pub fn remaining(&self) -> (r: usize)
        requires
            self.wf(),
        ensures
            r == self.data@.len() - self.pos,
    {
        self.data.len() - self.pos
    }

    /// Reads one byte.
    pub fn read_u8(&mut self) -> (r: Result<u8, NetCDFError>)
        requires
            old(self).wf(),
        ensures
            final(self).wf(),
            final(self).data@ == old(self).data@,
            (match r {
                Ok(b) => old(self).pos + 1 <= old(self).data@.len() && b == old(self).data@[old(self).pos as int] && final(self).pos == old(self).pos + 1,
                Err(e) => old(self).pos + 1 > old(self).data@.len() && e@ is IOError && final(self).pos == old(self).pos,
            }),
    {
        if self.pos < self.data.len() {
            let b = self.data[self.pos];
            self.pos = self.pos + 1;
            Ok(b)
        } else {
            Err(NetCDFError::IOError)
        }
    }

    /// Reads a 2-byte big-endian unsigned value.
    pub fn read_u16(&mut self) -> (r: Result<u16, NetCDFError>)
        requires
            old(self).wf(),
        ensures
            final(self).wf(),
            final(self).data@ == old(self).data@,
            (match r {
                Ok(v) => old(self).pos + 2 <= old(self).data@.len() && v == be16(old(self).data@, old(self).pos as int) && final(self).pos == old(self).pos + 2,
                Err(e) => old(self).pos + 2 > old(self).data@.len() && e@ is IOError && final(self).pos == old(self).pos,
            }),
    {
        if self.data.len() - self.pos >= 2 {
            let b0 = self.data[self.pos];
            let b1 = self.data[self.pos + 1];
            self.pos = self.pos + 2;
            Ok((b0 as u16) * 0x100 + (b1 as u16))
        } else {
            Err(NetCDFError::IOError)
        }
    }

    /// Reads a 4-byte big-endian unsigned value: the shape of every
    /// marker, count and tag read.
    pub fn read_u32(&mut self) -> (r: Result<u32, NetCDFError>)
        requires
            old(self).wf(),
        ensures
            final(self).wf(),
            final(self).data@ == old(self).data@,
            (match r {
                Ok(v) => old(self).pos + 4 <= old(self).data@.len() && v == be32(old(self).data@, old(self).pos as int) && final(self).pos == old(self).pos + 4,
                Err(e) => old(self).pos + 4 > old(self).data@.len() && e@ is IOError && final(self).pos == old(self).pos,
            }),
    {
        if self.data.len() - self.pos >= 4 {
            let b0 = self.data[self.pos];
            let b1 = self.data[self.pos + 1];
            let b2 = self.data[self.pos + 2];
            let b3 = self.data[self.pos + 3];
            self.pos = self.pos + 4;
            Ok((b0 as u32) * 0x100_0000 + (b1 as u32) * 0x1_0000 + (b2 as u32) * 0x100 + (
            b3 as u32))
        } else {
            Err(NetCDFError::IOError)
        }
    }

    /// Reads an 8-byte big-endian unsigned value.
    pub fn read_u64(&mut self) -> (r: Result<u64, NetCDFError>)
        requires
            old(self).wf(),
        ensures
            final(self).wf(),
            final(self).data@ == old(self).data@,
            (match r {
                Ok(v) => old(self).pos + 8 <= old(self).data@.len() && v == be64(old(self).data@, old(self).pos as int) && final(self).pos == old(self).pos + 8,
                Err(e) => old(self).pos + 8 > old(self).data@.len() && e@ is IOError && final(self).pos == old(self).pos,
            }),
    {
        let hi = match self.read_u32() {
            Ok(v) => v,
            Err(e) => {
                return Err(e);
            },
        };
        match self.read_u32() {
            Ok(lo) => Ok((hi as u64) * 0x1_0000_0000 + (lo as u64)),
            Err(e) => {
                // undo the first half so that a failed read consumes nothing
                self.pos = self.pos - 4;
                Err(e)
            },
        }
    }

    /// Reads exactly `n` bytes into a fresh vector.
    pub fn read_bytes(&mut self, n: usize) -> (r: Result<Vec<u8>, NetCDFError>)
        requires
            old(self).wf(),
        ensures
            final(self).wf(),
            final(self).data@ == old(self).data@,
            (match r {
                Ok(v) => old(self).pos + n <= old(self).data@.len() && v@ == old(self).data@.subrange(old(self).pos as int, old(self).pos + n) && final(self).pos == old(self).pos + n,
                Err(e) => old(self).pos + n > old(self).data@.len() && e@ is IOError && final(self).pos == old(self).pos,
            }),
    {
        if n <= self.data.len() - self.pos {
            let mut v: Vec<u8> = Vec::new();
            let mut i: usize = 0;
            while i < n
                invariant
                    self.wf(),
                    i <= n,
                    self.pos + n <= self.data@.len(),
                    self.data@.len() <= usize::MAX,
                    v@ == self.data@.subrange(self.pos as int, self.pos + i),
                decreases n - i,
            {
                v.push(self.data[self.pos + i]);
                proof {
                    assert(v@ =~= self.data@.subrange(self.pos as int, self.pos + i + 1));
                }
                i = i + 1;
            }
            self.pos = self.pos + n;
            Ok(v)
        } else {
            Err(NetCDFError::IOError)
        }
    }

    /// Skips exactly `n` bytes without copying them; used to pass over
    /// fill bytes.
    pub fn skip(&mut self, n: usize) -> (r: Result<(), NetCDFError>)
        requires
            old(self).wf(),
        ensures
            final(self).wf(),
            final(self).data@ == old(self).data@,
            (match r {
                Ok(u) => old(self).pos + n <= old(self).data@.len() && final(self).pos == old(self).pos + n,
                Err(e) => old(self).pos + n > old(self).data@.len() && e@ is IOError && final(self).pos == old(self).pos,
            }),
    {
        if n <= self.data.len() - self.pos {
            self.pos = self.pos + n;
            Ok(())
        } else {
            Err(NetCDFError::IOError)
        }
    }
}

} // verus!
