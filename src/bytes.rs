use vstd::prelude::*;

use crate::error::ReadError;

verus! {

/// The unsigned integer whose little-endian encoding is `s`.
pub open spec fn le_value(s: Seq<u8>) -> nat
    decreases s.len(),
{
    if s.len() == 0 {
        0
    } else {
        s[0] as nat + 256 * le_value(s.drop_first())
    }
}

/// Relies on byteorder's `LittleEndian::read_uint`: the first `nbytes` bytes of
/// `buf` read as a little-endian unsigned integer. It panics unless
/// `1 <= nbytes <= 8` and `nbytes <= buf.len()`.
#[verifier::external_body]
fn read_le_uint(buf: &[u8], nbytes: usize) -> (r: u64)
    requires
        1 <= nbytes <= 8,
        nbytes <= buf@.len(),
    ensures
        r as nat == le_value(buf@.subrange(0, nbytes as int)),
{
    <byteorder::LittleEndian as byteorder::ByteOrder>::read_uint(buf, nbytes)
}

/// A read cursor over a byte buffer held in memory.
pub struct ByteCursor {
    data: Vec<u8>,
    pos: usize,
}

impl ByteCursor {
    /// The bytes under the cursor.
    pub closed spec fn bytes(&self) -> Seq<u8> {
        self.data@
    }

    /// The offset of the next byte to be read.
    pub closed spec fn pos(&self) -> int {
        self.pos as int
    }

    /// The position lies within the bytes (or just past the last one), and
    /// every offset fits in a `usize`.
    pub open spec fn wf(&self) -> bool {
        &&& 0 <= self.pos() <= self.bytes().len()
        &&& self.bytes().len() <= usize::MAX
    }

    /// A cursor at the start of `data`.
    pub fn new(data: Vec<u8>) -> (r: ByteCursor)
        ensures
            r.wf(),
            r.bytes() == data@,
            r.pos() == 0,
    {
        let len = data.len();
        assert(data@.len() == len);
        ByteCursor { data, pos: 0 }
    }

    /// The offset of the next byte to be read.
    pub fn position(&self) -> (r: usize)
        ensures
            r as int == self.pos(),
    {
        self.pos
    }

    /// The number of bytes under the cursor.
    pub fn len(&self) -> (r: usize)
        ensures
            r as int == self.bytes().len(),
    {
        self.data.len()
    }

    /// The number of bytes that are left to read.
    pub fn remaining(&self) -> (r: usize)
        requires
            self.wf(),
        ensures
            r as int == self.bytes().len() - self.pos(),
    {
        self.data.len() - self.pos
    }

    /// Whether every byte has been read.
    pub fn is_at_end(&self) -> (r: bool)
        requires
            self.wf(),
        ensures
            r == (self.pos() == self.bytes().len()),
    {
        self.pos == self.data.len()
    }

    /// Moves the cursor to offset `pos`.
    pub fn seek(&mut self, pos: usize)
        requires
            pos <= old(self).bytes().len(),
        ensures
            final(self).wf(),
            final(self).bytes() == old(self).bytes(),
            final(self).pos() == pos as int,
    {
        let len = self.data.len();
        assert(self.data@.len() == len);
        self.pos = pos;
    }

    /// Reads the next `n` bytes, or fails with `TruncatedInput` and leaves the
    /// cursor where it was when fewer than `n` remain.
    pub fn read_exact(&mut self, n: usize) -> (r: Result<Vec<u8>, ReadError>)
        requires
            old(self).wf(),
        ensures
            final(self).wf(),
            final(self).bytes() == old(self).bytes(),
            match r {
                Ok(v) => old(self).pos() + n <= old(self).bytes().len() && v@ == old(self).bytes().subrange(
                    old(self).pos(),
                    old(self).pos() + n,
                ) && final(self).pos() == old(self).pos() + n,
                Err(e) => old(self).pos() + n > old(self).bytes().len() && e == ReadError::TruncatedInput
                    && final(self).pos() == old(self).pos(),
            },
    {
        if n > self.data.len() - self.pos {
            return Err(ReadError::TruncatedInput);
        }
        let len = self.data.len();
        let mut out: Vec<u8> = Vec::with_capacity(n);
        let mut i: usize = 0;
        while i < n
            invariant
                len == self.data@.len(),
                self.wf(),
                self.pos + n <= self.data@.len(),
                i <= n,
                out@ == self.data@.subrange(self.pos as int, self.pos + i),
            decreases n - i,
        {
            out.push(self.data[self.pos + i]);
            i = i + 1;
            assert(out@ =~= self.data@.subrange(self.pos as int, self.pos + i));
        }
        self.pos = self.pos + n;
        Ok(out)
    }

    /// Reads the next byte, or fails with `TruncatedInput` at the end.
    pub fn read_u8(&mut self) -> (r: Result<u8, ReadError>)
        requires
            old(self).wf(),
        ensures
            final(self).wf(),
            final(self).bytes() == old(self).bytes(),
            match r {
                Ok(b) => old(self).pos() < old(self).bytes().len() && b == old(self).bytes()[old(
                    self,
                ).pos()] && final(self).pos() == old(self).pos() + 1,
                Err(e) => old(self).pos() == old(self).bytes().len() && e == ReadError::TruncatedInput
                    && final(self).pos() == old(self).pos(),
            },
    {
        if self.pos >= self.data.len() {
            return Err(ReadError::TruncatedInput);
        }
        let b = self.data[self.pos];
        self.pos = self.pos + 1;
        Ok(b)
    }

    /// Reads the next `n` bytes as a little-endian unsigned integer. Fails
    /// with `InvalidEncoding` when `n` is over eight (the value may not fit a
    /// `u64`), and with `TruncatedInput` when fewer than `n` bytes remain;
    /// either way the cursor stays where it was. Zero bytes read as zero.
    pub fn read_uint_le(&mut self, n: usize) -> (r: Result<u64, ReadError>)
        requires
            old(self).wf(),
        ensures
            final(self).wf(),
            final(self).bytes() == old(self).bytes(),
            match r {
                Ok(x) => n <= 8 && old(self).pos() + n <= old(self).bytes().len() && x as nat == le_value(
                    old(self).bytes().subrange(old(self).pos(), old(self).pos() + n),
                ) && final(self).pos() == old(self).pos() + n,
                Err(e) => final(self).pos() == old(self).pos() && if n > 8 {
                    e == ReadError::InvalidEncoding
                } else {
                    old(self).pos() + n > old(self).bytes().len() && e == ReadError::TruncatedInput
                },
            },
    {
        if n > 8 {
            return Err(ReadError::InvalidEncoding);
        }
        let buf = self.read_exact(n)?;
        if n == 0 {
            return Ok(0);
        }
        let x = read_le_uint(buf.as_slice(), n);
        assert(buf@.subrange(0, n as int) =~= buf@);
        Ok(x)
    }
}

} // verus!
