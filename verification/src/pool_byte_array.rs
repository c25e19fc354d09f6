use vstd::prelude::*;

use crate::errors::StreamError;

verus! {

/// Where a seek starts from, together with its signed offset.
#[derive(Clone, Copy, Debug, PartialEq, Eq, Structural)]
pub enum SeekOrigin {
    /// An offset from the first byte of the buffer.
    Start(i64),
    /// An offset back from the last byte of the buffer.
    End(i64),
    /// An offset from the current read position.
    Current(i64),
}

/// The absolute offset a seek aims at, before wrapping.
pub open spec fn seek_target(origin: SeekOrigin, len: int, pos: int) -> int {
    match origin {
        SeekOrigin::Start(off) => off as int,
        SeekOrigin::End(off) => len - 1 - off,
        SeekOrigin::Current(off) => pos + off,
    }
}

/// A growable, seekable byte buffer.
///
/// Writes always append at the end, independent of the read cursor, so the
/// buffer can be filled sequentially while being read from arbitrary
/// positions.  A seek whose absolute target is negative fails; a target at or
/// past the end wraps around modulo the current length.
pub struct PoolByteArray {
    byte_array: Vec<u8>,
    array_seek_pos: usize,
}

impl View for PoolByteArray {
    type V = Seq<u8>;

    closed spec fn view(&self) -> Seq<u8> {
        self.byte_array@
    }
}

impl PoolByteArray {
    /// The current read position.
    pub closed spec fn pos(&self) -> int {
        self.array_seek_pos as int
    }

    /// The read position never runs past the end of the buffer.
    pub open spec fn wf(&self) -> bool {
        0 <= self.pos() <= self@.len()
    }

    /// Creates a buffer over the given bytes, with the read position at the
    /// start.
    pub fn new(byte_array: Vec<u8>) -> (r: Self)
        ensures
            r.wf(),
            r@ == byte_array@,
            r.pos() == 0,
    {
        PoolByteArray { array_seek_pos: 0, byte_array }
    }

    /// Drops all contents and resets the read position.
    pub fn clear(&mut self)
        ensures
            final(self).wf(),
            final(self)@ == Seq::<u8>::empty(),
            final(self).pos() == 0,
    {
        self.byte_array = Vec::new();
        self.array_seek_pos = 0;
    }

    /// The number of bytes held.
    pub fn len(&self) -> (r: usize)
        ensures
            r == self@.len(),
    {
        self.byte_array.len()
    }

    /// The current read position.
    pub fn position(&self) -> (r: usize)
        ensures
            r == self.pos(),
    {
        self.array_seek_pos
    }

    /// Moves the read position to an absolute offset computed from `origin`.
    ///
    /// A negative target fails with `InvalidOffset` and leaves the position
    /// unchanged, as does any seek on an empty buffer, which holds no
    /// offset to seek to; any other target is reduced modulo the current
    /// length, so seeking past the end wraps around rather than erroring.
    pub fn seek(&mut self, origin: SeekOrigin) -> (r: Result<u64, StreamError>)
        requires
            old(self).wf(),
        ensures
            final(self).wf(),
            final(self)@ == old(self)@,
            seek_target(origin, old(self)@.len() as int, old(self).pos()) < 0 || old(self)@.len()
                == 0 ==> {
                &&& r == Err::<u64, StreamError>(StreamError::InvalidOffset)
                &&& final(self).pos() == old(self).pos()
            },
            seek_target(origin, old(self)@.len() as int, old(self).pos()) >= 0 && old(self)@.len()
                > 0 ==> {
                &&& final(self).pos() == seek_target(
                    origin,
                    old(self)@.len() as int,
                    old(self).pos(),
                ) % (old(self)@.len() as int)
                &&& r == Ok::<u64, StreamError>(final(self).pos() as u64)
            },
    {
        let len: usize = self.byte_array.len();
        let target: i128 = match origin {
            SeekOrigin::Start(off) => off as i128,
            SeekOrigin::End(off) => len as i128 - 1 - off as i128,
            SeekOrigin::Current(off) => self.array_seek_pos as i128 + off as i128,
        };
        if target < 0 || len == 0 {
            return Err(StreamError::InvalidOffset);
        }
        let wrapped: i128 = target % (len as i128);
        proof {
            assert(0 <= wrapped < len as i128) by (nonlinear_arith)
                requires
                    target >= 0,
                    len as i128 > 0,
                    wrapped == target % (len as i128),
            ;
        }
        self.array_seek_pos = wrapped as usize;
        Ok(wrapped as u64)
    }

    /// Returns up to `n` bytes from the read position, fewer at the end of
    /// the data, and advances the read position past them.
    pub fn read(&mut self, n: usize) -> (r: Vec<u8>)
        requires
            old(self).wf(),
        ensures
            final(self).wf(),
            final(self)@ == old(self)@,
            final(self).pos() == if old(self).pos() + n <= old(self)@.len() {
                old(self).pos() + n
            } else {
                old(self)@.len() as int
            },
            r@ == old(self)@.subrange(old(self).pos(), final(self).pos()),
    {
        let mut out: Vec<u8> = Vec::new();
        while out.len() < n && self.array_seek_pos < self.byte_array.len()
            invariant
                self.wf(),
                self@ == old(self)@,
                out.len() <= n,
                self.pos() == old(self).pos() + out.len(),
                out@ == old(self)@.subrange(old(self).pos(), self.pos()),
            decreases n - out.len(),
        {
            out.push(self.byte_array[self.array_seek_pos]);
            self.array_seek_pos = self.array_seek_pos + 1;
        }
        out
    }

    /// Appends the given bytes at the end of the buffer; the read position is
    /// unaffected.  Every byte is always accepted.
    pub fn write(&mut self, buf: &[u8]) -> (r: usize)
        requires
            old(self).wf(),
        ensures
            final(self).wf(),
            final(self)@ == old(self)@ + buf@,
            final(self).pos() == old(self).pos(),
            r == buf@.len(),
    {
        let mut i: usize = 0;
        while i < buf.len()
            invariant
                i <= buf.len(),
                self.wf(),
                self@ == old(self)@ + buf@.subrange(0, i as int),
                self.pos() == old(self).pos(),
            decreases buf.len() - i,
        {
            self.byte_array.push(buf[i]);
            i = i + 1;
        }
        proof {
            assert(buf@.subrange(0, buf@.len() as int) == buf@);
        }
        i
    }

    /// Does nothing: written bytes are already in place.
    pub fn flush(&mut self)
        ensures
            *final(self) == *old(self),
    {
    }
}

} // verus!
