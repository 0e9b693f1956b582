//! A cursor over a received packet: bytes are consumed from the head (headers)
//! or taken from the tail (trailing material), and the bytes parsed so far
//! remain addressable as the associated data for AEAD.

use crate::error::Error;
use vstd::bytes::{spec_u16_from_le_bytes, spec_u32_from_le_bytes};
use vstd::prelude::*;
use vstd::slice::slice_subrange;

verus! {

pub struct ParseBuf<'a> {
    buf: &'a [u8],
    read_off: usize,
    left: usize,
}

impl<'a> ParseBuf<'a> {
    /// All of the buffer that this cursor may ever touch.
    pub closed spec fn total(&self) -> Seq<u8> {
        self.buf@
    }

    /// The bytes consumed from the head so far.
    pub closed spec fn parsed(&self) -> Seq<u8> {
        self.buf@.subrange(0, self.read_off as int)
    }

    /// The bytes still available for parsing.
    pub closed spec fn data(&self) -> Seq<u8> {
        self.buf@.subrange(self.read_off as int, self.read_off + self.left)
    }

    pub closed spec fn wf(&self) -> bool {
        self.read_off + self.left <= self.buf@.len()
    }

    pub fn new(buf: &'a [u8], len: usize) -> (r: ParseBuf<'a>)
        requires
            len <= buf@.len(),
        ensures
            r.wf(),
            r.data() == buf@.subrange(0, len as int),
            r.parsed() == Seq::<u8>::empty(),
    {
        let r = ParseBuf { buf, read_off: 0, left: len };
        proof {
            assert(r.parsed() =~= Seq::<u8>::empty());
        }
        r
    }

    /// The data that is still valid, as a slice.
    pub fn as_slice(&self) -> (r: &[u8])
        requires
            self.wf(),
        ensures
            r@ == self.data(),
    {
        let n = self.buf.len();
        slice_subrange(self.buf, self.read_off, self.read_off + self.left)
    }

    /// The bytes consumed from the head so far, as a slice.
    pub fn parsed_as_slice(&self) -> (r: &[u8])
        requires
            self.wf(),
        ensures
            r@ == self.parsed(),
    {
        slice_subrange(self.buf, 0, self.read_off)
    }

    /// Takes `size` bytes off the tail of the valid data.
    pub fn tail(&mut self, size: usize) -> (r: Result<&'a [u8], Error>)
        requires
            old(self).wf(),
        ensures
            final(self).wf(),
            final(self).total() == old(self).total(),
            final(self).parsed() == old(self).parsed(),
            if size <= old(self).data().len() {
                &&& r matches Ok(t)
                &&& t@ == old(self).data().skip(old(self).data().len() - size)
                &&& final(self).data() == old(self).data().take(old(self).data().len() - size)
            } else {
                &&& r matches Err(e) && e == Error::TruncatedPacket
                &&& final(self).data() == old(self).data()
            },
    {
        if size <= self.left {
            let n = self.buf.len();
            let end_offset = self.read_off + self.left;
            let t = slice_subrange(self.buf, end_offset - size, end_offset);
            self.left = self.left - size;
            proof {
                assert(t@ =~= old(self).data().skip(old(self).data().len() - size));
                assert(self.data() =~= old(self).data().take(
                    old(self).data().len() - size,
                ));
            }
            Ok(t)
        } else {
            Err(Error::TruncatedPacket)
        }
    }

    /// Moves the head cursor forward over `len` already-checked bytes.
    pub fn advance(&mut self, len: usize)
        requires
            old(self).wf(),
            len <= old(self).data().len(),
        ensures
            final(self).wf(),
            final(self).total() == old(self).total(),
            final(self).parsed() == old(self).parsed() + old(self).data().take(len as int),
            final(self).data() == old(self).data().skip(len as int),
    {
        let n = self.buf.len();
        self.read_off = self.read_off + len;
        self.left = self.left - len;
        proof {
            assert(self.parsed() =~= old(self).parsed() + old(self).data().take(len as int));
            assert(self.data() =~= old(self).data().skip(len as int));
        }
    }

    /// Reads a `size`-byte head with `f`, then consumes those bytes.
    pub fn parse_head_with<T, F: FnOnce(&ParseBuf<'a>) -> T>(&mut self, size: usize, f: F) -> (r:
        Result<T, Error>)
        requires
            old(self).wf(),
            size <= old(self).data().len() ==> call_requires(f, (old(self),)),
        ensures
            final(self).wf(),
            final(self).total() == old(self).total(),
            if size <= old(self).data().len() {
                &&& r matches Ok(v) && call_ensures(f, (old(self),), v)
                &&& final(self).parsed() == old(self).parsed() + old(self).data().take(size as int)
                &&& final(self).data() == old(self).data().skip(size as int)
            } else {
                &&& r matches Err(e) && e == Error::TruncatedPacket
                &&& *final(self) == *old(self)
            },
    {
        if size <= self.left {
            let data: T = f(&*self);
            self.advance(size);
            Ok(data)
        } else {
            Err(Error::TruncatedPacket)
        }
    }

    /// Consumes one byte from the head.
    pub fn le_u8(&mut self) -> (r: Result<u8, Error>)
        requires
            old(self).wf(),
        ensures
            final(self).wf(),
            final(self).total() == old(self).total(),
            if old(self).data().len() >= 1 {
                &&& r matches Ok(v) && v == old(self).data()[0]
                &&& final(self).parsed() == old(self).parsed() + old(self).data().take(1)
                &&& final(self).data() == old(self).data().skip(1)
            } else {
                &&& r matches Err(e) && e == Error::TruncatedPacket
                &&& *final(self) == *old(self)
            },
    {
        if self.left >= 1 {
            let b = self.buf[self.read_off];
            self.advance(1);
            Ok(b)
        } else {
            Err(Error::TruncatedPacket)
        }
    }

    /// Consumes a little-endian `u16` from the head.
    pub fn le_u16(&mut self) -> (r: Result<u16, Error>)
        requires
            old(self).wf(),
        ensures
            final(self).wf(),
            final(self).total() == old(self).total(),
            if old(self).data().len() >= 2 {
                &&& r matches Ok(v) && v == spec_u16_from_le_bytes(old(self).data().take(2))
                &&& final(self).parsed() == old(self).parsed() + old(self).data().take(2)
                &&& final(self).data() == old(self).data().skip(2)
            } else {
                &&& r matches Err(e) && e == Error::TruncatedPacket
                &&& *final(self) == *old(self)
            },
    {
        if self.left >= 2 {
            let n = self.buf.len();
            let s = slice_subrange(self.buf, self.read_off, self.read_off + 2);
            proof {
                assert(s@ =~= old(self).data().take(2));
            }
            let v = vstd::bytes::u16_from_le_bytes(s);
            self.advance(2);
            Ok(v)
        } else {
            Err(Error::TruncatedPacket)
        }
    }

    /// Consumes a little-endian `u32` from the head.
    pub fn le_u32(&mut self) -> (r: Result<u32, Error>)
        requires
            old(self).wf(),
        ensures
            final(self).wf(),
            final(self).total() == old(self).total(),
            if old(self).data().len() >= 4 {
                &&& r matches Ok(v) && v == spec_u32_from_le_bytes(old(self).data().take(4))
                &&& final(self).parsed() == old(self).parsed() + old(self).data().take(4)
                &&& final(self).data() == old(self).data().skip(4)
            } else {
                &&& r matches Err(e) && e == Error::TruncatedPacket
                &&& *final(self) == *old(self)
            },
    {
        if self.left >= 4 {
            let n = self.buf.len();
            let s = slice_subrange(self.buf, self.read_off, self.read_off + 4);
            proof {
                assert(s@ =~= old(self).data().take(4));
            }
            let v = vstd::bytes::u32_from_le_bytes(s);
            self.advance(4);
            Ok(v)
        } else {
            Err(Error::TruncatedPacket)
        }
    }
}

} // verus!
