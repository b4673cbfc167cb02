use crate::error::{Error, ErrorKind};
use vstd::prelude::*;
use vstd::slice::{slice_subrange, slice_to_vec};

verus! {

/// The error for a read that needs more bytes than remain, at absolute offset `at`.
pub open spec fn truncated_at(at: int) -> Error {
    Error { kind: ErrorKind::Truncated, offset: at as usize }
}

/// The little-endian 16-bit value of `b[i]`, `b[i + 1]`.
pub open spec fn le_u16(b: Seq<u8>, i: int) -> u16 {
    (b[i] as int + 256 * b[i + 1]) as u16
}

/// The little-endian 32-bit value of `b[i]` .. `b[i + 3]`.
pub open spec fn le_u32(b: Seq<u8>, i: int) -> u32 {
    (b[i] as int + 256 * b[i + 1] + 65536 * b[i + 2] + 16777216 * b[i + 3]) as u32
}

/// Reading `n` bytes at position `i` of `b`, whose first byte stands at
/// absolute offset `base`: the bytes and the position after them, or
/// `Truncated` at the position of the read.
pub open spec fn spec_take(b: Seq<u8>, i: int, base: int, n: int) -> Result<(Seq<u8>, int), Error> {
    if b.len() - i < n {
        Err(truncated_at(base + i))
    } else {
        Ok((b.subrange(i, i + n), i + n))
    }
}

pub open spec fn spec_u8(b: Seq<u8>, i: int, base: int) -> Result<(u8, int), Error> {
    if b.len() - i < 1 {
        Err(truncated_at(base + i))
    } else {
        Ok((b[i], i + 1))
    }
}

pub open spec fn spec_u16(b: Seq<u8>, i: int, base: int) -> Result<(u16, int), Error> {
    if b.len() - i < 2 {
        Err(truncated_at(base + i))
    } else {
        Ok((le_u16(b, i), i + 2))
    }
}

pub open spec fn spec_u32(b: Seq<u8>, i: int, base: int) -> Result<(u32, int), Error> {
    if b.len() - i < 4 {
        Err(truncated_at(base + i))
    } else {
        Ok((le_u32(b, i), i + 4))
    }
}

pub open spec fn spec_i32(b: Seq<u8>, i: int, base: int) -> Result<(i32, int), Error> {
    if b.len() - i < 4 {
        Err(truncated_at(base + i))
    } else {
        Ok((le_u32(b, i) as i32, i + 4))
    }
}

/// A bounds-checked little-endian cursor over a byte slice whose first byte
/// stands at absolute offset `base` of the whole input.
pub struct Reader<'a> {
    buf: &'a [u8],
    pos: usize,
    base: usize,
}

impl<'a> Reader<'a> {
    /// The bytes under the cursor.
    pub closed spec fn data(&self) -> Seq<u8> {
        self.buf@
    }

    /// The cursor, relative to the start of `data()`.
    pub closed spec fn pos(&self) -> int {
        self.pos as int
    }

    /// The absolute offset of `data()[0]`.
    pub closed spec fn base(&self) -> int {
        self.base as int
    }

    pub open spec fn wf(&self) -> bool {
        &&& 0 <= self.pos() <= self.data().len()
        &&& 0 <= self.base()
        &&& self.base() + self.data().len() <= usize::MAX
    }

    /// The reader went from `old` to `self` by the step `s`, and returned `r`.
    pub open spec fn stepped<T>(&self, old: &Self, s: Result<(T, int), Error>, r: Result<T, Error>) -> bool {
        &&& self.wf()
        &&& self.data() == old.data()
        &&& self.base() == old.base()
        &&& match s {
            Ok((v, np)) => r == Ok::<T, Error>(v) && self.pos() == np,
            Err(e) => r == Err::<T, Error>(e) && self.pos() == old.pos(),
        }
    }

    pub fn new(buf: &'a [u8], base: usize) -> (r: Self)
        requires
            base + buf@.len() <= usize::MAX,
        ensures
            r.wf(),
            r.data() == buf@,
            r.pos() == 0,
            r.base() == base,
    {
        Reader { buf, pos: 0, base }
    }

    /// The absolute offset of the cursor.
    pub fn offset(&self) -> (r: usize)
        requires
            self.wf(),
        ensures
            r == self.base() + self.pos(),
    {
        self.base + self.pos
    }

    /// The number of bytes after the cursor.
    pub fn remaining_len(&self) -> (r: usize)
        requires
            self.wf(),
        ensures
            r == self.data().len() - self.pos(),
    {
        self.buf.len() - self.pos
    }

    fn truncated(&self) -> (r: Error)
        requires
            self.wf(),
        ensures
            r == truncated_at(self.base() + self.pos()),
    {
        Error { kind: ErrorKind::Truncated, offset: self.base + self.pos }
    }

    pub fn read_u8(&mut self) -> (r: Result<u8, Error>)
        requires
            old(self).wf(),
        ensures
            final(self).stepped(old(self), spec_u8(old(self).data(), old(self).pos(), old(self).base()), r),
    {
        if self.buf.len() - self.pos < 1 {
            return Err(self.truncated());
        }
        let v = self.buf[self.pos];
        self.pos = self.pos + 1;
        Ok(v)
    }

    pub fn read_u16_le(&mut self) -> (r: Result<u16, Error>)
        requires
            old(self).wf(),
        ensures
            final(self).stepped(old(self), spec_u16(old(self).data(), old(self).pos(), old(self).base()), r),
    {
        if self.buf.len() - self.pos < 2 {
            return Err(self.truncated());
        }
        let b0 = self.buf[self.pos] as u16;
        let b1 = self.buf[self.pos + 1] as u16;
        self.pos = self.pos + 2;
        Ok(b0 + 256 * b1)
    }

    pub fn read_u32_le(&mut self) -> (r: Result<u32, Error>)
        requires
            old(self).wf(),
        ensures
            final(self).stepped(old(self), spec_u32(old(self).data(), old(self).pos(), old(self).base()), r),
    {
        if self.buf.len() - self.pos < 4 {
            return Err(self.truncated());
        }
        let b0 = self.buf[self.pos] as u32;
        let b1 = self.buf[self.pos + 1] as u32;
        let b2 = self.buf[self.pos + 2] as u32;
        let b3 = self.buf[self.pos + 3] as u32;
        self.pos = self.pos + 4;
        Ok(b0 + 256 * b1 + 65536 * b2 + 16777216 * b3)
    }

    pub fn read_i32_le(&mut self) -> (r: Result<i32, Error>)
        requires
            old(self).wf(),
        ensures
            final(self).stepped(old(self), spec_i32(old(self).data(), old(self).pos(), old(self).base()), r),
    {
        match self.read_u32_le() {
            Ok(v) => Ok(v as i32),
            Err(e) => Err(e),
        }
    }

    /// The next `n` bytes as a slice of the input.
    pub fn take(&mut self, n: usize) -> (r: Result<&'a [u8], Error>)
        requires
            old(self).wf(),
        ensures
            final(self).wf(),
            final(self).data() == old(self).data(),
            final(self).base() == old(self).base(),
            match spec_take(old(self).data(), old(self).pos(), old(self).base(), n as int) {
                Ok((v, np)) => r is Ok && r->Ok_0@ == v && final(self).pos() == np,
                Err(e) => r == Err::<&'a [u8], Error>(e) && final(self).pos() == old(self).pos(),
            },
    {
        if self.buf.len() - self.pos < n {
            return Err(self.truncated());
        }
        let s = slice_subrange(self.buf, self.pos, self.pos + n);
        self.pos = self.pos + n;
        Ok(s)
    }

    /// All bytes from the cursor to the end, without moving the cursor.
    pub fn remaining(&self) -> (r: Vec<u8>)
        requires
            self.wf(),
        ensures
            r@ == self.data().subrange(self.pos(), self.data().len() as int),
    {
        slice_to_vec(slice_subrange(self.buf, self.pos, self.buf.len()))
    }
}

} // verus!
