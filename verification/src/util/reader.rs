//! A positioned, read-only byte source over an in-memory image.

use vstd::prelude::*;
use vstd::slice::slice_subrange;
use crate::error::DecodeError;
use crate::util::endian::{le16, le32, u16_from_le, u32_from_le};

verus! {

/// A cursor over a byte image.
///
/// The position may lie beyond the end of the image; reads from there fail.
/// A read that fails leaves the reader as it was.
#[derive(Debug, Clone, Copy)]
pub struct ByteReader<'a> {
    /// The whole image.
    pub data: &'a [u8],
    /// Offset of the next byte to be read.
    pub pos: u64,
}

/// What a read that should give `expected` does: it returns the value and
/// leaves the reader at the end offset, or it returns the error and leaves the
/// reader as it was.
pub open spec fn reads_as<'a, T>(
    before: ByteReader<'a>,
    after: ByteReader<'a>,
    res: Result<T, DecodeError>,
    expected: Result<(T, int), DecodeError>,
) -> bool {
    match expected {
        Ok((value, end)) => {
            &&& res == Ok::<T, DecodeError>(value)
            &&& after.data == before.data
            &&& after.pos == end
        },
        Err(e) => res == Err::<T, DecodeError>(e) && after == before,
    }
}

/// The outcome `tail` of reading the rest of a table, with the records `head`
/// that were read before it put in front.
pub open spec fn prepend<T>(head: Seq<T>, tail: Result<(Seq<T>, int), DecodeError>) -> Result<
    (Seq<T>, int),
    DecodeError,
> {
    match tail {
        Ok((rest, end)) => Ok((head + rest, end)),
        Err(e) => Err(e),
    }
}

/// Putting records in front in two steps is putting them in front at once.
pub proof fn lemma_prepend_twice<T>(
    first: Seq<T>,
    second: Seq<T>,
    tail: Result<(Seq<T>, int), DecodeError>,
)
    ensures
        prepend(first, prepend(second, tail)) == prepend(first + second, tail),
{
    if let Ok((rest, end)) = tail {
        assert(first + (second + rest) =~= (first + second) + rest);
    }
}

/// Putting nothing in front changes nothing, and a table that ends here is what was read.
pub proof fn lemma_prepend_empty<T>(head: Seq<T>, tail: Result<(Seq<T>, int), DecodeError>, end: int)
    ensures
        prepend(Seq::<T>::empty(), tail) == tail,
        prepend(head, Ok((Seq::<T>::empty(), end))) == Ok::<(Seq<T>, int), DecodeError>((head, end)),
{
    if let Ok((rest, e)) = tail {
        assert(Seq::<T>::empty() + rest =~= rest);
    }
    assert(head + Seq::<T>::empty() =~= head);
}

/// The outcome of a read with the value, if there is one, taken by its view.
pub open spec fn result_view<T: View>(res: Result<T, DecodeError>) -> Result<T::V, DecodeError> {
    match res {
        Ok(value) => Ok(value@),
        Err(e) => Err(e),
    }
}

impl<'a> ByteReader<'a> {
    /// Whether `n` more bytes can be read at the current position.
    pub open spec fn can_read(&self, n: int) -> bool {
        self.pos + n <= self.data@.len()
    }

    /// The current position as a mathematical integer.
    pub open spec fn at(&self) -> int {
        self.pos as int
    }

    /// A reader positioned at the start of `data`.
    pub fn new(data: &'a [u8]) -> (r: Self)
        ensures
            r.data@ == data@,
            r.pos == 0,
    {
        ByteReader { data, pos: 0 }
    }

    /// The size of the image.
    pub fn len(&self) -> (n: usize)
        ensures
            n == self.data@.len(),
    {
        self.data.len()
    }

    /// The offset of the next byte to be read.
    pub fn position(&self) -> (p: u64)
        ensures
            p == self.pos,
    {
        self.pos
    }

    /// Moves to the absolute offset `pos`, which need not lie inside the image.
    pub fn seek(&mut self, pos: u64)
        ensures
            final(self).data == old(self).data,
            final(self).pos == pos,
    {
        self.pos = pos;
    }

    /// The number of bytes left between the position and the end of the image.
    pub fn remaining(&self) -> (n: usize)
        ensures
            n as int == if self.pos <= self.data@.len() { self.data@.len() - self.pos } else { 0 },
    {
        let len: usize = self.data.len();
        if self.pos <= len as u64 {
            len - (self.pos as usize)
        } else {
            0
        }
    }

    /// Hands out the next `n` bytes and steps over them.
    pub fn take(&mut self, n: usize) -> (res: Result<&'a [u8], DecodeError>)
        ensures
            match res {
                Ok(s) => {
                    &&& old(self).can_read(n as int)
                    &&& s@ == old(self).data@.subrange(old(self).at(), old(self).at() + n)
                    &&& final(self).data == old(self).data
                    &&& final(self).pos == old(self).pos + n
                },
                Err(e) => {
                    &&& !old(self).can_read(n as int)
                    &&& e == DecodeError::TruncatedInput
                    &&& *final(self) == *old(self)
                },
            },
    {
        let len: usize = self.data.len();
        if self.pos > len as u64 || n > len - (self.pos as usize) {
            return Err(DecodeError::TruncatedInput);
        }
        let start: usize = self.pos as usize;
        let s = slice_subrange(self.data, start, start + n);
        self.pos = self.pos + (n as u64);
        Ok(s)
    }

    /// Reads one byte.
    pub fn read_u8(&mut self) -> (res: Result<u8, DecodeError>)
        ensures
            match res {
                Ok(b) => {
                    &&& old(self).can_read(1)
                    &&& b == old(self).data@[old(self).at()]
                    &&& final(self).data == old(self).data
                    &&& final(self).pos == old(self).pos + 1
                },
                Err(e) => {
                    &&& !old(self).can_read(1)
                    &&& e == DecodeError::TruncatedInput
                    &&& *final(self) == *old(self)
                },
            },
    {
        let s = self.take(1)?;
        Ok(s[0])
    }

    /// Reads a little-endian 16-bit value.
    pub fn read_u16(&mut self) -> (res: Result<u16, DecodeError>)
        ensures
            match res {
                Ok(v) => {
                    &&& old(self).can_read(2)
                    &&& v == le16(old(self).data@, old(self).at())
                    &&& final(self).data == old(self).data
                    &&& final(self).pos == old(self).pos + 2
                },
                Err(e) => {
                    &&& !old(self).can_read(2)
                    &&& e == DecodeError::TruncatedInput
                    &&& *final(self) == *old(self)
                },
            },
    {
        let s = self.take(2)?;
        Ok(u16_from_le(s[0], s[1]))
    }

    /// Reads a little-endian 32-bit value.
    pub fn read_u32(&mut self) -> (res: Result<u32, DecodeError>)
        ensures
            match res {
                Ok(v) => {
                    &&& old(self).can_read(4)
                    &&& v == le32(old(self).data@, old(self).at())
                    &&& final(self).data == old(self).data
                    &&& final(self).pos == old(self).pos + 4
                },
                Err(e) => {
                    &&& !old(self).can_read(4)
                    &&& e == DecodeError::TruncatedInput
                    &&& *final(self) == *old(self)
                },
            },
    {
        let s = self.take(4)?;
        Ok(u32_from_le(s[0], s[1], s[2], s[3]))
    }
}

} // verus!
