//! A read position over the bytes of one file.
use crate::error::ParseError;
use vstd::prelude::*;
use vstd::slice::slice_subrange;

verus! {

/// The bytes of a file and the offset of the next byte to read.
///
/// The offset may stand beyond the end of the bytes, as a file position
/// may: skipping is never refused, only reading is.
pub struct ByteCursor<'a> {
    data: &'a [u8],
    position: u64,
}

impl<'a> ByteCursor<'a> {
    /// The bytes that the cursor runs over.
    pub closed spec fn source(&self) -> Seq<u8> {
        self.data@
    }

    /// The offset of the next byte to read.
    pub closed spec fn offset(&self) -> nat {
        self.position as nat
    }

    /// Whether `count` bytes can be read at the cursor: a read of nothing
    /// always can, any other only if the bytes reach that far.
    pub open spec fn can_read(&self, count: int) -> bool {
        count == 0 || self.offset() + count <= self.source().len()
    }

    /// A cursor at the start of `data`.
    pub fn new(data: &'a [u8]) -> (cursor: Self)
        ensures
            cursor.source() == data@,
            cursor.offset() == 0,
    {
        ByteCursor { data, position: 0 }
    }

    /// The offset of the next byte to read.
    pub fn position(&self) -> (position: u64)
        ensures
            position == self.offset(),
    {
        self.position
    }

    /// The number of bytes that the cursor runs over.
    pub fn len(&self) -> (len: usize)
        ensures
            len == self.source().len(),
    {
        self.data.len()
    }

    /// Reads the next `count` bytes and moves past them, or fails with
    /// `TruncatedInput` and stays in place when the bytes end first.
    pub fn read(&mut self, count: usize) -> (result: Result<&'a [u8], ParseError>)
        ensures
            final(self).source() == old(self).source(),
            result is Ok <==> old(self).can_read(count as int),
            match result {
                Ok(bytes) => {
                    &&& bytes@.len() == count
                    &&& forall|i: int|
                        0 <= i < count ==> bytes@[i] == old(self).source()[old(self).offset() + i]
                    &&& final(self).offset() == old(self).offset() + count
                },
                Err(error) => {
                    &&& error == ParseError::TruncatedInput
                    &&& final(self).offset() == old(self).offset()
                },
            },
    {
        let len: usize = self.data.len();
        if count == 0 {
            return Ok(slice_subrange(self.data, 0, 0));
        }
        if self.position > len as u64 {
            return Err(ParseError::TruncatedInput);
        }
        let start: usize = self.position as usize;
        if count > len - start {
            return Err(ParseError::TruncatedInput);
        }
        let bytes = slice_subrange(self.data, start, start + count);
        self.position = self.position + count as u64;
        Ok(bytes)
    }

    /// Puts the cursor at `position`, whether or not the bytes reach that
    /// far.
    pub fn seek(&mut self, position: u64)
        ensures
            final(self).source() == old(self).source(),
            final(self).offset() == position,
    {
        self.position = position;
    }

    /// Moves the cursor `count` bytes on without looking at them, whether
    /// or not the bytes reach that far.
    pub fn skip(&mut self, count: u64)
        requires
            old(self).offset() + count <= u64::MAX,
        ensures
            final(self).source() == old(self).source(),
            final(self).offset() == old(self).offset() + count,
    {
        self.position = self.position + count;
    }
}

} // verus!
