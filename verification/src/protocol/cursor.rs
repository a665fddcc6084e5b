use vstd::prelude::*;

use super::error::ProtocolError;

verus! {

/// A read position in a slice of bytes.
pub struct Cursor<'a> {
    pub data: &'a [u8],
    pub pos: usize,
}

impl<'a> Cursor<'a> {
    pub open spec fn wf(&self) -> bool {
        self.pos <= self.data@.len()
    }

    /// The bytes that have not been read yet.
    pub open spec fn rest(&self) -> Seq<u8> {
        self.data@.skip(self.pos as int)
    }

    /// This cursor is `before` with `count` more bytes read.
    pub open spec fn advanced(&self, before: &Self, count: int) -> bool {
        &&& self.data@ == before.data@
        &&& self.pos == before.pos + count
    }

    pub fn new(data: &'a [u8]) -> (cursor: Self)
        ensures
            cursor.wf(),
            cursor.data@ == data@,
            cursor.pos == 0,
            cursor.rest() == data@,
    {
        Cursor { data, pos: 0 }
    }

    pub fn position(&self) -> (pos: usize)
        ensures
            pos == self.pos,
    {
        self.pos
    }

    /// Reads one byte; at the end of the data nothing is read.
    pub fn read_u8(&mut self) -> (byte: Result<u8, ProtocolError>)
        requires
            old(self).wf(),
        ensures
            final(self).wf(),
            old(self).rest().len() == 0 ==> byte == Err::<u8, ProtocolError>(
                ProtocolError::UnexpectedEof,
            ) && final(self).advanced(old(self), 0),
            old(self).rest().len() > 0 ==> byte == Ok::<u8, ProtocolError>(old(self).rest()[0])
                && final(self).advanced(old(self), 1) && final(self).rest() == old(self).rest().skip(
                1,
            ),
    {
        if self.pos < self.data.len() {
            let byte: u8 = self.data[self.pos];
            self.pos = self.pos + 1;
            assert(self.rest() =~= old(self).rest().skip(1));
            Ok(byte)
        } else {
            Err(ProtocolError::UnexpectedEof)
        }
    }

    /// Reads exactly `count` bytes. Where fewer are left, they are used up.
    pub fn read_exact(&mut self, count: usize) -> (bytes: Result<Vec<u8>, ProtocolError>)
        requires
            old(self).wf(),
        ensures
            final(self).wf(),
            old(self).rest().len() < count ==> bytes is Err && bytes->Err_0
                == ProtocolError::UnexpectedEof && final(self).advanced(
                old(self),
                old(self).rest().len() as int,
            ),
            old(self).rest().len() >= count ==> bytes is Ok && bytes->Ok_0@
                == old(self).rest().take(count as int) && final(self).advanced(
                old(self),
                count as int,
            ) && final(self).rest() == old(self).rest().skip(count as int),
    {
        if count > self.data.len() - self.pos {
            self.pos = self.data.len();
            return Err(ProtocolError::UnexpectedEof);
        }
        let end: usize = self.pos + count;
        let bytes: Vec<u8> = vstd::slice::slice_to_vec(
            vstd::slice::slice_subrange(self.data, self.pos, end),
        );
        self.pos = end;
        assert(bytes@ =~= old(self).rest().take(count as int));
        assert(self.rest() =~= old(self).rest().skip(count as int));
        Ok(bytes)
    }
}

} // verus!
