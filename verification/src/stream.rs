//! An in-memory byte stream with a read position.

use vstd::prelude::*;

verus! {

/// A byte buffer and the offset of the byte that is read next. The offset may
/// lie beyond the end of the buffer; reading there yields nothing.
pub struct Cursor {
    pub data: Vec<u8>,
    pub pos: u64,
}

/// Why a stream could not read or move.
#[derive(Copy, Clone, Debug, PartialEq, Eq, Structural)]
pub enum IoError {
    /// Fewer bytes were left than had to be read.
    UnexpectedEof,
}

/// The offset in `data` at which a read from position `pos` starts.
pub open spec fn read_start(data: Seq<u8>, pos: u64) -> int {
    if pos <= data.len() {
        pos as int
    } else {
        data.len() as int
    }
}

/// The number of bytes that a read of at most `max` bytes at `pos` yields.
pub open spec fn read_count(data: Seq<u8>, pos: u64, max: int) -> int {
    let left = data.len() - read_start(data, pos);
    if max <= left {
        if max < 0 { 0 } else { max }
    } else {
        left
    }
}

/// The position that a read of at most `max` bytes at `pos` leaves.
pub open spec fn read_end(data: Seq<u8>, pos: u64, max: int) -> u64 {
    (pos + read_count(data, pos, max)) as u64
}

impl Cursor {
    /// A stream over `data`, positioned at its first byte.
    pub fn new(data: Vec<u8>) -> (c: Cursor)
        ensures
            c.data@ == data@,
            c.pos == 0,
    {
        Cursor { data, pos: 0 }
    }

    /// The offset of the byte that is read next.
    pub fn position(&self) -> (p: u64)
        ensures
            p == self.pos,
    {
        self.pos
    }

    /// Moves to an absolute offset.
    pub fn set_position(&mut self, pos: u64)
        ensures
            final(self).pos == pos,
            final(self).data@ == old(self).data@,
    {
        self.pos = pos;
    }

    /// The total number of bytes in the stream.
    pub fn len(&self) -> (n: usize)
        ensures
            n == self.data@.len(),
    {
        self.data.len()
    }

    /// Whether the position is at or beyond the end of the buffer.
    pub fn at_eof(&self) -> (b: bool)
        ensures
            b == (self.pos >= self.data@.len()),
    {
        self.pos >= self.data.len() as u64
    }

    /// Reads at most `max` bytes and advances past them. Fewer bytes come back
    /// only where the buffer ends.
    pub fn read(&mut self, max: usize) -> (out: Vec<u8>)
        ensures
            final(self).data@ == old(self).data@,
            out@.len() == read_count(old(self).data@, old(self).pos, max as int),
            out@ == old(self).data@.subrange(
                read_start(old(self).data@, old(self).pos),
                read_start(old(self).data@, old(self).pos) + out@.len(),
            ),
            final(self).pos == old(self).pos + out@.len(),
    {
        let len: usize = self.data.len();
        let mut out: Vec<u8> = Vec::new();
        if self.pos >= len as u64 {
            assert(out@ =~= self.data@.subrange(len as int, len as int));
            return out;
        }
        let start: usize = self.pos as usize;
        let left: usize = len - start;
        let count: usize = if max <= left { max } else { left };
        let mut i: usize = 0;
        while i < count
            invariant
                i <= count,
                start + count <= len,
                len == self.data@.len(),
                out@ == self.data@.subrange(start as int, start + i),
            decreases count - i,
        {
            out.push(self.data[start + i]);
            i += 1;
            assert(out@ =~= self.data@.subrange(start as int, start + i));
        }
        self.pos = self.pos + count as u64;
        out
    }

    /// Reads exactly `count` bytes, or nothing at all where fewer are left; the
    /// position moves only on success.
    pub fn read_exact(&mut self, count: usize) -> (out: Option<Vec<u8>>)
        ensures
            final(self).data@ == old(self).data@,
            out is Some <==> old(self).pos + count <= old(self).data@.len(),
            out matches Some(bytes) ==> bytes@ == old(self).data@.subrange(
                old(self).pos as int,
                old(self).pos + count,
            ) && final(self).pos == old(self).pos + count,
            out is None ==> final(self).pos == old(self).pos,
    {
        let len: usize = self.data.len();
        if self.pos > len as u64 || count > len - self.pos as usize {
            return None;
        }
        let bytes = self.read(count);
        Some(bytes)
    }
}

} // verus!
