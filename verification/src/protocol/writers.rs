//! Writers of serialized bytes: one that only counts, and one into a buffer of fixed size.

use vstd::prelude::*;
use vstd::slice::*;

verus! {

/// Counts what would be written.
pub struct CountingWriter {
    write_count: usize,
    total_bytes: usize,
}

impl CountingWriter {
    /// How many writes there were.
    pub closed spec fn writes(self) -> nat {
        self.write_count as nat
    }

    /// How many bytes were written.
    pub closed spec fn bytes(self) -> nat {
        self.total_bytes as nat
    }

    /// A writer that has counted nothing.
    pub fn new() -> (w: CountingWriter)
        ensures
            w.writes() == 0,
            w.bytes() == 0,
    {
        CountingWriter { write_count: 0, total_bytes: 0 }
    }

    /// How many writes there were.
    pub fn write_count(&self) -> (n: usize)
        ensures
            n == self.writes(),
    {
        self.write_count
    }

    /// How many bytes were written.
    pub fn total_bytes(&self) -> (n: usize)
        ensures
            n == self.bytes(),
    {
        self.total_bytes
    }

    /// The position of the next byte.
    pub fn pos(&self) -> (n: usize)
        ensures
            n == self.bytes(),
    {
        self.total_bytes
    }

    /// Counts one write of `bytes`.
    pub fn write(&mut self, bytes: &[u8])
        requires
            old(self).writes() < usize::MAX,
            old(self).bytes() + bytes@.len() <= usize::MAX,
        ensures
            final(self).writes() == old(self).writes() + 1,
            final(self).bytes() == old(self).bytes() + bytes@.len(),
    {
        self.write_count += 1;
        self.total_bytes += bytes.len();
    }
}

impl Default for CountingWriter {
    fn default() -> (w: CountingWriter)
        ensures
            w.writes() == 0,
            w.bytes() == 0,
    {
        CountingWriter::new()
    }
}

/// The bytes do not fit into the buffer.
#[derive(Debug)]
pub struct OutOfSpaceError;

impl OutOfSpaceError {
    /// The failure in words.
    pub fn message(&self) -> (s: String)
        ensures
            s@ == "not enough space in the buffer"@,
    {
        "not enough space in the buffer".to_owned()
    }
}

/// Writes into a buffer of fixed size, from its start on.
pub struct SliceWriter<'a> {
    pub buf: &'a mut [u8],
    pub pos: usize,
}

impl<'a> SliceWriter<'a> {
    pub open spec fn wf(self) -> bool {
        self.pos <= self.buf@.len()
    }

    /// The bytes that were written.
    pub open spec fn written_bytes(self) -> Seq<u8> {
        self.buf@.take(self.pos as int)
    }

    /// The bytes of the buffer behind those that were written.
    pub open spec fn rest(self) -> Seq<u8> {
        self.buf@.skip(self.pos as int)
    }

    /// A writer at the start of `buf`. What is in `buf` in the end is what the writer leaves there.
    pub fn new(buf: &'a mut [u8]) -> (w: SliceWriter<'a>)
        ensures
            w.wf(),
            w.written_bytes() == Seq::<u8>::empty(),
            w.rest() == old(buf)@,
            final(buf)@ == final(w.buf)@,
    {
        let w = SliceWriter { buf, pos: 0 };
        assert(w.written_bytes() =~= Seq::<u8>::empty());
        assert(w.rest() =~= old(buf)@);
        w
    }

    /// How many bytes were written.
    pub fn written(&self) -> (n: usize)
        requires
            self.wf(),
        ensures
            n == self.written_bytes().len(),
    {
        self.pos
    }

    /// The position of the next byte.
    pub fn pos(&self) -> (n: usize)
        requires
            self.wf(),
        ensures
            n == self.written_bytes().len(),
    {
        self.pos
    }

    /// Writes `bytes` behind what was written before. Where they do not fit, nothing changes.
    pub fn write(&mut self, bytes: &[u8]) -> (r: Result<(), OutOfSpaceError>)
        requires
            old(self).wf(),
        ensures
            final(self).wf(),
            r is Ok <==> bytes@.len() <= old(self).rest().len(),
            r is Ok ==> final(self).written_bytes() == old(self).written_bytes() + bytes@
                && final(self).rest() == old(self).rest().skip(bytes@.len() as int),
            r is Err ==> final(self).written_bytes() == old(self).written_bytes()
                && final(self).rest() == old(self).rest(),
            final(final(self).buf)@ == final(old(self).buf)@,
    {
        let size: usize = self.buf.len();
        if bytes.len() > size - self.pos {
            return Err(OutOfSpaceError);
        }
        let ghost start = self.pos as int;
        let ghost before = self.buf@;
        let mut k: usize = 0;
        while k < bytes.len()
            invariant
                k <= bytes@.len(),
                self.pos == start,
                self.buf@.len() == before.len(),
                start + bytes@.len() <= before.len() == size,
                final(self.buf)@ == final(old(self).buf)@,
                self.buf@ == before.take(start) + bytes@.take(k as int) + before.skip(start + k),
            decreases bytes@.len() - k,
        {
            let ghost b = self.buf@;
            let at: usize = self.pos + k;
            self.buf[at] = bytes[k];
            k += 1;
            proof {
                assert(self.buf@ =~= b.update(at as int, bytes@[k - 1]));
                assert(self.buf@ =~= before.take(start) + bytes@.take(k as int) + before.skip(
                    start + k,
                ));
            }
        }
        self.pos += bytes.len();
        assert(self.written_bytes() =~= before.take(start) + bytes@);
        assert(self.rest() =~= before.skip(start).skip(bytes@.len() as int));
        Ok(())
    }
}

} // verus!
