use vstd::prelude::*;

use crate::error::eof_error;
use crate::error::Error;

verus! {

/// An in-memory byte stream that is read sequentially from front to back.
/// It models the blocking input stream of the framing layer: a read either
/// hands back exactly the requested bytes or fails, consuming nothing.
pub struct InputStream {
    data: Vec<u8>,
    pos: usize,
}

impl InputStream {
    /// The whole underlying byte sequence, consumed or not.
    pub closed spec fn bytes(&self) -> Seq<u8> {
        self.data@
    }

    /// The current read position.
    pub closed spec fn pos(&self) -> int {
        self.pos as int
    }

    /// Well-formed: the read position never passes the end of the data.
    pub open spec fn wf(&self) -> bool {
        0 <= self.pos() <= self.bytes().len()
    }

    /// Opens a stream over `data`, positioned at its first byte.
    pub fn new(data: Vec<u8>) -> (r: Self)
        ensures
            r.wf(),
            r.bytes() == data@,
            r.pos() == 0,
    {
        InputStream { data, pos: 0 }
    }

    /// How many bytes remain to be read.
    pub fn remaining(&self) -> (r: usize)
        requires
            self.wf(),
        ensures
            r == self.bytes().len() - self.pos(),
    {
        self.data.len() - self.pos
    }

    /// The read position, as a count of consumed bytes.
    pub fn position(&self) -> (r: usize)
        ensures
            r == self.pos(),
    {
        self.pos
    }

    /// Reads exactly `n` bytes and advances past them. When fewer than `n`
    /// bytes remain the read fails with an I/O error and consumes nothing.
    pub fn read_exact(&mut self, n: usize) -> (r: Result<Vec<u8>, Error>)
        requires
            old(self).wf(),
        ensures
            final(self).wf(),
            final(self).bytes() == old(self).bytes(),
            old(self).pos() + n <= old(self).bytes().len() ==> (r matches Ok(buf)
                && buf@ == old(self).bytes().subrange(old(self).pos(), old(self).pos() + n)
                && final(self).pos() == old(self).pos() + n),
            old(self).pos() + n > old(self).bytes().len() ==> (r matches Err(e)
                && e is IO
                && *final(self) == *old(self)),
    {
        if n > self.data.len() - self.pos {
            return Err(Error::IO(eof_error()));
        }
        let buf = vstd::slice::slice_to_vec(
            vstd::slice::slice_subrange(self.data.as_slice(), self.pos, self.pos + n),
        );
        self.pos = self.pos + n;
        Ok(buf)
    }
}

/// An in-memory byte stream that accepts writes at its end. It models the
/// blocking output stream of the framing layer: a write appends every byte
/// it was given.
pub struct OutputStream {
    data: Vec<u8>,
}

impl OutputStream {
    /// Every byte written so far, in order.
    pub closed spec fn bytes(&self) -> Seq<u8> {
        self.data@
    }

    /// Opens an empty stream.
    pub fn new() -> (r: Self)
        ensures
            r.bytes() == Seq::<u8>::empty(),
    {
        OutputStream { data: Vec::new() }
    }

    /// Appends every byte of `buf` to the stream; an in-memory write never
    /// falls short.
    pub fn write_all(&mut self, buf: &[u8])
        ensures
            final(self).bytes() == old(self).bytes() + buf@,
    {
        let mut i: usize = 0;
        while i < buf.len()
            invariant
                i <= buf@.len(),
                self.bytes() == old(self).bytes() + buf@.subrange(0, i as int),
            decreases buf@.len() - i,
        {
            let b = *vstd::slice::slice_index_get(buf, i);
            self.data.push(b);
            proof {
                assert(buf@.subrange(0, i + 1) =~= buf@.subrange(0, i as int).push(buf@[i as int]));
            }
            i = i + 1;
        }
        proof {
            assert(buf@.subrange(0, buf@.len() as int) =~= buf@);
        }
    }

    /// How many bytes have been written so far.
    pub fn len(&self) -> (r: usize)
        ensures
            r == self.bytes().len(),
    {
        self.data.len()
    }

    /// Hands the written bytes out, ending the stream.
    pub fn into_vec(self) -> (r: Vec<u8>)
        ensures
            r@ == self.bytes(),
    {
        self.data
    }
}

} // verus!
