//! An in-memory byte source, usable both for tests and for decoding data that
//! is already resident; its chunk schedule controls how the data is
//! fragmented across `fill` calls.

use vstd::prelude::*;

use crate::ByteSource;
use crate::ReadError;

verus! {

broadcast use vstd::std_specs::vec::group_vec_axioms;

/// A `ByteSource` over a byte vector. An optional schedule of chunk sizes
/// decides how many bytes each `fill` call offers, so callers can exercise
/// any fragmentation of the stream; once the schedule is spent, each `fill`
/// offers everything left.
pub struct MemorySource {
    data: Vec<u8>,
    pos: usize,
    chunk_sizes: Vec<usize>,
    chunk_idx: usize,
}

impl MemorySource {
    /// A source that offers all of `data` at once.
    pub fn new(data: Vec<u8>) -> (s: Self)
        ensures
            s.remaining() == data@,
    {
        MemorySource { data, pos: 0, chunk_sizes: Vec::new(), chunk_idx: 0 }
    }

    /// A source that offers `data` fragmented as `chunk_sizes` prescribes:
    /// the k-th `fill` offers about `chunk_sizes[k]` bytes (clamped to at
    /// least one available byte and at most what is left).
    pub fn with_chunk_sizes(data: Vec<u8>, chunk_sizes: Vec<usize>) -> (s: Self)
        ensures
            s.remaining() == data@,
    {
        MemorySource { data, pos: 0, chunk_sizes, chunk_idx: 0 }
    }
}

impl ByteSource for MemorySource {
    closed spec fn remaining(&self) -> Seq<u8> {
        if self.pos <= self.data@.len() {
            self.data@.skip(self.pos as int)
        } else {
            Seq::empty()
        }
    }

    fn fill(&mut self) -> (r: Result<Vec<u8>, ReadError>) {
        if self.pos >= self.data.len() {
            return Ok(Vec::new());
        }
        let avail = self.data.len() - self.pos;
        let mut want: usize = avail;
        if self.chunk_idx < self.chunk_sizes.len() {
            want = self.chunk_sizes[self.chunk_idx];
            self.chunk_idx = self.chunk_idx + 1;
        }
        if want == 0 {
            want = 1;
        }
        if want > avail {
            want = avail;
        }
        let mut chunk: Vec<u8> = Vec::new();
        let mut k: usize = 0;
        while k < want
            invariant
                k <= want,
                0 < want <= self.data.len() - self.pos,
                self.pos < self.data.len(),
                chunk@ == self.data@.subrange(self.pos as int, self.pos + k),
            decreases want - k,
        {
            chunk.push(self.data[self.pos + k]);
            assert(chunk@ =~= self.data@.subrange(self.pos as int, self.pos + k + 1));
            k = k + 1;
        }
        assert(chunk@ =~= self.remaining().take(want as int));
        Ok(chunk)
    }

    fn consume(&mut self, amt: usize) {
        if amt > 0 {
            assert(self.pos + amt <= self.data.len());
            self.pos = self.pos + amt;
            assert(self.remaining() =~= old(self).remaining().skip(amt as int));
        } else {
            assert(self.remaining() =~= old(self).remaining().skip(0));
        }
    }
}

} // verus!
