//! A batching iterator over decoded kpageflags records.

use vstd::prelude::*;

use crate::ByteSource;
use crate::KPageFlagsReader;
use crate::ReadError;
use crate::lemma_words_of_skip;
use crate::words_of;
use super::KPageFlags;

verus! {

/// How many records one refill of the batch buffer asks the reader for.
const BATCH_RECORDS: usize = 262144;

/// The bitwise OR of a sequence of masks.
pub open spec fn or_all(masks: Seq<u64>) -> u64
    decreases masks.len(),
{
    if masks.len() == 0 {
        0u64
    } else {
        or_all(masks.drop_last()) | masks.last()
    }
}

/// The raw words of a sequence of decoded records.
pub open spec fn raw_words(records: Seq<KPageFlags>) -> Seq<u64> {
    records.map_values(|f: KPageFlags| f@)
}

/// Turns a [`KPageFlagsReader`] into a pull-based iterator over flags.
///
/// Records are buffered a large batch at a time to amortize per-call
/// overhead. Every yielded record has the configured ignore mask cleared
/// first, so callers comparing consecutive records are not defeated by bits
/// that toggle on effectively every sample. End-of-sequence is sticky: once
/// reported, every later call reports it again.
pub struct KPageFlagsIterator<S: ByteSource> {
    /// The reader we are reading from.
    reader: KPageFlagsReader<S>,
    /// Records decoded but not yielded yet.
    buf: Vec<KPageFlags>,
    /// The index of the first unconsumed record in `buf`.
    idx: usize,
    /// The mask cleared from every yielded record.
    ignored_flags: u64,
    /// Whether end-of-sequence has been reported.
    done: bool,
}

impl<S: ByteSource> KPageFlagsIterator<S> {
    /// Iterator invariant.
    pub closed spec fn wf(self) -> bool {
        &&& self.reader.wf()
        &&& self.idx <= self.buf@.len()
        &&& (self.done ==> self.idx == self.buf@.len() && self.reader.stream().len() == 0)
    }

    /// The raw record words not yet yielded: records already decoded into
    /// the batch buffer, then whatever the byte stream still encodes.
    pub closed spec fn raw_remaining(self) -> Seq<u64> {
        raw_words(self.buf@.skip(self.idx as int)) + words_of(self.reader.stream())
    }

    /// How many bytes at the very end of the stream do not fill a record.
    pub closed spec fn tail_len(self) -> nat {
        self.reader.stream().len() % 8
    }

    /// The mask cleared from every yielded record.
    pub closed spec fn ignored(self) -> u64 {
        self.ignored_flags
    }

    /// Whether end-of-sequence has been reported.
    pub closed spec fn finished(self) -> bool {
        self.done
    }

    /// Wraps a reader; every yielded record will have each of the
    /// `ignored_flags` masks cleared.
    pub fn new(reader: KPageFlagsReader<S>, ignored_flags: &[u64]) -> (it: Self)
        requires
            reader.wf(),
        ensures
            it.wf(),
            it.raw_remaining() == words_of(reader.stream()),
            it.tail_len() == reader.stream().len() % 8,
            it.ignored() == or_all(ignored_flags@),
            !it.finished(),
    {
        let mut mask: u64 = 0;
        let mut k: usize = 0;
        while k < ignored_flags.len()
            invariant
                k <= ignored_flags@.len(),
                mask == or_all(ignored_flags@.take(k as int)),
            decreases ignored_flags@.len() - k,
        {
            mask = mask | ignored_flags[k];
            proof {
                assert(ignored_flags@.take(k + 1).drop_last() =~= ignored_flags@.take(k as int));
                assert(ignored_flags@.take(k + 1).last() == ignored_flags@[k as int]);
            }
            k = k + 1;
        }
        proof {
            assert(ignored_flags@.take(ignored_flags@.len() as int) =~= ignored_flags@);
        }
        let it = KPageFlagsIterator {
            reader,
            buf: Vec::new(),
            idx: 0,
            ignored_flags: mask,
            done: false,
        };
        proof {
            assert(it.raw_remaining() =~= words_of(it.reader.stream()));
        }
        it
    }

    /// Yields the next record with the ignore mask cleared, refilling the
    /// batch buffer from the reader when it is exhausted; `Ok(None)` signals
    /// end-of-sequence, and once it has been reported every subsequent call
    /// reports it again. A stream that ends in a partial record yields
    /// `MisalignedStream` after the last whole record.
    pub fn next(&mut self) -> (r: Result<Option<KPageFlags>, ReadError>)
        requires
            old(self).wf(),
        ensures
            final (self).wf(),
            final (self).ignored() == old(self).ignored(),
            old(self).finished() ==> r matches Ok(None),
            match r {
                Ok(Some(f)) => {
                    &&& old(self).raw_remaining().len() > 0
                    &&& f@ == old(self).raw_remaining()[0] & !old(self).ignored()
                    &&& final (self).raw_remaining() == old(self).raw_remaining().skip(1)
                    &&& final (self).tail_len() == old(self).tail_len()
                    &&& !final (self).finished()
                },
                Ok(None) => {
                    &&& old(self).raw_remaining().len() == 0
                    &&& old(self).tail_len() == 0
                    &&& final (self).finished()
                    &&& final (self).raw_remaining().len() == 0
                    &&& final (self).tail_len() == 0
                },
                Err(e) => {
                    &&& final (self).raw_remaining() == old(self).raw_remaining()
                    &&& final (self).tail_len() == old(self).tail_len()
                    &&& final (self).finished() == old(self).finished()
                    &&& (e is MisalignedStream ==> old(self).raw_remaining().len() == 0 && old(
                        self,
                    ).tail_len() > 0)
                },
            },
            old(self).raw_remaining().len() > 0 ==> (r matches Ok(Some(_)) || (r matches Err(e)
                && e is IoFailure)),
    {
        if self.done {
            return Ok(None);
        }
        // Need to read some more?
        if self.idx == self.buf.len() {
            let ghost s = self.reader.stream();
            proof {
                assert(old(self).raw_remaining() =~= words_of(s));
            }
            let recs = match self.reader.read(BATCH_RECORDS) {
                Err(e) => {
                    return Err(e);
                },
                Ok(recs) => recs,
            };
            if recs.len() == 0 {
                // End of the stream, with no partial record left behind.
                proof {
                    assert(s.skip(0) =~= s);
                }
                self.buf = recs;
                self.idx = 0;
                self.done = true;
                return Ok(None);
            }
            proof {
                let n = recs@.len() as int;
                lemma_words_of_skip(s, n);
                assert(raw_words(recs@) =~= words_of(s).take(n));
            }
            self.buf = recs;
            self.idx = 0;
            proof {
                assert(self.buf@.skip(0) =~= self.buf@);
                assert(self.raw_remaining() =~= old(self).raw_remaining());
            }
        }
        // Return the first valid flags.
        let ghost pre = *self;
        let mut item = self.buf[self.idx];
        self.idx = self.idx + 1;
        item.clear(self.ignored_flags);
        proof {
            assert(pre.raw_remaining() =~= old(self).raw_remaining());
            assert(pre.raw_remaining()[0] == self.buf@[pre.idx as int]@);
            assert(self.raw_remaining() =~= pre.raw_remaining().skip(1));
        }
        Ok(Some(item))
    }
}

} // verus!
