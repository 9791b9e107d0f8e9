//! Tools for decoding the fixed-width binary records exposed by the kernel's
//! page-introspection files (`/proc/kpageflags` and `/proc/[pid]/pagemap`).
//!
//! The crate turns an arbitrary byte source into an exact sequence of 8-byte
//! records, interprets each record as a set of named flag bits under a
//! versioned flag scheme, and offers a batching iterator with an optional
//! ignore mask for suppressing high-churn bits before comparison.

use core::marker::PhantomData;
use vstd::prelude::*;

pub mod kpageflags;
pub mod pagemap;
pub mod source;

verus! {

use vstd::bytes::spec_u64_from_le_bytes;

/// Size in bytes of one record: one 64-bit word per page.
pub const RECORD_SIZE: usize = 8;

/// Errors reported by the streaming record decoder.
#[derive(Clone, Copy, Debug, PartialEq, Eq, Structural)]
pub enum ReadError {
    /// The underlying byte source failed to produce bytes.
    IoFailure,
    /// The source ended with a nonzero remainder smaller than one record:
    /// the input is truncated or was not encoded as expected.
    MisalignedStream,
}

/// A sequential source of bytes: the collaborator that supplies record data.
///
/// The decoder only needs to peek at the available bytes (`fill`) and to
/// discard a consumed prefix (`consume`); `remaining` is the ghost model of
/// the bytes not yet consumed.
pub trait ByteSource {
    /// The bytes this source has not yet handed out. The default model is
    /// the empty stream; a verified source overrides it with its own.
    open spec fn remaining(&self) -> Seq<u8> {
        Seq::empty()
    }

    /// Returns a copy of some nonempty prefix of the remaining bytes without
    /// consuming it; an empty chunk signals end of stream.
    fn fill(&mut self) -> (r: Result<Vec<u8>, ReadError>)
        ensures
            final (self).remaining() == old(self).remaining(),
            match r {
                Ok(chunk) => {
                    &&& chunk@.len() <= old(self).remaining().len()
                    &&& chunk@ == old(self).remaining().take(chunk@.len() as int)
                    &&& (chunk@.len() == 0 <==> old(self).remaining().len() == 0)
                },
                Err(e) => e is IoFailure,
            },
    ;

    /// Discards the first `amt` remaining bytes.
    fn consume(&mut self, amt: usize)
        requires
            amt <= old(self).remaining().len(),
        ensures
            final (self).remaining() == old(self).remaining().skip(amt as int),
    ;
}

/// Indicates that the implementing type stands for one 8-byte record and can
/// be built from the record's 64-bit little-endian word.
pub trait FileReadable: Sized {
    /// The raw 64-bit word this value stands for.
    spec fn word(self) -> u64;

    /// Builds the value for the given raw word.
    fn from_word(word: u64) -> (r: Self)
        ensures
            r.word() == word,
    ;
}

/// The sequence of 64-bit records encoded by a byte sequence, in order;
/// trailing bytes that do not fill a whole record are not part of it.
pub open spec fn words_of(bytes: Seq<u8>) -> Seq<u64> {
    Seq::new(bytes.len() / 8, |i: int| spec_u64_from_le_bytes(bytes.subrange(8 * i, 8 * i + 8)))
}

/// The little-endian byte encoding of a sequence of 64-bit records, in
/// order: eight bytes per record.
pub open spec fn bytes_of(words: Seq<u64>) -> Seq<u8>
    decreases words.len(),
{
    if words.len() == 0 {
        Seq::empty()
    } else {
        bytes_of(words.drop_last()) + vstd::bytes::spec_u64_to_le_bytes(words.last())
    }
}

/// Round trip: encoding any sequence of records as little-endian bytes and
/// decoding the bytes again yields exactly the same records, in the same
/// order.
pub proof fn lemma_words_round_trip(words: Seq<u64>)
    ensures
        bytes_of(words).len() == 8 * words.len(),
        words_of(bytes_of(words)) =~= words,
    decreases words.len(),
{
    vstd::bytes::lemma_auto_spec_u64_to_from_le_bytes();
    if words.len() > 0 {
        let shorter = words.drop_last();
        lemma_words_round_trip(shorter);
        let bytes = bytes_of(words);
        assert(bytes.len() == 8 * words.len());
        assert(bytes.len() / 8 == words.len()) by (nonlinear_arith)
            requires
                bytes.len() == 8 * words.len(),
        ;
        assert forall|i: int| 0 <= i < words.len() implies words_of(bytes)[i] == words[i] by {
            if i < words.len() - 1 {
                assert(bytes.subrange(8 * i, 8 * i + 8) =~= bytes_of(shorter).subrange(
                    8 * i,
                    8 * i + 8,
                ));
                assert(words_of(bytes)[i] == words_of(bytes_of(shorter))[i]);
                assert(words_of(bytes_of(shorter))[i] == shorter[i]);
            } else {
                assert(bytes.subrange(8 * i, 8 * i + 8) =~= vstd::bytes::spec_u64_to_le_bytes(
                    words.last(),
                ));
                assert(words_of(bytes)[i] == spec_u64_from_le_bytes(
                    vstd::bytes::spec_u64_to_le_bytes(words.last()),
                ));
            }
        }
    }
}

/// Dropping `n` whole records from the front of a byte stream drops the
/// first `n` decoded words and nothing else.
pub proof fn lemma_words_of_skip(bytes: Seq<u8>, n: int)
    requires
        0 <= n,
        8 * n <= bytes.len(),
    ensures
        words_of(bytes.skip(8 * n)) =~= words_of(bytes).skip(n),
        bytes.skip(8 * n).len() % 8 == bytes.len() % 8,
{
    let rest = bytes.skip(8 * n);
    assert(rest.len() == bytes.len() - 8 * n);
    assert(rest.len() / 8 == bytes.len() / 8 - n && rest.len() % 8 == bytes.len() % 8) by (nonlinear_arith)
        requires
            rest.len() == bytes.len() - 8 * n,
            0 <= n,
            8 * n <= bytes.len(),
    ;
    assert forall|i: int| 0 <= i < words_of(rest).len() implies words_of(rest)[i] == words_of(
        bytes,
    ).skip(n)[i] by {
        assert(rest.subrange(8 * i, 8 * i + 8) =~= bytes.subrange(8 * (n + i), 8 * (n + i) + 8));
    }
}

/// A reader that decodes a byte source into values of a `FileReadable` type,
/// stopping only at record boundaries: a record is only ever exposed once all
/// eight of its contiguous bytes are available, even when they arrive split
/// across several fills of the underlying source.
pub struct FileReadableReader<S: ByteSource, T: FileReadable> {
    source: S,
    pending: Vec<u8>,
    _record: PhantomData<T>,
}

impl<S: ByteSource, T: FileReadable> FileReadableReader<S, T> {
    /// The undecoded byte stream: bytes carried over from a previous call,
    /// followed by everything the source still holds.
    pub closed spec fn stream(self) -> Seq<u8> {
        self.pending@ + self.source.remaining()
    }

    /// Reader invariant: the carried-over remainder is smaller than one
    /// whole record.
    pub closed spec fn wf(self) -> bool {
        self.pending@.len() < 8
    }

    /// Wraps a byte source; no bytes are carried over yet.
    pub fn new(source: S) -> (r: Self)
        ensures
            r.wf(),
            r.stream() == source.remaining(),
    {
        let r = FileReadableReader { source, pending: Vec::new(), _record: PhantomData };
        proof {
            assert(r.stream() =~= source.remaining());
        }
        r
    }

    /// Decodes up to `max_records` whole records from the stream.
    ///
    /// An `Ok` holds the decoded records, in stream order; it is empty
    /// exactly when nothing was asked for or the stream is cleanly at its
    /// end. A stream that ends with a nonzero remainder smaller than one
    /// record yields `MisalignedStream` once every whole record before the
    /// remainder has been handed out; a source failure yields `IoFailure`.
    /// How the source fragments its chunks never affects the result.
    #[verifier::loop_isolation(false)]
    pub fn read(&mut self, max_records: usize) -> (r: Result<Vec<T>, ReadError>)
        requires
            old(self).wf(),
        ensures
            final (self).wf(),
            match r {
                Ok(records) => {
                    &&& records@.len() <= max_records
                    &&& 8 * records@.len() <= old(self).stream().len()
                    &&& (forall|i: int|
                        0 <= i < records@.len() ==> (#[trigger] records@[i]).word() == words_of(
                            old(self).stream(),
                        )[i])
                    &&& final (self).stream() == old(self).stream().skip(8 * records@.len() as int)
                    &&& (records@.len() == 0 <==> (max_records == 0 || old(self).stream().len()
                        == 0))
                },
                Err(e) => {
                    &&& final (self).stream() == old(self).stream()
                    &&& (e is MisalignedStream ==> max_records > 0 && 0 < old(self).stream().len()
                        < 8)
                },
            },
            (max_records > 0 && 0 < old(self).stream().len() < 8) ==> r is Err,
    {
        if max_records == 0 {
            return Ok(Vec::new());
        }
        loop
            invariant
                self.wf(),
                self.stream() == old(self).stream(),
            decreases self.source.remaining().len(),
        {
            let ghost rem0 = self.source.remaining();
            let ghost pending0 = self.pending@;
            let chunk = match self.source.fill() {
                Ok(c) => c,
                Err(_) => {
                    return Err(ReadError::IoFailure);
                },
            };
            if chunk.len() == 0 {
                // End of stream: only the carried-over remainder is left.
                if self.pending.len() == 0 {
                    assert(self.stream().len() == 0);
                    return Ok(Vec::new());
                }
                return Err(ReadError::MisalignedStream);
            }
            let need = 8 - self.pending.len();
            if chunk.len() < need {
                // Too short to finish even one record: absorb the whole
                // chunk into the carried-over remainder and pull again.
                let clen = chunk.len();
                let mut k: usize = 0;
                while k < clen
                    invariant
                        k <= clen,
                        self.pending@ == pending0 + chunk@.take(k as int),
                        self.source.remaining() == rem0,
                    decreases clen - k,
                {
                    self.pending.push(chunk[k]);
                    proof {
                        assert(self.pending@ =~= pending0 + chunk@.take(k + 1));
                    }
                    k = k + 1;
                }
                self.source.consume(clen);
                proof {
                    assert(self.pending@ =~= pending0 + chunk@);
                    assert(self.stream() =~= pending0 + rem0);
                }
            } else {
                // At least one whole record can be completed: take as many
                // whole records as are available and wanted, and stop.
                let extra = chunk.len() - need;
                let nrec_avail = 1 + extra / 8;
                let nrec = if nrec_avail < max_records {
                    nrec_avail
                } else {
                    max_records
                };
                proof {
                    assert((extra / 8) * 8 <= extra && extra / 8 >= 0) by (nonlinear_arith);
                }
                let take = need + (nrec - 1) * 8;
                // Gather the bytes of the complete records: the remainder
                // carried over, then the aligned prefix of the chunk.
                let mut work: Vec<u8> = Vec::new();
                let plen = self.pending.len();
                let mut k: usize = 0;
                while k < plen
                    invariant
                        k <= plen,
                        work@ == pending0.take(k as int),
                    decreases plen - k,
                {
                    work.push(self.pending[k]);
                    proof {
                        assert(work@ =~= pending0.take(k + 1));
                    }
                    k = k + 1;
                }
                proof {
                    assert(work@ =~= pending0);
                }
                let mut k2: usize = 0;
                while k2 < take
                    invariant
                        k2 <= take,
                        work@ == pending0 + chunk@.take(k2 as int),
                    decreases take - k2,
                {
                    work.push(chunk[k2]);
                    proof {
                        assert(work@ =~= pending0 + chunk@.take(k2 + 1));
                    }
                    k2 = k2 + 1;
                }
                assert(work.len() == 8 * nrec);
                proof {
                    assert(chunk@.take(take as int) =~= rem0.take(take as int));
                    assert(work@ =~= old(self).stream().take(8 * nrec));
                }
                // Decode each record word.
                let mut records: Vec<T> = Vec::new();
                let mut j: usize = 0;
                while j < nrec
                    invariant
                        j <= nrec,
                        records@.len() == j,
                        forall|i: int|
                            0 <= i < j ==> (#[trigger] records@[i]).word() == spec_u64_from_le_bytes(
                                work@.subrange(8 * i, 8 * i + 8),
                            ),
                    decreases nrec - j,
                {
                    let lo = 8 * j;
                    let s = vstd::slice::slice_subrange(work.as_slice(), lo, lo + 8);
                    let w = vstd::bytes::u64_from_le_bytes(s);
                    records.push(T::from_word(w));
                    j = j + 1;
                }
                self.source.consume(take);
                self.pending = Vec::new();
                proof {
                    let s0 = old(self).stream();
                    assert(8 * nrec <= s0.len());
                    assert(nrec <= s0.len() / 8) by (nonlinear_arith)
                        requires
                            8 * nrec <= s0.len(),
                    ;
                    assert forall|i: int| 0 <= i < nrec implies (#[trigger] records@[i]).word()
                        == words_of(s0)[i] by {
                        assert(work@.subrange(8 * i, 8 * i + 8) =~= s0.subrange(8 * i, 8 * i + 8));
                    }
                    assert(self.stream() =~= s0.skip(8 * nrec));
                }
                return Ok(records);
            }
        }
    }
}

/// A reader over the records of the `/proc/kpageflags` file.
pub type KPageFlagsReader<S> = FileReadableReader<S, kpageflags::KPageFlags>;

/// A reader over the records of a `/proc/[pid]/pagemap` file.
pub type PageMapReader<S> = FileReadableReader<S, pagemap::PageMapPage>;

} // verus!
