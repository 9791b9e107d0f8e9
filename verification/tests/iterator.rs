//! Tests for the batching record iterator.

use pageflags::source::MemorySource;
use pageflags::{FileReadableReader, KPageFlagsReader, ReadError};
use pageflags::kpageflags::flags::FlagScheme;
use pageflags::kpageflags::read::KPageFlagsIterator;
use pageflags::kpageflags::KPageFlags;

fn encode(words: &[u64]) -> Vec<u8> {
    let mut out = Vec::new();
    for w in words {
        out.extend_from_slice(&w.to_le_bytes());
    }
    out
}

fn iterator_over(words: &[u64], ignored: &[u64]) -> KPageFlagsIterator<MemorySource> {
    let src = MemorySource::new(encode(words));
    let reader: KPageFlagsReader<MemorySource> = FileReadableReader::new(src);
    KPageFlagsIterator::new(reader, ignored)
}

fn collect(it: &mut KPageFlagsIterator<MemorySource>) -> Result<Vec<u64>, ReadError> {
    let mut out = Vec::new();
    loop {
        match it.next()? {
            Some(f) => out.push(f.as_u64()),
            None => return Ok(out),
        }
    }
}

#[test]
fn yields_records_in_order() {
    let mut it = iterator_over(&[0x1, 0x21, 0x0], &[]);
    assert_eq!(collect(&mut it), Ok(vec![0x1, 0x21, 0x0]));
}

#[test]
fn round_trip_is_fragmentation_independent() {
    let words = [0x1u64, 0x21, 0x0];
    let data = encode(&words);
    for schedule in [vec![1usize; 24], vec![24usize], vec![5usize; 5], vec![7, 1, 16]] {
        let src = MemorySource::with_chunk_sizes(data.clone(), schedule);
        let reader: KPageFlagsReader<MemorySource> = FileReadableReader::new(src);
        let mut it = KPageFlagsIterator::new(reader, &[]);
        assert_eq!(collect(&mut it), Ok(vec![0x1, 0x21, 0x0]));
    }
}

#[test]
fn end_of_sequence_is_sticky() {
    let mut it = iterator_over(&[0x5], &[]);
    assert_eq!(it.next(), Ok(Some(KPageFlags::from_bits(0x5))));
    for _ in 0..5 {
        assert_eq!(it.next(), Ok(None));
    }
}

#[test]
fn empty_stream_ends_immediately() {
    let mut it = iterator_over(&[], &[]);
    assert_eq!(it.next(), Ok(None));
    assert_eq!(it.next(), Ok(None));
}

#[test]
fn ignore_mask_clears_only_requested_bits() {
    let s = FlagScheme::kpf5_4_0();
    // Records carrying Lru and Dirty churn bits beside stable flags.
    let words = [s.lru | s.buddy, (1 << 4) | s.slab, s.lru | (1 << 4)];
    let mut it = iterator_over(&words, &[s.lru, 1 << 4]);
    assert_eq!(collect(&mut it), Ok(vec![s.buddy, s.slab, 0]));
}

#[test]
fn empty_ignore_list_clears_nothing() {
    let words = [u64::MAX, 0x1234];
    let mut it = iterator_over(&words, &[]);
    assert_eq!(collect(&mut it), Ok(vec![u64::MAX, 0x1234]));
}

#[test]
fn misaligned_tail_surfaces_after_whole_records() {
    let mut data = encode(&[0xA, 0xB]);
    data.push(0x77);
    let src = MemorySource::new(data);
    let reader: KPageFlagsReader<MemorySource> = FileReadableReader::new(src);
    let mut it = KPageFlagsIterator::new(reader, &[]);
    assert_eq!(it.next(), Ok(Some(KPageFlags::from_bits(0xA))));
    assert_eq!(it.next(), Ok(Some(KPageFlags::from_bits(0xB))));
    assert_eq!(it.next(), Err(ReadError::MisalignedStream));
    // The truncated remainder never turns into a record.
    assert_eq!(it.next(), Err(ReadError::MisalignedStream));
}

#[test]
fn many_records_cross_batch_logic() {
    let words: Vec<u64> = (0..1000u64).collect();
    let data = encode(&words);
    let src = MemorySource::with_chunk_sizes(data, vec![64; 200]);
    let reader: KPageFlagsReader<MemorySource> = FileReadableReader::new(src);
    let mut it = KPageFlagsIterator::new(reader, &[]);
    assert_eq!(collect(&mut it), Ok(words));
}
