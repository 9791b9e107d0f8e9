//! Tests for the flag schemes and the flag-set value type.

use pageflags::kpageflags::KPageFlags;
use pageflags::kpageflags::flags::{FlagCatalog, FlagScheme, Flaggy};

fn mask_of(ranges: &[(u64, u64)]) -> u64 {
    let mut m = 0u64;
    for &(lo, hi) in ranges {
        for p in lo..=hi {
            m |= 1u64 << p;
        }
    }
    m
}

#[test]
fn valid_mask_3_10_0() {
    let s = FlagScheme::kpf3_10_0();
    let expected = mask_of(&[(0, 25), (32, 39), (48, 51)]);
    assert_eq!(s.valid_mask(), expected);
    assert_eq!(s.catalog.mask, expected);
    assert_eq!(s.pgtable, None);
}

#[test]
fn valid_mask_4_15_0() {
    let s = FlagScheme::kpf4_15_0();
    let expected = mask_of(&[(0, 25), (32, 40), (48, 51), (61, 63)]);
    assert_eq!(s.valid_mask(), expected);
    assert_eq!(s.catalog.mask, expected);
    assert_eq!(s.pgtable, None);
}

#[test]
fn valid_mask_5_0_8() {
    let s = FlagScheme::kpf5_0_8();
    let expected = mask_of(&[(0, 26), (32, 40), (48, 51), (61, 63)]);
    assert_eq!(s.valid_mask(), expected);
    assert_eq!(s.pgtable, Some(1u64 << 26));
}

#[test]
fn valid_mask_5_4_0_and_later() {
    let expected_5_4 = mask_of(&[(0, 26), (32, 40), (48, 51), (61, 63)]);
    assert_eq!(FlagScheme::kpf5_4_0().valid_mask(), expected_5_4);
    let expected_5_13 = mask_of(&[(0, 26), (32, 41), (48, 51), (61, 63)]);
    assert_eq!(FlagScheme::kpf5_13_0().valid_mask(), expected_5_13);
    assert_eq!(FlagScheme::kpf5_15_0().valid_mask(), expected_5_13);
    assert_eq!(FlagScheme::kpf5_17_0().valid_mask(), expected_5_13);
    let expected_6_0 = mask_of(&[(0, 26), (32, 41), (47, 47), (48, 51), (61, 63)]);
    assert_eq!(FlagScheme::kpf6_0_0().valid_mask(), expected_6_0);
}

#[test]
fn positions_pairwise_distinct() {
    // The proved invariant, checked concretely on every scheme's table.
    let schemes = [
        FlagScheme::kpf3_10_0(),
        FlagScheme::kpf4_15_0(),
        FlagScheme::kpf5_0_8(),
        FlagScheme::kpf5_4_0(),
        FlagScheme::kpf5_13_0(),
        FlagScheme::kpf5_15_0(),
        FlagScheme::kpf5_17_0(),
        FlagScheme::kpf6_0_0(),
    ];
    for s in &schemes {
        let entries = &s.catalog.entries;
        let mut or = 0u64;
        for i in 0..entries.len() {
            for j in (i + 1)..entries.len() {
                assert_ne!(entries[i].pos, entries[j].pos);
            }
            or |= 1u64 << entries[i].pos;
        }
        assert_eq!(or, s.catalog.mask);
    }
}

#[test]
fn named_bits_are_stable() {
    let s = FlagScheme::kpf5_4_0();
    assert_eq!(s.nopage, 1 << 20);
    assert_eq!(s.compound_head, 1 << 15);
    assert_eq!(s.compound_tail, 1 << 16);
    assert_eq!(s.buddy, 1 << 10);
    assert_eq!(s.slab, 1 << 7);
    assert_eq!(s.reserved, 1 << 32);
    assert_eq!(s.mmap, 1 << 11);
    assert_eq!(s.lru, 1 << 5);
    assert_eq!(s.anon, 1 << 12);
    assert_eq!(s.thp, 1 << 22);
    assert_eq!(s.private, 1 << 35);
    assert_eq!(s.private2, 1 << 36);
    assert_eq!(s.ownerprivate1, 1 << 37);
}

#[test]
fn flag_from_name_known() {
    let s = FlagScheme::kpf3_10_0();
    assert_eq!(s.catalog.flag_from_name("Buddy"), Ok(10));
    assert_eq!(s.catalog.flag_from_name("Locked"), Ok(0));
    assert_eq!(s.catalog.flag_from_name("Slubdebug"), Ok(51));
    assert_eq!(s.catalog.flag_from_name("Balloon"), Ok(23));
}

#[test]
fn flag_from_name_unknown() {
    let s = FlagScheme::kpf3_10_0();
    assert!(s.catalog.flag_from_name("Pgtable").is_err());
    assert!(s.catalog.flag_from_name("NotAFlag").is_err());
    assert!(s.catalog.flag_from_name("").is_err());
    // `Offline` replaced `Balloon` only from 5.0.8 onward.
    assert!(s.catalog.flag_from_name("Offline").is_err());
    assert_eq!(FlagScheme::kpf5_0_8().catalog.flag_from_name("Offline"), Ok(23));
}

#[test]
fn from_flag_single_bit() {
    let s = FlagScheme::kpf5_4_0();
    let f = KPageFlags::from_flag(&s, "Lru").unwrap();
    assert_eq!(f.as_u64(), 1 << 5);
    assert!(KPageFlags::from_flag(&s, "Bogus").is_err());
}

#[test]
fn empty_and_bit_tests() {
    let e = KPageFlags::empty();
    assert_eq!(e.as_u64(), 0);
    let f = KPageFlags::from_bits(0b101);
    assert!(f.all(0b101));
    assert!(f.all(0b100));
    assert!(!f.all(0b111));
    assert!(f.any(0b001));
    assert!(f.any(0b110));
    assert!(!f.any(0b010));
    assert!(!e.any(u64::MAX));
}

#[test]
fn bitwise_combinators() {
    let a = KPageFlags::from_bits(0b1100);
    let b = KPageFlags::from_bits(0b1010);
    assert_eq!(a.or(b).as_u64(), 0b1110);
    assert_eq!(a.and(b).as_u64(), 0b1000);
    assert_eq!(a.xor(b).as_u64(), 0b0110);
    assert_eq!(a.not().as_u64(), !0b1100u64);
}

#[test]
fn can_combine_identical() {
    let s = FlagScheme::kpf5_4_0();
    let a = KPageFlags::from_bits(0xDEAD_BEEF);
    assert!(KPageFlags::can_combine(&s, a, a));
    let e = KPageFlags::empty();
    assert!(KPageFlags::can_combine(&s, e, e));
}

#[test]
fn can_combine_compound_pair() {
    let s = FlagScheme::kpf5_4_0();
    // Head and tail may carry any other bits.
    let head = KPageFlags::from_bits(s.compound_head | s.lru);
    let tail = KPageFlags::from_bits(s.compound_tail | (1 << 4));
    assert!(KPageFlags::can_combine(&s, head, tail));
    // Order matters: the head must come first.
    assert!(!KPageFlags::can_combine(&s, tail, head));
}

#[test]
fn can_combine_unrelated() {
    let s = FlagScheme::kpf5_4_0();
    let a = KPageFlags::from_bits(s.lru);
    let b = KPageFlags::from_bits(1 << 4); // Dirty
    assert!(!KPageFlags::can_combine(&s, a, b));
}

#[test]
fn clear_removes_exactly_the_mask() {
    // A handful of scattered values and masks: after clearing, no masked bit
    // survives and every unmasked bit is untouched.
    let values = [0u64, u64::MAX, 0x0123_4567_89AB_CDEF, 0xFFFF_0000_FFFF_0000, 0x8000_0000_0000_0001];
    let masks = [0u64, u64::MAX, 0x00FF_00FF_00FF_00FF, 1 << 25, 0xF0F0_F0F0_F0F0_F0F0];
    for &v in &values {
        for &m in &masks {
            let mut f = KPageFlags::from_bits(v);
            f.clear(m);
            assert!(!f.any(m));
            for b in 0..64u64 {
                if (m >> b) & 1 == 0 {
                    assert_eq!((f.as_u64() >> b) & 1, (v >> b) & 1);
                }
            }
        }
    }
}

#[test]
fn invalid_bits_detection() {
    let s = FlagScheme::kpf3_10_0();
    let ok = KPageFlags::from_bits(1 << 10);
    assert_eq!(ok.invalid_bits(&s), 0);
    // Bit 26 is not declared by the 3.10.0 scheme.
    let bad = KPageFlags::from_bits((1 << 10) | (1 << 26));
    assert_eq!(bad.invalid_bits(&s), 1 << 26);
}

#[test]
fn render_names_in_ascending_order() {
    let s = FlagScheme::kpf3_10_0();
    let f = KPageFlags::from_bits((1 << 5) | 1); // Lru | Locked
    assert_eq!(f.render(&s), "Locked Lru ");
    assert_eq!(KPageFlags::empty().render(&s), "");
}

#[test]
fn render_surfaces_invalid_bits() {
    let s = FlagScheme::kpf3_10_0();
    let f = KPageFlags::from_bits(1 | (1 << 30));
    assert_eq!(f.render(&s), "Locked INVALID BITS: 40000000");
    let only_bad = KPageFlags::from_bits(1 << 62);
    assert_eq!(only_bad.render(&s), "INVALID BITS: 4000000000000000");
}

#[test]
fn custom_catalog_builder() {
    let mut c = FlagCatalog::empty();
    c.add_flag(2, "Two");
    c.add_flag(7, "Seven");
    assert_eq!(c.mask, (1 << 2) | (1 << 7));
    assert_eq!(c.flag_from_name("Seven"), Ok(7));
    assert_eq!(c.render(1 << 7), "Seven ");
    assert_eq!(c.values(), vec![2, 7]);
}

#[test]
fn values_enumerates_all_positions() {
    let s = FlagScheme::kpf3_10_0();
    let mut expected: Vec<u64> = (0..=25).collect();
    expected.extend(32..=39);
    expected.extend(48..=51);
    assert_eq!(s.catalog.values(), expected);
}
