//! Versioned catalogs of named flag-bit positions for `/proc/kpageflags`.
//!
//! Each supported kernel release family gets one [`FlagScheme`]: an immutable
//! table mapping symbolic flag names to bit positions, with a derived validity
//! mask. Schemes are data, built once by the constructors below and never
//! mutated afterwards.

use vstd::prelude::*;

verus! {

use vstd::string::StringExecFns;

/// A flag lookup was made with a name the scheme does not declare.
#[derive(Clone, Copy, Debug, PartialEq, Eq, Structural)]
pub struct UnknownFlagName;

/// One declared flag: a symbolic name and its bit position.
#[derive(Clone, Copy, Debug)]
pub struct FlagEntry {
    pub pos: u64,
    pub name: &'static str,
}

/// The bitwise OR of `1 << p` over all positions `p`, i.e. the validity mask
/// derived from a catalog's declared positions.
pub open spec fn or_of(positions: Seq<u64>) -> u64
    decreases positions.len(),
{
    if positions.len() == 0 {
        0u64
    } else {
        or_of(positions.drop_last()) | (1u64 << positions.last())
    }
}

/// A catalog of named bit positions together with its validity mask.
///
/// Well-formed catalogs keep their entries in strictly ascending position
/// order (so positions are pairwise distinct) and keep `mask` equal to the OR
/// of all declared positions' bits.
pub struct FlagCatalog {
    pub entries: Vec<FlagEntry>,
    pub mask: u64,
}

impl FlagCatalog {
    /// The declared bit positions, in declaration order.
    pub open spec fn positions(self) -> Seq<u64> {
        self.entries@.map_values(|e: FlagEntry| e.pos)
    }

    /// Catalog invariant: positions strictly ascending (hence pairwise
    /// distinct), all below 64, and the mask is the OR of all of them.
    pub open spec fn wf(self) -> bool {
        &&& forall|i: int, j: int|
            0 <= i < j < self.entries@.len() ==> self.entries@[i].pos < self.entries@[j].pos
        &&& forall|i: int| 0 <= i < self.entries@.len() ==> (#[trigger] self.entries@[i]).pos < 64
        &&& self.mask == or_of(self.positions())
    }

    /// An empty catalog: no declared flags, all-zero validity mask.
    pub fn empty() -> (c: Self)
        ensures
            c.wf(),
            c.entries@.len() == 0,
            c.mask == 0u64,
    {
        let c = FlagCatalog { entries: Vec::new(), mask: 0 };
        proof {
            assert(c.positions() =~= Seq::<u64>::empty());
        }
        c
    }

    /// Declares one more flag. Positions must be added in ascending order,
    /// which keeps the catalog well-formed.
    pub fn add_flag(&mut self, pos: u64, name: &'static str)
        requires
            old(self).wf(),
            pos < 64,
            old(self).entries@.len() == 0 || old(self).entries@.last().pos < pos,
        ensures
            final (self).wf(),
            final (self).entries@ == old(self).entries@.push((FlagEntry { pos, name })),
            final (self).positions() == old(self).positions().push(pos),
            final (self).mask == old(self).mask | (1u64 << pos),
    {
        self.entries.push(FlagEntry { pos, name });
        self.mask = self.mask | (1u64 << pos);
        proof {
            assert(self.positions() =~= old(self).positions().push(pos));
            assert(self.positions().drop_last() =~= old(self).positions());
        }
    }
}

/// The text of one hexadecimal digit, uppercase.
pub open spec fn hex_digit(d: u64) -> Seq<char> {
    if d == 0 {
        "0"@
    } else if d == 1 {
        "1"@
    } else if d == 2 {
        "2"@
    } else if d == 3 {
        "3"@
    } else if d == 4 {
        "4"@
    } else if d == 5 {
        "5"@
    } else if d == 6 {
        "6"@
    } else if d == 7 {
        "7"@
    } else if d == 8 {
        "8"@
    } else if d == 9 {
        "9"@
    } else if d == 10 {
        "A"@
    } else if d == 11 {
        "B"@
    } else if d == 12 {
        "C"@
    } else if d == 13 {
        "D"@
    } else if d == 14 {
        "E"@
    } else {
        "F"@
    }
}

/// The text of a value in uppercase hexadecimal, without leading zeros.
pub open spec fn hex_text(v: u64) -> Seq<char>
    decreases v,
{
    if v < 16 {
        hex_digit(v)
    } else {
        hex_text(v / 16) + hex_digit(v % 16)
    }
}

/// The one hexadecimal digit for `d`, uppercase.
fn hex_str_digit(d: u64) -> (r: &'static str)
    requires
        d < 16,
    ensures
        r@ == hex_digit(d),
{
    if d == 0 {
        "0"
    } else if d == 1 {
        "1"
    } else if d == 2 {
        "2"
    } else if d == 3 {
        "3"
    } else if d == 4 {
        "4"
    } else if d == 5 {
        "5"
    } else if d == 6 {
        "6"
    } else if d == 7 {
        "7"
    } else if d == 8 {
        "8"
    } else if d == 9 {
        "9"
    } else if d == 10 {
        "A"
    } else if d == 11 {
        "B"
    } else if d == 12 {
        "C"
    } else if d == 13 {
        "D"
    } else if d == 14 {
        "E"
    } else {
        "F"
    }
}

/// Renders `v` in uppercase hexadecimal, without leading zeros.
pub fn hex_string(v: u64) -> (s: String)
    ensures
        s@ == hex_text(v),
    decreases v,
{
    if v < 16 {
        let mut s = String::new();
        s.append(hex_str_digit(v));
        proof {
            assert(s@ =~= hex_digit(v));
        }
        s
    } else {
        proof {
            assert(v / 16 < v) by (nonlinear_arith)
                requires
                    v >= 16,
            ;
        }
        let mut s = hex_string(v / 16);
        s.append(hex_str_digit(v % 16));
        s
    }
}

/// The text one catalog entry contributes to a rendering: its name and a
/// space if its bit is set, nothing otherwise.
pub open spec fn entry_text(e: FlagEntry, bits: u64) -> Seq<char> {
    if bits & (1u64 << e.pos) == (1u64 << e.pos) {
        e.name@ + " "@
    } else {
        Seq::<char>::empty()
    }
}

/// The space-joined names of every set, catalog-valid bit, in declaration
/// (hence ascending position) order.
pub open spec fn names_text(entries: Seq<FlagEntry>, bits: u64) -> Seq<char>
    decreases entries.len(),
{
    if entries.len() == 0 {
        Seq::<char>::empty()
    } else {
        names_text(entries.drop_last(), bits) + entry_text(entries.last(), bits)
    }
}

/// The full rendering of a flag word: the set flag names, then the
/// invalid-bits marker exactly when some bit outside the validity mask is
/// set.
pub open spec fn rendered(entries: Seq<FlagEntry>, mask: u64, bits: u64) -> Seq<char> {
    if bits & !mask != 0 {
        names_text(entries, bits) + "INVALID BITS: "@ + hex_text(bits & !mask)
    } else {
        names_text(entries, bits)
    }
}

/// The position of the first catalog entry named `name`, if any.
pub open spec fn find_name(entries: Seq<FlagEntry>, name: Seq<char>) -> Option<u64>
    decreases entries.len(),
{
    if entries.len() == 0 {
        Option::None
    } else if entries[0].name@ == name {
        Option::Some(entries[0].pos)
    } else {
        find_name(entries.skip(1), name)
    }
}

/// A successful name lookup returns the position of some entry of the
/// catalog.
pub proof fn lemma_find_name_position(entries: Seq<FlagEntry>, name: Seq<char>)
    requires
        find_name(entries, name) is Some,
    ensures
        exists|i: int|
            0 <= i < entries.len() && (#[trigger] entries[i]).pos == find_name(
                entries,
                name,
            )->Some_0 && entries[i].name@ == name,
    decreases entries.len(),
{
    if entries.len() == 0 {
    } else if entries[0].name@ == name {
        assert(entries[0].pos == find_name(entries, name)->Some_0);
    } else {
        lemma_find_name_position(entries.skip(1), name);
        let i = choose|i: int|
            0 <= i < entries.skip(1).len() && (#[trigger] entries.skip(1)[i]).pos == find_name(
                entries.skip(1),
                name,
            )->Some_0 && entries.skip(1)[i].name@ == name;
        assert(entries[i + 1] == entries.skip(1)[i]);
    }
}

impl FlagCatalog {
    /// Produces the names of every set, catalog-valid bit (in ascending
    /// bit-position order) space-joined, followed by the literal marker
    /// `INVALID BITS: <hex>` exactly when any bit outside the catalog's
    /// validity mask is set. Invalid data is never hidden: this is its sole
    /// visibility mechanism.
    #[verifier::loop_isolation(false)]
    pub fn render(&self, bits: u64) -> (s: String)
        requires
            self.wf(),
        ensures
            s@ == rendered(self.entries@, self.mask, bits),
    {
        let mut s = String::new();
        let mut k: usize = 0;
        proof {
            assert(s@ =~= names_text(self.entries@.take(0), bits));
        }
        while k < self.entries.len()
            invariant
                k <= self.entries@.len(),
                s@ == names_text(self.entries@.take(k as int), bits),
            decreases self.entries@.len() - k,
        {
            let e = self.entries[k];
            let bit = 1u64 << e.pos;
            if bits & bit == bit {
                s.append(e.name);
                s.append(" ");
            }
            proof {
                let taken = self.entries@.take(k + 1);
                assert(taken.drop_last() =~= self.entries@.take(k as int));
                assert(taken.last() == e);
                assert(s@ =~= names_text(taken, bits));
            }
            k = k + 1;
        }
        proof {
            assert(self.entries@.take(self.entries@.len() as int) =~= self.entries@);
        }
        let invalid = bits & !self.mask;
        if invalid != 0 {
            s.append("INVALID BITS: ");
            let digits = hex_string(invalid);
            s.append(digits.as_str());
            proof {
                assert(s@ =~= rendered(self.entries@, self.mask, bits));
            }
        }
        s
    }

    /// The declared bit positions, in ascending order.
    pub fn values(&self) -> (r: Vec<u64>)
        ensures
            r@ == self.positions(),
    {
        let mut r: Vec<u64> = Vec::new();
        let mut k: usize = 0;
        while k < self.entries.len()
            invariant
                k <= self.entries@.len(),
                r@ == self.positions().take(k as int),
            decreases self.entries@.len() - k,
        {
            r.push(self.entries[k].pos);
            proof {
                assert(r@ =~= self.positions().take(k + 1));
            }
            k = k + 1;
        }
        proof {
            assert(self.positions().take(self.entries@.len() as int) =~= self.positions());
        }
        r
    }

    /// Looks a symbolic flag name up in the catalog, returning its bit
    /// position, or `UnknownFlagName` exactly when no entry carries that
    /// name.
    #[verifier::loop_isolation(false)]
    pub fn flag_from_name(&self, name: &str) -> (r: Result<u64, UnknownFlagName>)
        ensures
            match r {
                Ok(p) => find_name(self.entries@, name@) == Some(p),
                Err(_) => find_name(self.entries@, name@) is None,
            },
    {
        let target = String::from_str(name);
        let mut k: usize = 0;
        proof {
            assert(self.entries@.skip(0) =~= self.entries@);
        }
        while k < self.entries.len()
            invariant
                k <= self.entries@.len(),
                find_name(self.entries@.skip(k as int), name@) == find_name(self.entries@, name@),
            decreases self.entries@.len() - k,
        {
            let e = self.entries[k];
            let entry_name = String::from_str(e.name);
            if entry_name == target {
                proof {
                    assert(self.entries@.skip(k as int)[0] == e);
                }
                return Ok(e.pos);
            }
            proof {
                assert(self.entries@.skip(k as int)[0] == e);
                assert(self.entries@.skip(k as int).skip(1) =~= self.entries@.skip(k + 1));
            }
            k = k + 1;
        }
        proof {
            assert(self.entries@.skip(self.entries@.len() as int) =~= Seq::<FlagEntry>::empty());
        }
        Err(UnknownFlagName)
    }
}

/// For every well-formed catalog, the declared bit positions are pairwise
/// distinct and the validity mask equals the OR of all declared positions.
pub proof fn lemma_catalog_positions_distinct(c: &FlagCatalog)
    requires
        c.wf(),
    ensures
        forall|i: int, j: int|
            0 <= i < j < c.positions().len() ==> c.positions()[i] != c.positions()[j],
        c.mask == or_of(c.positions()),
{
}

/// A versioned flag scheme: the full catalog of one kernel release family,
/// plus the single-bit masks of the flags every scheme is guaranteed to
/// declare, and the optional page-table bit of newer schemes.
pub struct FlagScheme {
    pub catalog: FlagCatalog,
    pub nopage: u64,
    pub compound_head: u64,
    pub compound_tail: u64,
    pub pgtable: Option<u64>,
    pub buddy: u64,
    pub slab: u64,
    pub reserved: u64,
    pub mmap: u64,
    pub lru: u64,
    pub anon: u64,
    pub thp: u64,
    pub private: u64,
    pub private2: u64,
    pub ownerprivate1: u64,
}

impl FlagScheme {
    /// Scheme invariant: the underlying catalog is well-formed.
    pub open spec fn wf(self) -> bool {
        self.catalog.wf()
    }
}

/// The bit positions every kpageflags scheme declares below position 32.
pub open spec fn base_positions() -> Seq<u64> {
    Seq::new(26, |i: int| i as u64)
}

/// The architecture and ownership bit positions (32 through 39).
pub open spec fn mid_positions() -> Seq<u64> {
    Seq::new(8, |i: int| (32 + i) as u64)
}

/// The slab-internal bit positions (48 through 51).
pub open spec fn slub_positions() -> Seq<u64> {
    Seq::new(4, |i: int| (48 + i) as u64)
}

/// The high per-mapping bit positions (61 through 63).
pub open spec fn high_positions() -> Seq<u64> {
    Seq::new(3, |i: int| (61 + i) as u64)
}

/// The position layout shared by the 5.0.8 and 5.4.0 schemes.
pub open spec fn positions_5_0() -> Seq<u64> {
    base_positions() + seq![26u64] + mid_positions() + seq![40u64] + slub_positions()
        + high_positions()
}

/// The position layout shared by the 5.13.0, 5.15.0 and 5.17.0 schemes.
pub open spec fn positions_5_13() -> Seq<u64> {
    base_positions() + seq![26u64] + mid_positions() + seq![40u64, 41u64] + slub_positions()
        + high_positions()
}

/// The position layout of the 6.0.0 scheme.
pub open spec fn positions_6_0() -> Seq<u64> {
    base_positions() + seq![26u64] + mid_positions() + seq![40u64, 41u64, 47u64]
        + slub_positions() + high_positions()
}

/// The catalog entries every kpageflags scheme starts with: bit positions 0
/// through 25, where only the name of bit 23 differs between release
/// families (`Balloon` in older kernels, `Offline` in newer ones).
fn base_catalog(name23: &'static str) -> (c: FlagCatalog)
    ensures
        c.wf(),
        c.entries@.len() > 0,
        c.entries@.last().pos == 25,
        c.positions() == base_positions(),
{
    let mut c = FlagCatalog::empty();
    c.add_flag(0, "Locked");
    c.add_flag(1, "Error");
    c.add_flag(2, "Referenced");
    c.add_flag(3, "Uptodate");
    c.add_flag(4, "Dirty");
    c.add_flag(5, "Lru");
    c.add_flag(6, "Active");
    c.add_flag(7, "Slab");
    c.add_flag(8, "Writeback");
    c.add_flag(9, "Reclaim");
    c.add_flag(10, "Buddy");
    c.add_flag(11, "Mmap");
    c.add_flag(12, "Anon");
    c.add_flag(13, "Swapcache");
    c.add_flag(14, "Swapbacked");
    c.add_flag(15, "CompoundHead");
    c.add_flag(16, "CompoundTail");
    c.add_flag(17, "Huge");
    c.add_flag(18, "Unevictable");
    c.add_flag(19, "Hwpoison");
    c.add_flag(20, "Nopage");
    c.add_flag(21, "Ksm");
    c.add_flag(22, "Thp");
    c.add_flag(23, name23);
    c.add_flag(24, "ZeroPage");
    c.add_flag(25, "Idle");
    proof {
        assert(c.positions() =~= base_positions());
    }
    c
}

/// Adds the architecture and ownership bits (positions 32 through 39) that
/// every kpageflags scheme declares.
fn add_mid_flags(c: &mut FlagCatalog)
    requires
        old(c).wf(),
        old(c).entries@.len() > 0,
        old(c).entries@.last().pos < 32,
    ensures
        final (c).wf(),
        final (c).entries@.len() > 0,
        final (c).entries@.last().pos == 39,
        final (c).positions() == old(c).positions() + mid_positions(),
{
    c.add_flag(32, "Reserved");
    c.add_flag(33, "Mlocked");
    c.add_flag(34, "Mappedtodisk");
    c.add_flag(35, "Private");
    c.add_flag(36, "Private2");
    c.add_flag(37, "OwnerPrivate");
    c.add_flag(38, "Arch");
    c.add_flag(39, "Uncached");
    proof {
        assert(c.positions() =~= old(c).positions() + mid_positions());
    }
}

/// Adds the slab-internal bits (positions 48 through 51) that every
/// kpageflags scheme declares.
fn add_slub_flags(c: &mut FlagCatalog)
    requires
        old(c).wf(),
        old(c).entries@.len() > 0,
        old(c).entries@.last().pos < 48,
    ensures
        final (c).wf(),
        final (c).entries@.len() > 0,
        final (c).entries@.last().pos == 51,
        final (c).positions() == old(c).positions() + slub_positions(),
{
    c.add_flag(48, "Readahead");
    c.add_flag(49, "Slobfree");
    c.add_flag(50, "Slubfrozen");
    c.add_flag(51, "Slubdebug");
    proof {
        assert(c.positions() =~= old(c).positions() + slub_positions());
    }
}

/// Adds the high per-mapping bits (positions 61 through 63) declared from
/// kernel 4.15 onward.
fn add_high_flags(c: &mut FlagCatalog)
    requires
        old(c).wf(),
        old(c).entries@.len() > 0,
        old(c).entries@.last().pos < 61,
    ensures
        final (c).wf(),
        final (c).entries@.len() > 0,
        final (c).entries@.last().pos == 63,
        final (c).positions() == old(c).positions() + high_positions(),
{
    c.add_flag(61, "File");
    c.add_flag(62, "Swap");
    c.add_flag(63, "MmapExclusive");
    proof {
        assert(c.positions() =~= old(c).positions() + high_positions());
    }
}

/// Binds the guaranteed named bits (stable across every known scheme) to a
/// finished catalog.
fn scheme_with_names(catalog: FlagCatalog, pgtable: Option<u64>) -> (s: FlagScheme)
    requires
        catalog.wf(),
    ensures
        s.wf(),
        s.catalog == catalog,
        s.nopage == (1u64 << 20),
        s.compound_head == (1u64 << 15),
        s.compound_tail == (1u64 << 16),
        s.pgtable == pgtable,
        s.buddy == (1u64 << 10),
        s.slab == (1u64 << 7),
        s.reserved == (1u64 << 32),
        s.mmap == (1u64 << 11),
        s.lru == (1u64 << 5),
        s.anon == (1u64 << 12),
        s.thp == (1u64 << 22),
        s.private == (1u64 << 35),
        s.private2 == (1u64 << 36),
        s.ownerprivate1 == (1u64 << 37),
{
    FlagScheme {
        catalog,
        nopage: 1u64 << 20u64,
        compound_head: 1u64 << 15u64,
        compound_tail: 1u64 << 16u64,
        pgtable,
        buddy: 1u64 << 10u64,
        slab: 1u64 << 7u64,
        reserved: 1u64 << 32u64,
        mmap: 1u64 << 11u64,
        lru: 1u64 << 5u64,
        anon: 1u64 << 12u64,
        thp: 1u64 << 22u64,
        private: 1u64 << 35u64,
        private2: 1u64 << 36u64,
        ownerprivate1: 1u64 << 37u64,
    }
}

impl FlagScheme {
    /// The kpageflags scheme of kernel 3.10.0.
    pub fn kpf3_10_0() -> (s: Self)
        ensures
            s.wf(),
            s.compound_head == (1u64 << 15),
            s.compound_tail == (1u64 << 16),
            s.pgtable is None,
            s.catalog.positions() == base_positions() + mid_positions() + slub_positions(),
    {
        let mut c = base_catalog("Balloon");
        add_mid_flags(&mut c);
        add_slub_flags(&mut c);
        scheme_with_names(c, None)
    }

    /// The kpageflags scheme of kernel 4.15.0.
    pub fn kpf4_15_0() -> (s: Self)
        ensures
            s.wf(),
            s.compound_head == (1u64 << 15),
            s.compound_tail == (1u64 << 16),
            s.pgtable is None,
            s.catalog.positions() == base_positions() + mid_positions() + seq![40u64]
                + slub_positions() + high_positions(),
    {
        let mut c = base_catalog("Balloon");
        add_mid_flags(&mut c);
        c.add_flag(40, "Softdirty");
        proof {
            assert(c.positions() =~= base_positions() + mid_positions() + seq![40u64]);
        }
        add_slub_flags(&mut c);
        add_high_flags(&mut c);
        scheme_with_names(c, None)
    }

    /// The kpageflags scheme of kernel 5.0.8.
    pub fn kpf5_0_8() -> (s: Self)
        ensures
            s.wf(),
            s.compound_head == (1u64 << 15),
            s.compound_tail == (1u64 << 16),
            s.pgtable == Some(1u64 << 26),
            s.catalog.positions() == positions_5_0(),
    {
        let mut c = base_catalog("Offline");
        c.add_flag(26, "Pgtable");
        proof {
            assert(c.positions() =~= base_positions() + seq![26u64]);
        }
        add_mid_flags(&mut c);
        c.add_flag(40, "Softdirty");
        proof {
            assert(c.positions() =~= base_positions() + seq![26u64] + mid_positions()
                + seq![40u64]);
        }
        add_slub_flags(&mut c);
        add_high_flags(&mut c);
        proof {
            assert(c.positions() =~= positions_5_0());
        }
        scheme_with_names(c, Some(1u64 << 26u64))
    }

    /// The kpageflags scheme of kernel 5.4.0.
    pub fn kpf5_4_0() -> (s: Self)
        ensures
            s.wf(),
            s.compound_head == (1u64 << 15),
            s.compound_tail == (1u64 << 16),
            s.pgtable == Some(1u64 << 26),
            s.catalog.positions() == positions_5_0(),
    {
        let mut c = base_catalog("Offline");
        c.add_flag(26, "Pgtable");
        proof {
            assert(c.positions() =~= base_positions() + seq![26u64]);
        }
        add_mid_flags(&mut c);
        c.add_flag(40, "Softdirty");
        proof {
            assert(c.positions() =~= base_positions() + seq![26u64] + mid_positions()
                + seq![40u64]);
        }
        add_slub_flags(&mut c);
        add_high_flags(&mut c);
        proof {
            assert(c.positions() =~= positions_5_0());
        }
        scheme_with_names(c, Some(1u64 << 26u64))
    }

    /// The kpageflags scheme of kernel 5.13.0.
    pub fn kpf5_13_0() -> (s: Self)
        ensures
            s.wf(),
            s.compound_head == (1u64 << 15),
            s.compound_tail == (1u64 << 16),
            s.pgtable == Some(1u64 << 26),
            s.catalog.positions() == positions_5_13(),
    {
        let mut c = base_catalog("Offline");
        c.add_flag(26, "Pgtable");
        proof {
            assert(c.positions() =~= base_positions() + seq![26u64]);
        }
        add_mid_flags(&mut c);
        c.add_flag(40, "Softdirty");
        c.add_flag(41, "Arch2");
        proof {
            assert(c.positions() =~= base_positions() + seq![26u64] + mid_positions()
                + seq![40u64, 41u64]);
        }
        add_slub_flags(&mut c);
        add_high_flags(&mut c);
        proof {
            assert(c.positions() =~= positions_5_13());
        }
        scheme_with_names(c, Some(1u64 << 26u64))
    }

    /// The kpageflags scheme of kernel 5.15.0.
    pub fn kpf5_15_0() -> (s: Self)
        ensures
            s.wf(),
            s.compound_head == (1u64 << 15),
            s.compound_tail == (1u64 << 16),
            s.pgtable == Some(1u64 << 26),
            s.catalog.positions() == positions_5_13(),
    {
        Self::kpf5_13_0()
    }

    /// The kpageflags scheme of kernel 5.17.0.
    pub fn kpf5_17_0() -> (s: Self)
        ensures
            s.wf(),
            s.compound_head == (1u64 << 15),
            s.compound_tail == (1u64 << 16),
            s.pgtable == Some(1u64 << 26),
            s.catalog.positions() == positions_5_13(),
    {
        Self::kpf5_13_0()
    }

    /// The kpageflags scheme of kernel 6.0.0.
    pub fn kpf6_0_0() -> (s: Self)
        ensures
            s.wf(),
            s.compound_head == (1u64 << 15),
            s.compound_tail == (1u64 << 16),
            s.pgtable == Some(1u64 << 26),
            s.catalog.positions() == positions_6_0(),
    {
        let mut c = base_catalog("Offline");
        c.add_flag(26, "Pgtable");
        proof {
            assert(c.positions() =~= base_positions() + seq![26u64]);
        }
        add_mid_flags(&mut c);
        c.add_flag(40, "Softdirty");
        c.add_flag(41, "Arch2");
        c.add_flag(47, "AnonExclusive");
        proof {
            assert(c.positions() =~= base_positions() + seq![26u64] + mid_positions()
                + seq![40u64, 41u64, 47u64]);
        }
        add_slub_flags(&mut c);
        add_high_flags(&mut c);
        proof {
            assert(c.positions() =~= positions_6_0());
        }
        scheme_with_names(c, Some(1u64 << 26u64))
    }
}

/// All the different flag catalogs are `Flaggy`: they expose which bit
/// positions are valid and the validity mask derived from them.
pub trait Flaggy {
    /// The declared bit positions.
    spec fn spec_positions(&self) -> Seq<u64>;

    /// Whether the positions are usable: all below 64.
    spec fn positions_valid(&self) -> bool;

    /// Computes the validity mask by folding all declared positions together.
    fn valid_mask(&self) -> (r: u64)
        requires
            self.positions_valid(),
        ensures
            r == or_of(self.spec_positions()),
    ;
}

impl Flaggy for FlagScheme {
    open spec fn spec_positions(&self) -> Seq<u64> {
        self.catalog.positions()
    }

    open spec fn positions_valid(&self) -> bool {
        forall|i: int|
            0 <= i < self.catalog.entries@.len() ==> (#[trigger] self.catalog.entries@[i]).pos < 64
    }

    fn valid_mask(&self) -> (r: u64) {
        let mut r: u64 = 0;
        let mut k: usize = 0;
        while k < self.catalog.entries.len()
            invariant
                k <= self.catalog.entries@.len(),
                self.positions_valid(),
                r == or_of(self.spec_positions().take(k as int)),
            decreases self.catalog.entries@.len() - k,
        {
            let pos = self.catalog.entries[k].pos;
            r = r | (1u64 << pos);
            proof {
                let taken = self.spec_positions().take(k + 1);
                assert(taken.drop_last() =~= self.spec_positions().take(k as int));
                assert(taken.last() == pos);
            }
            k = k + 1;
        }
        proof {
            assert(self.spec_positions().take(self.catalog.entries@.len() as int) =~= self
                .spec_positions());
        }
        r
    }
}

} // verus!
