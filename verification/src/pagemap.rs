//! The entry value type for `/proc/[pid]/pagemap` records.

use vstd::prelude::*;

use crate::FileReadable;
use crate::kpageflags::flags::FlagCatalog;
use crate::kpageflags::flags::UnknownFlagName;
use crate::kpageflags::flags::find_name;
use crate::kpageflags::flags::lemma_find_name_position;
use crate::kpageflags::flags::or_of;
use crate::kpageflags::flags::rendered;

verus! {

/// A versioned pagemap scheme: the catalog of named bits for one kernel
/// release family, the positions of the bits every scheme declares, the
/// optional ones, and the mask of the contiguous location field.
pub struct PageMapScheme {
    pub catalog: FlagCatalog,
    pub present: u64,
    pub swapped: u64,
    pub file_or_shm: u64,
    pub exclusive: Option<u64>,
    pub soft_dirty: Option<u64>,
    pub location_mask: u64,
}

impl PageMapScheme {
    /// Scheme invariant: the underlying catalog is well-formed.
    pub open spec fn wf(self) -> bool {
        self.catalog.wf()
    }
}

/// All the different pagemap schemes are `PageMappy`: they expose which bit
/// positions are valid, the derived validity mask, and the location mask.
pub trait PageMappy {
    /// The declared bit positions.
    spec fn spec_positions(&self) -> Seq<u64>;

    /// Whether the positions are usable: all below 64.
    spec fn positions_valid(&self) -> bool;

    /// The mask of the location field.
    spec fn spec_location_mask(&self) -> u64;

    /// Computes the validity mask by folding all declared positions together.
    fn valid_mask(&self) -> (r: u64)
        requires
            self.positions_valid(),
        ensures
            r == or_of(self.spec_positions()),
    ;

    /// Returns a mask for the location information of the page.
    fn location_mask(&self) -> (r: u64)
        ensures
            r == self.spec_location_mask(),
    ;
}

impl PageMappy for PageMapScheme {
    open spec fn spec_positions(&self) -> Seq<u64> {
        self.catalog.positions()
    }

    open spec fn positions_valid(&self) -> bool {
        forall|i: int|
            0 <= i < self.catalog.entries@.len() ==> (#[trigger] self.catalog.entries@[i]).pos < 64
    }

    open spec fn spec_location_mask(&self) -> u64 {
        self.location_mask
    }

    fn valid_mask(&self) -> (r: u64) {
        let mut r: u64 = 0;
        let mut k: usize = 0;
        while k < self.catalog.entries.len()
            invariant
                k <= self.catalog.entries@.len(),
                self.positions_valid(),
                r == or_of(self.spec_positions().take(k as int)),
            decreases self.catalog.entries@.len() - k,
        {
            let pos = self.catalog.entries[k].pos;
            r = r | (1u64 << pos);
            proof {
                let taken = self.spec_positions().take(k + 1);
                assert(taken.drop_last() =~= self.spec_positions().take(k as int));
                assert(taken.last() == pos);
            }
            k = k + 1;
        }
        proof {
            assert(self.spec_positions().take(self.catalog.entries@.len() as int) =~= self
                .spec_positions());
        }
        r
    }

    fn location_mask(&self) -> (r: u64) {
        self.location_mask
    }
}

/// The flags of a single virtual page in the address space of a process, as
/// given by that process's pagemap: a 64-bit bitset interpreted under a
/// [`PageMapScheme`].
#[derive(Clone, Copy, Debug, Hash, PartialEq, Eq, Structural)]
pub struct PageMapPage {
    pub bits: u64,
}

impl View for PageMapPage {
    type V = u64;

    open spec fn view(&self) -> u64 {
        self.bits
    }
}

impl PageMapPage {
    /// Returns an empty set of flags.
    pub fn empty() -> (r: Self)
        ensures
            r@ == 0u64,
    {
        PageMapPage { bits: 0 }
    }

    /// Returns the entry with exactly the bits of `bits` set.
    pub fn from_bits(bits: u64) -> (r: Self)
        ensures
            r@ == bits,
    {
        PageMapPage { bits }
    }

    /// Returns `true` if all bits in the given mask are set and `false` if
    /// any bits are not set.
    pub fn all(&self, mask: u64) -> (r: bool)
        ensures
            r == (self@ & mask == mask),
    {
        self.bits & mask == mask
    }

    /// Returns `true` if the bit at position `pos` is set; `false` otherwise.
    pub fn has(&self, pos: u64) -> (r: bool)
        requires
            pos < 64,
        ensures
            r == (self@ & (1u64 << pos) == (1u64 << pos)),
    {
        self.all(1u64 << pos)
    }

    /// Clear all bits set in the `mask` from this `PageMapPage`.
    pub fn clear(&mut self, mask: u64)
        ensures
            final (self)@ == old(self)@ & !mask,
    {
        self.bits = self.bits & !mask;
    }

    /// The raw 64-bit representation.
    pub fn as_u64(self) -> (r: u64)
        ensures
            r == self@,
    {
        self.bits
    }

    /// The union of the two entries.
    pub fn or(self, rhs: Self) -> (r: Self)
        ensures
            r@ == self@ | rhs@,
    {
        PageMapPage { bits: self.bits | rhs.bits }
    }

    /// The bits of this value that lie outside `scheme`'s validity mask.
    pub fn invalid_bits(&self, scheme: &PageMapScheme) -> (r: u64)
        ensures
            r == self@ & !scheme.catalog.mask,
    {
        self.bits & !scheme.catalog.mask
    }

    /// The entry holding the single named bit, or `UnknownFlagName` exactly
    /// when `scheme` does not declare the name.
    pub fn from_flag(scheme: &PageMapScheme, name: &str) -> (r: Result<Self, UnknownFlagName>)
        requires
            scheme.wf(),
        ensures
            match r {
                Ok(f) => find_name(scheme.catalog.entries@, name@) matches Some(p) && f@ == (1u64
                    << p),
                Err(_) => find_name(scheme.catalog.entries@, name@) is None,
            },
    {
        match scheme.catalog.flag_from_name(name) {
            Ok(pos) => {
                proof {
                    lemma_find_name_position(scheme.catalog.entries@, name@);
                }
                Ok(PageMapPage { bits: 1u64 << pos })
            },
            Err(e) => Err(e),
        }
    }

    /// Produces the names of every set, scheme-valid bit in ascending
    /// bit-position order, space-joined, followed by the literal marker
    /// `INVALID BITS: <hex>` exactly when any bit outside the scheme's
    /// validity mask is set.
    pub fn render(&self, scheme: &PageMapScheme) -> (s: String)
        requires
            scheme.wf(),
        ensures
            s@ == rendered(scheme.catalog.entries@, scheme.catalog.mask, self@),
    {
        scheme.catalog.render(self.bits)
    }

    /// The location information of the page: the location field extracted by
    /// masking, then shifting right by the mask's trailing-zero count. It
    /// holds a swap descriptor or a physical frame number, depending on the
    /// scheme's present/swapped bits.
    pub fn location(self, scheme: &PageMapScheme) -> (r: u64)
        requires
            scheme.location_mask != 0u64,
        ensures
            r == (self@ & scheme.location_mask) >> (scheme.location_mask.trailing_zeros() as u64),
    {
        let mask = scheme.location_mask;
        let shift = mask.trailing_zeros();
        proof {
            vstd::std_specs::bits::axiom_u64_trailing_zeros(mask);
        }
        (self.bits & mask) >> (shift as u64)
    }
}

impl FileReadable for PageMapPage {
    open spec fn word(self) -> u64 {
        self.bits
    }

    fn from_word(word: u64) -> (r: Self) {
        PageMapPage { bits: word }
    }
}

} // verus!
