//! The flag-set value type for `/proc/kpageflags` records.

use vstd::prelude::*;

pub mod flags;
pub mod read;

use crate::FileReadable;
use flags::FlagScheme;
use flags::UnknownFlagName;

verus! {

/// The canonical path of the kernel's per-page-frame flags file.
pub const KPAGEFLAGS_PATH: &'static str = "/proc/kpageflags";

/// The flags of a single physical page frame: a 64-bit bitset whose bit
/// positions are interpreted under a [`FlagScheme`].
///
/// Any 64-bit value is admitted, including one with bits outside a scheme's
/// validity mask; such bits are never silently dropped and can be detected
/// with [`KPageFlags::invalid_bits`].
#[derive(Clone, Copy, Debug, Hash, PartialEq, Eq, Structural)]
pub struct KPageFlags {
    pub bits: u64,
}

impl View for KPageFlags {
    type V = u64;

    open spec fn view(&self) -> u64 {
        self.bits
    }
}

/// Whether consecutive regions with flags `first` and then `second` may be
/// merged: either the two values are identical, or `first` is a compound
/// head and `second` a compound tail under the masks `head` and `tail`.
pub open spec fn spec_can_combine(head: u64, tail: u64, first: u64, second: u64) -> bool {
    ||| first == second
    ||| (first & head == head && second & tail == tail)
}

impl KPageFlags {
    /// Returns an empty set of flags.
    pub fn empty() -> (r: Self)
        ensures
            r@ == 0u64,
    {
        KPageFlags { bits: 0 }
    }

    /// Returns the set of flags with exactly the bits of `bits` set.
    pub fn from_bits(bits: u64) -> (r: Self)
        ensures
            r@ == bits,
    {
        KPageFlags { bits }
    }

    /// Returns `true` if all bits in the given mask are set and `false` if
    /// any bits are not set.
    pub fn all(&self, mask: u64) -> (r: bool)
        ensures
            r == (self@ & mask == mask),
    {
        self.bits & mask == mask
    }

    /// Returns `true` if any bits in the given mask are set and `false` if
    /// all bits are not set.
    pub fn any(&self, mask: u64) -> (r: bool)
        ensures
            r == (self@ & mask != 0u64),
    {
        self.bits & mask != 0
    }

    /// Returns `true` if _consecutive_ regions with flags `first` and then
    /// `second` can be combined into one big region under `scheme`.
    pub fn can_combine(scheme: &FlagScheme, first: Self, second: Self) -> (r: bool)
        ensures
            r == spec_can_combine(scheme.compound_head, scheme.compound_tail, first@, second@),
    {
        // Combine identical sets of pages.
        if first == second {
            return true;
        }
        // Combine compound head and compound tail pages.
        if first.all(scheme.compound_head) && second.all(scheme.compound_tail) {
            return true;
        }
        false
    }

    /// Clear all bits set in the `mask` from this `KPageFlags`.
    pub fn clear(&mut self, mask: u64)
        ensures
            final (self)@ == old(self)@ & !mask,
    {
        self.bits = self.bits & !mask;
    }

    /// The raw 64-bit representation.
    pub fn as_u64(self) -> (r: u64)
        ensures
            r == self@,
    {
        self.bits
    }

    /// The union of the two flag sets.
    pub fn or(self, rhs: Self) -> (r: Self)
        ensures
            r@ == self@ | rhs@,
    {
        KPageFlags { bits: self.bits | rhs.bits }
    }

    /// The intersection of the two flag sets.
    pub fn and(self, rhs: Self) -> (r: Self)
        ensures
            r@ == self@ & rhs@,
    {
        KPageFlags { bits: self.bits & rhs.bits }
    }

    /// The symmetric difference of the two flag sets.
    pub fn xor(self, rhs: Self) -> (r: Self)
        ensures
            r@ == self@ ^ rhs@,
    {
        KPageFlags { bits: self.bits ^ rhs.bits }
    }

    /// The complement of the flag set.
    pub fn not(self) -> (r: Self)
        ensures
            r@ == !self@,
    {
        KPageFlags { bits: !self.bits }
    }

    /// The bits of this value that lie outside `scheme`'s validity mask.
    pub fn invalid_bits(&self, scheme: &FlagScheme) -> (r: u64)
        ensures
            r == self@ & !scheme.catalog.mask,
    {
        self.bits & !scheme.catalog.mask
    }

    /// The flag set holding the single named flag, or `UnknownFlagName`
    /// exactly when `scheme` does not declare the name.
    pub fn from_flag(scheme: &FlagScheme, name: &str) -> (r: Result<Self, UnknownFlagName>)
        requires
            scheme.wf(),
        ensures
            match r {
                Ok(f) => flags::find_name(scheme.catalog.entries@, name@) matches Some(p) && f@ == (
                1u64 << p),
                Err(_) => flags::find_name(scheme.catalog.entries@, name@) is None,
            },
    {
        match scheme.catalog.flag_from_name(name) {
            Ok(pos) => {
                proof {
                    flags::lemma_find_name_position(scheme.catalog.entries@, name@);
                }
                Ok(KPageFlags { bits: 1u64 << pos })
            },
            Err(e) => Err(e),
        }
    }

    /// Produces the names of every set, scheme-valid bit in ascending
    /// bit-position order, space-joined, followed by the literal marker
    /// `INVALID BITS: <hex>` exactly when any bit outside the scheme's
    /// validity mask is set.
    pub fn render(&self, scheme: &FlagScheme) -> (s: String)
        requires
            scheme.wf(),
        ensures
            s@ == flags::rendered(scheme.catalog.entries@, scheme.catalog.mask, self@),
    {
        scheme.catalog.render(self.bits)
    }
}

impl FileReadable for KPageFlags {
    open spec fn word(self) -> u64 {
        self.bits
    }

    fn from_word(word: u64) -> (r: Self) {
        KPageFlags { bits: word }
    }
}

/// Combining a region with itself always succeeds: `can_combine` is
/// reflexive, whatever the scheme's head and tail masks are.
pub proof fn lemma_can_combine_reflexive(head: u64, tail: u64, a: u64)
    ensures
        spec_can_combine(head, tail, a, a),
{
}

/// A compound head followed by a compound tail can always be combined,
/// regardless of any other bits set in either value.
pub proof fn lemma_can_combine_compound(head: u64, tail: u64, first: u64, second: u64)
    requires
        first & head == head,
        second & tail == tail,
    ensures
        spec_can_combine(head, tail, first, second),
{
}

/// Clearing a mask removes exactly the requested bits: afterwards no bit of
/// the mask is set, and every bit outside the mask keeps its old value.
pub proof fn lemma_clear_exact(v: u64, mask: u64)
    ensures
        (v & !mask) & mask == 0u64,
        forall|b: u64|
            b < 64 && (mask >> b) & 1u64 == 0u64 ==> ((v & !mask) >> b) & 1u64 == (v >> b)
                & 1u64,
{
    assert((v & !mask) & mask == 0u64) by (bit_vector);
    assert(forall|b: u64|
        b < 64 && (mask >> b) & 1u64 == 0u64 ==> ((v & !mask) >> b) & 1u64 == (v >> b) & 1u64)
        by (bit_vector);
}

} // verus!
