//! Kernels that search one vector register at a time, and the choice among
//! them.
//!
//! There are three tiers, named after the instruction sets whose registers
//! and compares they follow (see [`vector`] for how a compare is made). Which of them a processor can run is found by
//! probing it, once; what was found is kept in a [`DispatchSlot`] and used for
//! every later search. Probing is left to the caller: this module decides,
//! from what the caller found, and the caller keeps the slot.
//!
//! A slot needs no lock. Two threads that find a slot unresolved at the same
//! time both probe the same processor, select the same tier and store the
//! same value, so whichever store comes last changes nothing.

use vstd::prelude::*;
use crate::fallback::packed::Pack;
use crate::search::{first_occurrence, is_first_occurrence};
use crate::wide::Wide;

pub mod avx2;
pub mod evex;
pub mod sse2;
pub mod vector;

verus! {

/// The tiers, each of which is a kernel for every kind of wide character.
#[derive(Clone, Copy, Debug, PartialEq, Eq, Structural)]
pub enum Tier {
    /// The 128-bit tier, which every processor of this family has.
    Sse2,
    /// The 256-bit tier.
    Avx2,
    /// The 256-bit tier with mask registers.
    Evex,
}

/// The features of a processor that the choice of a tier depends on.
#[derive(Clone, Copy, Debug, PartialEq, Eq, Structural)]
pub struct Features {
    /// The 256-bit tier needs this one.
    pub avx2: bool,
    /// The mask-register tier needs this one, and the next.
    pub avx512vl: bool,
    /// The mask-register tier needs this one, and the one before.
    pub avx512bw: bool,
}

/// Where the tier that was selected is kept between searches.
#[derive(Clone, Copy, Debug, PartialEq, Eq, Structural)]
pub enum DispatchSlot {
    /// No search was made yet: the next one selects the tier.
    Unresolved,
    /// The tier that the first search selected, for good.
    Resolved(Tier),
}

/// The tier that is preferred on a processor with these features: the
/// mask-register tier where it is built in (`mask_tier`) and the processor
/// has both of its features, else the 256-bit tier where the processor has
/// its feature, else the 128-bit tier.
pub open spec fn preferred(features: Features, mask_tier: bool) -> Tier {
    if mask_tier && features.avx512vl && features.avx512bw {
        Tier::Evex
    } else if features.avx2 {
        Tier::Avx2
    } else {
        Tier::Sse2
    }
}

/// Selects the tier to search with. A feature that is missing is no error:
/// it leaves a tier out, and the 128-bit tier is always left.
pub fn select(features: Features, mask_tier: bool) -> (tier: Tier)
    ensures
        tier == preferred(features, mask_tier),
{
    if mask_tier && features.avx512vl && features.avx512bw {
        return Tier::Evex;
    }
    if features.avx2 {
        Tier::Avx2
    } else {
        // SSE2 is supported for all for x86_64 processors.
        Tier::Sse2
    }
}

impl Features {
    /// The features of a processor of which nothing is known.
    pub fn baseline() -> (features: Features)
        ensures
            features == (Features { avx2: false, avx512vl: false, avx512bw: false }),
    {
        Features { avx2: false, avx512vl: false, avx512bw: false }
    }
}

impl Tier {
    /// Searches with the kernel of this tier.
    pub fn search<T: Pack>(self, needle: T, haystack: &[T]) -> (result: Option<usize>)
        ensures
            result == first_occurrence(needle, haystack@),
            is_first_occurrence(needle, haystack@, result),
    {
        match self {
            Tier::Sse2 => sse2::wmemchr(needle, haystack),
            Tier::Avx2 => avx2::wmemchr(needle, haystack),
            Tier::Evex => evex::wmemchr(needle, haystack),
        }
    }
}

impl DispatchSlot {
    /// The tier that a search through this slot is made with, if the slot is
    /// in state `self` before it and the probe finds `features`.
    pub open spec fn tier(self, features: Features, mask_tier: bool) -> Tier {
        match self {
            DispatchSlot::Unresolved => preferred(features, mask_tier),
            DispatchSlot::Resolved(tier) => tier,
        }
    }

    /// A slot through which no search was made.
    pub fn new() -> (slot: DispatchSlot)
        ensures
            slot == DispatchSlot::Unresolved,
    {
        DispatchSlot::Unresolved
    }

    /// Returns the tier to search with, and keeps it. An unresolved slot
    /// selects it from `features`; a resolved one has it, and ignores them.
    pub fn resolve(&mut self, features: Features, mask_tier: bool) -> (tier: Tier)
        ensures
            tier == old(self).tier(features, mask_tier),
            *final(self) == DispatchSlot::Resolved(tier),
    {
        match *self {
            DispatchSlot::Resolved(tier) => tier,
            DispatchSlot::Unresolved => {
                let tier = select(features, mask_tier);
                *self = DispatchSlot::Resolved(tier);
                tier
            },
        }
    }

    /// Returns the index of the first occurrence of a wide character in a
    /// slice, or [`None`] if the character is not found.
    ///
    /// The search is made with the tier that [`resolve`](Self::resolve)
    /// gives. Which tier that is changes nothing in the result.
    pub fn wmemchr<T: Pack>(
        &mut self,
        features: Features,
        mask_tier: bool,
        needle: T,
        haystack: &[T],
    ) -> (result: Option<usize>)
        ensures
            *final(self) == DispatchSlot::Resolved(old(self).tier(features, mask_tier)),
            result == first_occurrence(needle, haystack@),
            is_first_occurrence(needle, haystack@, result),
    {
        let tier = self.resolve(features, mask_tier);
        tier.search(needle, haystack)
    }
}

/// A resolved slot stays as it is: a second search through a slot is made
/// with the tier that the first one selected, whatever the second probe
/// finds.
pub proof fn lemma_resolved_is_final(
    slot: DispatchSlot,
    first: Features,
    second: Features,
    mask_tier: bool,
)
    ensures
        DispatchSlot::Resolved(slot.tier(first, mask_tier)).tier(second, mask_tier) == slot.tier(
            first,
            mask_tier,
        ),
{
}

/// Leaving the mask-register tier out changes which tier is selected and
/// nothing else: without it, the selection is the one for a processor that
/// lacks its features.
pub proof fn lemma_optional_tier(features: Features)
    ensures
        preferred(features, false) == preferred(
            Features { avx2: features.avx2, avx512vl: false, avx512bw: false },
            true,
        ),
        preferred(features, false) != Tier::Evex,
{
}

/// Returns the index of the first occurrence of a wide character in a slice,
/// or [`None`] if the character is not found.
///
/// # Examples
///
/// Basic usage:
///
/// ```
/// use wmemchr::x86_64::wmemchr;
///
/// let haystack: &[u16] = &[102, 111, 111, 32, 98, 97, 114];
///
/// assert_eq!(wmemchr(111, haystack), Some(1));
/// assert_eq!(wmemchr(122, haystack), None);
/// ```
#[inline(always)]
pub fn wmemchr<T: Wide>(needle: T, haystack: &[T]) -> (result: Option<usize>)
    ensures
        result == first_occurrence(needle, haystack@),
        is_first_occurrence(needle, haystack@, result),
{
    T::wmemchr_x86_64(needle, haystack)
}

/// The kernel that a slot selects of which no search was made, on a
/// processor of which nothing is known.
pub struct Kernel;

impl<T: Pack> crate::kernel::Kernel<T> for Kernel {
    fn kernel(needle: T, haystack: &[T]) -> (result: Option<usize>) {
        let mut slot = DispatchSlot::new();
        slot.wmemchr(Features::baseline(), false, needle, haystack)
    }
}

} // verus!
