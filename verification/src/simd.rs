//! A kernel that asks of a register only whether the needle is in it.
//!
//! The registers are 64 bytes wide. The kernel skips the registers that the
//! needle is not in, and looks through the haystack one character after the
//! other from the first register on that it is in.

use vstd::prelude::*;
use vstd::layout::size_of;
use crate::fallback::forward_search;
use crate::fallback::packed::{Pack, Sized};
use crate::kernel::{address_of, align_offset};
use crate::search::{absent_within, first_occurrence, is_first_occurrence, lemma_first_occurrence};
use crate::x86_64::vector::{lanes_of, lemma_match_mask, mask_eq};

verus! {

/// The number of bytes in a register.
pub const VECTOR_SIZE: usize = 64;

/// Whether one of the characters of the register that was read at index `at`
/// of `haystack` is `needle`.
#[inline(always)]
pub fn packed_contains<T: Pack>(haystack: &[T], at: usize, needle: T) -> (found: bool)
    requires
        at + lanes_of::<T>(VECTOR_SIZE) <= haystack.len(),
    ensures
        found <==> !absent_within(
            needle,
            haystack@,
            at as int,
            at + lanes_of::<T>(VECTOR_SIZE),
        ),
{
    proof {
        T::lemma_bits();
    }
    let lanes = VECTOR_SIZE / T::size();
    let mask = mask_eq(haystack, at, lanes, needle);
    proof {
        lemma_match_mask(mask, 1, needle, haystack@, at as int, lanes as int);
    }
    mask != 0
}

/// Returns the index of the first occurrence of a wide character in a slice,
/// or [`None`] if the character is not found.
pub fn wmemchr<T: Pack>(needle: T, haystack: &[T]) -> (result: Option<usize>)
    ensures
        result == first_occurrence(needle, haystack@),
        is_first_occurrence(needle, haystack@, result),
{
    let result = scan(needle, haystack, address_of(haystack));
    proof {
        lemma_first_occurrence(needle, haystack@, result);
    }
    result
}

/// Searches `haystack` as [`wmemchr`] does, for a haystack that is stored at
/// `address`.
///
/// The address decides only which registers the search reads: the first one
/// begins at the first character, the following ones at the addresses that
/// are a multiple of the register size. The result is the same for every
/// address.
pub fn scan<T: Pack>(needle: T, haystack: &[T], address: usize) -> (result: Option<usize>)
    ensures
        is_first_occurrence(needle, haystack@, result),
{
    let len = haystack.len();
    proof {
        T::lemma_bits();
    }
    let lanes = VECTOR_SIZE / T::size();
    let mut ptr: usize = 0;

    if len < lanes {
        return forward_search(haystack, ptr, needle);
    }
    if packed_contains(haystack, ptr, needle) {
        return forward_search(haystack, ptr, needle);
    }
    // The number of characters up to the next address that is a multiple of
    // the register size: none, where the haystack begins at one.
    ptr += align_offset(address, VECTOR_SIZE, T::size()) % lanes;

    while len - ptr > lanes
        invariant
            len == haystack.len(),
            size_of::<T>() == 2 || size_of::<T>() == 4,
            lanes * size_of::<T>() == VECTOR_SIZE,
            ptr <= len,
            absent_within(needle, haystack@, 0, ptr as int),
        decreases len - ptr,
    {
        if packed_contains(haystack, ptr, needle) {
            break ;
        }
        ptr += lanes;
    }

    forward_search(haystack, ptr, needle)
}

} // verus!
