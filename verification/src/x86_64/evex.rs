//! The kernel of the 256-bit tier whose compares give a mask with one bit to
//! the lane. The tier is optional: where it is left out, nothing changes but
//! the choice among the others.

use vstd::prelude::*;
use vstd::layout::size_of;
use crate::fallback::forward_search;
use crate::fallback::packed::{Pack, Sized};
use crate::kernel::{address_of, align_offset};
use crate::search::{absent_within, first_occurrence, is_first_occurrence, lemma_first_occurrence};
use super::vector::{lanes_of, lemma_match_mask, lowest_group, mask_eq};

verus! {

/// The number of bytes in a register of this tier.
pub const VECTOR_SIZE: usize = 32;

/// The number of bytes in the register that short haystacks are searched
/// with.
pub const SMALL_VECTOR_SIZE: usize = 16;

/// Returns the index of the first occurrence of a wide character in a slice,
/// or [`None`] if the character is not found.
pub fn wmemchr<T: Pack>(needle: T, haystack: &[T]) -> (result: Option<usize>)
    ensures
        result == first_occurrence(needle, haystack@),
        is_first_occurrence(needle, haystack@, result),
{
    let result = scan(needle, haystack, address_of(haystack));
    proof {
        lemma_first_occurrence(needle, haystack@, result);
    }
    result
}

/// Searches `haystack` as [`wmemchr`] does, for a haystack that is stored at
/// `address`.
///
/// The address decides only which registers the search reads: the first one
/// begins at the first character, the following ones at the addresses that
/// are a multiple of the register size, and the last one ends with the
/// haystack. The result is the same for every address.
pub fn scan<T: Pack>(needle: T, haystack: &[T], address: usize) -> (result: Option<usize>)
    ensures
        is_first_occurrence(needle, haystack@, result),
{
    let len = haystack.len();
    proof {
        T::lemma_bits();
    }
    let vector_elements = VECTOR_SIZE / T::size();
    let loop_elements = 4 * vector_elements;
    let mut ptr: usize = 0;

    // If haystack length is less than number of elements in a packed vector,
    // then try with a smaller vector.
    if len < vector_elements {
        return wmemchr_small(needle, haystack);
    }
    if let Some(pos) = forward_search_unaligned(haystack, ptr, needle) {
        return Some(pos);
    }
    // Align `ptr` to improve read performance in loop.
    ptr = align_offset(address, VECTOR_SIZE, T::size());

    // The cursor advances by the number of elements in one vector at most,
    // and by one element at least wherever `address` is that of a `T`.
    assert(ptr <= vector_elements);

    // 128 byte loop.
    while len - ptr >= loop_elements
        invariant
            len == haystack.len(),
            size_of::<T>() == 2 || size_of::<T>() == 4,
            vector_elements * size_of::<T>() == VECTOR_SIZE,
            loop_elements == 4 * vector_elements,
            ptr <= len,
            absent_within(needle, haystack@, 0, ptr as int),
        decreases len - ptr,
    {
        // Compare 4 vectors of characters with the needle.
        let mask_a = mask_eq(haystack, ptr, vector_elements, needle);
        let mask_b = mask_eq(haystack, ptr + vector_elements, vector_elements, needle);
        let mask_c = mask_eq(haystack, ptr + 2 * vector_elements, vector_elements, needle);
        let mask_d = mask_eq(haystack, ptr + 3 * vector_elements, vector_elements, needle);

        proof {
            let lanes = vector_elements as int;
            lemma_match_mask(mask_a, 1, needle, haystack@, ptr as int, lanes);
            lemma_match_mask(mask_b, 1, needle, haystack@, ptr + lanes, lanes);
            lemma_match_mask(mask_c, 1, needle, haystack@, ptr + 2 * lanes, lanes);
            lemma_match_mask(mask_d, 1, needle, haystack@, ptr + 3 * lanes, lanes);
        }

        if mask_a != 0 {
            let offset = ptr;
            return Some(offset + forward_pos(mask_a));
        }
        if mask_b != 0 {
            let offset = ptr;
            return Some(offset + vector_elements + forward_pos(mask_b));
        }
        if mask_c != 0 {
            let offset = ptr;
            return Some(offset + (vector_elements * 2) + forward_pos(mask_c));
        }
        if mask_d != 0 {
            let offset = ptr;
            return Some(offset + (vector_elements * 3) + forward_pos(mask_d));
        }
        ptr += loop_elements;
    }

    // 32 byte loop.
    while len - ptr >= vector_elements
        invariant
            len == haystack.len(),
            size_of::<T>() == 2 || size_of::<T>() == 4,
            vector_elements * size_of::<T>() == VECTOR_SIZE,
            ptr <= len,
            absent_within(needle, haystack@, 0, ptr as int),
        decreases len - ptr,
    {
        if let Some(pos) = forward_search_unaligned(haystack, ptr, needle) {
            return Some(pos);
        }
        ptr += vector_elements;
    }

    // Invariant: `0 <= len - ptr < vector_elements`.
    // We can search the remaining elements by shifting `ptr` back and doing an
    // unaligned forward search.

    if ptr < len {
        let remaining = len - ptr;

        assert(remaining < vector_elements);
        ptr -= vector_elements - remaining;
        assert(len - ptr == vector_elements);

        return forward_search_unaligned(haystack, ptr, needle);
    }
    None
}

/// Tests the one register that begins at index `at` of `haystack`.
#[inline]
fn forward_search_unaligned<T: Pack>(haystack: &[T], at: usize, needle: T) -> (result: Option<
    usize,
>)
    requires
        size_of::<T>() == 2 || size_of::<T>() == 4,
        at + lanes_of::<T>(VECTOR_SIZE) <= haystack.len(),
    ensures
        match result {
            Some(i) => at <= i < at + lanes_of::<T>(VECTOR_SIZE) && haystack@[i as int] == needle
                && absent_within(needle, haystack@, at as int, i as int),
            None => absent_within(
                needle,
                haystack@,
                at as int,
                at + lanes_of::<T>(VECTOR_SIZE),
            ),
        },
{
    let vector_elements = VECTOR_SIZE / T::size();
    let mask = mask_eq(haystack, at, vector_elements, needle);
    proof {
        lemma_match_mask(
            mask,
            1,
            needle,
            haystack@,
            at as int,
            vector_elements as int,
        );
    }
    if mask != 0 {
        let offset = at;
        Some(offset + forward_pos(mask))
    } else {
        None
    }
}

/// Searches a haystack that is too short for one register of this tier.
#[inline]
fn wmemchr_small<T: Pack>(needle: T, haystack: &[T]) -> (result: Option<usize>)
    requires
        size_of::<T>() == 2 || size_of::<T>() == 4,
        haystack.len() < lanes_of::<T>(VECTOR_SIZE),
    ensures
        is_first_occurrence(needle, haystack@, result),
{
    let len = haystack.len();
    let small_vector_elements = SMALL_VECTOR_SIZE / T::size();
    let mut ptr: usize = 0;

    // If haystack length is less than the number of elements in a smaller
    // packed vector, then just fallback to by element search.
    if len < small_vector_elements {
        return forward_search(haystack, ptr, needle);
    }
    // Search the first small vector

    if let Some(pos) = forward_search_unaligned_small(haystack, ptr, needle) {
        return Some(pos);
    }
    ptr += small_vector_elements;

    // Invariant: `0 <= len - ptr < small_vector_elements`.
    // We can search the remaining elements by shifting `ptr` back and doing an
    // unaligned forward search.

    if ptr < len {
        let remaining = len - small_vector_elements;

        assert(remaining < small_vector_elements);
        ptr -= small_vector_elements - remaining;
        assert(len - ptr == small_vector_elements);

        return forward_search_unaligned_small(haystack, ptr, needle);
    }
    None
}

/// Tests the one small register that begins at index `at` of `haystack`.
#[inline]
fn forward_search_unaligned_small<T: Pack>(haystack: &[T], at: usize, needle: T) -> (result:
    Option<usize>)
    requires
        size_of::<T>() == 2 || size_of::<T>() == 4,
        at + lanes_of::<T>(SMALL_VECTOR_SIZE) <= haystack.len(),
    ensures
        match result {
            Some(i) => at <= i < at + lanes_of::<T>(SMALL_VECTOR_SIZE) && haystack@[i as int]
                == needle && absent_within(needle, haystack@, at as int, i as int),
            None => absent_within(
                needle,
                haystack@,
                at as int,
                at + lanes_of::<T>(SMALL_VECTOR_SIZE),
            ),
        },
{
    let small_vector_elements = SMALL_VECTOR_SIZE / T::size();
    let mask = mask_eq(haystack, at, small_vector_elements, needle);
    proof {
        lemma_match_mask(
            mask,
            1,
            needle,
            haystack@,
            at as int,
            small_vector_elements as int,
        );
    }
    if mask != 0 {
        let offset = at;
        Some(offset + forward_pos(mask))
    } else {
        None
    }
}

/// Get the forward position in a mask that has one bit to the lane: the
/// number of its lowest set bit.
#[inline(always)]
fn forward_pos(mask: u32) -> (pos: usize)
    requires
        mask != 0,
    ensures
        pos == lowest_group(mask, 1),
{
    proof {
        vstd::std_specs::bits::axiom_u32_trailing_zeros(mask);
    }
    mask.trailing_zeros() as usize
}

} // verus!
