//! The kernel of the 256-bit tier.

use vstd::prelude::*;
use vstd::layout::size_of;
use crate::fallback::forward_search;
use crate::fallback::packed::{Pack, Sized};
use crate::kernel::{address_of, align_offset};
use crate::search::{absent_within, first_occurrence, is_first_occurrence, lemma_first_occurrence};
use super::sse2::forward_pos;
use super::vector::{lanes_of, lemma_any_match, lemma_match_mask, movemask_eq};

verus! {

/// The number of bytes in a register of this tier.
pub const VECTOR_SIZE: usize = 32;

/// The number of bytes in the register that short haystacks are searched
/// with.
pub const SMALL_VECTOR_SIZE: usize = 16;

/// Returns the index of the first occurrence of a wide character in a slice,
/// or [`None`] if the character is not found.
pub fn wmemchr<T: Pack>(needle: T, haystack: &[T]) -> (result: Option<usize>)
    ensures
        result == first_occurrence(needle, haystack@),
        is_first_occurrence(needle, haystack@, result),
{
    let result = scan(needle, haystack, address_of(haystack));
    proof {
        lemma_first_occurrence(needle, haystack@, result);
    }
    result
}

/// Searches `haystack` as [`wmemchr`] does, for a haystack that is stored at
/// `address`.
///
/// The address decides only which registers the search reads: the first one
/// begins at the first character, the following ones at the addresses that
/// are a multiple of the register size, and the last one ends with the
/// haystack. The result is the same for every address.
pub fn scan<T: Pack>(needle: T, haystack: &[T], address: usize) -> (result: Option<usize>)
    ensures
        is_first_occurrence(needle, haystack@, result),
{
    let len = haystack.len();
    proof {
        T::lemma_bits();
    }
    let vector_elements = VECTOR_SIZE / T::size();
    let loop_elements = 4 * vector_elements;
    let mut ptr: usize = 0;

    // If haystack length is less than number of elements in a packed vector,
    // then try with a smaller vector.
    if len < vector_elements {
        return wmemchr_small(needle, haystack);
    }
    if let Some(pos) = forward_search_unaligned(haystack, ptr, needle) {
        return Some(pos);
    }
    // Align `ptr` to improve read performance in loop.
    ptr = align_offset(address, VECTOR_SIZE, T::size());

    // The cursor advances by the number of elements in one vector at most,
    // and by one element at least wherever `address` is that of a `T`.
    assert(ptr <= vector_elements);

    // 128 byte loop.
    while len - ptr >= loop_elements
        invariant
            len == haystack.len(),
            size_of::<T>() == 2 || size_of::<T>() == 4,
            vector_elements * size_of::<T>() == VECTOR_SIZE,
            loop_elements == 4 * vector_elements,
            ptr <= len,
            absent_within(needle, haystack@, 0, ptr as int),
        decreases len - ptr,
    {
        // Compare 4 vectors of characters with the needle.
        let eq_a = movemask_eq(haystack, ptr, vector_elements, needle);
        let eq_b = movemask_eq(haystack, ptr + vector_elements, vector_elements, needle);
        let eq_c = movemask_eq(haystack, ptr + 2 * vector_elements, vector_elements, needle);
        let eq_d = movemask_eq(haystack, ptr + 3 * vector_elements, vector_elements, needle);

        // Determine if any vectors contained the needle.
        let or_ab = eq_a | eq_b;
        let or_cd = eq_c | eq_d;
        let or = or_ab | or_cd;

        proof {
            let bytes = size_of::<T>() as u32;
            let lanes = vector_elements as int;
            lemma_any_match(eq_a, eq_b, eq_c, eq_d);
            lemma_match_mask(eq_a, bytes, needle, haystack@, ptr as int, lanes);
            lemma_match_mask(eq_b, bytes, needle, haystack@, ptr + lanes, lanes);
            lemma_match_mask(eq_c, bytes, needle, haystack@, ptr + 2 * lanes, lanes);
            lemma_match_mask(eq_d, bytes, needle, haystack@, ptr + 3 * lanes, lanes);
        }

        // If any vector contains the needle, we will search for it in each vector.
        if or != 0 {
            // Keep track of the offset from the start of the haystack.
            let mut offset = ptr;

            if eq_a != 0 {
                return Some(offset + forward_pos::<T>(eq_a));
            }
            offset += vector_elements;

            if eq_b != 0 {
                return Some(offset + forward_pos::<T>(eq_b));
            }
            offset += vector_elements;

            if eq_c != 0 {
                return Some(offset + forward_pos::<T>(eq_c));
            }
            offset += vector_elements;

            assert(eq_d != 0);
            return Some(offset + forward_pos::<T>(eq_d));
        }
        ptr += loop_elements;
    }

    // 32 byte loop.
    while len - ptr >= vector_elements
        invariant
            len == haystack.len(),
            size_of::<T>() == 2 || size_of::<T>() == 4,
            vector_elements * size_of::<T>() == VECTOR_SIZE,
            ptr <= len,
            absent_within(needle, haystack@, 0, ptr as int),
        decreases len - ptr,
    {
        if let Some(pos) = forward_search_unaligned(haystack, ptr, needle) {
            return Some(pos);
        }
        ptr += vector_elements;
    }

    // Invariant: `0 <= len - ptr < vector_elements`.
    // We can search the remaining elements by shifting `ptr` back and doing an
    // unaligned forward search.

    if ptr < len {
        let remaining = len - ptr;

        assert(remaining < vector_elements);
        ptr -= vector_elements - remaining;
        assert(len - ptr == vector_elements);

        return forward_search_unaligned(haystack, ptr, needle);
    }
    None
}

/// Tests the one register that begins at index `at` of `haystack`.
#[inline]
fn forward_search_unaligned<T: Pack>(haystack: &[T], at: usize, needle: T) -> (result: Option<
    usize,
>)
    requires
        size_of::<T>() == 2 || size_of::<T>() == 4,
        at + lanes_of::<T>(VECTOR_SIZE) <= haystack.len(),
    ensures
        match result {
            Some(i) => at <= i < at + lanes_of::<T>(VECTOR_SIZE) && haystack@[i as int] == needle
                && absent_within(needle, haystack@, at as int, i as int),
            None => absent_within(
                needle,
                haystack@,
                at as int,
                at + lanes_of::<T>(VECTOR_SIZE),
            ),
        },
{
    let vector_elements = VECTOR_SIZE / T::size();
    let mask = movemask_eq(haystack, at, vector_elements, needle);
    proof {
        lemma_match_mask(
            mask,
            size_of::<T>() as u32,
            needle,
            haystack@,
            at as int,
            vector_elements as int,
        );
    }
    if mask != 0 {
        let offset = at;
        Some(offset + forward_pos::<T>(mask))
    } else {
        None
    }
}

/// Searches a haystack that is too short for one register of this tier.
#[inline]
fn wmemchr_small<T: Pack>(needle: T, haystack: &[T]) -> (result: Option<usize>)
    requires
        size_of::<T>() == 2 || size_of::<T>() == 4,
        haystack.len() < lanes_of::<T>(VECTOR_SIZE),
    ensures
        is_first_occurrence(needle, haystack@, result),
{
    let len = haystack.len();
    let small_vector_elements = SMALL_VECTOR_SIZE / T::size();
    let mut ptr: usize = 0;

    // If haystack length is less than the number of elements in a smaller
    // packed vector, then just fallback to by element search.
    if len < small_vector_elements {
        return forward_search(haystack, ptr, needle);
    }
    // Search the first small vector

    if let Some(pos) = forward_search_unaligned_small(haystack, ptr, needle) {
        return Some(pos);
    }
    ptr += small_vector_elements;

    // Invariant: `0 <= len - ptr < small_vector_elements`.
    // We can search the remaining elements by shifting `ptr` back and doing an
    // unaligned forward search.

    if ptr < len {
        let remaining = len - small_vector_elements;

        assert(remaining < small_vector_elements);
        ptr -= small_vector_elements - remaining;
        assert(len - ptr == small_vector_elements);

        return forward_search_unaligned_small(haystack, ptr, needle);
    }
    None
}

/// Tests the one small register that begins at index `at` of `haystack`.
#[inline]
fn forward_search_unaligned_small<T: Pack>(haystack: &[T], at: usize, needle: T) -> (result:
    Option<usize>)
    requires
        size_of::<T>() == 2 || size_of::<T>() == 4,
        at + lanes_of::<T>(SMALL_VECTOR_SIZE) <= haystack.len(),
    ensures
        match result {
            Some(i) => at <= i < at + lanes_of::<T>(SMALL_VECTOR_SIZE) && haystack@[i as int]
                == needle && absent_within(needle, haystack@, at as int, i as int),
            None => absent_within(
                needle,
                haystack@,
                at as int,
                at + lanes_of::<T>(SMALL_VECTOR_SIZE),
            ),
        },
{
    let small_vector_elements = SMALL_VECTOR_SIZE / T::size();
    let mask = movemask_eq(haystack, at, small_vector_elements, needle);
    proof {
        lemma_match_mask(
            mask,
            size_of::<T>() as u32,
            needle,
            haystack@,
            at as int,
            small_vector_elements as int,
        );
    }
    if mask != 0 {
        let offset = at;
        Some(offset + forward_pos::<T>(mask))
    } else {
        None
    }
}

} // verus!
