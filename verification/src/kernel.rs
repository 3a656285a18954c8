//! What all kernels have in common.

use vstd::prelude::*;
use crate::search::{first_occurrence, is_first_occurrence};

verus! {

/// A `wmemchr` kernel: one way of searching, for one kind of character.
///
/// Kernels hold no state, and all of them return the same result for the
/// same arguments.
pub trait Kernel<T> {
    /// Returns the index of the first occurrence of `needle` in `haystack`,
    /// or [`None`] if the character is not found.
    fn kernel(needle: T, haystack: &[T]) -> (result: Option<usize>)
        ensures
            result == first_occurrence(needle, haystack@),
            is_first_occurrence(needle, haystack@, result),
    ;
}

/// The address of the first element of `haystack`, as `<[T]>::as_ptr` gives
/// it. Nothing is claimed of it: the kernels use it to choose where their
/// aligned reads begin, and return the same result whatever it is.
#[verifier::external_body]
pub(crate) fn address_of<T>(haystack: &[T]) -> (address: usize) {
    haystack.as_ptr() as usize
}

/// `bytes` is the size of a machine word or of a register.
pub open spec fn is_vector_size(bytes: usize) -> bool {
    bytes == 4 || bytes == 8 || bytes == 16 || bytes == 32 || bytes == 64
}

/// The low bits of an address are its remainder by a power of two.
proof fn lemma_low_bits(address: usize)
    by (bit_vector)
    ensures
        address & 3 == address % 4,
        address & 7 == address % 8,
        address & 15 == address % 16,
        address & 31 == address % 32,
        address & 63 == address % 64,
{
}

/// From an address of a character of two bytes, the characters up to the
/// next multiple of a vector size are one at least, and lead there.
proof fn lemma_next_multiple_of_2(address: usize)
    by (bit_vector)
    ensures
        address % 2 == 0 ==> 1 <= (4 - address % 4) / 2 && (address + (4 - address % 4) / 2
            * 2) % 4 == 0,
        address % 2 == 0 ==> 1 <= (8 - address % 8) / 2 && (address + (8 - address % 8) / 2
            * 2) % 8 == 0,
        address % 2 == 0 ==> 1 <= (16 - address % 16) / 2 && (address + (16 - address % 16) / 2
            * 2) % 16 == 0,
        address % 2 == 0 ==> 1 <= (32 - address % 32) / 2 && (address + (32 - address % 32) / 2
            * 2) % 32 == 0,
        address % 2 == 0 ==> 1 <= (64 - address % 64) / 2 && (address + (64 - address % 64) / 2
            * 2) % 64 == 0,
{
}

/// From an address of a character of four bytes, the characters up to the
/// next multiple of a vector size are one at least, and lead there.
proof fn lemma_next_multiple_of_4(address: usize)
    by (bit_vector)
    ensures
        address % 4 == 0 ==> 1 <= (4 - address % 4) / 4 && (address + (4 - address % 4) / 4
            * 4) % 4 == 0,
        address % 4 == 0 ==> 1 <= (8 - address % 8) / 4 && (address + (8 - address % 8) / 4
            * 4) % 8 == 0,
        address % 4 == 0 ==> 1 <= (16 - address % 16) / 4 && (address + (16 - address % 16) / 4
            * 4) % 16 == 0,
        address % 4 == 0 ==> 1 <= (32 - address % 32) / 4 && (address + (32 - address % 32) / 4
            * 4) % 32 == 0,
        address % 4 == 0 ==> 1 <= (64 - address % 64) / 4 && (address + (64 - address % 64) / 4
            * 4) % 64 == 0,
{
}

/// The number of characters of `size` bytes from `address` up to the next
/// multiple of `vector_size`.
pub open spec fn elements_from(address: int, vector_size: int, size: int) -> int {
    (vector_size - address % vector_size) / size
}

/// The characters from an address up to the next multiple of a vector size.
proof fn lemma_align_offset(address: usize, vector_size: usize, size: usize)
    requires
        is_vector_size(vector_size),
        size == 2 || size == 4,
    ensures
        0 <= elements_from(address as int, vector_size as int, size as int) <= vector_size / size,
        address % size == 0 ==> {
            let elements = elements_from(address as int, vector_size as int, size as int);
            1 <= elements && (address + elements * size) % (vector_size as int) == 0
        },
{
    lemma_next_multiple_of_2(address);
    lemma_next_multiple_of_4(address);
    if vector_size == 4 && size == 2 {
        assert(elements_from(address as int, vector_size as int, size as int) == (4 - address
            % 4) / 2);
    } else if vector_size == 8 && size == 2 {
        assert(elements_from(address as int, vector_size as int, size as int) == (8 - address
            % 8) / 2);
    } else if vector_size == 16 && size == 2 {
        assert(elements_from(address as int, vector_size as int, size as int) == (16 - address
            % 16) / 2);
    } else if vector_size == 32 && size == 2 {
        assert(elements_from(address as int, vector_size as int, size as int) == (32 - address
            % 32) / 2);
    } else if vector_size == 64 && size == 2 {
        assert(elements_from(address as int, vector_size as int, size as int) == (64 - address
            % 64) / 2);
    } else if vector_size == 4 && size == 4 {
        assert(elements_from(address as int, vector_size as int, size as int) == (4 - address
            % 4) / 4);
    } else if vector_size == 8 && size == 4 {
        assert(elements_from(address as int, vector_size as int, size as int) == (8 - address
            % 8) / 4);
    } else if vector_size == 16 && size == 4 {
        assert(elements_from(address as int, vector_size as int, size as int) == (16 - address
            % 16) / 4);
    } else if vector_size == 32 && size == 4 {
        assert(elements_from(address as int, vector_size as int, size as int) == (32 - address
            % 32) / 4);
    } else if vector_size == 64 && size == 4 {
        assert(elements_from(address as int, vector_size as int, size as int) == (64 - address
            % 64) / 4);
    }
}

/// The number of characters of `size` bytes from `address` up to the next
/// address that is a multiple of `vector_size`: from an address that is
/// such a multiple, up to the one after it.
///
/// The characters of a haystack lie at multiples of their size. From such an
/// address the result is one character at least, and the address that lies
/// so many characters on is a multiple of `vector_size`.
pub fn align_offset(address: usize, vector_size: usize, size: usize) -> (elements: usize)
    requires
        is_vector_size(vector_size),
        size == 2 || size == 4,
    ensures
        elements == elements_from(address as int, vector_size as int, size as int),
        elements <= vector_size / size,
        address % size == 0 ==> 1 <= elements && (address + elements * size) % (vector_size as int)
            == 0,
{
    let vector_align = vector_size - 1;
    proof {
        lemma_low_bits(address);
        lemma_align_offset(address, vector_size, size);
    }
    // This calculation is based on bytes, and not on elements.
    let align_offset = vector_size - (address & vector_align);
    align_offset / size
}

} // verus!
