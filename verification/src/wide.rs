//! The wide character types.

use vstd::prelude::*;
use crate::fallback;
use crate::kernel::Kernel;
use crate::naive;
use crate::private::Sealed;
use crate::search::{first_occurrence, is_first_occurrence};
use crate::x86_64;

verus! {

/// A trait for wide character types.
///
/// The wide characters are `u16`, `u32`, `i16` and `i32`. Two characters are
/// equal where their bits are: the sign of a type changes nothing in what a
/// search returns.
pub trait Wide: Sealed + Copy + Eq + 'static {
    /// Searches with the naive kernel.
    fn wmemchr_naive(needle: Self, haystack: &[Self]) -> (result: Option<usize>)
        ensures
            result == first_occurrence(needle, haystack@),
            is_first_occurrence(needle, haystack@, result),
    ;

    /// Searches with the kernel that reads machine words.
    fn wmemchr_fallback(needle: Self, haystack: &[Self]) -> (result: Option<usize>)
        ensures
            result == first_occurrence(needle, haystack@),
            is_first_occurrence(needle, haystack@, result),
    ;

    /// Searches with the kernel that reads vector registers.
    fn wmemchr_x86_64(needle: Self, haystack: &[Self]) -> (result: Option<usize>)
        ensures
            result == first_occurrence(needle, haystack@),
            is_first_occurrence(needle, haystack@, result),
    ;
}

impl Wide for u16 {
    #[inline(always)]
    fn wmemchr_naive(needle: u16, haystack: &[u16]) -> (result: Option<usize>) {
        <naive::Kernel as Kernel<u16>>::kernel(needle, haystack)
    }

    #[inline(always)]
    fn wmemchr_fallback(needle: u16, haystack: &[u16]) -> (result: Option<usize>) {
        <fallback::Kernel as Kernel<u16>>::kernel(needle, haystack)
    }

    #[inline(always)]
    fn wmemchr_x86_64(needle: u16, haystack: &[u16]) -> (result: Option<usize>) {
        <x86_64::Kernel as Kernel<u16>>::kernel(needle, haystack)
    }
}

impl Wide for u32 {
    #[inline(always)]
    fn wmemchr_naive(needle: u32, haystack: &[u32]) -> (result: Option<usize>) {
        <naive::Kernel as Kernel<u32>>::kernel(needle, haystack)
    }

    #[inline(always)]
    fn wmemchr_fallback(needle: u32, haystack: &[u32]) -> (result: Option<usize>) {
        <fallback::Kernel as Kernel<u32>>::kernel(needle, haystack)
    }

    #[inline(always)]
    fn wmemchr_x86_64(needle: u32, haystack: &[u32]) -> (result: Option<usize>) {
        <x86_64::Kernel as Kernel<u32>>::kernel(needle, haystack)
    }
}

impl Wide for i16 {
    #[inline(always)]
    fn wmemchr_naive(needle: i16, haystack: &[i16]) -> (result: Option<usize>) {
        <naive::Kernel as Kernel<i16>>::kernel(needle, haystack)
    }

    #[inline(always)]
    fn wmemchr_fallback(needle: i16, haystack: &[i16]) -> (result: Option<usize>) {
        <fallback::Kernel as Kernel<i16>>::kernel(needle, haystack)
    }

    #[inline(always)]
    fn wmemchr_x86_64(needle: i16, haystack: &[i16]) -> (result: Option<usize>) {
        <x86_64::Kernel as Kernel<i16>>::kernel(needle, haystack)
    }
}

impl Wide for i32 {
    #[inline(always)]
    fn wmemchr_naive(needle: i32, haystack: &[i32]) -> (result: Option<usize>) {
        <naive::Kernel as Kernel<i32>>::kernel(needle, haystack)
    }

    #[inline(always)]
    fn wmemchr_fallback(needle: i32, haystack: &[i32]) -> (result: Option<usize>) {
        <fallback::Kernel as Kernel<i32>>::kernel(needle, haystack)
    }

    #[inline(always)]
    fn wmemchr_x86_64(needle: i32, haystack: &[i32]) -> (result: Option<usize>) {
        <x86_64::Kernel as Kernel<i32>>::kernel(needle, haystack)
    }
}

} // verus!
