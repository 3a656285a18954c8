//! Searching slices of wide characters for the first occurrence of a value.
//!
//! A wide character is a `u16`, `u32`, `i16` or `i32`. All searches of this
//! crate answer one question, the index of the first element of a slice that
//! equals a given character, and [`search`] says what the answer is. They
//! differ in how they go through the slice:
//!
//! - [`naive`] looks at one character after the other;
//! - [`fallback`] reads machine words that hold several characters, and tests
//!   a whole word with a few integer operations;
//! - [`x86_64`] reads vector registers of 128 or 256 bits, in three tiers, and
//!   keeps the tier that was selected for a processor in a slot;
//! - [`simd`] reads registers of 512 bits.
//!
//! The functions of the library are verified: none of them reads outside
//! its haystack or overflows a number, and each returns what its contract
//! says. The one thing that is taken on trust is the address of a haystack,
//! of which the result of no search depends. Registers are read and
//! compared in plain integer code, so that every kernel runs on every
//! machine.
//!
//! # Examples
//!
//! Basic usage:
//!
//! ```
//! use wmemchr::wmemchr;
//!
//! let haystack: Vec<u16> = "Hello world!".encode_utf16().collect();
//!
//! assert_eq!(wmemchr(119, &haystack), Some(6));
//! ```

use vstd::prelude::*;
use crate::search::{first_occurrence, is_first_occurrence};

pub mod count;
pub mod fallback;
pub mod input;
pub mod kernel;
pub mod naive;
mod private;
pub mod search;
pub mod simd;
mod wide;
pub mod x86_64;

pub use crate::wide::Wide;

verus! {

/// Returns the index of the first occurrence of a wide character in a slice,
/// or [`None`] if the character is not found.
///
/// # Examples
///
/// Basic usage:
///
/// ```
/// use wmemchr::wmemchr;
///
/// let haystack: &[u16] = &[102, 111, 111, 32, 98, 97, 114];
///
/// assert_eq!(wmemchr(111, haystack), Some(1));
/// assert_eq!(wmemchr(122, haystack), None);
/// ```
#[inline]
pub fn wmemchr<T: Wide>(needle: T, haystack: &[T]) -> (result: Option<usize>)
    ensures
        result == first_occurrence(needle, haystack@),
        is_first_occurrence(needle, haystack@, result),
{
    x86_64::wmemchr(needle, haystack)
}

} // verus!
