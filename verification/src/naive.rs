//! A naive implementation.

use vstd::prelude::*;
use crate::fallback::packed::Pack;
use crate::search::{absent_within, first_occurrence, is_first_occurrence, lemma_first_occurrence};
use crate::wide::Wide;

verus! {

/// Returns the index of the first occurrence of a wide character in a slice,
/// or [`None`] if the character is not found.
///
/// # Examples
///
/// Basic usage:
///
/// ```
/// use wmemchr::naive::wmemchr;
///
/// let haystack: &[u16] = &[102, 111, 111, 32, 98, 97, 114];
///
/// assert_eq!(wmemchr(111, haystack), Some(1));
/// assert_eq!(wmemchr(122, haystack), None);
/// ```
#[inline(always)]
pub fn wmemchr<T: Wide>(needle: T, haystack: &[T]) -> (result: Option<usize>)
    ensures
        result == first_occurrence(needle, haystack@),
        is_first_occurrence(needle, haystack@, result),
{
    T::wmemchr_naive(needle, haystack)
}

/// The kernel that looks at one character after the other.
pub struct Kernel;

impl<T: Pack> crate::kernel::Kernel<T> for Kernel {
    fn kernel(needle: T, haystack: &[T]) -> (result: Option<usize>) {
        let len = haystack.len();
        let mut i: usize = 0;
        while i < len
            invariant
                len == haystack.len(),
                i <= len,
                absent_within(needle, haystack@, 0, i as int),
            decreases len - i,
        {
            proof {
                T::lemma_code(haystack@[i as int], needle);
            }
            if haystack[i].unsigned() == needle.unsigned() {
                proof {
                    lemma_first_occurrence(needle, haystack@, Some(i));
                }
                return Some(i);
            }
            i += 1;
        }
        proof {
            lemma_first_occurrence(needle, haystack@, None);
        }
        None
    }
}

} // verus!
