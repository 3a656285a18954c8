//! Counting the occurrences of a wide character, one search after the other.

use vstd::prelude::*;
use vstd::slice::slice_subrange;
use crate::fallback;
use crate::naive;
use crate::search::{absent_within, first_at, is_first_occurrence};
use crate::wide::Wide;
use crate::x86_64;

verus! {

/// How often `needle` stands in `haystack`.
pub open spec fn occurrences<T>(needle: T, haystack: Seq<T>) -> nat
    decreases haystack.len(),
{
    if haystack.len() == 0 {
        0
    } else {
        occurrences(needle, haystack.drop_last()) + if haystack.last() == needle {
            1nat
        } else {
            0nat
        }
    }
}

/// A stretch of the haystack without the needle adds nothing to the count,
/// and no stretch holds the needle more often than it is long.
pub proof fn lemma_occurrences<T>(needle: T, haystack: Seq<T>, from: int, to: int)
    requires
        0 <= from <= to <= haystack.len(),
    ensures
        occurrences(needle, haystack.take(from)) <= occurrences(needle, haystack.take(to)),
        occurrences(needle, haystack.take(to)) <= occurrences(needle, haystack.take(from)) + (to
            - from),
        absent_within(needle, haystack, from, to) ==> occurrences(needle, haystack.take(to))
            == occurrences(needle, haystack.take(from)),
        occurrences(needle, haystack.take(0)) == 0,
    decreases to - from,
{
    if from < to {
        lemma_occurrences(needle, haystack, from, to - 1);
        assert(haystack.take(to).drop_last() == haystack.take(to - 1));
        assert(haystack.take(to).last() == haystack[to - 1]);
    }
}

/// What one search in the rest of the haystack adds to the count.
proof fn lemma_step<T>(needle: T, haystack: Seq<T>, start: int, found: Option<usize>)
    requires
        0 <= start <= haystack.len(),
        is_first_occurrence(needle, haystack.subrange(start, haystack.len() as int), found),
    ensures
        match found {
            Some(i) => start + i < haystack.len() && occurrences(
                needle,
                haystack.take(start + i + 1),
            ) == occurrences(needle, haystack.take(start)) + 1,
            None => occurrences(needle, haystack) == occurrences(needle, haystack.take(start)),
        },
{
    let rest = haystack.subrange(start, haystack.len() as int);
    match found {
        Some(i) => {
            assert(first_at(needle, rest, i as int));
            assert forall|j: int| start <= j < start + i implies haystack[j] != needle by {
                assert(rest[j - start] == haystack[j]);
            }
            assert(rest[i as int] == haystack[start + i]);
            lemma_occurrences(needle, haystack, start, start + i);
            let upto = haystack.take(start + i + 1);
            assert(upto.drop_last() == haystack.take(start + i));
            assert(upto.last() == needle);
        },
        None => {
            assert forall|j: int| start <= j < haystack.len() implies haystack[j] != needle by {
                assert(rest[j - start] == haystack[j]);
            }
            lemma_occurrences(needle, haystack, start, haystack.len() as int);
            assert(haystack.take(haystack.len() as int) == haystack);
        },
    }
}

/// Counts the occurrences of `needle` in `haystack` with the kernel that
/// reads machine words.
pub fn fallback<T: Wide>(needle: T, haystack: &[T]) -> (count: usize)
    ensures
        count == occurrences(needle, haystack@),
{
    let len = haystack.len();
    let mut count: usize = 0;
    let mut start: usize = 0;
    proof {
        lemma_occurrences(needle, haystack@, 0, 0);
    }
    loop
        invariant
            len == haystack.len(),
            start <= len,
            count <= start,
            count == occurrences(needle, haystack@.take(start as int)),
        ensures
            count == occurrences(needle, haystack@),
        decreases len - start,
    {
        let found = fallback::wmemchr(needle, slice_subrange(haystack, start, len));
        proof {
            lemma_step(needle, haystack@, start as int, found);
        }
        match found {
            Some(i) => {
                count += 1;
                start += i + 1;
            },
            None => {
                break ;
            },
        }
    }
    count
}

/// Counts the occurrences of `needle` in `haystack` with the naive kernel.
pub fn naive<T: Wide>(needle: T, haystack: &[T]) -> (count: usize)
    ensures
        count == occurrences(needle, haystack@),
{
    let len = haystack.len();
    let mut count: usize = 0;
    let mut start: usize = 0;
    proof {
        lemma_occurrences(needle, haystack@, 0, 0);
    }
    loop
        invariant
            len == haystack.len(),
            start <= len,
            count <= start,
            count == occurrences(needle, haystack@.take(start as int)),
        ensures
            count == occurrences(needle, haystack@),
        decreases len - start,
    {
        let found = naive::wmemchr(needle, slice_subrange(haystack, start, len));
        proof {
            lemma_step(needle, haystack@, start as int, found);
        }
        match found {
            Some(i) => {
                count += 1;
                start += i + 1;
            },
            None => {
                break ;
            },
        }
    }
    count
}

/// Counts the occurrences of `needle` in `haystack` with the kernel that
/// reads vector registers.
pub fn x86_64<T: Wide>(needle: T, haystack: &[T]) -> (count: usize)
    ensures
        count == occurrences(needle, haystack@),
{
    let len = haystack.len();
    let mut count: usize = 0;
    let mut start: usize = 0;
    proof {
        lemma_occurrences(needle, haystack@, 0, 0);
    }
    loop
        invariant
            len == haystack.len(),
            start <= len,
            count <= start,
            count == occurrences(needle, haystack@.take(start as int)),
        ensures
            count == occurrences(needle, haystack@),
        decreases len - start,
    {
        let found = x86_64::wmemchr(needle, slice_subrange(haystack, start, len));
        proof {
            lemma_step(needle, haystack@, start as int, found);
        }
        match found {
            Some(i) => {
                count += 1;
                start += i + 1;
            },
            None => {
                break ;
            },
        }
    }
    count
}

} // verus!
