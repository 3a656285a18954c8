//! What a search for a wide character returns.
//!
//! Every kernel of this crate answers the same question, and answers it in
//! the same way: the smallest index at which the needle stands in the
//! haystack, or `None` where it stands nowhere. The functions here say so
//! once, over sequences, and the kernels' contracts refer to them.

use vstd::prelude::*;

verus! {

/// `needle` stands nowhere in `haystack`.
pub open spec fn absent<T>(needle: T, haystack: Seq<T>) -> bool {
    forall|j: int| 0 <= j < haystack.len() ==> haystack[j] != needle
}

/// `needle` stands at index `i` of `haystack`, and at no smaller index.
pub open spec fn first_at<T>(needle: T, haystack: Seq<T>, i: int) -> bool {
    &&& 0 <= i < haystack.len()
    &&& haystack[i] == needle
    &&& forall|j: int| 0 <= j < i ==> haystack[j] != needle
}

/// `needle` stands at none of the indices `from..to` of `haystack`.
pub open spec fn absent_within<T>(needle: T, haystack: Seq<T>, from: int, to: int) -> bool {
    forall|j: int| from <= j < to ==> haystack[j] != needle
}

/// `result` is what a search of `haystack` for `needle` has to return.
pub open spec fn is_first_occurrence<T>(needle: T, haystack: Seq<T>, result: Option<usize>) -> bool {
    match result {
        Some(i) => first_at(needle, haystack, i as int),
        None => absent(needle, haystack),
    }
}

/// The index of the first occurrence of `needle` in `haystack`.
pub open spec fn first_occurrence<T>(needle: T, haystack: Seq<T>) -> Option<usize> {
    if absent(needle, haystack) {
        None
    } else {
        Some(choose|i: usize| first_at(needle, haystack, i as int))
    }
}

/// A needle that is not absent has a first occurrence.
proof fn lemma_first_exists<T>(needle: T, haystack: Seq<T>, n: int)
    requires
        0 <= n < haystack.len(),
        haystack[n] == needle,
    ensures
        exists|i: int| 0 <= i <= n && first_at(needle, haystack, i),
    decreases n,
{
    if forall|j: int| 0 <= j < n ==> haystack[j] != needle {
        assert(first_at(needle, haystack, n));
    } else {
        let j = choose|j: int| 0 <= j < n && haystack[j] == needle;
        lemma_first_exists(needle, haystack, j);
    }
}

/// Two kernels agree: whatever two searches of one haystack for one needle
/// return, if each is a first occurrence, they are the same result. So every
/// kernel returns what the naive scan returns, and a search that is repeated
/// returns what it returned before.
pub proof fn lemma_results_agree<T>(
    needle: T,
    haystack: Seq<T>,
    first: Option<usize>,
    second: Option<usize>,
)
    requires
        is_first_occurrence(needle, haystack, first),
        is_first_occurrence(needle, haystack, second),
    ensures
        first == second,
{
    match (first, second) {
        (Some(i), Some(j)) => {
            if i < j {
                assert(haystack[i as int] != needle);
            } else if j < i {
                assert(haystack[j as int] != needle);
            }
        },
        (Some(i), None) => {
            assert(haystack[i as int] != needle);
        },
        (None, Some(j)) => {
            assert(haystack[j as int] != needle);
        },
        (None, None) => {},
    }
}

/// First-occurrence correctness, one way: a result that is `Some(i)` with
/// the needle at `i` and at no index below `i`, or `None` with no element
/// equal to the needle, is the first occurrence.
pub proof fn lemma_first_occurrence<T>(needle: T, haystack: Seq<T>, result: Option<usize>)
    requires
        is_first_occurrence(needle, haystack, result),
    ensures
        result == first_occurrence(needle, haystack),
{
    match result {
        Some(i) => {
            assert(!absent(needle, haystack)) by {
                assert(haystack[i as int] == needle);
            }
            let chosen = choose|k: usize| first_at(needle, haystack, k as int);
            lemma_results_agree(needle, haystack, result, Some(chosen));
        },
        None => {},
    }
}

/// First-occurrence correctness, the other way: in a haystack whose indices
/// are machine numbers, the first occurrence is `Some(i)` with the needle at
/// `i` and at no index below `i`, or `None` with no element equal to the
/// needle.
pub proof fn lemma_first_occurrence_is_first<T>(needle: T, haystack: Seq<T>)
    requires
        haystack.len() <= usize::MAX,
    ensures
        is_first_occurrence(needle, haystack, first_occurrence(needle, haystack)),
{
    if !absent(needle, haystack) {
        let n = choose|n: int| 0 <= n < haystack.len() && haystack[n] == needle;
        lemma_first_exists(needle, haystack, n);
        let first = choose|i: int| 0 <= i <= n && first_at(needle, haystack, i);
        assert(first_at(needle, haystack, (first as usize) as int));
    }
}

} // verus!
