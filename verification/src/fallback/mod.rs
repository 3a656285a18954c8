//! Pure Rust platform independent implementation designed for speed.
//!
//! The haystack is read one machine word at a time, several characters to
//! the word, and a word is tested for the needle with a handful of integer
//! operations (see [`packed::simd_eq`]).

use vstd::prelude::*;
use crate::kernel::{address_of, align_offset};
use crate::wide::Wide;
use crate::search::{absent_within, first_occurrence, is_first_occurrence, lemma_first_occurrence};
use self::packed::{
    lane, lane_bits, lane_count, lane_layout, lane_max, lemma_equal_lanes, lemma_lane_layout,
    lemma_lane_shift, lemma_splat, lemma_zero_lanes, lowest_lane, simd_eq, splat, zero_lanes,
    Pack, Packed, Sized,
};

pub mod packed;

verus! {

/// Returns the index of the first occurrence of a wide character in a slice,
/// or [`None`] if the character is not found.
///
/// # Examples
///
/// Basic usage:
///
/// ```
/// use wmemchr::fallback::wmemchr;
///
/// let haystack: &[u16] = &[102, 111, 111, 32, 98, 97, 114];
///
/// assert_eq!(wmemchr(111, haystack), Some(1));
/// assert_eq!(wmemchr(122, haystack), None);
/// ```
#[inline(always)]
pub fn wmemchr<T: Wide>(needle: T, haystack: &[T]) -> (result: Option<usize>)
    ensures
        result == first_occurrence(needle, haystack@),
        is_first_occurrence(needle, haystack@, result),
{
    T::wmemchr_fallback(needle, haystack)
}

/// The lanes of `word` hold the characters of `haystack` from index `at` on.
pub open spec fn holds<T: Pack>(word: Packed, haystack: Seq<T>, at: int) -> bool {
    forall|k: int|
        0 <= k < lane_count(lane_bits::<T>()) ==> lane(word, lane_bits::<T>(), k)
            == #[trigger] haystack[at + k].code()
}

/// What the flags of a word say of the characters that the word was read
/// from: `mask` flags the lanes of `chunk` that hold `needle`.
proof fn lemma_chunk<T: Pack>(needle: T, haystack: Seq<T>, at: int, chunk: Packed, mask: Packed)
    requires
        0 <= at,
        at + lane_count(lane_bits::<T>()) <= haystack.len(),
        holds(chunk, haystack, at),
        mask == zero_lanes(chunk ^ splat(needle.code(), lane_bits::<T>()), lane_bits::<T>()),
    ensures
        mask == 0 ==> absent_within(needle, haystack, at, at + lane_count(lane_bits::<T>())),
        mask != 0 ==> {
            let p = lowest_lane(mask, lane_bits::<T>());
            &&& 0 <= p < lane_count(lane_bits::<T>())
            &&& haystack[at + p] == needle
            &&& absent_within(needle, haystack, at, at + p)
        },
{
    let bits = lane_bits::<T>();
    let v_needle = splat(needle.code(), bits);
    T::lemma_bits();
    T::lemma_code(needle, needle);
    lemma_zero_lanes(chunk ^ v_needle, bits);
    lemma_equal_lanes(chunk, v_needle, bits);
    assert forall|k: int| 0 <= k < lane_count(bits) implies (lane(chunk, bits, k) == lane(
        v_needle,
        bits,
        k,
    ) <==> #[trigger] haystack[at + k] == needle) by {
        lemma_splat(needle.code(), bits, k);
        T::lemma_code(haystack[at + k], needle);
    }
    if mask == 0 {
        assert forall|j: int| at <= j < at + lane_count(bits) implies haystack[j] != needle by {
            assert(haystack[at + (j - at)] != needle);
        }
    } else {
        let p = lowest_lane(mask, bits);
        assert(haystack[at + p] == needle);
        assert forall|j: int| at <= j < at + p implies haystack[j] != needle by {
            assert(haystack[at + (j - at)] != needle);
        }
    }
}

/// Writing `code` into the lane that begins at bit `s` of a word that is
/// empty from bit `s` on sets that lane, keeps the lanes below it, and
/// leaves the word empty above it.
proof fn lemma_insert_lane(
    word: usize,
    code: usize,
    bits: usize,
    mask: usize,
    lo: usize,
    hi: usize,
    s: usize,
    t: usize,
)
    by (bit_vector)
    requires
        lane_layout(bits, mask, lo, hi),
        s % bits == 0,
        s < usize::BITS,
        t % bits == 0,
        code <= mask,
        (s == 0 && word == 0) || (s > 0 && word >> s == 0),
    ensures
        ((word | (code << s)) >> s) & mask == code,
        t < s ==> ((word | (code << s)) >> t) & mask == (word >> t) & mask,
        s + bits < usize::BITS ==> (word | (code << s)) >> ((s + bits) as usize) == 0,
{
}

/// Four words of flags that are joined by `|` are zero together or not at
/// all.
proof fn lemma_any_flag(a: usize, b: usize, c: usize, d: usize)
    by (bit_vector)
    ensures
        (a | b) | (c | d) == 0 <==> a == 0 && b == 0 && c == 0 && d == 0,
{
}

/// Reads the word that holds the characters of `haystack` from index `at`
/// on, the character at `at` in the lowest lane.
pub fn load<T: Pack>(haystack: &[T], at: usize) -> (word: Packed)
    requires
        at + lane_count(lane_bits::<T>()) <= haystack.len(),
    ensures
        holds(word, haystack@, at as int),
{
    let lanes = T::lanes();
    proof {
        T::lemma_bits();
        lemma_lane_layout(lane_bits::<T>());
    }
    let bits = T::bits();
    let ghost mask = lane_max(bits);
    let ghost lo = packed::lo_bits(bits);
    let ghost hi = packed::hi_bits(bits);
    let mut word: Packed = 0;
    let mut k: usize = 0;
    while k < lanes
        invariant
            bits == lane_bits::<T>(),
            bits == 16 || bits == 32,
            lanes == lane_count(bits),
            lanes * bits == usize::BITS,
            mask == lane_max(bits),
            lane_layout(bits, mask, lo, hi),
            at + lanes <= haystack.len(),
            0 <= k <= lanes,
            k == 0 ==> word == 0,
            0 < k < lanes ==> word >> ((k * bits) as usize) == 0,
            forall|j: int| 0 <= j < k ==> lane(word, bits, j) == #[trigger] haystack@[at + j].code(),
        decreases lanes - k,
    {
        let code = haystack[at + k].unsigned();
        proof {
            lemma_lane_shift(bits, k as int, 0);
        }
        let shift = k * bits;
        proof {
            T::lemma_code(haystack@[at + k], haystack@[at + k]);
            lemma_insert_lane(word, code, bits, mask, lo, hi, shift, 0);
            assert forall|j: int| 0 <= j < k implies lane(word | (code << shift), bits, j)
                == #[trigger] haystack@[at + j].code() by {
                lemma_lane_shift(bits, k as int, j);
                lemma_lane_shift(bits, j, 0);
                lemma_insert_lane(word, code, bits, mask, lo, hi, shift, (j * bits) as usize);
            }
            if k + 1 < lanes {
                lemma_lane_shift(bits, k + 1, 0);
            }
        }
        word = word | (code << shift);
        k += 1;
    }
    word
}

/// The lane that the lowest set bit of a non-zero mask stands in.
#[inline(always)]
fn forward_pos<T: Pack>(mask: Packed) -> (pos: usize)
    requires
        mask != 0,
    ensures
        pos == lowest_lane(mask, lane_bits::<T>()),
{
    proof {
        T::lemma_bits();
        vstd::std_specs::bits::axiom_u64_trailing_zeros(mask as u64);
    }
    ((mask as u64).trailing_zeros() as usize) / T::bits()
}

/// Tests the one word that begins at index `at` of `haystack`.
#[inline]
fn forward_search_unaligned<T: Pack>(
    haystack: &[T],
    at: usize,
    v_needle: Packed,
    Ghost(needle): Ghost<T>,
) -> (result: Option<usize>)
    requires
        at + lane_count(lane_bits::<T>()) <= haystack.len(),
        v_needle == splat(needle.code(), lane_bits::<T>()),
    ensures
        match result {
            Some(i) => at <= i < at + lane_count(lane_bits::<T>()) && haystack@[i as int] == needle
                && absent_within(needle, haystack@, at as int, i as int),
            None => absent_within(
                needle,
                haystack@,
                at as int,
                at + lane_count(lane_bits::<T>()),
            ),
        },
{
    let chunk = load(haystack, at);
    let eq = simd_eq::<T>(chunk, v_needle);
    proof {
        lemma_chunk(needle, haystack@, at as int, chunk, eq);
    }
    if eq != 0 {
        Some(at + forward_pos::<T>(eq))
    } else {
        None
    }
}

/// Searches `haystack` from index `from` on, one character after the other.
#[inline(always)]
pub fn forward_search<T: Pack>(haystack: &[T], from: usize, needle: T) -> (result: Option<usize>)
    requires
        from <= haystack.len(),
    ensures
        match result {
            Some(i) => from <= i < haystack.len() && haystack@[i as int] == needle
                && absent_within(needle, haystack@, from as int, i as int),
            None => absent_within(needle, haystack@, from as int, haystack.len() as int),
        },
{
    let len = haystack.len();
    let code = needle.unsigned();
    let mut ptr = from;
    while ptr < len
        invariant
            len == haystack.len(),
            code == needle.code(),
            from <= ptr <= len,
            absent_within(needle, haystack@, from as int, ptr as int),
        decreases len - ptr,
    {
        proof {
            T::lemma_code(haystack@[ptr as int], needle);
        }
        if haystack[ptr].unsigned() == code {
            return Some(ptr);
        }
        ptr += 1;
    }
    None
}

/// Searches `haystack` as [`Kernel`] does, for a haystack that is stored at
/// `address`.
///
/// The address decides only which words the search reads: the first word
/// begins at the first character, the following ones at the addresses that
/// are a multiple of the word size, and the last one ends with the haystack.
/// The result is the same for every address.
pub fn scan<T: Pack>(needle: T, haystack: &[T], address: usize) -> (result: Option<usize>)
    ensures
        is_first_occurrence(needle, haystack@, result),
{
    let len = haystack.len();
    proof {
        T::lemma_bits();
        lemma_lane_layout(lane_bits::<T>());
    }
    let lanes = T::lanes();
    let loop_elements = 4 * lanes;
    let mut ptr: usize = 0;

    // If haystack length is less than number of elements in a packed vector,
    // then do a simple forward search.
    if len < lanes {
        return forward_search(haystack, ptr, needle);
    }
    // Broadcast the needle across the elements of the vector.

    let v_needle = needle.broadcast();

    if let Some(pos) = forward_search_unaligned(haystack, ptr, v_needle, Ghost(needle)) {
        return Some(pos);
    }
    // Align `ptr` to improve read performance in loop.
    proof {
        broadcast use vstd::layout::layout_of_primitives;

    }
    ptr = align_offset(address, core::mem::size_of::<Packed>(), T::size());

    // The cursor advances by the number of elements in one vector at most,
    // and by one element at least wherever `address` is that of a `T`.
    assert(ptr <= lanes);

    while len - ptr >= loop_elements
        invariant
            len == haystack.len(),
            lanes == lane_count(lane_bits::<T>()),
            1 <= lanes <= 4,
            loop_elements == 4 * lanes,
            v_needle == splat(needle.code(), lane_bits::<T>()),
            ptr <= len,
            absent_within(needle, haystack@, 0, ptr as int),
        decreases len - ptr,
    {
        // Load 4 vectors of characters.
        let a = load(haystack, ptr);
        let b = load(haystack, ptr + lanes);
        let c = load(haystack, ptr + 2 * lanes);
        let d = load(haystack, ptr + 3 * lanes);

        // Look for needle in vectors.
        let eq_a = simd_eq::<T>(a, v_needle);
        let eq_b = simd_eq::<T>(b, v_needle);
        let eq_c = simd_eq::<T>(c, v_needle);
        let eq_d = simd_eq::<T>(d, v_needle);

        // Determine if any vectors contained the needle.
        let or_ab = eq_a | eq_b;
        let or_cd = eq_c | eq_d;
        let or = or_ab | or_cd;

        proof {
            lemma_any_flag(eq_a, eq_b, eq_c, eq_d);
            lemma_chunk(needle, haystack@, ptr as int, a, eq_a);
            lemma_chunk(needle, haystack@, ptr + lanes, b, eq_b);
            lemma_chunk(needle, haystack@, ptr + 2 * lanes, c, eq_c);
            lemma_chunk(needle, haystack@, ptr + 3 * lanes, d, eq_d);
        }

        // If any vector contains the needle, we will search for it in each vector.
        if or != 0 {
            // Keep track of the offset from the start of the haystack.
            let mut offset = ptr;

            if eq_a != 0 {
                return Some(offset + forward_pos::<T>(eq_a));
            }
            offset += lanes;

            if eq_b != 0 {
                return Some(offset + forward_pos::<T>(eq_b));
            }
            offset += lanes;

            if eq_c != 0 {
                return Some(offset + forward_pos::<T>(eq_c));
            }
            offset += lanes;

            assert(eq_d != 0);
            return Some(offset + forward_pos::<T>(eq_d));
        }
        ptr += loop_elements;
    }

    while len - ptr >= lanes
        invariant
            len == haystack.len(),
            lanes == lane_count(lane_bits::<T>()),
            1 <= lanes <= 4,
            v_needle == splat(needle.code(), lane_bits::<T>()),
            ptr <= len,
            absent_within(needle, haystack@, 0, ptr as int),
        decreases len - ptr,
    {
        let chunk = load(haystack, ptr);
        let eq = simd_eq::<T>(chunk, v_needle);
        proof {
            lemma_chunk(needle, haystack@, ptr as int, chunk, eq);
        }
        if eq != 0 {
            let offset = ptr;
            return Some(offset + forward_pos::<T>(eq));
        }
        ptr += lanes;
    }

    // Invariant: `0 <= len - ptr < lanes`.
    // We can search the remaining elements by shifting `ptr` back and doing an
    // unaligned forward search.

    if ptr < len {
        let remaining = len - ptr;

        assert(remaining < lanes);
        ptr -= lanes - remaining;
        assert(len - ptr == lanes);

        return forward_search_unaligned(haystack, ptr, v_needle, Ghost(needle));
    }
    None
}

/// The kernel that reads the haystack in machine words.
pub struct Kernel;

impl<T: Pack> crate::kernel::Kernel<T> for Kernel {
    fn kernel(needle: T, haystack: &[T]) -> (result: Option<usize>) {
        let result = scan(needle, haystack, address_of(haystack));
        proof {
            lemma_first_occurrence(needle, haystack@, result);
        }
        result
    }
}

} // verus!
