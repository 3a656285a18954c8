//! The vector compare, in plain integer code.
//!
//! A vector register holds some wide characters side by side, lane 0 first.
//! The kernels need one operation of it: compare every lane with the needle
//! and hand the outcome back as a mask. The mask gives each lane a group of
//! `width` adjacent bits, the group of lane 0 lowest, and sets all bits of a
//! group where the lane holds the needle and none where it does not. A mask
//! with one bit to the byte has groups as wide as a character has bytes; a
//! mask with one bit to the lane has groups of one bit.

use vstd::prelude::*;
use vstd::std_specs::bits::u32_trailing_zeros;
use vstd::layout::size_of;
use crate::fallback::packed::{Pack, Sized};
use crate::search::absent_within;

verus! {

/// The number of characters that a register of `bytes` bytes holds.
pub open spec fn lanes_of<T>(bytes: usize) -> int {
    bytes as int / size_of::<T>() as int
}

/// The group of a lane that holds the needle: `width` bits, all set.
pub open spec fn group_max(width: u32) -> u32 {
    if width == 1 {
        1
    } else if width == 2 {
        3
    } else {
        15
    }
}

/// The group of lane `k` in `mask`.
pub open spec fn group(mask: u32, width: u32, k: int) -> u32 {
    (mask >> ((k * width) as u32)) & group_max(width)
}

/// The number of the group in which the lowest set bit of `mask` stands.
pub open spec fn lowest_group(mask: u32, width: u32) -> int {
    u32_trailing_zeros(mask) as int / width as int
}

/// `mask` is the outcome of comparing the `lanes` characters of `haystack`
/// from index `at` on with `needle`.
pub open spec fn is_match_mask<T>(
    mask: u32,
    width: u32,
    needle: T,
    haystack: Seq<T>,
    at: int,
    lanes: int,
) -> bool {
    &&& forall|k: int|
        0 <= k < lanes ==> #[trigger] group(mask, width, k) == if haystack[at + k] == needle {
            group_max(width)
        } else {
            0
        }
    &&& lanes * width < 32 ==> mask >> ((lanes * width) as u32) == 0
}

/// Writing the group of lane `s / width` into a mask that is empty from
/// bit `s` on sets that group, keeps the groups below it, and leaves the
/// mask empty above it.
proof fn lemma_insert_group(mask: u32, bits: u32, width: u32, full: u32, s: u32, t: u32)
    by (bit_vector)
    requires
        (width == 1 && full == 1) || (width == 2 && full == 3) || (width == 4 && full == 15),
        bits == 0 || bits == full,
        s % width == 0,
        s < 32,
        t % width == 0,
        (s == 0 && mask == 0) || (s > 0 && mask >> s == 0),
    ensures
        ((mask | (bits << s)) >> s) & full == bits,
        t < s ==> ((mask | (bits << s)) >> t) & full == (mask >> t) & full,
        s + width < 32 ==> (mask | (bits << s)) >> ((s + width) as u32) == 0,
{
}

/// Every group of the empty mask is empty.
proof fn lemma_empty_mask(width: u32, full: u32, r: u32)
    by (bit_vector)
    requires
        (width == 1 && full == 1) || (width == 2 && full == 3) || (width == 4 && full == 15),
    ensures
        (0u32 >> r) & full == 0,
        0u32 >> r == 0,
{
}

/// In a mask whose lowest set bit is bit `t`, the group that bit `t` stands
/// in is not empty, every group below it is, and it lies below `end` where
/// the mask is empty from bit `end` on.
proof fn lemma_lowest_group(mask: u32, width: u32, full: u32, t: u32, s: u32, r: u32, end: u32)
    by (bit_vector)
    requires
        (width == 1 && full == 1) || (width == 2 && full == 3) || (width == 4 && full == 15),
        t < 32,
        (mask >> t) & 1 == 1,
        mask << ((32 - t) as u32) == 0,
        s == t / width * width,
        r % width == 0,
        end < 32 ==> mask >> end == 0,
    ensures
        (mask >> s) & full != 0,
        r < s ==> (mask >> r) & full == 0,
        s < end,
{
}

/// Four masks that are joined by `|` are zero together or not at all.
pub proof fn lemma_any_match(a: u32, b: u32, c: u32, d: u32)
    by (bit_vector)
    ensures
        (a | b) | (c | d) == 0 <==> a == 0 && b == 0 && c == 0 && d == 0,
{
}

/// Where the group of lane `k` begins in a mask.
proof fn lemma_group_shift(width: u32, k: int, j: int)
    requires
        width == 1 || width == 2 || width == 4,
        0 <= k,
    ensures
        0 <= k * width,
        (k * width) % (width as int) == 0,
        (k * width) / (width as int) == k,
        (k + 1) * width == k * width + width,
        k == 0 <==> k * width == 0,
        0 <= j < k ==> 0 <= j * width < k * width,
        j >= k ==> j * width >= k * width,
{
    if width == 1 {
        assert(k * width == k);
        assert(j * width == j);
        assert((k + 1) * width == k + 1);
    } else if width == 2 {
        assert(k * width == k * 2);
        assert(j * width == j * 2);
        assert((k + 1) * width == (k + 1) * 2);
    } else {
        assert(k * width == k * 4);
        assert(j * width == j * 4);
        assert((k + 1) * width == (k + 1) * 4);
    }
}

/// What a mask says of the characters that were compared: it is zero where
/// none of them is the needle, and otherwise its lowest set bit stands in the
/// group of the first one that is.
pub proof fn lemma_match_mask<T>(
    mask: u32,
    width: u32,
    needle: T,
    haystack: Seq<T>,
    at: int,
    lanes: int,
)
    requires
        width == 1 || width == 2 || width == 4,
        0 <= lanes,
        lanes * width <= 32,
        is_match_mask(mask, width, needle, haystack, at, lanes),
    ensures
        mask == 0 ==> absent_within(needle, haystack, at, at + lanes),
        mask != 0 ==> {
            let p = lowest_group(mask, width);
            &&& 0 <= p < lanes
            &&& haystack[at + p] == needle
            &&& absent_within(needle, haystack, at, at + p)
        },
{
    let full = group_max(width);
    if mask == 0 {
        assert forall|j: int| at <= j < at + lanes implies haystack[j] != needle by {
            let k = j - at;
            lemma_group_shift(width, k, 0);
            lemma_empty_mask(width, full, (k * width) as u32);
            assert(group(mask, width, k) == 0);
        }
    } else {
        let t = u32_trailing_zeros(mask);
        vstd::std_specs::bits::axiom_u32_trailing_zeros(mask);
        let p = lowest_group(mask, width);
        lemma_group_shift(width, p, lanes);
        lemma_group_shift(width, lanes, 0);
        let end = (lanes * width) as u32;
        lemma_lowest_group(mask, width, full, t, (p * width) as u32, 0, end);
        assert(p < lanes);
        assert(group(mask, width, p) != 0);
        assert forall|j: int| at <= j < at + p implies haystack[j] != needle by {
            let k = j - at;
            lemma_group_shift(width, p, k);
            lemma_group_shift(width, k, 0);
            lemma_lowest_group(mask, width, full, t, (p * width) as u32, (k * width) as u32, end);
            assert(group(mask, width, k) == 0);
        }
    }
}

/// Compares the `lanes` characters of `haystack` from index `at` on with
/// `needle`, and returns the mask that has `width` bits to the lane.
fn match_mask<T: Pack>(haystack: &[T], at: usize, lanes: usize, needle: T, width: u32) -> (mask:
    u32)
    requires
        at + lanes <= haystack.len(),
        width == 1 || width == 2 || width == 4,
        lanes * width <= 32,
    ensures
        is_match_mask(mask, width, needle, haystack@, at as int, lanes as int),
{
    let full: u32 = if width == 1 {
        1
    } else if width == 2 {
        3
    } else {
        15
    };
    let code = needle.unsigned();
    let mut mask: u32 = 0;
    let mut k: usize = 0;
    while k < lanes
        invariant
            at + lanes <= haystack.len(),
            width == 1 || width == 2 || width == 4,
            lanes * width <= 32,
            full == group_max(width),
            code == needle.code(),
            0 <= k <= lanes,
            k == 0 ==> mask == 0,
            0 < k && k * width < 32 ==> mask >> ((k * width) as u32) == 0,
            forall|j: int|
                0 <= j < k ==> #[trigger] group(mask, width, j) == if haystack@[at + j] == needle {
                    full
                } else {
                    0
                },
        decreases lanes - k,
    {
        proof {
            T::lemma_code(haystack@[at + k], needle);
            lemma_group_shift(width, k as int, lanes as int);
            lemma_group_shift(width, lanes as int, k as int);
        }
        let bits: u32 = if haystack[at + k].unsigned() == code {
            full
        } else {
            0
        };
        let shift: u32 = (k as u32) * width;
        proof {
            lemma_insert_group(mask, bits, width, full, shift, 0);
            assert forall|j: int| 0 <= j < k implies #[trigger] group(
                mask | (bits << shift),
                width,
                j,
            ) == group(mask, width, j) by {
                lemma_group_shift(width, k as int, j);
                lemma_group_shift(width, j, 0);
                lemma_insert_group(mask, bits, width, full, shift, (j * width) as u32);
            }
        }
        mask = mask | (bits << shift);
        k += 1;
    }
    proof {
        lemma_group_shift(width, lanes as int, 0);
        lemma_empty_mask(width, full, 0);
    }
    mask
}

/// Compares the `lanes` characters of a register that was read at index
/// `at` of `haystack` with `needle`, and returns the mask that has one bit
/// to the byte.
pub fn movemask_eq<T: Pack>(haystack: &[T], at: usize, lanes: usize, needle: T) -> (mask: u32)
    requires
        at + lanes <= haystack.len(),
        lanes * size_of::<T>() <= 32,
    ensures
        is_match_mask(
            mask,
            size_of::<T>() as u32,
            needle,
            haystack@,
            at as int,
            lanes as int,
        ),
{
    proof {
        T::lemma_bits();
    }
    match_mask(haystack, at, lanes, needle, T::size() as u32)
}

/// Compares the `lanes` characters of a register that was read at index
/// `at` of `haystack` with `needle`, and returns the mask that has one bit
/// to the lane.
pub fn mask_eq<T: Pack>(haystack: &[T], at: usize, lanes: usize, needle: T) -> (mask: u32)
    requires
        at + lanes <= haystack.len(),
        lanes <= 32,
    ensures
        is_match_mask(mask, 1, needle, haystack@, at as int, lanes as int),
{
    match_mask(haystack, at, lanes, needle, 1)
}

} // verus!
