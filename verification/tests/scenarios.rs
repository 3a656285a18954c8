//! The same searches, made with every kernel.

use wmemchr::fallback::packed::Pack;
use wmemchr::x86_64::{avx2, evex, sse2, DispatchSlot, Features, Tier};
use wmemchr::{fallback, naive, simd, x86_64, Wide};

/// What every way of searching that this crate has returns.
fn all_kernels<T: Wide + Pack>(needle: T, haystack: &[T]) -> Vec<Option<usize>> {
    let mut results = vec![
        wmemchr::wmemchr(needle, haystack),
        naive::wmemchr(needle, haystack),
        fallback::wmemchr(needle, haystack),
        x86_64::wmemchr(needle, haystack),
        sse2::wmemchr(needle, haystack),
        avx2::wmemchr(needle, haystack),
        evex::wmemchr(needle, haystack),
        simd::wmemchr(needle, haystack),
        Tier::Sse2.search(needle, haystack),
        Tier::Avx2.search(needle, haystack),
        Tier::Evex.search(needle, haystack),
        T::wmemchr_naive(needle, haystack),
        T::wmemchr_fallback(needle, haystack),
        T::wmemchr_x86_64(needle, haystack),
    ];
    for address in 0..65usize {
        results.push(fallback::scan(needle, haystack, address));
        results.push(sse2::scan(needle, haystack, address));
        results.push(avx2::scan(needle, haystack, address));
        results.push(evex::scan(needle, haystack, address));
        results.push(simd::scan(needle, haystack, address));
    }
    for &avx2 in &[false, true] {
        for &avx512 in &[false, true] {
            let features = Features { avx2, avx512vl: avx512, avx512bw: avx512 };
            let mut slot = DispatchSlot::new();
            results.push(slot.wmemchr(features, true, needle, haystack));
            results.push(slot.wmemchr(Features::baseline(), false, needle, haystack));
        }
    }
    results
}

fn assert_all<T: Wide + Pack>(needle: T, haystack: &[T], expected: Option<usize>) {
    for (kernel, result) in all_kernels(needle, haystack).into_iter().enumerate() {
        assert_eq!(result, expected, "kernel {}", kernel);
    }
}

#[test]
fn hello_finds_the_first_l() {
    assert_all(108u16, &[104, 101, 108, 108, 111], Some(2));
    assert_all(108u32, &[104, 101, 108, 108, 111], Some(2));
    assert_all(108i16, &[104, 101, 108, 108, 111], Some(2));
    assert_all(108i32, &[104, 101, 108, 108, 111], Some(2));
}

#[test]
fn hello_has_no_z() {
    assert_all(122u16, &[104, 101, 108, 108, 111], None);
    assert_all(122u32, &[104, 101, 108, 108, 111], None);
    assert_all(122i16, &[104, 101, 108, 108, 111], None);
    assert_all(122i32, &[104, 101, 108, 108, 111], None);
}

#[test]
fn empty_haystack_has_nothing() {
    assert_all(97u16, &[], None);
    assert_all(97u32, &[], None);
    assert_all(97i16, &[], None);
    assert_all(97i32, &[], None);
}

#[test]
fn needle_in_the_last_of_130() {
    let mut spaces16 = vec![32u16; 130];
    spaces16[129] = 65;
    assert_all(65u16, &spaces16, Some(129));
    let mut spaces32 = vec![32u32; 130];
    spaces32[129] = 65;
    assert_all(65u32, &spaces32, Some(129));
    let signed16: Vec<i16> = spaces16.iter().map(|&c| c as i16).collect();
    assert_all(65i16, &signed16, Some(129));
    let signed32: Vec<i32> = spaces32.iter().map(|&c| c as i32).collect();
    assert_all(65i32, &signed32, Some(129));
}

#[test]
fn first_occurrence_not_the_last() {
    assert_all(7u16, &[7, 1, 2, 7, 3, 7], Some(0));
    assert_all(7u32, &[7, 1, 2, 7, 3, 7], Some(0));
    let mut long16 = vec![1u16; 200];
    long16[0] = 9;
    long16[57] = 9;
    long16[199] = 9;
    assert_all(9u16, &long16, Some(0));
    let mut long32 = vec![1i32; 200];
    long32[0] = -9;
    long32[57] = -9;
    long32[199] = -9;
    assert_all(-9i32, &long32, Some(0));
}

#[test]
fn foo_bar() {
    let haystack: Vec<u16> = "foo bar".encode_utf16().collect();
    assert_all(111u16, &haystack, Some(1));
    assert_all(122u16, &haystack, None);
    let hello: Vec<u16> = "Hello world!".encode_utf16().collect();
    assert_all(119u16, &hello, Some(6));
}

#[test]
fn a_zero_needle_is_a_needle_like_any_other() {
    assert_all(0u16, &[3, 2, 1, 0, 1, 0], Some(3));
    assert_all(0u32, &[3, 2, 1, 0, 1, 0], Some(3));
    assert_all(0u16, &[1; 40], None);
    assert_all(0i32, &[-1; 40], None);
}

#[test]
fn a_lane_above_a_match_is_no_match() {
    // Words in which the lane after the needle holds the needle plus one:
    // subtracting borrows from it, which must not be taken for a match at
    // a lower index.
    let haystack: Vec<u16> = vec![5, 5, 5, 5, 4, 3, 4, 5, 5, 5, 5, 5, 3, 4, 4, 3];
    assert_all(3u16, &haystack, Some(5));
    assert_all(4u16, &haystack, Some(4));
    let haystack: Vec<u32> = vec![9, 9, 9, 8, 7, 8, 9, 9, 7];
    assert_all(7u32, &haystack, Some(4));
    assert_all(8u32, &haystack, Some(3));
}

#[test]
fn repeated_searches_return_the_same() {
    let haystack: Vec<u16> = (0..300).map(|i| (i % 50) as u16).collect();
    let mut slot = DispatchSlot::new();
    let features = Features { avx2: true, avx512vl: false, avx512bw: false };
    let first = slot.wmemchr(features, false, 49u16, &haystack);
    assert_eq!(first, Some(49));
    for _ in 0..10 {
        assert_eq!(slot.wmemchr(Features::baseline(), true, 49u16, &haystack), first);
        assert_eq!(wmemchr::wmemchr(49u16, &haystack), first);
    }
}
