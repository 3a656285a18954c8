//! Haystacks of the lengths at which a kernel changes its way.

use wmemchr::fallback::packed::Pack;
use wmemchr::x86_64::{avx2, evex, sse2};
use wmemchr::{fallback, naive, simd, x86_64, Wide};

/// The first index at which `needle` stands in `haystack`.
fn position<T: PartialEq>(needle: &T, haystack: &[T]) -> Option<usize> {
    haystack.iter().position(|c| c == needle)
}

fn check<T: Wide + Pack + PartialEq + std::fmt::Debug>(needle: T, haystack: &[T]) {
    let expected = position(&needle, haystack);
    assert_eq!(wmemchr::wmemchr(needle, haystack), expected);
    assert_eq!(naive::wmemchr(needle, haystack), expected);
    assert_eq!(fallback::wmemchr(needle, haystack), expected);
    assert_eq!(x86_64::wmemchr(needle, haystack), expected);
    assert_eq!(sse2::wmemchr(needle, haystack), expected);
    assert_eq!(avx2::wmemchr(needle, haystack), expected);
    assert_eq!(evex::wmemchr(needle, haystack), expected);
    assert_eq!(simd::wmemchr(needle, haystack), expected);
    for address in [0usize, 2, 4, 6, 8, 14, 16, 18, 30, 32, 62, 64, 1, 31] {
        assert_eq!(fallback::scan(needle, haystack, address), expected);
        assert_eq!(sse2::scan(needle, haystack, address), expected);
        assert_eq!(avx2::scan(needle, haystack, address), expected);
        assert_eq!(evex::scan(needle, haystack, address), expected);
        assert_eq!(simd::scan(needle, haystack, address), expected);
    }
}

/// Searches haystacks of `len` characters: without the needle, and with it
/// at each index, alone and followed by a second one.
fn check_len_u16(len: usize) {
    let plain = vec![32u16; len];
    check(65u16, &plain);
    for at in 0..len {
        let mut one = plain.clone();
        one[at] = 65;
        check(65u16, &one);
        let mut two = one.clone();
        two[len - 1] = 65;
        check(65u16, &two);
        let signed: Vec<i16> = one.iter().map(|&c| -(c as i16)).collect();
        check(-65i16, &signed);
    }
}

fn check_len_u32(len: usize) {
    let plain = vec![32u32; len];
    check(65u32, &plain);
    for at in 0..len {
        let mut one = plain.clone();
        one[at] = 65;
        check(65u32, &one);
        let mut two = one.clone();
        two[len - 1] = 65;
        check(65u32, &two);
        let signed: Vec<i32> = one.iter().map(|&c| -(c as i32)).collect();
        check(-65i32, &signed);
    }
}

#[test]
fn length_zero_and_one() {
    check_len_u16(0);
    check_len_u16(1);
    check_len_u32(0);
    check_len_u32(1);
}

#[test]
fn around_one_word_of_u16() {
    // Four characters to the word of 64 bits, two to that of 32 bits.
    for len in 1..=5 {
        check_len_u16(len);
    }
}

#[test]
fn around_one_word_of_u32() {
    // Two characters to the word of 64 bits, one to that of 32 bits.
    for len in 1..=3 {
        check_len_u32(len);
    }
}

#[test]
fn around_one_small_register_of_u16() {
    for len in 7..=9 {
        check_len_u16(len);
    }
}

#[test]
fn around_one_small_register_of_u32() {
    for len in 3..=5 {
        check_len_u32(len);
    }
}

#[test]
fn around_one_wide_register_of_u16() {
    for len in 15..=17 {
        check_len_u16(len);
    }
}

#[test]
fn around_one_wide_register_of_u32() {
    for len in 7..=9 {
        check_len_u32(len);
    }
}

#[test]
fn around_four_words() {
    for len in 15..=21 {
        check_len_u16(len);
    }
    for len in 7..=11 {
        check_len_u32(len);
    }
}

#[test]
fn around_four_small_registers_of_u16() {
    for len in 31..=41 {
        check_len_u16(len);
    }
}

#[test]
fn around_four_small_registers_of_u32() {
    for len in 15..=21 {
        check_len_u32(len);
    }
}

#[test]
fn around_four_wide_registers_of_u16() {
    for len in 63..=81 {
        check_len_u16(len);
    }
}

#[test]
fn around_four_wide_registers_of_u32() {
    for len in 31..=41 {
        check_len_u32(len);
    }
}

#[test]
fn around_eight_wide_registers() {
    for len in [127, 128, 129, 143, 144, 145] {
        check_len_u16(len);
    }
    for len in [63, 64, 65, 71, 72, 73] {
        check_len_u32(len);
    }
}
