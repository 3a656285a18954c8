//! Every kernel against the naive one, on haystacks made by chance.

use quickcheck::QuickCheck;
use wmemchr::fallback::packed::Pack;
use wmemchr::x86_64::{avx2, evex, sse2};
use wmemchr::{fallback, naive, simd, x86_64, Wide};

fn position<T: PartialEq>(needle: &T, haystack: &[T]) -> Option<usize> {
    haystack.iter().position(|c| c == needle)
}

fn fallback_agrees<T: Wide>(needle: T, haystack: Vec<T>) -> bool {
    fallback::wmemchr(needle, &haystack) == naive::wmemchr(needle, &haystack)
}

fn x86_64_agrees<T: Wide>(needle: T, haystack: Vec<T>) -> bool {
    x86_64::wmemchr(needle, &haystack) == naive::wmemchr(needle, &haystack)
}

fn tiers_agree<T: Wide + Pack>(needle: T, haystack: Vec<T>, address: usize) -> bool {
    let expected = position(&needle, &haystack);
    naive::wmemchr(needle, &haystack) == expected
        && wmemchr::wmemchr(needle, &haystack) == expected
        && sse2::wmemchr(needle, &haystack) == expected
        && avx2::wmemchr(needle, &haystack) == expected
        && evex::wmemchr(needle, &haystack) == expected
        && simd::wmemchr(needle, &haystack) == expected
        && fallback::scan(needle, &haystack, address) == expected
        && sse2::scan(needle, &haystack, address) == expected
        && avx2::scan(needle, &haystack, address) == expected
        && evex::scan(needle, &haystack, address) == expected
        && simd::scan(needle, &haystack, address) == expected
}

/// A haystack of few distinct characters, so that the needle is often in it.
fn narrow<T: Copy>(haystack: Vec<u8>, characters: [T; 4]) -> Vec<T> {
    haystack.into_iter().map(|c| characters[(c % 4) as usize]).collect()
}

fn tiers_agree_narrow_u16(needle: u8, haystack: Vec<u8>, address: usize) -> bool {
    let characters = [0u16, 1, 0x8000, 0xffff];
    tiers_agree(characters[(needle % 4) as usize], narrow(haystack, characters), address)
}

fn tiers_agree_narrow_i32(needle: u8, haystack: Vec<u8>, address: usize) -> bool {
    let characters = [0i32, -1, i32::MIN, 0x1_0000];
    tiers_agree(characters[(needle % 4) as usize], narrow(haystack, characters), address)
}

#[test]
fn fallback_u16() {
    QuickCheck::new().quickcheck(fallback_agrees::<u16> as fn(u16, Vec<u16>) -> bool);
}

#[test]
fn fallback_u32() {
    QuickCheck::new().quickcheck(fallback_agrees::<u32> as fn(u32, Vec<u32>) -> bool);
}

#[test]
fn fallback_i16() {
    QuickCheck::new().quickcheck(fallback_agrees::<i16> as fn(i16, Vec<i16>) -> bool);
}

#[test]
fn fallback_i32() {
    QuickCheck::new().quickcheck(fallback_agrees::<i32> as fn(i32, Vec<i32>) -> bool);
}

#[test]
fn x86_64_u16() {
    QuickCheck::new().quickcheck(x86_64_agrees::<u16> as fn(u16, Vec<u16>) -> bool);
}

#[test]
fn x86_64_u32() {
    QuickCheck::new().quickcheck(x86_64_agrees::<u32> as fn(u32, Vec<u32>) -> bool);
}

#[test]
fn x86_64_i16() {
    QuickCheck::new().quickcheck(x86_64_agrees::<i16> as fn(i16, Vec<i16>) -> bool);
}

#[test]
fn x86_64_i32() {
    QuickCheck::new().quickcheck(x86_64_agrees::<i32> as fn(i32, Vec<i32>) -> bool);
}

#[test]
fn tiers_u16() {
    QuickCheck::new().quickcheck(tiers_agree::<u16> as fn(u16, Vec<u16>, usize) -> bool);
}

#[test]
fn tiers_u32() {
    QuickCheck::new().quickcheck(tiers_agree::<u32> as fn(u32, Vec<u32>, usize) -> bool);
}

#[test]
fn tiers_i16() {
    QuickCheck::new().quickcheck(tiers_agree::<i16> as fn(i16, Vec<i16>, usize) -> bool);
}

#[test]
fn tiers_i32() {
    QuickCheck::new().quickcheck(tiers_agree::<i32> as fn(i32, Vec<i32>, usize) -> bool);
}

#[test]
fn tiers_on_few_characters_u16() {
    QuickCheck::new()
        .tests(1000)
        .quickcheck(tiers_agree_narrow_u16 as fn(u8, Vec<u8>, usize) -> bool);
}

#[test]
fn tiers_on_few_characters_i32() {
    QuickCheck::new()
        .tests(1000)
        .quickcheck(tiers_agree_narrow_i32 as fn(u8, Vec<u8>, usize) -> bool);
}
