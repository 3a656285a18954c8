//! Words of lanes: their constants, and the flags of equal lanes.

use wmemchr::fallback::packed::{simd_eq, Pack, Packed, Sized};
use wmemchr::fallback::{forward_search, load};
use wmemchr::kernel::Kernel;
use wmemchr::{fallback, naive, x86_64};

/// The word that has the lanes `lanes`, the first one lowest.
fn word16(lanes: &[u16]) -> Packed {
    let mut word: u64 = 0;
    for (k, &lane) in lanes.iter().enumerate() {
        word |= (lane as u64) << (16 * k);
    }
    word as Packed
}

fn word32(lanes: &[u32]) -> Packed {
    let mut word: u64 = 0;
    for (k, &lane) in lanes.iter().enumerate() {
        word |= (lane as u64) << (32 * k);
    }
    word as Packed
}

fn wide_words() -> bool {
    usize::BITS == 64
}

#[test]
fn sizes_and_bits() {
    assert_eq!(<u16 as Sized>::size(), 2);
    assert_eq!(<i16 as Sized>::size(), 2);
    assert_eq!(<u32 as Sized>::size(), 4);
    assert_eq!(<i32 as Sized>::size(), 4);
    assert_eq!(<u16 as Sized>::bits(), 16);
    assert_eq!(<i16 as Sized>::bits(), 16);
    assert_eq!(<u32 as Sized>::bits(), 32);
    assert_eq!(<i32 as Sized>::bits(), 32);
    assert_eq!(<Packed as Sized>::bits(), usize::BITS as usize);
    assert_eq!(<u64 as Sized>::size(), 8);
}

#[test]
fn lanes_and_align() {
    let words = (usize::BITS / 16) as usize;
    assert_eq!(<u16 as Pack>::lanes(), words);
    assert_eq!(<i16 as Pack>::lanes(), words);
    assert_eq!(<u32 as Pack>::lanes(), words / 2);
    assert_eq!(<i32 as Pack>::lanes(), words / 2);
    assert_eq!(<u16 as Pack>::align(), words - 1);
    assert_eq!(<i16 as Pack>::align(), words - 1);
    assert_eq!(<u32 as Pack>::align(), words / 2 - 1);
    assert_eq!(<i32 as Pack>::align(), words / 2 - 1);
}

#[test]
fn lowest_and_highest_bits() {
    if wide_words() {
        assert_eq!(<u16 as Pack>::lo() as u64, 0x0001_0001_0001_0001);
        assert_eq!(<u16 as Pack>::hi() as u64, 0x8000_8000_8000_8000);
        assert_eq!(<u32 as Pack>::lo() as u64, 0x0000_0001_0000_0001);
        assert_eq!(<u32 as Pack>::hi() as u64, 0x8000_0000_8000_0000);
    } else {
        assert_eq!(<u16 as Pack>::lo() as u64, 0x0001_0001);
        assert_eq!(<u16 as Pack>::hi() as u64, 0x8000_8000);
        assert_eq!(<u32 as Pack>::lo() as u64, 1);
        assert_eq!(<u32 as Pack>::hi() as u64, 0x8000_0000);
    }
    assert_eq!(<i16 as Pack>::lo(), <u16 as Pack>::lo());
    assert_eq!(<i16 as Pack>::hi(), <u16 as Pack>::hi());
    assert_eq!(<i32 as Pack>::lo(), <u32 as Pack>::lo());
    assert_eq!(<i32 as Pack>::hi(), <u32 as Pack>::hi());
    // The lowest bits, times the largest value of a lane, are all bits.
    assert_eq!(<u16 as Pack>::lo() * 0xffff, usize::MAX);
    assert_eq!((<u32 as Pack>::lo() as u64) * 0xffff_ffff, usize::MAX as u64);
}

#[test]
fn codes() {
    assert_eq!(0x1234u16.unsigned(), 0x1234);
    assert_eq!(0xffffu16.unsigned(), 0xffff);
    assert_eq!((-1i16).unsigned(), 0xffff);
    assert_eq!(i16::MIN.unsigned(), 0x8000);
    assert_eq!(0x7fffi16.unsigned(), 0x7fff);
    assert_eq!(0xdead_beefu32.unsigned(), 0xdead_beef);
    assert_eq!((-1i32).unsigned(), 0xffff_ffff);
    assert_eq!(i32::MIN.unsigned(), 0x8000_0000);
    assert_eq!((-2i32).unsigned(), 0xffff_fffe);
}

#[test]
fn broadcast_fills_every_lane() {
    if wide_words() {
        assert_eq!(0xabcdu16.broadcast() as u64, 0xabcd_abcd_abcd_abcd);
        assert_eq!((-2i16).broadcast() as u64, 0xfffe_fffe_fffe_fffe);
        assert_eq!(0x1234_5678u32.broadcast() as u64, 0x1234_5678_1234_5678);
        assert_eq!((-1i32).broadcast() as u64, u64::MAX);
        assert_eq!(i32::MIN.broadcast() as u64, 0x8000_0000_8000_0000);
    } else {
        assert_eq!(0xabcdu16.broadcast() as u64, 0xabcd_abcd);
        assert_eq!((-2i16).broadcast() as u64, 0xfffe_fffe);
        assert_eq!(0x1234_5678u32.broadcast() as u64, 0x1234_5678);
        assert_eq!((-1i32).broadcast() as u64, 0xffff_ffff);
    }
    assert_eq!(0u16.broadcast(), 0);
    assert_eq!(0u32.broadcast(), 0);
    assert_eq!(0xffffu16.broadcast(), usize::MAX);
    assert_eq!(0xffff_ffffu32.broadcast(), usize::MAX);
    assert_eq!(1u16.broadcast(), <u16 as Pack>::lo());
    assert_eq!(1i32.broadcast(), <i32 as Pack>::lo());
}

#[test]
fn simd_eq_of_words_without_an_equal_lane_is_zero() {
    let a = word16(&[1, 2, 3, 4]);
    let b = word16(&[2, 3, 4, 5]);
    assert_eq!(simd_eq::<u16>(a, b), 0);
    assert_eq!(simd_eq::<u16>(a, 9u16.broadcast()), 0);
    assert_eq!(simd_eq::<u16>(usize::MAX, 0), 0);
    let a = word32(&[0x1_0000, 0xffff_ffff]);
    let b = word32(&[0x2_0000, 0x7fff_ffff]);
    assert_eq!(simd_eq::<u32>(a, b), 0);
    assert_eq!(simd_eq::<i32>(a, b), 0);
}

#[test]
fn simd_eq_flags_the_first_equal_lane() {
    if !wide_words() {
        return;
    }
    // Lane 1 is equal, and no other.
    let a = word16(&[1, 7, 3, 4]);
    assert_eq!(simd_eq::<u16>(a, 7u16.broadcast()) as u64, 0x0000_0000_8000_0000);
    // Lane 3 is equal, and no other.
    let a = word16(&[1, 2, 3, 7]);
    assert_eq!(simd_eq::<u16>(a, 7u16.broadcast()) as u64, 0x8000_0000_0000_0000);
    assert_eq!(simd_eq::<i16>(a, 7i16.broadcast()) as u64, 0x8000_0000_0000_0000);
    // All lanes are equal.
    assert_eq!(simd_eq::<u16>(a, a) as u64, 0x8000_8000_8000_8000);
    // Lanes 0 and 2 are equal.
    let a = word16(&[7, 2, 7, 4]);
    assert_eq!(simd_eq::<u16>(a, 7u16.broadcast()) as u64, 0x0000_8000_0000_8000);
    // Lane 1 of two.
    let a = word32(&[5, 6]);
    assert_eq!(simd_eq::<u32>(a, 6u32.broadcast()) as u64, 0x8000_0000_0000_0000);
    assert_eq!(simd_eq::<u32>(a, 5u32.broadcast()) as u64, 0x0000_0000_8000_0000);
    assert_eq!(simd_eq::<i32>(a, a) as u64, 0x8000_0000_8000_0000);
}

#[test]
fn simd_eq_may_flag_a_lane_above_the_first() {
    if !wide_words() {
        return;
    }
    // Lane 0 is equal. Lane 1 differs by one, and the borrow of lane 0
    // flags it too: only the lowest flag counts.
    let a = word16(&[7, 6, 3, 4]);
    let mask = simd_eq::<u16>(a, 7u16.broadcast()) as u64;
    assert_eq!(mask, 0x0000_0000_8000_8000);
    assert_eq!(mask.trailing_zeros() / 16, 0);
    let a = word32(&[9, 8]);
    let mask = simd_eq::<u32>(a, 9u32.broadcast()) as u64;
    assert_eq!(mask, 0x8000_0000_8000_0000);
    assert_eq!(mask.trailing_zeros() / 32, 0);
}

#[test]
fn simd_eq_is_the_zero_test_of_the_difference() {
    let words: [u64; 8] = [
        0,
        u64::MAX,
        0x0001_0000_0001_0000,
        0x8000_7fff_0001_ffff,
        0x1234_5678_9abc_def0,
        0x0000_ffff_0000_ffff,
        0x7fff_8000_8000_7fff,
        0x0100_0001_0000_0100,
    ];
    for &a in &words {
        for &b in &words {
            let (a, b) = (a as Packed, b as Packed);
            let xor = a ^ b;
            let by_hand16 = xor.wrapping_sub(<u16 as Pack>::lo()) & !xor & <u16 as Pack>::hi();
            let by_hand32 = xor.wrapping_sub(<u32 as Pack>::lo()) & !xor & <u32 as Pack>::hi();
            assert_eq!(simd_eq::<u16>(a, b), by_hand16);
            assert_eq!(simd_eq::<i16>(a, b), by_hand16);
            assert_eq!(simd_eq::<u32>(a, b), by_hand32);
            assert_eq!(simd_eq::<i32>(a, b), by_hand32);
            // Zero exactly where no lane of the difference is zero.
            let lanes16 = (usize::BITS / 16) as usize;
            let some16 = (0..lanes16).any(|k| (xor >> (16 * k)) & 0xffff == 0);
            assert_eq!(by_hand16 != 0, some16);
            let lanes32 = (usize::BITS / 32) as usize;
            let some32 = (0..lanes32).any(|k| (xor >> (32 * k)) & 0xffff_ffff == 0);
            assert_eq!(by_hand32 != 0, some32);
        }
    }
}

#[test]
fn load_puts_the_first_character_in_the_lowest_lane() {
    let haystack: [u16; 6] = [0x1111, 0x2222, 0x3333, 0x4444, 0x5555, 0x6666];
    let signed: [i16; 4] = [-1, 0, i16::MIN, 1];
    let wide: [u32; 3] = [0xaaaa_aaaa, 0xbbbb_bbbb, 0xcccc_cccc];
    if wide_words() {
        assert_eq!(load(&haystack, 0) as u64, 0x4444_3333_2222_1111);
        assert_eq!(load(&haystack, 1) as u64, 0x5555_4444_3333_2222);
        assert_eq!(load(&haystack, 2) as u64, 0x6666_5555_4444_3333);
        assert_eq!(load(&signed, 0) as u64, 0x0001_8000_0000_ffff);
        assert_eq!(load(&wide, 0) as u64, 0xbbbb_bbbb_aaaa_aaaa);
        assert_eq!(load(&wide, 1) as u64, 0xcccc_cccc_bbbb_bbbb);
        assert_eq!(load(&[-1i32, i32::MIN], 0) as u64, 0x8000_0000_ffff_ffff);
    } else {
        assert_eq!(load(&haystack, 0) as u64, 0x2222_1111);
        assert_eq!(load(&haystack, 4) as u64, 0x6666_5555);
        assert_eq!(load(&signed, 0) as u64, 0x0000_ffff);
        assert_eq!(load(&wide, 2) as u64, 0xcccc_cccc);
    }
}

#[test]
fn load_of_equal_characters_is_their_broadcast() {
    assert_eq!(load(&[0xbeefu16; 4], 0), 0xbeefu16.broadcast());
    assert_eq!(load(&[-2i16; 4], 0), (-2i16).broadcast());
    assert_eq!(load(&[0xdead_beefu32; 2], 0), 0xdead_beefu32.broadcast());
    assert_eq!(load(&[i32::MIN; 2], 0), i32::MIN.broadcast());
}

#[test]
fn forward_search_begins_where_it_is_told() {
    let haystack: [u16; 6] = [7, 1, 7, 2, 7, 3];
    assert_eq!(forward_search(&haystack, 0, 7u16), Some(0));
    assert_eq!(forward_search(&haystack, 1, 7u16), Some(2));
    assert_eq!(forward_search(&haystack, 3, 7u16), Some(4));
    assert_eq!(forward_search(&haystack, 5, 7u16), None);
    assert_eq!(forward_search(&haystack, 6, 7u16), None);
    assert_eq!(forward_search(&haystack, 0, 9u16), None);
    assert_eq!(forward_search(&[-1i32, 1, -1], 1, -1i32), Some(2));
}

#[test]
fn kernels_through_the_trait() {
    let haystack: Vec<u32> = (0..100).collect();
    assert_eq!(<naive::Kernel as Kernel<u32>>::kernel(77, &haystack), Some(77));
    assert_eq!(<fallback::Kernel as Kernel<u32>>::kernel(77, &haystack), Some(77));
    assert_eq!(<x86_64::Kernel as Kernel<u32>>::kernel(77, &haystack), Some(77));
    assert_eq!(<naive::Kernel as Kernel<u32>>::kernel(100, &haystack), None);
    assert_eq!(<fallback::Kernel as Kernel<u32>>::kernel(100, &haystack), None);
    assert_eq!(<x86_64::Kernel as Kernel<u32>>::kernel(100, &haystack), None);
}
