//! Machine words read as rows of equally wide lanes.
//!
//! A [`Packed`] word holds `LANES` wide characters side by side, lane `k` in
//! the bits `k * BITS .. (k + 1) * BITS`. Lane 0 is the lowest one, whatever
//! the byte order of the machine: words are put together from the characters
//! by shifting, never by reading memory through another type.

use vstd::prelude::*;
use vstd::layout::size_of;
use vstd::std_specs::bits::u64_trailing_zeros;

verus! {

/// An integer holding a packed vector of wide characters.
pub type Packed = usize;

/// A trait for types that have a constant size known at compile time.
pub trait Sized: core::marker::Sized {
    /// The number of bytes used to represent the type in memory.
    fn size() -> (size: usize)
        ensures
            size == size_of::<Self>(),
    ;

    /// The number of bits used to represent the type in memory.
    fn bits() -> (bits: usize)
        requires
            size_of::<Self>() * 8 <= usize::MAX,
        ensures
            bits == size_of::<Self>() * 8,
    ;
}

impl<T> Sized for T {
    fn size() -> (size: usize) {
        core::mem::size_of::<T>()
    }

    fn bits() -> (bits: usize) {
        core::mem::size_of::<T>() * 8
    }
}

/// The number of bits in one lane that holds a `T`.
pub open spec fn lane_bits<T>() -> usize {
    (size_of::<T>() * 8) as usize
}

/// The largest value that a lane of `bits` bits holds.
pub open spec fn lane_max(bits: usize) -> usize {
    if bits == 16 {
        0xffff
    } else {
        0xffff_ffff
    }
}

/// The number of lanes of `bits` bits in a [`Packed`] word.
pub open spec fn lane_count(bits: usize) -> usize {
    usize::BITS as usize / bits
}

/// The word that has bit 0 of every lane set, and no other bit.
pub open spec fn lo_bits(bits: usize) -> Packed {
    usize::MAX / lane_max(bits)
}

/// The word that has the highest bit of every lane set, and no other bit.
pub open spec fn hi_bits(bits: usize) -> Packed {
    lo_bits(bits) << ((bits - 1) as usize)
}

/// What lane `k` of `word` holds.
pub open spec fn lane(word: Packed, bits: usize, k: int) -> usize {
    (word >> ((k * bits) as usize)) & lane_max(bits)
}

/// The word all of whose lanes hold `code`.
pub open spec fn splat(code: usize, bits: usize) -> Packed {
    (code * lo_bits(bits)) as usize
}

/// The number of the lane in which the lowest set bit of `mask` stands.
pub open spec fn lowest_lane(mask: Packed, bits: usize) -> int {
    u64_trailing_zeros(mask as u64) as int / bits as int
}

/// Lanes are 16 or 32 bits wide, and `mask`, `lo` and `hi` are the three
/// constants of such a lane in a word of this machine.
pub open spec fn lane_layout(bits: usize, mask: usize, lo: usize, hi: usize) -> bool {
    ||| usize::BITS == 64 && bits == 16 && mask == 0xffff && lo == 0x0001_0001_0001_0001
        && hi == 0x8000_8000_8000_8000
    ||| usize::BITS == 64 && bits == 32 && mask == 0xffff_ffff && lo == 0x0000_0001_0000_0001
        && hi == 0x8000_0000_8000_0000
    ||| usize::BITS == 32 && bits == 16 && mask == 0xffff && lo == 0x0001_0001 && hi
        == 0x8000_8000
    ||| usize::BITS == 32 && bits == 32 && mask == 0xffff_ffff && lo == 1 && hi == 0x8000_0000
}

/// The constants of [`lane_layout`] are those that the lane width gives, and
/// the lowest bits of all lanes, times the largest value of a lane, are all
/// bits of a word.
pub proof fn lemma_lane_layout(bits: usize)
    requires
        bits == 16 || bits == 32,
    ensures
        lane_layout(bits, lane_max(bits), lo_bits(bits), hi_bits(bits)),
        lo_bits(bits) * lane_max(bits) == usize::MAX,
        lane_count(bits) * bits == usize::BITS,
        1 <= lane_count(bits) <= 4,
{
    lemma_hi_bits();
}

/// The highest bits of all lanes are the lowest ones, shifted to the top of
/// their lanes.
proof fn lemma_hi_bits()
    by (bit_vector)
    ensures
        0x0001_0001_0001_0001u64 << 15 == 0x8000_8000_8000_8000u64,
        0x0000_0001_0000_0001u64 << 31 == 0x8000_0000_8000_0000u64,
        0x0001_0001u32 << 15 == 0x8000_8000u32,
        1u32 << 31 == 0x8000_0000u32,
{
}

/// Where lane `k` begins in a word: at a bit that is a multiple of the lane
/// width, with the whole lane inside the word. Lanes begin in their order.
pub proof fn lemma_lane_shift(bits: usize, k: int, j: int)
    requires
        bits == 16 || bits == 32,
        0 <= k < lane_count(bits),
    ensures
        0 <= k * bits,
        k * bits + bits <= usize::BITS,
        (k * bits) % (bits as int) == 0,
        (k * bits) / (bits as int) == k,
        (k + 1) * bits == k * bits + bits,
        k == 0 <==> k * bits == 0,
        0 <= j < k ==> 0 <= j * bits < k * bits,
{
    lemma_lane_layout(bits);
    if bits == 16 {
        assert(k * bits == k * 16);
        assert(j * bits == j * 16);
        assert((k + 1) * bits == (k + 1) * 16);
    } else {
        assert(k * bits == k * 32);
        assert(j * bits == j * 32);
        assert((k + 1) * bits == (k + 1) * 32);
    }
}

/// The lane in which bit `t` of a word stands.
proof fn lemma_lane_of_bit(bits: usize, t: int)
    requires
        bits == 16 || bits == 32,
        0 <= t,
    ensures
        0 <= t / (bits as int) * bits <= t,
        t / (bits as int) * bits < usize::BITS ==> 0 <= t / (bits as int) < lane_count(bits),
{
    lemma_lane_layout(bits);
    let p = t / (bits as int);
    if bits == 16 {
        assert(p * bits == p * 16);
    } else {
        assert(p * bits == p * 32);
    }
}

/// The word that flags the lanes of `x` that hold zero: the flag of a lane
/// is its highest bit. The lowest flag that is set is always right; above it
/// a borrow may have set the flag of a lane that holds no zero.
pub open spec fn zero_lanes(x: Packed, bits: usize) -> Packed {
    ((x - lo_bits(bits)) as usize) & !x & hi_bits(bits)
}

/// Lane `p` is the lowest lane of `x` that holds zero.
pub open spec fn first_zero_lane(x: Packed, bits: usize, p: int) -> bool {
    &&& 0 <= p < lane_count(bits)
    &&& lane(x, bits, p) == 0
    &&& forall|k: int| 0 <= k < p ==> lane(x, bits, k) != 0
}

/// No lane of `x` holds zero.
pub open spec fn no_zero_lane(x: Packed, bits: usize) -> bool {
    forall|k: int| 0 <= k < lane_count(bits) ==> lane(x, bits, k) != 0
}

/// Lane `p` is the lowest lane in which `a` and `b` hold the same value.
pub open spec fn first_equal_lane(a: Packed, b: Packed, bits: usize, p: int) -> bool {
    &&& 0 <= p < lane_count(bits)
    &&& lane(a, bits, p) == lane(b, bits, p)
    &&& forall|k: int| 0 <= k < p ==> lane(a, bits, k) != lane(b, bits, k)
}

/// `a` and `b` differ in every lane.
pub open spec fn no_equal_lane(a: Packed, b: Packed, bits: usize) -> bool {
    forall|k: int| 0 <= k < lane_count(bits) ==> lane(a, bits, k) != lane(b, bits, k)
}

/// The word of all bits is the largest word.
proof fn lemma_all_ones()
    by (bit_vector)
    ensures
        usize::BITS == 64 ==> !0usize == 0xffff_ffff_ffff_ffff,
        usize::BITS == 32 ==> !0usize == 0xffff_ffff,
{
}

/// A difference that wraps around is the difference of the integers, cut to
/// a word.
proof fn lemma_wrapping_difference(x: usize, y: usize, d: usize, ones: usize)
    by (bit_vector)
    requires
        ones == !0usize,
        (x >= y && d == x - y) || (x < y && d == x - y + ones + 1),
    ensures
        d == (x - y) as usize,
{
}

/// A lane of `a ^ b` holds zero exactly where `a` and `b` hold the same in
/// that lane.
proof fn lemma_xor_lane(a: usize, b: usize, mask: usize, s: usize)
    by (bit_vector)
    ensures
        (((a ^ b) >> s) & mask == 0) <==> ((a >> s) & mask == (b >> s) & mask),
{
}

/// Where no flag is set, the lane that begins at bit `s` does not hold zero.
proof fn lemma_no_flag(x: usize, bits: usize, mask: usize, lo: usize, hi: usize, s: usize)
    by (bit_vector)
    requires
        lane_layout(bits, mask, lo, hi),
        s % bits == 0,
        s < usize::BITS,
        ((x - lo) as usize) & !x & hi == 0,
    ensures
        (x >> s) & mask != 0,
{
}

/// Where the lowest flag that is set is bit `t`, the lane that bit `t`
/// stands in, which begins at bit `s`, holds zero, and no lane below it
/// does.
proof fn lemma_lowest_flag(
    x: usize,
    bits: usize,
    mask: usize,
    lo: usize,
    hi: usize,
    t: u64,
    s: usize,
    r: usize,
)
    by (bit_vector)
    requires
        lane_layout(bits, mask, lo, hi),
        t < 64,
        (((((x - lo) as usize) & !x & hi) as u64) >> t) & 1 == 1,
        ((((x - lo) as usize) & !x & hi) as u64) << ((64 - t) as u64) == 0,
        s == (t as usize) / bits * bits,
        r % bits == 0,
    ensures
        s < usize::BITS,
        (x >> s) & mask == 0,
        r < s ==> (x >> r) & mask != 0,
{
}

/// The lane that begins at bit `s` of the product of `c` and the lowest bits
/// of all lanes holds `c`.
proof fn lemma_splat_lane(c: usize, bits: usize, mask: usize, lo: usize, hi: usize, s: usize)
    by (bit_vector)
    requires
        lane_layout(bits, mask, lo, hi),
        s % bits == 0,
        s < usize::BITS,
        c <= mask,
    ensures
        (((c * lo) as usize) >> s) & mask == c,
{
}

/// Every lane of the word that `code` is broadcast to holds `code`.
pub proof fn lemma_splat(code: usize, bits: usize, k: int)
    requires
        bits == 16 || bits == 32,
        code <= lane_max(bits),
        0 <= k < lane_count(bits),
    ensures
        lane(splat(code, bits), bits, k) == code,
{
    lemma_lane_layout(bits);
    lemma_lane_shift(bits, k, 0);
    lemma_splat_lane(
        code,
        bits,
        lane_max(bits),
        lo_bits(bits),
        hi_bits(bits),
        (k * bits) as usize,
    );
}

/// The zero test of a word: no flag of [`zero_lanes`] is set exactly where
/// no lane of the word holds zero, and otherwise the lowest flag that is set
/// stands in the lowest lane that holds zero.
pub proof fn lemma_zero_lanes(x: Packed, bits: usize)
    requires
        bits == 16 || bits == 32,
    ensures
        zero_lanes(x, bits) == 0 <==> no_zero_lane(x, bits),
        zero_lanes(x, bits) != 0 ==> first_zero_lane(
            x,
            bits,
            lowest_lane(zero_lanes(x, bits), bits),
        ),
{
    let mask = lane_max(bits);
    let lo = lo_bits(bits);
    let hi = hi_bits(bits);
    let m = zero_lanes(x, bits);
    lemma_lane_layout(bits);
    if m == 0 {
        assert forall|k: int| 0 <= k < lane_count(bits) implies lane(x, bits, k) != 0 by {
            lemma_lane_shift(bits, k, 0);
            lemma_no_flag(x, bits, mask, lo, hi, (k * bits) as usize);
        }
    } else {
        let t = u64_trailing_zeros(m as u64);
        vstd::std_specs::bits::axiom_u64_trailing_zeros(m as u64);
        let p = lowest_lane(m, bits);
        lemma_lane_of_bit(bits, t as int);
        lemma_lowest_flag(x, bits, mask, lo, hi, t as u64, (p * bits) as usize, 0);
        assert(lane(x, bits, p) == 0);
        assert forall|k: int| 0 <= k < p implies lane(x, bits, k) != 0 by {
            lemma_lane_shift(bits, p, k);
            lemma_lane_shift(bits, k, 0);
            lemma_lowest_flag(
                x,
                bits,
                mask,
                lo,
                hi,
                t as u64,
                (p * bits) as usize,
                (k * bits) as usize,
            );
        }
        assert(!no_zero_lane(x, bits));
    }
}

/// Two words hold the same value in a lane exactly where the lane of their
/// difference, taken with `^`, holds zero.
pub proof fn lemma_equal_lanes(a: Packed, b: Packed, bits: usize)
    requires
        bits == 16 || bits == 32,
    ensures
        forall|k: int|
            #![trigger lane(a ^ b, bits, k)]
            #![trigger lane(a, bits, k)]
            #![trigger lane(b, bits, k)]
            0 <= k < lane_count(bits) ==> (lane(a ^ b, bits, k) == 0 <==> lane(a, bits, k) == lane(
                b,
                bits,
                k,
            )),
        no_zero_lane(a ^ b, bits) <==> no_equal_lane(a, b, bits),
        forall|p: int| first_zero_lane(a ^ b, bits, p) <==> first_equal_lane(a, b, bits, p),
{
    assert forall|k: int|
        #![trigger lane(a ^ b, bits, k)]
        #![trigger lane(a, bits, k)]
        #![trigger lane(b, bits, k)]
        0 <= k < lane_count(bits) implies (lane(a ^ b, bits, k) == 0 <==> lane(a, bits, k) == lane(
        b,
        bits,
        k,
    )) by {
        lemma_lane_shift(bits, k, 0);
        lemma_xor_lane(a, b, lane_max(bits), (k * bits) as usize);
    }
}

/// A trait for types that can be packed into a [`Packed`].
pub trait Pack: Sized + Copy + Eq + 'static {
    /// The bits of the character, read as an unsigned number.
    spec fn code(self) -> usize;

    /// A character is 16 or 32 bits wide.
    proof fn lemma_bits()
        ensures
            size_of::<Self>() == 2 || size_of::<Self>() == 4,
            lane_bits::<Self>() == 16 || lane_bits::<Self>() == 32,
    ;

    /// The code of a character fits its lane, and characters with the same
    /// code are the same character.
    proof fn lemma_code(a: Self, b: Self)
        ensures
            a.code() <= lane_max(lane_bits::<Self>()),
            a.code() == b.code() ==> a == b,
    ;

    /// The number of lanes that the packed representation can hold.
    fn lanes() -> (lanes: usize)
        ensures
            lanes == lane_count(lane_bits::<Self>()),
    ;

    /// The bitmask that keeps, of a count of characters, what does not fill a
    /// word: the number of lanes, less one.
    fn align() -> (align: usize)
        ensures
            align == lane_count(lane_bits::<Self>()) - 1,
    ;

    /// The word with the lowest bit of every lane set.
    fn lo() -> (lo: Packed)
        ensures
            lo == lo_bits(lane_bits::<Self>()),
    ;

    /// The word with the highest bit of every lane set.
    fn hi() -> (hi: Packed)
        ensures
            hi == hi_bits(lane_bits::<Self>()),
    ;

    /// The code of the character.
    fn unsigned(self) -> (code: usize)
        ensures
            code == self.code(),
    ;

    /// Broadcasts the value across a [`Packed`].
    fn broadcast(self) -> (word: Packed)
        ensures
            word == splat(self.code(), lane_bits::<Self>()),
    ;
}

impl Pack for u16 {
    open spec fn code(self) -> usize {
        self as usize
    }

    proof fn lemma_bits() {
        broadcast use vstd::layout::layout_of_primitives;

    }

    proof fn lemma_code(a: Self, b: Self) {
        broadcast use vstd::layout::layout_of_primitives;

    }

    fn lanes() -> (lanes: usize) {
        proof {
            broadcast use vstd::layout::layout_of_primitives;

            lemma_lane_layout(16);
        }
        core::mem::size_of::<Packed>() / core::mem::size_of::<u16>()
    }

    fn align() -> (align: usize) {
        proof {
            broadcast use vstd::layout::layout_of_primitives;

            lemma_lane_layout(16);
        }
        Self::lanes() - 1
    }

    fn lo() -> (lo: Packed) {
        Packed::MAX / (u16::MAX as Packed)
    }

    fn hi() -> (hi: Packed) {
        proof {
            broadcast use vstd::layout::layout_of_primitives;

            lemma_lane_layout(16);
        }
        Self::lo() << 15
    }

    fn unsigned(self) -> (code: usize) {
        self as usize
    }

    fn broadcast(self) -> (word: Packed) {
        proof {
            broadcast use vstd::layout::layout_of_primitives;

            lemma_lane_layout(16);
        }
        let lo = Self::lo();
        assert(self * lo <= usize::MAX) by (nonlinear_arith)
            requires
                self <= 0xffff,
                lo * 0xffff <= usize::MAX,
        ;
        (self as Packed) * lo
    }
}

impl Pack for i16 {
    open spec fn code(self) -> usize {
        (self as u16) as usize
    }

    proof fn lemma_bits() {
        broadcast use vstd::layout::layout_of_primitives;

    }

    proof fn lemma_code(a: Self, b: Self) {
        broadcast use vstd::layout::layout_of_primitives;

        assert((a as u16) == (b as u16) ==> a == b) by (bit_vector);
    }

    fn lanes() -> (lanes: usize) {
        broadcast use vstd::layout::layout_of_primitives;

        <u16 as Pack>::lanes()
    }

    fn align() -> (align: usize) {
        broadcast use vstd::layout::layout_of_primitives;

        <u16 as Pack>::align()
    }

    fn lo() -> (lo: Packed) {
        broadcast use vstd::layout::layout_of_primitives;

        <u16 as Pack>::lo()
    }

    fn hi() -> (hi: Packed) {
        broadcast use vstd::layout::layout_of_primitives;

        <u16 as Pack>::hi()
    }

    fn unsigned(self) -> (code: usize) {
        #[verifier::truncate]
        let bits = self as u16;
        bits as usize
    }

    fn broadcast(self) -> (word: Packed) {
        broadcast use vstd::layout::layout_of_primitives;
        // The method by which we broadcast relies on unsigned arithmetic.

        #[verifier::truncate]
        let bits = self as u16;
        <u16 as Pack>::broadcast(bits)
    }
}

impl Pack for u32 {
    open spec fn code(self) -> usize {
        self as usize
    }

    proof fn lemma_bits() {
        broadcast use vstd::layout::layout_of_primitives;

    }

    proof fn lemma_code(a: Self, b: Self) {
        broadcast use vstd::layout::layout_of_primitives;

    }

    fn lanes() -> (lanes: usize) {
        proof {
            broadcast use vstd::layout::layout_of_primitives;

            lemma_lane_layout(32);
        }
        core::mem::size_of::<Packed>() / core::mem::size_of::<u32>()
    }

    fn align() -> (align: usize) {
        proof {
            broadcast use vstd::layout::layout_of_primitives;

            lemma_lane_layout(32);
        }
        Self::lanes() - 1
    }

    fn lo() -> (lo: Packed) {
        Packed::MAX / (u32::MAX as Packed)
    }

    fn hi() -> (hi: Packed) {
        proof {
            broadcast use vstd::layout::layout_of_primitives;

            lemma_lane_layout(32);
        }
        Self::lo() << 31
    }

    fn unsigned(self) -> (code: usize) {
        self as usize
    }

    fn broadcast(self) -> (word: Packed) {
        proof {
            broadcast use vstd::layout::layout_of_primitives;

            lemma_lane_layout(32);
        }
        let lo = Self::lo();
        assert(self * lo <= usize::MAX) by (nonlinear_arith)
            requires
                self <= 0xffff_ffff,
                lo * 0xffff_ffff <= usize::MAX,
        ;
        (self as Packed) * lo
    }
}

impl Pack for i32 {
    open spec fn code(self) -> usize {
        (self as u32) as usize
    }

    proof fn lemma_bits() {
        broadcast use vstd::layout::layout_of_primitives;

    }

    proof fn lemma_code(a: Self, b: Self) {
        broadcast use vstd::layout::layout_of_primitives;

        assert((a as u32) == (b as u32) ==> a == b) by (bit_vector);
    }

    fn lanes() -> (lanes: usize) {
        broadcast use vstd::layout::layout_of_primitives;

        <u32 as Pack>::lanes()
    }

    fn align() -> (align: usize) {
        broadcast use vstd::layout::layout_of_primitives;

        <u32 as Pack>::align()
    }

    fn lo() -> (lo: Packed) {
        broadcast use vstd::layout::layout_of_primitives;

        <u32 as Pack>::lo()
    }

    fn hi() -> (hi: Packed) {
        broadcast use vstd::layout::layout_of_primitives;

        <u32 as Pack>::hi()
    }

    fn unsigned(self) -> (code: usize) {
        #[verifier::truncate]
        let bits = self as u32;
        bits as usize
    }

    fn broadcast(self) -> (word: Packed) {
        broadcast use vstd::layout::layout_of_primitives;
        // The method by which we broadcast relies on unsigned arithmetic.

        #[verifier::truncate]
        let bits = self as u32;
        <u32 as Pack>::broadcast(bits)
    }
}

/// Flags the lanes in which `a` and `b` hold the same value.
///
/// The result is zero where the words differ in every lane. Where it is not,
/// its lowest set bit stands in the first lane in which they agree; that a
/// bit is set in a higher lane says nothing of that lane.
#[inline(always)]
pub fn simd_eq<T: Pack>(a: Packed, b: Packed) -> (mask: Packed)
    ensures
        mask == zero_lanes(a ^ b, lane_bits::<T>()),
        mask == 0 <==> no_equal_lane(a, b, lane_bits::<T>()),
        mask != 0 ==> first_equal_lane(
            a,
            b,
            lane_bits::<T>(),
            lowest_lane(mask, lane_bits::<T>()),
        ),
{
    let xor = a ^ b;
    let lo = T::lo();
    let borrowed = xor.wrapping_sub(lo);
    proof {
        T::lemma_bits();
        lemma_all_ones();
        lemma_wrapping_difference(xor, lo, borrowed, !0usize);
        lemma_zero_lanes(xor, lane_bits::<T>());
        lemma_equal_lanes(a, b, lane_bits::<T>());
    }
    borrowed & !xor & T::hi()
}

} // verus!
