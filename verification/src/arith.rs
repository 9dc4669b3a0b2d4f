//! Machine-integer conversions, stated over mathematical integers.
use vstd::prelude::*;

verus! {

/// Whether `n` is representable as an `i32`.
pub open spec fn fits_i32(n: int) -> bool {
    i32::MIN <= n <= i32::MAX
}

/// The integer whose two's complement representation is the low 32 bits of `n`.
pub open spec fn low_i32(n: int) -> int {
    let r = n % 0x1_0000_0000;
    if r < 0x8000_0000 {
        r
    } else {
        r - 0x1_0000_0000
    }
}

/// The integer whose two's complement representation is the low 16 bits of `n`.
pub open spec fn low_i16(n: int) -> int {
    let r = n % 0x1_0000;
    if r < 0x8000 {
        r
    } else {
        r - 0x1_0000
    }
}

/// Division rounding towards zero, for a positive divisor.
pub open spec fn trunc_div(a: int, b: int) -> int
    recommends
        b > 0,
{
    if a >= 0 {
        a / b
    } else {
        -((-a) / b)
    }
}

pub open spec fn min_int(a: int, b: int) -> int {
    if a <= b {
        a
    } else {
        b
    }
}

pub open spec fn max_int(a: int, b: int) -> int {
    if a >= b {
        a
    } else {
        b
    }
}

/// `n` moved into `lo..=hi`; `hi` where the interval is empty.
pub open spec fn clamp_int(n: int, lo: int, hi: int) -> int {
    min_int(max_int(n, lo), hi)
}

/// Reinterprets a `u32` as an `i32`.
pub fn wrap_u32(n: u32) -> (r: i32)
    ensures
        r == low_i32(n as int),
{
    assert(n as i32 == if n as int % 0x1_0000_0000 < 0x8000_0000 {
        n as int % 0x1_0000_0000
    } else {
        n as int % 0x1_0000_0000 - 0x1_0000_0000
    }) by (bit_vector);
    n as i32
}

/// Keeps the low 32 bits of a `usize`, as an `i32`.
pub fn wrap_usize(n: usize) -> (r: i32)
    ensures
        r == low_i32(n as int),
{
    assert(n as i32 == if n as int % 0x1_0000_0000 < 0x8000_0000 {
        n as int % 0x1_0000_0000
    } else {
        n as int % 0x1_0000_0000 - 0x1_0000_0000
    }) by (bit_vector);
    n as i32
}

/// Keeps the low 16 bits of an `isize`, sign-extended.
fn wrap_word(n: isize) -> (r: i32)
    ensures
        r == low_i16(n as int),
{
    let word: isize = n & 0xffff;
    assert(0 <= n & 0xffff < 0x1_0000 && (n & 0xffff) == n as int % 0x1_0000) by (bit_vector);
    assert(0 <= word < 0x1_0000 ==> (word as i16) == (if word < 0x8000 {
        word as int
    } else {
        word - 0x1_0000
    })) by (bit_vector);
    (word as i16) as i32
}

/// The horizontal coordinate packed in the low word of a mouse message's `lparam`.
pub fn lparam_x(lparam: isize) -> (x: i32)
    ensures
        x == low_i16(lparam as int),
        -0x8000 <= x < 0x8000,
        (lparam - x) % 0x1_0000 == 0,
{
    wrap_word(lparam)
}

/// The vertical coordinate packed in the second word of a mouse message's `lparam`.
pub fn lparam_y(lparam: isize) -> (y: i32)
    ensures
        y == low_i16(lparam as int / 0x1_0000),
        -0x8000 <= y < 0x8000,
        (lparam as int / 0x1_0000 - y) % 0x1_0000 == 0,
{
    assert(lparam >> 16 == lparam as int / 0x1_0000) by (bit_vector);
    wrap_word(lparam >> 16)
}

/// Both coordinates survive being packed into one `lparam`: a pair of signed
/// 16-bit values reads back as itself, whatever lies above the second word.
pub proof fn law_lparam_round_trip(x: int, y: int, above: int)
    requires
        -0x8000 <= x < 0x8000,
        -0x8000 <= y < 0x8000,
    ensures
        ({
            let packed = above * 0x1_0000_0000 + (y % 0x1_0000) * 0x1_0000 + x % 0x1_0000;
            low_i16(packed) == x && low_i16(packed / 0x1_0000) == y
        }),
{
    let lo = x % 0x1_0000;
    let hi = y % 0x1_0000;
    let top = above * 0x1_0000 + hi;
    let packed = above * 0x1_0000_0000 + hi * 0x1_0000 + lo;
    lemma_word_of_signed(x);
    lemma_word_of_signed(y);
    vstd::arithmetic::div_mod::lemma_fundamental_div_mod_converse(packed, 0x1_0000, top, lo);
    vstd::arithmetic::div_mod::lemma_fundamental_div_mod_converse(top, 0x1_0000, above, hi);
}

/// How a signed number of 16 bits is packed into a word.
proof fn lemma_word_of_signed(x: int)
    requires
        -0x8000 <= x < 0x8000,
    ensures
        x % 0x1_0000 == if x >= 0 {
            x
        } else {
            x + 0x1_0000
        },
{
    if x >= 0 {
        vstd::arithmetic::div_mod::lemma_fundamental_div_mod_converse_mod(x, 0x1_0000, 0, x);
    } else {
        vstd::arithmetic::div_mod::lemma_fundamental_div_mod_converse_mod(
            x,
            0x1_0000,
            -1,
            x + 0x1_0000,
        );
    }
}

/// Values already in range are left alone by the low-bits readings.
pub proof fn law_low_bits_keep_small(n: int)
    ensures
        fits_i32(n) ==> low_i32(n) == n,
        fits_i32(low_i32(n)),
        -0x8000 <= n < 0x8000 ==> low_i16(n) == n,
        -0x8000 <= low_i16(n) < 0x8000,
{
}

/// A low-bits reading differs from the number by a multiple of the range of the
/// bits that are read, and lies in that range: there is only one such integer.
pub proof fn law_low_bits_congruent(n: int)
    ensures
        -0x8000_0000 <= low_i32(n) < 0x8000_0000,
        (n - low_i32(n)) % 0x1_0000_0000 == 0,
        -0x8000 <= low_i16(n) < 0x8000,
        (n - low_i16(n)) % 0x1_0000 == 0,
{
}

/// A truncated quotient leaves a remainder smaller than the divisor, on the same
/// side of zero as the dividend.
pub proof fn law_trunc_div_remainder(a: int, b: int)
    requires
        b > 0,
    ensures
        a >= 0 ==> 0 <= a - trunc_div(a, b) * b < b,
        a <= 0 ==> -b < a - trunc_div(a, b) * b <= 0,
{
    let m = if a >= 0 {
        a
    } else {
        -a
    };
    vstd::arithmetic::div_mod::lemma_fundamental_div_mod(m, b);
    vstd::arithmetic::div_mod::lemma_mod_bound(m, b);
    let q = m / b;
    assert(b * q == q * b) by (nonlinear_arith);
    assert((-q) * b == -(q * b)) by (nonlinear_arith);
}

/// Clamping leaves a number between the bounds alone and takes any other to the
/// nearer bound.
pub proof fn law_clamp(n: int, lo: int, hi: int)
    requires
        lo <= hi,
    ensures
        lo <= n <= hi ==> clamp_int(n, lo, hi) == n,
        n < lo ==> clamp_int(n, lo, hi) == lo,
        n > hi ==> clamp_int(n, lo, hi) == hi,
{
}

/// There is only one signed number of 16 bits that differs from `n` by a multiple of
/// their range: the low-bits reading.
pub proof fn law_low_i16_unique(n: int, x: int)
    requires
        -0x8000 <= x < 0x8000,
        (n - x) % 0x1_0000 == 0,
    ensures
        low_i16(n) == x,
{
    let k = (n - x) / 0x1_0000;
    assert(n == k * 0x1_0000 + x);
    if x >= 0 {
        vstd::arithmetic::div_mod::lemma_fundamental_div_mod_converse_mod(n, 0x1_0000, k, x);
    } else {
        vstd::arithmetic::div_mod::lemma_fundamental_div_mod_converse_mod(
            n,
            0x1_0000,
            k - 1,
            x + 0x1_0000,
        );
    }
}

} // verus!
