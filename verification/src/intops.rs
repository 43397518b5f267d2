//! Small integer operations shared by the whole decoder.
use vstd::arithmetic::div_mod::lemma_fundamental_div_mod;
use vstd::arithmetic::div_mod::lemma_fundamental_div_mod_converse;
use vstd::prelude::*;

verus! {

/// Powers of two, indexed by their exponent.
pub const POW2: [i64; 33] = [
    1, 2, 4, 8, 16, 32, 64, 128, 256, 512, 1024, 2048, 4096, 8192, 16384, 32768, 65536, 131072,
    262144, 524288, 1048576, 2097152, 4194304, 8388608, 16777216, 33554432, 67108864, 134217728,
    268435456, 536870912, 1073741824, 2147483648, 4294967296,
];

/// Two to the power `n`, for the exponents of [`POW2`].
pub open spec fn p2(n: int) -> int {
    POW2[n] as int
}

pub open spec fn min(a: int, b: int) -> int {
    if a < b { a } else { b }
}

pub open spec fn max(a: int, b: int) -> int {
    if a > b { a } else { b }
}

/// `v` brought into `lo..=hi`.
pub open spec fn clip(v: int, lo: int, hi: int) -> int {
    if v < lo { lo } else if v > hi { hi } else { v }
}

pub open spec fn abs(v: int) -> int {
    if v < 0 { -v } else { v }
}

/// Bit `k` of `mask`.
pub open spec fn bit_of(mask: int, k: int) -> bool {
    mask / p2(k) % 2 == 1
}

/// `1` for true and `0` for false.
pub open spec fn b2i(b: bool) -> int {
    if b { 1 } else { 0 }
}

pub open spec fn fits_i32(v: int) -> bool {
    i32::MIN <= v <= i32::MAX
}

/// Magnitude `v` with the sign of `s`.
pub open spec fn with_sign(v: int, s: int) -> int {
    if s < 0 { -v } else { v }
}

pub fn imin(a: i32, b: i32) -> (r: i32)
    ensures
        r == min(a as int, b as int),
{
    if a < b { a } else { b }
}

pub fn imax(a: i32, b: i32) -> (r: i32)
    ensures
        r == max(a as int, b as int),
{
    if a > b { a } else { b }
}

pub fn iclip(v: i32, lo: i32, hi: i32) -> (r: i32)
    ensures
        r == clip(v as int, lo as int, hi as int),
{
    if v < lo { lo } else if v > hi { hi } else { v }
}

/// Whether bit `k` of `mask` is set.
pub fn bit_set(mask: u32, k: u32) -> (r: bool)
    requires
        k <= 32,
    ensures
        r == bit_of(mask as int, k as int),
{
    assert(forall|i: int| 0 <= i <= 32 ==> #[trigger] POW2[i] > 0);
    floor_div(mask as i64, POW2[k as usize]) % 2 == 1
}

pub fn btoi(b: bool) -> (r: i32)
    ensures
        r == b2i(b),
{
    if b { 1 } else { 0 }
}

/// Magnitude `v` with the sign of `s`, as a 32-bit value.
pub fn apply_sign64(v: i64, s: i64) -> (r: i32)
    requires
        0 <= v <= i32::MAX,
    ensures
        r == with_sign(v as int, s as int),
{
    if s < 0 { -(v as i32) } else { v as i32 }
}

/// Division that rounds towards negative infinity.
pub fn floor_div(x: i64, d: i64) -> (r: i64)
    requires
        d > 0,
    ensures
        r == x as int / d as int,
        x >= 0 ==> 0 <= r <= x,
        x < 0 ==> x <= r < 0,
{
    if x >= 0 {
        proof {
            lemma_fundamental_div_mod(x as int, d as int);
            assert(0 <= x as int / d as int <= x) by (nonlinear_arith)
                requires
                    x >= 0,
                    d > 0,
            ;
        }
        x / d
    } else {
        let y: i64 = -(x + 1);
        let q: i64 = y / d;
        proof {
            lemma_fundamental_div_mod(y as int, d as int);
            let m = y as int % d as int;
            assert(0 <= q <= y) by (nonlinear_arith)
                requires
                    y >= 0,
                    d > 0,
                    q == y as int / d as int,
            ;
            assert(x as int == (-(q as int) - 1) * d + (d - 1 - m)) by (nonlinear_arith)
                requires
                    y == -(x + 1),
                    y as int == d * q + m,
            ;
            lemma_fundamental_div_mod_converse(x as int, d as int, -(q as int) - 1, d - 1 - m);
        }
        -q - 1
    }
}

/// Arithmetic shift right by `n` bits.
pub fn shr(x: i32, n: u32) -> (r: i32)
    requires
        n <= 31,
    ensures
        r == x as int / p2(n as int),
        x >= 0 ==> 0 <= r <= x,
        x < 0 ==> x <= r < 0,
{
    assert(forall|k: int| 0 <= k <= 32 ==> #[trigger] POW2[k] > 0);
    floor_div(x as i64, POW2[n as usize]) as i32
}

/// Arithmetic shift right by `n` bits of a 64-bit value.
pub fn shr64(x: i64, n: u32) -> (r: i64)
    requires
        n <= 32,
    ensures
        r == x as int / p2(n as int),
        x >= 0 ==> 0 <= r <= x,
        x < 0 ==> x <= r < 0,
{
    assert(forall|k: int| 0 <= k <= 32 ==> #[trigger] POW2[k] > 0);
    floor_div(x, POW2[n as usize])
}

/// The low `n` bits of `x`, read as an unsigned number.
pub fn low_bits(x: i32, n: u32) -> (r: i32)
    requires
        n <= 30,
    ensures
        r == x as int % p2(n as int),
        0 <= r < p2(n as int),
{
    assert(forall|k: int| 0 <= k <= 30 ==> 0 < #[trigger] POW2[k] <= 0x4000_0000);
    let d: i64 = POW2[n as usize];
    let q: i64 = floor_div(x as i64, d);
    proof {
        lemma_fundamental_div_mod(x as int, d as int);
        assert(x as int == d as int * q as int + x as int % d as int);
        assert(d as int * q as int == q as int * d as int) by (nonlinear_arith);
        assert((q as int) * (d as int) <= x && x - (q as int) * (d as int) < d);
    }
    (x as i64 - q * d) as i32
}

/// Undoes the recentring of a non-negative value around `r`: even codes lie
/// at or above `r`, odd codes below it, and codes beyond twice `r` stand for
/// themselves.
pub open spec fn recentred(r: int, v: int) -> int {
    if v > 2 * r {
        v
    } else if v % 2 == 0 {
        r + v / 2
    } else {
        r - (v + 1) / 2
    }
}

pub fn inv_recenter(r: u32, v: u32) -> (res: u32)
    requires
        r <= 0x3fff_ffff,
    ensures
        res == recentred(r as int, v as int),
{
    if v > 2 * r {
        v
    } else if v % 2 == 0 {
        r + v / 2
    } else {
        r - (v + 1) / 2
    }
}

/// Recentring around `r` is undone without loss: two codes that stand for the
/// same value are the same code.
pub proof fn law_recentred_is_injective(r: int, v: int, w: int)
    requires
        0 <= r,
        0 <= v,
        0 <= w,
        recentred(r, v) == recentred(r, w),
    ensures
        v == w,
{
}

} // verus!
