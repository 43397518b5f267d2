//! Scaled motion, and how far down a prediction reads.
use vstd::prelude::*;

use crate::intops::{abs, b2i, imax, low_bits, max, p2, shr, shr64, with_sign, POW2};
use crate::levels::MvXY;

verus! {

/// Half of `v`, rounded towards zero.
pub open spec fn half(v: int) -> int {
    with_sign(abs(v) / 2, v)
}

fn halve(v: i32) -> (r: i32)
    requires
        v > i32::MIN,
    ensures
        r == half(v as int),
{
    if v < 0 {
        -(-v / 2)
    } else {
        v / 2
    }
}

/// A motion vector difference scaled for the second reference of a pair. With
/// adaptive resolution both parts are scaled together, otherwise only one.
pub open spec fn jmvd_scaled(y: int, x: int, amvd: bool, mode: int) -> (int, int) {
    if amvd {
        if mode == 1 {
            (2 * y, 2 * x)
        } else if mode == 2 {
            (half(y), half(x))
        } else {
            (y, x)
        }
    } else if mode == 1 {
        (2 * y, x)
    } else if mode == 2 {
        (y, 2 * x)
    } else if mode == 3 {
        (half(y), x)
    } else if mode == 4 {
        (y, half(x))
    } else {
        (y, x)
    }
}

/// There are three modes with adaptive resolution and five without.
pub open spec fn jmvd_mode_valid(amvd: bool, mode: int) -> bool {
    0 <= mode <= (if amvd { 2int } else { 4 })
}

pub fn jmvd_scale(mv: &mut MvXY, amvd: bool, jmvd_scale_mode: i32)
    requires
        jmvd_mode_valid(amvd, jmvd_scale_mode as int),
        -0x4000_0000 < old(mv).y < 0x4000_0000,
        -0x4000_0000 < old(mv).x < 0x4000_0000,
    ensures
        (final(mv).y as int, final(mv).x as int) == jmvd_scaled(
            old(mv).y as int,
            old(mv).x as int,
            amvd,
            jmvd_scale_mode as int,
        ),
{
    if amvd {
        if jmvd_scale_mode == 1 {
            mv.y = 2 * mv.y;
            mv.x = 2 * mv.x;
        } else if jmvd_scale_mode == 2 {
            mv.y = halve(mv.y);
            mv.x = halve(mv.x);
        }
    } else if jmvd_scale_mode == 1 {
        mv.y = 2 * mv.y;
    } else if jmvd_scale_mode == 2 {
        mv.x = 2 * mv.x;
    } else if jmvd_scale_mode == 3 {
        mv.y = halve(mv.y);
    } else if jmvd_scale_mode == 4 {
        mv.x = halve(mv.x);
    }
}

/// Halving undoes doubling, for each way of scaling.
pub proof fn law_halving_undoes_doubling(y: int, x: int, amvd: bool, mode: int)
    requires
        1 <= mode <= (if amvd { 1int } else { 2 }),
    ensures
        ({
            let (y2, x2) = jmvd_scaled(y, x, amvd, mode);
            jmvd_scaled(y2, x2, amvd, mode + (if amvd { 1int } else { 2 })) == (y, x)
        }),
{
}

/// How a reference of another size is scaled: the ratio, zero for the same
/// size, and the step between lines.
#[derive(Debug, Clone, Copy, PartialEq, Eq, Structural)]
pub struct ScalableMotionParams {
    pub scale: i32,
    pub step: i32,
}

/// The line below the last one that a block reads: `by4` and `bh4` are its
/// top and height in units of four pixels.
pub open spec fn lowest_px(by4: int, bh4: int, mvy: int, ss_ver: int, smp: ScalableMotionParams) -> int {
    let v_mul = if ss_ver == 1 { 2int } else { 4 };
    if smp.scale == 0 {
        (by4 + bh4) * v_mul + mvy / p2(3 + ss_ver) + 4 * b2i(mvy % p2(3 + ss_ver) != 0)
    } else {
        let y = by4 * v_mul * 16 + mvy * (if ss_ver == 0 { 2int } else { 1 });
        let t = y * smp.scale + (smp.scale - 0x4000) * 8;
        let top = with_sign((abs(t) + 128) / 256, t) + 32;
        (top + (bh4 * v_mul - 1) * smp.step) / 1024 + 5
    }
}

/// Lowers `dst` to the line that the prediction of a block needs.
pub fn mc_lowest_px(
    dst: &mut i32,
    by4: i32,
    bh4: i32,
    mvy: i32,
    ss_ver: i32,
    smp: &ScalableMotionParams,
)
    requires
        0 <= by4 <= 0x10000,
        0 <= bh4 <= 64,
        -0x10_0000 <= mvy <= 0x10_0000,
        0 <= ss_ver <= 1,
        0 <= smp.scale <= 0x10000,
        0 <= smp.step <= 0x10000,
    ensures
        *final(dst) == max(
            *old(dst) as int,
            lowest_px(by4 as int, bh4 as int, mvy as int, ss_ver as int, *smp),
        ),
{
    let v_mul: i32 = if ss_ver == 1 { 2 } else { 4 };
    if smp.scale == 0 {
        let sh: u32 = 3 + ss_ver as u32;
        let my: i32 = shr(mvy, sh);
        let dy: i32 = low_bits(mvy, sh);
        let extra: i32 = if dy != 0 { 4 } else { 0 };
        *dst = imax(*dst, (by4 + bh4) * v_mul + my + extra);
    } else {
        let top4: i64 = if ss_ver == 1 { by4 as i64 * 2 } else { by4 as i64 * 4 };
        let down: i64 = if ss_ver == 0 { mvy as i64 * 2 } else { mvy as i64 };
        let y: i64 = top4 * 16 + down;
        assert(-0x200_0000 <= y <= 0x200_0000);
        let scale: i64 = smp.scale as i64;
        assert(-0x200_0000 * 0x10000 <= y * scale <= 0x200_0000 * 0x10000) by (nonlinear_arith)
            requires
                -0x200_0000 <= y <= 0x200_0000,
                0 <= scale <= 0x10000,
        ;
        let t: i64 = y * scale + (scale - 0x4000) * 8;
        let a: i64 = if t < 0 { -t } else { t };
        let q: i64 = (a + 128) / 256;
        assert(0 <= q <= 0x4000_0000 * 16);
        let top: i64 = (if t < 0 { -q } else { q }) + 32;
        let lines: i64 = if ss_ver == 1 { bh4 as i64 * 2 - 1 } else { bh4 as i64 * 4 - 1 };
        let step: i64 = smp.step as i64;
        assert(-0x10000 <= lines * step <= 256 * 0x10000) by (nonlinear_arith)
            requires
                -1 <= lines <= 255,
                0 <= step <= 0x10000,
        ;
        assert(forall|k: int| 0 <= k <= 10 ==> #[trigger] POW2[k] <= 1024);
        let bottom: i64 = shr64(top + lines * step, 10) + 5;
        *dst = imax(*dst, bottom as i32);
    }
}

/// The matrix of a warp is in the range that is coded for it.
pub open spec fn warp_rows_valid(mat: [i32; 6]) -> bool {
    -0x100_0000 <= mat[4] <= 0x100_0000 && -0x100_0000 <= mat[5] <= 0x100_0000
}

/// The line below the last one that the 8x8 area in column `x` of the last
/// row of areas reads.
pub open spec fn warp_lowest_at(
    b_dim: Seq<u8>,
    by: int,
    bx: int,
    mat: [i32; 6],
    ss_ver: int,
    ss_hor: int,
    x: int,
) -> int {
    let v_mul = if ss_ver == 1 { 2int } else { 4 };
    let src_y = by * 4 + (b_dim[1] * v_mul - 8 + 4) * p2(ss_ver);
    let src_x = bx * 4 + (x + 4) * p2(ss_hor);
    (mat[4] * src_x + (mat[5] * src_y + mat[1])) / p2(ss_ver) / 0x10000 + 8
}

/// The same over the first and the last column of areas from `x` on.
pub open spec fn warp_lowest_from(
    dst: int,
    b_dim: Seq<u8>,
    by: int,
    bx: int,
    mat: [i32; 6],
    ss_ver: int,
    ss_hor: int,
    x: int,
) -> int
    decreases max(b_dim[0] * 4 - x, 0),
{
    let bw = b_dim[0] * (if ss_hor == 1 { 2int } else { 4 });
    if x >= bw || x < 0 {
        dst
    } else {
        warp_lowest_from(
            max(dst, warp_lowest_at(b_dim, by, bx, mat, ss_ver, ss_hor, x)),
            b_dim,
            by,
            bx,
            mat,
            ss_ver,
            ss_hor,
            x + max(8, bw - 8),
        )
    }
}

/// Lowers `dst` to the line that the warped prediction of a block needs.
/// `b_dim` starts with the width and height of the block in units of four
/// pixels.
pub fn affine_lowest_px(
    dst: &mut i32,
    b_dim: &[u8],
    by: i32,
    bx: i32,
    mat: &[i32; 6],
    ss_ver: i32,
    ss_hor: i32,
)
    requires
        b_dim@.len() >= 2,
        b_dim@[0] <= 64,
        b_dim@[1] <= 64,
        0 <= by <= 0x10000,
        0 <= bx <= 0x10000,
        0 <= ss_ver <= 1,
        0 <= ss_hor <= 1,
        warp_rows_valid(*mat),
    ensures
        *final(dst) == warp_lowest_from(
            *old(dst) as int,
            b_dim@,
            by as int,
            bx as int,
            *mat,
            ss_ver as int,
            ss_hor as int,
            0,
        ),
        *final(dst) >= *old(dst),
{
    let h_mul: i32 = if ss_hor == 1 { 2 } else { 4 };
    let v_mul: i32 = if ss_ver == 1 { 2 } else { 4 };
    let ver: i64 = if ss_ver == 1 { 2 } else { 1 };
    let hor: i64 = if ss_hor == 1 { 2 } else { 1 };
    assert(POW2[0] == 1 && POW2[1] == 2);
    let src_y: i64 = by as i64 * 4 + (b_dim[1] as i64 * v_mul as i64 - 4) * ver;
    assert(-8 <= src_y <= 0x50000);
    let (m1, m4, m5): (i64, i64, i64) = (mat[1] as i64, mat[4] as i64, mat[5] as i64);
    assert(-0x100_0000 * 0x50000 <= m5 * src_y <= 0x100_0000 * 0x50000) by (nonlinear_arith)
        requires
            -8 <= src_y <= 0x50000,
            -0x100_0000 <= m5 <= 0x100_0000,
    ;
    let row: i64 = m5 * src_y + m1;
    let bw: i32 = b_dim[0] as i32 * h_mul;
    let step: i32 = imax(8, bw - 8);
    let ghost d0 = *dst as int;
    let mut x: i32 = 0;
    while x < bw
        invariant
            0 <= x <= 512,
            0 <= bw <= 256,
            8 <= step <= 256,
            step == max(8, bw - 8),
            bw == b_dim@[0] * h_mul,
            h_mul == (if ss_hor == 1 { 2int } else { 4 }),
            v_mul == (if ss_ver == 1 { 2int } else { 4 }),
            b_dim@.len() >= 2,
            0 <= bx <= 0x10000,
            0 <= ss_ver <= 1,
            0 <= ss_hor <= 1,
            POW2[0] == 1 && POW2[1] == 2,
            ver == p2(ss_ver as int),
            hor == p2(ss_hor as int),
            src_y == by * 4 + (b_dim@[1] * v_mul - 8 + 4) * p2(ss_ver as int),
            m1 == mat[1],
            m4 == mat[4],
            m5 == mat[5],
            -0x100_0000 <= m4 <= 0x100_0000,
            row == m5 * src_y + m1,
            -0x600_0000_0000 <= row <= 0x600_0000_0000,
            d0 <= *dst,
            warp_lowest_from(
                *dst as int,
                b_dim@,
                by as int,
                bx as int,
                *mat,
                ss_ver as int,
                ss_hor as int,
                x as int,
            ) == warp_lowest_from(
                d0,
                b_dim@,
                by as int,
                bx as int,
                *mat,
                ss_ver as int,
                ss_hor as int,
                0,
            ),
        decreases max(bw - x, 0),
    {
        let src_x: i64 = bx as i64 * 4 + (x as i64 + 4) * hor;
        assert(0 <= src_x <= 0x50000);
        assert(-0x100_0000 * 0x50000 <= m4 * src_x <= 0x100_0000 * 0x50000) by (nonlinear_arith)
            requires
                0 <= src_x <= 0x50000,
                -0x100_0000 <= m4 <= 0x100_0000,
        ;
        let t: i64 = shr64(m4 * src_x + row, ss_ver as u32);
        assert(p2(16) == 0x10000);
        assert(-0x1000_0000_0000 <= t <= 0x1000_0000_0000);
        let y: i64 = shr64(t, 16);
        assert(-0x1000_0000 <= y <= 0x1000_0000);
        *dst = imax(*dst, y as i32 + 8);
        x = x + step;
    }
}

/// What each way of scaling does. With adaptive resolution both components are
/// doubled or halved; otherwise the first and third mode act on the vertical
/// component alone and the second and fourth on the horizontal one.
pub proof fn law_scaling_acts_on_its_component(y: int, x: int)
    ensures
        jmvd_scaled(y, x, true, 0) == (y, x),
        jmvd_scaled(y, x, false, 0) == (y, x),
        jmvd_scaled(y, x, true, 1) == (y + y, x + x),
        jmvd_scaled(y, x, false, 1) == (y + y, x),
        jmvd_scaled(y, x, false, 2) == (y, x + x),
        jmvd_scaled(y, x, false, 3).1 == x,
        jmvd_scaled(y, x, false, 4).0 == y,
        jmvd_scaled(y, x, true, 2).0 == jmvd_scaled(y, x, false, 3).0,
        jmvd_scaled(y, x, true, 2).1 == jmvd_scaled(y, x, false, 4).1,
        -1 <= y - 2 * jmvd_scaled(y, x, false, 3).0 <= 1,
        y > 0 ==> 0 <= y - 2 * jmvd_scaled(y, x, false, 3).0,
        y < 0 ==> y - 2 * jmvd_scaled(y, x, false, 3).0 <= 0,
        -1 <= x - 2 * jmvd_scaled(y, x, false, 4).1 <= 1,
        x > 0 ==> 0 <= x - 2 * jmvd_scaled(y, x, false, 4).1,
        x < 0 ==> x - 2 * jmvd_scaled(y, x, false, 4).1 <= 0,
{
}

/// A prediction from a reference of the same size reads down to the end of the
/// block plus its vector; a fraction adds the four lines of the filter.
pub proof fn law_lowest_line_is_below_the_moved_block(by4: int, bh4: int, mvy: int, step: i32)
    ensures
        ({
            let smp = ScalableMotionParams { scale: 0, step };
            let luma = lowest_px(by4, bh4, mvy, 0, smp);
            let chroma = lowest_px(by4, bh4, mvy, 1, smp);
            &&& mvy % 8 == 0 ==> 8 * (luma - 4 * (by4 + bh4)) == mvy
            &&& mvy % 8 != 0 ==> 0 < mvy - 8 * (luma - 4 - 4 * (by4 + bh4)) < 8
            &&& mvy % 16 == 0 ==> 16 * (chroma - 2 * (by4 + bh4)) == mvy
            &&& mvy % 16 != 0 ==> 0 < mvy - 16 * (chroma - 4 - 2 * (by4 + bh4)) < 16
        }),
{
    assert(p2(3) == 8 && p2(4) == 16);
}

/// The lowest line that a warped area reads is eight lines below where the
/// warp moves the row of its centre: luma, chroma of half the columns, and
/// chroma of half the columns and rows.
pub proof fn law_warped_area_reads_below_its_centre(
    b_dim: Seq<u8>,
    by: int,
    bx: int,
    mat: [i32; 6],
    x: int,
)
    ensures
        ({
            let luma = warp_lowest_at(b_dim, by, bx, mat, 0, 0, x) - 8;
            let wide = warp_lowest_at(b_dim, by, bx, mat, 0, 1, x) - 8;
            let half = warp_lowest_at(b_dim, by, bx, mat, 1, 1, x) - 8;
            let bottom = 4 * (by + b_dim[1]);
            let m = mat[4] * (4 * bx + x + 4) + mat[5] * (bottom - 4) + mat[1];
            let w = mat[4] * (4 * bx + 2 * x + 8) + mat[5] * (bottom - 4) + mat[1];
            let h = mat[4] * (4 * bx + 2 * x + 8) + mat[5] * (bottom - 8) + mat[1];
            &&& 0x10000 * luma <= m < 0x10000 * (luma + 1)
            &&& 0x10000 * wide <= w < 0x10000 * (wide + 1)
            &&& 0x20000 * half <= h < 0x20000 * (half + 1)
        }),
{
    assert(p2(0) == 1 && p2(1) == 2);
    let bottom = 4 * (by + b_dim[1]);
    assert(by * 4 + (b_dim[1] * 4 - 8 + 4) * p2(0) == bottom - 4) by (nonlinear_arith)
        requires
            p2(0) == 1,
            bottom == 4 * (by + b_dim[1]),
    ;
    assert(by * 4 + (b_dim[1] * 2 - 8 + 4) * p2(1) == bottom - 8) by (nonlinear_arith)
        requires
            p2(1) == 2,
            bottom == 4 * (by + b_dim[1]),
    ;
    assert(bx * 4 + (x + 4) * p2(0) == 4 * bx + x + 4) by (nonlinear_arith)
        requires
            p2(0) == 1,
    ;
    assert(bx * 4 + (x + 4) * p2(1) == 4 * bx + 2 * x + 8) by (nonlinear_arith)
        requires
            p2(1) == 2,
    ;
    let m = mat[4] * (4 * bx + x + 4) + (mat[5] * (bottom - 4) + mat[1]);
    let w = mat[4] * (4 * bx + 2 * x + 8) + (mat[5] * (bottom - 4) + mat[1]);
    let h = mat[4] * (4 * bx + 2 * x + 8) + (mat[5] * (bottom - 8) + mat[1]);
    assert(m / 1 == m && w / 1 == w);
    assert(0x20000 * (h / 2 / 0x10000) <= h < 0x20000 * (h / 2 / 0x10000 + 1));
}

} // verus!
