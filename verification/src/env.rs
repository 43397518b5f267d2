//! Neighbour contexts and motion-vector arithmetic.
use vstd::prelude::*;

use crate::headers::{MvHeader, WarpedMotionParams, WarpedMotionType};
use crate::intops::{
    abs, apply_sign64, b2i, clip, fits_i32, floor_div, iclip, low_bits, p2, shr, with_sign, POW2,
};
use crate::levels::MvXY;

verus! {

/// What the blocks above (or to the left) of the current one leave behind,
/// one entry for each four pixels of a 256-pixel superblock edge.
#[derive(Clone, Copy)]
pub struct BlockContext {
    pub fsc: [u8; 64],
    pub mode: [u8; 64],
    pub midx: [u8; 64],
    pub mrl: [u8; 64],
    pub multi_mrl: [u8; 64],
    pub dip: [u8; 64],
    pub lcoef: [u8; 64],
    pub ccoef: [[u8; 64]; 2],
    pub seg_pred: [u8; 64],
    pub skip_txfm: [u8; 64],
    pub skip_mode: [u8; 64],
    pub intra: [u8; 64],
    pub intrabc: [u8; 64],
    pub morph_pred: [u8; 64],
    pub comp_type: [u8; 64],
    pub refs: [[i8; 64]; 2],
    pub motion_mode: [u8; 64],
    pub amvd: [u8; 64],
    pub mvprec: [u8; 64],
    pub filter: [u8; 64],
    pub tx_lpf_y: [u8; 64],
    pub tx_lpf_uv: [u8; 64],
    pub partition: [[u8; 64]; 2],
    pub uvmode: [u8; 64],
    pub pal_sz: [u8; 64],
}

/// Every entry of `a` is `v`.
pub open spec fn all_u8(a: [u8; 64], v: int) -> bool {
    forall|i: int| 0 <= i < 64 ==> a[i] == v
}

/// Every entry of `a` is `v`.
pub open spec fn all_i8(a: [i8; 64], v: int) -> bool {
    forall|i: int| 0 <= i < 64 ==> a[i] == v
}

impl BlockContext {
    /// Every entry of every field is zero.
    pub open spec fn is_zero(self) -> bool {
        &&& all_u8(self.fsc, 0)
        &&& all_u8(self.mode, 0)
        &&& all_u8(self.midx, 0)
        &&& all_u8(self.mrl, 0)
        &&& all_u8(self.multi_mrl, 0)
        &&& all_u8(self.dip, 0)
        &&& all_u8(self.lcoef, 0)
        &&& all_u8(self.ccoef[0], 0)
        &&& all_u8(self.ccoef[1], 0)
        &&& all_u8(self.seg_pred, 0)
        &&& all_u8(self.skip_txfm, 0)
        &&& all_u8(self.skip_mode, 0)
        &&& all_u8(self.intra, 0)
        &&& all_u8(self.intrabc, 0)
        &&& all_u8(self.morph_pred, 0)
        &&& all_u8(self.comp_type, 0)
        &&& all_i8(self.refs[0], 0)
        &&& all_i8(self.refs[1], 0)
        &&& all_u8(self.motion_mode, 0)
        &&& all_u8(self.amvd, 0)
        &&& all_u8(self.mvprec, 0)
        &&& all_u8(self.filter, 0)
        &&& all_u8(self.tx_lpf_y, 0)
        &&& all_u8(self.tx_lpf_uv, 0)
        &&& all_u8(self.partition[0], 0)
        &&& all_u8(self.partition[1], 0)
        &&& all_u8(self.uvmode, 0)
        &&& all_u8(self.pal_sz, 0)
    }
}

impl Default for BlockContext {
    fn default() -> (r: Self)
        ensures
            r.is_zero(),
    {
        BlockContext {
            fsc: [0; 64],
            mode: [0; 64],
            midx: [0; 64],
            mrl: [0; 64],
            multi_mrl: [0; 64],
            dip: [0; 64],
            lcoef: [0; 64],
            ccoef: [[0; 64], [0; 64]],
            seg_pred: [0; 64],
            skip_txfm: [0; 64],
            skip_mode: [0; 64],
            intra: [0; 64],
            intrabc: [0; 64],
            morph_pred: [0; 64],
            comp_type: [0; 64],
            refs: [[0; 64], [0; 64]],
            motion_mode: [0; 64],
            amvd: [0; 64],
            mvprec: [0; 64],
            filter: [0; 64],
            tx_lpf_y: [0; 64],
            tx_lpf_uv: [0; 64],
            partition: [[0; 64], [0; 64]],
            uvmode: [0; 64],
            pal_sz: [0; 64],
        }
    }
}

/// What the superblocks above leave behind for motion prediction.
#[derive(Clone, Copy)]
pub struct SBEdgeCtx {
    pub refs: [[i8; 64]; 2],
    pub motion_mode: [u8; 64],
}

impl Default for SBEdgeCtx {
    fn default() -> (r: Self)
        ensures
            all_i8(r.refs[0], 0),
            all_i8(r.refs[1], 0),
            all_u8(r.motion_mode, 0),
    {
        SBEdgeCtx { refs: [[0; 64], [0; 64]], motion_mode: [0; 64] }
    }
}

/// Whether the neighbour at `i` predicts from its own frame, and not by
/// copying a block of it.
pub open spec fn plain_intra(b: BlockContext, i: int) -> bool {
    b.intra[i] != 0 && b.intrabc[i] == 0
}

/// The context of the intra flag: the number of neighbours, plus the number
/// of those looked at that are plain intra blocks. With one neighbour the
/// same block is looked at through both edges.
pub fn get_intra_ctx(nx: [&BlockContext; 2], xoff: [usize; 2], n_ctx: i32) -> (r: i32)
    requires
        0 <= n_ctx <= 2,
        n_ctx > 0 ==> xoff[0] < 64 && xoff[1] + n_ctx - 1 < 64,
    ensures
        n_ctx == 0 ==> r == 0,
        n_ctx > 0 ==> r == b2i(plain_intra(*nx[0], xoff[0] as int)) + b2i(
            plain_intra(*nx[1], xoff[1] + n_ctx - 1),
        ) + n_ctx,
{
    if n_ctx == 0 {
        return 0;
    }
    let i: usize = (n_ctx - 1) as usize;
    let first: i32 = if nx[0].intra[xoff[0]] != 0 && nx[0].intrabc[xoff[0]] == 0 { 1 } else { 0 };
    let second: i32 = if nx[1].intra[xoff[1] + i] != 0 && nx[1].intrabc[xoff[1] + i] == 0 {
        1
    } else {
        0
    };
    first + second + n_ctx
}

/// The three smooth intra modes.
pub open spec fn is_smooth(mode: u8) -> bool {
    mode == 9 || mode == 10 || mode == 11
}

pub fn sm_flag(b: &BlockContext, idx: usize) -> (r: i32)
    requires
        idx < 64,
    ensures
        r == b2i(is_smooth(b.mode[idx as int])),
{
    let m: u8 = b.mode[idx];
    if m == 9 || m == 10 || m == 11 { 1 } else { 0 }
}

pub fn sm_uv_flag(b: &BlockContext, idx: usize) -> (r: i32)
    requires
        idx < 64,
    ensures
        r == b2i(is_smooth(b.uvmode[idx as int])),
{
    let m: u8 = b.uvmode[idx];
    if m == 9 || m == 10 || m == 11 { 1 } else { 0 }
}

/// The difference of two order hints that are known modulo `2^n` only: the
/// number congruent to it that lies in `-2^(n-1) .. 2^(n-1)`.
pub open spec fn poc_diff(n: int, poc0: int, poc1: int) -> int {
    if n == 0 {
        0
    } else {
        let m = (poc0 - poc1) % p2(n);
        if m < p2(n - 1) { m } else { m - p2(n) }
    }
}

pub fn get_poc_diff(order_hint_n_bits: i32, poc0: i32, poc1: i32) -> (r: i32)
    requires
        0 <= order_hint_n_bits <= 31,
        fits_i32(poc0 - poc1),
    ensures
        r == poc_diff(order_hint_n_bits as int, poc0 as int, poc1 as int),
{
    if order_hint_n_bits == 0 {
        return 0;
    }
    let half: i64 = POW2[(order_hint_n_bits - 1) as usize];
    let full: i64 = POW2[order_hint_n_bits as usize];
    assert(forall|k: int| 1 <= k <= 31 ==> #[trigger] POW2[k] == 2 * POW2[k - 1] && 1 <= POW2[k - 1]
        <= 0x4000_0000);
    let diff: i64 = poc0 as i64 - poc1 as i64;
    let q: i64 = floor_div(diff, full);
    proof {
        vstd::arithmetic::div_mod::lemma_fundamental_div_mod(diff as int, full as int);
        assert((full as int) * (q as int) == (q as int) * (full as int)) by (nonlinear_arith);
    }
    let m: i64 = diff - q * full;
    if m < half { m as i32 } else { (m - full) as i32 }
}

/// The difference of two order hints has one sign when read in one direction
/// and the other when read in the other, but for the one value whose
/// negative is out of range.
pub proof fn law_poc_diff_antisymmetric(n: int, poc0: int, poc1: int)
    requires
        0 <= n <= 31,
        n > 0 ==> poc_diff(n, poc0, poc1) != -p2(n - 1),
    ensures
        poc_diff(n, poc1, poc0) == -poc_diff(n, poc0, poc1),
{
    if n > 0 {
        assert(forall|k: int| 1 <= k <= 31 ==> #[trigger] POW2[k] == 2 * POW2[k - 1] && 1 <= POW2[k
            - 1]);
        lemma_neg_mod(poc0 - poc1, p2(n));
        assert(-(poc0 - poc1) == poc1 - poc0);
    }
}

proof fn lemma_neg_mod(a: int, d: int)
    requires
        d > 0,
    ensures
        a % d == 0 ==> (-a) % d == 0,
        a % d != 0 ==> (-a) % d == d - a % d,
{
    vstd::arithmetic::div_mod::lemma_fundamental_div_mod(a, d);
    let q = a / d;
    let r = a % d;
    if r == 0 {
        assert(-a == (-q) * d + 0) by (nonlinear_arith)
            requires
                a == d * q + r,
                r == 0,
        ;
        vstd::arithmetic::div_mod::lemma_fundamental_div_mod_converse(-a, d, -q, 0);
    } else {
        assert(-a == (-q - 1) * d + (d - r)) by (nonlinear_arith)
            requires
                a == d * q + r,
        ;
        vstd::arithmetic::div_mod::lemma_fundamental_div_mod_converse(-a, d, -q - 1, d - r);
    }
}

/// Order hints less than half the range apart have their plain difference.
pub proof fn law_poc_diff_near(n: int, poc0: int, poc1: int)
    requires
        1 <= n <= 31,
        -p2(n - 1) <= poc0 - poc1 < p2(n - 1),
    ensures
        poc_diff(n, poc0, poc1) == poc0 - poc1,
{
    assert(forall|k: int| 1 <= k <= 31 ==> #[trigger] POW2[k] == 2 * POW2[k - 1] && 1 <= POW2[k
        - 1]);
    let d = poc0 - poc1;
    if d >= 0 {
        vstd::arithmetic::div_mod::lemma_fundamental_div_mod_converse(d, p2(n), 0, d);
    } else {
        assert(d == (-1) * p2(n) + (d + p2(n))) by (nonlinear_arith);
        vstd::arithmetic::div_mod::lemma_fundamental_div_mod_converse(d, p2(n), -1, d + p2(n));
    }
}

/// A displacement rounded to whole pixels.
pub open spec fn int_mv(v: int) -> int {
    8 * ((v - v / 0x8000 + 3) / 8)
}

/// A displacement rounded to quarters of a pixel.
pub open spec fn quarter_mv(v: int) -> int {
    2 * ((v - v / 0x8000) / 2)
}

fn round_int_mv(v: i32) -> (r: i32)
    requires
        fits_i32(v - v as int / 0x8000 + 3),
    ensures
        r == int_mv(v as int),
{
    let s: i32 = shr(v, 15);
    let t: i32 = (v as i64 - s as i64 + 3) as i32;
    t - low_bits(t, 3)
}

fn round_quarter_mv(v: i32) -> (r: i32)
    requires
        fits_i32(v - v as int / 0x8000),
    ensures
        r == quarter_mv(v as int),
{
    let s: i32 = shr(v, 15);
    let t: i32 = (v as i64 - s as i64) as i32;
    t - low_bits(t, 1)
}

/// Rounds a motion vector to whole pixels.
pub fn fix_int_mv_precision(mv: &mut MvXY)
    requires
        fits_i32(old(mv).x - old(mv).x as int / 0x8000 + 3),
        fits_i32(old(mv).y - old(mv).y as int / 0x8000 + 3),
    ensures
        final(mv).x == int_mv(old(mv).x as int),
        final(mv).y == int_mv(old(mv).y as int),
{
    mv.x = round_int_mv(mv.x);
    mv.y = round_int_mv(mv.y);
}

/// Rounds a motion vector to the precision that the frame header allows.
pub fn fix_mv_precision(hdr: &MvHeader, mv: &mut MvXY)
    requires
        fits_i32(old(mv).x - old(mv).x as int / 0x8000 + 3),
        fits_i32(old(mv).y - old(mv).y as int / 0x8000 + 3),
    ensures
        hdr.force_integer_mv != 0 ==> final(mv).x == int_mv(old(mv).x as int) && final(mv).y
            == int_mv(old(mv).y as int),
        hdr.force_integer_mv == 0 && hdr.mv_precision < 3 ==> final(mv).x == quarter_mv(
            old(mv).x as int,
        ) && final(mv).y == quarter_mv(old(mv).y as int),
        hdr.force_integer_mv == 0 && hdr.mv_precision >= 3 ==> *final(mv) == *old(mv),
{
    if hdr.force_integer_mv != 0 {
        fix_int_mv_precision(mv);
    } else if hdr.mv_precision < 3 {
        mv.x = round_quarter_mv(mv.x);
        mv.y = round_quarter_mv(mv.y);
    }
}

/// A rounded displacement is a whole number of pixels, at most half a pixel
/// away, and rounding it again leaves it as it is, for every displacement of
/// 16 bits. One that lies in the middle is rounded towards zero.
pub proof fn law_int_mv(v: int)
    requires
        -0x8000 <= v < 0x8000,
    ensures
        int_mv(v) % 8 == 0,
        -4 <= int_mv(v) - v <= 4,
        int_mv(int_mv(v)) == int_mv(v),
        v % 8 == 4 ==> int_mv(v) == (if v >= 0 { v - 4 } else { v + 4 }),
{
}

/// A displacement rounded to a multiple of `64 >> prec`.
pub open spec fn reduced_mv(v: int, prec: int) -> int {
    if prec == 6 {
        v
    } else {
        let unit = p2(6 - prec);
        unit * ((v + unit / 2 - b2i(v > 0)) / unit)
    }
}

fn round_reduced_mv(v: i32, prec: i32) -> (r: i32)
    requires
        0 <= prec <= 5,
        fits_i32(v + 32),
    ensures
        r == reduced_mv(v as int, prec as int),
{
    let unit: i64 = POW2[(6 - prec) as usize];
    assert(forall|k: int| 1 <= k <= 6 ==> 2 <= #[trigger] POW2[k] <= 64);
    let t: i64 = v as i64 + unit / 2 - (if v > 0 { 1i64 } else { 0i64 });
    let q: i64 = floor_div(t, unit);
    proof {
        vstd::arithmetic::div_mod::lemma_fundamental_div_mod(t as int, unit as int);
        assert((unit as int) * (q as int) == (q as int) * (unit as int)) by (nonlinear_arith);
        assert(unit == 2 || unit == 4 || unit == 8 || unit == 16 || unit == 32 || unit == 64);
        assert(-0x8000_0000 <= (q as int) * (unit as int) <= 0x7fff_ffff);
    }
    (q * unit) as i32
}

/// Reduces the precision of a motion vector; precision 6 keeps all of it.
pub fn mv_reduce_prec(mv: &mut MvXY, mv_prec: i32)
    requires
        0 <= mv_prec <= 6,
        fits_i32(old(mv).x + 32),
        fits_i32(old(mv).y + 32),
    ensures
        final(mv).x == reduced_mv(old(mv).x as int, mv_prec as int),
        final(mv).y == reduced_mv(old(mv).y as int, mv_prec as int),
{
    if mv_prec == 6 {
        return ;
    }
    mv.x = round_reduced_mv(mv.x, mv_prec);
    mv.y = round_reduced_mv(mv.y, mv_prec);
}

/// A reduced displacement is a multiple of the coarser unit, at most half a
/// unit away, and reducing it again leaves it as it is.
pub proof fn law_reduced_mv(v: int, prec: int)
    requires
        0 <= prec <= 6,
    ensures
        reduced_mv(v, prec) % p2(6 - prec) == 0,
        -p2(6 - prec) <= 2 * (reduced_mv(v, prec) - v) <= p2(6 - prec),
        reduced_mv(reduced_mv(v, prec), prec) == reduced_mv(v, prec),
{
    if prec < 6 {
        assert(forall|k: int| 1 <= k <= 6 ==> (#[trigger] POW2[k]) >= 2 && POW2[k] % 2 == 0);
        let unit = p2(6 - prec);
        let n = v + unit / 2 - b2i(v > 0);
        let q = n / unit;
        let r = reduced_mv(v, prec);
        vstd::arithmetic::div_mod::lemma_fundamental_div_mod(n, unit);
        vstd::arithmetic::div_mod::lemma_mod_multiples_basic(q, unit);
        assert(unit * q == q * unit) by (nonlinear_arith);
        vstd::arithmetic::div_mod::lemma_fundamental_div_mod_converse(
            r + unit / 2 - b2i(r > 0),
            unit,
            q,
            unit / 2 - b2i(r > 0),
        );
    }
}

/// The horizontal displacement that a warp gives the point `(x, y)`, scaled.
pub open spec fn warp_dx(m: [i32; 6], x: int, y: int) -> int {
    (m[2] - 0x10000) * x + m[3] * y + m[0]
}

/// The vertical displacement that a warp gives the point `(x, y)`, scaled.
pub open spec fn warp_dy(m: [i32; 6], x: int, y: int) -> int {
    (m[5] - 0x10000) * y + m[4] * x + m[1]
}

/// The magnitude of a scaled displacement in eighths of a pixel, rounded to
/// quarters unless eighths are in use.
pub open spec fn warp_round(c: int, mv_precision: int) -> int {
    if mv_precision < 6 {
        2 * ((abs(c) + 0x2000) / 0x4000)
    } else {
        (abs(c) + 0x1000) / 0x2000
    }
}

/// A scaled displacement as a motion vector component, before it is bounded
/// by the frame.
pub open spec fn warp_component(c: int, mv_precision: int) -> int {
    let lim: int = if mv_precision < 6 { 0xfffe } else { 0xffff };
    clip(with_sign(warp_round(c, mv_precision), c), -lim, lim)
}

/// A component kept within reach of the frame: at most four units beyond
/// either edge.
pub open spec fn bounded(v: int, b4: int, size4: int, frame4: int) -> int {
    clip(v, -(b4 + size4 + 4) * 32, (frame4 - b4 + 4) * 32)
}

/// The bounds that [`bounded`] clips to are representable.
pub open spec fn bounds_fit(b4: int, size4: int, frame4: int) -> bool {
    fits_i32(-(b4 + size4 + 4) * 32) && fits_i32((frame4 - b4 + 4) * 32)
}

fn round_warp(c: i128, mv_precision: i32) -> (r: i32)
    requires
        -0x1000_0000_0000_0000_0000 <= c <= 0x1000_0000_0000_0000_0000,
        warp_round(c as int, mv_precision as int) <= i32::MAX,
    ensures
        r == warp_component(c as int, mv_precision as int),
{
    let a: i128 = if c < 0 { -c } else { c };
    let mag: i128 = if mv_precision < 6 { 2 * ((a + 0x2000) / 0x4000) } else { (a + 0x1000)
        / 0x2000 };
    let s: i64 = if c < 0 { -1 } else { 1 };
    let v: i32 = apply_sign64(mag as i64, s);
    let lim: i32 = if mv_precision < 6 { 0xfffe } else { 0xffff };
    iclip(v, -lim, lim)
}

fn bound_component(v: i32, b4: i32, size4: i32, frame4: i32) -> (r: i32)
    requires
        bounds_fit(b4 as int, size4 as int, frame4 as int),
    ensures
        r == bounded(v as int, b4 as int, size4 as int, frame4 as int),
{
    let lo: i64 = -(b4 as i64 + size4 as i64 + 4) * 32;
    let hi: i64 = (frame4 as i64 - b4 as i64 + 4) * 32;
    iclip(v, lo as i32, hi as i32)
}

/// The motion vector that a warp gives the centre of a block.
pub open spec fn warpmv_2d(
    m: [i32; 6],
    bx4: int,
    by4: int,
    bw4: int,
    bh4: int,
    iw4: int,
    ih4: int,
    mv_precision: int,
) -> (int, int) {
    let x = bx4 * 4 + bw4 * 2 - 1;
    let y = by4 * 4 + bh4 * 2 - 1;
    (
        bounded(warp_component(warp_dy(m, x, y), mv_precision), by4, bh4, ih4),
        bounded(warp_component(warp_dx(m, x, y), mv_precision), bx4, bw4, iw4),
    )
}

/// The displacement of the centre of the block, and the bounds set by the
/// frame, fit in 32 bits.
pub open spec fn warpmv_fits(
    m: [i32; 6],
    bx4: int,
    by4: int,
    bw4: int,
    bh4: int,
    iw4: int,
    ih4: int,
    mv_precision: int,
) -> bool {
    let x = bx4 * 4 + bw4 * 2 - 1;
    let y = by4 * 4 + bh4 * 2 - 1;
    &&& warp_round(warp_dx(m, x, y), mv_precision) <= i32::MAX
    &&& warp_round(warp_dy(m, x, y), mv_precision) <= i32::MAX
    &&& bounds_fit(by4, bh4, ih4)
    &&& bounds_fit(bx4, bw4, iw4)
}

pub fn get_warpmv_2d(
    matrix: &[i32; 6],
    bx4: i32,
    by4: i32,
    bw4: i32,
    bh4: i32,
    iw4: i32,
    ih4: i32,
    mv_precision: i32,
) -> (r: MvXY)
    requires
        warpmv_fits(
            *matrix,
            bx4 as int,
            by4 as int,
            bw4 as int,
            bh4 as int,
            iw4 as int,
            ih4 as int,
            mv_precision as int,
        ),
    ensures
        (r.y as int, r.x as int) == warpmv_2d(
            *matrix,
            bx4 as int,
            by4 as int,
            bw4 as int,
            bh4 as int,
            iw4 as int,
            ih4 as int,
            mv_precision as int,
        ),
{
    let x: i128 = bx4 as i128 * 4 + bw4 as i128 * 2 - 1;
    let y: i128 = by4 as i128 * 4 + bh4 as i128 * 2 - 1;
    proof {
        lemma_warp_product(matrix[2] - 0x10000, x as int);
        lemma_warp_product(matrix[3] as int, y as int);
        lemma_warp_product(matrix[5] - 0x10000, y as int);
        lemma_warp_product(matrix[4] as int, x as int);
    }
    let xc: i128 = (matrix[2] as i128 - 0x10000) * x + matrix[3] as i128 * y + matrix[0] as i128;
    let yc: i128 = (matrix[5] as i128 - 0x10000) * y + matrix[4] as i128 * x + matrix[1] as i128;
    let ry: i32 = round_warp(yc, mv_precision);
    let rx: i32 = round_warp(xc, mv_precision);
    MvXY { y: bound_component(ry, by4, bh4, ih4), x: bound_component(rx, bx4, bw4, iw4) }
}

proof fn lemma_warp_product(a: int, b: int)
    requires
        -0x1_0000_0000 <= a <= 0x1_0000_0000,
        -0x10_0000_0000 <= b <= 0x10_0000_0000,
    ensures
        -0x10_0000_0000_0000_0000 <= a * b <= 0x10_0000_0000_0000_0000,
{
    assert(-0x10_0000_0000_0000_0000 <= a * b <= 0x10_0000_0000_0000_0000) by (nonlinear_arith)
        requires
            -0x1_0000_0000 <= a <= 0x1_0000_0000,
            -0x10_0000_0000 <= b <= 0x10_0000_0000,
    ;
}

/// `v`, rounded to whole pixels where the frame asks for that.
pub open spec fn fixed_int(hdr: MvHeader, v: int) -> int {
    if hdr.force_integer_mv != 0 { int_mv(v) } else { v }
}

/// The motion vector `(y, x)` that the global motion gives a block.
pub open spec fn gmv_2d(
    gmv: WarpedMotionParams,
    bx4: int,
    by4: int,
    bw4: int,
    bh4: int,
    iw4: int,
    ih4: int,
    hdr: MvHeader,
) -> (int, int) {
    match gmv.wm_type {
        WarpedMotionType::Affine | WarpedMotionType::RotZoom => {
            let w = warpmv_2d(gmv.matrix, bx4, by4, bw4, bh4, iw4, ih4, hdr.mv_precision + 3);
            (fixed_int(hdr, w.0), fixed_int(hdr, w.1))
        },
        WarpedMotionType::Translation => (
            fixed_int(hdr, bounded(gmv.matrix[0] as int / 0x2000, by4, bh4, ih4)),
            fixed_int(hdr, bounded(gmv.matrix[1] as int / 0x2000, bx4, bw4, iw4)),
        ),
        WarpedMotionType::Identity | WarpedMotionType::Invalid => (0, 0),
    }
}

/// What [`get_gmv_2d`] computes fits in 32 bits. A motion of zero always does.
pub open spec fn gmv_fits(
    gmv: WarpedMotionParams,
    bx4: int,
    by4: int,
    bw4: int,
    bh4: int,
    iw4: int,
    ih4: int,
    hdr: MvHeader,
) -> bool {
    &&& gmv.wm_type == WarpedMotionType::Affine || gmv.wm_type == WarpedMotionType::RotZoom
        ==> warpmv_fits(gmv.matrix, bx4, by4, bw4, bh4, iw4, ih4, hdr.mv_precision + 3)
    &&& gmv.wm_type == WarpedMotionType::Translation ==> bounds_fit(by4, bh4, ih4) && bounds_fit(
        bx4,
        bw4,
        iw4,
    )
    &&& gmv.wm_type != WarpedMotionType::Identity && gmv.wm_type != WarpedMotionType::Invalid
        ==> fits_i32((ih4 - by4 + 4) * 32 + 3) && fits_i32((iw4 - bx4 + 4) * 32 + 3)
}

fn check_bounds(b4: i32, size4: i32, frame4: i32, extra: i64) -> (r: bool)
    requires
        0 <= extra <= 3,
    ensures
        r == (bounds_fit(b4 as int, size4 as int, frame4 as int) && fits_i32(
            (frame4 - b4 + 4) * 32 + extra,
        )),
{
    let lo: i64 = -(b4 as i64 + size4 as i64 + 4) * 32;
    let hi: i64 = (frame4 as i64 - b4 as i64 + 4) * 32;
    lo >= i32::MIN as i64 && lo <= i32::MAX as i64 && hi >= i32::MIN as i64 && hi
        <= i32::MAX as i64 && hi + extra <= i32::MAX as i64
}

fn check_round(c: i128, mv_precision: i32) -> (r: bool)
    requires
        -0x1000_0000_0000_0000_0000 <= c <= 0x1000_0000_0000_0000_0000,
    ensures
        r == (warp_round(c as int, mv_precision as int) <= i32::MAX),
{
    let a: i128 = if c < 0 { -c } else { c };
    let mag: i128 = if mv_precision < 6 { 2 * ((a + 0x2000) / 0x4000) } else { (a + 0x1000)
        / 0x2000 };
    mag <= i32::MAX as i128
}

/// Whether what [`get_warpmv_2d`] computes fits in 32 bits.
pub fn check_warpmv(
    matrix: &[i32; 6],
    bx4: i32,
    by4: i32,
    bw4: i32,
    bh4: i32,
    iw4: i32,
    ih4: i32,
    mv_precision: i32,
) -> (r: bool)
    ensures
        r == warpmv_fits(
            *matrix,
            bx4 as int,
            by4 as int,
            bw4 as int,
            bh4 as int,
            iw4 as int,
            ih4 as int,
            mv_precision as int,
        ),
{
    let x: i128 = bx4 as i128 * 4 + bw4 as i128 * 2 - 1;
    let y: i128 = by4 as i128 * 4 + bh4 as i128 * 2 - 1;
    proof {
        lemma_warp_product(matrix[2] - 0x10000, x as int);
        lemma_warp_product(matrix[3] as int, y as int);
        lemma_warp_product(matrix[5] - 0x10000, y as int);
        lemma_warp_product(matrix[4] as int, x as int);
    }
    let xc: i128 = (matrix[2] as i128 - 0x10000) * x + matrix[3] as i128 * y + matrix[0] as i128;
    let yc: i128 = (matrix[5] as i128 - 0x10000) * y + matrix[4] as i128 * x + matrix[1] as i128;
    check_round(xc, mv_precision) && check_round(yc, mv_precision) && check_bounds(by4, bh4, ih4, 0)
        && check_bounds(bx4, bw4, iw4, 0)
}

/// Whether what [`get_gmv_2d`] computes fits in 32 bits.
pub fn check_gmv(
    gmv: &WarpedMotionParams,
    bx4: i32,
    by4: i32,
    bw4: i32,
    bh4: i32,
    iw4: i32,
    ih4: i32,
    hdr: &MvHeader,
) -> (r: bool)
    ensures
        r == gmv_fits(
            *gmv,
            bx4 as int,
            by4 as int,
            bw4 as int,
            bh4 as int,
            iw4 as int,
            ih4 as int,
            *hdr,
        ),
{
    match gmv.wm_type {
        WarpedMotionType::Affine | WarpedMotionType::RotZoom => check_warpmv(
            &gmv.matrix,
            bx4,
            by4,
            bw4,
            bh4,
            iw4,
            ih4,
            hdr.mv_precision as i32 + 3,
        ) && check_bounds(by4, bh4, ih4, 3) && check_bounds(bx4, bw4, iw4, 3),
        WarpedMotionType::Translation => check_bounds(by4, bh4, ih4, 3) && check_bounds(
            bx4,
            bw4,
            iw4,
            3,
        ),
        WarpedMotionType::Identity | WarpedMotionType::Invalid => true,
    }
}

pub fn get_gmv_2d(
    gmv: &WarpedMotionParams,
    bx4: i32,
    by4: i32,
    bw4: i32,
    bh4: i32,
    iw4: i32,
    ih4: i32,
    hdr: &MvHeader,
) -> (r: MvXY)
    requires
        gmv_fits(
            *gmv,
            bx4 as int,
            by4 as int,
            bw4 as int,
            bh4 as int,
            iw4 as int,
            ih4 as int,
            *hdr,
        ),
    ensures
        (r.y as int, r.x as int) == gmv_2d(
            *gmv,
            bx4 as int,
            by4 as int,
            bw4 as int,
            bh4 as int,
            iw4 as int,
            ih4 as int,
            *hdr,
        ),
{
    match gmv.wm_type {
        WarpedMotionType::Affine | WarpedMotionType::RotZoom => {
            let mut res: MvXY = get_warpmv_2d(
                &gmv.matrix,
                bx4,
                by4,
                bw4,
                bh4,
                iw4,
                ih4,
                hdr.mv_precision as i32 + 3,
            );
            if hdr.force_integer_mv != 0 {
                fix_int_mv_precision(&mut res);
            }
            res
        },
        WarpedMotionType::Translation => {
            let ty: i32 = shr(gmv.matrix[0], 13);
            let tx: i32 = shr(gmv.matrix[1], 13);
            let mut res: MvXY = MvXY {
                y: bound_component(ty, by4, bh4, ih4),
                x: bound_component(tx, bx4, bw4, iw4),
            };
            if hdr.force_integer_mv != 0 {
                fix_int_mv_precision(&mut res);
            }
            res
        },
        WarpedMotionType::Identity | WarpedMotionType::Invalid => MvXY { x: 0, y: 0 },
    }
}

/// The least general kind of motion that the matrix `m` describes.
pub open spec fn warp_class(m: [i32; 6]) -> WarpedMotionType {
    if m[2] != m[5] || m[3] != -m[4] {
        WarpedMotionType::Affine
    } else if m[2] != 0x10000 || m[3] != 0 {
        WarpedMotionType::RotZoom
    } else if m[0] != 0 || m[1] != 0 {
        WarpedMotionType::Translation
    } else {
        WarpedMotionType::Identity
    }
}

pub fn warp_type(mtx: &[i32; 6]) -> (r: WarpedMotionType)
    requires
        mtx[2] == mtx[5] ==> mtx[4] != i32::MIN,
    ensures
        r == warp_class(*mtx),
{
    if mtx[2] != mtx[5] || mtx[3] != -mtx[4] {
        return WarpedMotionType::Affine;
    }
    if mtx[2] != 0x10000 || mtx[3] != 0 {
        return WarpedMotionType::RotZoom;
    }
    if mtx[0] != 0 || mtx[1] != 0 {
        WarpedMotionType::Translation
    } else {
        WarpedMotionType::Identity
    }
}

/// An identity matrix moves no point: the displacement of every point is zero.
pub proof fn law_identity_does_not_move(m: [i32; 6], x: int, y: int)
    requires
        warp_class(m) == WarpedMotionType::Identity,
    ensures
        warp_dx(m, x, y) == 0,
        warp_dy(m, x, y) == 0,
{
    assert((m[2] - 0x10000) * x == 0) by (nonlinear_arith)
        requires
            m[2] == 0x10000,
    ;
    assert(m[3] * y == 0) by (nonlinear_arith)
        requires
            m[3] == 0,
    ;
    assert((m[5] - 0x10000) * y == 0) by (nonlinear_arith)
        requires
            m[5] == 0x10000,
    ;
    assert(m[4] * x == 0) by (nonlinear_arith)
        requires
            m[4] == 0,
    ;
}

/// A difference of order hints is congruent to the plain one and lies in the
/// middle of the range.
pub proof fn law_poc_diff_is_congruent(n: int, poc0: int, poc1: int)
    requires
        1 <= n <= 31,
    ensures
        (poc_diff(n, poc0, poc1) - (poc0 - poc1)) % p2(n) == 0,
        -p2(n - 1) <= poc_diff(n, poc0, poc1) < p2(n - 1),
        poc_diff(0, poc0, poc1) == 0,
{
    assert(forall|k: int| 1 <= k <= 31 ==> #[trigger] POW2[k] == 2 * POW2[k - 1] && 1 <= POW2[k
        - 1]);
    let d = poc0 - poc1;
    let f = p2(n);
    vstd::arithmetic::div_mod::lemma_fundamental_div_mod(d, f);
    let q = d / f;
    let r = poc_diff(n, poc0, poc1);
    let k = if d % f < p2(n - 1) { -q } else { -q - 1 };
    assert(r - d == k * f + 0) by (nonlinear_arith)
        requires
            d == f * q + d % f,
            r == (if d % f < p2(n - 1) { d % f } else { d % f - f }),
            k == (if d % f < p2(n - 1) { -q } else { -q - 1 }),
    ;
    vstd::arithmetic::div_mod::lemma_fundamental_div_mod_converse(r - d, f, k, 0);
}

/// A displacement rounded to quarters is even, at most one eighth away, and
/// rounded towards zero.
pub proof fn law_quarter_mv(v: int)
    requires
        -0x8000 <= v < 0x8000,
    ensures
        quarter_mv(v) % 2 == 0,
        v >= 0 ==> 0 <= v - quarter_mv(v) <= 1,
        v < 0 ==> 0 <= quarter_mv(v) - v <= 1,
{
}

/// A reduced displacement that lies in the middle is rounded towards zero.
pub proof fn law_reduced_mv_ties_go_to_zero(v: int, prec: int)
    requires
        0 <= prec <= 5,
        v % p2(6 - prec) == p2(6 - prec) / 2,
    ensures
        v > 0 ==> reduced_mv(v, prec) < v,
        v < 0 ==> reduced_mv(v, prec) > v,
{
    assert(forall|k: int| 1 <= k <= 6 ==> (#[trigger] POW2[k]) >= 2 && POW2[k] % 2 == 0);
    let unit = p2(6 - prec);
    let q = v / unit;
    let h = unit / 2;
    vstd::arithmetic::div_mod::lemma_fundamental_div_mod(v, unit);
    assert(v + h - 1 == q * unit + (unit - 1) && v + h == (q + 1) * unit + 0 && unit * q == q * unit
        && unit * (q + 1) == q * unit + unit) by (nonlinear_arith)
        requires
            v == unit * q + h,
            unit == 2 * h,
    ;
    vstd::arithmetic::div_mod::lemma_fundamental_div_mod_converse(v + h - 1, unit, q, unit - 1);
    vstd::arithmetic::div_mod::lemma_fundamental_div_mod_converse(v + h, unit, q + 1, 0);
}

/// A component kept within reach of the frame: the moved block touches the
/// frame, or a margin of four units around it.
pub proof fn law_bounded_block_touches_the_margin(v: int, b4: int, size4: int, frame4: int)
    requires
        0 <= b4 <= frame4,
        size4 >= 1,
    ensures
        ({
            let r = bounded(v, b4, size4, frame4);
            &&& 32 * (b4 + size4) + r >= -128
            &&& 32 * b4 + r <= 32 * frame4 + 128
            &&& -32 * (b4 + size4 + 4) <= v <= 32 * (frame4 - b4 + 4) ==> r == v
        }),
{
}

/// A warp that only moves gives every block the same vector; one that stretches
/// to the right moves blocks on the right to the right; one that leans moves
/// lower blocks to the right. The same holds down the columns.
pub proof fn law_warp_moves_as_its_entries_say(m: [i32; 6], x: int, y: int)
    ensures
        warp_dx(m, x + 1, y) - warp_dx(m, x, y) == m[2] - 0x10000,
        warp_dx(m, x, y + 1) - warp_dx(m, x, y) == m[3],
        warp_dx(m, 0, 0) == m[0],
        warp_dy(m, x, y + 1) - warp_dy(m, x, y) == m[5] - 0x10000,
        warp_dy(m, x + 1, y) - warp_dy(m, x, y) == m[4],
        warp_dy(m, 0, 0) == m[1],
{
    assert((m[2] - 0x10000) * (x + 1) == (m[2] - 0x10000) * x + (m[2] - 0x10000))
        by (nonlinear_arith);
    assert(m[3] * (y + 1) == m[3] * y + m[3]) by (nonlinear_arith);
    assert((m[5] - 0x10000) * (y + 1) == (m[5] - 0x10000) * y + (m[5] - 0x10000))
        by (nonlinear_arith);
    assert(m[4] * (x + 1) == m[4] * x + m[4]) by (nonlinear_arith);
    assert((m[2] - 0x10000) * 0 == 0 && m[3] * 0 == 0 && (m[5] - 0x10000) * 0 == 0 && m[4] * 0 == 0)
        by (nonlinear_arith);
}

/// A scaled displacement keeps its sign and is rounded to the nearest eighth
/// of a pixel, or quarter where eighths are not in use.
pub proof fn law_warp_component_is_nearest(c: int, mv_precision: int)
    requires
        -0x1000_0000 <= c <= 0x1000_0000,
    ensures
        ({
            let v = warp_component(c, mv_precision);
            &&& c >= 0 ==> v >= 0
            &&& c <= 0 ==> v <= 0
            &&& mv_precision >= 6 && -0xffff < v < 0xffff ==> -0x1000 <= 0x2000 * v - c <= 0x1000
            &&& mv_precision < 6 ==> v % 2 == 0
            &&& mv_precision < 6 && -0xfffe < v < 0xfffe ==> -0x2000 <= 0x2000 * v - c <= 0x2000
        }),
{
}

/// The vector of a warped block is that of its centre, the vertical component
/// from the vertical displacement.
pub proof fn law_warped_block_moves_with_its_centre(
    m: [i32; 6],
    bx4: int,
    by4: int,
    bw4: int,
    bh4: int,
    iw4: int,
    ih4: int,
    p: int,
)
    ensures
        ({
            let (y, x) = warpmv_2d(m, bx4, by4, bw4, bh4, iw4, ih4, p);
            let cx = 4 * bx4 + 2 * bw4 - 1;
            let cy = 4 * by4 + 2 * bh4 - 1;
            let v = warp_component(warp_dy(m, cx, cy), p);
            let h = warp_component(warp_dx(m, cx, cy), p);
            &&& -32 * (by4 + bh4 + 4) <= v <= 32 * (ih4 - by4 + 4) ==> y == v
            &&& -32 * (bx4 + bw4 + 4) <= h <= 32 * (iw4 - bx4 + 4) ==> x == h
        }),
{
}

/// A matrix is that of a similarity where its two halves mirror each other, of
/// a translation where it leaves directions alone, and of no motion where it
/// moves nothing.
pub proof fn law_warp_class_is_the_least(m: [i32; 6])
    ensures
        warp_class(m) == WarpedMotionType::Identity <==> (m[0] == 0 && m[1] == 0 && m[2] == 0x10000
            && m[3] == 0 && m[4] == 0 && m[5] == 0x10000),
        warp_class(m) == WarpedMotionType::Affine <==> !(m[5] == m[2] && m[4] + m[3] == 0),
        warp_class(m) == WarpedMotionType::Translation ==> m[2] == 0x10000 && m[5] == 0x10000
            && m[3] == 0 && m[4] == 0,
        warp_class(m) == WarpedMotionType::RotZoom ==> m[5] == m[2] && m[4] == -m[3] && (m[2]
            != 0x10000 || m[3] != 0),
        warp_class(m) != WarpedMotionType::Invalid,
{
}

} // verus!
