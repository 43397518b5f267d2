//! What a decoded block leaves behind for the prediction of motion.
use vstd::prelude::*;

use crate::headers::{WarpedMotionParams, WarpedMotionType};
use crate::intops::b2i;
use crate::levels::{
    BlockSize, Mv, MvXY, GLOBAL_MV, GLOBAL_MV_GLOBAL_MV, OPFL_NEAR_MV_NEAR_MV,
};
use crate::warp::MvBlock;

verus! {

/// A vector of zero length.
pub open spec fn zero_mv() -> Mv {
    Mv { c: MvXY { y: 0, x: 0 } }
}

fn no_motion() -> (r: Mv)
    ensures
        r == zero_mv(),
{
    Mv { c: MvXY { y: 0, x: 0 } }
}

/// The entry of a block that does not move: it has no reference, and its
/// vectors are not known.
pub open spec fn still_entry(bs: BlockSize, b: MvBlock) -> bool {
    &&& b.bs == bs
    &&& b.ox4 == 0
    &&& b.oy4 == 0
    &&& b.refs[0] == -1
    &&& b.refs[1] == -1
    &&& b.mf == 0
    &&& b.filter == 0
    &&& !b.valid
    &&& b.warp_type == WarpedMotionType::Identity
    &&& forall|n: int| 0 <= n < 2 ==> #[trigger] b.mv[n] == zero_mv()
    &&& forall|n: int| 0 <= n < 2 ==> #[trigger] b.lmv[n] == zero_mv()
    &&& forall|i: int| 0 <= i < 6 ==> #[trigger] b.m[i] == 0
}

pub fn intra_entry(bs: BlockSize) -> (r: MvBlock)
    ensures
        still_entry(bs, r),
{
    MvBlock {
        bs,
        ox4: 0,
        oy4: 0,
        refs: [-1; 2],
        mv: [no_motion(); 2],
        lmv: [no_motion(); 2],
        mf: 0,
        warp_type: WarpedMotionType::Identity,
        m: [0; 6],
        filter: 0,
        valid: false,
    }
}

/// The entry of a block that is copied from its own frame: that of a block that
/// does not move, but for its vector.
pub open spec fn copied_entry(bs: BlockSize, mv: Mv, r: MvBlock) -> bool {
    &&& exists|e: MvBlock|
        #[trigger] still_entry(bs, e) && r == (MvBlock { mv: r.mv, valid: true, ..e })
    &&& r.mv[0] == mv
    &&& r.mv[1] == zero_mv()
}

pub fn copy_entry(bs: BlockSize, mv: Mv) -> (r: MvBlock)
    ensures
        copied_entry(bs, mv, r),
{
    let mut r: MvBlock = intra_entry(bs);
    let ghost e = r;
    r.mv = [mv, no_motion()];
    r.valid = true;
    assert(still_entry(bs, e));
    r
}

/// Whether a block follows the global motion of its reference. Blocks with a
/// side of four pixels do not.
pub open spec fn follows_global(mode: int, bw4: int, bh4: int) -> bool {
    mode == GLOBAL_MV && bw4 > 1 && bh4 > 1
}

/// How a block with one reference moves, for the prediction of others: by its
/// own warp, by the warp of the frame, or by its vector.
#[derive(Debug, Clone, Copy, PartialEq, Eq, Structural)]
pub enum SplatKind {
    Local,
    Global,
    Shift,
}

/// Global motion that is no more than a shift counts as a vector.
pub open spec fn splat_kind(
    warped: bool,
    mode: int,
    bw4: int,
    bh4: int,
    gmv_type: WarpedMotionType,
) -> SplatKind {
    if warped {
        SplatKind::Local
    } else if follows_global(mode, bw4, bh4) && (gmv_type == WarpedMotionType::RotZoom || gmv_type
        == WarpedMotionType::Affine) {
        SplatKind::Global
    } else {
        SplatKind::Shift
    }
}

/// The entry of a block with one reference.
pub open spec fn single_entry(
    r: MvBlock,
    bs: BlockSize,
    ref0: i8,
    mv: Mv,
    filter: u8,
    kind: SplatKind,
    global: bool,
    warp: WarpedMotionParams,
) -> bool {
    &&& r.bs == bs
    &&& r.ox4 == 0
    &&& r.oy4 == 0
    &&& r.refs[0] == ref0
    &&& r.refs[1] == -1
    &&& r.mv[0] == mv
    &&& r.mv[1] == zero_mv()
    &&& r.filter == filter
    &&& r.valid
    &&& if kind == SplatKind::Local {
        &&& r.mf == 2
        &&& r.lmv[0] == mv
        &&& r.lmv[1] == zero_mv()
        &&& r.m == warp.matrix
        &&& r.warp_type == warp.wm_type
    } else {
        &&& r.mf == b2i(kind == SplatKind::Global || global)
        &&& forall|n: int| 0 <= n < 2 ==> #[trigger] r.lmv[n] == zero_mv()
        &&& forall|i: int| 0 <= i < 6 ==> #[trigger] r.m[i] == 0
        &&& r.warp_type == WarpedMotionType::Identity
    }
}

/// Makes the entry of a block with one reference. `warped` tells whether the
/// block has a warp of its own, `warp`; `gmv_type` is the kind of the global
/// motion of its reference.
pub fn splat_oneref_mv(
    bs: BlockSize,
    ref0: i8,
    mv: Mv,
    filter: u8,
    warped: bool,
    mode: u8,
    gmv_type: WarpedMotionType,
    warp: &WarpedMotionParams,
) -> (r: (SplatKind, MvBlock))
    requires
        bs != BlockSize::Invalid,
    ensures
        r.0 == splat_kind(warped, mode as int, bs.w4(), bs.h4(), gmv_type),
        single_entry(
            r.1,
            bs,
            ref0,
            mv,
            filter,
            r.0,
            follows_global(mode as int, bs.w4(), bs.h4()),
            *warp,
        ),
{
    let d: [u8; 4] = bs.dim();
    let global: bool = mode == GLOBAL_MV && d[0] > 1 && d[1] > 1;
    let kind: SplatKind = if warped {
        SplatKind::Local
    } else if global && (gmv_type == WarpedMotionType::RotZoom || gmv_type
        == WarpedMotionType::Affine) {
        SplatKind::Global
    } else {
        SplatKind::Shift
    };
    let mut e: MvBlock = intra_entry(bs);
    e.refs = [ref0, -1];
    e.mv = [mv, no_motion()];
    e.filter = filter;
    e.valid = true;
    if warped {
        e.mf = 2;
        e.lmv = [mv, no_motion()];
        e.m = warp.matrix;
        e.warp_type = warp.wm_type;
    } else if global {
        e.mf = 1;
    }
    (kind, e)
}

/// Where a warp takes the centre of the first 8x8 area of a block, less where
/// it is, vertically and horizontally, in 65536ths of a pixel.
pub open spec fn warp_shift(m: [i32; 6], bx: int, by: int) -> (int, int) {
    (
        m[4] * ((bx + 1) * 4) + m[1] + (m[5] - 0x10000) * ((by + 1) * 4),
        (m[2] - 0x10000) * ((bx + 1) * 4) + m[3] * ((by + 1) * 4) + m[0],
    )
}

fn scaled(a: i64, x: i64) -> (r: i64)
    requires
        -0x1_0000_0000 <= a <= 0x1_0000_0000,
        0 <= x <= 0x50000,
    ensures
        r == a * x,
        -0x5_0000_0000_0000 <= r <= 0x5_0000_0000_0000,
{
    assert(-0x5_0000_0000_0000 <= a * x <= 0x5_0000_0000_0000) by (nonlinear_arith)
        requires
            -0x1_0000_0000 <= a <= 0x1_0000_0000,
            0 <= x <= 0x50000,
    ;
    a * x
}

/// The motion of the first 8x8 area of a warped block.
pub fn warp_origin(m: &[i32; 6], bx: i32, by: i32) -> (r: (i64, i64))
    requires
        0 <= bx <= 0x10000,
        0 <= by <= 0x10000,
    ensures
        (r.0 as int, r.1 as int) == warp_shift(*m, bx as int, by as int),
{
    let x: i64 = (bx as i64 + 1) * 4;
    let y: i64 = (by as i64 + 1) * 4;
    let mvy: i64 = scaled(m[4] as i64, x) + m[1] as i64 + scaled(m[5] as i64 - 0x10000, y);
    let mvx: i64 = scaled(m[2] as i64 - 0x10000, x) + scaled(m[3] as i64, y) + m[0] as i64;
    (mvy, mvx)
}

/// The entry of a block with two references.
pub open spec fn pair_entry(
    r: MvBlock,
    bs: BlockSize,
    ref0: i8,
    ref1: i8,
    mv0: Mv,
    mv1: Mv,
    filter: u8,
    cwp_idx: int,
    global: bool,
) -> bool {
    &&& r.bs == bs
    &&& r.ox4 == 0
    &&& r.oy4 == 0
    &&& r.refs[0] == ref0
    &&& r.refs[1] == ref1
    &&& r.mv[0] == mv0
    &&& r.mv[1] == mv1
    &&& r.filter == filter
    &&& r.valid
    &&& r.mf == 4 * (cwp_idx % 64) + b2i(global)
    &&& forall|n: int| 0 <= n < 2 ==> #[trigger] r.lmv[n] == zero_mv()
    &&& forall|i: int| 0 <= i < 6 ==> #[trigger] r.m[i] == 0
    &&& r.warp_type == WarpedMotionType::Identity
}

/// Whether later frames see the motion of a block with two references: not
/// where its vectors are refined after parsing, nor where the references are
/// blended along an edge.
pub open spec fn pair_is_kept(kept: bool, mode: int, refine_mv: bool, comp_type: int) -> bool {
    kept && comp_type != 2 && !(mode >= OPFL_NEAR_MV_NEAR_MV && refine_mv && comp_type == 1)
}

/// Makes the entry of a block with two references. `kept` tells whether motion
/// is kept for later frames at all; the result tells whether it is for this
/// block.
pub fn splat_tworef_mv(
    bs: BlockSize,
    refs: [i8; 2],
    mv: [Mv; 2],
    filter: u8,
    cwp_idx: i8,
    mode: u8,
    refine_mv: bool,
    comp_type: u8,
    kept: bool,
) -> (r: (bool, MvBlock))
    requires
        bs != BlockSize::Invalid,
        -32 <= cwp_idx <= 31,
    ensures
        r.0 == pair_is_kept(kept, mode as int, refine_mv, comp_type as int),
        pair_entry(
            r.1,
            bs,
            refs[0],
            refs[1],
            mv[0],
            mv[1],
            filter,
            cwp_idx as int,
            mode == GLOBAL_MV_GLOBAL_MV && bs.w4() > 1 && bs.h4() > 1,
        ),
{
    let d: [u8; 4] = bs.dim();
    let mut e: MvBlock = intra_entry(bs);
    e.refs = refs;
    e.mv = mv;
    e.filter = filter;
    e.valid = true;
    let weight: u8 = if cwp_idx < 0 { (cwp_idx + 64) as u8 } else { cwp_idx as u8 };
    e.mf = 4 * weight + (if mode == GLOBAL_MV_GLOBAL_MV && d[0] > 1 && d[1] > 1 { 1u8 } else { 0u8 });
    let keep: bool = kept && comp_type != 2 && !(mode >= OPFL_NEAR_MV_NEAR_MV && refine_mv
        && comp_type == 1);
    (keep, e)
}

/// The motion of a block as later frames see it: up to two references, and a
/// vector for each.
#[derive(Debug, Clone, Copy, PartialEq, Eq, Structural)]
pub struct KeptMotion {
    pub ref0: i8,
    pub ref1: i8,
    pub mv0: Mv,
    pub mv1: Mv,
}

/// Both halves of the kept motion in the order of `flip`. A vector out of the
/// kept range is left out, and the other half stands for both.
pub open spec fn kept_pair(
    refs: [i8; 2],
    q0: Option<Mv>,
    q1: Option<Mv>,
    flip: bool,
) -> Option<KeptMotion> {
    let (a, b, ra, rb) = if flip {
        (q1, q0, refs[1], refs[0])
    } else {
        (q0, q1, refs[0], refs[1])
    };
    match (a, b) {
        (Some(u), Some(v)) => Some(KeptMotion { ref0: ra, ref1: rb, mv0: u, mv1: v }),
        (Some(u), None) => Some(KeptMotion { ref0: ra, ref1: ra, mv0: u, mv1: u }),
        (None, Some(v)) => Some(KeptMotion { ref0: rb, ref1: rb, mv0: v, mv1: v }),
        (None, None) => None,
    }
}

/// The motion that a block with two references leaves for later frames, from
/// its vectors in the kept range.
pub fn keep_pair(refs: [i8; 2], q0: Option<Mv>, q1: Option<Mv>, flip: bool) -> (r: Option<KeptMotion>)
    ensures
        r == kept_pair(refs, q0, q1, flip),
{
    let (r0, r1): (i8, i8) = (refs[0], refs[1]);
    let (a, b, ra, rb) = if flip { (q1, q0, r1, r0) } else { (q0, q1, r0, r1) };
    match (a, b) {
        (Some(u), Some(v)) => Some(KeptMotion { ref0: ra, ref1: rb, mv0: u, mv1: v }),
        (Some(u), None) => Some(KeptMotion { ref0: ra, ref1: ra, mv0: u, mv1: u }),
        (None, Some(v)) => Some(KeptMotion { ref0: rb, ref1: rb, mv0: v, mv1: v }),
        (None, None) => None,
    }
}

/// Exchanging the references of a block exchanges the halves of its kept
/// motion, and nothing else.
pub proof fn law_kept_pair_is_symmetric(
    refs: [i8; 2],
    swapped: [i8; 2],
    q0: Option<Mv>,
    q1: Option<Mv>,
    flip: bool,
)
    requires
        swapped[0] == refs[1],
        swapped[1] == refs[0],
    ensures
        kept_pair(refs, q0, q1, flip) == kept_pair(swapped, q1, q0, !flip),
{
}

/// The shift of the first area of a block is where the warp takes its centre,
/// less where it is, vertically first.
pub proof fn law_shift_is_that_of_the_first_area(m: [i32; 6], bx: int, by: int)
    ensures
        ({
            let (x, y) = (4 * bx + 4, 4 * by + 4);
            let (v, h) = warp_shift(m, bx, by);
            &&& v + 0x10000 * y == m[4] * x + m[5] * y + m[1]
            &&& h + 0x10000 * x == m[2] * x + m[3] * y + m[0]
        }),
{
    let (x, y) = ((bx + 1) * 4, (by + 1) * 4);
    assert((m[5] - 0x10000) * y == m[5] * y - 0x10000 * y) by (nonlinear_arith);
    assert((m[2] - 0x10000) * x == m[2] * x - 0x10000 * x) by (nonlinear_arith);
}

/// What a block with two references leaves: each vector with its reference, in
/// their order, and its weight.
pub proof fn law_pair_entry_keeps_both_motions(
    r: MvBlock,
    bs: BlockSize,
    ref0: i8,
    ref1: i8,
    mv0: Mv,
    mv1: Mv,
    filter: u8,
    w: int,
    global: bool,
)
    requires
        pair_entry(r, bs, ref0, ref1, mv0, mv1, filter, w, global),
        0 <= w < 64,
    ensures
        r.refs[0] == ref0 && r.motion(0) == mv0,
        r.refs[1] == ref1 && r.motion(1) == mv1,
        r.mf / 4 == w,
        r.global_warp() == global,
        !r.local_warp(),
        r.filter == filter && r.bs == bs && r.valid,
{
}

/// What a block with one reference leaves: its vector with its reference, and
/// its warp where it has one of its own.
pub proof fn law_single_entry_keeps_its_motion(
    r: MvBlock,
    bs: BlockSize,
    ref0: i8,
    mv: Mv,
    filter: u8,
    kind: SplatKind,
    global: bool,
    warp: WarpedMotionParams,
)
    requires
        single_entry(r, bs, ref0, mv, filter, kind, global, warp),
    ensures
        r.refs[0] == ref0 && r.refs[1] == -1,
        r.motion(0) == mv,
        r.local_warp() == (kind == SplatKind::Local),
        kind == SplatKind::Local ==> r.m == warp.matrix && r.warp_type == warp.wm_type,
        kind == SplatKind::Global ==> r.global_warp(),
        kind == SplatKind::Shift ==> r.global_warp() == global,
        r.filter == filter && r.bs == bs && r.valid,
{
}

/// Global motion counts as such only where it does more than shift, and only
/// for blocks of at least eight pixels a side that follow it.
pub proof fn law_only_true_warps_are_global(mode: int, w: int, h: int, k: WarpedMotionType)
    ensures
        splat_kind(true, mode, w, h, k) == SplatKind::Local,
        splat_kind(false, mode, w, h, k) == SplatKind::Global <==> (mode == GLOBAL_MV && w >= 2 && h
            >= 2 && (k == WarpedMotionType::RotZoom || k == WarpedMotionType::Affine)),
        splat_kind(false, mode, w, h, k) != SplatKind::Local,
{
}

/// Which motion later frames see: both halves in their order, or one half twice
/// where the other is out of range.
pub proof fn law_kept_pair_has_its_halves(refs: [i8; 2], a: Mv, b: Mv)
    ensures
        kept_pair(refs, Some(a), Some(b), false) == Some(
            KeptMotion { ref0: refs[0], ref1: refs[1], mv0: a, mv1: b },
        ),
        kept_pair(refs, Some(a), Some(b), true) == Some(
            KeptMotion { ref0: refs[1], ref1: refs[0], mv0: b, mv1: a },
        ),
        kept_pair(refs, Some(a), None, false) == Some(
            KeptMotion { ref0: refs[0], ref1: refs[0], mv0: a, mv1: a },
        ),
        kept_pair(refs, None, Some(b), false) == Some(
            KeptMotion { ref0: refs[1], ref1: refs[1], mv0: b, mv1: b },
        ),
        kept_pair(refs, None, None, false) is None,
{
}

/// The motion of a pair is kept unless its parts are divided by a wedge, or
/// are averaged and refined.
pub proof fn law_refined_motion_is_not_kept(kept: bool, mode: int, refine_mv: bool, comp_type: int)
    ensures
        !kept ==> !pair_is_kept(kept, mode, refine_mv, comp_type),
        comp_type == 2 ==> !pair_is_kept(kept, mode, refine_mv, comp_type),
        OPFL_NEAR_MV_NEAR_MV <= mode && refine_mv && comp_type == 1 ==> !pair_is_kept(
            kept,
            mode,
            refine_mv,
            comp_type,
        ),
        kept && comp_type == 1 && (mode < OPFL_NEAR_MV_NEAR_MV || !refine_mv) ==> pair_is_kept(
            kept,
            mode,
            refine_mv,
            comp_type,
        ),
        kept && comp_type == 3 ==> pair_is_kept(kept, mode, refine_mv, comp_type),
{
}

} // verus!
