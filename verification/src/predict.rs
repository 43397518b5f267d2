//! From the steps that build a motion-compensated block to what each of them
//! reads.
use vstd::prelude::*;

use crate::blockdec::Leaf;
use crate::coded::CodedGrid;
use crate::decodeb::BlockSyntax;
use crate::edges::EdgeBounds;
use crate::frameinfo::SbFrameInfo;
use crate::headers::SequenceHeader;
use crate::interintra::{iiblend_plane, interintra_plan, BlendSite, InterIntraPlan};
use crate::interplan::{BlendKind, InterStep, McPart, WarpPart};
use crate::levels::BlockSize;
use crate::mcgeom::{mc_plan, plan_mc, McPlan, McSite};
use crate::motion::{BlockMotion, MotionFrame};
use crate::warpgeom::{
    affine_tiles_from, ext_warp_plane, general_tiles_from, warp_affine_plane, WarpParams, WarpTile,
};

verus! {

/// How the warps of a block split into shears: its own, and the global one of
/// each reference.
pub struct Shears {
    pub local: [i16; 4],
    pub global: [[i16; 4]; 7],
}

/// A block that is being predicted, and what its frame knows.
pub struct PredictedBlock<'a> {
    pub fi: &'a SbFrameInfo,
    pub mf: &'a MotionFrame,
    pub leaf: &'a Leaf,
    pub syntax: &'a BlockSyntax,
    pub motion: &'a BlockMotion,
    pub shears: &'a Shears,
    pub seq: &'a SequenceHeader,
}

/// What a step does.
#[derive(Debug)]
pub enum Prediction {
    Shift(McPlan),
    Warp(Vec<WarpTile>),
    Blend(u8, BlendKind),
    BlendIntra(InterIntraPlan),
    /// Coefficients are added to what was predicted.
    Residual,
}

/// How often a plane is subsampled.
pub open spec fn plane_ss(plane: u8, ss: i32) -> i32 {
    if plane == 0 { 0 } else { ss }
}

/// Where a shifted prediction is read.
pub open spec fn shift_site(b: PredictedBlock, p: McPart) -> McSite {
    McSite {
        bx: p.bx,
        by: p.by,
        bw4: p.bw4,
        bh4: p.bh4,
        mvx: p.mv.x,
        mvy: p.mv.y,
        ss_hor: plane_ss(p.plane, b.fi.ss_hor),
        ss_ver: plane_ss(p.plane, b.fi.ss_ver),
        fw: b.mf.inter.fw,
        fh: b.mf.inter.fh,
    }
}

/// Where a warped prediction is read: by the warp of the block, or by that of
/// its reference.
pub open spec fn warp_at(b: PredictedBlock, p: WarpPart) -> WarpParams {
    WarpParams {
        bx: p.bx,
        by: p.by,
        bw4: p.bs.w4() as i32,
        bh4: p.bs.h4() as i32,
        ss_hor: plane_ss(p.plane, b.fi.ss_hor),
        ss_ver: plane_ss(p.plane, b.fi.ss_ver),
        fw: b.mf.inter.fw,
        fh: b.mf.inter.fh,
        matrix: if p.local {
            b.motion.warp.matrix
        } else {
            b.mf.gmv[p.ref_idx as int].matrix
        },
        abcd: if p.local {
            b.shears.local
        } else {
            b.shears.global[p.ref_idx as int]
        },
    }
}

/// Where an intra prediction is blended in.
pub open spec fn blend_site(b: PredictedBlock, plane: u8, bs: BlockSize) -> BlendSite {
    BlendSite {
        chroma: plane != 0,
        bx: if plane == 0 { b.leaf.bx } else { b.leaf.cbx },
        by: if plane == 0 { b.leaf.by } else { b.leaf.cby },
        bw4: bs.w4() as i32,
        bh4: bs.h4() as i32,
        ss_hor: plane_ss(plane, b.fi.ss_hor),
        ss_ver: plane_ss(plane, b.fi.ss_ver),
        fw: b.mf.inter.fw,
        fh: b.mf.inter.fh,
    }
}

/// The bounds that edges are read within.
pub open spec fn tile_edges(fi: SbFrameInfo) -> EdgeBounds {
    EdgeBounds {
        col_start: fi.tile_col_start,
        col_end: fi.tile_col_end,
        row_start: fi.tile_row_start,
        row_end: fi.tile_row_end,
        sb_step: fi.sb_step,
    }
}

pub fn find_edges(fi: &SbFrameInfo) -> (t: EdgeBounds)
    ensures
        t == tile_edges(*fi),
{
    EdgeBounds {
        col_start: fi.tile_col_start,
        col_end: fi.tile_col_end,
        row_start: fi.tile_row_start,
        row_end: fi.tile_row_end,
        sb_step: fi.sb_step,
    }
}

/// A warp of a block with a size, by a model that there is.
pub open spec fn warp_exists(b: PredictedBlock, p: WarpPart) -> bool {
    p.bs != BlockSize::Invalid && (p.local || 0 <= p.ref_idx < 7) && warp_at(b, p).valid()
}

/// A blend of a block with a size, by a mode that there is.
pub open spec fn blend_exists(b: PredictedBlock, plane: u8, bs: BlockSize) -> bool {
    &&& bs != BlockSize::Invalid
    &&& blend_site(b, plane, bs).valid()
    &&& b.syntax.inter.interintra_mode <= 3
    &&& b.syntax.inter.wedge_idx >= -1
    &&& tile_edges(*b.fi).valid()
    &&& b.fi.sb_step == 16 || b.fi.sb_step == 32 || b.fi.sb_step == 64
}

/// `r` is what the step does; there is nothing where it has no place in its
/// frame. `g` tells which units have been reconstructed.
pub open spec fn is_prediction(
    b: PredictedBlock,
    g: CodedGrid,
    step: InterStep,
    r: Option<Prediction>,
) -> bool {
    match step {
        InterStep::Shift(p) | InterStep::Prepare(_, p) => if shift_site(b, p).valid() {
            r == Some(Prediction::Shift(mc_plan(shift_site(b, p), p.filter)))
        } else {
            r is None
        },
        InterStep::Warp(p) => if warp_exists(b, p) {
            r matches Some(Prediction::Warp(v)) && v@ == (if p.affine {
                affine_tiles_from(warp_at(b, p), 0, 0)
            } else {
                general_tiles_from(warp_at(b, p), 0, 0, 0, 0)
            })
        } else {
            r is None
        },
        InterStep::Blend(plane, kind) => r == Some(Prediction::Blend(plane, kind)),
        InterStep::BlendIntra(plane, bs, _) => if blend_exists(b, plane, bs) {
            r == Some(
                Prediction::BlendIntra(
                    interintra_plan(
                        g,
                        tile_edges(*b.fi),
                        blend_site(b, plane, bs),
                        b.syntax.inter.interintra_mode,
                        b.syntax.inter.wedge_idx,
                        b.seq.ibp,
                    ),
                ),
            )
        } else {
            r is None
        },
        InterStep::LumaResidual | InterStep::ChromaResidual => r == Some(Prediction::Residual),
    }
}

fn check_shift(s: &McSite) -> (r: bool)
    ensures
        r == s.valid(),
{
    0 <= s.bx && s.bx <= 0x10_0000 && 0 <= s.by && s.by <= 0x10_0000 && 1 <= s.bw4 && s.bw4 <= 64
        && 1 <= s.bh4 && s.bh4 <= 64 && -0x1000_0000 <= s.mvx && s.mvx <= 0x1000_0000
        && -0x1000_0000 <= s.mvy && s.mvy <= 0x1000_0000 && 0 <= s.ss_hor && s.ss_hor <= 1 && 0 <= s.ss_ver
        && s.ss_ver <= 1 && 0 <= s.fw && s.fw <= 0x10_0000 && 0 <= s.fh && s.fh <= 0x10_0000
}

fn check_warp(p: &WarpParams) -> (r: bool)
    ensures
        r == p.valid(),
{
    if !(0 <= p.bx && p.bx <= 0x10000 && 0 <= p.by && p.by <= 0x10000 && 1 <= p.bw4 && p.bw4 <= 64
        && 1 <= p.bh4 && p.bh4 <= 64 && 0 <= p.ss_hor && p.ss_hor <= 1 && 0 <= p.ss_ver && p.ss_ver
        <= 1 && 1 <= p.fw && p.fw <= 0x10000 && 1 <= p.fh && p.fh <= 0x10000) {
        return false;
    }
    let mut i: usize = 2;
    while i < 6
        invariant
            2 <= i <= 6,
            forall|k: int| 2 <= k < i ==> -0x100_0000 <= #[trigger] p.matrix[k] <= 0x100_0000,
        decreases 6 - i,
    {
        if p.matrix[i] < -0x100_0000 || p.matrix[i] > 0x100_0000 {
            assert(!(-0x100_0000 <= p.matrix[i as int] <= 0x100_0000));
            return false;
        }
        i = i + 1;
    }
    true
}

fn check_blend(s: &BlendSite) -> (r: bool)
    ensures
        r == s.valid(),
{
    0 <= s.bx && s.bx <= 0x10_0000 && 0 <= s.by && s.by <= 0x10_0000 && 1 <= s.bw4 && s.bw4 <= 16
        && 1 <= s.bh4 && s.bh4 <= 16 && 0 <= s.ss_hor && s.ss_hor <= 1 && 0 <= s.ss_ver && s.ss_ver
        <= 1 && (s.chroma || s.ss_hor == 0 && s.ss_ver == 0) && 0 <= s.fw && s.fw <= 0x10_0000 && 0
        <= s.fh && s.fh <= 0x10_0000
}

fn check_edges(t: &EdgeBounds) -> (r: bool)
    ensures
        r == t.valid(),
{
    0 <= t.col_start && t.col_start <= 0x10_0000 && 0 <= t.col_end && t.col_end <= 0x10_0000 && 0
        <= t.row_start && t.row_start <= 0x10_0000 && 0 <= t.row_end && t.row_end <= 0x10_0000 && 8
        <= t.sb_step && t.sb_step <= 64
}

fn find_ss(plane: u8, ss: i32) -> (r: i32)
    ensures
        r == plane_ss(plane, ss),
{
    if plane == 0 { 0 } else { ss }
}

fn predict_shift(b: &PredictedBlock, p: &McPart) -> (r: Option<Prediction>)
    ensures
        r == (if shift_site(*b, *p).valid() {
            Some(Prediction::Shift(mc_plan(shift_site(*b, *p), p.filter)))
        } else {
            None
        }),
{
    let s: McSite = McSite {
        bx: p.bx,
        by: p.by,
        bw4: p.bw4,
        bh4: p.bh4,
        mvx: p.mv.x,
        mvy: p.mv.y,
        ss_hor: find_ss(p.plane, b.fi.ss_hor),
        ss_ver: find_ss(p.plane, b.fi.ss_ver),
        fw: b.mf.inter.fw,
        fh: b.mf.inter.fh,
    };
    if check_shift(&s) {
        Some(Prediction::Shift(plan_mc(&s, p.filter)))
    } else {
        None
    }
}

fn predict_warp(b: &PredictedBlock, p: &WarpPart) -> (r: Option<Prediction>)
    ensures
        if warp_exists(*b, *p) {
            r matches Some(Prediction::Warp(v)) && v@ == (if p.affine {
                affine_tiles_from(warp_at(*b, *p), 0, 0)
            } else {
                general_tiles_from(warp_at(*b, *p), 0, 0, 0, 0)
            })
        } else {
            r is None
        },
{
    if p.bs == BlockSize::Invalid || !p.local && (p.ref_idx < 0 || p.ref_idx >= 7) {
        return None;
    }
    let d: [u8; 4] = p.bs.dim();
    let w: WarpParams = WarpParams {
        bx: p.bx,
        by: p.by,
        bw4: d[0] as i32,
        bh4: d[1] as i32,
        ss_hor: find_ss(p.plane, b.fi.ss_hor),
        ss_ver: find_ss(p.plane, b.fi.ss_ver),
        fw: b.mf.inter.fw,
        fh: b.mf.inter.fh,
        matrix: if p.local {
            b.motion.warp.matrix
        } else {
            b.mf.gmv[p.ref_idx as usize].matrix
        },
        abcd: if p.local {
            b.shears.local
        } else {
            b.shears.global[p.ref_idx as usize]
        },
    };
    assert(w == warp_at(*b, *p));
    if !check_warp(&w) {
        return None;
    }
    if p.affine {
        Some(Prediction::Warp(warp_affine_plane(&w)))
    } else {
        Some(Prediction::Warp(ext_warp_plane(&w)))
    }
}

fn predict_blend(b: &PredictedBlock, g: &CodedGrid, plane: u8, bs: BlockSize) -> (r: Option<
    Prediction,
>)
    requires
        g.wf(),
    ensures
        r == (if blend_exists(*b, plane, bs) {
            Some(
                Prediction::BlendIntra(
                    interintra_plan(
                        *g,
                        tile_edges(*b.fi),
                        blend_site(*b, plane, bs),
                        b.syntax.inter.interintra_mode,
                        b.syntax.inter.wedge_idx,
                        b.seq.ibp,
                    ),
                ),
            )
        } else {
            None
        }),
{
    if bs == BlockSize::Invalid || b.syntax.inter.interintra_mode > 3 || b.syntax.inter.wedge_idx
        < -1 {
        return None;
    }
    let step: i32 = b.fi.sb_step;
    if step != 16 && step != 32 && step != 64 {
        return None;
    }
    let t: EdgeBounds = find_edges(b.fi);
    if !check_edges(&t) {
        return None;
    }
    let d: [u8; 4] = bs.dim();
    let s: BlendSite = BlendSite {
        chroma: plane != 0,
        bx: if plane == 0 { b.leaf.bx } else { b.leaf.cbx },
        by: if plane == 0 { b.leaf.by } else { b.leaf.cby },
        bw4: d[0] as i32,
        bh4: d[1] as i32,
        ss_hor: find_ss(plane, b.fi.ss_hor),
        ss_ver: find_ss(plane, b.fi.ss_ver),
        fw: b.mf.inter.fw,
        fh: b.mf.inter.fh,
    };
    if !check_blend(&s) {
        return None;
    }
    assert(64int % t.sb_step as int == 0) by {
        assert(64int % 16 == 0 && 64int % 32 == 0 && 64int % 64 == 0);
    }
    Some(
        Prediction::BlendIntra(
            iiblend_plane(
                g,
                &t,
                &s,
                b.syntax.inter.interintra_mode,
                b.syntax.inter.wedge_idx,
                b.seq.ibp,
            ),
        ),
    )
}

/// Finds what a step of building a motion-compensated block does.
pub fn predict_step(b: &PredictedBlock, g: &CodedGrid, step: &InterStep) -> (r: Option<Prediction>)
    requires
        g.wf(),
    ensures
        is_prediction(*b, *g, *step, r),
{
    match step {
        InterStep::Shift(p) => predict_shift(b, p),
        InterStep::Prepare(_, p) => predict_shift(b, p),
        InterStep::Warp(p) => predict_warp(b, p),
        InterStep::Blend(plane, kind) => Some(Prediction::Blend(*plane, *kind)),
        InterStep::BlendIntra(plane, bs, _) => predict_blend(b, g, *plane, *bs),
        InterStep::LumaResidual => Some(Prediction::Residual),
        InterStep::ChromaResidual => Some(Prediction::Residual),
    }
}

/// A shifted prediction of a part is read at the place of the part plus its
/// vector, in the plane that it belongs to: luma vectors are eighths of a
/// sample, those of subsampled chroma sixteenths.
pub proof fn law_part_is_read_at_its_vector(b: PredictedBlock, g: CodedGrid, p: McPart, plan: McPlan)
    requires
        is_prediction(b, g, InterStep::Shift(p), Some(Prediction::Shift(plan))),
    ensures
        ({
            let sx = if p.plane == 0 { 0 } else { b.fi.ss_hor as int };
            let sy = if p.plane == 0 { 0 } else { b.fi.ss_ver as int };
            &&& sx == 0 ==> 16 * (plan.hor.start - 4 * p.bx) + plan.hor.frac == 2 * p.mv.x
            &&& sx == 1 ==> 16 * (plan.hor.start - 2 * p.bx) + plan.hor.frac == p.mv.x
            &&& sy == 0 ==> 16 * (plan.ver.start - 4 * p.by) + plan.ver.frac == 2 * p.mv.y
            &&& sy == 1 ==> 16 * (plan.ver.start - 2 * p.by) + plan.ver.frac == p.mv.y
            &&& 0 <= plan.hor.frac < 16 && 0 <= plan.ver.frac < 16
            &&& plan.hor.len == (if sx == 0 { 4 * p.bw4 } else { 2 * p.bw4 })
            &&& plan.ver.len == (if sy == 0 { 4 * p.bh4 } else { 2 * p.bh4 })
        }),
{
    crate::mcgeom::law_prediction_is_read_at_the_vector(shift_site(b, p), p.filter);
}

/// The same of a part that is prepared for a blend of two.
pub proof fn law_prepared_part_is_read_as_a_shifted_one(
    b: PredictedBlock,
    g: CodedGrid,
    i: u8,
    p: McPart,
    r: Option<Prediction>,
)
    ensures
        is_prediction(b, g, InterStep::Prepare(i, p), r) <==> is_prediction(
            b,
            g,
            InterStep::Shift(p),
            r,
        ),
{
}

/// A warped part uses the warp of its block where it is local, and otherwise
/// the global motion of its reference.
pub proof fn law_warped_part_uses_its_model(b: PredictedBlock, p: WarpPart)
    ensures
        ({
            let w = warp_at(b, p);
            &&& p.local ==> w.matrix == b.motion.warp.matrix && w.abcd == b.shears.local
            &&& !p.local ==> w.matrix == b.mf.gmv[p.ref_idx as int].matrix && w.abcd
                == b.shears.global[p.ref_idx as int]
            &&& w.bx == p.bx && w.by == p.by
            &&& w.fw == b.mf.inter.fw && w.fh == b.mf.inter.fh
            &&& p.plane == 0 ==> w.ss_hor == 0 && w.ss_ver == 0
            &&& p.plane != 0 ==> w.ss_hor == b.fi.ss_hor && w.ss_ver == b.fi.ss_ver
        }),
{
}

/// Intra prediction is blended in where luma lies, or where chroma lies, with
/// the size of its block.
pub proof fn law_blend_lies_at_its_plane(b: PredictedBlock, plane: u8, bs: BlockSize)
    requires
        bs != BlockSize::Invalid,
    ensures
        ({
            let s = blend_site(b, plane, bs);
            &&& s.chroma <==> plane > 0
            &&& plane == 0 ==> s.bx == b.leaf.bx && s.by == b.leaf.by && s.ss_hor == 0 && s.ss_ver
                == 0
            &&& plane > 0 ==> s.bx == b.leaf.cbx && s.by == b.leaf.cby && s.ss_hor == b.fi.ss_hor
                && s.ss_ver == b.fi.ss_ver
            &&& s.bw4 == bs.w4() && s.bh4 == bs.h4() && s.fw == b.mf.inter.fw && s.fh
                == b.mf.inter.fh
            &&& tile_edges(*b.fi).col_start == b.fi.tile_col_start && tile_edges(*b.fi).row_start
                == b.fi.tile_row_start && tile_edges(*b.fi).col_end == b.fi.tile_col_end
                && tile_edges(*b.fi).row_end == b.fi.tile_row_end
        }),
{
    crate::levels::lemma_block_dimensions(bs);
}

} // verus!
