//! The steps by which a motion-compensated block is built.
use vstd::prelude::*;

use crate::frameinfo::SbFrameInfo;
use crate::intops::{imin, max, min};
use crate::intraplan::{inter_part, recon_b_inter_split};
use crate::levels::{BlockSize, MotionMode, Mv, MvXY, GLOBAL_MV, GLOBAL_MV_GLOBAL_MV};
use crate::splitblock::{all_parts, ReconBlock, SubBlock};
use crate::warp::{MvBlock, MvTile};

verus! {

/// How a block is predicted from other frames.
#[derive(Debug, Clone, Copy)]
pub struct InterBlock {
    pub refs: [i8; 2],
    pub mv: [Mv; 2],
    pub filter: u8,
    pub comp_type: u8,
    pub cwp_idx: i8,
    pub wedge_idx: i8,
    pub wedge_sign: u8,
    pub mask_sign: u8,
    pub inter_mode: u8,
    pub motion_mode: u8,
    /// Whether a warped prediction is blended with an intra prediction.
    pub warp_ii: bool,
    /// Whether the block has a valid warp of its own, and whether it is
    /// affine.
    pub local_warp: bool,
    pub local_affine: bool,
}

/// What the frame says of its references.
#[derive(Debug, Clone, Copy)]
pub struct InterFrame {
    pub force_integer_mv: bool,
    pub imp_msk_bld: bool,
    pub present: [bool; 7],
    pub scaled: [bool; 7],
    /// Whether the global motion of a reference may warp blocks, and whether
    /// it is affine.
    pub global_warp: [bool; 7],
    pub global_affine: [bool; 7],
    pub ss_hor: i32,
    pub ss_ver: i32,
    /// The size of the frame in units.
    pub fw: i32,
    pub fh: i32,
}

/// A prediction of one plane from one reference by a shift, in luma units.
#[derive(Debug, Clone, Copy, PartialEq, Eq, Structural)]
pub struct McPart {
    pub plane: u8,
    pub ref_idx: i8,
    pub bx: i32,
    pub by: i32,
    pub bw4: i32,
    pub bh4: i32,
    pub mv: MvXY,
    pub filter: u8,
}

/// A prediction of one plane by a warp. `local` tells whether the model is the
/// block's own, `affine` whether it is applied to eight by eight samples at a
/// time.
#[derive(Debug, Clone, Copy, PartialEq, Eq, Structural)]
pub struct WarpPart {
    pub plane: u8,
    pub ref_idx: i8,
    pub bx: i32,
    pub by: i32,
    pub bs: BlockSize,
    pub local: bool,
    pub affine: bool,
}

/// How two predictions become one.
#[derive(Debug, Clone, Copy, PartialEq, Eq, Structural)]
pub enum BlendKind {
    /// Along an edge; the second prediction comes first where it is swapped.
    Wedge(bool),
    /// By their difference, which gives a mask for the other planes.
    DeriveMask(bool),
    /// By the mask of the first plane.
    Mask(bool),
    /// By which of them lies outside of its reference.
    OutsideMask,
    Average,
    Weighted(i8),
}

/// A step of building a block.
#[derive(Debug, Clone, Copy, PartialEq, Eq, Structural)]
pub enum InterStep {
    /// Predict in place.
    Shift(McPart),
    /// Predict the first or the second of two.
    Prepare(u8, McPart),
    Warp(WarpPart),
    /// Blend the two predictions of a plane.
    Blend(u8, BlendKind),
    /// Blend a plane with an intra prediction, by the mask of a block size; the
    /// flag tells whether the size is that of the subsampled block.
    BlendIntra(u8, BlockSize, bool),
    LumaResidual,
    ChromaResidual,
}

impl InterBlock {
    /// Whether the references can be looked up.
    pub open spec fn has_ref(self, n: int) -> bool {
        0 <= self.refs[n] < 7
    }

    pub open spec fn blends_intra(self) -> bool {
        self.motion_mode == MotionMode::InterIntra as int || self.warp_ii
    }

    /// Whether the block chooses a warp of its own.
    pub open spec fn chooses_local(self) -> bool {
        self.motion_mode >= MotionMode::WarpCausal as int
    }
}

/// Whether a block with one reference is warped.
pub open spec fn is_warped(b: InterBlock, f: InterFrame, lbs: BlockSize) -> bool {
    !f.force_integer_mv && ((b.inter_mode == GLOBAL_MV && lbs.w4() > 1 && lbs.h4() > 1
        && f.global_warp[b.refs[0] as int]) || (b.chooses_local() && b.local_warp))
}

/// The affine kernel works on eight by eight samples, and so needs as much in
/// both directions.
pub open spec fn affine_applies(b: InterBlock, f: InterFrame, w: int, h: int) -> bool {
    (if b.chooses_local() { b.local_affine } else { f.global_affine[b.refs[0] as int] }) && min(w, h)
        >= 8
}

pub open spec fn mc_part(b: InterBlock, n: int, plane: u8, bx: i32, by: i32, bs: BlockSize) -> McPart {
    McPart {
        plane,
        ref_idx: b.refs[n],
        bx,
        by,
        bw4: bs.w4() as i32,
        bh4: bs.h4() as i32,
        mv: b.mv[n].c,
        filter: b.filter,
    }
}

pub open spec fn warp_part(
    b: InterBlock,
    f: InterFrame,
    plane: u8,
    bx: i32,
    by: i32,
    bs: BlockSize,
    px: int,
    py: int,
) -> WarpPart {
    WarpPart {
        plane,
        ref_idx: b.refs[0],
        bx,
        by,
        bs,
        local: b.chooses_local(),
        affine: affine_applies(b, f, bs.w4() * px, bs.h4() * py),
    }
}

/// Samples of chroma per luma unit.
pub open spec fn chroma_px(ss: int) -> int {
    if ss == 1 { 2 } else { 4 }
}

pub open spec fn single_luma(b: InterBlock, f: InterFrame, k: ReconBlock) -> Seq<InterStep> {
    if k.lbs == BlockSize::Invalid {
        Seq::empty()
    } else {
        let first = if is_warped(b, f, k.lbs) {
            InterStep::Warp(warp_part(b, f, 0, k.bx, k.by, k.lbs, 4, 4))
        } else {
            InterStep::Shift(mc_part(b, 0, 0, k.bx, k.by, k.lbs))
        };
        (if b.blends_intra() {
            seq![first, InterStep::BlendIntra(0, k.lbs, false)]
        } else {
            seq![first]
        }).push(InterStep::LumaResidual)
    }
}

/// Whether chroma lies over several blocks of luma that each move on their
/// own.
pub open spec fn moves_in_parts(b: InterBlock, f: InterFrame, k: ReconBlock) -> bool {
    k.lbs != BlockSize::Invalid && k.cbs != k.lbs && min(k.lbs.w4(), k.lbs.h4()) < 16
        && !is_warped(b, f, k.lbs)
}

pub open spec fn unit_part(u: MvBlock, plane: u8, x: int, y: int) -> McPart {
    McPart {
        plane,
        ref_idx: u.refs[0],
        bx: x as i32,
        by: y as i32,
        bw4: u.bs.w4() as i32,
        bh4: u.bs.h4() as i32,
        mv: u.motion(0).c,
        filter: u.filter,
    }
}

/// What the unit at a position adds to the prediction of chroma: a block that
/// starts there and has a reference is predicted in both planes.
pub open spec fn unit_steps(u: MvBlock, f: InterFrame, x: int, y: int) -> Seq<InterStep> {
    if u.ox4 == 0 && u.oy4 == 0 && 0 <= u.refs[0] < 7 && f.present[u.refs[0] as int] {
        seq![
            InterStep::Shift(unit_part(u, 1, x, y)),
            InterStep::Shift(unit_part(u, 2, x, y)),
        ]
    } else {
        Seq::empty()
    }
}

/// The units of a chroma block from `(x, y)` on, row by row, within `w` by
/// `h`.
pub open spec fn parts_from(
    t: MvTile,
    f: InterFrame,
    k: ReconBlock,
    w: int,
    h: int,
    x: int,
    y: int,
) -> Seq<InterStep>
    decreases max(h - y, 0), max(w - x, 0),
{
    if y >= h {
        Seq::empty()
    } else if x >= w {
        if w <= 0 {
            Seq::empty()
        } else {
            parts_from(t, f, k, w, h, 0, y + 1)
        }
    } else {
        unit_steps(t.unit(k.cbx + x, k.cby + y), f, k.cbx + x, k.cby + y) + parts_from(
            t,
            f,
            k,
            w,
            h,
            x + 1,
            y,
        )
    }
}

pub open spec fn whole_chroma(b: InterBlock, f: InterFrame, k: ReconBlock, plane: u8) -> InterStep {
    if is_warped(b, f, k.lbs) {
        InterStep::Warp(
            warp_part(
                b,
                f,
                plane,
                k.cbx,
                k.cby,
                k.cbs,
                chroma_px(f.ss_hor as int),
                chroma_px(f.ss_ver as int),
            ),
        )
    } else {
        InterStep::Shift(mc_part(b, 0, plane, k.cbx, k.cby, k.cbs))
    }
}

pub open spec fn single_chroma(b: InterBlock, f: InterFrame, k: ReconBlock, t: MvTile) -> Seq<
    InterStep,
> {
    if k.cbs == BlockSize::Invalid {
        Seq::empty()
    } else if moves_in_parts(b, f, k) {
        parts_from(
            t,
            f,
            k,
            min(f.fw - k.cbx, k.cbs.w4()),
            min(f.fh - k.cby, k.cbs.h4()),
            0,
            0,
        ).push(InterStep::ChromaResidual)
    } else {
        let both = seq![whole_chroma(b, f, k, 1), whole_chroma(b, f, k, 2)];
        (if b.blends_intra() {
            both + seq![
                InterStep::BlendIntra(1, k.cbs, b.wedge_idx == -1),
                InterStep::BlendIntra(2, k.cbs, b.wedge_idx == -1),
            ]
        } else {
            both
        }).push(InterStep::ChromaResidual)
    }
}

/// Whether a plain average gives way to a mask where one of the predictions
/// lies outside of its reference.
pub open spec fn masks_outside(b: InterBlock, f: InterFrame) -> bool {
    f.imp_msk_bld && b.motion_mode != MotionMode::WarpCausal as int && b.inter_mode
        != GLOBAL_MV_GLOBAL_MV && !f.scaled[b.refs[0] as int] && !f.scaled[b.refs[1] as int]
}

/// The weight of a plain average.
pub const CWP_EQUAL: i8 = 8;

/// How the two predictions of a plane become one. `outside` tells whether one
/// of them lies outside of its reference.
pub open spec fn blend_kind(b: InterBlock, f: InterFrame, luma: bool, outside: bool) -> BlendKind {
    if b.comp_type == 2 {
        BlendKind::Wedge(b.wedge_sign != 0)
    } else if b.comp_type == 3 {
        if luma {
            BlendKind::DeriveMask(b.mask_sign != 0)
        } else {
            BlendKind::Mask(b.mask_sign != 0)
        }
    } else if b.cwp_idx != CWP_EQUAL {
        BlendKind::Weighted(b.cwp_idx)
    } else if masks_outside(b, f) && outside {
        BlendKind::OutsideMask
    } else {
        BlendKind::Average
    }
}

pub open spec fn pair_plane(
    b: InterBlock,
    plane: u8,
    bx: i32,
    by: i32,
    bs: BlockSize,
    kind: BlendKind,
) -> Seq<InterStep> {
    seq![
        InterStep::Prepare(0, mc_part(b, 0, plane, bx, by, bs)),
        InterStep::Prepare(1, mc_part(b, 1, plane, bx, by, bs)),
        InterStep::Blend(plane, kind),
    ]
}

/// The steps for a block with two references. Whether a prediction lies
/// outside is decided for luma, and chroma follows it.
pub open spec fn pair_steps(b: InterBlock, f: InterFrame, k: ReconBlock, outside: bool) -> Seq<
    InterStep,
> {
    let luma = if k.lbs == BlockSize::Invalid {
        Seq::empty()
    } else {
        pair_plane(b, 0, k.bx, k.by, k.lbs, blend_kind(b, f, true, outside)).push(
            InterStep::LumaResidual,
        )
    };
    let kind = blend_kind(b, f, false, outside && k.lbs != BlockSize::Invalid);
    let chroma = if k.cbs == BlockSize::Invalid {
        Seq::empty()
    } else {
        (pair_plane(b, 1, k.cbx, k.cby, k.cbs, kind) + pair_plane(b, 2, k.cbx, k.cby, k.cbs, kind)).push(
            InterStep::ChromaResidual,
        )
    };
    luma + chroma
}

/// The steps of a block of at most 64 pixels in both directions. One whose
/// reference is missing is left as it is.
pub open spec fn leaf_inter_steps(
    b: InterBlock,
    f: InterFrame,
    k: ReconBlock,
    t: MvTile,
    outside: bool,
) -> Seq<InterStep> {
    if !b.has_ref(0) || !f.present[b.refs[0] as int] {
        Seq::empty()
    } else if b.has_ref(1) {
        if f.present[b.refs[1] as int] {
            pair_steps(b, f, k, outside)
        } else {
            Seq::empty()
        }
    } else {
        single_luma(b, f, k) + single_chroma(b, f, k, t)
    }
}

fn make_part(b: &InterBlock, n: usize, plane: u8, bx: i32, by: i32, bs: BlockSize) -> (r: McPart)
    requires
        n < 2,
        bs != BlockSize::Invalid,
    ensures
        r == mc_part(*b, n as int, plane, bx, by, bs),
{
    let d: [u8; 4] = bs.dim();
    McPart {
        plane,
        ref_idx: b.refs[n],
        bx,
        by,
        bw4: d[0] as i32,
        bh4: d[1] as i32,
        mv: b.mv[n].c,
        filter: b.filter,
    }
}

/// A length of `n` units of `px` samples.
fn in_samples(n: u8, px: i32) -> (r: i32)
    requires
        px == 2 || px == 4,
    ensures
        r == n * px,
{
    let v: i32 = n as i32;
    if px == 2 { v * 2 } else { v * 4 }
}

fn make_warp(
    b: &InterBlock,
    f: &InterFrame,
    plane: u8,
    bx: i32,
    by: i32,
    bs: BlockSize,
    px: i32,
    py: i32,
) -> (r: WarpPart)
    requires
        b.has_ref(0),
        bs != BlockSize::Invalid,
        px == 2 || px == 4,
        py == 2 || py == 4,
    ensures
        r == warp_part(*b, *f, plane, bx, by, bs, px as int, py as int),
{
    let d: [u8; 4] = bs.dim();
    let local: bool = b.motion_mode >= MotionMode::WarpCausal as u8;
    let w: i32 = in_samples(d[0], px);
    let h: i32 = in_samples(d[1], py);
    let affine: bool = if local { b.local_affine } else { f.global_affine[b.refs[0] as usize] };
    WarpPart { plane, ref_idx: b.refs[0], bx, by, bs, local, affine: affine && imin(w, h) >= 8 }
}

/// Whether a block with one reference is warped.
pub fn is_warp_block(b: &InterBlock, f: &InterFrame, lbs: BlockSize) -> (r: bool)
    requires
        b.has_ref(0),
        lbs != BlockSize::Invalid,
    ensures
        r == is_warped(*b, *f, lbs),
{
    let d: [u8; 4] = lbs.dim();
    !f.force_integer_mv && ((b.inter_mode == GLOBAL_MV && d[0] > 1 && d[1] > 1
        && f.global_warp[b.refs[0] as usize]) || (b.motion_mode >= MotionMode::WarpCausal as u8
        && b.local_warp))
}

fn plan_luma(b: &InterBlock, f: &InterFrame, k: &ReconBlock, warped: bool) -> (r: Vec<InterStep>)
    requires
        b.has_ref(0),
        k.lbs != BlockSize::Invalid,
        warped == is_warped(*b, *f, k.lbs),
    ensures
        r@ == single_luma(*b, *f, *k),
{
    let mut r: Vec<InterStep> = Vec::new();
    if warped {
        r.push(InterStep::Warp(make_warp(b, f, 0, k.bx, k.by, k.lbs, 4, 4)));
    } else {
        r.push(InterStep::Shift(make_part(b, 0, 0, k.bx, k.by, k.lbs)));
    }
    if b.motion_mode == MotionMode::InterIntra as u8 || b.warp_ii {
        r.push(InterStep::BlendIntra(0, k.lbs, false));
    }
    r.push(InterStep::LumaResidual);
    assert(r@ =~= single_luma(*b, *f, *k));
    r
}

fn plan_parts(t: &MvTile, f: &InterFrame, k: &ReconBlock, r: &mut Vec<InterStep>)
    requires
        t.wf(),
        k.cbs != BlockSize::Invalid,
        0 <= k.cbx <= 0x20_0000,
        0 <= k.cby <= 0x20_0000,
        0 <= f.fw,
        0 <= f.fh,
    ensures
        final(r)@ == old(r)@ + parts_from(
            *t,
            *f,
            *k,
            min(f.fw - k.cbx, k.cbs.w4()),
            min(f.fh - k.cby, k.cbs.h4()),
            0,
            0,
        ),
{
    let d: [u8; 4] = k.cbs.dim();
    let w: i32 = imin(f.fw - k.cbx, d[0] as i32);
    let h: i32 = imin(f.fh - k.cby, d[1] as i32);
    let ghost r0 = r@;
    let ghost all = parts_from(*t, *f, *k, w as int, h as int, 0, 0);
    let (mut x, mut y): (i32, i32) = (0, 0);
    assert(r@ + all == r0 + all);
    if w <= 0 || h <= 0 {
        assert(all =~= Seq::empty());
        assert(r@ =~= r0 + all);
        return;
    }
    while y < h
        invariant
            t.wf(),
            0 <= k.cbx <= 0x20_0000,
            0 <= k.cby <= 0x20_0000,
            1 <= w <= 255,
            1 <= h <= 255,
            0 <= x <= w,
            0 <= y <= h,
            r@ + parts_from(*t, *f, *k, w as int, h as int, x as int, y as int) == r0 + all,
        decreases h - y, w - x,
    {
        if x >= w {
            x = 0;
            y = y + 1;
        } else {
            let ghost rest = parts_from(*t, *f, *k, w as int, h as int, x + 1, y as int);
            let ghost here = r@;
            let u: &MvBlock = t.get_unit(k.cbx + x, k.cby + y);
            let ghost steps = unit_steps(*u, *f, k.cbx + x, k.cby + y);
            if u.ox4 == 0 && u.oy4 == 0 && 0 <= u.refs[0] && u.refs[0] < 7
                && f.present[u.refs[0] as usize] {
                let ud: [u8; 4] = u.bs.dim();
                let mv: MvXY = if u.mf / 2 % 2 == 1 { u.lmv[0].c } else { u.mv[0].c };
                let mut p: McPart = McPart {
                    plane: 1,
                    ref_idx: u.refs[0],
                    bx: k.cbx + x,
                    by: k.cby + y,
                    bw4: ud[0] as i32,
                    bh4: ud[1] as i32,
                    mv,
                    filter: u.filter,
                };
                r.push(InterStep::Shift(p));
                p.plane = 2;
                r.push(InterStep::Shift(p));
            }
            assert(r@ =~= here + steps);
            assert((here + steps) + rest =~= here + (steps + rest));
            x = x + 1;
        }
    }
    assert(r@ =~= r@ + parts_from(*t, *f, *k, w as int, h as int, x as int, y as int));
}

fn plan_chroma(
    b: &InterBlock,
    f: &InterFrame,
    k: &ReconBlock,
    t: &MvTile,
    warped: bool,
    r: &mut Vec<InterStep>,
)
    requires
        b.has_ref(0),
        k.lbs != BlockSize::Invalid,
        k.cbs != BlockSize::Invalid,
        t.wf(),
        0 <= f.ss_hor <= 1,
        0 <= f.ss_ver <= 1,
        0 <= k.cbx <= 0x20_0000,
        0 <= k.cby <= 0x20_0000,
        0 <= f.fw,
        0 <= f.fh,
        warped == is_warped(*b, *f, k.lbs),
    ensures
        final(r)@ == old(r)@ + single_chroma(*b, *f, *k, *t),
{
    let ghost r0 = r@;
    let ld: [u8; 4] = k.lbs.dim();
    if k.cbs != k.lbs && imin(ld[0] as i32, ld[1] as i32) < 16 && !warped {
        plan_parts(t, f, k, r);
    } else {
        let px: i32 = if f.ss_hor == 1 { 2 } else { 4 };
        let py: i32 = if f.ss_ver == 1 { 2 } else { 4 };
        if warped {
            r.push(InterStep::Warp(make_warp(b, f, 1, k.cbx, k.cby, k.cbs, px, py)));
            r.push(InterStep::Warp(make_warp(b, f, 2, k.cbx, k.cby, k.cbs, px, py)));
        } else {
            r.push(InterStep::Shift(make_part(b, 0, 1, k.cbx, k.cby, k.cbs)));
            r.push(InterStep::Shift(make_part(b, 0, 2, k.cbx, k.cby, k.cbs)));
        }
        if b.motion_mode == MotionMode::InterIntra as u8 || b.warp_ii {
            r.push(InterStep::BlendIntra(1, k.cbs, b.wedge_idx == -1));
            r.push(InterStep::BlendIntra(2, k.cbs, b.wedge_idx == -1));
        }
    }
    r.push(InterStep::ChromaResidual);
    assert(r@ =~= r0 + single_chroma(*b, *f, *k, *t));
}

fn choose_blend(b: &InterBlock, f: &InterFrame, luma: bool, outside: bool) -> (r: BlendKind)
    requires
        b.has_ref(0),
        b.has_ref(1),
    ensures
        r == blend_kind(*b, *f, luma, outside),
{
    if b.comp_type == 2 {
        BlendKind::Wedge(b.wedge_sign != 0)
    } else if b.comp_type == 3 {
        if luma {
            BlendKind::DeriveMask(b.mask_sign != 0)
        } else {
            BlendKind::Mask(b.mask_sign != 0)
        }
    } else if b.cwp_idx != CWP_EQUAL {
        BlendKind::Weighted(b.cwp_idx)
    } else if f.imp_msk_bld && b.motion_mode != MotionMode::WarpCausal as u8 && b.inter_mode
        != GLOBAL_MV_GLOBAL_MV && !f.scaled[b.refs[0] as usize] && !f.scaled[b.refs[1] as usize]
        && outside {
        BlendKind::OutsideMask
    } else {
        BlendKind::Average
    }
}

fn plan_pair_plane(
    b: &InterBlock,
    plane: u8,
    bx: i32,
    by: i32,
    bs: BlockSize,
    kind: BlendKind,
    r: &mut Vec<InterStep>,
)
    requires
        bs != BlockSize::Invalid,
    ensures
        final(r)@ == old(r)@ + pair_plane(*b, plane, bx, by, bs, kind),
{
    let ghost r0 = r@;
    r.push(InterStep::Prepare(0, make_part(b, 0, plane, bx, by, bs)));
    r.push(InterStep::Prepare(1, make_part(b, 1, plane, bx, by, bs)));
    r.push(InterStep::Blend(plane, kind));
    assert(r@ =~= r0 + pair_plane(*b, plane, bx, by, bs, kind));
}

/// Plans a block with two references.
pub fn recon_b_inter_compound(b: &InterBlock, f: &InterFrame, k: &ReconBlock, outside: bool) -> (r:
    Vec<InterStep>)
    requires
        b.has_ref(0),
        b.has_ref(1),
    ensures
        r@ == pair_steps(*b, *f, *k, outside),
{
    let mut r: Vec<InterStep> = Vec::new();
    if k.lbs != BlockSize::Invalid {
        let kind: BlendKind = choose_blend(b, f, true, outside);
        plan_pair_plane(b, 0, k.bx, k.by, k.lbs, kind, &mut r);
        r.push(InterStep::LumaResidual);
    }
    let ghost luma = r@;
    if k.cbs != BlockSize::Invalid {
        let kind: BlendKind = choose_blend(b, f, false, outside && k.lbs != BlockSize::Invalid);
        plan_pair_plane(b, 1, k.cbx, k.cby, k.cbs, kind, &mut r);
        plan_pair_plane(b, 2, k.cbx, k.cby, k.cbs, kind, &mut r);
        r.push(InterStep::ChromaResidual);
    }
    assert(r@ =~= pair_steps(*b, *f, *k, outside));
    r
}

/// The steps of the first `n` parts. `outside` tells of each part whether one
/// of two predictions of its luma lies outside of its reference; a part that it
/// says nothing of lies inside.
pub open spec fn inter_parts_steps(
    b: InterBlock,
    f: InterFrame,
    parts: Seq<ReconBlock>,
    t: MvTile,
    outside: Seq<bool>,
    n: int,
) -> Seq<InterStep>
    decreases n,
{
    if n <= 0 {
        Seq::empty()
    } else {
        inter_parts_steps(b, f, parts, t, outside, n - 1) + leaf_inter_steps(
            b,
            f,
            parts[n - 1],
            t,
            n - 1 < outside.len() && outside[n - 1],
        )
    }
}

/// The parts of a motion-compensated block.
pub open spec fn inter_parts(fi: SbFrameInfo, k: ReconBlock) -> Seq<ReconBlock> {
    if k.large() {
        all_parts(fi, k).map_values(|s: SubBlock| inter_part(s))
    } else {
        seq![k]
    }
}

/// The steps of a block: those of its parts, one after the other.
pub open spec fn inter_steps(
    fi: SbFrameInfo,
    b: InterBlock,
    f: InterFrame,
    k: ReconBlock,
    t: MvTile,
    outside: Seq<bool>,
) -> Seq<InterStep> {
    let parts = inter_parts(fi, k);
    inter_parts_steps(b, f, parts, t, outside, parts.len() as int)
}

fn plan_inter_leaf(b: &InterBlock, f: &InterFrame, k: &ReconBlock, t: &MvTile, outside: bool) -> (r:
    Vec<InterStep>)
    requires
        t.wf(),
        0 <= f.ss_hor <= 1,
        0 <= f.ss_ver <= 1,
        b.has_ref(1) || k.lbs != BlockSize::Invalid,
        0 <= k.cbx <= 0x20_0000,
        0 <= k.cby <= 0x20_0000,
        0 <= f.fw,
        0 <= f.fh,
    ensures
        r@ == leaf_inter_steps(*b, *f, *k, *t, outside),
{
    if b.refs[0] < 0 || b.refs[0] >= 7 || !f.present[b.refs[0] as usize] {
        return Vec::new();
    }
    if 0 <= b.refs[1] && b.refs[1] < 7 {
        if f.present[b.refs[1] as usize] {
            return recon_b_inter_compound(b, f, k, outside);
        }
        return Vec::new();
    }
    let warped: bool = is_warp_block(b, f, k.lbs);
    let mut r: Vec<InterStep> = plan_luma(b, f, k, warped);
    if k.cbs != BlockSize::Invalid {
        plan_chroma(b, f, k, t, warped, &mut r);
    }
    assert(r@ =~= single_luma(*b, *f, *k) + single_chroma(*b, *f, *k, *t));
    r
}

/// Lists the parts of a motion-compensated block.
pub fn list_inter_parts(fi: &SbFrameInfo, k: &ReconBlock) -> (r: Vec<ReconBlock>)
    requires
        k.valid(),
        k.bx <= 0x10_0000,
        k.by <= 0x10_0000,
        k.cbx <= 0x10_0000,
        k.cby <= 0x10_0000,
        0 <= fi.ss_hor <= 1,
        0 <= fi.ss_ver <= 1,
    ensures
        r@ == inter_parts(*fi, *k),
        forall|i: int|
            0 <= i < r@.len() ==> {
                let p = #[trigger] r@[i];
                &&& p.lbs == BlockSize::Invalid <==> k.lbs == BlockSize::Invalid
                &&& 0 <= p.cbx <= 0x20_0000
                &&& 0 <= p.cby <= 0x20_0000
            },
{
    let bs: BlockSize = if k.lbs == BlockSize::Invalid { k.cbs } else { k.lbs };
    let d: [u8; 4] = bs.dim();
    if d[0] <= 16 && d[1] <= 16 {
        let mut r: Vec<ReconBlock> = Vec::new();
        r.push(*k);
        assert(r@ =~= seq![*k]);
        return r;
    }
    let r: Vec<ReconBlock> = recon_b_inter_split(fi, k);
    assert(r@ =~= inter_parts(*fi, *k));
    r
}

/// Plans a block. One of more than 64 pixels in a direction is built part by
/// part; `outside` tells of each part whether one of two predictions of its
/// luma lies outside of its reference.
pub fn recon_b_inter(
    fi: &SbFrameInfo,
    b: &InterBlock,
    f: &InterFrame,
    k: &ReconBlock,
    t: &MvTile,
    outside: &[bool],
) -> (r: Vec<InterStep>)
    requires
        t.wf(),
        k.valid(),
        k.bx <= 0x10_0000,
        k.by <= 0x10_0000,
        k.cbx <= 0x10_0000,
        k.cby <= 0x10_0000,
        0 <= fi.ss_hor <= 1,
        0 <= fi.ss_ver <= 1,
        0 <= f.ss_hor <= 1,
        0 <= f.ss_ver <= 1,
        b.has_ref(1) || k.lbs != BlockSize::Invalid,
        0 <= f.fw,
        0 <= f.fh,
    ensures
        r@ == inter_steps(*fi, *b, *f, *k, *t, outside@),
{
    let parts: Vec<ReconBlock> = list_inter_parts(fi, k);
    let n: usize = parts.len();
    let mut r: Vec<InterStep> = Vec::new();
    let mut i: usize = 0;
    assert(r@ =~= inter_parts_steps(*b, *f, parts@, *t, outside@, 0));
    while i < n
        invariant
            t.wf(),
            0 <= f.ss_hor <= 1,
            0 <= f.ss_ver <= 1,
            b.has_ref(1) || k.lbs != BlockSize::Invalid,
            0 <= f.fw,
            0 <= f.fh,
            n == parts@.len(),
            i <= n,
            forall|q: int|
                0 <= q < n ==> {
                    let p = #[trigger] parts@[q];
                    &&& p.lbs == BlockSize::Invalid <==> k.lbs == BlockSize::Invalid
                    &&& 0 <= p.cbx <= 0x20_0000
                    &&& 0 <= p.cby <= 0x20_0000
                },
            r@ == inter_parts_steps(*b, *f, parts@, *t, outside@, i as int),
        decreases n - i,
    {
        let out: bool = i < outside.len() && outside[i];
        let mut more: Vec<InterStep> = plan_inter_leaf(b, f, &parts[i], t, out);
        r.append(&mut more);
        i = i + 1;
    }
    r
}

/// The coefficients of a part come luma before chroma, which comes last.
pub proof fn law_luma_before_chroma(
    b: InterBlock,
    f: InterFrame,
    k: ReconBlock,
    t: MvTile,
    outside: bool,
)
    requires
        k.lbs != BlockSize::Invalid,
        k.cbs != BlockSize::Invalid,
        leaf_inter_steps(b, f, k, t, outside).len() > 0,
    ensures
        ({
            let s = leaf_inter_steps(b, f, k, t, outside);
            s.last() == InterStep::ChromaResidual && exists|i: int|
                0 <= i < s.len() - 1 && #[trigger] s[i] == InterStep::LumaResidual
        }),
{
    let s = leaf_inter_steps(b, f, k, t, outside);
    if b.has_ref(1) {
        assert(s[3] == InterStep::LumaResidual);
    } else {
        let n = single_luma(b, f, k).len();
        assert(s[n - 1] == InterStep::LumaResidual);
        assert(single_chroma(b, f, k, t).len() > 0);
        assert(s.last() == single_chroma(b, f, k, t).last());
    }
}

/// Each of two predictions is that of its own reference with its own vector,
/// at the place of the block; the blend comes after both.
pub proof fn law_pairs_predict_each_reference(
    b: InterBlock,
    plane: u8,
    bx: i32,
    by: i32,
    bs: BlockSize,
    kind: BlendKind,
)
    requires
        bs != BlockSize::Invalid,
    ensures
        ({
            let s = pair_plane(b, plane, bx, by, bs, kind);
            &&& s.len() == 3
            &&& s[0] matches InterStep::Prepare(i, p) && i == 0 && p.ref_idx == b.refs[0] && p.mv
                == b.mv[0].c && p.bx == bx && p.by == by && p.plane == plane && p.bw4 == bs.w4()
                && p.bh4 == bs.h4() && p.filter == b.filter
            &&& s[1] matches InterStep::Prepare(i, p) && i == 1 && p.ref_idx == b.refs[1] && p.mv
                == b.mv[1].c && p.bx == bx && p.by == by && p.plane == plane && p.bw4 == bs.w4()
                && p.bh4 == bs.h4() && p.filter == b.filter
            &&& s[2] == InterStep::Blend(plane, kind)
        }),
{
    crate::levels::lemma_block_dimensions(bs);
}

/// The luma of a block with one reference: shifted by its first vector from
/// its first reference, or warped; then intra prediction is blended in where
/// the block says so, and the residual comes last.
pub proof fn law_single_luma_goes_in_order(b: InterBlock, f: InterFrame, k: ReconBlock)
    requires
        k.lbs != BlockSize::Invalid,
    ensures
        ({
            let s = single_luma(b, f, k);
            let mixed = b.motion_mode == MotionMode::InterIntra as int || b.warp_ii;
            &&& s.len() == (if mixed { 3int } else { 2 })
            &&& s.last() == InterStep::LumaResidual
            &&& mixed ==> s[1] == InterStep::BlendIntra(0, k.lbs, false)
            &&& !is_warped(b, f, k.lbs) ==> (s[0] matches InterStep::Shift(p) && p.ref_idx
                == b.refs[0] && p.mv == b.mv[0].c && p.bx == k.bx && p.by == k.by && p.plane == 0)
            &&& is_warped(b, f, k.lbs) ==> (s[0] matches InterStep::Warp(p) && p.ref_idx == b.refs[0]
                && p.bx == k.bx && p.by == k.by && p.plane == 0 && p.bs == k.lbs && p.local == (
            b.motion_mode >= MotionMode::WarpCausal as int))
        }),
{
}

/// Chroma of such a block as a whole: both planes, at the place of chroma.
pub proof fn law_single_chroma_goes_in_order(
    b: InterBlock,
    f: InterFrame,
    k: ReconBlock,
    t: MvTile,
)
    requires
        k.cbs != BlockSize::Invalid,
        !moves_in_parts(b, f, k),
        !is_warped(b, f, k.lbs),
        !b.blends_intra(),
    ensures
        ({
            let s = single_chroma(b, f, k, t);
            &&& s.len() == 3
            &&& s[0] matches InterStep::Shift(p) && p.plane == 1 && p.bx == k.cbx && p.by == k.cby
                && p.mv == b.mv[0].c && p.ref_idx == b.refs[0]
            &&& s[1] matches InterStep::Shift(p) && p.plane == 2 && p.bx == k.cbx && p.by == k.cby
                && p.mv == b.mv[0].c && p.ref_idx == b.refs[0]
            &&& s[2] == InterStep::ChromaResidual
        }),
{
}

/// Whether a block is warped: never with whole vectors; by the global motion
/// where it follows that and is large enough, or by a warp of its own.
pub proof fn law_warped_blocks(b: InterBlock, f: InterFrame, bs: BlockSize)
    ensures
        f.force_integer_mv ==> !is_warped(b, f, bs),
        is_warped(b, f, bs) ==> (b.inter_mode == GLOBAL_MV && bs.w4() >= 2 && bs.h4() >= 2
            && f.global_warp[b.refs[0] as int]) || (b.motion_mode >= MotionMode::WarpCausal as int
            && b.local_warp),
        !f.force_integer_mv && b.motion_mode >= MotionMode::WarpCausal as int && b.local_warp
            ==> is_warped(b, f, bs),
        !f.force_integer_mv && b.inter_mode == GLOBAL_MV && bs.w4() >= 2 && bs.h4() >= 2
            && f.global_warp[b.refs[0] as int] ==> is_warped(b, f, bs),
        affine_applies(b, f, 8, 8) <==> (if b.motion_mode >= MotionMode::WarpCausal as int {
            b.local_affine
        } else {
            f.global_affine[b.refs[0] as int]
        }),
        !affine_applies(b, f, 7, 64) && !affine_applies(b, f, 64, 7),
{
}

/// How two predictions become one: by a wedge, by a mask that luma derives and
/// chroma shares, by a weight other than one half, by a mask where one of them
/// lies outside, or by their mean.
pub proof fn law_blends_follow_the_compound_type(b: InterBlock, f: InterFrame, outside: bool)
    ensures
        b.comp_type == 2 ==> blend_kind(b, f, true, outside) == BlendKind::Wedge(b.wedge_sign != 0)
            && blend_kind(b, f, false, outside) == BlendKind::Wedge(b.wedge_sign != 0),
        b.comp_type == 3 ==> blend_kind(b, f, true, outside) == BlendKind::DeriveMask(
            b.mask_sign != 0,
        ) && blend_kind(b, f, false, outside) == BlendKind::Mask(b.mask_sign != 0),
        b.comp_type == 1 && b.cwp_idx != 8 ==> blend_kind(b, f, true, outside)
            == BlendKind::Weighted(b.cwp_idx),
        b.comp_type == 1 && b.cwp_idx == 8 && !outside ==> blend_kind(b, f, true, outside)
            == BlendKind::Average,
        b.comp_type == 1 && b.cwp_idx == 8 && outside && !f.imp_msk_bld ==> blend_kind(
            b,
            f,
            true,
            outside,
        ) == BlendKind::Average,
        b.comp_type == 1 && b.cwp_idx == 8 && outside && f.imp_msk_bld && b.motion_mode == 0
            && b.inter_mode != GLOBAL_MV_GLOBAL_MV && !f.scaled[b.refs[0] as int]
            && !f.scaled[b.refs[1] as int] ==> blend_kind(b, f, true, outside)
            == BlendKind::OutsideMask,
{
}

/// Chroma over several luma blocks: each block that starts at the unit and has
/// a reference is predicted in both planes by its own motion.
pub proof fn law_units_predict_their_own_chroma(u: MvBlock, f: InterFrame, x: int, y: int)
    requires
        u.bs != BlockSize::Invalid,
        0 <= x <= 0x10_0000,
        0 <= y <= 0x10_0000,
    ensures
        ({
            let s = unit_steps(u, f, x, y);
            let starts = u.ox4 == 0 && u.oy4 == 0 && 0 <= u.refs[0] < 7
                && f.present[u.refs[0] as int];
            &&& !starts ==> s.len() == 0
            &&& starts ==> s.len() == 2 && (s[0] matches InterStep::Shift(p) && p.plane == 1 && p.bx
                == x && p.by == y && p.mv == u.motion(0).c && p.ref_idx == u.refs[0] && p.bw4
                == u.bs.w4() && p.bh4 == u.bs.h4())
            &&& starts ==> (s[1] matches InterStep::Shift(p) && p.plane == 2 && p.bx == x && p.by
                == y && p.mv == u.motion(0).c && p.ref_idx == u.refs[0])
        }),
{
    crate::levels::lemma_block_dimensions(u.bs);
}

/// A block whose references are not there is left as it is.
pub proof fn law_missing_references_leave_the_block(
    b: InterBlock,
    f: InterFrame,
    k: ReconBlock,
    t: MvTile,
    outside: bool,
)
    requires
        0 <= b.refs[0] < 7,
    ensures
        !f.present[b.refs[0] as int] ==> leaf_inter_steps(b, f, k, t, outside).len() == 0,
        0 <= b.refs[1] < 7 && !f.present[b.refs[1] as int] ==> leaf_inter_steps(
            b,
            f,
            k,
            t,
            outside,
        ).len() == 0,
        f.present[b.refs[0] as int] && 0 <= b.refs[1] < 7 && f.present[b.refs[1] as int]
            ==> leaf_inter_steps(b, f, k, t, outside) == pair_steps(b, f, k, outside),
        f.present[b.refs[0] as int] && b.refs[1] == -1 ==> leaf_inter_steps(b, f, k, t, outside)
            == single_luma(b, f, k) + single_chroma(b, f, k, t),
{
}

} // verus!
