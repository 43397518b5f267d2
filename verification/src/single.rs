//! Syntax of a block that is predicted from one reference.
use vstd::prelude::*;

use crate::block::{nb_at, neighbour_at, BlockPos, SbNb};
use crate::env::BlockContext;
use crate::frameinfo::SbFrameInfo;
use crate::interctx::{
    amvd_ctx, count_frame_refs, count_ref, find_amvd_ctx, find_ref_ctx, frame_refs,
    get_single_filter_ctx, get_snglref_ctx, has_warp_neighbour, ref_count, ref_ctx,
    single_filter_ctx, snglref_ctx, warp_neighbour, NxInter,
};
use crate::intops::{b2i, bit_of, bit_set, max, min};
use crate::levels::{BlockSize, MotionMode, MvXY};
use crate::levels::{GLOBAL_MV, NEAR_MV, NEW_MV, TIP_FRAME, WARP_MV, WARP_NEW_MV};
use crate::msac::{Cdf, Derived, MsacContext, Request, Sym};
use crate::mvread::{read_wedge_idx, wedge_idx};
use crate::mvsyntax::{
    drl_index, is_odd_steps, mv_difference, mv_precision, odd_steps, read_drl_index,
    read_mv_difference, read_mv_precision, read_signs, signed_pair, DrlKind, SignRule,
};
use crate::tables::SIZE_GROUP;

verus! {

/// All that is coded for a block predicted from other frames.
#[derive(Debug, Clone, Copy, PartialEq, Eq, Structural)]
pub struct InterSyntax {
    pub ref0: i8,
    pub ref1: i8,
    pub inter_mode: u8,
    pub comp_type: u8,
    pub motion_mode: u8,
    pub drl0: u8,
    pub drl1: u8,
    pub amvd: u8,
    pub mv_prec: i8,
    pub mvprec_def: u8,
    pub mvd0: MvXY,
    pub mvd1: MvXY,
    pub jmvd_scale: u8,
    pub refine_mv: u8,
    pub wedge_idx: i8,
    pub wedge_sign: u8,
    pub mask_sign: u8,
    pub cwp_idx: i8,
    pub filter: u8,
    pub warp_ref_idx: u8,
    pub warpmv_with_mvd: u8,
    pub bawp0: u8,
    pub bawp1: u8,
    pub interintra_mode: u8,
    pub delta0: i8,
    pub delta1: i8,
    pub delta2: i8,
    pub delta3: i8,
    pub warp_ii: u8,
}

/// A block of which nothing is known yet.
pub open spec fn blank_inter() -> InterSyntax {
    InterSyntax {
        ref0: 0,
        ref1: 0,
        inter_mode: 0,
        comp_type: 0,
        motion_mode: 0,
        drl0: 0,
        drl1: 0,
        amvd: 0,
        mv_prec: 0,
        mvprec_def: 1,
        mvd0: MvXY { y: 0, x: 0 },
        mvd1: MvXY { y: 0, x: 0 },
        jmvd_scale: 0,
        refine_mv: 0,
        wedge_idx: 0,
        wedge_sign: 0,
        mask_sign: 0,
        cwp_idx: 0,
        filter: 0,
        warp_ref_idx: 0,
        warpmv_with_mvd: 0,
        bawp0: 0,
        bawp1: 0,
        interintra_mode: 0,
        delta0: 0,
        delta1: 0,
        delta2: 0,
        delta3: 0,
        warp_ii: 0,
    }
}

pub fn new_inter() -> (r: InterSyntax)
    ensures
        r == blank_inter(),
{
    InterSyntax {
        ref0: 0,
        ref1: 0,
        inter_mode: 0,
        comp_type: 0,
        motion_mode: 0,
        drl0: 0,
        drl1: 0,
        amvd: 0,
        mv_prec: 0,
        mvprec_def: 1,
        mvd0: MvXY { y: 0, x: 0 },
        mvd1: MvXY { y: 0, x: 0 },
        jmvd_scale: 0,
        refine_mv: 0,
        wedge_idx: 0,
        wedge_sign: 0,
        mask_sign: 0,
        cwp_idx: 0,
        filter: 0,
        warp_ref_idx: 0,
        warpmv_with_mvd: 0,
        bawp0: 0,
        bawp1: 0,
        interintra_mode: 0,
        delta0: 0,
        delta1: 0,
        delta2: 0,
        delta3: 0,
        warp_ii: 0,
    }
}

impl InterSyntax {
    /// Every value is one that later blocks can look at.
    pub open spec fn valid(self) -> bool {
        &&& -1 <= self.ref0 <= 7
        &&& -1 <= self.ref1 <= 7
        &&& self.inter_mode <= 28
        &&& self.comp_type <= 3
        &&& self.motion_mode <= 4
        &&& self.amvd <= 1
        &&& 1 <= self.mvprec_def <= 2
        &&& self.filter <= 3
        &&& self.wedge_sign <= 1
    }
}

/// `x` and `y` agree in what is coded ahead of the motion mode, in candidate
/// index, precision and wedge sign.
pub open spec fn same_head(x: InterSyntax, y: InterSyntax) -> bool {
    &&& x.ref0 == y.ref0
    &&& x.ref1 == y.ref1
    &&& x.inter_mode == y.inter_mode
    &&& x.comp_type == y.comp_type
    &&& x.amvd == y.amvd
    &&& x.drl0 == y.drl0
    &&& x.mv_prec == y.mv_prec
    &&& x.mvprec_def == y.mvprec_def
    &&& x.wedge_sign == y.wedge_sign
}

/// One reference out of `n`: each in turn is taken or passed over; the last
/// needs no flag.
pub open spec fn single_ref(s: Sym, nx: NxInter, n: int, i: int, rem: int) -> (int, Sym)
    decreases n - i,
{
    if i >= n - 1 {
        (i, s)
    } else {
        let cur = ref_count(nx, i);
        let (taken, s) = s.flag(Cdf::SingleRef(ref_ctx(cur, rem - cur) as usize, i as usize));
        if taken != 0 {
            (i, s)
        } else {
            single_ref(s, nx, n, i + 1, rem - cur)
        }
    }
}

pub fn read_single_ref(nx: &NxInter, n: u8, msac: &mut MsacContext) -> (r: i8)
    requires
        nx.valid(),
        n <= 7,
    ensures
        (r as int, final(msac)@) == single_ref(old(msac)@, *nx, n as int, 0, frame_refs(*nx)),
        0 <= r,
        r == 0 || r < n,
{
    let ghost s0 = msac@;
    let mut i: i8 = 0;
    let mut rem: i32 = count_frame_refs(nx);
    let ghost rem0 = rem as int;
    while i + 1 < n as i8
        invariant
            0 <= i,
            i == 0 || i < n,
            n <= 7,
            nx.valid(),
            -4 - 4 * i <= rem <= 4,
            rem0 == frame_refs(*nx),
            s0 == old(msac)@,
            single_ref(s0, *nx, n as int, 0, rem0) == single_ref(
                msac@,
                *nx,
                n as int,
                i as int,
                rem as int,
            ),
        decreases n - i,
    {
        let cur: i32 = count_ref(nx, i);
        rem = rem - cur;
        let ctx: usize = find_ref_ctx(cur, rem);
        if msac.decode_bool_adapt(Cdf::SingleRef(ctx, i as usize)) != 0 {
            return i;
        }
        i = i + 1;
    }
    i
}

/// The prediction mode of a block with one reference.
#[verifier::opaque]
pub open spec fn single_mode(
    s: Sym,
    fi: SbFrameInfo,
    b: BlockPos,
    fixed: bool,
    is_tip: bool,
    ref0: i8,
    ctx: int,
) -> (int, Sym) {
    if fixed {
        (GLOBAL_MV as int, s)
    } else if is_tip {
        let (new, s) = s.flag(Cdf::TipMode);
        (NEAR_MV + 2 * new, s)
    } else {
        let (warp, s) = if min(b.bs.w4(), b.bs.h4()) >= 2 && fi.warp_motion {
            let (c, s) = s.context(
                Derived::Warp(
                    b.bs,
                    b.by4() as usize,
                    b.bx4() as usize,
                    ref0,
                    b.warp_neighbours(fi),
                    !b.top_in_sb(fi),
                ),
                64,
            );
            s.flag(Cdf::Warp(c as usize))
        } else {
            (0, s)
        };
        if warp == 0 {
            let (m, s) = s.symbol(Cdf::InterMode(ctx as usize), 2);
            (NEAR_MV + m, s)
        } else if fi.force_integer_mv {
            (WARP_MV as int, s)
        } else {
            let (plain, s) = s.flag(Cdf::WarpNewMv);
            (if plain == 0 { WARP_NEW_MV as int } else { WARP_MV as int }, s)
        }
    }
}

fn read_single_mode(
    fi: &SbFrameInfo,
    b: &BlockPos,
    fixed: bool,
    is_tip: bool,
    ref0: i8,
    ctx: usize,
    msac: &mut MsacContext,
) -> (r: u8)
    requires
        b.valid(*fi),
    ensures
        (r as int, final(msac)@) == single_mode(
            old(msac)@,
            *fi,
            *b,
            fixed,
            is_tip,
            ref0,
            ctx as int,
        ),
        NEAR_MV <= r <= WARP_NEW_MV,
        r >= WARP_MV ==> !fixed && !is_tip && min(b.bs.w4(), b.bs.h4()) >= 2,
{
    proof {
        reveal(single_mode);
    }
    if fixed {
        return GLOBAL_MV;
    }
    if is_tip {
        return NEAR_MV + 2 * msac.decode_bool_adapt(Cdf::TipMode) as u8;
    }
    let d: [u8; 4] = b.bs.dim();
    let mut warp: bool = false;
    if d[0] >= 2 && d[1] >= 2 && fi.warp_motion {
        let c: u32 = msac.derive_context(
            Derived::Warp(
                b.bs,
                (b.by % 64) as usize,
                (b.bx % 64) as usize,
                ref0,
                b.find_warp_neighbours(fi),
                b.by % fi.sb_step == 0,
            ),
            64,
        );
        warp = msac.decode_bool_adapt(Cdf::Warp(c as usize)) != 0;
    }
    if !warp {
        NEAR_MV + msac.decode_symbol_adapt(Cdf::InterMode(ctx), 2) as u8
    } else if fi.force_integer_mv {
        WARP_MV
    } else if msac.decode_bool_adapt(Cdf::WarpNewMv) == 0 {
        WARP_NEW_MV
    } else {
        WARP_MV
    }
}

/// The weights of block-adaptive weighted prediction, for luma and chroma.
pub open spec fn bawp_read(
    s: Sym,
    fi: SbFrameInfo,
    bs: BlockSize,
    has_chroma: bool,
    mode: int,
    amvd: int,
) -> ((int, int), Sym) {
    if fi.bawp && mode != GLOBAL_MV && min(bs.w4(), bs.h4()) >= 2 {
        let (on, s) = s.flag(Cdf::Bawp(0));
        if on == 0 {
            ((0, 0), s)
        } else {
            let ctx: int = if mode == NEW_MV { 2 - amvd } else { 0 };
            let (explicit, s) = s.flag(Cdf::BawpExplicit(ctx as usize));
            let (v, s) = if explicit != 0 {
                let (scale, s) = s.flag(Cdf::BawpExplicitScale);
                (2 + scale + 4 * ctx, s)
            } else {
                (1, s)
            };
            if has_chroma {
                let (c, s) = s.flag(Cdf::Bawp(1));
                ((v, c), s)
            } else {
                ((v, 0), s)
            }
        }
    } else {
        ((0, 0), s)
    }
}

fn read_bawp(
    fi: &SbFrameInfo,
    bs: BlockSize,
    has_chroma: bool,
    mode: u8,
    amvd: u8,
    msac: &mut MsacContext,
) -> (r: (u8, u8))
    requires
        bs != BlockSize::Invalid,
        amvd <= 1,
    ensures
        ((r.0 as int, r.1 as int), final(msac)@) == bawp_read(
            old(msac)@,
            *fi,
            bs,
            has_chroma,
            mode as int,
            amvd as int,
        ),
        r.0 <= 11,
        r.1 <= 1,
{
    let d: [u8; 4] = bs.dim();
    if fi.bawp && mode != GLOBAL_MV && d[0] >= 2 && d[1] >= 2 {
        if msac.decode_bool_adapt(Cdf::Bawp(0)) == 0 {
            return (0, 0);
        }
        let ctx: u8 = if mode == NEW_MV { 2 - amvd } else { 0 };
        let mut v: u8 = 1;
        if msac.decode_bool_adapt(Cdf::BawpExplicit(ctx as usize)) != 0 {
            v = 2 + msac.decode_bool_adapt(Cdf::BawpExplicitScale) as u8 + 4 * ctx;
        }
        let c: u8 = if has_chroma { msac.decode_bool_adapt(Cdf::Bawp(1)) as u8 } else { 0 };
        (v, c)
    } else {
        (0, 0)
    }
}

/// The mode and the wedge of a block that mixes inter and intra prediction;
/// without a wedge the index is -1.
pub open spec fn interintra_read(s: Sym, group: int, wedges: bool) -> ((int, int), Sym) {
    let (mode, s) = s.symbol(Cdf::InterintraMode(group as usize), 3);
    if wedges {
        let (on, s) = s.flag(Cdf::InterintraWedge);
        if on != 0 {
            let (w, s) = wedge_idx(s);
            ((mode, w), s)
        } else {
            ((mode, -1), s)
        }
    } else {
        ((mode, -1), s)
    }
}

fn read_interintra(group: u8, wedges: bool, msac: &mut MsacContext) -> (r: (u8, i8))
    ensures
        ((r.0 as int, r.1 as int), final(msac)@) == interintra_read(
            old(msac)@,
            group as int,
            wedges,
        ),
        r.0 <= 3,
        -1 <= r.1 <= 67,
{
    let mode: u8 = msac.decode_symbol_adapt(Cdf::InterintraMode(group as usize), 3) as u8;
    if wedges && msac.decode_bool_adapt(Cdf::InterintraWedge) != 0 {
        (mode, read_wedge_idx(msac))
    } else {
        (mode, -1)
    }
}

/// Whether a block may mix inter and intra prediction.
pub open spec fn interintra_allowed(fi: SbFrameInfo, bs: BlockSize, mode: int, bawp: int) -> bool {
    &&& bit_of(fi.motion_modes as int, MotionMode::InterIntra as int)
    &&& bawp == 0
    &&& bs.w4() * bs.h4() > 2
    &&& max(bs.w4(), bs.h4()) <= 16
    &&& mode <= NEW_MV
}

/// How the warp of a block is found.
pub open spec fn warp_kind(
    s: Sym,
    fi: SbFrameInfo,
    b: BlockPos,
    a: BlockContext,
    l: BlockContext,
    nb: SbNb,
    mode: int,
    ref0: int,
) -> (int, Sym) {
    let delta = MotionMode::WarpDelta as int;
    let causal = MotionMode::WarpCausal as int;
    let extend = MotionMode::WarpExtend as int;
    if mode == WARP_NEW_MV && warp_neighbour(fi, b, a, l, ref0) {
        let x0 = nb_at(a.motion_mode, l.motion_mode, nb, 0);
        let x1 = nb_at(a.motion_mode, l.motion_mode, nb, 1);
        let ctx = b2i(x0 >= causal) + b2i(x1 >= causal);
        let modes = fi.motion_modes as int;
        let (ext, s) = if bit_of(modes, extend) {
            s.flag(Cdf::WarpExtend(ctx as usize))
        } else {
            (0, s)
        };
        if ext != 0 {
            (extend, s)
        } else if bit_of(modes, causal) && bit_of(modes, delta) {
            let cs = b2i(ctx > 0) + b2i(x0 == causal) + b2i(x1 == causal);
            let (v, s) = s.flag(Cdf::WarpCausal(cs as usize));
            (if v != 0 { causal } else { delta }, s)
        } else if bit_of(modes, causal) {
            (causal, s)
        } else {
            (delta, s)
        }
    } else {
        (delta, s)
    }
}

fn read_warp_kind(
    fi: &SbFrameInfo,
    b: &BlockPos,
    a: &BlockContext,
    l: &BlockContext,
    nb: &SbNb,
    mode: u8,
    ref0: i8,
    msac: &mut MsacContext,
) -> (r: u8)
    requires
        b.valid(*fi),
        b.bs.w4() >= 2,
        nb.p0.off < 64,
        nb.p1.off < 64,
    ensures
        (r as int, final(msac)@) == warp_kind(
            old(msac)@,
            *fi,
            *b,
            *a,
            *l,
            *nb,
            mode as int,
            ref0 as int,
        ),
        r == MotionMode::WarpCausal as u8 || r == MotionMode::WarpDelta as u8 || r
            == MotionMode::WarpExtend as u8,
{
    let delta: u8 = MotionMode::WarpDelta as u8;
    let causal: u8 = MotionMode::WarpCausal as u8;
    let extend: u8 = MotionMode::WarpExtend as u8;
    if mode != WARP_NEW_MV || !has_warp_neighbour(fi, b, a, l, ref0) {
        return delta;
    }
    let x0: u8 = neighbour_at(&a.motion_mode, &l.motion_mode, nb, 0);
    let x1: u8 = neighbour_at(&a.motion_mode, &l.motion_mode, nb, 1);
    let c0: usize = if x0 >= causal { 1 } else { 0 };
    let c1: usize = if x1 >= causal { 1 } else { 0 };
    let modes: u32 = fi.motion_modes as u32;
    if bit_set(modes, extend as u32) && msac.decode_bool_adapt(Cdf::WarpExtend(c0 + c1)) != 0 {
        return extend;
    }
    if bit_set(modes, causal as u32) && bit_set(modes, delta as u32) {
        let k: usize = if c0 + c1 > 0 { 1 } else { 0 };
        let k0: usize = if x0 == causal { 1 } else { 0 };
        let k1: usize = if x1 == causal { 1 } else { 0 };
        if msac.decode_bool_adapt(Cdf::WarpCausal(k + k0 + k1)) != 0 { causal } else { delta }
    } else if bit_set(modes, causal as u32) {
        causal
    } else {
        delta
    }
}

/// The index of the warp that a delta is added to, at most 3.
pub open spec fn warp_ref_index(s: Sym, n: int) -> (int, Sym)
    decreases 3 - n,
{
    if n >= 3 {
        (n, s)
    } else {
        let (more, s) = s.flag(Cdf::WarpRefIdx(n as usize));
        if more == 0 {
            (n, s)
        } else {
            warp_ref_index(s, n + 1)
        }
    }
}

fn read_warp_ref_index(msac: &mut MsacContext) -> (r: u8)
    ensures
        (r as int, final(msac)@) == warp_ref_index(old(msac)@, 0),
        r <= 3,
{
    let ghost s0 = msac@;
    let mut n: u8 = 0;
    while n < 3
        invariant
            n <= 3,
            s0 == old(msac)@,
            warp_ref_index(s0, 0) == warp_ref_index(msac@, n as int),
        decreases 3 - n,
    {
        if msac.decode_bool_adapt(Cdf::WarpRefIdx(n as usize)) == 0 {
            return n;
        }
        n = n + 1;
    }
    n
}

/// One entry of a warp delta, in steps of one or two.
pub open spec fn warp_delta_entry(s: Sym, fine: int, middle: bool) -> (int, Sym) {
    let idx = b2i(middle) as usize;
    let (v, s) = s.symbol(Cdf::WarpDeltaParam(0, idx), 7);
    let (v, s) = if v == 7 && fine != 0 {
        let (w, s) = s.symbol(Cdf::WarpDeltaParam(1, idx), 7);
        (v + w, s)
    } else {
        (v, s)
    };
    let step: int = if fine != 0 { 1 } else { 2 };
    if v == 0 {
        (0, s)
    } else {
        let (neg, s) = s.flag(Cdf::WarpDeltaSign);
        (if neg != 0 { -v * step } else { v * step }, s)
    }
}

fn read_warp_delta_entry(fine: u32, middle: bool, msac: &mut MsacContext) -> (r: i8)
    ensures
        (r as int, final(msac)@) == warp_delta_entry(old(msac)@, fine as int, middle),
        -14 <= r <= 14,
{
    let idx: usize = if middle { 1 } else { 0 };
    let mut v: i8 = msac.decode_symbol_adapt(Cdf::WarpDeltaParam(0, idx), 7) as i8;
    if v == 7 && fine != 0 {
        v = v + msac.decode_symbol_adapt(Cdf::WarpDeltaParam(1, idx), 7) as i8;
    }
    let step: i8 = if fine != 0 { 1 } else { 2 };
    if v == 0 {
        0
    } else if msac.decode_bool_adapt(Cdf::WarpDeltaSign) != 0 {
        -v * step
    } else {
        v * step
    }
}

/// Marks a warp delta of two entries.
pub const TWO_ENTRIES: i8 = -128;

/// Whether a warp delta is coded, and whether it has four entries.
pub open spec fn warp_delta_coded(fi: SbFrameInfo, x: InterSyntax) -> bool {
    &&& x.inter_mode == WARP_NEW_MV
    &&& x.motion_mode == MotionMode::WarpDelta as int
    &&& fi.six_param_warp_delta && x.warp_ref_idx == 1 || x.warp_ref_idx == 0
}

/// The block with its warp delta.
#[verifier::opaque]
pub open spec fn with_warp_delta(s: Sym, fi: SbFrameInfo, bs: BlockSize, x: InterSyntax) -> (
    InterSyntax,
    Sym,
) {
    if warp_delta_coded(fi, x) {
        let (fine, s) = s.flag(Cdf::WarpDeltaPrec(bs as usize));
        let (d0, s) = warp_delta_entry(s, fine, false);
        let (d1, s) = warp_delta_entry(s, fine, true);
        if fi.six_param_warp_delta && x.warp_ref_idx == 1 {
            let (d2, s) = warp_delta_entry(s, fine, true);
            let (d3, s) = warp_delta_entry(s, fine, false);
            (
                InterSyntax {
                    delta0: d0 as i8,
                    delta1: d1 as i8,
                    delta2: d2 as i8,
                    delta3: d3 as i8,
                    ..x
                },
                s,
            )
        } else {
            (
                InterSyntax { delta0: d0 as i8, delta1: d1 as i8, delta2: TWO_ENTRIES, ..x },
                s,
            )
        }
    } else {
        (x, s)
    }
}

fn read_warp_delta(fi: &SbFrameInfo, bs: BlockSize, x: &mut InterSyntax, msac: &mut MsacContext)
    ensures
        (*final(x), final(msac)@) == with_warp_delta(old(msac)@, *fi, bs, *old(x)),
        same_head(*final(x), *old(x)),
        final(x).motion_mode == old(x).motion_mode,
{
    proof {
        reveal(with_warp_delta);
    }
    let four: bool = fi.six_param_warp_delta && x.warp_ref_idx == 1;
    if x.inter_mode == WARP_NEW_MV && x.motion_mode == MotionMode::WarpDelta as u8 && (four
        || x.warp_ref_idx == 0) {
        let fine: u32 = msac.decode_bool_adapt(Cdf::WarpDeltaPrec(bs as usize));
        x.delta0 = read_warp_delta_entry(fine, false, msac);
        x.delta1 = read_warp_delta_entry(fine, true, msac);
        if four {
            x.delta2 = read_warp_delta_entry(fine, true, msac);
            x.delta3 = read_warp_delta_entry(fine, false, msac);
        } else {
            x.delta2 = TWO_ENTRIES;
        }
    }
}

/// The block with what its mode says of weights and of mixing with intra
/// prediction, or of its warp.
#[verifier::opaque]
pub open spec fn with_motion_mode(
    s: Sym,
    fi: SbFrameInfo,
    b: BlockPos,
    has_chroma: bool,
    is_tip: bool,
    a: BlockContext,
    l: BlockContext,
    nb: SbNb,
    x: InterSyntax,
) -> (InterSyntax, Sym) {
    let mode = x.inter_mode as int;
    if is_tip {
        (x, s)
    } else if mode <= NEW_MV {
        let ((v, c), s) = bawp_read(s, fi, b.bs, has_chroma, mode, x.amvd as int);
        let x = InterSyntax { bawp0: v as u8, bawp1: c as u8, ..x };
        if interintra_allowed(fi, b.bs, mode, v) {
            let group = SIZE_GROUP[b.bs as int] as int;
            let (on, s) = s.flag(Cdf::Interintra(group as usize));
            if on != 0 {
                let ((m, w), s) = interintra_read(s, group, min(b.bs.w4(), b.bs.h4()) > 1);
                (
                    InterSyntax {
                        motion_mode: MotionMode::InterIntra as u8,
                        interintra_mode: m as u8,
                        wedge_idx: w as i8,
                        ..x
                    },
                    s,
                )
            } else {
                (x, s)
            }
        } else {
            (x, s)
        }
    } else {
        let (kind, s) = warp_kind(s, fi, b, a, l, nb, mode, x.ref0 as int);
        let (idx, s) = if kind == MotionMode::WarpDelta as int {
            warp_ref_index(s, 0)
        } else {
            (0, s)
        };
        let (mvd, s) = if mode == WARP_MV && idx < 2 { s.flag(Cdf::WarpMvWithMvd) } else { (0, s) };
        (
            InterSyntax {
                motion_mode: kind as u8,
                warp_ref_idx: idx as u8,
                warpmv_with_mvd: mvd as u8,
                ..x
            },
            s,
        )
    }
}

#[verifier::spinoff_prover]
#[verifier::rlimit(60)]
fn read_motion_mode(
    fi: &SbFrameInfo,
    b: &BlockPos,
    has_chroma: bool,
    is_tip: bool,
    a: &BlockContext,
    l: &BlockContext,
    nb: &SbNb,
    x: &mut InterSyntax,
    msac: &mut MsacContext,
)
    requires
        b.valid(*fi),
        nb.p0.off < 64,
        nb.p1.off < 64,
        old(x).amvd <= 1,
        old(x).inter_mode >= WARP_MV && !is_tip ==> b.bs.w4() >= 2,
        old(x).motion_mode <= 4,
    ensures
        (*final(x), final(msac)@) == with_motion_mode(
            old(msac)@,
            *fi,
            *b,
            has_chroma,
            is_tip,
            *a,
            *l,
            *nb,
            *old(x),
        ),
        final(x).motion_mode <= 4,
        same_head(*final(x), *old(x)),
{
    proof {
        reveal(with_motion_mode);
    }
    if is_tip {
        return ;
    }
    let mode: u8 = x.inter_mode;
    let d: [u8; 4] = b.bs.dim();
    if mode <= NEW_MV {
        let (v, c) = read_bawp(fi, b.bs, has_chroma, mode, x.amvd, msac);
        x.bawp0 = v;
        x.bawp1 = c;
        if bit_set(fi.motion_modes as u32, MotionMode::InterIntra as u32) && v == 0 && b.bs.area()
            > 2 && d[0] <= 16 && d[1] <= 16 {
            let group: u8 = SIZE_GROUP[b.bs as usize];
            if msac.decode_bool_adapt(Cdf::Interintra(group as usize)) != 0 {
                let (m, w) = read_interintra(group, d[0] > 1 && d[1] > 1, msac);
                x.motion_mode = MotionMode::InterIntra as u8;
                x.interintra_mode = m;
                x.wedge_idx = w;
            }
        }
    } else {
        let kind: u8 = read_warp_kind(fi, b, a, l, nb, mode, x.ref0, msac);
        let idx: u8 = if kind == MotionMode::WarpDelta as u8 {
            read_warp_ref_index(msac)
        } else {
            0
        };
        x.motion_mode = kind;
        x.warp_ref_idx = idx;
        x.warpmv_with_mvd = if mode == WARP_MV && idx < 2 {
            msac.decode_bool_adapt(Cdf::WarpMvWithMvd) as u8
        } else {
            0
        };
    }
}

/// Whether a vector difference is coded.
pub open spec fn single_mvd_coded(x: InterSyntax) -> bool {
    x.inter_mode == NEW_MV || x.inter_mode == WARP_NEW_MV || x.inter_mode == WARP_MV
        && x.warpmv_with_mvd != 0
}

/// How the signs of the difference are found. The sign of the last component
/// is derived from the others in plain translation at the finer precisions.
pub open spec fn single_sign_rule(fi: SbFrameInfo, x: InterSyntax, y: int, xx: int) -> SignRule {
    let prec = x.mv_prec as int;
    let derive = x.amvd == 0 && x.inter_mode != WARP_MV && fi.mvd_sign_derive && x.motion_mode == 0
        && !fi.allow_screen_content_tools && fi.mv_precision != 3 && prec < 5;
    let nonzero = b2i(y != 0) + b2i(xx != 0);
    SignRule {
        derived: if derive && nonzero != 0 { nonzero as u8 } else { 3 },
        odd: x.amvd == 0 && odd_steps(y + xx, prec),
        seen: 0,
    }
}

/// The block with its vector difference.
#[verifier::opaque]
pub open spec fn with_single_mvd(s: Sym, fi: SbFrameInfo, x: InterSyntax) -> (InterSyntax, Sym) {
    if single_mvd_coded(x) {
        let ((y, xx), s) = mv_difference(s, x.amvd != 0, x.mv_prec as int);
        let ((y2, x2, _), s) = signed_pair(s, y, xx, single_sign_rule(fi, x, y, xx));
        (InterSyntax { mvd0: MvXY { y: y2 as i32, x: x2 as i32 }, ..x }, s)
    } else {
        (x, s)
    }
}

fn read_single_mvd(fi: &SbFrameInfo, x: &mut InterSyntax, msac: &mut MsacContext)
    requires
        0 <= old(x).mv_prec <= 6,
    ensures
        (*final(x), final(msac)@) == with_single_mvd(old(msac)@, *fi, *old(x)),
        same_head(*final(x), *old(x)),
        final(x).motion_mode == old(x).motion_mode,
{
    proof {
        reveal(with_single_mvd);
    }
    if x.inter_mode == NEW_MV || x.inter_mode == WARP_NEW_MV || (x.inter_mode == WARP_MV
        && x.warpmv_with_mvd != 0) {
        let prec: i32 = x.mv_prec as i32;
        let mv: MvXY = read_mv_difference(x.amvd != 0, prec, msac);
        let derive: bool = x.amvd == 0 && x.inter_mode != WARP_MV && fi.mvd_sign_derive
            && x.motion_mode == 0 && !fi.allow_screen_content_tools && fi.mv_precision != 3 && prec
            < 5;
        let ny: u8 = if mv.y != 0 { 1 } else { 0 };
        let nx: u8 = if mv.x != 0 { 1 } else { 0 };
        let mut rule: SignRule = SignRule {
            derived: if derive && ny + nx != 0 { ny + nx } else { 3 },
            odd: x.amvd == 0 && is_odd_steps(mv.y + mv.x, prec),
            seen: 0,
        };
        x.mvd0 = read_signs(mv, &mut rule, msac);
    }
}

/// The block with the intra part that is mixed into a warped one.
#[verifier::opaque]
pub open spec fn with_warp_interintra(s: Sym, bs: BlockSize, x: InterSyntax) -> (InterSyntax, Sym) {
    if x.inter_mode == WARP_MV && min(bs.w4(), bs.h4()) >= 2 && max(bs.w4(), bs.h4()) <= 16 {
        let group = SIZE_GROUP[bs as int] as int;
        let (on, s) = s.flag(Cdf::WarpInterintra(group as usize));
        if on != 0 {
            let ((m, w), s) = interintra_read(s, group, true);
            (InterSyntax { warp_ii: 1, interintra_mode: m as u8, wedge_idx: w as i8, ..x }, s)
        } else {
            (x, s)
        }
    } else {
        (x, s)
    }
}

fn read_warp_interintra(bs: BlockSize, x: &mut InterSyntax, msac: &mut MsacContext)
    requires
        bs != BlockSize::Invalid,
    ensures
        (*final(x), final(msac)@) == with_warp_interintra(old(msac)@, bs, *old(x)),
        same_head(*final(x), *old(x)),
        final(x).motion_mode == old(x).motion_mode,
{
    proof {
        reveal(with_warp_interintra);
    }
    let d: [u8; 4] = bs.dim();
    if x.inter_mode == WARP_MV && d[0] >= 2 && d[1] >= 2 && d[0] <= 16 && d[1] <= 16 {
        let group: u8 = SIZE_GROUP[bs as usize];
        if msac.decode_bool_adapt(Cdf::WarpInterintra(group as usize)) != 0 {
            let (m, w) = read_interintra(group, true, msac);
            x.warp_ii = 1;
            x.interintra_mode = m;
            x.wedge_idx = w;
        }
    }
}

/// The filter for positions between pixels.
#[verifier::opaque]
pub open spec fn single_filter(
    s: Sym,
    fi: SbFrameInfo,
    bs: BlockSize,
    is_tip: bool,
    a: BlockContext,
    l: BlockContext,
    nb: SbNb,
    x: InterSyntax,
) -> (int, Sym) {
    if x.ref0 == TIP_FRAME {
        (2, s)
    } else if fi.subpel_filter_mode != 4 {
        (fi.subpel_filter_mode as int, s)
    } else if !is_tip && x.inter_mode <= NEW_MV && (x.inter_mode != GLOBAL_MV || min(
        bs.w4(),
        bs.h4(),
    ) == 1) {
        s.symbol(Cdf::Filter(single_filter_ctx(a, l, nb, x.ref0 as int) as usize), 2)
    } else {
        (0, s)
    }
}

fn read_single_filter(
    fi: &SbFrameInfo,
    bs: BlockSize,
    is_tip: bool,
    a: &BlockContext,
    l: &BlockContext,
    nb: &SbNb,
    x: &InterSyntax,
    msac: &mut MsacContext,
) -> (r: u8)
    requires
        bs != BlockSize::Invalid,
        a.wf(),
        l.wf(),
        nb.p0.off < 64,
        nb.p1.off < 64,
        fi.subpel_filter_mode <= 4,
    ensures
        (r as int, final(msac)@) == single_filter(
            old(msac)@,
            *fi,
            bs,
            is_tip,
            *a,
            *l,
            *nb,
            *x,
        ),
        r <= 3,
{
    proof {
        reveal(single_filter);
    }
    let d: [u8; 4] = bs.dim();
    if x.ref0 == TIP_FRAME {
        2
    } else if fi.subpel_filter_mode != 4 {
        fi.subpel_filter_mode
    } else if !is_tip && x.inter_mode <= NEW_MV && (x.inter_mode != GLOBAL_MV || d[0] == 1 || d[1]
        == 1) {
        let ctx: usize = get_single_filter_ctx(a, l, nb, x.ref0);
        msac.decode_symbol_adapt(Cdf::Filter(ctx), 2) as u8
    } else {
        0
    }
}

/// The reference of a block that has one.
pub open spec fn single_reference(s: Sym, fi: SbFrameInfo, fixed: bool, is_tip: bool, nx: NxInter) -> (
    int,
    Sym,
) {
    if fixed {
        (0, s)
    } else if is_tip {
        (TIP_FRAME as int, s)
    } else {
        single_ref(s, nx, fi.n_ref_frames as int, 0, frame_refs(nx))
    }
}

/// All of a block that has one reference.
pub open spec fn single_syntax(
    s: Sym,
    fi: SbFrameInfo,
    b: BlockPos,
    has_chroma: bool,
    fixed: bool,
    is_tip: bool,
    a: BlockContext,
    l: BlockContext,
    nx: NxInter,
    nb: SbNb,
) -> (InterSyntax, Sym) {
    let (r, s) = single_reference(s, fi, fixed, is_tip, nx);
    let ctx = snglref_ctx(fi, b, a, l, r);
    let (mode, s) = single_mode(s, fi, b, fixed, is_tip, r as i8, ctx);
    let (amvd, s) = if fi.adaptive_mvd && mode == NEW_MV {
        s.flag(Cdf::Amvd(4, amvd_ctx(nx, r) as usize))
    } else {
        (0, s)
    };
    let x = InterSyntax {
        ref0: r as i8,
        ref1: (-1int) as i8,
        inter_mode: mode as u8,
        amvd: amvd as u8,
        ..blank_inter()
    };
    let (x, s) = with_motion_mode(s, fi, b, has_chroma, is_tip, a, l, nb, x);
    let (drl, s) = if mode != WARP_MV && mode != GLOBAL_MV {
        drl_index(
            s,
            if is_tip { DrlKind::Tip } else { DrlKind::Plain(ctx as usize) },
            0,
            fi.max_drl_bits as int,
        )
    } else {
        (0, s)
    };
    let flexible = amvd == 0 && (mode == NEW_MV || mode == WARP_NEW_MV);
    let ((prec, def), s) = mv_precision(s, fi, flexible, a, l, nb);
    let x = InterSyntax { drl0: drl as u8, mv_prec: prec as i8, mvprec_def: def as u8, ..x };
    let (x, s) = with_single_mvd(s, fi, x);
    let (x, s) = with_warp_delta(s, fi, b.bs, x);
    let (x, s) = with_warp_interintra(s, b.bs, x);
    let (filter, s) = single_filter(s, fi, b.bs, is_tip, a, l, nb, x);
    (InterSyntax { filter: filter as u8, ..x }, s)
}

/// The limits of the frame-level values that inter syntax depends on.
pub open spec fn inter_valid(fi: SbFrameInfo) -> bool {
    &&& fi.n_ref_frames <= 7
    &&& fi.num_same_ref_comp <= 7
    &&& fi.mv_precision <= 3
    &&& fi.subpel_filter_mode <= 4
}

#[verifier::rlimit(30)]
pub fn read_single(
    fi: &SbFrameInfo,
    b: &BlockPos,
    has_chroma: bool,
    fixed: bool,
    is_tip: bool,
    a: &BlockContext,
    l: &BlockContext,
    nx: &NxInter,
    nb: &SbNb,
    msac: &mut MsacContext,
) -> (r: InterSyntax)
    requires
        b.valid(*fi),
        inter_valid(*fi),
        a.wf(),
        l.wf(),
        nx.valid(),
        nb.p0.off < 64,
        nb.p1.off < 64,
    ensures
        (r, final(msac)@) == single_syntax(
            old(msac)@,
            *fi,
            *b,
            has_chroma,
            fixed,
            is_tip,
            *a,
            *l,
            *nx,
            *nb,
        ),
        r.valid(),
{
    let mut x: InterSyntax = new_inter();
    x.ref0 = if fixed {
        0
    } else if is_tip {
        TIP_FRAME
    } else {
        read_single_ref(nx, fi.n_ref_frames, msac)
    };
    x.ref1 = -1;
    let ctx: usize = get_snglref_ctx(fi, b, a, l, x.ref0);
    let mode: u8 = read_single_mode(fi, b, fixed, is_tip, x.ref0, ctx, msac);
    x.inter_mode = mode;
    if fi.adaptive_mvd && mode == NEW_MV {
        let c: usize = find_amvd_ctx(nx, x.ref0);
        x.amvd = msac.decode_bool_adapt(Cdf::Amvd(4, c)) as u8;
    }
    read_motion_mode(fi, b, has_chroma, is_tip, a, l, nb, &mut x, msac);
    if mode != WARP_MV && mode != GLOBAL_MV {
        let kind: DrlKind = if is_tip { DrlKind::Tip } else { DrlKind::Plain(ctx) };
        x.drl0 = read_drl_index(kind, 0, fi.max_drl_bits, msac);
    }
    let flexible: bool = x.amvd == 0 && (mode == NEW_MV || mode == WARP_NEW_MV);
    let (prec, def) = read_mv_precision(fi, flexible, a, l, nb, msac);
    x.mv_prec = prec as i8;
    x.mvprec_def = def;
    read_single_mvd(fi, &mut x, msac);
    read_warp_delta(fi, b.bs, &mut x, msac);
    read_warp_interintra(b.bs, &mut x, msac);
    x.filter = read_single_filter(fi, b.bs, is_tip, a, l, nb, &x, msac);
    x
}

/// A single reference is the number of flags that were not set before the
/// first one that was; the last reference needs none.
pub proof fn law_reference_counts_passed_ones(s: Sym, nx: NxInter, n: int, i: int, rem: int)
    requires
        0 <= i < n,
    ensures
        ({
            let (r, t) = single_ref(s, nx, n, i, rem);
            let k = s.asked.len() as int;
            &&& i <= r < n
            &&& t.replies == s.replies
            &&& forall|j: int| 0 <= j < k ==> #[trigger] t.asked[j] == s.asked[j]
            &&& forall|j: int| k <= j < k + r - i ==> #[trigger] t.got(j) == 0
            &&& r < n - 1 ==> t.got(k + r - i) == 1 && t.asked.len() == k + r - i + 1
            &&& r == n - 1 ==> t.asked.len() == k + r - i
        }),
    decreases n - i,
{
    if i < n - 1 {
        let cur = ref_count(nx, i);
        let (taken, s1) = s.flag(Cdf::SingleRef(ref_ctx(cur, rem - cur) as usize, i as usize));
        if taken == 0 {
            law_reference_counts_passed_ones(s1, nx, n, i + 1, rem - cur);
            let t = single_ref(s1, nx, n, i + 1, rem - cur).1;
            let k = s.asked.len() as int;
            assert(t.asked[k] == s1.asked[k]);
            assert(t.got(k) == 0);
            assert forall|j: int| 0 <= j < k implies #[trigger] t.asked[j] == s.asked[j] by {
                assert(s1.asked[j] == s.asked[j]);
            }
        }
    }
}

/// The mode of a block with one reference. A fixed segment has global motion;
/// an interpolated block is near or new; otherwise a flag tells the warped
/// modes, and a second one which of the two codes a difference of its own.
pub proof fn law_single_mode_follows_its_flags(
    s: Sym,
    fi: SbFrameInfo,
    b: BlockPos,
    ref0: i8,
    ctx: int,
)
    ensures
        ({
            let (f, t0) = single_mode(s, fi, b, true, false, ref0, ctx);
            let (p, t1) = single_mode(s, fi, b, false, true, ref0, ctx);
            let (m, t) = single_mode(s, fi, b, false, false, ref0, ctx);
            let k = s.asked.len() as int;
            let warps = b.bs.w4() >= 2 && b.bs.h4() >= 2 && fi.warp_motion;
            &&& f == GLOBAL_MV && t0 == s
            &&& t1.asked[k] == Request::Bool(Cdf::TipMode)
            &&& t1.got(k) == 0 ==> p == NEAR_MV
            &&& t1.got(k) == 1 ==> p == NEW_MV
            &&& !warps ==> m == NEAR_MV + t.got(k) && t.asked[k] == Request::Symbol(
                Cdf::InterMode(ctx as usize),
                2,
            )
            &&& warps ==> t.asked[k + 1] == Request::Bool(Cdf::Warp(t.got(k) as usize))
            &&& warps && t.got(k + 1) == 0 ==> m == NEAR_MV + t.got(k + 2)
            &&& warps && t.got(k + 1) == 1 && fi.force_integer_mv ==> m == WARP_MV
            &&& warps && t.got(k + 1) == 1 && !fi.force_integer_mv ==> m == (if t.got(k + 2) == 1 {
                WARP_MV as int
            } else {
                WARP_NEW_MV as int
            })
        }),
{
    reveal(single_mode);
}

/// One entry of a warp delta: symbols count steps, fine ones may go on in a
/// second symbol and coarse ones count double. A set flag makes it negative.
pub proof fn law_warp_delta_counts_steps(s: Sym, middle: bool)
    ensures
        ({
            let (f, t) = warp_delta_entry(s, 1, middle);
            let (c, u) = warp_delta_entry(s, 0, middle);
            let k = s.asked.len() as int;
            &&& t.got(k) == 0 ==> f == 0
            &&& 1 <= t.got(k) <= 6 ==> f == (if t.got(k + 1) == 1 { -t.got(k) } else { t.got(k) })
            &&& t.got(k) == 7 && 7 + t.got(k + 1) > 0 ==> f == (if t.got(k + 2) == 1 {
                -(7 + t.got(k + 1))
            } else {
                7 + t.got(k + 1)
            })
            &&& u.got(k) == 0 ==> c == 0
            &&& u.got(k) > 0 ==> c == (if u.got(k + 1) == 1 { -2 * u.got(k) } else { 2 * u.got(k) })
        }),
{
}

/// The entries of a warp delta come in their order; four where the block asks
/// for them and two otherwise. A block that codes none keeps what it has.
pub proof fn law_warp_deltas_come_in_order(s: Sym, fi: SbFrameInfo, bs: BlockSize, x: InterSyntax)
    ensures
        ({
            let (y, t) = with_warp_delta(s, fi, bs, x);
            let coded = x.inter_mode == WARP_NEW_MV && x.motion_mode == MotionMode::WarpDelta as int
                && (fi.six_param_warp_delta && x.warp_ref_idx == 1 || x.warp_ref_idx == 0);
            let (fine, s1) = s.flag(Cdf::WarpDeltaPrec(bs as usize));
            let (e0, s2) = warp_delta_entry(s1, fine, false);
            let (e1, s3) = warp_delta_entry(s2, fine, true);
            let (e2, s4) = warp_delta_entry(s3, fine, true);
            let (e3, s5) = warp_delta_entry(s4, fine, false);
            let four = fi.six_param_warp_delta && x.warp_ref_idx == 1;
            &&& !coded ==> y == x && t == s
            &&& coded ==> y.delta0 == e0 as i8 && y.delta1 == e1 as i8
            &&& coded && four ==> y.delta2 == e2 as i8 && y.delta3 == e3 as i8 && t == s5
            &&& coded && !four ==> y.delta2 == -128 && t == s3
            &&& y.ref0 == x.ref0 && y.inter_mode == x.inter_mode && y.mvd0 == x.mvd0
        }),
{
    reveal(with_warp_delta);
}

/// The weights of adaptive prediction: off, implied, or an explicit one, told
/// by flags; chroma has a flag of its own.
pub proof fn law_weights_are_flagged(
    s: Sym,
    fi: SbFrameInfo,
    bs: BlockSize,
    chroma: bool,
    mode: int,
    amvd: int,
)
    requires
        0 <= amvd <= 1,
    ensures
        ({
            let ((v, c), t) = bawp_read(s, fi, bs, chroma, mode, amvd);
            let k = s.asked.len() as int;
            let on = fi.bawp && mode != GLOBAL_MV && bs.w4() >= 2 && bs.h4() >= 2;
            let e = t.asked.len() - 1;
            &&& !on ==> v == 0 && c == 0 && t == s
            &&& on ==> t.asked[k] == Request::Bool(Cdf::Bawp(0)) && (v == 0 <==> t.got(k) == 0)
            &&& on && t.got(k) == 0 ==> c == 0
            &&& on && t.got(k) == 1 ==> (v == 1 <==> t.got(k + 1) == 0)
            &&& on && t.got(k) == 1 && t.got(k + 1) == 1 ==> v % 2 == t.got(k + 2) && v >= 2 && v / 4
                == (if mode == NEW_MV { 2 - amvd } else { 0 })
            &&& on && t.got(k) == 1 && chroma ==> t.asked[e] == Request::Bool(Cdf::Bawp(1)) && c
                == t.got(e)
            &&& !chroma ==> c == 0
        }),
{
}

/// What mixes intra prediction into a block: its mode, and its wedge where one
/// is flagged.
pub proof fn law_mixed_blocks_name_mode_and_wedge(s: Sym, group: int, wedges: bool)
    ensures
        ({
            let ((m, w), t) = interintra_read(s, group, wedges);
            let k = s.asked.len() as int;
            &&& m == t.got(k)
            &&& t.asked[k] == Request::Symbol(Cdf::InterintraMode(group as usize), 3)
            &&& !wedges ==> w == -1 && t.asked.len() == k + 1
            &&& wedges ==> t.asked[k + 1] == Request::Bool(Cdf::InterintraWedge)
            &&& wedges && t.got(k + 1) == 0 ==> w == -1
            &&& wedges && t.got(k + 1) == 1 ==> w == wedge_idx(
                s.push(t.asked[k]).push(t.asked[k + 1]),
            ).0 && t.asked.len() == k + 5
        }),
{
}

/// How the warp of a block is found: a delta where no neighbour has the
/// reference; otherwise a flag tells that a neighbour is extended, and another
/// one that the warp follows from the samples around the block.
pub proof fn law_warp_kind_follows_its_flags(
    s: Sym,
    fi: SbFrameInfo,
    b: BlockPos,
    a: BlockContext,
    l: BlockContext,
    nb: SbNb,
    mode: int,
    ref0: int,
)
    ensures
        ({
            let (r, t) = warp_kind(s, fi, b, a, l, nb, mode, ref0);
            let k = s.asked.len() as int;
            let e = t.asked.len() - 1;
            let extend = bit_of(fi.motion_modes as int, 4);
            let causal = bit_of(fi.motion_modes as int, 2);
            let delta = bit_of(fi.motion_modes as int, 3);
            let free = mode == WARP_NEW_MV && warp_neighbour(fi, b, a, l, ref0);
            &&& !free ==> r == MotionMode::WarpDelta as int && t == s
            &&& free && extend ==> (t.asked[k] matches Request::Bool(Cdf::WarpExtend(_))) && (
            t.got(k) == 1 <==> r == MotionMode::WarpExtend as int)
            &&& free && !extend ==> r != MotionMode::WarpExtend as int
            &&& free && r != MotionMode::WarpExtend as int && causal && delta ==> (
            t.asked[e] matches Request::Bool(Cdf::WarpCausal(_))) && (t.got(e) == 1 <==> r
                == MotionMode::WarpCausal as int)
            &&& free && r != MotionMode::WarpExtend as int && !(causal && delta) ==> (r
                == MotionMode::WarpCausal as int <==> causal)
        }),
{
}

/// A warp delta refers to the warp whose index is the number of set flags, up
/// to three.
pub proof fn law_warp_reference_counts_flags(s: Sym, n: int)
    requires
        0 <= n <= 3,
    ensures
        ({
            let (r, t) = warp_ref_index(s, n);
            let k = s.asked.len() as int;
            &&& n <= r <= 3
            &&& t.replies == s.replies
            &&& forall|j: int| 0 <= j < k ==> #[trigger] t.asked[j] == s.asked[j]
            &&& forall|j: int| k <= j < k + r - n ==> #[trigger] t.got(j) == 1
            &&& r < 3 ==> t.got(k + r - n) == 0
        }),
    decreases 3 - n,
{
    if n < 3 {
        let (more, s1) = s.flag(Cdf::WarpRefIdx(n as usize));
        if more != 0 {
            law_warp_reference_counts_flags(s1, n + 1);
            let t = warp_ref_index(s1, n + 1).1;
            let k = s.asked.len() as int;
            assert(t.asked[k] == s1.asked[k]);
            assert(t.got(k) == 1);
            assert forall|j: int| 0 <= j < k implies #[trigger] t.asked[j] == s.asked[j] by {
                assert(s1.asked[j] == s.asked[j]);
            }
        }
    }
}

/// A difference is coded for the new modes and for the warped one that says
/// so: its magnitudes come first, then its signs, the vertical one before the
/// horizontal one.
pub proof fn law_single_difference_has_magnitudes_and_signs(
    s: Sym,
    fi: SbFrameInfo,
    x: InterSyntax,
)
    requires
        0 <= x.mv_prec <= 6,
    ensures
        ({
            let (r, t) = with_single_mvd(s, fi, x);
            let coded = x.inter_mode == NEW_MV || x.inter_mode == WARP_NEW_MV || (x.inter_mode
                == WARP_MV && x.warpmv_with_mvd != 0);
            let ((y, xx), s1) = mv_difference(s, x.amvd != 0, x.mv_prec as int);
            let ((sy, sx, _), s2) = signed_pair(s1, y, xx, single_sign_rule(fi, x, y, xx));
            &&& !coded ==> r == x && t == s
            &&& coded ==> r.mvd0 == (MvXY { y: sy as i32, x: sx as i32 }) && t == s2
            &&& r.ref0 == x.ref0 && r.inter_mode == x.inter_mode && r.mvd1 == x.mvd1
        }),
{
    reveal(with_single_mvd);
}

/// The sign that is not coded is that of the last component, and it is negative
/// where the magnitudes add up to an odd number of steps. No sign is left out
/// for adaptive differences, warped blocks, or at the finest precisions.
pub proof fn law_last_sign_is_the_parity(fi: SbFrameInfo, x: InterSyntax, y: int, h: int)
    requires
        y > 0 || h > 0,
        y >= 0,
        h >= 0,
        x.mv_prec == 3,
        x.amvd == 0,
    ensures
        ({
            let r = single_sign_rule(fi, x, y, h);
            let derives = fi.mvd_sign_derive && x.inter_mode != WARP_MV && x.motion_mode == 0
                && !fi.allow_screen_content_tools && fi.mv_precision != 3;
            &&& r.seen == 0
            &&& derives && y > 0 && h > 0 ==> r.derived == 2
            &&& derives && (y == 0 || h == 0) ==> r.derived == 1
            &&& !derives ==> r.derived > 2
            &&& r.odd <==> (y + h) / 8 % 2 == 1
        }),
{
    assert(crate::intops::p2(3) == 8);
}

/// The interpolation filter of a block with one reference.
pub proof fn law_single_filter(
    s: Sym,
    fi: SbFrameInfo,
    bs: BlockSize,
    is_tip: bool,
    a: BlockContext,
    l: BlockContext,
    nb: SbNb,
    x: InterSyntax,
)
    ensures
        ({
            let (f, t) = single_filter(s, fi, bs, is_tip, a, l, nb, x);
            let k = s.asked.len() as int;
            &&& x.ref0 == TIP_FRAME ==> f == 2 && t == s
            &&& x.ref0 != TIP_FRAME && fi.subpel_filter_mode != 4 ==> f == fi.subpel_filter_mode && t
                == s
            &&& t.asked.len() > k ==> f == t.got(k) && fi.subpel_filter_mode == 4
            &&& x.ref0 != TIP_FRAME && fi.subpel_filter_mode == 4 && x.inter_mode > NEW_MV ==> f == 0
            &&& x.ref0 != TIP_FRAME && fi.subpel_filter_mode == 4 && !is_tip && (x.inter_mode
                == NEAR_MV || x.inter_mode == NEW_MV) ==> t.asked.len() == k + 1
        }),
{
    reveal(single_filter);
}

/// Inter and intra prediction are mixed in blocks of more than two units and
/// of at most 64 pixels each way, where the frame mixes them and no weights are
/// coded; not in blocks that take over a warp.
pub proof fn law_mixing_is_for_plain_blocks(fi: SbFrameInfo, bs: BlockSize, mode: int, bawp: int)
    requires
        bs != BlockSize::Invalid,
    ensures
        interintra_allowed(fi, bs, mode, bawp) ==> bawp == 0 && mode <= NEW_MV && bs.w4() <= 16
            && bs.h4() <= 16 && bs != BlockSize::Bs4x4 && bs != BlockSize::Bs8x4 && bs
            != BlockSize::Bs4x8 && bit_of(fi.motion_modes as int, 1),
        bawp == 0 && mode <= NEW_MV && 2 <= bs.w4() <= 16 && 2 <= bs.h4() <= 16 && bit_of(
            fi.motion_modes as int,
            1,
        ) ==> interintra_allowed(fi, bs, mode, bawp),
{
    reveal(BlockSize::w4);
    reveal(BlockSize::h4);
    let (w, h) = (bs.w4(), bs.h4());
    assert(w >= 2 && h >= 2 ==> w * h >= 4) by (nonlinear_arith);
    assert(w == 1 ==> w * h == h) by (nonlinear_arith);
    assert(h == 1 ==> w * h == w) by (nonlinear_arith);
}

} // verus!
