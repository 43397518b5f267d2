//! The motion of a block: its vectors and its warp, from what was coded for it
//! and from the candidates that it starts from.
use vstd::prelude::*;

use crate::blockdec::Leaf;
use crate::decodeb::BlockSyntax;
use crate::env::{
    check_gmv, check_warpmv, get_gmv_2d, get_warpmv_2d, gmv_2d, gmv_fits, warp_class, warp_type,
    warpmv_2d, warpmv_fits,
};
use crate::frameinfo::SbFrameInfo;
use crate::headers::{MvHeader, WarpedMotionParams, WarpedMotionType};
use crate::interplan::InterFrame;
use crate::intops::{imin, min};
use crate::levels::{
    BlockSize, MotionMode, Mv, MvXY, GLOBAL_MV, GLOBAL_MV_GLOBAL_MV, NEAR_MV, NEAR_MV_NEAR_MV,
    NEAR_MV_NEW_MV, NEW_MV, OPFL_JOINT_NEW_MV, TIP_FRAME, WARP_MV,
};
use crate::msac::{unfolded, CandPart, FitPart, MsacContext, Request, Search, Sym};
use crate::mvresolve::{
    apply_warp_delta, cand_valid, copy_vector, delta_matrix, extend_site, find_extend_site,
    pair_vectors, resolve_copy, resolve_pair, resolve_single, single_vector, small_mv, ExtendSite,
};
use crate::warp::{
    derive_warpmv, extend_warpmv, extended_from, extended_warp, fitted_kind, fitted_type, warp_of,
    warp_samples, MvTile, WarpSample, WarpSite,
};

verus! {

/// What the motion of the blocks of a frame depends on.
pub struct MotionFrame {
    /// The global motion of each reference.
    pub gmv: [WarpedMotionParams; 7],
    pub mv_header: MvHeader,
    /// The size of the frame in units.
    pub iw4: i32,
    pub ih4: i32,
    /// Whether the motion of earlier blocks is banked.
    pub refmv_bank: bool,
    /// Whether motion is kept for later frames.
    pub kept: bool,
    pub inter: InterFrame,
}

impl MotionFrame {
    pub open spec fn valid(self) -> bool {
        &&& 0 <= self.inter.ss_hor <= 1
        &&& 0 <= self.inter.ss_ver <= 1
        &&& 0 <= self.inter.fw
        &&& 0 <= self.inter.fh
    }
}

/// The motion of a block: the vectors to its references, how much the second
/// one weighs, the vector of a copy, and the last warp that was derived.
#[derive(Debug, Clone, Copy)]
pub struct BlockMotion {
    pub mv0: MvXY,
    pub mv1: MvXY,
    pub weight: i8,
    pub copy: MvXY,
    pub warp: WarpedMotionParams,
    pub affine: bool,
}

/// No part of a vector is longer, so that sums of some of them take 32 bits.
pub const MV_LIMIT: i32 = 0x1000_0000;

/// The vector can be kept.
pub open spec fn mv_fits(y: int, x: int) -> bool {
    -MV_LIMIT <= y <= MV_LIMIT && -MV_LIMIT <= x <= MV_LIMIT
}

fn check_mv(v: MvXY) -> (r: bool)
    ensures
        r == mv_fits(v.y as int, v.x as int),
{
    -MV_LIMIT <= v.y && v.y <= MV_LIMIT && -MV_LIMIT <= v.x && v.x <= MV_LIMIT
}

fn check_small(v: MvXY) -> (r: bool)
    ensures
        r == small_mv(v),
{
    -0x1000_0000 <= v.y && v.y <= 0x1000_0000 && -0x1000_0000 <= v.x && v.x <= 0x1000_0000
}

pub open spec fn mv_of(v: (int, int)) -> MvXY {
    MvXY { y: v.0 as i32, x: v.1 as i32 }
}

/// The matrix with the given entries.
pub open spec fn matrix_of(s: Seq<i32>) -> [i32; 6] {
    choose|a: [i32; 6]| #[trigger] a@ == s
}

proof fn lemma_matrix_of(a: [i32; 6])
    ensures
        matrix_of(a@) == a,
{
    let b = matrix_of(a@);
    assert(a@ == a@);
    assert(b@ == a@);
    assert(b =~= a);
}

/// The coded differences of a warp.
pub open spec fn deltas_of(x: BlockSyntax) -> [i8; 4] {
    choose|a: [i8; 4]| #[trigger]
        a@ == seq![x.inter.delta0, x.inter.delta1, x.inter.delta2, x.inter.delta3]
}

fn list_deltas(x: &BlockSyntax) -> (r: [i8; 4])
    ensures
        r == deltas_of(*x),
{
    let r: [i8; 4] = [x.inter.delta0, x.inter.delta1, x.inter.delta2, x.inter.delta3];
    proof {
        assert(r@ =~= seq![x.inter.delta0, x.inter.delta1, x.inter.delta2, x.inter.delta3]);
        let b = deltas_of(*x);
        assert(b@ == r@);
        assert(b =~= r);
    }
    r
}

/// Vector `n` of a candidate.
pub open spec fn cand_vector(s: Sym, q: Search, i: u8, n: u8) -> ((int, int), Sym) {
    let (y, s) = s.candidate(q, i, CandPart::Y(n));
    let (x, s) = s.candidate(q, i, CandPart::X(n));
    ((y, x), s)
}

fn read_vector(msac: &mut MsacContext, q: Search, i: u8, n: u8) -> (r: MvXY)
    ensures
        ((r.y as int, r.x as int), final(msac)@) == cand_vector(old(msac)@, q, i, n),
{
    let y: i32 = msac.candidate(q, i, CandPart::Y(n));
    let x: i32 = msac.candidate(q, i, CandPart::X(n));
    MvXY { y, x }
}

/// The warp of a candidate.
pub open spec fn cand_warp(s: Sym, q: Search, i: u8) -> ([i32; 6], Sym) {
    let (a, s) = s.candidate(q, i, CandPart::Warp(0));
    let (b, s) = s.candidate(q, i, CandPart::Warp(1));
    let (c, s) = s.candidate(q, i, CandPart::Warp(2));
    let (d, s) = s.candidate(q, i, CandPart::Warp(3));
    let (e, s) = s.candidate(q, i, CandPart::Warp(4));
    let (f, s) = s.candidate(q, i, CandPart::Warp(5));
    (matrix_of(seq![a as i32, b as i32, c as i32, d as i32, e as i32, f as i32]), s)
}

fn read_warp(msac: &mut MsacContext, q: Search, i: u8) -> (r: [i32; 6])
    ensures
        (r, final(msac)@) == cand_warp(old(msac)@, q, i),
{
    let a: i32 = msac.candidate(q, i, CandPart::Warp(0));
    let b: i32 = msac.candidate(q, i, CandPart::Warp(1));
    let c: i32 = msac.candidate(q, i, CandPart::Warp(2));
    let d: i32 = msac.candidate(q, i, CandPart::Warp(3));
    let e: i32 = msac.candidate(q, i, CandPart::Warp(4));
    let f: i32 = msac.candidate(q, i, CandPart::Warp(5));
    let r: [i32; 6] = [a, b, c, d, e, f];
    proof {
        assert(r@ =~= seq![a, b, c, d, e, f]);
        lemma_matrix_of(r);
    }
    r
}

/// A warp and whether it is affine.
pub type LocalWarp = (WarpedMotionParams, bool);

/// A warp of which all but the shift is known. The shift, and whether the warp
/// can be used, are fitted to the block.
pub open spec fn shifted_warp(s: Sym, m: Seq<i32>) -> (Option<LocalWarp>, Sym) {
    let (a, s) = s.fit_entry(0);
    let (b, s) = s.fit_entry(1);
    let (shears, s) = s.fit_flag(FitPart::Shears);
    let (affine, s) = s.fit_flag(FitPart::Affine);
    let k = matrix_of(m.update(0, a as i32).update(1, b as i32));
    if k[4] == i32::MIN {
        (None, s)
    } else {
        (
            Some(
                (
                    WarpedMotionParams {
                        wm_type: fitted_kind(true, shears, warp_class(k)),
                        matrix: k,
                    },
                    affine,
                ),
            ),
            s,
        )
    }
}

fn read_shifted(msac: &mut MsacContext, m: &[i32; 6]) -> (r: Option<LocalWarp>)
    ensures
        (r, final(msac)@) == shifted_warp(old(msac)@, m@),
{
    let a: i32 = msac.fit_entry(0);
    let b: i32 = msac.fit_entry(1);
    let shears: bool = msac.fit_flag(FitPart::Shears);
    let affine: bool = msac.fit_flag(FitPart::Affine);
    let k: [i32; 6] = [a, b, m[2], m[3], m[4], m[5]];
    proof {
        assert(k@ =~= m@.update(0, a).update(1, b));
        lemma_matrix_of(k);
    }
    if k[4] == i32::MIN {
        return None;
    }
    Some((WarpedMotionParams { wm_type: fitted_type(true, shears, warp_type(&k)), matrix: k }, affine))
}

/// A warp that is fitted to the motion of the neighbours of the block.
pub open spec fn causal_warp(s: Sym) -> (Option<LocalWarp>, Sym) {
    let (found, s) = s.fit_flag(FitPart::Found);
    let (c, s) = s.fit_entry(2);
    let (d, s) = s.fit_entry(3);
    let (e, s) = s.fit_entry(4);
    let (f, s) = s.fit_entry(5);
    let (w, s) = shifted_warp(s, seq![0i32, 0, c as i32, d as i32, e as i32, f as i32]);
    (
        match w {
            None => None,
            Some((p, affine)) => Some(
                (
                    WarpedMotionParams {
                        wm_type: if found { p.wm_type } else { WarpedMotionType::Invalid },
                        ..p
                    },
                    affine,
                ),
            ),
        },
        s,
    )
}

fn read_causal(msac: &mut MsacContext) -> (r: Option<LocalWarp>)
    ensures
        (r, final(msac)@) == causal_warp(old(msac)@),
{
    let found: bool = msac.fit_flag(FitPart::Found);
    let c: i32 = msac.fit_entry(2);
    let d: i32 = msac.fit_entry(3);
    let e: i32 = msac.fit_entry(4);
    let f: i32 = msac.fit_entry(5);
    let m: [i32; 6] = [0, 0, c, d, e, f];
    assert(m@ =~= seq![0i32, 0, c, d, e, f]);
    match read_shifted(msac, &m) {
        None => None,
        Some((mut p, affine)) => {
            if !found {
                p.wm_type = WarpedMotionType::Invalid;
            }
            Some((p, affine))
        },
    }
}

/// The block as the derivation of a warp from its neighbours sees it.
pub open spec fn warp_site(fi: SbFrameInfo, f: Leaf) -> WarpSite {
    WarpSite {
        bx: f.bx,
        by: f.by,
        have_top: f.pos().have_top(fi),
        have_left: f.pos().have_left(fi),
        bw4: f.lbs.w4() as i32,
        w4: min(f.lbs.w4(), fi.bw - f.bx) as i32,
        h4: min(f.lbs.h4(), fi.bh - f.by) as i32,
        sb_step: fi.sb_step,
        col_end: fi.tile_col_end,
    }
}

/// The neighbours that the warp of a block is fitted to, if it is.
pub open spec fn block_samples(fi: SbFrameInfo, f: Leaf, x: BlockSyntax, t: MvTile) -> Seq<WarpSample> {
    if single_ref(f, x) && x.inter.inter_mode != GLOBAL_MV && x.inter.motion_mode
        == MotionMode::WarpCausal as int {
        warp_samples(t, warp_site(fi, f), x.inter.ref0)
    } else {
        Seq::empty()
    }
}

fn check_warp_site(t: &MvTile, w: &WarpSite) -> (r: bool)
    requires
        t.wf(),
    ensures
        r == w.valid(*t),
{
    let n: usize = t.ra.len();
    if !(0 <= w.bx && w.bx <= 0x10000 && 0 <= w.by && w.by <= 0x10000 && 1 <= w.w4 && w.w4 <= w.bw4
        && w.bw4 <= 64 && 1 <= w.h4 && w.h4 <= 64 && 1 <= w.sb_step && w.sb_step <= 64) {
        return false;
    }
    if w.have_top && w.by < 1 {
        return false;
    }
    if w.have_left {
        if w.bx < 1 || w.by % 64 + w.h4 > 64 {
            return false;
        }
        if t.get_unit(w.bx - 1, w.by).oy4 as i32 > w.by % 64 {
            return false;
        }
    }
    if w.have_top && w.by % w.sb_step != 0 {
        if t.get_unit(w.bx, w.by - 1).ox4 as i32 > w.bx {
            return false;
        }
    }
    if n > 0x1000_0000 {
        return false;
    }
    if !w.have_top || w.by % w.sb_step != 0 {
        return true;
    }
    let last: i32 = if w.bw4 <= 16 && w.bx + w.bw4 + 1 < w.col_end {
        w.bx + w.bw4 + 1
    } else if (w.bx + w.bw4) % w.sb_step != 0 {
        w.bx + w.bw4
    } else {
        w.bx + w.w4 - 1
    };
    let far: usize = (last / 2) as usize;
    far < n && t.ra_off < n - far
}

/// The block as the extension of the warp of a neighbour sees it.
pub open spec fn extend_block(fi: SbFrameInfo, f: Leaf) -> ExtendSite {
    ExtendSite {
        bx: f.bx,
        by: f.by,
        bw4: f.lbs.w4() as i32,
        bh4: f.lbs.h4() as i32,
        have_left: f.pos().have_left(fi),
        have_top: f.pos().have_top(fi),
        tile_row_end: fi.tile_row_end,
        tile_col_end: fi.tile_col_end,
        sb_step: fi.sb_step,
    }
}

fn check_extend_block(t: &MvTile, w: &ExtendSite) -> (r: bool)
    ensures
        r == w.valid(*t),
{
    let n: usize = t.ra.len();
    if !(0 <= w.bx && w.bx <= 0x10000 && 0 <= w.by && w.by <= 0x10000 && 2 <= w.bw4 && w.bw4 <= 64
        && 1 <= w.bh4 && w.bh4 <= 64 && 1 <= w.sb_step && w.sb_step <= 64) {
        return false;
    }
    if w.have_left && w.bx < 1 || w.have_top && w.by < 1 {
        return false;
    }
    if n > 0x1000_0000 {
        return false;
    }
    if !w.have_top || w.by % w.sb_step != 0 {
        return true;
    }
    let last: i32 = w.bx - w.bx % 2 + (if w.bx + w.bw4 <= w.tile_col_end {
        w.bw4 - 2
    } else {
        0
    });
    let far: usize = (last / 2) as usize;
    far < n && t.ra_off < n - far
}

/// The unit at an offset from the block is known.
pub open spec fn offset_fits(t: MvTile, w: ExtendSite, x: int, y: int) -> bool {
    cand_valid(t, w, x, y)
}

fn check_offset(t: &MvTile, w: &ExtendSite, x: i32, y: i32) -> (r: bool)
    requires
        w.valid(*t),
    ensures
        r == offset_fits(*t, *w, x as int, y as int),
{
    if x < -1 || x > 64 || y < -1 || y > 64 {
        return false;
    }
    if y == -1 && w.by % w.sb_step == 0 {
        if x < 0 && w.bx % w.sb_step == 0 {
            return true;
        }
        if w.bx + x < 0 {
            return false;
        }
        let n: usize = t.ra.len();
        let far: usize = ((w.bx + x) / 2) as usize;
        far < n && t.ra_off < n - far
    } else {
        w.bx + x >= 0 && w.by + y >= 0
    }
}

/// The dimensions of a block size, in units and as binary logarithms.
pub open spec fn dims_of(bs: BlockSize) -> Seq<u8> {
    seq![bs.w4() as u8, bs.h4() as u8, bs.lw4() as u8, bs.lh4() as u8]
}

/// The warp that extends that of a neighbour.
pub open spec fn neighbour_warp(
    s: Sym,
    fi: SbFrameInfo,
    mf: MotionFrame,
    f: Leaf,
    x: BlockSyntax,
    t: MvTile,
    last: LocalWarp,
    q: Search,
    mv0: MvXY,
) -> (Option<LocalWarp>, Sym) {
    let (oy, s) = s.candidate(q, x.inter.drl0, CandPart::OffY);
    let (ox, s) = s.candidate(q, x.inter.drl0, CandPart::OffX);
    let w = extend_block(fi, f);
    if !w.valid(t) || (ox == -1 || oy == -1) && !offset_fits(t, w, ox, oy) {
        (None, s)
    } else {
        let (sx, sy) = extend_site(t, w, ox, oy, x.inter.ref0);
        if sx == 0 && sy == 0 {
            (
                Some((WarpedMotionParams { wm_type: WarpedMotionType::Invalid, ..last.0 }, last.1)),
                s,
            )
        } else if !offset_fits(t, w, sx, sy) {
            (None, s)
        } else {
            shifted_warp(
                s,
                extended_warp(
                    warp_of(
                        extended_from(t, f.bx as int, f.by as int, sx, sy, fi.sb_step as int),
                        x.inter.ref0,
                        mf.gmv[x.inter.ref0 as int].matrix,
                    ),
                    f.bx as int,
                    f.by as int,
                    sx,
                    dims_of(f.lbs),
                    Mv { c: mv0 },
                ),
            )
        }
    }
}

fn read_neighbour(
    fi: &SbFrameInfo,
    mf: &MotionFrame,
    f: &Leaf,
    x: &BlockSyntax,
    t: &MvTile,
    last: LocalWarp,
    q: Search,
    mv0: MvXY,
    msac: &mut MsacContext,
) -> (r: Option<LocalWarp>)
    requires
        f.valid(*fi),
        f.has_luma(),
        t.wf(),
        0 <= x.inter.ref0 < 7,
        mv_fits(mv0.y as int, mv0.x as int),
    ensures
        (r, final(msac)@) == neighbour_warp(old(msac)@, *fi, *mf, *f, *x, *t, last, q, mv0),
{
    let oy: i32 = msac.candidate(q, x.inter.drl0, CandPart::OffY);
    let ox: i32 = msac.candidate(q, x.inter.drl0, CandPart::OffX);
    let d: [u8; 4] = f.lbs.dim();
    let w: ExtendSite = ExtendSite {
        bx: f.bx,
        by: f.by,
        bw4: d[0] as i32,
        bh4: d[1] as i32,
        have_left: f.bx > fi.tile_col_start,
        have_top: f.by > fi.tile_row_start,
        tile_row_end: fi.tile_row_end,
        tile_col_end: fi.tile_col_end,
        sb_step: fi.sb_step,
    };
    assert(w == extend_block(*fi, *f));
    if !check_extend_block(t, &w) {
        return None;
    }
    if (ox == -1 || oy == -1) && !check_offset(t, &w, ox, oy) {
        return None;
    }
    let (sx, sy) = find_extend_site(t, &w, ox, oy, x.inter.ref0);
    if sx == 0 && sy == 0 {
        let mut p: WarpedMotionParams = last.0;
        p.wm_type = WarpedMotionType::Invalid;
        return Some((p, last.1));
    }
    if !check_offset(t, &w, sx, sy) {
        return None;
    }
    let g: [i32; 6] = mf.gmv[x.inter.ref0 as usize].matrix;
    assert(d@ =~= dims_of(f.lbs));
    let m: [i32; 6] = extend_warpmv(
        t,
        f.bx,
        f.by,
        sx,
        sy,
        &d,
        x.inter.ref0,
        Mv { c: mv0 },
        fi.sb_step,
        &g,
    );
    read_shifted(msac, &m)
}

/// The warp of a candidate with the coded differences applied.
pub open spec fn changed_warp(
    s: Sym,
    x: BlockSyntax,
    last: LocalWarp,
    base: [i32; 6],
) -> (Option<LocalWarp>, Sym) {
    if last.0.matrix[3] == i32::MIN || exists|i: int|
        0 <= i < 6 && #[trigger] base[i] == i32::MIN {
        (None, s)
    } else {
        shifted_warp(
            s,
            Seq::new(6, |i: int| delta_matrix(last.0.matrix, base, deltas_of(x), i) as i32),
        )
    }
}

fn read_changed(x: &BlockSyntax, last: LocalWarp, base: &[i32; 6], msac: &mut MsacContext) -> (r:
    Option<LocalWarp>)
    ensures
        (r, final(msac)@) == changed_warp(old(msac)@, *x, last, *base),
{
    let mut m: [i32; 6] = last.0.matrix;
    if m[3] == i32::MIN {
        return None;
    }
    let mut i: usize = 0;
    while i < 6
        invariant
            i <= 6,
            m == last.0.matrix,
            m[3] != i32::MIN,
            forall|k: int| 0 <= k < i ==> #[trigger] base[k] > i32::MIN,
            msac@ == old(msac)@,
        decreases 6 - i,
    {
        if base[i] == i32::MIN {
            assert(base[i as int] == i32::MIN);
            return None;
        }
        i = i + 1;
    }
    let d: [i8; 4] = list_deltas(x);
    apply_warp_delta(&mut m, base, &d);
    assert(m@ =~= Seq::new(
        6,
        |k: int| delta_matrix(last.0.matrix, *base, deltas_of(*x), k) as i32,
    ));
    read_shifted(msac, &m)
}

/// The warp of a block with one reference; `last` is the one derived before
/// it, which stays where the block derives none.
pub open spec fn local_warp(
    s: Sym,
    fi: SbFrameInfo,
    mf: MotionFrame,
    f: Leaf,
    x: BlockSyntax,
    t: MvTile,
    last: LocalWarp,
    q: Search,
    base: [i32; 6],
    mv0: MvXY,
) -> (Option<LocalWarp>, Sym) {
    if x.inter.motion_mode == MotionMode::WarpDelta as int {
        changed_warp(s, x, last, base)
    } else if x.inter.motion_mode == MotionMode::WarpCausal as int {
        if warp_site(fi, f).valid(t) {
            causal_warp(s)
        } else {
            (None, s)
        }
    } else if x.inter.motion_mode == MotionMode::WarpExtend as int {
        neighbour_warp(s, fi, mf, f, x, t, last, q, mv0)
    } else {
        (Some(last), s)
    }
}

fn read_local_warp(
    fi: &SbFrameInfo,
    mf: &MotionFrame,
    f: &Leaf,
    x: &BlockSyntax,
    t: &MvTile,
    last: LocalWarp,
    q: Search,
    base: &[i32; 6],
    mv0: MvXY,
    samples: &mut Vec<WarpSample>,
    msac: &mut MsacContext,
) -> (r: Option<LocalWarp>)
    requires
        f.valid(*fi),
        f.has_luma(),
        t.wf(),
        0 <= x.inter.ref0 < 7,
        mv_fits(mv0.y as int, mv0.x as int),
        single_ref(*f, *x),
        x.inter.inter_mode != GLOBAL_MV,
        old(samples)@.len() == 0,
    ensures
        (r, final(msac)@) == local_warp(
            old(msac)@,
            *fi,
            *mf,
            *f,
            *x,
            *t,
            last,
            q,
            *base,
            mv0,
        ),
        r is Some ==> final(samples)@ == block_samples(*fi, *f, *x, *t),
{
    if x.inter.motion_mode == MotionMode::WarpDelta as u8 {
        read_changed(x, last, base, msac)
    } else if x.inter.motion_mode == MotionMode::WarpCausal as u8 {
        let d: [u8; 4] = f.lbs.dim();
        let w: WarpSite = WarpSite {
            bx: f.bx,
            by: f.by,
            have_top: f.by > fi.tile_row_start,
            have_left: f.bx > fi.tile_col_start,
            bw4: d[0] as i32,
            w4: imin(d[0] as i32, fi.bw - f.bx),
            h4: imin(d[1] as i32, fi.bh - f.by),
            sb_step: fi.sb_step,
            col_end: fi.tile_col_end,
        };
        assert(w == warp_site(*fi, *f));
        if !check_warp_site(t, &w) {
            return None;
        }
        *samples = derive_warpmv(t, &w, x.inter.ref0);
        read_causal(msac)
    } else if x.inter.motion_mode == MotionMode::WarpExtend as u8 {
        read_neighbour(fi, mf, f, x, t, last, q, mv0, msac)
    } else {
        Some(last)
    }
}

/// The block has luma and one reference, which is a frame of its own.
pub open spec fn single_ref(f: Leaf, x: BlockSyntax) -> bool {
    &&& f.has_luma()
    &&& x.head.is_intra == 0
    &&& x.inter.ref1 == -1
    &&& x.inter.ref0 != TIP_FRAME
}

/// Where the motion of a block starts: what was coded for it, and the last
/// warp.
pub open spec fn coded_motion(x: BlockSyntax, last: LocalWarp) -> BlockMotion {
    BlockMotion {
        mv0: x.inter.mvd0,
        mv1: x.inter.mvd1,
        weight: x.inter.cwp_idx,
        copy: x.copy.mvd,
        warp: last.0,
        affine: last.1,
    }
}

fn start_motion(x: &BlockSyntax, last: LocalWarp) -> (r: BlockMotion)
    ensures
        r == coded_motion(*x, last),
{
    BlockMotion {
        mv0: x.inter.mvd0,
        mv1: x.inter.mvd1,
        weight: x.inter.cwp_idx,
        copy: x.copy.mvd,
        warp: last.0,
        affine: last.1,
    }
}

/// The vector of a block that follows the global motion of a reference.
pub open spec fn global_vector(mf: MotionFrame, f: Leaf, ref_idx: i8) -> Option<MvXY> {
    let (bx, by) = (f.bx as int, f.by as int);
    let (w, h) = (f.lbs.w4(), f.lbs.h4());
    let g = mf.gmv[ref_idx as int];
    if !(0 <= ref_idx < 7) {
        None
    } else if !gmv_fits(g, bx, by, w, h, mf.iw4 as int, mf.ih4 as int, mf.mv_header) {
        None
    } else {
        let v = gmv_2d(g, bx, by, w, h, mf.iw4 as int, mf.ih4 as int, mf.mv_header);
        if mv_fits(v.0, v.1) {
            Some(mv_of(v))
        } else {
            None
        }
    }
}

fn find_global(mf: &MotionFrame, f: &Leaf, ref_idx: i8) -> (r: Option<MvXY>)
    requires
        f.has_luma(),
    ensures
        r == global_vector(*mf, *f, ref_idx),
        r matches Some(v) ==> mv_fits(v.y as int, v.x as int),
{
    if ref_idx < 0 || ref_idx >= 7 {
        return None;
    }
    let d: [u8; 4] = f.lbs.dim();
    let (w, h): (i32, i32) = (d[0] as i32, d[1] as i32);
    let g: WarpedMotionParams = mf.gmv[ref_idx as usize];
    if !check_gmv(&g, f.bx, f.by, w, h, mf.iw4, mf.ih4, &mf.mv_header) {
        return None;
    }
    let v: MvXY = get_gmv_2d(&g, f.bx, f.by, w, h, mf.iw4, mf.ih4, &mf.mv_header);
    if check_mv(v) { Some(v) } else { None }
}

/// The candidate of a block with one reference. One that takes over a warp
/// starts from where the warp moves its centre.
pub open spec fn single_candidate(
    s: Sym,
    mf: MotionFrame,
    f: Leaf,
    x: BlockSyntax,
    q: Search,
    base: [i32; 6],
) -> (Option<MvXY>, Sym) {
    let (v, s) = if x.inter.inter_mode == WARP_MV {
        let prec = if x.inter.warpmv_with_mvd != 0 { x.inter.mv_prec as int } else { 6 };
        let (bx, by) = (f.bx as int, f.by as int);
        let (w, h) = (f.lbs.w4(), f.lbs.h4());
        if warpmv_fits(base, bx, by, w, h, mf.iw4 as int, mf.ih4 as int, prec) {
            (Some(warpmv_2d(base, bx, by, w, h, mf.iw4 as int, mf.ih4 as int, prec)), s)
        } else {
            (None, s)
        }
    } else {
        let (v, s) = cand_vector(s, q, x.inter.drl0, 0);
        (Some(v), s)
    };
    match v {
        Some(v) => if mv_fits(v.0, v.1) {
            (Some(mv_of(v)), s)
        } else {
            (None, s)
        },
        None => (None, s),
    }
}

fn find_candidate(
    mf: &MotionFrame,
    f: &Leaf,
    x: &BlockSyntax,
    q: Search,
    base: &[i32; 6],
    msac: &mut MsacContext,
) -> (r: Option<MvXY>)
    requires
        f.has_luma(),
    ensures
        (r, final(msac)@) == single_candidate(old(msac)@, *mf, *f, *x, q, *base),
        r matches Some(v) ==> mv_fits(v.y as int, v.x as int),
{
    let v: MvXY = if x.inter.inter_mode == WARP_MV {
        let prec: i32 = if x.inter.warpmv_with_mvd != 0 { x.inter.mv_prec as i32 } else { 6 };
        let d: [u8; 4] = f.lbs.dim();
        let (w, h): (i32, i32) = (d[0] as i32, d[1] as i32);
        if !check_warpmv(base, f.bx, f.by, w, h, mf.iw4, mf.ih4, prec) {
            return None;
        }
        get_warpmv_2d(base, f.bx, f.by, w, h, mf.iw4, mf.ih4, prec)
    } else {
        read_vector(msac, q, x.inter.drl0, 0)
    };
    if check_mv(v) { Some(v) } else { None }
}

/// A matrix of zeros.
pub open spec fn zero_matrix() -> [i32; 6] {
    matrix_of(seq![0i32, 0, 0, 0, 0, 0])
}

/// The motion of a block with one reference.
#[verifier::opaque]
pub open spec fn single_motion(
    s: Sym,
    fi: SbFrameInfo,
    mf: MotionFrame,
    f: Leaf,
    x: BlockSyntax,
    t: MvTile,
    last: LocalWarp,
) -> (Option<BlockMotion>, Sym) {
    let coded = coded_motion(x, last);
    let ref0 = x.inter.ref0;
    if x.inter.inter_mode == GLOBAL_MV {
        match global_vector(mf, f, ref0) {
            Some(v) => (Some(BlockMotion { mv0: v, ..coded }), s),
            None => (None, s),
        }
    } else if !(0 <= ref0 < 7) || !(0 <= x.inter.mv_prec <= 6) || !small_mv(x.inter.mvd0) {
        (None, s)
    } else {
        let q = Search { ref0, ref1: (-1int) as i8, skip: false };
        let (base, s) = if x.inter.inter_mode > NEW_MV {
            cand_warp(s, q, x.inter.warp_ref_idx)
        } else {
            (zero_matrix(), s)
        };
        let (cand, s) = single_candidate(s, mf, f, x, q, base);
        match cand {
            None => (None, s),
            Some(c) => {
                let v = single_vector(
                    x.inter.inter_mode as int,
                    c,
                    x.inter.mvd0,
                    x.inter.amvd != 0,
                    x.inter.mv_prec as int,
                    x.inter.warpmv_with_mvd != 0,
                );
                if !mv_fits(v.0, v.1) {
                    (None, s)
                } else {
                    let (w, s) = local_warp(s, fi, mf, f, x, t, last, q, base, mv_of(v));
                    match w {
                        None => (None, s),
                        Some(w) => (
                            Some(BlockMotion { mv0: mv_of(v), warp: w.0, affine: w.1, ..coded }),
                            s,
                        ),
                    }
                }
            },
        }
    }
}

fn read_single_motion(
    fi: &SbFrameInfo,
    mf: &MotionFrame,
    f: &Leaf,
    x: &BlockSyntax,
    t: &MvTile,
    last: LocalWarp,
    samples: &mut Vec<WarpSample>,
    msac: &mut MsacContext,
) -> (r: Option<BlockMotion>)
    requires
        f.valid(*fi),
        t.wf(),
        single_ref(*f, *x),
        old(samples)@.len() == 0,
    ensures
        (r, final(msac)@) == single_motion(old(msac)@, *fi, *mf, *f, *x, *t, last),
        r is Some ==> final(samples)@ == block_samples(*fi, *f, *x, *t),
        r matches Some(m) ==> mv_fits(m.mv0.y as int, m.mv0.x as int) && 0 <= x.inter.ref0 < 7,
{
    proof {
        reveal(single_motion);
    }
    let mut m: BlockMotion = start_motion(x, last);
    if x.inter.inter_mode == GLOBAL_MV {
        assert(samples@ =~= Seq::empty());
        return match find_global(mf, f, x.inter.ref0) {
            Some(v) => {
                m.mv0 = v;
                Some(m)
            },
            None => None,
        };
    }
    if x.inter.ref0 < 0 || x.inter.ref0 >= 7 || x.inter.mv_prec < 0 || x.inter.mv_prec > 6
        || !check_small(x.inter.mvd0) {
        return None;
    }
    let q: Search = Search { ref0: x.inter.ref0, ref1: -1, skip: false };
    let base: [i32; 6] = if x.inter.inter_mode > NEW_MV {
        read_warp(msac, q, x.inter.warp_ref_idx)
    } else {
        let z: [i32; 6] = [0; 6];
        proof {
            assert(z@ =~= seq![0i32, 0, 0, 0, 0, 0]);
            lemma_matrix_of(z);
        }
        z
    };
    let c: MvXY = match find_candidate(mf, f, x, q, &base, msac) {
        Some(c) => c,
        None => {
            return None;
        },
    };
    let v: MvXY = resolve_single(
        x.inter.inter_mode,
        c,
        x.inter.mvd0,
        x.inter.amvd != 0,
        x.inter.mv_prec as i32,
        x.inter.warpmv_with_mvd != 0,
    );
    if !check_mv(v) {
        return None;
    }
    match read_local_warp(fi, mf, f, x, t, last, q, &base, v, samples, msac) {
        None => None,
        Some(w) => {
            m.mv0 = v;
            m.warp = w.0;
            m.affine = w.1;
            Some(m)
        },
    }
}

/// The weight can be kept along with the motion.
pub open spec fn weight_fits(w: int) -> bool {
    -32 <= w <= 31
}

/// The motion of a block that skips all syntax: that of its candidate.
#[verifier::opaque]
pub open spec fn skip_motion(s: Sym, x: BlockSyntax, last: LocalWarp) -> (Option<BlockMotion>, Sym) {
    let q = Search { ref0: x.inter.ref0, ref1: x.inter.ref1, skip: true };
    let i = if x.inter.drl0 < 5 { x.inter.drl0 } else { 5u8 };
    let (v0, s) = cand_vector(s, q, i, 0);
    let (v1, s) = cand_vector(s, q, i, 1);
    let (w, s) = s.candidate(q, i, CandPart::Weight);
    if mv_fits(v0.0, v0.1) && mv_fits(v1.0, v1.1) && weight_fits(w) {
        (
            Some(
                BlockMotion {
                    mv0: mv_of(v0),
                    mv1: mv_of(v1),
                    weight: w as i8,
                    ..coded_motion(x, last)
                },
            ),
            s,
        )
    } else {
        (None, s)
    }
}

fn read_skip_motion(x: &BlockSyntax, last: LocalWarp, msac: &mut MsacContext) -> (r: Option<
    BlockMotion,
>)
    ensures
        (r, final(msac)@) == skip_motion(old(msac)@, *x, last),
        r matches Some(m) ==> pair_fits(m),
{
    proof {
        reveal(skip_motion);
    }
    let q: Search = Search { ref0: x.inter.ref0, ref1: x.inter.ref1, skip: true };
    let i: u8 = if x.inter.drl0 < 5 { x.inter.drl0 } else { 5 };
    let v0: MvXY = read_vector(msac, q, i, 0);
    let v1: MvXY = read_vector(msac, q, i, 1);
    let w: i32 = msac.candidate(q, i, CandPart::Weight);
    if !check_mv(v0) || !check_mv(v1) || w < -32 || w > 31 {
        return None;
    }
    let mut m: BlockMotion = start_motion(x, last);
    m.mv0 = v0;
    m.mv1 = v1;
    m.weight = w as i8;
    Some(m)
}

/// Both vectors and the weight can be kept.
pub open spec fn pair_fits(m: BlockMotion) -> bool {
    &&& mv_fits(m.mv0.y as int, m.mv0.x as int)
    &&& mv_fits(m.mv1.y as int, m.mv1.x as int)
    &&& weight_fits(m.weight as int)
}

/// The motion of a block with two references. Modes that take over both
/// vectors, or all but one, search with the first reference alone.
#[verifier::opaque]
pub open spec fn pair_motion(
    s: Sym,
    mf: MotionFrame,
    f: Leaf,
    x: BlockSyntax,
    last: LocalWarp,
) -> (Option<BlockMotion>, Sym) {
    let coded = coded_motion(x, last);
    let mode = x.inter.inter_mode;
    if !weight_fits(x.inter.cwp_idx as int) {
        (None, s)
    } else if mode == GLOBAL_MV_GLOBAL_MV {
        match (global_vector(mf, f, x.inter.ref0), global_vector(mf, f, x.inter.ref1)) {
            (Some(a), Some(b)) => (Some(BlockMotion { mv0: a, mv1: b, ..coded }), s),
            _ => (None, s),
        }
    } else if !(NEAR_MV_NEAR_MV <= mode <= OPFL_JOINT_NEW_MV) || !(0 <= x.inter.mv_prec <= 6)
        || !small_mv(x.inter.mvd0) || !small_mv(x.inter.mvd1) {
        (None, s)
    } else {
        let both = mode > NEAR_MV_NEW_MV;
        let q = Search {
            ref0: x.inter.ref0,
            ref1: if both { x.inter.ref1 } else { (-1int) as i8 },
            skip: false,
        };
        let (c0, s) = cand_vector(s, q, x.inter.drl0, 0);
        let (c1, s) = cand_vector(s, q, x.inter.drl1, if both { 1 } else { 0 });
        if !mv_fits(c0.0, c0.1) || !mv_fits(c1.0, c1.1) {
            (None, s)
        } else {
            let (v0, v1) = pair_vectors(
                mode as int,
                mv_of(c0),
                mv_of(c1),
                x.inter.mvd0,
                x.inter.mvd1,
                x.inter.amvd != 0,
                x.inter.mv_prec as int,
            );
            if mv_fits(v0.0, v0.1) && mv_fits(v1.0, v1.1) {
                (Some(BlockMotion { mv0: mv_of(v0), mv1: mv_of(v1), ..coded }), s)
            } else {
                (None, s)
            }
        }
    }
}

fn read_pair_motion(
    mf: &MotionFrame,
    f: &Leaf,
    x: &BlockSyntax,
    last: LocalWarp,
    msac: &mut MsacContext,
) -> (r: Option<BlockMotion>)
    requires
        f.has_luma(),
    ensures
        (r, final(msac)@) == pair_motion(old(msac)@, *mf, *f, *x, last),
        r matches Some(m) ==> pair_fits(m),
{
    proof {
        reveal(pair_motion);
    }
    let mode: u8 = x.inter.inter_mode;
    let mut m: BlockMotion = start_motion(x, last);
    if x.inter.cwp_idx < -32 || x.inter.cwp_idx > 31 {
        return None;
    }
    if mode == GLOBAL_MV_GLOBAL_MV {
        let a: Option<MvXY> = find_global(mf, f, x.inter.ref0);
        let b: Option<MvXY> = find_global(mf, f, x.inter.ref1);
        return match (a, b) {
            (Some(a), Some(b)) => {
                m.mv0 = a;
                m.mv1 = b;
                Some(m)
            },
            _ => None,
        };
    }
    if mode < NEAR_MV_NEAR_MV || mode > OPFL_JOINT_NEW_MV || x.inter.mv_prec < 0 || x.inter.mv_prec
        > 6 || !check_small(x.inter.mvd0) || !check_small(x.inter.mvd1) {
        return None;
    }
    let both: bool = mode > NEAR_MV_NEW_MV;
    let q: Search = Search {
        ref0: x.inter.ref0,
        ref1: if both { x.inter.ref1 } else { -1 },
        skip: false,
    };
    let c0: MvXY = read_vector(msac, q, x.inter.drl0, 0);
    let c1: MvXY = read_vector(msac, q, x.inter.drl1, if both { 1 } else { 0 });
    if !check_mv(c0) || !check_mv(c1) {
        return None;
    }
    let (v0, v1) = resolve_pair(
        mode,
        c0,
        c1,
        x.inter.mvd0,
        x.inter.mvd1,
        x.inter.amvd != 0,
        x.inter.mv_prec as i32,
    );
    if !check_mv(v0) || !check_mv(v1) {
        return None;
    }
    m.mv0 = v0;
    m.mv1 = v1;
    Some(m)
}

/// The motion of a block that is copied from its own frame.
#[verifier::opaque]
pub open spec fn copy_motion(
    s: Sym,
    fi: SbFrameInfo,
    f: Leaf,
    x: BlockSyntax,
    last: LocalWarp,
) -> (Option<BlockMotion>, Sym) {
    let q = Search { ref0: (-1int) as i8, ref1: (-1int) as i8, skip: false };
    let (c, s) = cand_vector(s, q, x.copy.drl, 0);
    if !mv_fits(c.0, c.1) || !small_mv(x.copy.mvd) || !(0 <= fi.sb128 <= 2) {
        (None, s)
    } else {
        let v = copy_vector(
            mv_of(c),
            x.copy.mvd,
            x.copy.is_refmv != 0,
            x.copy.is_qpel != 0,
            fi.sb128 as int,
            f.by - fi.sb_step < fi.tile_row_start,
        );
        if mv_fits(v.0, v.1) {
            (Some(BlockMotion { copy: mv_of(v), ..coded_motion(x, last) }), s)
        } else {
            (None, s)
        }
    }
}

fn read_copy_motion(
    fi: &SbFrameInfo,
    f: &Leaf,
    x: &BlockSyntax,
    last: LocalWarp,
    msac: &mut MsacContext,
) -> (r: Option<BlockMotion>)
    requires
        f.valid(*fi),
    ensures
        (r, final(msac)@) == copy_motion(old(msac)@, *fi, *f, *x, last),
        r matches Some(m) ==> mv_fits(m.copy.y as int, m.copy.x as int),
{
    proof {
        reveal(copy_motion);
    }
    let q: Search = Search { ref0: -1, ref1: -1, skip: false };
    let c: MvXY = read_vector(msac, q, x.copy.drl, 0);
    if !check_mv(c) || !check_small(x.copy.mvd) || fi.sb128 < 0 || fi.sb128 > 2 {
        return None;
    }
    let v: MvXY = resolve_copy(
        c,
        x.copy.mvd,
        x.copy.is_refmv != 0,
        x.copy.is_qpel != 0,
        fi.sb128,
        f.by - fi.sb_step < fi.tile_row_start,
    );
    if !check_mv(v) {
        return None;
    }
    let mut m: BlockMotion = start_motion(x, last);
    m.copy = v;
    Some(m)
}

/// How the motion of a block is found.
#[derive(Debug, Clone, Copy, PartialEq, Eq, Structural)]
pub enum MotionKind {
    /// It has none, or keeps what was coded.
    Coded,
    /// It is built from its own frame, and leaves no motion.
    Still,
    Copy,
    Single,
    Skip,
    Pair,
}

/// The kind of motion of a block. Blocks without luma take over the motion of
/// others; blocks of an interpolated frame have none of their own. Blocks that
/// are built from their own frame count only where blocks can be copied.
pub open spec fn motion_kind(fi: SbFrameInfo, f: Leaf, x: BlockSyntax) -> MotionKind {
    if !f.has_luma() {
        MotionKind::Coded
    } else if x.head.is_intra != 0 {
        if !fi.allow_intrabc {
            MotionKind::Coded
        } else if x.head.intrabc != 0 {
            MotionKind::Copy
        } else {
            MotionKind::Still
        }
    } else if x.inter.ref1 == -1 && x.inter.ref0 != TIP_FRAME {
        MotionKind::Single
    } else if x.head.skip_mode != 0 {
        MotionKind::Skip
    } else if x.inter.ref1 != -1 {
        MotionKind::Pair
    } else {
        MotionKind::Coded
    }
}

pub fn find_motion_kind(fi: &SbFrameInfo, f: &Leaf, x: &BlockSyntax) -> (r: MotionKind)
    ensures
        r == motion_kind(*fi, *f, *x),
{
    if f.lbs == BlockSize::Invalid {
        MotionKind::Coded
    } else if x.head.is_intra != 0 {
        if !fi.allow_intrabc {
            MotionKind::Coded
        } else if x.head.intrabc != 0 {
            MotionKind::Copy
        } else {
            MotionKind::Still
        }
    } else if x.inter.ref1 == -1 && x.inter.ref0 != TIP_FRAME {
        MotionKind::Single
    } else if x.head.skip_mode != 0 {
        MotionKind::Skip
    } else if x.inter.ref1 != -1 {
        MotionKind::Pair
    } else {
        MotionKind::Coded
    }
}

/// The motion of a block; none where a vector does not fit, or where what its
/// warp is derived from is not there.
pub open spec fn block_motion(
    s: Sym,
    fi: SbFrameInfo,
    mf: MotionFrame,
    f: Leaf,
    x: BlockSyntax,
    t: MvTile,
    last: LocalWarp,
) -> (Option<BlockMotion>, Sym) {
    match motion_kind(fi, f, x) {
        MotionKind::Coded | MotionKind::Still => (Some(coded_motion(x, last)), s),
        MotionKind::Copy => copy_motion(s, fi, f, x, last),
        MotionKind::Single => single_motion(s, fi, mf, f, x, t, last),
        MotionKind::Skip => skip_motion(s, x, last),
        MotionKind::Pair => pair_motion(s, mf, f, x, last),
    }
}

/// The motion that a block leaves can be kept.
pub open spec fn motion_fits(k: MotionKind, m: BlockMotion) -> bool {
    match k {
        MotionKind::Coded | MotionKind::Still => true,
        MotionKind::Copy => mv_fits(m.copy.y as int, m.copy.x as int),
        MotionKind::Single => mv_fits(m.mv0.y as int, m.mv0.x as int),
        MotionKind::Skip | MotionKind::Pair => pair_fits(m),
    }
}

/// Finds the motion of a block, and the neighbours that its warp is fitted to.
pub fn resolve_motion(
    fi: &SbFrameInfo,
    mf: &MotionFrame,
    f: &Leaf,
    x: &BlockSyntax,
    t: &MvTile,
    last: LocalWarp,
    samples: &mut Vec<WarpSample>,
    msac: &mut MsacContext,
) -> (r: Option<BlockMotion>)
    requires
        f.valid(*fi),
        t.wf(),
        old(samples)@.len() == 0,
    ensures
        (r, final(msac)@) == block_motion(old(msac)@, *fi, *mf, *f, *x, *t, last),
        r is Some ==> final(samples)@ == block_samples(*fi, *f, *x, *t),
        r matches Some(m) ==> motion_fits(motion_kind(*fi, *f, *x), m),
        r is Some && motion_kind(*fi, *f, *x) == MotionKind::Single ==> 0 <= x.inter.ref0 < 7,
{
    let kind: MotionKind = find_motion_kind(fi, f, x);
    assert(samples@ =~= Seq::empty());
    match kind {
        MotionKind::Coded | MotionKind::Still => Some(start_motion(x, last)),
        MotionKind::Copy => read_copy_motion(fi, f, x, last, msac),
        MotionKind::Single => read_single_motion(fi, mf, f, x, t, last, samples, msac),
        MotionKind::Skip => read_skip_motion(x, last, msac),
        MotionKind::Pair => read_pair_motion(mf, f, x, last, msac),
    }
}

/// Answer `k` is part `part` of candidate `i`.
pub open spec fn told(s: Sym, k: int, q: Search, i: u8, part: CandPart, v: int) -> bool {
    s.asked[k] == Request::Candidate(q, i, part) && v == unfolded(s.got(k))
}

/// A block that skips all syntax moves both of its predictions as its
/// candidate does, the first by the first vector and the second by the second,
/// and takes over its weight.
pub proof fn law_skipping_blocks_move_as_their_candidate(s: Sym, x: BlockSyntax, last: LocalWarp)
    ensures
        ({
            let (m, t) = skip_motion(s, x, last);
            let n = s.asked.len() as int;
            let q = Search { ref0: x.inter.ref0, ref1: x.inter.ref1, skip: true };
            m matches Some(m) ==> exists|i: u8|
                {
                    &&& #[trigger] told(t, n, q, i, CandPart::Y(0), m.mv0.y as int)
                    &&& told(t, n + 1, q, i, CandPart::X(0), m.mv0.x as int)
                    &&& told(t, n + 2, q, i, CandPart::Y(1), m.mv1.y as int)
                    &&& told(t, n + 3, q, i, CandPart::X(1), m.mv1.x as int)
                    &&& told(t, n + 4, q, i, CandPart::Weight, m.weight as int)
                    &&& i <= 5
                    &&& x.inter.drl0 <= 5 ==> i == x.inter.drl0
                }
        }),
{
    reveal(skip_motion);
    let (m, t) = skip_motion(s, x, last);
    let n = s.asked.len() as int;
    let q = Search { ref0: x.inter.ref0, ref1: x.inter.ref1, skip: true };
    if let Some(m) = m {
        let i = if x.inter.drl0 < 5 { x.inter.drl0 } else { 5u8 };
        assert(told(t, n, q, i, CandPart::Y(0), m.mv0.y as int));
    }
}

/// The vector of a block with one reference that takes over a candidate, or
/// codes its difference from one, is that candidate's vector moved by the
/// difference.
pub proof fn law_single_motion_starts_at_its_candidate(
    s: Sym,
    fi: SbFrameInfo,
    mf: MotionFrame,
    f: Leaf,
    x: BlockSyntax,
    t: MvTile,
    last: LocalWarp,
)
    requires
        x.inter.inter_mode <= NEW_MV,
        x.inter.inter_mode != GLOBAL_MV,
    ensures
        ({
            let (m, e) = single_motion(s, fi, mf, f, x, t, last);
            let n = s.asked.len() as int;
            let q = Search { ref0: x.inter.ref0, ref1: (-1int) as i8, skip: false };
            m matches Some(m) ==> exists|c: MvXY|
                {
                    &&& #[trigger] mv_fits(c.y as int, c.x as int)
                    &&& e.asked[n] == Request::Candidate(q, x.inter.drl0, CandPart::Y(0))
                    &&& e.asked[n + 1] == Request::Candidate(q, x.inter.drl0, CandPart::X(0))
                    &&& c.y == unfolded(e.got(n))
                    &&& c.x == unfolded(e.got(n + 1))
                    &&& x.inter.inter_mode == NEAR_MV ==> m.mv0 == c
                    &&& x.inter.inter_mode == NEW_MV && x.inter.mv_prec == 6 && x.inter.amvd == 0
                        ==> m.mv0.y == c.y + x.inter.mvd0.y && m.mv0.x == c.x + x.inter.mvd0.x
                    &&& m.copy == x.copy.mvd && m.mv1 == x.inter.mvd1 && m.weight == x.inter.cwp_idx
                }
        }),
{
    reveal(single_motion);
    let (m, e) = single_motion(s, fi, mf, f, x, t, last);
    let n = s.asked.len() as int;
    let q = Search { ref0: x.inter.ref0, ref1: (-1int) as i8, skip: false };
    if let Some(m) = m {
        let (v, s1) = cand_vector(s, q, x.inter.drl0, 0);
        let c = mv_of(v);
        assert(mv_fits(c.y as int, c.x as int));
        lemma_local_warp_asks(s1, fi, mf, f, x, t, last, q, zero_matrix(), m.mv0);
        assert(e.asked[n] == s1.asked[n]);
        assert(e.asked[n + 1] == s1.asked[n + 1]);
    }
}

/// Deriving a warp only adds requests.
proof fn lemma_local_warp_asks(
    s: Sym,
    fi: SbFrameInfo,
    mf: MotionFrame,
    f: Leaf,
    x: BlockSyntax,
    t: MvTile,
    last: LocalWarp,
    q: Search,
    base: [i32; 6],
    mv0: MvXY,
)
    ensures
        ({
            let e = local_warp(s, fi, mf, f, x, t, last, q, base, mv0).1;
            &&& e.replies == s.replies
            &&& e.asked.len() >= s.asked.len()
            &&& forall|k: int| 0 <= k < s.asked.len() ==> e.asked[k] == s.asked[k]
        }),
{
}

/// A copy starts from candidate vector `y`, `x`, in this order; one that has
/// no difference moves by that vector.
pub proof fn law_copies_start_at_their_candidate(
    s: Sym,
    fi: SbFrameInfo,
    f: Leaf,
    x: BlockSyntax,
    last: LocalWarp,
)
    ensures
        ({
            let (m, e) = copy_motion(s, fi, f, x, last);
            let n = s.asked.len() as int;
            let q = Search { ref0: (-1int) as i8, ref1: (-1int) as i8, skip: false };
            let (y, z) = (unfolded(e.got(n)), unfolded(e.got(n + 1)));
            &&& e.asked.len() == n + 2
            &&& e.asked[n] == Request::Candidate(q, x.copy.drl, CandPart::Y(0))
            &&& e.asked[n + 1] == Request::Candidate(q, x.copy.drl, CandPart::X(0))
            &&& m matches Some(m) ==> {
                let still = y == 0 && z == 0;
                &&& !still && x.copy.is_refmv != 0 ==> m.copy.y == y && m.copy.x == z
                &&& !still && x.copy.is_refmv == 0 && x.copy.is_qpel != 0 ==> m.copy.y == y
                    + x.copy.mvd.y && m.copy.x == z + x.copy.mvd.x
                &&& still && x.copy.is_refmv != 0 && f.by - fi.sb_step < fi.tile_row_start
                    ==> m.copy.y == 0 && m.copy.x < 0
                &&& still && x.copy.is_refmv != 0 && f.by - fi.sb_step >= fi.tile_row_start
                    ==> m.copy.y < 0 && m.copy.x == 0
            }
        }),
{
    reveal(copy_motion);
}

/// A block with two references: each vector starts from a candidate of its own
/// index; with the global motion each follows that of its own reference.
pub proof fn law_pairs_start_at_their_candidates(
    s: Sym,
    mf: MotionFrame,
    f: Leaf,
    x: BlockSyntax,
    last: LocalWarp,
)
    ensures
        ({
            let (m, e) = pair_motion(s, mf, f, x, last);
            let n = s.asked.len() as int;
            let mode = x.inter.inter_mode;
            let both = mode > NEAR_MV_NEW_MV;
            let q = Search {
                ref0: x.inter.ref0,
                ref1: if both { x.inter.ref1 } else { (-1int) as i8 },
                skip: false,
            };
            let (i, j) = (x.inter.drl0, x.inter.drl1);
            let second = if both { 1u8 } else { 0 };
            &&& mode == GLOBAL_MV_GLOBAL_MV ==> (m matches Some(m) ==> global_vector(
                mf,
                f,
                x.inter.ref0,
            ) == Some(m.mv0) && global_vector(mf, f, x.inter.ref1) == Some(m.mv1))
            &&& mode != GLOBAL_MV_GLOBAL_MV && m is Some ==> {
                &&& e.asked.len() == n + 4
                &&& e.asked[n] == Request::Candidate(q, i, CandPart::Y(0))
                &&& e.asked[n + 1] == Request::Candidate(q, i, CandPart::X(0))
                &&& e.asked[n + 2] == Request::Candidate(q, j, CandPart::Y(second))
                &&& e.asked[n + 3] == Request::Candidate(q, j, CandPart::X(second))
            }
            &&& mode == NEAR_MV_NEAR_MV ==> (m matches Some(m) ==> m.mv0.y == unfolded(e.got(n))
                && m.mv0.x == unfolded(e.got(n + 1)) && m.mv1.y == unfolded(e.got(n + 2))
                && m.mv1.x == unfolded(e.got(n + 3)))
            &&& m matches Some(m) ==> m.weight == x.inter.cwp_idx && m.copy == x.copy.mvd && m.warp
                == last.0 && m.affine == last.1
        }),
{
    reveal(pair_motion);
}

/// The six entries of the warp of a candidate come in their order.
pub proof fn law_warp_entries_come_in_order(s: Sym, q: Search, i: u8, k: int)
    requires
        0 <= k < 6,
    ensures
        ({
            let (m, e) = cand_warp(s, q, i);
            let n = s.asked.len() as int;
            &&& e.asked.len() == n + 6
            &&& e.asked[n + k] == Request::Candidate(q, i, CandPart::Warp(k as u8))
            &&& i32::MIN <= unfolded(e.got(n + k)) <= i32::MAX ==> m[k] == unfolded(e.got(n + k))
        }),
{
    let (m, e) = cand_warp(s, q, i);
    let n = s.asked.len() as int;
    let v = Seq::new(6, |j: int| unfolded(e.got(n + j)) as i32);
    let (a, s1) = s.candidate(q, i, CandPart::Warp(0));
    let (b, s2) = s1.candidate(q, i, CandPart::Warp(1));
    let (c, s3) = s2.candidate(q, i, CandPart::Warp(2));
    let (d, s4) = s3.candidate(q, i, CandPart::Warp(3));
    let (f, s5) = s4.candidate(q, i, CandPart::Warp(4));
    let (g, s6) = s5.candidate(q, i, CandPart::Warp(5));
    let w = seq![a as i32, b as i32, c as i32, d as i32, f as i32, g as i32];
    assert(v =~= w);
    let arr = [a as i32, b as i32, c as i32, d as i32, f as i32, g as i32];
    assert(arr@ =~= w);
    assert(m@ == w);
    assert(k == 0 || k == 1 || k == 2 || k == 3 || k == 4 || k == 5);
}

/// What kind of motion a block with luma has.
pub proof fn law_motion_goes_by_references(fi: SbFrameInfo, f: Leaf, x: BlockSyntax)
    requires
        f.has_luma(),
    ensures
        ({
            let k = motion_kind(fi, f, x);
            &&& k == MotionKind::Copy <==> x.head.is_intra != 0 && x.head.intrabc != 0
                && fi.allow_intrabc
            &&& x.head.is_intra == 0 && 0 <= x.inter.ref0 < 7 && x.inter.ref1 == -1 ==> k
                == MotionKind::Single
            &&& x.head.is_intra == 0 && x.inter.ref1 >= 0 && x.head.skip_mode != 0 ==> k
                == MotionKind::Skip
            &&& x.head.is_intra == 0 && x.inter.ref1 >= 0 && x.head.skip_mode == 0 ==> k
                == MotionKind::Pair
        }),
{
}

/// A block sees the tile to the right of and below its corner as far as the
/// frame goes.
pub proof fn law_warp_site_lies_in_the_frame(fi: SbFrameInfo, f: Leaf)
    ensures
        ({
            let w = warp_site(fi, f);
            &&& w.bx == f.bx && w.by == f.by
            &&& f.has_luma() && 0 < fi.bw - f.bx && 0 < fi.bh - f.by && fi.bw <= 0x10_0000 && fi.bh
                <= 0x10_0000 && f.bx >= 0 && f.by >= 0 ==> w.w4 <= f.lbs.w4() && w.h4 <= f.lbs.h4()
                && w.bx + w.w4 <= fi.bw && w.by + w.h4 <= fi.bh && (w.w4 == f.lbs.w4() || w.bx
                + w.w4 == fi.bw) && (w.h4 == f.lbs.h4() || w.by + w.h4 == fi.bh)
        }),
{
    if f.has_luma() {
        crate::levels::lemma_block_dimensions(f.lbs);
    }
}

/// A shifted warp takes its first two entries from the fit, in their order,
/// and keeps the others; one that does not split into shears is not valid.
pub proof fn law_fitted_shift_keeps_the_slopes(s: Sym, m: Seq<i32>, i: int)
    requires
        m.len() == 6,
        2 <= i < 6,
    ensures
        ({
            let (w, t) = shifted_warp(s, m);
            let k = s.asked.len() as int;
            &&& t.asked.len() == k + 4
            &&& t.asked[k] == Request::Fit(FitPart::Entry(0))
            &&& t.asked[k + 1] == Request::Fit(FitPart::Entry(1))
            &&& t.asked[k + 2] == Request::Fit(FitPart::Shears)
            &&& t.asked[k + 3] == Request::Fit(FitPart::Affine)
            &&& w is None <==> m[4] == i32::MIN
            &&& w matches Some(p) ==> {
                &&& p.0.matrix[i] == m[i]
                &&& i32::MIN <= unfolded(t.got(k)) <= i32::MAX ==> p.0.matrix[0] == unfolded(t.got(k))
                &&& i32::MIN <= unfolded(t.got(k + 1)) <= i32::MAX ==> p.0.matrix[1] == unfolded(
                    t.got(k + 1),
                )
                &&& p.1 <==> t.got(k + 3) == 1
                &&& t.got(k + 2) != 1 ==> p.0.wm_type == WarpedMotionType::Invalid
                &&& t.got(k + 2) == 1 ==> p.0.wm_type == warp_class(p.0.matrix)
            }
        }),
{
    let a = s.fit_entry(0).0 as i32;
    let b = s.fit_entry(0).1.fit_entry(1).0 as i32;
    let arr = [a, b, m[2], m[3], m[4], m[5]];
    let v = m.update(0, a).update(1, b);
    assert(arr@ =~= v);
    let x = matrix_of(v);
    assert(x@ == v);
    assert(x[4] == m[4] && x[i] == v[i] && x[0] == v[0] && x[1] == v[1]);
}

} // verus!
