//! The intra prediction that a motion-compensated block is blended with.
use vstd::prelude::*;

use crate::coded::CodedGrid;
use crate::edges::{end_of_sb, halved, sb_end, EdgeBounds};
use crate::intops::{b2i, btoi, imax, imin, max, min, p2};
use crate::levels::SMOOTH_PRED;
use crate::lumatx::{IntraFlags, IntraPlan};

verus! {

/// A block of one plane to blend: its position and size in luma units, how the
/// plane is subsampled, and the size of the frame in luma units.
#[derive(Debug, Clone, Copy, PartialEq, Eq, Structural)]
pub struct BlendSite {
    pub chroma: bool,
    pub bx: i32,
    pub by: i32,
    pub bw4: i32,
    pub bh4: i32,
    pub ss_hor: i32,
    pub ss_ver: i32,
    pub fw: i32,
    pub fh: i32,
}

impl BlendSite {
    pub open spec fn valid(self) -> bool {
        &&& 0 <= self.bx <= 0x10_0000
        &&& 0 <= self.by <= 0x10_0000
        &&& 1 <= self.bw4 <= 16
        &&& 1 <= self.bh4 <= 16
        &&& 0 <= self.ss_hor <= 1
        &&& 0 <= self.ss_ver <= 1
        &&& !self.chroma ==> self.ss_hor == 0 && self.ss_ver == 0
        &&& 0 <= self.fw <= 0x10_0000
        &&& 0 <= self.fh <= 0x10_0000
    }

    pub open spec fn w4(self) -> int {
        self.bw4 as int / p2(self.ss_hor as int)
    }

    pub open spec fn h4(self) -> int {
        self.bh4 as int / p2(self.ss_ver as int)
    }
}

/// The smooth one of the four modes.
pub const II_SMOOTH: u8 = 3;

/// Whether the unit above to the right can be used. The row above a superblock
/// does not count.
pub open spec fn blend_right(g: CodedGrid, t: EdgeBounds, s: BlendSite) -> int {
    let n = min(
        min(s.bw4 as int, t.col_end - s.bx - s.bw4),
        min(sb_end(s.bx as int, t.sb_step as int), t.col_end as int) - s.bx - s.bw4,
    );
    if s.by <= t.row_start || s.by as int % t.sb_step as int == 0 || n <= 0 {
        0
    } else {
        b2i(
            g.coded(
                (s.bx as int % 64 + s.bw4) / p2(s.ss_hor as int),
                s.by as int % 64 / p2(s.ss_ver as int) - 1,
            ),
        )
    }
}

/// How much below to the left can be used: all that the superblock allows at
/// its left edge, else whether there is a unit.
pub open spec fn blend_down(g: CodedGrid, t: EdgeBounds, s: BlendSite) -> int {
    let n = min(
        s.bh4 as int,
        min(sb_end(s.by as int, t.sb_step as int), t.row_end as int) - s.by - s.bh4,
    );
    if s.bx <= t.col_start || n <= 0 {
        0
    } else if s.bx as int % t.sb_step as int == 0 {
        n
    } else {
        b2i(
            g.coded(
                (s.bx as int % 64 - 1) / p2(s.ss_hor as int),
                (s.by as int % 64 + s.bh4) / p2(s.ss_ver as int),
            ),
        )
    }
}

/// What the two predictions are weighted by: a mask of the mode, or an edge.
#[derive(Debug, Clone, Copy, PartialEq, Eq, Structural)]
pub enum BlendMask {
    Mode(u8),
    Wedge(u8),
}

/// The intra prediction of a plane, its size, and the mask of the blend.
#[derive(Debug, Clone, Copy, PartialEq, Eq, Structural)]
pub struct InterIntraPlan {
    pub intra: IntraPlan,
    pub w4: i32,
    pub h4: i32,
    pub mask: BlendMask,
}

pub open spec fn interintra_plan(
    g: CodedGrid,
    t: EdgeBounds,
    s: BlendSite,
    ii_mode: u8,
    wedge_idx: i8,
    ibp: bool,
) -> InterIntraPlan {
    let smooth = ii_mode == II_SMOOTH;
    InterIntraPlan {
        intra: IntraPlan {
            mode: if smooth { SMOOTH_PRED } else { ii_mode },
            angle: if ii_mode == 1 { 90 } else if ii_mode == 2 { 180 } else { 0 },
            flags: IntraFlags {
                luma: false,
                smooth_top: false,
                smooth_left: false,
                edge_filter: false,
                ibp: ibp && max(s.w4(), s.h4()) > 1,
                mrl_index: 0,
                multi_mrl: false,
                has_left: s.bx > t.col_start,
                has_top: s.by > t.row_start,
                dip: false,
            },
            n_tr: if smooth { blend_right(g, t, s) as i32 } else { 0 },
            n_bl: if smooth { blend_down(g, t, s) as i32 } else { 0 },
            max_w: (4 * (s.fw as int / p2(s.ss_hor as int)) - 4 * (s.bx as int / p2(
                s.ss_hor as int,
            ))) as i32,
            max_h: (4 * (s.fh as int / p2(s.ss_ver as int)) - 4 * (s.by as int / p2(
                s.ss_ver as int,
            ))) as i32,
        },
        w4: s.w4() as i32,
        h4: s.h4() as i32,
        mask: if wedge_idx == -1 { BlendMask::Mode(ii_mode) } else { BlendMask::Wedge(
            wedge_idx as u8,
        ) },
    }
}

fn find_right(g: &CodedGrid, t: &EdgeBounds, s: &BlendSite) -> (r: i32)
    requires
        g.wf(),
        t.valid(),
        s.valid(),
    ensures
        r == blend_right(*g, *t, *s),
        0 <= r <= 1,
{
    if s.by <= t.row_start || s.by % t.sb_step == 0 {
        return 0;
    }
    let n: i32 = imin(
        imin(s.bw4, t.col_end - s.bx - s.bw4),
        imin(end_of_sb(s.bx, t.sb_step), t.col_end) - s.bx - s.bw4,
    );
    if n <= 0 {
        return 0;
    }
    let x: i32 = halved(s.bx % 64 + s.bw4, s.ss_hor);
    let y: i32 = halved(s.by % 64, s.ss_ver);
    btoi(g.is_coded(x, y - 1))
}

fn find_down(g: &CodedGrid, t: &EdgeBounds, s: &BlendSite) -> (r: i32)
    requires
        g.wf(),
        t.valid(),
        s.valid(),
        64int % t.sb_step as int == 0,
    ensures
        r == blend_down(*g, *t, *s),
        0 <= r <= 16,
{
    let n: i32 = imin(
        s.bh4,
        imin(end_of_sb(s.by, t.sb_step), t.row_end) - s.by - s.bh4,
    );
    if s.bx <= t.col_start || n <= 0 {
        return 0;
    }
    if s.bx % t.sb_step == 0 {
        return n;
    }
    assert(s.bx as int % 64 != 0) by {
        let step = t.sb_step as int;
        if s.bx as int % 64 == 0 {
            vstd::arithmetic::div_mod::lemma_fundamental_div_mod(s.bx as int, 64);
            vstd::arithmetic::div_mod::lemma_fundamental_div_mod(64, step);
            let (q, k) = (s.bx as int / 64, 64int / step);
            assert(s.bx == (q * k) * step) by (nonlinear_arith)
                requires
                    s.bx == 64 * q,
                    64 == step * k,
            ;
            vstd::arithmetic::div_mod::lemma_mod_multiples_basic(q * k, step);
        }
    }
    let x: i32 = halved(s.bx % 64 - 1, s.ss_hor);
    let y: i32 = halved(s.by % 64 + s.bh4, s.ss_ver);
    btoi(g.is_coded(x, y))
}

/// Plans the intra prediction that a plane is blended with. `wedge_idx` is -1
/// where the mask is that of the mode.
pub fn iiblend_plane(
    g: &CodedGrid,
    t: &EdgeBounds,
    s: &BlendSite,
    ii_mode: u8,
    wedge_idx: i8,
    ibp: bool,
) -> (r: InterIntraPlan)
    requires
        g.wf(),
        t.valid(),
        s.valid(),
        64int % t.sb_step as int == 0,
        ii_mode <= 3,
        -1 <= wedge_idx,
    ensures
        r == interintra_plan(*g, *t, *s, ii_mode, wedge_idx, ibp),
{
    let smooth: bool = ii_mode == II_SMOOTH;
    let (w4, h4): (i32, i32) = (halved(s.bw4, s.ss_hor), halved(s.bh4, s.ss_ver));
    let (fw, fh): (i32, i32) = (halved(s.fw, s.ss_hor), halved(s.fh, s.ss_ver));
    let (x, y): (i32, i32) = (halved(s.bx, s.ss_hor), halved(s.by, s.ss_ver));
    InterIntraPlan {
        intra: IntraPlan {
            mode: if smooth { SMOOTH_PRED } else { ii_mode },
            angle: if ii_mode == 1 { 90 } else if ii_mode == 2 { 180 } else { 0 },
            flags: IntraFlags {
                luma: false,
                smooth_top: false,
                smooth_left: false,
                edge_filter: false,
                ibp: ibp && imax(w4, h4) > 1,
                mrl_index: 0,
                multi_mrl: false,
                has_left: s.bx > t.col_start,
                has_top: s.by > t.row_start,
                dip: false,
            },
            n_tr: if smooth { find_right(g, t, s) } else { 0 },
            n_bl: if smooth { find_down(g, t, s) } else { 0 },
            max_w: 4 * fw - 4 * x,
            max_h: 4 * fh - 4 * y,
        },
        w4,
        h4,
        mask: if wedge_idx == -1 { BlendMask::Mode(ii_mode) } else { BlendMask::Wedge(
            wedge_idx as u8,
        ) },
    }
}

/// A block that mixes in intra prediction does so along the columns for mode
/// one and along the rows for mode two; the smooth mode is the only one that
/// uses what lies beyond the corners. The mask is the wedge where there is one.
pub proof fn law_mixed_prediction_follows_its_mode(
    g: CodedGrid,
    t: EdgeBounds,
    s: BlendSite,
    m: u8,
    w: i8,
    ibp: bool,
)
    requires
        s.valid(),
        m <= 3,
        -1 <= w <= 67,
    ensures
        ({
            let p = interintra_plan(g, t, s, m, w, ibp);
            &&& m == 0 ==> p.intra.mode == 0 && p.intra.angle == 0
            &&& m == 1 ==> p.intra.mode == 1 && p.intra.angle == 90
            &&& m == 2 ==> p.intra.mode == 2 && p.intra.angle == 180
            &&& m == 3 ==> p.intra.mode == SMOOTH_PRED
            &&& m != 3 ==> p.intra.n_tr == 0 && p.intra.n_bl == 0
            &&& w == -1 ==> p.mask == BlendMask::Mode(m)
            &&& w >= 0 ==> p.mask == BlendMask::Wedge(w as u8)
            &&& p.intra.flags.has_left == (s.bx > t.col_start)
            &&& p.intra.flags.has_top == (s.by > t.row_start)
            &&& s.ss_hor == 0 ==> p.w4 == s.bw4 && p.intra.max_w == 4 * (s.fw - s.bx)
            &&& s.ss_ver == 0 ==> p.h4 == s.bh4 && p.intra.max_h == 4 * (s.fh - s.by)
            &&& s.ss_hor == 1 && s.bw4 % 2 == 0 ==> 2 * p.w4 == s.bw4
            &&& s.ss_ver == 1 && s.bh4 % 2 == 0 ==> 2 * p.h4 == s.bh4
        }),
{
    assert(p2(0) == 1 && p2(1) == 2);
    assert(p2(s.ss_hor as int) == 1 + s.ss_hor && p2(s.ss_ver as int) == 1 + s.ss_ver);
    if s.ss_hor == 0 {
        assert(s.fw as int / 1 == s.fw && s.bx as int / 1 == s.bx && s.bw4 as int / 1 == s.bw4);
    } else {
        assert(s.bw4 % 2 == 0 ==> 2 * (s.bw4 as int / 2) == s.bw4);
    }
    if s.ss_ver == 0 {
        assert(s.fh as int / 1 == s.fh && s.by as int / 1 == s.by && s.bh4 as int / 1 == s.bh4);
    } else {
        assert(s.bh4 % 2 == 0 ==> 2 * (s.bh4 as int / 2) == s.bh4);
    }
}

} // verus!
