//! What chroma that is predicted from luma is fitted to.
use vstd::prelude::*;

use crate::chromatx::{share, shared, ChromaTx};
use crate::coded::CodedGrid;
use crate::edges::{end_of_sb, halved, sb_end, EdgeBounds};
use crate::intops::{b2i, btoi, imax, imin, max, min, p2};

verus! {

/// The neighbours that a fit across lines leans on.
#[derive(Debug, Clone, Copy, PartialEq, Eq, Structural)]
pub enum MhDir {
    Center,
    Top,
    Left,
}

/// What is known of the surroundings of a block.
#[derive(Debug, Clone, Copy, PartialEq, Eq, Structural)]
pub struct CflEdges {
    pub has_top: bool,
    pub has_left: bool,
    /// Whether the block lies at the upper edge of a superblock.
    pub top_sb_edge: bool,
}

pub open spec fn cfl_edges(p: ChromaTx, t: EdgeBounds) -> CflEdges {
    CflEdges {
        has_top: p.cby > t.row_start,
        has_left: p.cbx > t.col_start,
        top_sb_edge: p.cby as int % t.sb_step as int == 0,
    }
}

/// A fit with one slope for each plane: whether the slope is found from the
/// surroundings, how many rows above the block luma starts, and how much of
/// the block lies outside of the frame.
#[derive(Debug, Clone, Copy, PartialEq, Eq, Structural)]
pub struct LinearCfl {
    pub edges: CflEdges,
    pub implicit: bool,
    pub rows_above: i32,
    pub wpad: i32,
    pub hpad: i32,
}

/// Across the edge of a superblock only the last row of luma is there; within
/// it as many as one row of chroma covers, and one more.
pub open spec fn linear_cfl(p: ChromaTx, t: EdgeBounds, implicit: bool) -> LinearCfl {
    let e = cfl_edges(p, t);
    LinearCfl {
        edges: e,
        implicit,
        rows_above: if e.top_sb_edge && e.has_top { 1 } else { (1 + p.ss_ver) as i32 },
        wpad: (shared(p.cbw4 as int, p.ss_hor as int) - p.tw()) as i32,
        hpad: (shared(p.cbh4 as int, p.ss_ver as int) - p.th()) as i32,
    }
}

fn find_edges(p: &ChromaTx, t: &EdgeBounds) -> (r: CflEdges)
    requires
        p.valid(),
        t.valid(),
    ensures
        r == cfl_edges(*p, *t),
{
    CflEdges {
        has_top: p.cby > t.row_start,
        has_left: p.cbx > t.col_start,
        top_sb_edge: p.cby % t.sb_step == 0,
    }
}

/// Plans a fit with one slope for each plane.
pub fn plan_linear_cfl(p: &ChromaTx, t: &EdgeBounds, implicit: bool) -> (r: LinearCfl)
    requires
        p.valid(),
        t.valid(),
    ensures
        r == linear_cfl(*p, *t, implicit),
{
    let e: CflEdges = find_edges(p, t);
    LinearCfl {
        edges: e,
        implicit,
        rows_above: if e.top_sb_edge && e.has_top { 1 } else { 1 + p.ss_ver },
        wpad: share(p.cbw4, p.ss_hor) - p.tile_width(),
        hpad: share(p.cbh4, p.ss_ver) - p.tile_height(),
    }
}

/// How many units to the right of the row above count.
pub open spec fn fit_right(p: ChromaTx, t: EdgeBounds, g: CodedGrid) -> int {
    let x = p.cbx as int / p2(p.ss_hor as int);
    let end = t.col_end as int / p2(p.ss_hor as int);
    let step = t.sb_step as int / p2(p.ss_hor as int);
    if cfl_edges(p, t).top_sb_edge {
        max(0, min(p.tw(), end - x - p.tw()))
    } else {
        let n = min(p.tw(), min(sb_end(x, step), end) - x - p.tw());
        if n == 0 {
            0
        } else {
            min(g.run_right(p.cx4() + p.tw(), p.cy4() - 1, 16), n)
        }
    }
}

/// How many units below the column to the left count.
pub open spec fn fit_down(p: ChromaTx, t: EdgeBounds, g: CodedGrid) -> int {
    let y = p.cby as int / p2(p.ss_ver as int);
    let end = t.row_end as int / p2(p.ss_ver as int);
    let step = t.sb_step as int / p2(p.ss_ver as int);
    let n = min(p.th(), max(0, min(sb_end(y, step), end)) - y - p.th());
    if p.cbx as int % t.sb_step as int == 0 || n <= 0 {
        n
    } else {
        g.run_down(p.cx4() - 1, p.cy4() + p.th(), n)
    }
}

/// A fit across several lines: the size of the luma that it is made from,
/// in samples of chroma, before and after the row above is counted, and the
/// samples between lines.
#[derive(Debug, Clone, Copy, PartialEq, Eq, Structural)]
pub struct MhCfl {
    pub edges: CflEdges,
    pub dir: MhDir,
    pub refw: i32,
    pub refh: i32,
    /// One where a column on the left serves the fit only.
    pub subleft: i32,
    pub stride: i32,
    /// The rows of luma above the block.
    pub n_top: i32,
}

/// The most samples of luma in one direction.
pub const MAX_FIT: i32 = 128;

pub open spec fn mh_cfl(p: ChromaTx, t: EdgeBounds, g: CodedGrid, dir: MhDir) -> MhCfl {
    let e = cfl_edges(p, t);
    let w = 4 * p.tw() + 4 * (if e.has_top { fit_right(p, t, g) } else { 0 }) + 2 * b2i(e.has_left);
    let h = 4 * p.th() + 4 * (if e.has_left { fit_down(p, t, g) } else { 0 });
    let (most_w, most_h) = (
        MAX_FIT as int / p2(p.ss_hor as int),
        MAX_FIT as int / p2(p.ss_ver as int),
    );
    let refw = min(w, most_w);
    MhCfl {
        edges: e,
        dir,
        refw: refw as i32,
        refh: min(h, most_h - 2 * b2i(e.has_top)) as i32,
        subleft: if e.has_left && dir != MhDir::Left && w <= most_w { 1 } else { 0 },
        stride: ((refw + 63) / 64 * 64) as i32,
        n_top: if e.has_top { if dir == MhDir::Top { 2 } else { 1 } } else { 0 },
    }
}

fn count_right(p: &ChromaTx, t: &EdgeBounds, g: &CodedGrid, e: &CflEdges) -> (r: i32)
    requires
        p.valid(),
        t.valid(),
        16 <= t.sb_step,
        g.wf(),
        *e == cfl_edges(*p, *t),
    ensures
        r == fit_right(*p, *t, *g),
        -0x20_0000 <= r <= 16,
{
    let tw: i32 = p.tile_width();
    let x: i32 = halved(p.cbx, p.ss_hor);
    let end: i32 = halved(t.col_end, p.ss_hor);
    if e.top_sb_edge {
        return imax(0, imin(tw, end - x - tw));
    }
    let step: i32 = halved(t.sb_step, p.ss_hor);
    let n: i32 = imin(tw, imin(end_of_sb(x, step), end) - x - tw);
    if n == 0 {
        return 0;
    }
    let w: i32 = p.width();
    imin(g.count_right(p.col() + tw, p.row() - 1, 16), n)
}

fn count_down(p: &ChromaTx, t: &EdgeBounds, g: &CodedGrid) -> (r: i32)
    requires
        p.valid(),
        t.valid(),
        16 <= t.sb_step,
        g.wf(),
    ensures
        r == fit_down(*p, *t, *g),
        -0x20_0000 <= r <= 16,
{
    let th: i32 = p.tile_height();
    let y: i32 = halved(p.cby, p.ss_ver);
    let end: i32 = halved(t.row_end, p.ss_ver);
    let step: i32 = halved(t.sb_step, p.ss_ver);
    let n: i32 = imin(th, imax(0, imin(end_of_sb(y, step), end)) - y - th);
    if p.cbx % t.sb_step == 0 || n <= 0 {
        return n;
    }
    g.count_down(p.col() - 1, p.row() + th, n)
}

/// Plans a fit across several lines.
pub fn plan_mh_cfl(p: &ChromaTx, t: &EdgeBounds, g: &CodedGrid, dir: MhDir) -> (r: MhCfl)
    requires
        p.valid(),
        t.valid(),
        16 <= t.sb_step,
        g.wf(),
    ensures
        r == mh_cfl(*p, *t, *g, dir),
{
    let e: CflEdges = find_edges(p, t);
    let right: i32 = if e.has_top { count_right(p, t, g, &e) } else { 0 };
    let down: i32 = if e.has_left { count_down(p, t, g) } else { 0 };
    let w: i32 = 4 * p.tile_width() + 4 * right + 2 * btoi(e.has_left);
    let h: i32 = 4 * p.tile_height() + 4 * down;
    let most_w: i32 = halved(MAX_FIT, p.ss_hor);
    let most_h: i32 = halved(MAX_FIT, p.ss_ver);
    let refw: i32 = imin(w, most_w);
    let blocks: i64 = crate::intops::floor_div(refw as i64 + 63, 64);
    MhCfl {
        edges: e,
        dir,
        refw,
        refh: imin(h, most_h - 2 * btoi(e.has_top)),
        subleft: if e.has_left && dir != MhDir::Left && w <= most_w { 1 } else { 0 },
        stride: (blocks * 64) as i32,
        n_top: if e.has_top { if dir == MhDir::Top { 2 } else { 1 } } else { 0 },
    }
}

/// The luma of a fit has at most 128 samples of luma in a line, and a line
/// holds all of them.
pub proof fn law_fit_is_bounded(p: ChromaTx, t: EdgeBounds, g: CodedGrid, dir: MhDir)
    requires
        p.valid(),
        t.valid(),
        mh_cfl(p, t, g, dir).refw >= 0,
        fit_right(p, t, g) >= -0x20_0000,
    ensures
        ({
            let r = mh_cfl(p, t, g, dir);
            r.refw <= MAX_FIT && r.refw <= r.stride && r.stride as int % 64 == 0 && r.stride
                < r.refw + 64
        }),
{
    assert(p2(p.ss_hor as int) == 1 || p2(p.ss_hor as int) == 2);
    assert(MAX_FIT as int / p2(p.ss_hor as int) == 128 || MAX_FIT as int / p2(p.ss_hor as int)
        == 64);
}

/// Which edges prediction from luma has, and how many rows of luma above it
/// reads: one across the edge of a superblock, else as many as a row of chroma
/// covers and one more.
pub proof fn law_luma_rows_above(p: ChromaTx, t: EdgeBounds, implicit: bool)
    requires
        0 <= p.ss_ver <= 1,
        t.valid(),
    ensures
        ({
            let c = linear_cfl(p, t, implicit);
            &&& c.edges.has_top == (p.cby > t.row_start)
            &&& c.edges.has_left == (p.cbx > t.col_start)
            &&& c.edges.top_sb_edge == (p.cby as int % t.sb_step as int == 0)
            &&& c.implicit == implicit
            &&& c.edges.top_sb_edge && c.edges.has_top ==> c.rows_above == 1
            &&& !(c.edges.top_sb_edge && c.edges.has_top) ==> c.rows_above == (if p.ss_ver == 0 {
                1int
            } else {
                2
            })
        }),
{
}

/// The samples that several taps are fitted to: two rows above only for the
/// filter that points up, a column to the left only for those that do not point
/// left, within the largest area.
pub proof fn law_taps_are_fitted_to_the_edges(
    p: ChromaTx,
    t: EdgeBounds,
    g: CodedGrid,
    dir: MhDir,
)
    requires
        p.ss_hor == 0,
        p.ss_ver == 0,
    ensures
        ({
            let m = mh_cfl(p, t, g, dir);
            &&& m.dir == dir
            &&& p.cby <= t.row_start ==> m.n_top == 0
            &&& p.cby > t.row_start ==> m.n_top == (if dir == MhDir::Top { 2int } else { 1 })
            &&& p.cbx <= t.col_start || dir == MhDir::Left ==> m.subleft == 0
        }),
{
}

/// Chroma that follows luma is padded up to the size of its block from what
/// lies in the frame.
pub proof fn law_padding_fills_the_block(p: ChromaTx, t: EdgeBounds, implicit: bool)
    requires
        0 <= p.cbw4 <= 64,
        0 <= p.cbh4 <= 64,
        0 <= p.tw() <= 64,
        0 <= p.th() <= 64,
        p.ss_hor == 0,
        p.ss_ver == 0,
    ensures
        ({
            let c = linear_cfl(p, t, implicit);
            &&& c.wpad + p.tw() == p.cbw4
            &&& c.hpad + p.th() == p.cbh4
            &&& c.implicit == implicit
            &&& c.rows_above == 1
            &&& p.tw() <= p.t.w && p.tw() <= p.fw - p.cbx
            &&& p.th() <= p.t.h && p.th() <= p.fh - p.cby
            &&& p.tw() == p.t.w || p.tw() == p.fw - p.cbx
            &&& p.th() == p.t.h || p.th() == p.fh - p.cby
        }),
{
}

} // verus!
