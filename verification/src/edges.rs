//! How much of the surroundings of a block can be predicted from.
use vstd::prelude::*;

use crate::coded::CodedGrid;
use crate::intops::{imin, min, p2, POW2};

verus! {

/// The bounds of the tile and the size of a superblock, in units of a plane.
#[derive(Debug, Clone, Copy, PartialEq, Eq, Structural)]
pub struct EdgeBounds {
    pub col_start: i32,
    pub col_end: i32,
    pub row_start: i32,
    pub row_end: i32,
    pub sb_step: i32,
}

impl EdgeBounds {
    pub open spec fn valid(self) -> bool {
        &&& 0 <= self.col_start <= 0x10_0000
        &&& 0 <= self.col_end <= 0x10_0000
        &&& 0 <= self.row_start <= 0x10_0000
        &&& 0 <= self.row_end <= 0x10_0000
        &&& 8 <= self.sb_step <= 64
    }
}

/// The end of the superblock that holds position `x`.
pub open spec fn sb_end(x: int, step: int) -> int {
    (x + step) / step * step
}

pub fn end_of_sb(x: i32, step: i32) -> (r: i32)
    requires
        0 <= x <= 0x20_0000,
        8 <= step <= 64,
    ensures
        r == sb_end(x as int, step as int),
        x < r <= x + step,
{
    let q: i32 = (x + step) / step;
    proof {
        vstd::arithmetic::div_mod::lemma_fundamental_div_mod(x + step, step as int);
        let (a, m) = ((x + step) / step as int, (x + step) % step as int);
        assert(step * a == a * step) by (nonlinear_arith);
        assert(a * step == x + step - m);
    }
    q * step
}

/// How many units to the right of the row above a luma transform block of
/// `w` units at `(bx, by)` can be used. Within a superblock only units that
/// have been reconstructed count, and at most sixteen; the row above the
/// superblock is there as far as the tile goes. In the later parts of a block
/// that is divided into five, none can be used.
pub open spec fn luma_top_right(
    g: CodedGrid,
    t: EdgeBounds,
    bx: int,
    by: int,
    w: int,
    is_hv5: bool,
) -> int {
    let avail = min(w, t.col_end - bx - w);
    if by <= t.row_start || is_hv5 {
        0
    } else if by % t.sb_step as int == 0 {
        avail
    } else {
        let n = min(avail, min(sb_end(bx, t.sb_step as int), t.col_end as int) - bx - w);
        if n <= 0 {
            0
        } else {
            min(g.run_right((bx % 64 + w) % 64, by % 64 - 1, 16), n)
        }
    }
}

pub fn find_luma_top_right(
    g: &CodedGrid,
    t: &EdgeBounds,
    bx: i32,
    by: i32,
    w: i32,
    is_hv5: bool,
) -> (r: i32)
    requires
        g.wf(),
        t.valid(),
        0 <= bx <= 0x10_0000,
        0 <= by <= 0x10_0000,
        1 <= w <= 16,
    ensures
        r == luma_top_right(*g, *t, bx as int, by as int, w as int, is_hv5),
{
    if by <= t.row_start || is_hv5 {
        return 0;
    }
    let avail: i32 = imin(w, t.col_end - bx - w);
    if by % t.sb_step == 0 {
        return avail;
    }
    let n: i32 = imin(avail, imin(end_of_sb(bx, t.sb_step), t.col_end) - bx - w);
    if n <= 0 {
        return 0;
    }
    imin(g.count_right((bx % 64 + w) % 64, by % 64 - 1, 16), n)
}

/// How many units below the column to the left of a luma transform block of
/// `h` units can be used.
pub open spec fn luma_bottom_left(
    g: CodedGrid,
    t: EdgeBounds,
    bx: int,
    by: int,
    h: int,
    is_hv5: bool,
) -> int {
    let n = min(h, min(sb_end(by, t.sb_step as int), t.row_end as int) - by - h);
    if bx <= t.col_start || is_hv5 || n <= 0 {
        0
    } else if bx % t.sb_step as int == 0 {
        n
    } else {
        g.run_down((bx % 64 - 1) % 64, by % 64 + h, n)
    }
}

pub fn find_luma_bottom_left(
    g: &CodedGrid,
    t: &EdgeBounds,
    bx: i32,
    by: i32,
    h: i32,
    is_hv5: bool,
) -> (r: i32)
    requires
        g.wf(),
        t.valid(),
        0 <= bx <= 0x10_0000,
        0 <= by <= 0x10_0000,
        1 <= h <= 16,
    ensures
        r == luma_bottom_left(*g, *t, bx as int, by as int, h as int, is_hv5),
{
    let n: i32 = imin(h, imin(end_of_sb(by, t.sb_step), t.row_end) - by - h);
    if bx <= t.col_start || is_hv5 || n <= 0 {
        return 0;
    }
    if bx % t.sb_step == 0 {
        return n;
    }
    let x: i32 = if bx % 64 == 0 { 63 } else { bx % 64 - 1 };
    g.count_down(x, by % 64 + h, n)
}

/// Where a chroma transform block lies: the block in units of luma, the
/// transform block in it in units of chroma, and its size there.
#[derive(Debug, Clone, Copy, PartialEq, Eq, Structural)]
pub struct ChromaSite {
    pub cbx: i32,
    pub cby: i32,
    pub x: i32,
    pub y: i32,
    pub ss_hor: i32,
    pub ss_ver: i32,
    /// The size of the transform block within the frame.
    pub w: i32,
    pub h: i32,
    /// The full size of the transform block in samples.
    pub full_w: i32,
    pub full_h: i32,
}

impl ChromaSite {
    pub open spec fn valid(self) -> bool {
        &&& 0 <= self.cbx <= 0x10_0000
        &&& 0 <= self.cby <= 0x10_0000
        &&& 0 <= self.x <= 64
        &&& 0 <= self.y <= 64
        &&& 0 <= self.ss_hor <= 1
        &&& 0 <= self.ss_ver <= 1
        &&& self.w <= 16
        &&& -0x10_0000 <= self.w
        &&& self.h <= 16
        &&& -0x10_0000 <= self.h
    }

    /// The column of the block in chroma units.
    pub open spec fn ssx(self) -> int {
        self.cbx as int / p2(self.ss_hor as int)
    }

    /// The row of the block in chroma units.
    pub open spec fn ssy(self) -> int {
        self.cby as int / p2(self.ss_ver as int)
    }

    /// The column of the block within the area of coded units.
    pub open spec fn cx4(self) -> int {
        self.cbx as int % 64 / p2(self.ss_hor as int)
    }

    /// The row of the block within the area of coded units.
    pub open spec fn cy4(self) -> int {
        self.cby as int % 64 / p2(self.ss_ver as int)
    }
}

/// How many units to the right of the row above a chroma transform block can
/// be used.
pub open spec fn chroma_top_right(g: CodedGrid, t: EdgeBounds, s: ChromaSite) -> int {
    let end = t.col_end as int / p2(s.ss_hor as int);
    let x = s.ssx() + s.x;
    let step = t.sb_step as int / p2(s.ss_hor as int);
    if s.cby + s.y * p2(s.ss_ver as int) <= t.row_start || s.full_w >= 64 {
        0
    } else if (s.cby + s.y) % t.sb_step as int == 0 {
        min(s.w as int, end - x - s.w)
    } else {
        let n = min(s.w as int, min(sb_end(x, step), end) - x - s.w);
        if n == 0 {
            0
        } else {
            min(g.run_right(s.cx4() + s.x + s.w, s.cy4() + s.y - 1, 16), n)
        }
    }
}

/// `v` units of luma in units of chroma.
pub fn halved(v: i32, ss: i32) -> (r: i32)
    requires
        0 <= v,
        0 <= ss <= 1,
    ensures
        r == v as int / p2(ss as int),
        0 <= r <= v,
        ss == 1 ==> r == v / 2,
        ss == 0 ==> r == v,
{
    assert(POW2[0] == 1 && POW2[1] == 2);
    if ss == 1 {
        v / 2
    } else {
        v
    }
}

/// `v` units of chroma in units of luma.
pub fn doubled(v: i32, ss: i32) -> (r: i32)
    requires
        0 <= v <= 0x1000,
        0 <= ss <= 1,
    ensures
        r == v * p2(ss as int),
        0 <= r <= 2 * v,
{
    let ghost d = p2(ss as int);
    if ss == 1 {
        assert(v * d == v * 2) by (nonlinear_arith)
            requires
                d == 2,
        ;
        2 * v
    } else {
        assert(v * d == v) by (nonlinear_arith)
            requires
                d == 1,
        ;
        v
    }
}

pub fn find_chroma_top_right(g: &CodedGrid, t: &EdgeBounds, s: &ChromaSite) -> (r: i32)
    requires
        g.wf(),
        t.valid(),
        16 <= t.sb_step,
        s.valid(),
        0 <= s.cx4() + s.x + s.w <= 64,
    ensures
        r == chroma_top_right(*g, *t, *s),
{
    if s.cby + doubled(s.y, s.ss_ver) <= t.row_start || s.full_w >= 64 {
        return 0;
    }
    let end: i32 = halved(t.col_end, s.ss_hor);
    let x: i32 = halved(s.cbx, s.ss_hor) + s.x;
    if (s.cby + s.y) % t.sb_step == 0 {
        return imin(s.w, end - x - s.w);
    }
    let step: i32 = halved(t.sb_step, s.ss_hor);
    assert(x <= 0x10_0040);
    let sbe: i32 = end_of_sb(x, step);
    let n: i32 = imin(s.w, imin(sbe, end) - x - s.w);
    if n == 0 {
        return 0;
    }
    let cx: i32 = halved(s.cbx % 64, s.ss_hor);
    let cy: i32 = halved(s.cby % 64, s.ss_ver);
    imin(g.count_right(cx + s.x + s.w, cy + s.y - 1, 16), n)
}

/// How many units below the column to the left of a chroma transform block
/// can be used.
pub open spec fn chroma_bottom_left(g: CodedGrid, t: EdgeBounds, s: ChromaSite) -> int {
    let end = t.row_end as int / p2(s.ss_ver as int);
    let y = s.ssy() + s.y;
    let step = t.sb_step as int / p2(s.ss_ver as int);
    let n = min(s.h as int, min(sb_end(y, step), end) - y - s.h);
    if s.cbx + s.x * p2(s.ss_hor as int) <= t.col_start || s.full_h >= 64 {
        0
    } else if (s.cbx + s.x) % t.sb_step as int == 0 || n <= 0 {
        n
    } else {
        g.run_down(s.cx4() + s.x - 1, s.cy4() + s.y + s.h, n)
    }
}

pub fn find_chroma_bottom_left(g: &CodedGrid, t: &EdgeBounds, s: &ChromaSite) -> (r: i32)
    requires
        g.wf(),
        t.valid(),
        16 <= t.sb_step,
        s.valid(),
        0 <= s.cy4() + s.y + s.h,
    ensures
        r == chroma_bottom_left(*g, *t, *s),
{
    if s.cbx + doubled(s.x, s.ss_hor) <= t.col_start || s.full_h >= 64 {
        return 0;
    }
    let end: i32 = halved(t.row_end, s.ss_ver);
    let y: i32 = halved(s.cby, s.ss_ver) + s.y;
    let step: i32 = halved(t.sb_step, s.ss_ver);
    let n: i32 = imin(s.h, imin(end_of_sb(y, step), end) - y - s.h);
    if (s.cbx + s.x) % t.sb_step == 0 || n <= 0 {
        return n;
    }
    let cx: i32 = halved(s.cbx % 64, s.ss_hor);
    let cy: i32 = halved(s.cby % 64, s.ss_ver);
    g.count_down(cx + s.x - 1, cy + s.y + s.h, n)
}

/// The end of a superblock is the first multiple of its step after a position.
pub proof fn law_superblock_ends_after_the_position(x: int, step: int)
    requires
        step >= 1,
    ensures
        x < sb_end(x, step) <= x + step,
        sb_end(x, step) % step == 0,
{
    vstd::arithmetic::div_mod::lemma_fundamental_div_mod(x + step, step);
    vstd::arithmetic::div_mod::lemma_mod_multiples_basic((x + step) / step, step);
    assert(step * ((x + step) / step) == (x + step) / step * step) by (nonlinear_arith);
}

/// What can be used of the row above on the right: nothing at the top of the
/// tile, never more than the block is wide, never beyond the tile, and within
/// a superblock never beyond its end.
pub proof fn law_right_edge_stays_in_reach(g: CodedGrid, t: EdgeBounds, bx: int, by: int, w: int)
    requires
        t.valid(),
        1 <= w <= 16,
        0 <= bx,
        bx + w <= t.col_end,
        0 <= by,
    ensures
        ({
            let n = luma_top_right(g, t, bx, by, w, false);
            &&& luma_top_right(g, t, bx, by, w, true) == 0
            &&& by <= t.row_start ==> n == 0
            &&& n <= w
            &&& bx + w + n <= t.col_end
            &&& by > t.row_start && by % t.sb_step as int == 0 ==> n == w || bx + w + n == t.col_end
            &&& by > t.row_start && by % t.sb_step as int != 0 && n > 0 ==> bx + w + n <= sb_end(
                bx,
                t.sb_step as int,
            )
        }),
{
}

/// What can be used of the column on the left below: nothing at the left edge
/// of the tile, never more than the block is high, never beyond the tile or the
/// superblock row.
pub proof fn law_lower_edge_stays_in_reach(g: CodedGrid, t: EdgeBounds, bx: int, by: int, h: int)
    requires
        t.valid(),
        1 <= h <= 16,
        0 <= bx,
        0 <= by,
        by + h <= t.row_end,
    ensures
        ({
            let n = luma_bottom_left(g, t, bx, by, h, false);
            &&& luma_bottom_left(g, t, bx, by, h, true) == 0
            &&& bx <= t.col_start ==> n == 0
            &&& bx > t.col_start && bx % t.sb_step as int == 0 && n != 0 ==> n <= h && by + h + n
                <= t.row_end && by + h + n <= sb_end(by, t.sb_step as int)
            &&& bx > t.col_start && bx % t.sb_step as int == 0 && by + 2 * h <= t.row_end && by + 2 * h
                <= sb_end(by, t.sb_step as int) ==> n == h
        }),
{
}

/// Beside the first row of a tile there is nothing above to go on to the
/// right, and beside its first column nothing below to the left; chroma blocks
/// of 64 samples and more do not look there either.
pub proof fn law_chroma_looks_within_its_tile(g: CodedGrid, t: EdgeBounds, s: ChromaSite)
    requires
        t.valid(),
        s.valid(),
        0 < s.w,
        0 < s.h,
    ensures
        s.ss_ver == 0 && s.cby + s.y <= t.row_start ==> chroma_top_right(g, t, s) == 0,
        s.ss_ver == 1 && s.cby + 2 * s.y <= t.row_start ==> chroma_top_right(g, t, s) == 0,
        s.ss_hor == 0 && s.cbx + s.x <= t.col_start ==> chroma_bottom_left(g, t, s) == 0,
        s.ss_hor == 1 && s.cbx + 2 * s.x <= t.col_start ==> chroma_bottom_left(g, t, s) == 0,
        s.full_w >= 64 ==> chroma_top_right(g, t, s) == 0,
        s.full_h >= 64 ==> chroma_bottom_left(g, t, s) == 0,
        chroma_top_right(g, t, s) <= s.w,
        s.ss_hor == 0 && chroma_top_right(g, t, s) > 0 ==> s.cbx + s.x + s.w + chroma_top_right(
            g,
            t,
            s,
        ) <= t.col_end,
        s.ss_hor == 1 && chroma_top_right(g, t, s) > 0 ==> 2 * (s.cbx as int / 2 + s.x + s.w
            + chroma_top_right(g, t, s)) <= t.col_end,
        s.ss_ver == 0 && s.full_h < 64 && s.cbx + s.x > t.col_start && s.ss_hor == 0 && (s.cbx
            + s.x) % t.sb_step as int == 0 && chroma_bottom_left(g, t, s) > 0 ==> s.cby + s.y + s.h
            + chroma_bottom_left(g, t, s) <= t.row_end && chroma_bottom_left(g, t, s) <= s.h,
{
    assert(p2(0) == 1 && p2(1) == 2);
    assert(s.y * p2(s.ss_ver as int) == (if s.ss_ver == 0 { s.y as int } else { 2 * s.y }))
        by (nonlinear_arith)
        requires
            p2(s.ss_ver as int) == (if s.ss_ver == 0 { 1int } else { 2 }),
    ;
    assert(s.x * p2(s.ss_hor as int) == (if s.ss_hor == 0 { s.x as int } else { 2 * s.x }))
        by (nonlinear_arith)
        requires
            p2(s.ss_hor as int) == (if s.ss_hor == 0 { 1int } else { 2 }),
    ;
    assert(t.col_end as int / 1 == t.col_end);
    assert(t.row_end as int / 1 == t.row_end);
    assert(s.cbx as int / 1 == s.cbx && s.cby as int / 1 == s.cby);
}

/// A chroma block lies at its luma position divided by the subsampling of its
/// direction.
pub proof fn law_chroma_lies_at_its_luma_position(s: ChromaSite)
    requires
        s.valid(),
    ensures
        s.ss_hor == 0 ==> s.ssx() == s.cbx && s.cx4() == s.cbx % 64,
        s.ss_ver == 0 ==> s.ssy() == s.cby && s.cy4() == s.cby % 64,
        s.ss_hor == 1 ==> s.cbx - 1 <= 2 * s.ssx() <= s.cbx && s.cx4() == s.ssx() % 32,
        s.ss_ver == 1 ==> s.cby - 1 <= 2 * s.ssy() <= s.cby && s.cy4() == s.ssy() % 32,
{
    assert(p2(0) == 1 && p2(1) == 2);
    assert(s.cbx as int / 1 == s.cbx && s.cby as int / 1 == s.cby);
    assert((s.cbx as int % 64) / 1 == s.cbx as int % 64);
    assert((s.cby as int % 64) / 1 == s.cby as int % 64);
}

} // verus!
