//! Warped motion from neighbouring blocks.
use vstd::prelude::*;

use crate::headers::WarpedMotionType;
use crate::intops::{b2i, clip, floor_div, p2, shr64, POW2};
use crate::levels::{BlockSize, Mv};

verus! {

/// The motion of a block, as later blocks see it: its size, the position of
/// the unit in it, and how it moves.
#[derive(Debug, Clone, Copy)]
pub struct MvBlock {
    pub bs: BlockSize,
    pub ox4: u8,
    pub oy4: u8,
    pub refs: [i8; 2],
    pub mv: [Mv; 2],
    /// The motion at the centre of a warped block.
    pub lmv: [Mv; 2],
    /// Bit 0 for global and bit 1 for local warped motion.
    pub mf: u8,
    pub warp_type: WarpedMotionType,
    pub m: [i32; 6],
    /// The filter between samples.
    pub filter: u8,
    /// Whether the vectors are known.
    pub valid: bool,
}

impl MvBlock {
    pub open spec fn local_warp(self) -> bool {
        self.mf / 2 % 2 == 1
    }

    pub open spec fn global_warp(self) -> bool {
        self.mf % 2 == 1
    }

    /// The motion that counts for the prediction of others.
    pub open spec fn motion(self, n: int) -> Mv {
        if self.local_warp() { self.lmv[n] } else { self.mv[n] }
    }

    /// The unit lies in a block, and its vectors can be added to a position.
    pub open spec fn wf(self) -> bool {
        &&& self.bs != BlockSize::Invalid
        &&& self.ox4 < self.bs.w4()
        &&& self.oy4 < self.bs.h4()
        &&& forall|n: int|
            0 <= n < 2 ==> -0x1000_0000 <= (#[trigger] self.mv[n]).c.x <= 0x1000_0000
                && -0x1000_0000 <= self.mv[n].c.y <= 0x1000_0000
        &&& forall|n: int|
            0 <= n < 2 ==> -0x1000_0000 <= (#[trigger] self.lmv[n]).c.x <= 0x1000_0000
                && -0x1000_0000 <= self.lmv[n].c.y <= 0x1000_0000
    }
}

/// The motion around the current block: the units of the superblock rows in
/// 64 lines of 128, the line above the superblock row at half width, and the
/// unit above and to the left of the superblock.
pub struct MvTile {
    pub r: Vec<MvBlock>,
    pub ra: Vec<MvBlock>,
    pub ra_off: usize,
    pub ra_tl: MvBlock,
}

/// The position of a unit among those of the superblock rows.
pub open spec fn unit_at(x: int, y: int) -> int {
    y % 64 * 128 + x % 128
}

impl MvTile {
    pub open spec fn wf(self) -> bool {
        &&& self.r@.len() == 64 * 128
        &&& forall|i: int| 0 <= i < self.r@.len() ==> (#[trigger] self.r@[i]).wf()
        &&& forall|i: int| 0 <= i < self.ra@.len() ==> (#[trigger] self.ra@[i]).wf()
        &&& self.ra_tl.wf()
    }

    /// The unit at a position of the superblock rows.
    pub open spec fn unit(self, x: int, y: int) -> MvBlock {
        self.r@[unit_at(x, y)]
    }

    /// The unit above the superblock row in column `x`.
    pub open spec fn above(self, x: int) -> MvBlock {
        self.ra@[self.ra_off + x / 2]
    }

    pub fn get_unit(&self, x: i32, y: i32) -> (b: &MvBlock)
        requires
            self.wf(),
            0 <= x,
            0 <= y,
        ensures
            *b == self.unit(x as int, y as int),
            b.wf(),
    {
        &self.r[(y % 64 * 128 + x % 128) as usize]
    }

    pub fn get_above(&self, x: i32) -> (b: &MvBlock)
        requires
            self.wf(),
            0 <= x,
            self.ra_off + x / 2 < self.ra@.len(),
        ensures
            *b == self.above(x as int),
            b.wf(),
    {
        let n: usize = self.ra.len();
        assert(self.ra_off + x / 2 < n);
        &self.ra[self.ra_off + (x / 2) as usize]
    }
}

/// Where a neighbour lies relative to the corner of the current block, and
/// where it has moved to, in eighths of a pixel.
#[derive(Debug, Clone, Copy, PartialEq, Eq, Structural)]
pub struct WarpSample {
    pub x: i32,
    pub y: i32,
    pub to_x: i32,
    pub to_y: i32,
}

/// The sample of motion `n` of block `b`, whose corner towards the current
/// block is at `(dx, dy)` units, and which extends from there in the
/// directions `(sx, sy)`.
pub open spec fn sample_of(b: MvBlock, n: int, dx: int, dy: int, sx: int, sy: int) -> WarpSample {
    let x = 16 * (2 * dx + sx * b.bs.w4()) - 8;
    let y = 16 * (2 * dy + sy * b.bs.h4()) - 8;
    WarpSample {
        x: x as i32,
        y: y as i32,
        to_x: (x + b.motion(n).c.x) as i32,
        to_y: (y + b.motion(n).c.y) as i32,
    }
}

/// At most this many neighbours are looked at.
pub const MAX_SAMPLES: usize = 8;

/// The samples with those motions of `b` that refer to `ref_idx`.
pub open spec fn with_samples(
    acc: Seq<WarpSample>,
    b: MvBlock,
    dx: int,
    dy: int,
    sx: int,
    sy: int,
    ref_idx: i8,
) -> Seq<WarpSample> {
    let acc = if b.refs[0] == ref_idx {
        acc.push(sample_of(b, 0, dx, dy, sx, sy))
    } else {
        acc
    };
    if b.refs[1] == ref_idx && acc.len() < MAX_SAMPLES {
        acc.push(sample_of(b, 1, dx, dy, sx, sy))
    } else {
        acc
    }
}

fn make_sample(b: &MvBlock, n: usize, dx: i32, dy: i32, sx: i32, sy: i32) -> (r: WarpSample)
    requires
        b.wf(),
        n < 2,
        -0x1000 <= dx <= 0x1000,
        -0x1000 <= dy <= 0x1000,
        sx == 1 || sx == -1,
        sy == 1 || sy == -1,
    ensures
        r == sample_of(*b, n as int, dx as int, dy as int, sx as int, sy as int),
{
    let d: [u8; 4] = b.bs.dim();
    let m: Mv = if b.mf / 2 % 2 == 1 { b.lmv[n] } else { b.mv[n] };
    let w: i32 = if sx == 1 { d[0] as i32 } else { -(d[0] as i32) };
    let h: i32 = if sy == 1 { d[1] as i32 } else { -(d[1] as i32) };
    let x: i32 = 16 * (2 * dx + w) - 8;
    let y: i32 = 16 * (2 * dy + h) - 8;
    WarpSample { x, y, to_x: x + m.c.x, to_y: y + m.c.y }
}

fn add_samples(
    acc: &mut Vec<WarpSample>,
    b: &MvBlock,
    dx: i32,
    dy: i32,
    sx: i32,
    sy: i32,
    ref_idx: i8,
)
    requires
        b.wf(),
        -0x1000 <= dx <= 0x1000,
        -0x1000 <= dy <= 0x1000,
        sx == 1 || sx == -1,
        sy == 1 || sy == -1,
        old(acc)@.len() < MAX_SAMPLES,
    ensures
        final(acc)@ == with_samples(
            old(acc)@,
            *b,
            dx as int,
            dy as int,
            sx as int,
            sy as int,
            ref_idx,
        ),
        final(acc)@.len() <= MAX_SAMPLES,
{
    if b.refs[0] == ref_idx {
        acc.push(make_sample(b, 0, dx, dy, sx, sy));
    }
    if b.refs[1] == ref_idx && acc.len() < MAX_SAMPLES {
        acc.push(make_sample(b, 1, dx, dy, sx, sy));
    }
}

/// The blocks above within the superblock, from column offset `off` on: the
/// offset after the last one, and the samples.
pub open spec fn scan_top(
    t: MvTile,
    bx: int,
    by: int,
    off: int,
    w4: int,
    acc: Seq<WarpSample>,
    ref_idx: i8,
) -> (int, Seq<WarpSample>)
    decreases max0(w4 - off),
{
    if off >= w4 || acc.len() >= MAX_SAMPLES {
        (off, acc)
    } else {
        let b = t.unit(bx + off, by - 1);
        if b.bs.w4() < 1 {
            (off, acc)
        } else {
            scan_top(
                t,
                bx,
                by,
                off + b.bs.w4(),
                w4,
                with_samples(acc, b, off, 0, 1, -1, ref_idx),
                ref_idx,
            )
        }
    }
}

/// The blocks above the superblock row, from column offset `off` on.
pub open spec fn scan_above(
    t: MvTile,
    bx: int,
    off: int,
    end: int,
    acc: Seq<WarpSample>,
    ref_idx: i8,
) -> Seq<WarpSample>
    decreases max0(end - off),
{
    if off >= end || acc.len() >= MAX_SAMPLES {
        acc
    } else {
        let b = t.above(bx + off);
        let start = off - b.ox4 - (bx + off) % 2;
        if start + b.bs.w4() + 1 <= off {
            acc
        } else {
            scan_above(
                t,
                bx,
                start + b.bs.w4() + 1,
                end,
                with_samples(acc, b, start, 0, 1, -1, ref_idx),
                ref_idx,
            )
        }
    }
}

/// The blocks to the left, from row offset `off` on; the first one always
/// counts.
pub open spec fn scan_left(
    t: MvTile,
    bx: int,
    by: int,
    off: int,
    h4: int,
    acc: Seq<WarpSample>,
    ref_idx: i8,
) -> Seq<WarpSample>
    decreases max0(h4 - off),
{
    let b = t.unit(bx - 1, by + off);
    let acc = with_samples(acc, b, 0, off, -1, 1, ref_idx);
    let next = off + b.bs.h4();
    if next >= h4 || acc.len() >= MAX_SAMPLES || next <= off {
        acc
    } else {
        scan_left(t, bx, by, next, h4, acc, ref_idx)
    }
}

pub open spec fn max0(v: int) -> int {
    if v < 0 { 0 } else { v }
}

/// The block whose motion is derived: its position and size, its size within
/// the frame, which neighbours exist, and the bounds around it.
pub struct WarpSite {
    pub bx: i32,
    pub by: i32,
    pub have_top: bool,
    pub have_left: bool,
    pub bw4: i32,
    pub w4: i32,
    pub h4: i32,
    pub sb_step: i32,
    pub col_end: i32,
}

impl WarpSite {
    /// Whether the row above belongs to the same superblock.
    pub open spec fn inside(self) -> bool {
        self.by % self.sb_step != 0
    }

    pub open spec fn valid(self, t: MvTile) -> bool {
        &&& 0 <= self.bx <= 0x10000
        &&& 0 <= self.by <= 0x10000
        &&& 1 <= self.w4 <= self.bw4 <= 64
        &&& 1 <= self.h4 <= 64
        &&& 1 <= self.sb_step <= 64
        &&& self.have_top ==> self.by >= 1
        &&& self.have_left ==> {
            &&& self.bx >= 1
            &&& t.unit(self.bx - 1, self.by as int).oy4 <= self.by % 64
            &&& self.by % 64 + self.h4 <= 64
        }
        &&& self.have_top && self.inside() ==> t.unit(self.bx as int, self.by - 1).ox4 <= self.bx
        &&& t.ra@.len() <= 0x1000_0000
        &&& self.have_top && !self.inside() ==> t.ra_off + self.reach() / 2 < t.ra@.len()
    }

    /// The last column of the row above the superblock row that is looked at:
    /// one beyond the block where that lies in the same superblock, and the
    /// corner beside it where that lies in the tile.
    pub open spec fn reach(self) -> int {
        if self.bw4 <= 16 && self.bx + self.bw4 + 1 < self.col_end {
            self.bx + self.bw4 + 1
        } else if (self.bx + self.bw4) % self.sb_step as int != 0 {
            self.bx + self.bw4
        } else {
            self.bx + self.w4 - 1
        }
    }
}

/// What the row above yields: whether the corners left and right of it may be
/// used, and the samples.
pub struct TopScan {
    pub topleft: bool,
    pub topright: bool,
    pub samples: Seq<WarpSample>,
}

/// The first column of the blocks above the superblock row that is looked at.
pub open spec fn above_start(t: MvTile, bx: int) -> int {
    let b = t.above(bx);
    b2i(b.bs.w4() <= b.ox4 + bx % 2)
}

/// How far the row above the superblock row is looked at beyond the block.
pub open spec fn above_extra(t: MvTile, w: WarpSite) -> int {
    b2i(
        (w.bx + w.bw4) % w.sb_step as int != 0 && (t.above(w.bx + w.bw4).ox4 != 0 || w.bx % 2
            != 0),
    )
}

pub open spec fn top_scan(t: MvTile, w: WarpSite, ref_idx: i8) -> TopScan {
    let (bx, by) = (w.bx as int, w.by as int);
    if !w.have_top {
        TopScan { topleft: false, topright: false, samples: Seq::empty() }
    } else if w.inside() {
        let off = -(t.unit(bx, by - 1).ox4 as int);
        let (end, samples) = scan_top(t, bx, by, off, w.w4 as int, Seq::empty(), ref_idx);
        TopScan {
            topleft: off == 0,
            topright: end <= w.bw4 && w.bw4 <= 16 && bx + w.bw4 < w.col_end && (bx + w.bw4)
                % w.sb_step as int != 0 && t.unit(bx + w.bw4, by - 1).valid,
            samples,
        }
    } else {
        TopScan {
            topleft: true,
            topright: w.bw4 <= 16 && bx + w.bw4 + 1 < w.col_end,
            samples: scan_above(
                t,
                bx,
                above_start(t, bx),
                w.w4 + above_extra(t, w),
                Seq::empty(),
                ref_idx,
            ),
        }
    }
}

/// The samples of the row above and of the column to the left; and whether
/// the corner between them may be used.
pub open spec fn edge_scan(t: MvTile, w: WarpSite, ref_idx: i8) -> (bool, Seq<WarpSample>) {
    let top = top_scan(t, w, ref_idx);
    if top.samples.len() < MAX_SAMPLES && w.have_left {
        let off = -(t.unit(w.bx - 1, w.by as int).oy4 as int);
        (
            top.topleft && off == 0,
            scan_left(t, w.bx as int, w.by as int, off, w.h4 as int, top.samples, ref_idx),
        )
    } else {
        (false, top.samples)
    }
}

/// The samples that the motion of a block is derived from: the row above, the
/// column to the left, and the corners between and beside them.
pub open spec fn warp_samples(t: MvTile, w: WarpSite, ref_idx: i8) -> Seq<WarpSample> {
    let (bx, by) = (w.bx as int, w.by as int);
    let topright = top_scan(t, w, ref_idx).topright;
    let (topleft, acc) = edge_scan(t, w, ref_idx);
    if w.inside() {
        let acc = if acc.len() < MAX_SAMPLES && topleft {
            with_samples(acc, t.unit(bx - 1, by - 1), 0, 0, -1, -1, ref_idx)
        } else {
            acc
        };
        if acc.len() < MAX_SAMPLES && topright {
            with_samples(acc, t.unit(bx + w.bw4, by - 1), w.bw4 as int, 0, 1, -1, ref_idx)
        } else {
            acc
        }
    } else {
        let b = if bx % w.sb_step as int != 0 {
            t.above(bx - 1)
        } else {
            t.ra_tl
        };
        let acc = if acc.len() < MAX_SAMPLES && topleft && b.bs.w4() + bx % 2 == b.ox4 + 2 {
            with_samples(acc, b, 0, 0, -1, -1, ref_idx)
        } else {
            acc
        };
        let c = t.above(bx + w.bw4 + 1);
        if acc.len() < MAX_SAMPLES && topright && c.ox4 == bx % 2 {
            with_samples(acc, c, w.bw4 as int, 0, 1, -1, ref_idx)
        } else {
            acc
        }
    }
}

fn run_scan_top(
    t: &MvTile,
    bx: i32,
    by: i32,
    w4: i32,
    acc: &mut Vec<WarpSample>,
    ref_idx: i8,
) -> (end: i32)
    requires
        t.wf(),
        0 <= bx <= 0x10000,
        1 <= by <= 0x10000,
        1 <= w4 <= 64,
        t.unit(bx as int, by - 1).ox4 <= bx,
        old(acc)@.len() == 0,
    ensures
        (end as int, final(acc)@) == scan_top(
            *t,
            bx as int,
            by as int,
            -(t.unit(bx as int, by - 1).ox4 as int),
            w4 as int,
            Seq::empty(),
            ref_idx,
        ),
        final(acc)@.len() <= MAX_SAMPLES,
        end <= 128,
{
    let first: i32 = -(t.get_unit(bx, by - 1).ox4 as i32);
    let mut off: i32 = first;
    assert(acc@ == Seq::<WarpSample>::empty());
    while off < w4 && acc.len() < MAX_SAMPLES
        invariant
            t.wf(),
            0 <= bx <= 0x10000,
            1 <= by <= 0x10000,
            1 <= w4 <= 64,
            -255 <= first <= off <= 128,
            bx + first >= 0,
            acc@.len() <= MAX_SAMPLES,
            scan_top(*t, bx as int, by as int, off as int, w4 as int, acc@, ref_idx) == scan_top(
                *t,
                bx as int,
                by as int,
                first as int,
                w4 as int,
                Seq::empty(),
                ref_idx,
            ),
        decreases max0(w4 - off),
    {
        let b: &MvBlock = t.get_unit(bx + off, by - 1);
        let d: [u8; 4] = b.bs.dim();
        add_samples(acc, b, off, 0, 1, -1, ref_idx);
        off = off + d[0] as i32;
    }
    off
}

fn run_scan_above(t: &MvTile, w: &WarpSite, acc: &mut Vec<WarpSample>, ref_idx: i8)
    requires
        t.wf(),
        w.valid(*t),
        w.have_top,
        !w.inside(),
        old(acc)@.len() == 0,
    ensures
        final(acc)@ == scan_above(
            *t,
            w.bx as int,
            above_start(*t, w.bx as int),
            w.w4 + above_extra(*t, *w),
            Seq::empty(),
            ref_idx,
        ),
        final(acc)@.len() <= MAX_SAMPLES,
{
    let bx: i32 = w.bx;
    let odd: i32 = bx % 2;
    let b: &MvBlock = t.get_above(bx);
    let d: [u8; 4] = b.bs.dim();
    let first: i32 = if d[0] as i32 <= b.ox4 as i32 + odd { 1 } else { 0 };
    let extra: i32 = if (bx + w.bw4) % w.sb_step != 0 && (t.get_above(bx + w.bw4).ox4 != 0 || odd
        != 0) {
        1
    } else {
        0
    };
    let end: i32 = w.w4 + extra;
    let mut off: i32 = first;
    assert(acc@ == Seq::<WarpSample>::empty());
    while off < end && acc.len() < MAX_SAMPLES
        invariant
            t.wf(),
            w.valid(*t),
            w.have_top,
            !w.inside(),
            bx == w.bx,
            0 <= off <= 130,
            bx + end <= w.reach() + 1,
            end <= 65,
            acc@.len() <= MAX_SAMPLES,
            scan_above(*t, bx as int, off as int, end as int, acc@, ref_idx) == scan_above(
                *t,
                bx as int,
                first as int,
                end as int,
                Seq::empty(),
                ref_idx,
            ),
        decreases max0(end - off),
    {
        let b: &MvBlock = t.get_above(bx + off);
        let d: [u8; 4] = b.bs.dim();
        let start: i32 = off - b.ox4 as i32 - (bx + off) % 2;
        add_samples(acc, b, start, 0, 1, -1, ref_idx);
        off = start + d[0] as i32 + 1;
    }
}

fn run_scan_left(t: &MvTile, w: &WarpSite, off: i32, acc: &mut Vec<WarpSample>, ref_idx: i8)
    requires
        t.wf(),
        w.valid(*t),
        w.have_left,
        -(w.by % 64) <= off <= 0,
        old(acc)@.len() < MAX_SAMPLES,
    ensures
        final(acc)@ == scan_left(
            *t,
            w.bx as int,
            w.by as int,
            off as int,
            w.h4 as int,
            old(acc)@,
            ref_idx,
        ),
        final(acc)@.len() <= MAX_SAMPLES,
{
    let ghost acc0 = acc@;
    let mut cur: i32 = off;
    let mut done: bool = false;
    while !done
        invariant
            t.wf(),
            w.valid(*t),
            w.have_left,
            -(w.by % 64) <= off <= cur <= 128,
            !done ==> cur < w.h4,
            !done ==> acc@.len() < MAX_SAMPLES,
            acc@.len() <= MAX_SAMPLES,
            !done ==> scan_left(
                *t,
                w.bx as int,
                w.by as int,
                cur as int,
                w.h4 as int,
                acc@,
                ref_idx,
            ) == scan_left(*t, w.bx as int, w.by as int, off as int, w.h4 as int, acc0, ref_idx),
            done ==> acc@ == scan_left(
                *t,
                w.bx as int,
                w.by as int,
                off as int,
                w.h4 as int,
                acc0,
                ref_idx,
            ),
        decreases (if done { 0 } else { 1 + max0(w.h4 - cur) }),
    {
        let b: &MvBlock = t.get_unit(w.bx - 1, w.by + cur);
        let d: [u8; 4] = b.bs.dim();
        add_samples(acc, b, 0, cur, -1, 1, ref_idx);
        cur = cur + d[1] as i32;
        if cur >= w.h4 || acc.len() >= MAX_SAMPLES {
            done = true;
        }
    }
}

/// Collects the samples that the warped motion of a block is derived from.
pub fn derive_warpmv(t: &MvTile, w: &WarpSite, ref_idx: i8) -> (r: Vec<WarpSample>)
    requires
        t.wf(),
        w.valid(*t),
    ensures
        r@ == warp_samples(*t, *w, ref_idx),
        r@.len() <= MAX_SAMPLES,
{
    let (bx, by): (i32, i32) = (w.bx, w.by);
    let mut acc: Vec<WarpSample> = Vec::new();
    let inside: bool = by % w.sb_step != 0;
    let mut topleft: bool = false;
    let mut topright: bool = false;
    if w.have_top {
        if inside {
            topleft = t.get_unit(bx, by - 1).ox4 == 0;
            let end: i32 = run_scan_top(t, bx, by, w.w4, &mut acc, ref_idx);
            topright = end <= w.bw4 && w.bw4 <= 16 && bx + w.bw4 < w.col_end && (bx + w.bw4)
                % w.sb_step != 0 && t.get_unit(bx + w.bw4, by - 1).valid;
        } else {
            run_scan_above(t, w, &mut acc, ref_idx);
            topleft = true;
            topright = w.bw4 <= 16 && bx + w.bw4 + 1 < w.col_end;
        }
    }
    let ghost top = top_scan(*t, *w, ref_idx);
    assert(acc@ == top.samples && topleft == top.topleft && topright == top.topright);
    if acc.len() < MAX_SAMPLES && w.have_left {
        let off: i32 = -(t.get_unit(bx - 1, by).oy4 as i32);
        topleft = topleft && off == 0;
        run_scan_left(t, w, off, &mut acc, ref_idx);
    } else {
        topleft = false;
    }
    assert((topleft, acc@) == edge_scan(*t, *w, ref_idx));
    if inside {
        if acc.len() < MAX_SAMPLES && topleft {
            add_samples(&mut acc, t.get_unit(bx - 1, by - 1), 0, 0, -1, -1, ref_idx);
        }
        if acc.len() < MAX_SAMPLES && topright {
            add_samples(&mut acc, t.get_unit(bx + w.bw4, by - 1), w.bw4, 0, 1, -1, ref_idx);
        }
    } else {
        let odd: i32 = bx % 2;
        if acc.len() < MAX_SAMPLES && topleft {
            let b: &MvBlock = if bx % w.sb_step != 0 {
                t.get_above(bx - 1)
            } else {
                &t.ra_tl
            };
            let d: [u8; 4] = b.bs.dim();
            if d[0] as i32 + odd == b.ox4 as i32 + 2 {
                add_samples(&mut acc, b, 0, 0, -1, -1, ref_idx);
            }
        }
        if acc.len() < MAX_SAMPLES && topright {
            let b: &MvBlock = t.get_above(bx + w.bw4 + 1);
            if b.ox4 as i32 == odd {
                add_samples(&mut acc, b, w.bw4, 0, 1, -1, ref_idx);
            }
        }
    }
    acc
}

/// The kind of a warp that was fitted: invalid where no matrix was found, or
/// where it cannot be split into shears.
pub open spec fn fitted_kind(
    found: bool,
    shears: bool,
    kind: WarpedMotionType,
) -> WarpedMotionType {
    if found && shears { kind } else { WarpedMotionType::Invalid }
}

pub fn fitted_type(found: bool, shears: bool, kind: WarpedMotionType) -> (r: WarpedMotionType)
    ensures
        r == fitted_kind(found, shears, kind),
{
    if found && shears {
        kind
    } else {
        WarpedMotionType::Invalid
    }
}

/// The matrix that leaves everything in place.
pub const IDENTITY_MATRIX: [i32; 6] = [0, 0, 0x10000, 0, 0, 0x10000];

/// The neighbour that a warp is extended from, `x_off` and `y_off` units from
/// the corner of the block.
pub open spec fn extended_from(
    t: MvTile,
    bx: int,
    by: int,
    x_off: int,
    y_off: int,
    sb_step: int,
) -> MvBlock {
    if y_off == -1 && by % sb_step == 0 {
        if x_off < 0 && bx % sb_step == 0 {
            t.ra_tl
        } else {
            t.above(bx + x_off)
        }
    } else {
        t.unit(bx + x_off, by + y_off)
    }
}

/// The warp of a block: its own, the global one, or a shift, of which 32 bits
/// are kept.
pub open spec fn warp_of(b: MvBlock, ref0: i8, gmv: [i32; 6]) -> Seq<i32> {
    if b.local_warp() {
        if b.warp_type == WarpedMotionType::Invalid {
            IDENTITY_MATRIX@
        } else {
            b.m@
        }
    } else if b.global_warp() {
        gmv@
    } else {
        let n = b2i(b.refs[0] != ref0);
        seq![(b.mv[n].c.x * 8192) as i32, (b.mv[n].c.y * 8192) as i32, 0x10000i32, 0, 0, 0x10000i32]
    }
}

/// `v` divided by two to the power `sh`, rounded to the nearest, halves away
/// from zero, and kept to 32 bits; `half_` is half the divisor.
pub open spec fn slope(v: int, half_: int, sh: int) -> i32 {
    ((v + half_ - b2i(v < 0)) / p2(sh)) as i32
}

/// `v` rounded to a multiple of 64 and brought into `lo..=hi`; `mid` is where
/// rounding changes direction.
pub open spec fn coarse(v: int, mid: int, lo: int, hi: int) -> int {
    clip((v + 32 - b2i(v < mid)) / 64 * 64, lo, hi)
}

/// Where a matrix takes the point `(x, y)`, in 65536ths of a pixel.
pub open spec fn taken_to(m: Seq<i32>, x: int, y: int) -> (int, int) {
    (m[2] * x + m[3] * y + m[0], m[4] * x + m[5] * y + m[1])
}

/// The two slopes that take the edge towards the neighbour to where the
/// neighbour takes it, and the centre of the block to where its vector takes
/// it.
pub open spec fn edge_slopes(
    m: Seq<i32>,
    bx: int,
    by: int,
    x_off: int,
    b_dim: Seq<u8>,
    mv0: Mv,
) -> (i32, i32) {
    let (bw4, bh4) = (b_dim[0] as int, b_dim[1] as int);
    let sx = bx * 4 + 2 * bw4 - 1;
    let sy = by * 4 + 2 * bh4 - 1;
    let px = sx * 0x10000 + mv0.c.x * 8192;
    let py = sy * 0x10000 + mv0.c.y * 8192;
    if x_off >= 0 {
        let (ax, ay) = taken_to(m, sx, by * 4 - 1);
        (slope(px - ax, bh4, 1 + b_dim[3]), slope(py - ay, bh4, 1 + b_dim[3]))
    } else {
        let (lx, ly) = taken_to(m, bx * 4 - 1, sy);
        (slope(px - lx, bw4, 1 + b_dim[2]), slope(py - ly, bw4, 1 + b_dim[2]))
    }
}

/// The warp of a block that extends that of a neighbour: above it where
/// `x_off` is not negative, else to its left.
pub open spec fn extended_warp(
    m: Seq<i32>,
    bx: int,
    by: int,
    x_off: int,
    b_dim: Seq<u8>,
    mv0: Mv,
) -> Seq<i32> {
    let (u, v) = edge_slopes(m, bx, by, x_off, b_dim, mv0);
    if x_off >= 0 {
        m.update(3, coarse(u as int, 0, -0x7fc0, 0x7fc0) as i32).update(
            5,
            coarse(v as int, 0x10000, 0x8040, 0x17fc0) as i32,
        )
    } else {
        m.update(2, coarse(u as int, 0x10000, 0x8040, 0x17fc0) as i32).update(
            4,
            coarse(v as int, 0, -0x7fc0, 0x7fc0) as i32,
        )
    }
}

fn to_coarse(v: i32, mid: i64, lo: i32, hi: i32) -> (r: i32)
    requires
        lo <= hi,
    ensures
        r == coarse(v as int, mid as int, lo as int, hi as int),
{
    let w: i64 = v as i64;
    let q: i64 = floor_div(w + 32 - (if w < mid { 1i64 } else { 0i64 }), 64);
    let c: i64 = q * 64;
    if c < lo as i64 {
        lo
    } else if c > hi as i64 {
        hi
    } else {
        c as i32
    }
}

fn to_slope(v: i64, half_: i64, sh: u32) -> (r: i32)
    requires
        -0x800_0000_0000_0000 <= v <= 0x800_0000_0000_0000,
        0 <= half_ <= 64,
        sh <= 8,
    ensures
        r == slope(v as int, half_ as int, sh as int),
{
    shr64(v + half_ - (if v < 0 { 1i64 } else { 0i64 }), sh) as i32
}

fn take(m2: i32, m3: i32, m0: i32, x: i64, y: i64) -> (r: i64)
    requires
        -2 <= x <= 0x50000,
        -2 <= y <= 0x50000,
    ensures
        r == m2 * x + m3 * y + m0,
        -0x10_0000_0000_0000 <= r <= 0x10_0000_0000_0000,
{
    assert(-0x8000_0000 * 0x50000 <= m2 * x <= 0x8000_0000 * 0x50000) by (nonlinear_arith)
        requires
            -2 <= x <= 0x50000,
            -0x8000_0000 <= m2 <= 0x7fff_ffff,
    ;
    assert(-0x8000_0000 * 0x50000 <= m3 * y <= 0x8000_0000 * 0x50000) by (nonlinear_arith)
        requires
            -2 <= y <= 0x50000,
            -0x8000_0000 <= m3 <= 0x7fff_ffff,
    ;
    m2 as i64 * x + m3 as i64 * y + m0 as i64
}

/// Extends the warp of a neighbour to a block. The result still has to be
/// shifted so that it agrees with the vector of the block.
pub fn extend_warpmv(
    t: &MvTile,
    bx: i32,
    by: i32,
    x_off: i32,
    y_off: i32,
    b_dim: &[u8; 4],
    ref0: i8,
    mv0: Mv,
    sb_step: i32,
    gmv_matrix: &[i32; 6],
) -> (r: [i32; 6])
    requires
        t.wf(),
        0 <= bx <= 0x10000,
        0 <= by <= 0x10000,
        1 <= sb_step <= 64,
        -1 <= x_off <= 64,
        -1 <= y_off <= 64,
        1 <= b_dim[0] <= 64,
        1 <= b_dim[1] <= 64,
        b_dim[2] <= 6,
        b_dim[3] <= 6,
        -0x1000_0000 <= mv0.c.x <= 0x1000_0000,
        -0x1000_0000 <= mv0.c.y <= 0x1000_0000,
        y_off == -1 && by % sb_step == 0 ==> (x_off < 0 && bx % sb_step == 0) || (bx + x_off >= 0
            && t.ra_off + (bx + x_off) / 2 < t.ra@.len()),
        !(y_off == -1 && by % sb_step == 0) ==> bx + x_off >= 0 && by + y_off >= 0,
    ensures
        r@ == extended_warp(
            warp_of(
                extended_from(
                    *t,
                    bx as int,
                    by as int,
                    x_off as int,
                    y_off as int,
                    sb_step as int,
                ),
                ref0,
                *gmv_matrix,
            ),
            bx as int,
            by as int,
            x_off as int,
            b_dim@,
            mv0,
        ),
{
    let b: &MvBlock = if y_off == -1 && by % sb_step == 0 {
        if x_off < 0 && bx % sb_step == 0 {
            &t.ra_tl
        } else {
            t.get_above(bx + x_off)
        }
    } else {
        t.get_unit(bx + x_off, by + y_off)
    };
    let mut m: [i32; 6] = if b.mf / 2 % 2 == 1 {
        if b.warp_type == WarpedMotionType::Invalid {
            IDENTITY_MATRIX
        } else {
            b.m
        }
    } else if b.mf % 2 == 1 {
        *gmv_matrix
    } else {
        let n: usize = if b.refs[0] != ref0 { 1 } else { 0 };
        let v: Mv = b.mv[n];
        [(v.c.x as i64 * 8192) as i32, (v.c.y as i64 * 8192) as i32, 0x10000, 0, 0, 0x10000]
    };
    let ghost m0 = m@;
    assert(m0 == warp_of(*b, ref0, *gmv_matrix));
    let (bw4, bh4): (i64, i64) = (b_dim[0] as i64, b_dim[1] as i64);
    let sx: i64 = bx as i64 * 4 + 2 * bw4 - 1;
    let sy: i64 = by as i64 * 4 + 2 * bh4 - 1;
    let px: i64 = sx * 0x10000 + mv0.c.x as i64 * 8192;
    let py: i64 = sy * 0x10000 + mv0.c.y as i64 * 8192;
    if x_off >= 0 {
        let ay: i64 = by as i64 * 4 - 1;
        let sh: u32 = 1 + b_dim[3] as u32;
        let u: i32 = to_slope(px - take(m[2], m[3], m[0], sx, ay), bh4, sh);
        let v: i32 = to_slope(py - take(m[4], m[5], m[1], sx, ay), bh4, sh);
        m[3] = to_coarse(u, 0, -0x7fc0, 0x7fc0);
        m[5] = to_coarse(v, 0x10000, 0x8040, 0x17fc0);
    } else {
        let ax: i64 = bx as i64 * 4 - 1;
        let sh: u32 = 1 + b_dim[2] as u32;
        let u: i32 = to_slope(px - take(m[2], m[3], m[0], ax, sy), bw4, sh);
        let v: i32 = to_slope(py - take(m[4], m[5], m[1], ax, sy), bw4, sh);
        m[2] = to_coarse(u, 0x10000, 0x8040, 0x17fc0);
        m[4] = to_coarse(v, 0, -0x7fc0, 0x7fc0);
    }
    m
}

/// A sample lies at the centre of the neighbour: half its size away from the
/// corner that it has towards the block, one pixel short. Its motion takes it
/// from there by the vector of the neighbour. Units are eighths of a pixel.
pub proof fn law_samples_move_with_their_block(b: MvBlock, n: int, dx: int, dy: int)
    requires
        b.wf(),
        0 <= n < 2,
        -64 <= dx <= 64,
        -64 <= dy <= 64,
    ensures
        ({
            let above = sample_of(b, n, dx, 0, 1, -1);
            let left = sample_of(b, n, 0, dy, -1, 1);
            let v = if b.mf / 2 % 2 == 1 { b.lmv[n].c } else { b.mv[n].c };
            &&& above.x + 8 == 8 * (4 * dx + 2 * b.bs.w4())
            &&& above.y + 8 == -8 * (2 * b.bs.h4())
            &&& left.x + 8 == -8 * (2 * b.bs.w4())
            &&& left.y + 8 == 8 * (4 * dy + 2 * b.bs.h4())
            &&& above.to_x - above.x == v.x && above.to_y - above.y == v.y
            &&& left.to_x - left.x == v.x && left.to_y - left.y == v.y
        }),
{
    crate::levels::lemma_block_dimensions(b.bs);
    assert(b.motion(n) == (if b.local_warp() { b.lmv[n] } else { b.mv[n] }));
    assert(b.mv[n].c.x <= 0x1000_0000 && b.lmv[n].c.x <= 0x1000_0000);
}

/// A neighbour adds a sample for each of its references that is the one asked
/// for, the first before the second, up to the most that there may be.
pub proof fn law_neighbours_add_their_matching_motion(
    acc: Seq<WarpSample>,
    b: MvBlock,
    dx: int,
    dy: int,
    sx: int,
    sy: int,
    r: i8,
)
    requires
        acc.len() < MAX_SAMPLES,
    ensures
        ({
            let out = with_samples(acc, b, dx, dy, sx, sy, r);
            let (s0, s1) = (sample_of(b, 0, dx, dy, sx, sy), sample_of(b, 1, dx, dy, sx, sy));
            &&& b.refs[0] != r && b.refs[1] != r ==> out == acc
            &&& b.refs[0] == r && b.refs[1] != r ==> out == acc.push(s0)
            &&& b.refs[0] != r && b.refs[1] == r ==> out == acc.push(s1)
            &&& b.refs[0] == r && b.refs[1] == r && acc.len() + 1 < MAX_SAMPLES ==> out == acc.push(
                s0,
            ).push(s1)
            &&& out.len() <= MAX_SAMPLES
        }),
{
}

/// Units are kept row by row: 64 rows of 128 columns, counted round.
pub proof fn law_units_are_kept_by_rows(x: int, y: int)
    requires
        0 <= x,
        0 <= y,
    ensures
        0 <= unit_at(x, y) < 64 * 128,
        unit_at(x, y) % 128 == x % 128,
        unit_at(x, y) / 128 == y % 64,
{
}

/// The matrix of a block that is only shifted takes every point by its vector.
pub proof fn law_shift_matrix_moves_by_the_vector(
    b: MvBlock,
    ref0: i8,
    gmv: [i32; 6],
    x: int,
    y: int,
)
    requires
        b.wf(),
        !b.local_warp(),
        !b.global_warp(),
        forall|n: int| 0 <= n < 2 ==> -0x3_ffff <= (#[trigger] b.mv[n]).c.x <= 0x3_ffff,
        forall|n: int| 0 <= n < 2 ==> -0x3_ffff <= (#[trigger] b.mv[n]).c.y <= 0x3_ffff,
    ensures
        ({
            let v = if b.refs[0] == ref0 { b.mv[0].c } else { b.mv[1].c };
            let (tx, ty) = taken_to(warp_of(b, ref0, gmv), x, y);
            &&& 8 * tx == 0x10000 * (8 * x + v.x)
            &&& 8 * ty == 0x10000 * (8 * y + v.y)
        }),
{
    let m = warp_of(b, ref0, gmv);
    assert(b.mv[0].c.x <= 0x3_ffff && b.mv[1].c.x <= 0x3_ffff);
    assert(b.mv[0].c.y <= 0x3_ffff && b.mv[1].c.y <= 0x3_ffff);
    assert(m[2] * x == 0x10000 * x && m[3] * y == 0 && m[4] * x == 0 && m[5] * y == 0x10000 * y)
        by (nonlinear_arith)
        requires
            m[2] == 0x10000,
            m[3] == 0,
            m[4] == 0,
            m[5] == 0x10000,
    ;
}

/// A block that is warped hands on its own warp, or none where that cannot be
/// used; one that follows the global motion hands on that.
pub proof fn law_warps_are_handed_on(b: MvBlock, ref0: i8, gmv: [i32; 6])
    ensures
        b.local_warp() && b.warp_type != WarpedMotionType::Invalid ==> warp_of(b, ref0, gmv) == b.m@,
        b.local_warp() && b.warp_type == WarpedMotionType::Invalid ==> warp_of(b, ref0, gmv)
            =~= seq![0i32, 0, 0x10000, 0, 0, 0x10000],
        !b.local_warp() && b.global_warp() ==> warp_of(b, ref0, gmv) == gmv@,
        fitted_kind(false, true, b.warp_type) == WarpedMotionType::Invalid,
        fitted_kind(true, false, b.warp_type) == WarpedMotionType::Invalid,
        fitted_kind(true, true, b.warp_type) == b.warp_type,
{
}

/// A slope is the quotient to the nearest whole number.
pub proof fn law_slope_is_nearest(v: int, sh: int)
    requires
        1 <= sh <= 8,
        -0x1000_0000 <= v <= 0x1000_0000,
    ensures
        -p2(sh) <= 2 * (slope(v, p2(sh - 1), sh) * p2(sh) - v) <= p2(sh),
{
    assert(forall|k: int| 1 <= k <= 8 ==> #[trigger] POW2[k] == 2 * POW2[k - 1] && 1 <= POW2[k - 1]
        <= 128);
    let d = p2(sh);
    let h = p2(sh - 1);
    assert(d == 2 * h);
    let n = v + h - b2i(v < 0);
    vstd::arithmetic::div_mod::lemma_fundamental_div_mod(n, d);
    let q = n / d;
    assert(-0x1100_0000 <= q <= 0x1100_0000) by (nonlinear_arith)
        requires
            n == d * q + n % d,
            0 <= n % d < d,
            d >= 2,
            -0x1000_0100 <= n <= 0x1000_0100,
    ;
    assert(d * q == q * d) by (nonlinear_arith);
}

/// An entry of an extended warp is rounded to a multiple of 64, at most 32
/// away, and kept in its range.
pub proof fn law_coarse_entries_are_near(v: int, mid: int, lo: int, hi: int)
    requires
        lo <= hi,
        lo % 64 == 0,
        hi % 64 == 0,
    ensures
        coarse(v, mid, lo, hi) % 64 == 0,
        lo <= coarse(v, mid, lo, hi) <= hi,
        lo <= v <= hi ==> -32 <= coarse(v, mid, lo, hi) - v <= 32,
        v > hi + 64 ==> coarse(v, mid, lo, hi) == hi,
        v < lo - 64 ==> coarse(v, mid, lo, hi) == lo,
{
}

/// An extended warp changes only the slopes along the edge towards the
/// neighbour: those down the columns where the neighbour lies above, and those
/// along the rows where it lies to the left.
pub proof fn law_extension_changes_one_pair_of_slopes(
    m: Seq<i32>,
    bx: int,
    by: int,
    x_off: int,
    b_dim: Seq<u8>,
    mv0: Mv,
)
    requires
        m.len() == 6,
    ensures
        ({
            let r = extended_warp(m, bx, by, x_off, b_dim, mv0);
            &&& r.len() == 6
            &&& r[0] == m[0] && r[1] == m[1]
            &&& x_off >= 0 ==> r[2] == m[2] && r[4] == m[4] && -0x7fc0 <= r[3] <= 0x7fc0 && 0x8040
                <= r[5] <= 0x17fc0
            &&& x_off < 0 ==> r[3] == m[3] && r[5] == m[5] && -0x7fc0 <= r[4] <= 0x7fc0 && 0x8040
                <= r[2] <= 0x17fc0
        }),
{
}

/// The slopes take the centre of the block to where its vector takes it: over
/// half the height (or width) of the block they add up to the way from where
/// the warp of the neighbour takes the middle of the edge.
pub proof fn law_slopes_reach_the_moved_centre(
    m: Seq<i32>,
    bx: int,
    by: int,
    b_dim: Seq<u8>,
    mv0: Mv,
)
    requires
        b_dim.len() == 4,
        b_dim[2] <= 6,
        b_dim[3] <= 6,
        b_dim[0] == p2(b_dim[2] as int),
        b_dim[1] == p2(b_dim[3] as int),
    ensures
        ({
            let (w, h) = (b_dim[0], b_dim[1]);
            let cx = 4 * bx + 2 * w - 1;
            let cy = 4 * by + 2 * h - 1;
            let to_x = 0x10000 * cx + 8192 * mv0.c.x;
            let to_y = 0x10000 * cy + 8192 * mv0.c.y;
            let (ax, ay) = taken_to(m, cx, 4 * by - 1);
            let (lx, ly) = taken_to(m, 4 * bx - 1, cy);
            let (u, v) = edge_slopes(m, bx, by, 0, b_dim, mv0);
            let (p, q) = edge_slopes(m, bx, by, -1, b_dim, mv0);
            &&& -0x1000_0000 <= to_x - ax <= 0x1000_0000 ==> -h <= u * (2 * h) - (to_x - ax) <= h
            &&& -0x1000_0000 <= to_y - ay <= 0x1000_0000 ==> -h <= v * (2 * h) - (to_y - ay) <= h
            &&& -0x1000_0000 <= to_x - lx <= 0x1000_0000 ==> -w <= p * (2 * w) - (to_x - lx) <= w
            &&& -0x1000_0000 <= to_y - ly <= 0x1000_0000 ==> -w <= q * (2 * w) - (to_y - ly) <= w
        }),
{
    let (w, h) = (b_dim[0], b_dim[1]);
    let cx = 4 * bx + 2 * w - 1;
    let cy = 4 * by + 2 * h - 1;
    let to_x = 0x10000 * cx + 8192 * mv0.c.x;
    let to_y = 0x10000 * cy + 8192 * mv0.c.y;
    let (ax, ay) = taken_to(m, cx, 4 * by - 1);
    let (lx, ly) = taken_to(m, 4 * bx - 1, cy);
    assert(forall|k: int| 1 <= k <= 8 ==> #[trigger] POW2[k] == 2 * POW2[k - 1]);
    assert(POW2[1 + b_dim[2]] == 2 * w && POW2[1 + b_dim[3]] == 2 * h);
    if -0x1000_0000 <= to_x - ax <= 0x1000_0000 {
        law_slope_is_nearest(to_x - ax, 1 + b_dim[3]);
    }
    if -0x1000_0000 <= to_y - ay <= 0x1000_0000 {
        law_slope_is_nearest(to_y - ay, 1 + b_dim[3]);
    }
    if -0x1000_0000 <= to_x - lx <= 0x1000_0000 {
        law_slope_is_nearest(to_x - lx, 1 + b_dim[2]);
    }
    if -0x1000_0000 <= to_y - ly <= 0x1000_0000 {
        law_slope_is_nearest(to_y - ly, 1 + b_dim[2]);
    }
}

/// A warp is extended from the block at the given offset: one of the same
/// superblock row is found by its place, one above it in the row that is kept
/// from there, and the one at the corner of the superblock apart.
pub proof fn law_warps_are_extended_from_their_offset(
    t: MvTile,
    bx: int,
    by: int,
    x_off: int,
    y_off: int,
    sb_step: int,
)
    ensures
        ({
            let e = extended_from(t, bx, by, x_off, y_off, sb_step);
            &&& y_off >= 0 || by % sb_step != 0 ==> e == t.unit(bx + x_off, by + y_off)
            &&& y_off == -1 && by % sb_step == 0 && x_off >= 0 ==> e == t.above(bx + x_off)
            &&& y_off == -1 && by % sb_step == 0 && bx % sb_step != 0 ==> e == t.above(bx + x_off)
            &&& y_off == -1 && by % sb_step == 0 && bx % sb_step == 0 && x_off < 0 ==> e == t.ra_tl
        }),
{
}

} // verus!
