//! Segment identifiers.
use vstd::prelude::*;

use crate::block::BlockPos;
use crate::env::BlockContext;
use crate::frameinfo::SbFrameInfo;
use crate::intops::{imin, min};
use crate::msac::{Cdf, MsacContext, Request, Sym};

verus! {

/// The number that a difference `diff` from the prediction `r` stands for,
/// among `max` numbers: those near `r` have the small differences.
pub open spec fn neg_deinterleaved(diff: int, r: int, max: int) -> int {
    let near = if diff % 2 == 1 { r + (diff + 1) / 2 } else { r - diff / 2 };
    if r == 0 {
        diff
    } else if r >= max - 1 {
        max - diff - 1
    } else if 2 * r < max {
        if diff <= 2 * r { near } else { diff }
    } else {
        if diff <= 2 * (max - r - 1) { near } else { max - (diff + 1) }
    }
}

pub fn neg_deinterleave(diff: i32, r: i32, max: i32) -> (res: i32)
    requires
        0 <= diff <= 0x1fff_ffff,
        0 <= r <= 0x1fff_ffff,
        0 <= max <= 0x1fff_ffff,
    ensures
        res == neg_deinterleaved(diff as int, r as int, max as int),
{
    if r == 0 {
        return diff;
    }
    if r >= max - 1 {
        return max - diff - 1;
    }
    if 2 * r < max {
        if diff <= 2 * r {
            if diff % 2 != 0 { r + (diff + 1) / 2 } else { r - diff / 2 }
        } else {
            diff
        }
    } else {
        if diff <= 2 * (max - r - 1) {
            if diff % 2 != 0 { r + (diff + 1) / 2 } else { r - diff / 2 }
        } else {
            max - (diff + 1)
        }
    }
}

/// For every prediction the differences below `max` are a permutation of the
/// numbers below `max`: the result is one of them, and different differences
/// stand for different numbers.
pub proof fn law_neg_deinterleave_permutes(d1: int, d2: int, r: int, max: int)
    requires
        0 <= r < max,
        0 <= d1 < max,
        0 <= d2 < max,
    ensures
        0 <= neg_deinterleaved(d1, r, max) < max,
        neg_deinterleaved(d1, r, max) == neg_deinterleaved(d2, r, max) ==> d1 == d2,
{
}

/// The prediction itself has difference zero.
pub proof fn law_neg_deinterleave_zero(r: int, max: int)
    requires
        0 <= r < max,
    ensures
        neg_deinterleaved(0, r, max) == r,
{
}

/// The entry of a map that is `y` rows and `x` entries after `off`.
pub open spec fn map_index(off: int, stride: int, y: int, x: int) -> int {
    off + y * stride + x
}

/// The least of the first `x` entries of row `y` and all rows before it, and
/// 8.
pub open spec fn least_id(map: Seq<u8>, off: int, stride: int, w: int, y: int, x: int) -> int
    decreases y, x,
{
    if x > 0 {
        min(
            least_id(map, off, stride, w, y, x - 1),
            map[map_index(off, stride, y, x - 1)] as int,
        )
    } else if y > 0 {
        least_id_row(map, off, stride, w, y - 1)
    } else {
        8
    }
}

/// The least entry of the rows up to and including row `y`, and 8.
pub open spec fn least_id_row(map: Seq<u8>, off: int, stride: int, w: int, y: int) -> int
    decreases y, w + 1,
{
    if w <= 0 || y < 0 { 8 } else { least_id(map, off, stride, w, y, w) }
}

/// The least segment identifier that the last frame has in the rectangle of
/// the block; identifiers from 8 on are taken for 8.
pub open spec fn prev_segid(map: Seq<u8>, by: int, bx: int, w: int, h: int, stride: int) -> int {
    least_id_row(map, by * stride + bx, stride, w, h - 1)
}

proof fn lemma_least_zero(map: Seq<u8>, off: int, stride: int, w: int, y1: int, y2: int)
    requires
        w > 0,
        0 <= y1 <= y2,
        least_id_row(map, off, stride, w, y1) == 0,
    ensures
        least_id_row(map, off, stride, w, y2) == 0,
    decreases y2,
{
    if y1 < y2 {
        lemma_least_zero(map, off, stride, w, y1, y2 - 1);
        lemma_least_zero_in_row(map, off, stride, w, y2, w);
    }
}

proof fn lemma_least_zero_in_row(map: Seq<u8>, off: int, stride: int, w: int, y: int, x: int)
    requires
        w > 0,
        y > 0,
        0 <= x <= w,
        least_id_row(map, off, stride, w, y - 1) == 0,
    ensures
        least_id(map, off, stride, w, y, x) == 0,
    decreases x,
{
    if x > 0 {
        lemma_least_zero_in_row(map, off, stride, w, y, x - 1);
    }
}

/// The value of [`prev_segid`] is a lower bound of the rectangle, and it is 8
/// or occurs in it.
pub proof fn law_prev_segid_is_least(map: Seq<u8>, off: int, stride: int, w: int, h: int)
    requires
        0 < w,
        0 <= h,
    ensures
        0 <= least_id_row(map, off, stride, w, h - 1) <= 8,
        forall|y: int, x: int|
            0 <= y < h && 0 <= x < w ==> least_id_row(map, off, stride, w, h - 1)
                <= map[#[trigger] map_index(off, stride, y, x)],
        least_id_row(map, off, stride, w, h - 1) == 8 || exists|y: int, x: int|
            0 <= y < h && 0 <= x < w && map[#[trigger] map_index(off, stride, y, x)]
                == least_id_row(map, off, stride, w, h - 1),
    decreases h,
{
    if h > 0 {
        law_prev_segid_is_least(map, off, stride, w, h - 1);
        lemma_least_in_row(map, off, stride, w, h - 1, w);
    }
}

proof fn lemma_least_in_row(map: Seq<u8>, off: int, stride: int, w: int, y: int, x: int)
    requires
        0 < w,
        0 <= y,
        0 <= x <= w,
        0 <= least_id_row(map, off, stride, w, y - 1) <= 8,
    ensures
        0 <= least_id(map, off, stride, w, y, x) <= least_id_row(map, off, stride, w, y - 1),
        forall|j: int|
            0 <= j < x ==> least_id(map, off, stride, w, y, x) <= map[#[trigger] map_index(
                off,
                stride,
                y,
                j,
            )],
        least_id(map, off, stride, w, y, x) == least_id_row(map, off, stride, w, y - 1) || exists|
            j: int,
        |
            0 <= j < x && map[#[trigger] map_index(off, stride, y, j)] == least_id(
                map,
                off,
                stride,
                w,
                y,
                x,
            ),
    decreases x,
{
    if x > 0 {
        lemma_least_in_row(map, off, stride, w, y, x - 1);
        if map[map_index(off, stride, y, x - 1)] as int <= least_id(map, off, stride, w, y, x - 1) {
            assert(map[map_index(off, stride, y, x - 1)] == least_id(map, off, stride, w, y, x));
        }
    }
}

/// The rectangle lies within the map.
pub open spec fn rect_fits(len: int, by: int, bx: int, w: int, h: int, stride: int) -> bool {
    &&& 0 <= by
    &&& 0 <= bx
    &&& 0 < w
    &&& 0 < h
    &&& bx + w <= stride
    &&& (by + h) * stride <= len
}

pub fn get_prev_frame_segid(
    by: usize,
    bx: usize,
    w4: usize,
    h4: usize,
    ref_seg_map: &[u8],
    stride: usize,
) -> (r: u32)
    requires
        rect_fits(
            ref_seg_map@.len() as int,
            by as int,
            bx as int,
            w4 as int,
            h4 as int,
            stride as int,
        ),
    ensures
        r == prev_segid(
            ref_seg_map@,
            by as int,
            bx as int,
            w4 as int,
            h4 as int,
            stride as int,
        ),
        r <= 8,
{
    let mut seg_id: u32 = 8;
    let len: usize = ref_seg_map.len();
    let ghost off0 = by * stride + bx;
    proof {
        assert(by * stride + stride <= (by + h4) * stride) by (nonlinear_arith)
            requires
                h4 >= 1,
                stride >= 0,
        ;
    }
    let mut off: usize = by * stride + bx;
    let mut y: usize = 0;
    while y < h4
        invariant_except_break
            seg_id == least_id_row(ref_seg_map@, off0, stride as int, w4 as int, y - 1),
            y < h4 ==> off == off0 + y * stride,
        invariant
            y <= h4,
            len == ref_seg_map@.len(),
            0 < w4,
            bx + w4 <= stride,
            off0 == by * stride + bx,
            (by + h4) * stride <= ref_seg_map@.len(),
            seg_id <= 8,
        ensures
            seg_id == least_id_row(ref_seg_map@, off0, stride as int, w4 as int, h4 - 1),
        decreases h4 - y,
    {
        proof {
            assert(by * stride + y * stride + stride <= (by + h4) * stride) by (nonlinear_arith)
                requires
                    y + 1 <= h4,
                    stride >= 0,
            ;
        }
        let mut x: usize = 0;
        while x < w4
            invariant
                x <= w4,
                0 < w4,
                len == ref_seg_map@.len(),
                bx + w4 <= stride,
                off == off0 + y * stride,
                off0 == by * stride + bx,
                by * stride + y * stride + stride <= ref_seg_map@.len(),
                seg_id <= 8,
                seg_id == least_id(
                    ref_seg_map@,
                    off0,
                    stride as int,
                    w4 as int,
                    y as int,
                    x as int,
                ),
            decreases w4 - x,
        {
            assert(off + x == map_index(off0, stride as int, y as int, x as int));
            let v: u8 = ref_seg_map[off + x];
            seg_id = imin(seg_id as i32, v as i32) as u32;
            x = x + 1;
        }
        if seg_id == 0 {
            proof {
                lemma_least_zero(
                    ref_seg_map@,
                    off0,
                    stride as int,
                    w4 as int,
                    y as int,
                    h4 - 1,
                );
            }
            break ;
        }
        proof {
            assert((y + 1) * stride == y * stride + stride) by (nonlinear_arith);
        }
        y = y + 1;
        if y < h4 {
            proof {
                assert(by * stride + y * stride + stride <= (by + h4) * stride)
                    by (nonlinear_arith)
                    requires
                        y + 1 <= h4,
                        stride >= 0,
                ;
            }
            off = off + stride;
        }
    }
    seg_id
}

/// The prediction of a segment identifier from the current frame, and how
/// well the neighbours agree.
pub open spec fn cur_segid(
    map: Seq<u8>,
    by: int,
    bx: int,
    have_top: bool,
    have_left: bool,
    stride: int,
) -> (int, int) {
    let base = by * stride + bx;
    if have_left && have_top {
        let l = map[base - 1] as int;
        let a = map[base - stride] as int;
        let al = map[base - stride - 1] as int;
        let ctx: int = if l == a && al == l {
            2
        } else if l == a || al == l || a == al {
            1
        } else {
            0
        };
        (if a == al { a } else { l }, ctx)
    } else if have_left {
        (map[base - 1] as int, 0)
    } else if have_top {
        (map[base - stride] as int, 0)
    } else {
        (0, 0)
    }
}

/// The block at the given position lies in the map, with its neighbours.
pub open spec fn spot_fits(len: int, by: int, bx: int, stride: int) -> bool {
    0 <= by && 0 <= bx < stride && (by + 1) * stride <= len
}

/// Predicts a segment identifier from the current frame; returns it with the
/// context class of the neighbours.
pub fn get_cur_frame_segid(
    by: usize,
    bx: usize,
    have_top: bool,
    have_left: bool,
    cur_seg_map: &[u8],
    stride: usize,
) -> (r: (u32, i32))
    requires
        spot_fits(cur_seg_map@.len() as int, by as int, bx as int, stride as int),
        have_left ==> bx > 0,
        have_top ==> by > 0,
    ensures
        (r.0 as int, r.1 as int) == cur_segid(
            cur_seg_map@,
            by as int,
            bx as int,
            have_top,
            have_left,
            stride as int,
        ),
        r.0 <= 255,
        0 <= r.1 <= 2,
{
    let len: usize = cur_seg_map.len();
    proof {
        assert((by + 1) * stride == by * stride + stride) by (nonlinear_arith);
        assert(have_top ==> by * stride >= stride) by (nonlinear_arith)
            requires
                have_top ==> by > 0,
        ;
    }
    let base: usize = by * stride + bx;
    if have_left && have_top {
        let l: u8 = cur_seg_map[base - 1];
        let a: u8 = cur_seg_map[base - stride];
        let al: u8 = cur_seg_map[base - stride - 1];
        let ctx: i32 = if l == a && al == l {
            2
        } else if l == a || al == l || a == al {
            1
        } else {
            0
        };
        (if a == al { a as u32 } else { l as u32 }, ctx)
    } else if have_left {
        (cur_seg_map[base - 1] as u32, 0)
    } else if have_top {
        (cur_seg_map[base - stride] as u32, 0)
    } else {
        (0, 0)
    }
}

/// A coded segment identifier. One that is not in use stands for zero.
pub open spec fn coded_segid(s: Sym, fi: SbFrameInfo, pred: int, ctx: int) -> (int, Sym) {
    let (ext, s) = if fi.seg_ext { s.flag(Cdf::SegIdExt(ctx as usize)) } else { (0, s) };
    let (low, s) = s.symbol(Cdf::SegId(ext as usize, ctx as usize), 7);
    let sid = neg_deinterleaved(low + 8 * ext, pred, fi.seg_last_active_segid + 1);
    (if 0 <= sid <= fi.seg_last_active_segid && sid < 16 { sid } else { 0 }, s)
}

fn read_coded_segid(fi: &SbFrameInfo, pred: u32, ctx: i32, msac: &mut MsacContext) -> (r: u8)
    requires
        pred <= 255,
        0 <= ctx <= 2,
    ensures
        (r as int, final(msac)@) == coded_segid(old(msac)@, *fi, pred as int, ctx as int),
        r < 16,
{
    let ext: u32 = if fi.seg_ext {
        msac.decode_bool_adapt(Cdf::SegIdExt(ctx as usize))
    } else {
        0
    };
    let low: u32 = msac.decode_symbol_adapt(Cdf::SegId(ext as usize, ctx as usize), 7);
    let last: i32 = fi.seg_last_active_segid as i32;
    let sid: i32 = neg_deinterleave((low + 8 * ext) as i32, pred as i32, last + 1);
    if 0 <= sid && sid <= last && sid < 16 { sid as u8 } else { 0 }
}

/// The identifier that a block takes over from the last frame; zero where
/// there is none.
pub open spec fn kept_segid(fi: SbFrameInfo, b: BlockPos, prev: Option<Seq<u8>>) -> int {
    match prev {
        Some(map) => prev_segid(
            map,
            b.by as int,
            b.bx as int,
            b.vis_w4(fi),
            b.vis_h4(fi),
            fi.b4_stride as int,
        ),
        None => 0,
    }
}

/// Segment maps cover a frame that has segments, and that of the current frame
/// holds segment identifiers.
pub open spec fn segmaps_valid(fi: SbFrameInfo, cur: Seq<u8>, prev: Option<Seq<u8>>) -> bool {
    fi.seg_enabled ==> {
        &&& 0 <= fi.bw <= fi.b4_stride
        &&& fi.bh * fi.b4_stride <= cur.len()
        &&& forall|i: int| 0 <= i < cur.len() ==> cur[i] < 16
        &&& prev matches Some(m) ==> fi.bh * fi.b4_stride <= m.len()
    }
}

/// The segment maps of the current and, if there is one, of the last frame.
pub struct SegMaps<'a> {
    pub cur: &'a [u8],
    pub prev: Option<&'a [u8]>,
}

impl<'a> SegMaps<'a> {
    pub open spec fn prev_seq(self) -> Option<Seq<u8>> {
        match self.prev {
            Some(m) => Some(m@),
            None => None,
        }
    }

    pub open spec fn valid(self, fi: SbFrameInfo) -> bool {
        segmaps_valid(fi, self.cur@, self.prev_seq())
    }
}

proof fn lemma_block_in_map(fi: SbFrameInfo, b: BlockPos, len: int)
    requires
        b.valid(fi),
        0 <= fi.bw <= fi.b4_stride,
        fi.bh * fi.b4_stride <= len,
    ensures
        rect_fits(
            len,
            b.by as int,
            b.bx as int,
            b.vis_w4(fi),
            b.vis_h4(fi),
            fi.b4_stride as int,
        ),
        spot_fits(len, b.by as int, b.bx as int, fi.b4_stride as int),
        0 <= b.by * fi.b4_stride + b.bx < len,
{
    crate::levels::lemma_block_dimensions(b.bs);
    let s = fi.b4_stride as int;
    assert((b.by + b.vis_h4(fi)) * s <= fi.bh * s) by (nonlinear_arith)
        requires
            b.by + b.vis_h4(fi) <= fi.bh,
            s >= 0,
    ;
    assert((b.by + 1) * s <= fi.bh * s) by (nonlinear_arith)
        requires
            b.by + 1 <= fi.bh,
            s >= 0,
    ;
    assert((b.by + 1) * s == b.by * s + s) by (nonlinear_arith);
    assert(0 <= b.by * s) by (nonlinear_arith)
        requires
            b.by >= 0,
            s >= 0,
    ;
}

fn find_kept(fi: &SbFrameInfo, b: &BlockPos, maps: &SegMaps) -> (r: u8)
    requires
        b.valid(*fi),
        maps.valid(*fi),
        fi.seg_enabled,
    ensures
        r == kept_segid(*fi, *b, maps.prev_seq()),
        r <= 8,
{
    match maps.prev {
        Some(map) => {
            let d: [u8; 4] = b.bs.dim();
            let w4: i32 = imin(d[0] as i32, fi.bw - b.bx);
            let h4: i32 = imin(d[1] as i32, fi.bh - b.by);
            proof {
                lemma_block_in_map(*fi, *b, map@.len() as int);
            }
            get_prev_frame_segid(
                b.by as usize,
                b.bx as usize,
                w4 as usize,
                h4 as usize,
                map,
                fi.b4_stride as usize,
            ) as u8
        },
        None => 0,
    }
}

/// The segment identifier of the luma block that covers a chroma block.
pub open spec fn covering_segid(fi: SbFrameInfo, b: BlockPos, cur: Seq<u8>) -> int {
    cur[b.by * fi.b4_stride + b.bx] as int
}

fn find_covering(fi: &SbFrameInfo, b: &BlockPos, maps: &SegMaps) -> (r: u8)
    requires
        b.valid(*fi),
        maps.valid(*fi),
        fi.seg_enabled,
    ensures
        r == covering_segid(*fi, *b, maps.cur@),
        r < 16,
{
    proof {
        lemma_block_in_map(*fi, *b, maps.cur@.len() as int);
    }
    let len: usize = maps.cur.len();
    let row: usize = b.by as usize;
    let stride: usize = fi.b4_stride as usize;
    proof {
        assert((b.by + 1) * stride == b.by * stride + stride) by (nonlinear_arith);
    }
    maps.cur[row * stride + b.bx as usize]
}

/// A segment identifier with the flag that says that it was predicted.
#[derive(Debug, Clone, Copy, PartialEq, Eq, Structural)]
pub struct SegRead {
    pub seg_id: u8,
    pub seg_pred: u8,
}

pub open spec fn seg_read(seg_id: int, seg_pred: int) -> SegRead {
    SegRead { seg_id: seg_id as u8, seg_pred: seg_pred as u8 }
}

/// The context of the flag that says that an identifier is predicted.
pub open spec fn seg_pred_ctx(a: BlockContext, l: BlockContext, b: BlockPos) -> usize {
    (a.seg_pred[b.bx4()] + l.seg_pred[b.by4()]) as usize
}

/// A segment identifier coded relative to its prediction in the frame.
pub open spec fn spatial_segid(s: Sym, fi: SbFrameInfo, b: BlockPos, cur: Seq<u8>) -> (int, Sym) {
    let (pred, ctx) = cur_segid(
        cur,
        b.by as int,
        b.bx as int,
        b.have_top(fi),
        b.have_left(fi),
        fi.b4_stride as int,
    );
    coded_segid(s, fi, pred, ctx)
}

/// The segment identifier as far as it is known before the skip flags.
pub open spec fn segid_before_skip(
    s: Sym,
    fi: SbFrameInfo,
    b: BlockPos,
    has_luma: bool,
    a: BlockContext,
    l: BlockContext,
    cur: Seq<u8>,
    prev: Option<Seq<u8>>,
) -> (SegRead, Sym) {
    if !fi.seg_enabled {
        (seg_read(0, 0), s)
    } else if !has_luma {
        (seg_read(covering_segid(fi, b, cur), 0), s)
    } else if !fi.seg_update_map {
        (seg_read(kept_segid(fi, b, prev), 0), s)
    } else if !fi.seg_preskip {
        (seg_read(0, 0), s)
    } else {
        let (pred, s) = if fi.seg_temporal {
            s.flag(Cdf::SegPred(seg_pred_ctx(a, l, b)))
        } else {
            (0, s)
        };
        if pred != 0 {
            (seg_read(kept_segid(fi, b, prev), pred), s)
        } else {
            let (sid, s) = spatial_segid(s, fi, b, cur);
            (seg_read(sid, 0), s)
        }
    }
}

pub fn read_segid_before_skip(
    fi: &SbFrameInfo,
    b: &BlockPos,
    has_luma: bool,
    a: &BlockContext,
    l: &BlockContext,
    maps: &SegMaps,
    msac: &mut MsacContext,
) -> (r: SegRead)
    requires
        b.valid(*fi),
        maps.valid(*fi),
        a.wf(),
        l.wf(),
    ensures
        (r, final(msac)@) == segid_before_skip(
            old(msac)@,
            *fi,
            *b,
            has_luma,
            *a,
            *l,
            maps.cur@,
            maps.prev_seq(),
        ),
        r.seg_id < 16,
        r.seg_pred <= 1,
{
    if !fi.seg_enabled {
        return SegRead { seg_id: 0, seg_pred: 0 };
    }
    if !has_luma {
        return SegRead { seg_id: find_covering(fi, b, maps), seg_pred: 0 };
    }
    if !fi.seg_update_map {
        return SegRead { seg_id: find_kept(fi, b, maps), seg_pred: 0 };
    }
    if !fi.seg_preskip {
        return SegRead { seg_id: 0, seg_pred: 0 };
    }
    let pred: u32 = if fi.seg_temporal {
        let ctx: usize = a.seg_pred[(b.bx % 64) as usize] as usize + l.seg_pred[(b.by % 64) as usize] as usize;
        msac.decode_bool_adapt(Cdf::SegPred(ctx))
    } else {
        0
    };
    if pred != 0 {
        SegRead { seg_id: find_kept(fi, b, maps), seg_pred: pred as u8 }
    } else {
        SegRead { seg_id: read_spatial_segid(fi, b, maps, msac), seg_pred: 0 }
    }
}

fn predict_spatial(fi: &SbFrameInfo, b: &BlockPos, maps: &SegMaps) -> (r: (u32, i32))
    requires
        b.valid(*fi),
        maps.valid(*fi),
        fi.seg_enabled,
    ensures
        (r.0 as int, r.1 as int) == cur_segid(
            maps.cur@,
            b.by as int,
            b.bx as int,
            b.have_top(*fi),
            b.have_left(*fi),
            fi.b4_stride as int,
        ),
        r.0 < 16,
        0 <= r.1 <= 2,
{
    proof {
        lemma_block_in_map(*fi, *b, maps.cur@.len() as int);
        let s = fi.b4_stride as int;
        assert(b.by > 0 ==> b.by * s >= s) by (nonlinear_arith)
            requires
                s >= 0,
        ;
    }
    get_cur_frame_segid(
        b.by as usize,
        b.bx as usize,
        b.by > fi.tile_row_start,
        b.bx > fi.tile_col_start,
        maps.cur,
        fi.b4_stride as usize,
    )
}

fn read_spatial_segid(fi: &SbFrameInfo, b: &BlockPos, maps: &SegMaps, msac: &mut MsacContext) -> (r:
    u8)
    requires
        b.valid(*fi),
        maps.valid(*fi),
        fi.seg_enabled,
    ensures
        (r as int, final(msac)@) == spatial_segid(old(msac)@, *fi, *b, maps.cur@),
        r < 16,
{
    let (pred, ctx) = predict_spatial(fi, b, maps);
    read_coded_segid(fi, pred, ctx, msac)
}

/// The segment identifier where it is coded after the skip flag; `before` is
/// what was known until then.
pub open spec fn segid_after_skip(
    s: Sym,
    fi: SbFrameInfo,
    b: BlockPos,
    has_luma: bool,
    skip_txfm: bool,
    before: SegRead,
    a: BlockContext,
    l: BlockContext,
    cur: Seq<u8>,
    prev: Option<Seq<u8>>,
) -> (SegRead, Sym) {
    if !(fi.seg_enabled && fi.seg_update_map && !fi.seg_preskip) {
        (before, s)
    } else if !has_luma {
        (seg_read(covering_segid(fi, b, cur), before.seg_pred as int), s)
    } else {
        let asked = !skip_txfm && fi.seg_temporal;
        let (pred, s) = if asked {
            s.flag(Cdf::SegPred(seg_pred_ctx(a, l, b)))
        } else {
            (before.seg_pred as int, s)
        };
        if asked && pred != 0 {
            (seg_read(kept_segid(fi, b, prev), pred), s)
        } else if skip_txfm && !fi.any_lossless {
            (
                seg_read(
                    cur_segid(
                        cur,
                        b.by as int,
                        b.bx as int,
                        b.have_top(fi),
                        b.have_left(fi),
                        fi.b4_stride as int,
                    ).0,
                    pred,
                ),
                s,
            )
        } else {
            let (sid, s) = spatial_segid(s, fi, b, cur);
            (seg_read(sid, pred), s)
        }
    }
}

pub fn read_segid_after_skip(
    fi: &SbFrameInfo,
    b: &BlockPos,
    has_luma: bool,
    skip_txfm: bool,
    before: SegRead,
    a: &BlockContext,
    l: &BlockContext,
    maps: &SegMaps,
    msac: &mut MsacContext,
) -> (r: SegRead)
    requires
        b.valid(*fi),
        maps.valid(*fi),
        a.wf(),
        l.wf(),
        before.seg_id < 16,
        before.seg_pred <= 1,
    ensures
        (r, final(msac)@) == segid_after_skip(
            old(msac)@,
            *fi,
            *b,
            has_luma,
            skip_txfm,
            before,
            *a,
            *l,
            maps.cur@,
            maps.prev_seq(),
        ),
        r.seg_id < 16,
        r.seg_pred <= 1,
{
    if !(fi.seg_enabled && fi.seg_update_map && !fi.seg_preskip) {
        return before;
    }
    if !has_luma {
        return SegRead { seg_id: find_covering(fi, b, maps), seg_pred: before.seg_pred };
    }
    let asked: bool = !skip_txfm && fi.seg_temporal;
    let pred: u8 = if asked {
        let ctx: usize = a.seg_pred[(b.bx % 64) as usize] as usize + l.seg_pred[(b.by % 64) as usize] as usize;
        msac.decode_bool_adapt(Cdf::SegPred(ctx)) as u8
    } else {
        before.seg_pred
    };
    if asked && pred != 0 {
        SegRead { seg_id: find_kept(fi, b, maps), seg_pred: pred }
    } else if skip_txfm && !fi.any_lossless {
        let (sid, _ctx) = predict_spatial(fi, b, maps);
        SegRead { seg_id: sid as u8, seg_pred: pred }
    } else {
        SegRead { seg_id: read_spatial_segid(fi, b, maps, msac), seg_pred: pred }
    }
}

/// `after` is `before` with the rectangle of the block set to `v`.
pub open spec fn segmap_written(
    before: Seq<u8>,
    after: Seq<u8>,
    off: int,
    stride: int,
    w: int,
    h: int,
    v: u8,
) -> bool {
    &&& after.len() == before.len()
    &&& forall|y: int, x: int|
        0 <= y < h && 0 <= x < w ==> after[#[trigger] map_index(off, stride, y, x)] == v
    &&& forall|i: int|
        0 <= i < before.len() && (forall|y: int, x: int|
            0 <= y < h && 0 <= x < w ==> i != #[trigger] map_index(off, stride, y, x))
            ==> #[trigger] after[i] == before[i]
}

/// Sets a rectangle of a segment map.
pub fn write_segmap(
    map: &mut Vec<u8>,
    by: usize,
    bx: usize,
    w4: usize,
    h4: usize,
    stride: usize,
    seg_id: u8,
)
    requires
        rect_fits(
            old(map)@.len() as int,
            by as int,
            bx as int,
            w4 as int,
            h4 as int,
            stride as int,
        ),
    ensures
        segmap_written(
            old(map)@,
            final(map)@,
            by * stride + bx,
            stride as int,
            w4 as int,
            h4 as int,
            seg_id,
        ),
{
    let ghost off0 = by * stride + bx;
    let ghost m0 = map@;
    let len: usize = map.len();
    let mut y: usize = 0;
    while y < h4
        invariant
            y <= h4,
            0 < w4,
            len == map@.len(),
            m0.len() == len,
            bx + w4 <= stride,
            off0 == by * stride + bx,
            (by + h4) * stride <= len,
            segmap_written(m0, map@, off0, stride as int, w4 as int, y as int, seg_id),
        decreases h4 - y,
    {
        proof {
            assert(by * stride + y * stride + stride <= (by + h4) * stride) by (nonlinear_arith)
                requires
                    y + 1 <= h4,
                    stride >= 0,
            ;
            assert((by + y) * stride == by * stride + y * stride) by (nonlinear_arith);
            assert(by + h4 <= (by + h4) * stride) by (nonlinear_arith)
                requires
                    stride >= 1,
            ;
        }
        let off: usize = (by + y) * stride + bx;
        let ghost m1 = map@;
        let mut x: usize = 0;
        while x < w4
            invariant
                x <= w4,
                w4 <= stride,
                len == map@.len(),
                m1.len() == len,
                off == off0 + y * stride,
                off + w4 <= len,
                forall|i: int|
                    0 <= i < len ==> #[trigger] map@[i] == (if off <= i < off + x {
                        seg_id
                    } else {
                        m1[i]
                    }),
            decreases w4 - x,
        {
            map.set(off + x, seg_id);
            x = x + 1;
        }
        proof {
            assert forall|yy: int, x: int| 0 <= yy < y + 1 && 0 <= x < w4 implies map@[
                #[trigger] map_index(off0, stride as int, yy, x)
            ] == seg_id by {
                if yy < y {
                    assert(yy * stride + stride <= y * stride) by (nonlinear_arith)
                        requires
                            yy + 1 <= y,
                            stride >= 0,
                    ;
                    assert(0 <= yy * stride) by (nonlinear_arith)
                        requires
                            yy >= 0,
                            stride >= 0,
                    ;
                    assert(m1[map_index(off0, stride as int, yy, x)] == seg_id);
                }
            }
            assert forall|i: int|
                0 <= i < m0.len() && (forall|yy: int, x: int|
                    0 <= yy < y + 1 && 0 <= x < w4 ==> i != #[trigger] map_index(
                        off0,
                        stride as int,
                        yy,
                        x,
                    )) implies #[trigger] map@[i] == m0[i] by {
                if off <= i < off + w4 {
                    assert(i == map_index(off0, stride as int, y as int, i - off));
                }
                assert(map@[i] == m1[i]);
            }
        }
        y = y + 1;
    }
}

/// Small differences stand for numbers near the prediction: the first one for
/// the next number up, where there is one and the prediction is not zero, and
/// from difference to difference the distance does not shrink.
pub proof fn law_small_differences_are_near(d: int, r: int, max: int)
    requires
        0 <= r < max,
        0 <= d,
        d + 1 < max,
    ensures
        0 < r < max - 1 ==> neg_deinterleaved(1, r, max) == r + 1,
        r == 0 ==> neg_deinterleaved(1, r, max) == 1,
        r == max - 1 ==> neg_deinterleaved(1, r, max) == max - 2,
        ({
            let a = neg_deinterleaved(d, r, max) - r;
            let b = neg_deinterleaved(d + 1, r, max) - r;
            (if a < 0 { -a } else { a }) <= (if b < 0 { -b } else { b })
        }),
{
}

/// The identifier that a block takes over is the least one in its rectangle of
/// the last frame.
pub proof fn law_kept_segid_is_the_least_of_the_block(
    map: Seq<u8>,
    by: int,
    bx: int,
    w: int,
    h: int,
    stride: int,
    y: int,
    x: int,
)
    requires
        by <= y < by + h,
        bx <= x < bx + w,
    ensures
        prev_segid(map, by, bx, w, h, stride) <= map[y * stride + x],
        prev_segid(map, by, bx, w, h, stride) <= 8,
{
    let off = by * stride + bx;
    law_prev_segid_is_least(map, off, stride, w, h);
    assert(off + (y - by) * stride + (x - bx) == y * stride + x) by (nonlinear_arith)
        requires
            off == by * stride + bx,
    ;
    assert(map_index(off, stride, y - by, x - bx) == y * stride + x);
}

/// The prediction from the same frame is that of the neighbours which agree:
/// the one above where it agrees with the diagonal one, and the left one
/// otherwise. A single neighbour is the prediction. The context counts the
/// agreement: all three, two, or none.
pub proof fn law_predicted_segid_is_that_of_a_neighbour(
    map: Seq<u8>,
    by: int,
    bx: int,
    stride: int,
)
    ensures
        ({
            let here = by * stride + bx;
            let left = map[here - 1];
            let above = map[here - stride];
            let corner = map[here - stride - 1];
            let (p, c) = cur_segid(map, by, bx, true, true, stride);
            &&& above == corner ==> p == above
            &&& above != corner ==> p == left
            &&& left == above && above == corner <==> c == 2
            &&& left != above && left != corner && above != corner <==> c == 0
            &&& 0 <= c <= 2
            &&& cur_segid(map, by, bx, false, true, stride) == (left as int, 0int)
            &&& cur_segid(map, by, bx, true, false, stride) == (above as int, 0int)
            &&& cur_segid(map, by, bx, false, false, stride) == (0int, 0int)
        }),
{
}

/// Symbol zero stands for the predicted identifier; the flag of extended
/// segments adds eight to the symbol; what is not in use stands for zero.
pub proof fn law_coded_segid_is_near_its_prediction(s: Sym, fi: SbFrameInfo, pred: int, ctx: int)
    requires
        0 <= pred <= fi.seg_last_active_segid,
        fi.seg_last_active_segid < 16,
    ensures
        ({
            let (id, t) = coded_segid(s, fi, pred, ctx);
            let k = s.asked.len() as int;
            let d = if fi.seg_ext { 8 * t.got(k) + t.got(k + 1) } else { t.got(k) };
            &&& 0 <= id <= fi.seg_last_active_segid
            &&& d == 0 ==> id == pred
            &&& d == 1 && 0 < pred < fi.seg_last_active_segid ==> id == pred + 1
            &&& d == 2 && 0 < pred < fi.seg_last_active_segid ==> id == pred - 1
            &&& pred == 0 && d <= fi.seg_last_active_segid ==> id == d
            &&& d > fi.seg_last_active_segid ==> id == 0
            &&& fi.seg_ext ==> t.asked[k] == Request::Bool(Cdf::SegIdExt(ctx as usize))
        }),
{
}

/// Which identifier a block has before its skip flags: none without segments;
/// that of luma for chroma alone; that of the last frame where the map is not
/// updated or the flag says so; and a coded one otherwise.
pub proof fn law_segid_comes_from_where_the_frame_says(
    s: Sym,
    fi: SbFrameInfo,
    b: BlockPos,
    a: BlockContext,
    l: BlockContext,
    cur: Seq<u8>,
    prev: Option<Seq<u8>>,
)
    ensures
        ({
            let (r, t) = segid_before_skip(s, fi, b, true, a, l, cur, prev);
            let (c, u) = segid_before_skip(s, fi, b, false, a, l, cur, prev);
            let k = s.asked.len() as int;
            &&& !fi.seg_enabled ==> r.seg_id == 0 && r.seg_pred == 0 && t == s
            &&& fi.seg_enabled ==> c.seg_id == cur[b.by * fi.b4_stride + b.bx] && u == s
            &&& fi.seg_enabled && !fi.seg_update_map ==> r == seg_read(kept_segid(fi, b, prev), 0)
                && t == s
            &&& fi.seg_enabled && fi.seg_update_map && fi.seg_preskip && fi.seg_temporal ==> {
                &&& t.asked[k] == Request::Bool(
                    Cdf::SegPred((a.seg_pred[b.bx as int % 64] + l.seg_pred[b.by as int % 64]) as usize),
                )
                &&& r.seg_pred == t.got(k)
                &&& t.got(k) == 1 ==> r == seg_read(kept_segid(fi, b, prev), 1)
            }
            &&& prev is None ==> kept_segid(fi, b, prev) == 0
        }),
{
}

/// After the skip flag nothing changes unless the identifier was left open. A
/// block without residual takes over the prediction without reading anything,
/// unless some segment is lossless.
pub proof fn law_open_segid_is_closed_after_the_skip_flag(
    s: Sym,
    fi: SbFrameInfo,
    b: BlockPos,
    skip: bool,
    before: SegRead,
    a: BlockContext,
    l: BlockContext,
    cur: Seq<u8>,
    prev: Option<Seq<u8>>,
)
    ensures
        ({
            let (r, t) = segid_after_skip(s, fi, b, true, skip, before, a, l, cur, prev);
            let k = s.asked.len() as int;
            let open = fi.seg_enabled && fi.seg_update_map && !fi.seg_preskip;
            &&& !open ==> r == before && t == s
            &&& open && skip && !fi.any_lossless ==> t == s && r.seg_pred == before.seg_pred
                && r.seg_id == cur_segid(
                cur,
                b.by as int,
                b.bx as int,
                b.by > fi.tile_row_start,
                b.bx > fi.tile_col_start,
                fi.b4_stride as int,
            ).0 as u8
            &&& open && !skip && fi.seg_temporal ==> r.seg_pred == t.got(k) && (t.got(k) == 1
                ==> r.seg_id == kept_segid(fi, b, prev) as u8)
        }),
{
}

/// What a block keeps of the last frame is the least identifier of the
/// rectangle that it covers there, as far as it lies in the frame.
pub proof fn law_block_keeps_the_least_of_its_place(
    fi: SbFrameInfo,
    b: BlockPos,
    map: Seq<u8>,
    y: int,
    x: int,
)
    requires
        b.by <= y < b.by + b.bs.h4(),
        b.bx <= x < b.bx + b.bs.w4(),
        y < fi.bh,
        x < fi.bw,
    ensures
        kept_segid(fi, b, Some(map)) <= map[y * fi.b4_stride + x],
        kept_segid(fi, b, None) == 0,
{
    law_kept_segid_is_the_least_of_the_block(
        map,
        b.by as int,
        b.bx as int,
        b.vis_w4(fi),
        b.vis_h4(fi),
        fi.b4_stride as int,
        y,
        x,
    );
}

/// Writing a block into a segment map sets the units of its rectangle and
/// leaves those outside of it.
pub proof fn law_written_block_leaves_the_rest(
    before: Seq<u8>,
    after: Seq<u8>,
    by: int,
    bx: int,
    stride: int,
    w: int,
    h: int,
    v: u8,
    y: int,
    x: int,
)
    requires
        segmap_written(before, after, by * stride + bx, stride, w, h, v),
        0 <= bx,
        bx + w <= stride,
        0 <= x < stride,
        0 <= y * stride + x < before.len(),
    ensures
        by <= y < by + h && bx <= x < bx + w ==> after[y * stride + x] == v,
        !(by <= y < by + h && bx <= x < bx + w) ==> after[y * stride + x] == before[y * stride + x],
{
    let off = by * stride + bx;
    if by <= y < by + h && bx <= x < bx + w {
        assert(off + (y - by) * stride + (x - bx) == y * stride + x) by (nonlinear_arith)
            requires
                off == by * stride + bx,
        ;
        assert(map_index(off, stride, y - by, x - bx) == y * stride + x);
    } else {
        assert forall|p: int, q: int| 0 <= p < h && 0 <= q < w implies y * stride + x
            != #[trigger] map_index(off, stride, p, q) by {
            assert(off + p * stride + q == (by + p) * stride + (bx + q)) by (nonlinear_arith)
                requires
                    off == by * stride + bx,
            ;
            if y * stride + x == (by + p) * stride + (bx + q) {
                assert(y == by + p) by (nonlinear_arith)
                    requires
                        y * stride + x == (by + p) * stride + (bx + q),
                        0 <= x < stride,
                        0 <= bx + q < stride,
                ;
            }
        }
    }
}

} // verus!
