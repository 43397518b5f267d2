//! Syntax that is coded once for a superblock or a 64x64 area: loop-filter
//! choices and the quantizer.
use vstd::prelude::*;

use crate::block::BlockPos;
use crate::frameinfo::SbFrameInfo;
use crate::headers::AdaptiveBoolean;
use crate::intops::{b2i, clip, iclip, imax, max, p2, POW2};
use crate::levels::{lemma_block_dimensions, BlockSize};
use crate::msac::{Cdf, MsacContext, Request, Sym};

verus! {

/// Loop-filter choices of a 256x256 area, one entry for each 64x64 area: the
/// strength of constrained directional enhancement (-1 until it is known),
/// guided filtering, and cross-component offsets by plane.
#[derive(Debug, Clone, Copy)]
pub struct SbFilter {
    pub cdef_idx: [i8; 16],
    pub gdf: [u8; 16],
    pub ccso: [u8; 3],
}

impl SbFilter {
    /// Nothing is filtered.
    pub open spec fn idle(self) -> bool {
        &&& forall|i: int| 0 <= i < 16 ==> self.cdef_idx[i] == 0 && self.gdf[i] == 0
        &&& forall|i: int| 0 <= i < 3 ==> self.ccso[i] == 0
    }
}

impl Default for SbFilter {
    fn default() -> (r: Self)
        ensures
            r.idle(),
    {
        SbFilter { cdef_idx: [0; 16], gdf: [0; 16], ccso: [0; 3] }
    }
}

/// The entry of the 64x64 area that holds the position.
pub open spec fn area_of(bx: int, by: int) -> int {
    by / 16 % 4 * 4 + bx / 16 % 4
}

/// Entry `i` lies in the rectangle of `w` by `h` areas at area `idx`.
pub open spec fn in_areas(i: int, idx: int, w: int, h: int) -> bool {
    &&& idx % 4 <= i % 4 < idx % 4 + w
    &&& idx / 4 <= i / 4 < idx / 4 + h
}

/// The binary logarithm of the side of a guided-filter area, in 64 pixels.
pub open spec fn gdf_log2(fi: SbFrameInfo) -> int {
    if fi.gdf_is_key { 1 } else { max(1, fi.sb128 as int) }
}

/// Whether a guided-filter area starts at the block.
pub open spec fn gdf_starts(fi: SbFrameInfo, b: BlockPos) -> bool {
    b.bx as int % (16 * p2(gdf_log2(fi))) == 0 && b.by as int % (16 * p2(gdf_log2(fi))) == 0
}

/// Whether guided filtering is on for an area.
pub open spec fn gdf_flag(s: Sym, fi: SbFrameInfo) -> (int, Sym) {
    if fi.gdf_enabled == AdaptiveBoolean::Adaptive && max(fi.cur_w as int, fi.cur_h as int) > 64
        * p2(gdf_log2(fi)) {
        s.flag(Cdf::Gdf)
    } else {
        (b2i(fi.gdf_enabled != AdaptiveBoolean::Off), s)
    }
}

/// Reads whether guided filtering is on, where an area starts.
pub fn read_gdf(fi: &SbFrameInfo, b: &BlockPos, lf: &mut SbFilter, msac: &mut MsacContext)
    requires
        b.valid(*fi),
        0 <= fi.sb128 <= 2,
    ensures
        final(lf).cdef_idx == old(lf).cdef_idx,
        final(lf).ccso == old(lf).ccso,
        !gdf_starts(*fi, *b) ==> final(lf).gdf == old(lf).gdf && final(msac)@ == old(msac)@,
        gdf_starts(*fi, *b) ==> final(msac)@ == gdf_flag(old(msac)@, *fi).1 && forall|i: int|
            0 <= i < 16 ==> #[trigger] final(lf).gdf[i] == (if in_areas(
                i,
                area_of(b.bx as int, b.by as int),
                p2(gdf_log2(*fi)),
                p2(gdf_log2(*fi)),
            ) {
                gdf_flag(old(msac)@, *fi).0
            } else {
                old(lf).gdf[i] as int
            }),
{
    assert(p2(1) == 2 && p2(2) == 4);
    let log2: i32 = if fi.gdf_is_key { 1 } else { imax(1, fi.sb128) };
    let side: i32 = if log2 == 1 { 2 } else { 4 };
    let size: i32 = 16 * side;
    if b.bx % size != 0 || b.by % size != 0 {
        return ;
    }
    let flag: u8 = if fi.gdf_enabled == AdaptiveBoolean::Adaptive && imax(fi.cur_w, fi.cur_h) > 4
        * size {
        msac.decode_bool_adapt(Cdf::Gdf) as u8
    } else if fi.gdf_enabled != AdaptiveBoolean::Off {
        1
    } else {
        0
    };
    let row: usize = (b.by / 16 % 4) as usize;
    let col: usize = (b.bx / 16 % 4) as usize;
    proof {
        lemma_area_start(b.bx as int, side as int);
        lemma_area_start(b.by as int, side as int);
    }
    let ghost g0 = lf.gdf;
    let mut y: usize = 0;
    while y < side as usize
        invariant
            y <= side,
            side == 2 || side == 4,
            row + side <= 4,
            col + side <= 4,
            lf.cdef_idx == old(lf).cdef_idx,
            lf.ccso == old(lf).ccso,
            forall|i: int|
                0 <= i < 16 ==> #[trigger] lf.gdf[i] == (if in_areas(
                    i,
                    row * 4 + col,
                    side as int,
                    y as int,
                ) {
                    flag
                } else {
                    g0[i]
                }),
        decreases side - y,
    {
        let mut x: usize = 0;
        let ghost g1 = lf.gdf;
        while x < side as usize
            invariant
                x <= side,
                y < side,
                side == 2 || side == 4,
                row + side <= 4,
                col + side <= 4,
                lf.cdef_idx == old(lf).cdef_idx,
                lf.ccso == old(lf).ccso,
                forall|i: int|
                    0 <= i < 16 ==> #[trigger] lf.gdf[i] == (if (row + y) * 4 + col <= i < (row + y)
                        * 4 + col + x {
                        flag
                    } else {
                        g1[i]
                    }),
            decreases side - x,
        {
            lf.gdf[(row + y) * 4 + col + x] = flag;
            x = x + 1;
        }
        y = y + 1;
    }
}

/// An area that starts at a multiple of its side lies in one row of four.
proof fn lemma_area_start(v: int, side: int)
    requires
        v >= 0,
        side == 2 || side == 4,
        v % (16 * side) == 0,
    ensures
        v / 16 % 4 + side <= 4,
{
    if side == 2 {
        assert(16 * side == 32);
        assert(v % 32 == 0);
    } else {
        assert(16 * side == 64);
        assert(v % 64 == 0);
    }
}

/// The strengths of the areas to the left and above, -1 where there is none.
pub open spec fn cdef_ctx(left: int, top: int) -> int {
    if left != -1 && top != -1 {
        if left == 0 && top == 0 { 3 } else { b2i(left == 0) + b2i(top == 0) }
    } else {
        2 * b2i(left == 0 || top == 0)
    }
}

/// The strength index of an area among `n` strengths.
pub open spec fn cdef_index(s: Sym, n: int, left: int, top: int) -> (int, Sym) {
    if n == 1 {
        (0, s)
    } else {
        let (zero, s) = s.flag(Cdf::CdefIdx0(cdef_ctx(left, top) as usize));
        if zero != 0 {
            (0, s)
        } else if n == 2 {
            (1, s)
        } else {
            let (v, s) = s.symbol(Cdf::CdefIdx((n - 3) as usize), n - 2);
            (1 + v, s)
        }
    }
}

/// Reads the strength index of an area.
pub fn read_cdef_index(n: u8, left: i32, top: i32, msac: &mut MsacContext) -> (r: i8)
    requires
        1 <= n <= 100,
        -1 <= left,
        -1 <= top,
    ensures
        (r as int, final(msac)@) == cdef_index(old(msac)@, n as int, left as int, top as int),
        0 <= r,
        r < n,
{
    if n == 1 {
        return 0;
    }
    let ctx: i32 = if left != -1 && top != -1 {
        if left == 0 && top == 0 { 3 } else if left == 0 || top == 0 { 1 } else { 0 }
    } else if left == 0 || top == 0 {
        2
    } else {
        0
    };
    if msac.decode_bool_adapt(Cdf::CdefIdx0(ctx as usize)) != 0 {
        0
    } else if n == 2 {
        1
    } else {
        1 + msac.decode_symbol_adapt(Cdf::CdefIdx((n - 3) as usize), (n - 2) as u32) as i8
    }
}

/// The strength to the left of the area at the block: none at the edge of the
/// tile, else that of the neighbouring area, of this superblock or of the one
/// before.
pub open spec fn cdef_left(fi: SbFrameInfo, b: BlockPos, lf: Seq<SbFilter>, lf_idx: int) -> int {
    let idx = area_of(b.bx as int, b.by as int);
    if b.bx - 16 < fi.tile_col_start {
        -1
    } else if idx % 4 != 0 {
        lf[lf_idx].cdef_idx[idx - 1] as int
    } else {
        lf[lf_idx - 1].cdef_idx[idx + 3] as int
    }
}

/// The strength above the area at the block; none at the top of a superblock.
pub open spec fn cdef_top(fi: SbFrameInfo, b: BlockPos, lf: Seq<SbFilter>, lf_idx: int) -> int {
    let idx = area_of(b.bx as int, b.by as int);
    if (b.by - b.by as int % 16) % fi.sb_step as int == 0 {
        -1
    } else if idx >= 4 {
        lf[lf_idx].cdef_idx[idx - 4] as int
    } else {
        lf[lf_idx - fi.sb256w].cdef_idx[idx + 12] as int
    }
}

/// How many 64x64 areas a side of `v` units of four pixels reaches.
pub open spec fn areas(v: int) -> int {
    if v >= 64 { 4 } else if v >= 32 { 2 } else { 1 }
}

/// Whether the strength of the area at the block is coded with it.
pub open spec fn cdef_coded(
    fi: SbFrameInfo,
    b: BlockPos,
    skip_txfm: bool,
    lf: Seq<SbFilter>,
    lf_idx: int,
) -> bool {
    &&& fi.cdef_enabled
    &&& !skip_txfm || fi.cdef_on_skiptx
    &&& lf[lf_idx].cdef_idx[area_of(b.bx as int, b.by as int)] == -1
}

/// The filters of the neighbouring superblocks exist.
pub open spec fn filters_valid(fi: SbFrameInfo, b: BlockPos, lf: Seq<SbFilter>, lf_idx: int) -> bool {
    &&& 0 <= lf_idx < lf.len()
    &&& b.bx - 64 >= fi.tile_col_start || (b.bx % 64 < 16 && b.bx - 16 >= fi.tile_col_start)
        ==> lf_idx >= 1
    &&& b.by % 64 >= 16 || (b.by - b.by as int % 16) % fi.sb_step as int == 0 || 0 <= fi.sb256w
        <= lf_idx
    &&& forall|i: int, j: int|
        0 <= i < lf.len() && 0 <= j < 16 ==> -1 <= #[trigger] lf[i].cdef_idx[j] <= 100
}

/// Reads the strength of the area at the block and of all areas that the block
/// reaches.
#[verifier::spinoff_prover]
#[verifier::rlimit(60)]
pub fn read_cdef(
    fi: &SbFrameInfo,
    b: &BlockPos,
    skip_txfm: bool,
    lf: &mut Vec<SbFilter>,
    lf_idx: usize,
    msac: &mut MsacContext,
)
    requires
        b.valid(*fi),
        filters_valid(*fi, *b, old(lf)@, lf_idx as int),
        fi.cdef_enabled ==> 1 <= fi.cdef_n_strengths <= 100,
    ensures
        !cdef_coded(*fi, *b, skip_txfm, old(lf)@, lf_idx as int) ==> final(lf)@ == old(lf)@
            && final(msac)@ == old(msac)@,
        cdef_coded(*fi, *b, skip_txfm, old(lf)@, lf_idx as int) ==> {
            let (v, s) = cdef_index(
                old(msac)@,
                fi.cdef_n_strengths as int,
                cdef_left(*fi, *b, old(lf)@, lf_idx as int),
                cdef_top(*fi, *b, old(lf)@, lf_idx as int),
            );
            let f = final(lf)@[lf_idx as int];
            let o = old(lf)@[lf_idx as int];
            &&& final(msac)@ == s
            &&& final(lf)@ == old(lf)@.update(lf_idx as int, f)
            &&& f.gdf == o.gdf
            &&& f.ccso == o.ccso
            &&& forall|i: int|
                0 <= i < 16 ==> #[trigger] f.cdef_idx[i] == (if in_areas(
                    i,
                    area_of(b.bx as int, b.by as int),
                    areas(b.bs.w4()),
                    areas(b.bs.h4()),
                ) {
                    v
                } else {
                    o.cdef_idx[i] as int
                })
        },
{
    if !fi.cdef_enabled || (skip_txfm && !fi.cdef_on_skiptx) {
        return ;
    }
    let row: usize = (b.by / 16 % 4) as usize;
    let col: usize = (b.bx / 16 % 4) as usize;
    let idx: usize = row * 4 + col;
    if lf[lf_idx].cdef_idx[idx] != -1 {
        return ;
    }
    let left: i32 = if b.bx - 16 < fi.tile_col_start {
        -1
    } else if col != 0 {
        lf[lf_idx].cdef_idx[idx - 1] as i32
    } else {
        lf[lf_idx - 1].cdef_idx[idx + 3] as i32
    };
    let top: i32 = if (b.by - b.by % 16) % fi.sb_step == 0 {
        -1
    } else if row != 0 {
        lf[lf_idx].cdef_idx[idx - 4] as i32
    } else {
        lf[lf_idx - fi.sb256w as usize].cdef_idx[idx + 12] as i32
    };
    let v: i8 = read_cdef_index(fi.cdef_n_strengths, left, top, msac);
    let d: [u8; 4] = b.bs.dim();
    let w: usize = if d[0] >= 64 { 4 } else if d[0] >= 32 { 2 } else { 1 };
    let h: usize = if d[1] >= 64 { 4 } else if d[1] >= 32 { 2 } else { 1 };
    proof {
        lemma_block_dimensions(b.bs);
        assert(row + h <= 4 && col + w <= 4);
    }
    let mut f: SbFilter = lf[lf_idx];
    let ghost c0 = f.cdef_idx;
    let mut y: usize = 0;
    while y < h
        invariant
            y <= h,
            row + h <= 4,
            col + w <= 4,
            f.gdf == old(lf)@[lf_idx as int].gdf,
            f.ccso == old(lf)@[lf_idx as int].ccso,
            forall|i: int|
                0 <= i < 16 ==> #[trigger] f.cdef_idx[i] == (if in_areas(
                    i,
                    row * 4 + col,
                    w as int,
                    y as int,
                ) {
                    v
                } else {
                    c0[i]
                }),
        decreases h - y,
    {
        let ghost c1 = f.cdef_idx;
        let mut x: usize = 0;
        while x < w
            invariant
                x <= w,
                y < h,
                row + h <= 4,
                col + w <= 4,
                f.gdf == old(lf)@[lf_idx as int].gdf,
                f.ccso == old(lf)@[lf_idx as int].ccso,
                forall|i: int|
                    0 <= i < 16 ==> #[trigger] f.cdef_idx[i] == (if (row + y) * 4 + col <= i < (row
                        + y) * 4 + col + x {
                        v
                    } else {
                        c1[i]
                    }),
            decreases w - x,
        {
            f.cdef_idx[(row + y) * 4 + col + x] = v;
            x = x + 1;
        }
        y = y + 1;
    }
    lf.set(lf_idx, f);
}

/// A change of the quantizer index: small ones have short codes.
pub open spec fn delta_q(s: Sym, res_log2: int) -> (int, Sym) {
    let (v, s) = s.symbol(Cdf::DeltaQ, 7);
    let (mag, s) = if v == 7 {
        let (n, s) = s.bits(3);
        let (r, s) = s.bits(n + 1);
        (r + 1 + p2(n + 1), s)
    } else {
        (v, s)
    };
    if mag == 0 {
        (0, s)
    } else {
        let (neg, s) = s.bit();
        ((if neg != 0 { -mag } else { mag }) * p2(res_log2), s)
    }
}

fn read_delta_q(res_log2: u8, msac: &mut MsacContext) -> (r: i32)
    requires
        res_log2 <= 16,
    ensures
        (r as int, final(msac)@) == delta_q(old(msac)@, res_log2 as int),
        -0x400_0000 <= r <= 0x400_0000,
{
    assert(p2(3) == 8);
    assert(forall|k: int| 1 <= k <= 8 ==> 2 <= #[trigger] POW2[k] <= 256);
    assert(forall|k: int| 0 <= k <= 16 ==> 1 <= #[trigger] POW2[k] <= 0x1_0000);
    let v: i32 = msac.decode_symbol_adapt(Cdf::DeltaQ, 7) as i32;
    let mag: i32 = if v == 7 {
        let n: u32 = msac.decode_bools_bypass(3) + 1;
        msac.decode_bools_bypass(n) as i32 + 1 + POW2[n as usize] as i32
    } else {
        v
    };
    if mag == 0 {
        return 0;
    }
    let signed: i32 = if msac.decode_bool_bypass() != 0 { -mag } else { mag };
    let unit: i32 = POW2[res_log2 as usize] as i32;
    proof {
        assert(-0x400_0000 <= signed * unit <= 0x400_0000) by (nonlinear_arith)
            requires
                -1000 <= signed <= 1000,
                1 <= unit <= 0x1_0000,
        ;
    }
    signed * unit
}

/// What happens to the dequantization tables at the start of a superblock.
#[derive(Debug, Clone, Copy, PartialEq, Eq, Structural)]
pub enum DequantChoice {
    /// The tables stay as they are.
    Keep,
    /// The tables of the frame are used.
    Frame,
    /// The tables are computed for the new index.
    Compute,
}

/// Whether the block starts a superblock.
pub open spec fn sb_starts(fi: SbFrameInfo, b: BlockPos) -> bool {
    b.bx as int % (16 * p2(fi.sb128 as int)) == 0 && b.by as int % (16 * p2(fi.sb128 as int)) == 0
}

/// The quantizer index of a superblock.
pub open spec fn qidx_read(s: Sym, fi: SbFrameInfo, bs: BlockSize, skip_txfm: bool, last: int) -> (
    int,
    Sym,
) {
    if fi.delta_q_present && (bs != fi.root_bs || !skip_txfm) {
        let (d, s) = delta_q(s, fi.delta_q_res_log2 as int);
        (clip(last + d, 1, 255), s)
    } else {
        (last, s)
    }
}

/// The tables that go with a quantizer index.
pub open spec fn dequant_choice(frame_qidx: int, last: int, new_qidx: int) -> DequantChoice {
    if new_qidx == frame_qidx {
        DequantChoice::Frame
    } else if new_qidx != last {
        DequantChoice::Compute
    } else {
        DequantChoice::Keep
    }
}

/// Reads the quantizer index at the start of a superblock.
pub fn read_qidx(
    fi: &SbFrameInfo,
    b: &BlockPos,
    skip_txfm: bool,
    last_qidx: i32,
    msac: &mut MsacContext,
) -> (r: (i32, DequantChoice))
    requires
        b.valid(*fi),
        0 <= fi.sb128 <= 2,
        fi.delta_q_res_log2 <= 16,
        0 <= last_qidx <= 0xffff,
    ensures
        !sb_starts(*fi, *b) ==> r == (last_qidx, DequantChoice::Keep) && final(msac)@
            == old(msac)@,
        sb_starts(*fi, *b) ==> (r.0 as int, final(msac)@) == qidx_read(
            old(msac)@,
            *fi,
            b.bs,
            skip_txfm,
            last_qidx as int,
        ) && r.1 == dequant_choice(fi.quant_yac as int, last_qidx as int, r.0 as int),
        0 <= r.0 <= 0xffff,
{
    assert(p2(0) == 1 && p2(1) == 2 && p2(2) == 4);
    let size: i32 = if fi.sb128 == 0 { 16 } else if fi.sb128 == 1 { 32 } else { 64 };
    if b.bx % size != 0 || b.by % size != 0 {
        return (last_qidx, DequantChoice::Keep);
    }
    let new_qidx: i32 = if fi.delta_q_present && (b.bs != fi.root_bs || !skip_txfm) {
        let d: i32 = read_delta_q(fi.delta_q_res_log2, msac);
        iclip(last_qidx + d, 1, 255)
    } else {
        last_qidx
    };
    let choice: DequantChoice = if new_qidx == fi.quant_yac {
        DequantChoice::Frame
    } else if new_qidx != last_qidx {
        DequantChoice::Compute
    } else {
        DequantChoice::Keep
    };
    (new_qidx, choice)
}

/// The quantizer index of a superblock that codes a change lies in `1..=255`.
pub proof fn law_coded_qidx_in_range(s: Sym, fi: SbFrameInfo, bs: BlockSize, skip: bool, last: int)
    requires
        fi.delta_q_present,
        bs != fi.root_bs || !skip,
    ensures
        1 <= qidx_read(s, fi, bs, skip, last).0 <= 255,
{
}

/// Whether cross-component offsets are on for plane `p` of a 256x256 area:
/// taken over from another frame, or coded with the choice to the left as
/// context.
pub open spec fn ccso_flag(
    s: Sym,
    fi: SbFrameInfo,
    p: int,
    prev: Option<u8>,
    left: Option<u8>,
) -> (int, Sym) {
    if fi.ccso_sb_reuse[p] {
        (match prev {
            Some(v) => v as int,
            None => 0,
        }, s)
    } else {
        let ctx: int = match left {
            Some(v) => 2 * v,
            None => 0,
        };
        s.flag(Cdf::Ccso(p as usize, ctx as usize))
    }
}

/// Reads whether cross-component offsets are on for one plane.
pub fn read_ccso(
    fi: &SbFrameInfo,
    p: usize,
    prev: Option<u8>,
    left: Option<u8>,
    msac: &mut MsacContext,
) -> (r: u8)
    requires
        p < 3,
    ensures
        (r as int, final(msac)@) == ccso_flag(old(msac)@, *fi, p as int, prev, left),
{
    if fi.ccso_sb_reuse[p] {
        match prev {
            Some(v) => v,
            None => 0,
        }
    } else {
        let ctx: usize = match left {
            Some(v) => 2 * v as usize,
            None => 0,
        };
        msac.decode_bool_adapt(Cdf::Ccso(p, ctx)) as u8
    }
}

/// The cross-component maps of earlier frames that the planes take over.
pub struct CcsoMaps<'a> {
    pub prev0: Option<&'a [u8]>,
    pub prev1: Option<&'a [u8]>,
    pub prev2: Option<&'a [u8]>,
}

impl<'a> CcsoMaps<'a> {
    pub open spec fn prev(self, p: int) -> Option<&'a [u8]> {
        if p == 0 {
            self.prev0
        } else if p == 1 {
            self.prev1
        } else {
            self.prev2
        }
    }

    /// What plane `p` takes over at place `i` of the map.
    pub open spec fn taken(self, p: int, i: int) -> Option<u8> {
        match self.prev(p) {
            Some(m) => Some(m@[i + p]),
            None => None,
        }
    }
}

/// Whether the block starts a 256x256 area.
pub open spec fn area256_starts(b: BlockPos) -> bool {
    b.bx % 64 == 0 && b.by % 64 == 0
}

/// The place of a 256x256 area in the maps of three planes.
pub open spec fn ccso_index(fi: SbFrameInfo, b: BlockPos) -> int {
    3 * (b.bx as int / 64 + b.by as int / 64 * fi.sb256w)
}

/// The choice of plane `p` to the left, if that lies in the tile.
pub open spec fn ccso_left(fi: SbFrameInfo, b: BlockPos, lf: Seq<SbFilter>, lf_idx: int, p: int) -> Option<
    u8,
> {
    if b.bx - 64 >= fi.tile_col_start { Some(lf[lf_idx - 1].ccso[p]) } else { None }
}

/// The state after the choices of the planes below `n`.
pub open spec fn ccso_sym(
    s: Sym,
    fi: SbFrameInfo,
    b: BlockPos,
    maps: CcsoMaps,
    lf: Seq<SbFilter>,
    lf_idx: int,
    n: int,
) -> Sym
    decreases n,
{
    if n <= 0 {
        s
    } else {
        let s = ccso_sym(s, fi, b, maps, lf, lf_idx, n - 1);
        if fi.ccso_enabled[n - 1] {
            ccso_value(s, fi, b, maps, lf, lf_idx, n - 1).1
        } else {
            s
        }
    }
}

/// The choice of plane `p`.
pub open spec fn ccso_value(
    s: Sym,
    fi: SbFrameInfo,
    b: BlockPos,
    maps: CcsoMaps,
    lf: Seq<SbFilter>,
    lf_idx: int,
    p: int,
) -> (int, Sym) {
    ccso_flag(
        s,
        fi,
        p,
        maps.taken(p, ccso_index(fi, b)),
        ccso_left(fi, b, lf, lf_idx, p),
    )
}

/// The maps reach the area of the block.
pub open spec fn ccso_valid(fi: SbFrameInfo, b: BlockPos, maps: CcsoMaps, cur: Seq<u8>) -> bool {
    &&& 0 <= fi.sb256w <= 0x1_0000
    &&& cur.len() > 0 ==> ccso_index(fi, b) + 3 <= cur.len()
    &&& forall|p: int|
        0 <= p < 3 && (#[trigger] maps.prev(p)) is Some ==> ccso_index(fi, b) + 3
            <= maps.prev(p).unwrap()@.len()
}

/// Reads the choices of the three planes where a 256x256 area starts. They
/// are kept with the filters and, if there is one, in the map of the frame.
pub fn read_ccso_planes(
    fi: &SbFrameInfo,
    b: &BlockPos,
    maps: &CcsoMaps,
    lf: &mut Vec<SbFilter>,
    lf_idx: usize,
    cur: &mut Vec<u8>,
    msac: &mut MsacContext,
)
    requires
        b.valid(*fi),
        filters_valid(*fi, *b, old(lf)@, lf_idx as int),
        ccso_valid(*fi, *b, *maps, old(cur)@),
        b.by / 64 <= 0x1000,
    ensures
        !area256_starts(*b) ==> final(lf)@ == old(lf)@ && final(cur)@ == old(cur)@ && final(msac)@
            == old(msac)@,
        area256_starts(*b) ==> {
            let f = final(lf)@[lf_idx as int];
            let o = old(lf)@[lf_idx as int];
            let i0 = ccso_index(*fi, *b);
            &&& final(msac)@ == ccso_sym(
                old(msac)@,
                *fi,
                *b,
                *maps,
                old(lf)@,
                lf_idx as int,
                3,
            )
            &&& final(lf)@ == old(lf)@.update(lf_idx as int, f)
            &&& f.gdf == o.gdf
            &&& f.cdef_idx == o.cdef_idx
            &&& final(cur)@.len() == old(cur)@.len()
            &&& forall|p: int|
                0 <= p < 3 ==> #[trigger] f.ccso[p] == (if fi.ccso_enabled[p] {
                    ccso_value(
                        ccso_sym(old(msac)@, *fi, *b, *maps, old(lf)@, lf_idx as int, p),
                        *fi,
                        *b,
                        *maps,
                        old(lf)@,
                        lf_idx as int,
                        p,
                    ).0
                } else {
                    o.ccso[p] as int
                })
            &&& forall|i: int|
                0 <= i < old(cur)@.len() ==> #[trigger] final(cur)@[i] == (if i0 <= i < i0 + 3
                    && fi.ccso_enabled[i - i0] {
                    f.ccso[i - i0]
                } else {
                    old(cur)@[i]
                })
        },
{
    if b.bx % 64 != 0 || b.by % 64 != 0 {
        return ;
    }
    proof {
        assert(0 <= b.by as int / 64 * fi.sb256w <= 0x1000_0000) by (nonlinear_arith)
            requires
                0 <= b.by as int / 64 <= 0x1000,
                0 <= fi.sb256w <= 0x1_0000,
        ;
    }
    let at: usize = 3 * ((b.bx / 64 + b.by / 64 * fi.sb256w) as usize);
    let has_left: bool = b.bx - 64 >= fi.tile_col_start;
    let mut f: SbFilter = lf[lf_idx];
    let ghost lf0 = lf@;
    let ghost s0 = msac@;
    let ghost o = f;
    let ghost cur0 = cur@;
    let mut p: usize = 0;
    while p < 3
        invariant
            p <= 3,
            lf@ == lf0,
            lf_idx < lf0.len(),
            has_left ==> lf_idx >= 1,
            has_left == (b.bx - 64 >= fi.tile_col_start),
            ccso_valid(*fi, *b, *maps, cur0),
            at == ccso_index(*fi, *b),
            at <= 0x4000_0000,
            cur@.len() == cur0.len(),
            f.gdf == o.gdf,
            f.cdef_idx == o.cdef_idx,
            msac@ == ccso_sym(s0, *fi, *b, *maps, lf0, lf_idx as int, p as int),
            forall|q: int|
                0 <= q < 3 ==> #[trigger] f.ccso[q] == (if q < p && fi.ccso_enabled[q] {
                    ccso_value(
                        ccso_sym(s0, *fi, *b, *maps, lf0, lf_idx as int, q),
                        *fi,
                        *b,
                        *maps,
                        lf0,
                        lf_idx as int,
                        q,
                    ).0
                } else {
                    o.ccso[q] as int
                }),
            forall|i: int|
                0 <= i < cur0.len() ==> #[trigger] cur@[i] == (if at <= i < at + p
                    && fi.ccso_enabled[i - at] {
                    f.ccso[i - at]
                } else {
                    cur0[i]
                }),
        decreases 3 - p,
    {
        assert(maps.prev(p as int) is Some ==> ccso_index(*fi, *b) + 3 <= maps.prev(
            p as int,
        ).unwrap()@.len());
        if fi.ccso_enabled[p] {
            let map: Option<&[u8]> = if p == 0 {
                maps.prev0
            } else if p == 1 {
                maps.prev1
            } else {
                maps.prev2
            };
            let prev: Option<u8> = match map {
                Some(m) => Some(m[at + p]),
                None => None,
            };
            let left: Option<u8> = if has_left { Some(lf[lf_idx - 1].ccso[p]) } else { None };
            let v: u8 = read_ccso(fi, p, prev, left, msac);
            f.ccso[p] = v;
            if cur.len() > 0 {
                cur.set(at + p, v);
            }
        }
        p = p + 1;
    }
    lf.set(lf_idx, f);
}

/// What the syntax of a superblock is read with: whether the block has luma
/// and whether it has a residual.
#[derive(Debug, Clone, Copy, PartialEq, Eq, Structural)]
pub struct SbBlock {
    pub pos: BlockPos,
    pub has_luma: bool,
    pub skip_txfm: bool,
}

/// The state after the flag of guided filtering.
pub open spec fn after_gdf(s: Sym, fi: SbFrameInfo, b: SbBlock) -> Sym {
    if b.has_luma && gdf_starts(fi, b.pos) { gdf_flag(s, fi).1 } else { s }
}

/// The state after the strength of directional enhancement.
pub open spec fn after_cdef(
    s: Sym,
    fi: SbFrameInfo,
    b: SbBlock,
    lf: Seq<SbFilter>,
    lf_idx: int,
) -> Sym {
    if cdef_coded(fi, b.pos, b.has_luma && b.skip_txfm, lf, lf_idx) {
        cdef_index(
            s,
            fi.cdef_n_strengths as int,
            cdef_left(fi, b.pos, lf, lf_idx),
            cdef_top(fi, b.pos, lf, lf_idx),
        ).1
    } else {
        s
    }
}

/// The state after the cross-component choices.
pub open spec fn after_ccso(
    s: Sym,
    fi: SbFrameInfo,
    b: SbBlock,
    maps: CcsoMaps,
    lf: Seq<SbFilter>,
    lf_idx: int,
) -> Sym {
    if b.has_luma && area256_starts(b.pos) {
        ccso_sym(s, fi, b.pos, maps, lf, lf_idx, 3)
    } else {
        s
    }
}

/// The state ahead of the quantizer index.
pub open spec fn before_qidx(
    s: Sym,
    fi: SbFrameInfo,
    b: SbBlock,
    maps: CcsoMaps,
    lf: Seq<SbFilter>,
    lf_idx: int,
) -> Sym {
    after_ccso(
        after_cdef(after_gdf(s, fi, b), fi, b, lf, lf_idx),
        fi,
        b,
        maps,
        lf,
        lf_idx,
    )
}

/// The quantizer index and the state after it.
pub open spec fn block_qidx(s: Sym, fi: SbFrameInfo, b: SbBlock, last: int) -> (int, Sym) {
    if b.has_luma && sb_starts(fi, b.pos) {
        qidx_read(s, fi, b.pos.bs, b.skip_txfm, last)
    } else {
        (last, s)
    }
}

/// The filter choices of the superblock after those of the block were read.
pub open spec fn filters_read(
    s: Sym,
    fi: SbFrameInfo,
    b: SbBlock,
    maps: CcsoMaps,
    lf: Seq<SbFilter>,
    lf_idx: int,
    f: SbFilter,
) -> bool {
    let o = lf[lf_idx];
    let area = area_of(b.pos.bx as int, b.pos.by as int);
    let s1 = after_gdf(s, fi, b);
    let s2 = after_cdef(s1, fi, b, lf, lf_idx);
    &&& forall|i: int|
        0 <= i < 16 ==> #[trigger] f.gdf[i] == (if b.has_luma && gdf_starts(fi, b.pos) && in_areas(
            i,
            area,
            p2(gdf_log2(fi)),
            p2(gdf_log2(fi)),
        ) {
            gdf_flag(s, fi).0
        } else {
            o.gdf[i] as int
        })
    &&& forall|i: int|
        0 <= i < 16 ==> #[trigger] f.cdef_idx[i] == (if cdef_coded(
            fi,
            b.pos,
            b.has_luma && b.skip_txfm,
            lf,
            lf_idx,
        ) && in_areas(i, area, areas(b.pos.bs.w4()), areas(b.pos.bs.h4())) {
            cdef_index(
                s1,
                fi.cdef_n_strengths as int,
                cdef_left(fi, b.pos, lf, lf_idx),
                cdef_top(fi, b.pos, lf, lf_idx),
            ).0
        } else {
            o.cdef_idx[i] as int
        })
    &&& forall|p: int|
        0 <= p < 3 ==> #[trigger] f.ccso[p] == (if b.has_luma && area256_starts(b.pos)
            && fi.ccso_enabled[p] {
            ccso_value(
                ccso_sym(s2, fi, b.pos, maps, lf, lf_idx, p),
                fi,
                b.pos,
                maps,
                lf,
                lf_idx,
                p,
            ).0
        } else {
            o.ccso[p] as int
        })
}

/// The map of cross-component choices after those of the block were read.
pub open spec fn ccso_map_read(
    fi: SbFrameInfo,
    b: SbBlock,
    f: SbFilter,
    before: Seq<u8>,
    after: Seq<u8>,
) -> bool {
    let i0 = ccso_index(fi, b.pos);
    &&& after.len() == before.len()
    &&& forall|i: int|
        0 <= i < before.len() ==> #[trigger] after[i] == (if b.has_luma && area256_starts(b.pos)
            && i0 <= i < i0 + 3 && fi.ccso_enabled[i - i0] {
            f.ccso[i - i0]
        } else {
            before[i]
        })
}

/// The limits of what the syntax of a superblock depends on.
pub open spec fn sb_level_valid(
    fi: SbFrameInfo,
    b: BlockPos,
    maps: CcsoMaps,
    lf: Seq<SbFilter>,
    lf_idx: int,
    cur: Seq<u8>,
    qidx: int,
) -> bool {
    &&& 0 <= fi.sb128 <= 2
    &&& filters_valid(fi, b, lf, lf_idx)
    &&& fi.cdef_enabled ==> 1 <= fi.cdef_n_strengths <= 100
    &&& ccso_valid(fi, b, maps, cur)
    &&& b.by / 64 <= 0x1000
    &&& fi.delta_q_res_log2 <= 16
    &&& 0 <= qidx <= 0xffff
}

/// Strengths of other superblocks do not depend on guided filtering.
#[verifier::spinoff_prover]
#[verifier::rlimit(40)]
proof fn lemma_same_strengths(
    fi: SbFrameInfo,
    b: BlockPos,
    lf: Seq<SbFilter>,
    lf2: Seq<SbFilter>,
    lf_idx: int,
)
    requires
        b.valid(fi),
        filters_valid(fi, b, lf, lf_idx),
        lf2.len() == lf.len(),
        forall|i: int| 0 <= i < lf.len() ==> (#[trigger] lf2[i]).cdef_idx == lf[i].cdef_idx,
    ensures
        forall|skip: bool|
            cdef_coded(fi, b, skip, lf2, lf_idx) == cdef_coded(fi, b, skip, lf, lf_idx),
        cdef_left(fi, b, lf2, lf_idx) == cdef_left(fi, b, lf, lf_idx),
        cdef_top(fi, b, lf2, lf_idx) == cdef_top(fi, b, lf, lf_idx),
{
    let idx = area_of(b.bx as int, b.by as int);
    assert((idx % 4 == 0 <==> b.bx % 64 < 16) && (idx < 4 <==> b.by % 64 < 16));
    assert(lf2[lf_idx].cdef_idx == lf[lf_idx].cdef_idx);
    if b.bx - 16 >= fi.tile_col_start && b.bx % 64 < 16 {
        assert(lf2[lf_idx - 1].cdef_idx == lf[lf_idx - 1].cdef_idx);
    }
    if (b.by - b.by as int % 16) % fi.sb_step as int != 0 && b.by % 64 < 16 {
        assert(lf2[lf_idx - fi.sb256w].cdef_idx == lf[lf_idx - fi.sb256w].cdef_idx);
    }
}

/// The choices of the planes depend on the choices to the left alone.
proof fn lemma_same_choices(
    s: Sym,
    fi: SbFrameInfo,
    b: BlockPos,
    maps: CcsoMaps,
    lf: Seq<SbFilter>,
    lf2: Seq<SbFilter>,
    lf_idx: int,
    n: int,
)
    requires
        b.bx - 64 >= fi.tile_col_start ==> 0 <= lf_idx - 1 < lf.len() && lf2[lf_idx - 1].ccso
            == lf[lf_idx - 1].ccso,
    ensures
        ccso_sym(s, fi, b, maps, lf2, lf_idx, n) == ccso_sym(s, fi, b, maps, lf, lf_idx, n),
        forall|t: Sym, p: int|
            ccso_value(t, fi, b, maps, lf2, lf_idx, p) == ccso_value(
                t,
                fi,
                b,
                maps,
                lf,
                lf_idx,
                p,
            ),
    decreases n,
{
    if n > 0 {
        lemma_same_choices(s, fi, b, maps, lf, lf2, lf_idx, n - 1);
    }
}

/// Reads all that is coded once for a superblock or an area of it.
pub fn read_sb_level(
    fi: &SbFrameInfo,
    b: &SbBlock,
    maps: &CcsoMaps,
    lf: &mut Vec<SbFilter>,
    lf_idx: usize,
    cur: &mut Vec<u8>,
    qidx: i32,
    msac: &mut MsacContext,
) -> (r: (i32, DequantChoice))
    requires
        b.pos.valid(*fi),
        sb_level_valid(*fi, b.pos, *maps, old(lf)@, lf_idx as int, old(cur)@, qidx as int),
    ensures
        (r.0 as int, final(msac)@) == block_qidx(
            before_qidx(old(msac)@, *fi, *b, *maps, old(lf)@, lf_idx as int),
            *fi,
            *b,
            qidx as int,
        ),
        r.1 == (if b.has_luma && sb_starts(*fi, b.pos) {
            dequant_choice(fi.quant_yac as int, qidx as int, r.0 as int)
        } else {
            DequantChoice::Keep
        }),
        0 <= r.0 <= 0xffff,
        final(lf)@ == old(lf)@.update(lf_idx as int, final(lf)@[lf_idx as int]),
        filters_read(
            old(msac)@,
            *fi,
            *b,
            *maps,
            old(lf)@,
            lf_idx as int,
            final(lf)@[lf_idx as int],
        ),
        ccso_map_read(*fi, *b, final(lf)@[lf_idx as int], old(cur)@, final(cur)@),
{
    let ghost lf0 = lf@;
    let ghost s0 = msac@;
    if b.has_luma {
        let mut f: SbFilter = lf[lf_idx];
        read_gdf(fi, &b.pos, &mut f, msac);
        lf.set(lf_idx, f);
    }
    let ghost lf1 = lf@;
    let ghost s1 = msac@;
    proof {
        assert(forall|i: int|
            0 <= i < lf0.len() ==> (#[trigger] lf1[i]).cdef_idx == lf0[i].cdef_idx && lf1[i].ccso
                == lf0[i].ccso);
        lemma_same_strengths(*fi, b.pos, lf0, lf1, lf_idx as int);
    }
    read_cdef(fi, &b.pos, b.has_luma && b.skip_txfm, lf, lf_idx, msac);
    let ghost lf2 = lf@;
    let ghost s2 = msac@;
    assert(s1 == after_gdf(s0, *fi, *b));
    assert(s2 == after_cdef(s1, *fi, *b, lf0, lf_idx as int));
    proof {
        assert(lf2.len() == lf0.len());
        assert(forall|i: int| 0 <= i < lf0.len() && i != lf_idx ==> #[trigger] lf2[i] == lf0[i]);
        assert(lf2[lf_idx as int].ccso == lf0[lf_idx as int].ccso);
        assert(lf2[lf_idx as int].gdf == lf1[lf_idx as int].gdf);
        lemma_same_choices(s2, *fi, b.pos, *maps, lf0, lf2, lf_idx as int, 0);
        lemma_same_choices(s2, *fi, b.pos, *maps, lf0, lf2, lf_idx as int, 1);
        lemma_same_choices(s2, *fi, b.pos, *maps, lf0, lf2, lf_idx as int, 2);
        lemma_same_choices(s2, *fi, b.pos, *maps, lf0, lf2, lf_idx as int, 3);
        assert(p2(1) == 2 && p2(2) == 4);
    }
    if b.has_luma {
        read_ccso_planes(fi, &b.pos, maps, lf, lf_idx, cur, msac);
    }
    assert(msac@ == before_qidx(s0, *fi, *b, *maps, lf0, lf_idx as int));
    if b.has_luma {
        read_qidx(fi, &b.pos, b.skip_txfm, qidx, msac)
    } else {
        (qidx, DequantChoice::Keep)
    }
}

/// A quantizer change is the number that was coded, in steps of the
/// resolution. A set bit makes it negative. Numbers up to six are coded
/// directly; for larger ones a length comes first.
pub proof fn law_quantizer_change_is_coded(s: Sym, res_log2: int)
    requires
        0 <= res_log2 <= 16,
    ensures
        ({
            let (d, t) = delta_q(s, res_log2);
            let k = s.asked.len() as int;
            let v = t.got(k);
            let step = p2(res_log2);
            &&& t.asked[k] == Request::Symbol(Cdf::DeltaQ, 7)
            &&& v == 0 ==> d == 0 && t.asked.len() == k + 1
            &&& 1 <= v <= 6 ==> t.asked[k + 1] is Bit && (t.got(k + 1) == 0 ==> d == v * step)
                && (t.got(k + 1) == 1 ==> d == -(v * step))
            &&& v == 7 ==> {
                let mag = 1 + p2(t.got(k + 1) + 1) + t.got(k + 2);
                &&& t.asked[k + 1] == Request::Bits(3)
                &&& t.asked[k + 2] == Request::Bits((t.got(k + 1) + 1) as u32)
                &&& t.asked[k + 3] is Bit
                &&& t.got(k + 3) == 0 ==> d == mag * step
                &&& t.got(k + 3) == 1 ==> d == -(mag * step)
            }
        }),
{
    assert(p2(3) == 8);
    assert(forall|j: int| 0 <= j <= 16 ==> 1 <= #[trigger] POW2[j]);
    let (v, s1) = s.symbol(Cdf::DeltaQ, 7);
    let (n, s2) = s1.bits(3);
    let (r, s3) = s2.bits(n + 1);
    let mag = if v == 7 { r + 1 + p2(n + 1) } else { v };
    let step = p2(res_log2);
    assert((-mag) * step == -(mag * step)) by (nonlinear_arith);
    if v == 0 {
        assert(0 * step == 0) by (nonlinear_arith);
    }
}

/// The index of a block is the last one plus the coded change, kept from one
/// to 255; where no change is coded it stays.
pub proof fn law_quantizer_index_adds_the_change(
    s: Sym,
    fi: SbFrameInfo,
    bs: BlockSize,
    skip: bool,
    last: int,
)
    ensures
        ({
            let (q, t) = qidx_read(s, fi, bs, skip, last);
            let d = delta_q(s, fi.delta_q_res_log2 as int).0;
            &&& !fi.delta_q_present || (bs == fi.root_bs && skip) ==> q == last && t == s
            &&& fi.delta_q_present && (bs != fi.root_bs || !skip) ==> {
                &&& 1 <= q <= 255
                &&& 1 <= last + d <= 255 ==> q == last + d
                &&& last + d > 255 ==> q == 255
                &&& last + d < 1 ==> q == 1
            }
        }),
{
}

/// A strength index is zero where the first flag is set, and otherwise counts
/// from one.
pub proof fn law_strength_zero_is_flagged(s: Sym, n: int, left: int, top: int)
    requires
        1 <= n <= 100,
    ensures
        ({
            let (i, t) = cdef_index(s, n, left, top);
            let k = s.asked.len() as int;
            &&& n == 1 ==> i == 0 && t == s
            &&& n >= 2 ==> (t.asked[k] matches Request::Bool(Cdf::CdefIdx0(_))) && (t.got(k) == 1
                <==> i == 0)
            &&& n == 2 && t.got(k) == 0 ==> i == 1 && t.asked.len() == k + 1
            &&& n >= 3 && t.got(k) == 0 ==> i == 1 + t.got(k + 1)
            &&& 0 <= i < n
        }),
{
}

/// The context of a strength counts the neighbouring areas that have strength
/// zero: three for both of two, one for one of two, two for an only one.
pub proof fn law_strength_context_counts_zeros(left: int, top: int)
    requires
        -1 <= left,
        -1 <= top,
    ensures
        cdef_ctx(0, 0) == 3,
        left > 0 && top > 0 ==> cdef_ctx(left, top) == 0,
        left == 0 && top > 0 || left > 0 && top == 0 ==> cdef_ctx(left, top) == 1,
        left == -1 ==> cdef_ctx(left, top) == (if top == 0 { 2int } else { 0 }),
        top == -1 ==> cdef_ctx(left, top) == (if left == 0 { 2int } else { 0 }),
{
}

/// The areas of a superblock are numbered row by row, four to a row. The area
/// of a position is found by its column and its row in units of 64 pixels, and
/// a block of many areas sets those to the right of and below its own.
pub proof fn law_areas_are_numbered_by_rows(bx: int, by: int, i: int, w: int, h: int)
    requires
        0 <= bx,
        0 <= by,
    ensures
        0 <= area_of(bx, by) < 16,
        area_of(bx, by) % 4 == bx % 64 / 16,
        area_of(bx, by) / 4 == by % 64 / 16,
        area_of(bx + 64, by) == area_of(bx, by),
        area_of(bx, by + 64) == area_of(bx, by),
        bx % 64 < 48 ==> area_of(bx + 16, by) == area_of(bx, by) + 1,
        by % 64 < 48 ==> area_of(bx, by + 16) == area_of(bx, by) + 4,
        areas(16) == 1 && areas(32) == 2 && areas(64) == 4 && areas(1) == 1,
        in_areas(i, area_of(bx, by), 1, 1) && 0 <= i < 16 ==> i == area_of(bx, by),
{
}

/// Guided filtering is read for frames that decide by area; otherwise it is on
/// or off for all of the frame.
pub proof fn law_guided_filter_is_read_where_adaptive(s: Sym, fi: SbFrameInfo)
    ensures
        ({
            let (r, t) = gdf_flag(s, fi);
            let k = s.asked.len() as int;
            &&& fi.gdf_enabled == AdaptiveBoolean::Off ==> r == 0 && t == s
            &&& fi.gdf_enabled == AdaptiveBoolean::On ==> r == 1 && t == s
            &&& fi.gdf_enabled == AdaptiveBoolean::Adaptive && t == s ==> r == 1
            &&& t.asked.len() > k ==> t.asked[k] == Request::Bool(Cdf::Gdf) && r == t.got(k)
        }),
{
    assert(s.push(Request::Bool(Cdf::Gdf)).asked.len() == s.asked.len() + 1);
}

/// Cross-component offsets are taken over where the plane says so, and read
/// otherwise.
pub proof fn law_offsets_are_taken_over_or_read(
    s: Sym,
    fi: SbFrameInfo,
    p: int,
    prev: Option<u8>,
    left: Option<u8>,
)
    ensures
        ({
            let (r, t) = ccso_flag(s, fi, p, prev, left);
            let k = s.asked.len() as int;
            &&& fi.ccso_sb_reuse[p] ==> t == s && (prev matches Some(v) ==> r == v) && (prev is None
                ==> r == 0)
            &&& !fi.ccso_sb_reuse[p] ==> {
                &&& r == t.got(k)
                &&& left is None ==> t.asked[k] == Request::Bool(Cdf::Ccso(p as usize, 0))
                &&& left == Some(0u8) ==> t.asked[k] == Request::Bool(Cdf::Ccso(p as usize, 0))
                &&& left == Some(1u8) ==> t.asked[k] == Request::Bool(Cdf::Ccso(p as usize, 2))
            }
        }),
{
}

/// Which quantizer tables a block uses: those of the frame for its own index,
/// the ones at hand for an index that did not change, and new ones otherwise.
pub proof fn law_tables_are_computed_on_change(frame: int, last: int, new: int)
    ensures
        dequant_choice(frame, last, frame) == DequantChoice::Frame,
        new != frame && new == last ==> dequant_choice(frame, last, new) == DequantChoice::Keep,
        new != frame && new != last ==> dequant_choice(frame, last, new) == DequantChoice::Compute,
{
}

} // verus!
