//! Blocks, their neighbours, and what they leave behind for others.
use vstd::prelude::*;

use crate::env::{all_i8, all_u8, BlockContext};
use crate::frameinfo::SbFrameInfo;
use crate::intops::min;
use crate::levels::{BlockSize, Mv, MvXY, RefPair};
use crate::msac::Neighbours;

verus! {

#[derive(Debug, Clone, Copy, PartialEq, Eq)]
pub struct CflData {
    pub cfl_alpha: [i8; 2],
    pub cfl_mh_dir: u8,
}

/// Whether the neighbours above and to the left are smooth.
#[derive(Debug, Clone, Copy, PartialEq, Eq, Structural)]
pub struct SmoothFlags {
    pub a: i32,
    pub l: i32,
}

/// What is coded for a block predicted from its own frame.
#[derive(Debug, Clone, Copy, PartialEq, Eq)]
pub struct IntraData {
    pub y_mode: u8,
    pub y_angle: i8,
    pub uv_mode: u8,
    pub uv_angle: i8,
    pub mrl_index: u8,
    pub multi_mrl: u8,
    pub dpcm: [u8; 2],
    pub cfl_type: i8,
    pub cfl: CflData,
    pub pal_sz: u8,
    pub dip: u8,
    pub is_sm: [SmoothFlags; 2],
    pub is_refmv: u8,
    pub is_qpel: u8,
    pub intrabc_mv: Mv,
    pub morph_pred: u8,
}

/// What is coded for a block predicted from other frames.
#[derive(Debug, Clone, Copy, PartialEq, Eq)]
pub struct InterData {
    pub inter_mode: u8,
    pub comp_type: u8,
    pub motion_mode: u8,
    pub drl_idx: [u8; 2],
    pub amvd: i8,
    pub mv_prec: i8,
    pub mv: [Mv; 2],
    pub refine_mv: u8,
    pub wedge_idx: i8,
    pub wedge_sign: i8,
    pub mask_sign: u8,
    pub cwp_idx: i8,
    pub filter: u8,
    pub warp_ref_idx: u8,
    pub warpmv_with_mvd: u8,
    pub bawp: [u8; 2],
    pub interintra_mode: u8,
    pub matrix: [i8; 4],
    pub warp_ii: u8,
}

#[derive(Debug, Clone, Copy, PartialEq, Eq)]
pub struct BlockData {
    pub intra: IntraData,
    pub inter: InterData,
}

/// All that is coded for one block.
#[derive(Debug, Clone, Copy, PartialEq, Eq)]
pub struct Av2Block {
    pub bs: BlockSize,
    pub cbs: BlockSize,
    pub seg_id: u8,
    pub skip_mode: u8,
    pub is_intra: u8,
    pub intrabc: u8,
    pub skip_txfm: u8,
    pub fsc: u8,
    pub tx_part: u8,
    pub tx_size_ll: u8,
    pub ref_pair: RefPair,
    pub data: BlockData,
}

impl Default for IntraData {
    fn default() -> (r: Self)
        ensures
            r.y_mode == 0,
            r.y_angle == 0,
            r.uv_mode == 0,
            r.uv_angle == 0,
            r.mrl_index == 0,
            r.multi_mrl == 0,
            r.dpcm[0] == 0 && r.dpcm[1] == 0,
            r.cfl_type == 0,
            r.cfl.cfl_alpha[0] == 0 && r.cfl.cfl_alpha[1] == 0,
            r.cfl.cfl_mh_dir == 0,
            r.pal_sz == 0,
            r.dip == 0,
            r.is_sm[0] == (SmoothFlags { a: 0, l: 0 }),
            r.is_sm[1] == (SmoothFlags { a: 0, l: 0 }),
            r.is_refmv == 0,
            r.is_qpel == 0,
            r.intrabc_mv.c == (MvXY { y: 0, x: 0 }),
            r.morph_pred == 0,
    {
        let sm: SmoothFlags = SmoothFlags { a: 0, l: 0 };
        IntraData {
            y_mode: 0,
            y_angle: 0,
            uv_mode: 0,
            uv_angle: 0,
            mrl_index: 0,
            multi_mrl: 0,
            dpcm: [0; 2],
            cfl_type: 0,
            cfl: CflData { cfl_alpha: [0; 2], cfl_mh_dir: 0 },
            pal_sz: 0,
            dip: 0,
            is_sm: [sm, sm],
            is_refmv: 0,
            is_qpel: 0,
            intrabc_mv: Mv { c: MvXY { y: 0, x: 0 } },
            morph_pred: 0,
        }
    }
}

impl Default for InterData {
    fn default() -> (r: Self)
        ensures
            r.inter_mode == 0,
            r.comp_type == 0,
            r.motion_mode == 0,
            r.drl_idx[0] == 0 && r.drl_idx[1] == 0,
            r.amvd == 0,
            r.mv_prec == 0,
            r.mv[0].c == (MvXY { y: 0, x: 0 }),
            r.mv[1].c == (MvXY { y: 0, x: 0 }),
            r.refine_mv == 0,
            r.wedge_idx == 0,
            r.wedge_sign == 0,
            r.mask_sign == 0,
            r.cwp_idx == 0,
            r.filter == 0,
            r.warp_ref_idx == 0,
            r.warpmv_with_mvd == 0,
            r.bawp[0] == 0 && r.bawp[1] == 0,
            r.interintra_mode == 0,
            forall|i: int| 0 <= i < 4 ==> r.matrix[i] == 0,
            r.warp_ii == 0,
    {
        let zero: Mv = Mv { c: MvXY { y: 0, x: 0 } };
        InterData {
            inter_mode: 0,
            comp_type: 0,
            motion_mode: 0,
            drl_idx: [0; 2],
            amvd: 0,
            mv_prec: 0,
            mv: [zero, zero],
            refine_mv: 0,
            wedge_idx: 0,
            wedge_sign: 0,
            mask_sign: 0,
            cwp_idx: 0,
            filter: 0,
            warp_ref_idx: 0,
            warpmv_with_mvd: 0,
            bawp: [0; 2],
            interintra_mode: 0,
            matrix: [0; 4],
            warp_ii: 0,
        }
    }
}

impl Default for Av2Block {
    fn default() -> (r: Self)
        ensures
            r.bs == BlockSize::Invalid,
            r.cbs == BlockSize::Invalid,
            r.seg_id == 0,
            r.skip_mode == 0,
            r.is_intra == 0,
            r.intrabc == 0,
            r.skip_txfm == 0,
            r.fsc == 0,
            r.tx_part == 0,
            r.tx_size_ll == 0,
            r.ref_pair.r[0] == 0 && r.ref_pair.r[1] == 0,
            r.data.intra.y_mode == 0,
            r.data.inter.inter_mode == 0,
    {
        Av2Block {
            bs: BlockSize::Invalid,
            cbs: BlockSize::Invalid,
            seg_id: 0,
            skip_mode: 0,
            is_intra: 0,
            intrabc: 0,
            skip_txfm: 0,
            fsc: 0,
            tx_part: 0,
            tx_size_ll: 0,
            ref_pair: RefPair { r: [0, 0] },
            data: BlockData { intra: IntraData::default(), inter: InterData::default() },
        }
    }
}

/// Every entry of `a` is at most `v`.
pub open spec fn max_u8(a: [u8; 64], v: int) -> bool {
    forall|i: int| 0 <= i < 64 ==> a[i] <= v
}

impl BlockContext {
    /// Every entry holds a value that a block can leave behind.
    pub open spec fn wf(self) -> bool {
        &&& max_u8(self.fsc, 1)
        &&& max_u8(self.mode, 28)
        &&& forall|i: int| 0 <= i < 64 ==> (#[trigger] self.midx[i] < 56 || self.midx[i] == 0xff)
        &&& max_u8(self.mrl, 1)
        &&& max_u8(self.multi_mrl, 1)
        &&& max_u8(self.dip, 1)
        &&& max_u8(self.seg_pred, 1)
        &&& max_u8(self.skip_txfm, 1)
        &&& max_u8(self.skip_mode, 1)
        &&& max_u8(self.intra, 1)
        &&& max_u8(self.intrabc, 1)
        &&& max_u8(self.morph_pred, 1)
        &&& max_u8(self.comp_type, 3)
        &&& forall|i: int| 0 <= i < 64 ==> -1 <= #[trigger] self.refs[0][i] <= 7
        &&& forall|i: int| 0 <= i < 64 ==> -1 <= #[trigger] self.refs[1][i] <= 7
        &&& max_u8(self.motion_mode, 4)
        &&& max_u8(self.amvd, 1)
        &&& max_u8(self.mvprec, 2)
        &&& max_u8(self.filter, 3)
        &&& max_u8(self.uvmode, 13)
    }
}

/// `new` is `old` with the `n` entries from `off` on set to `v`.
pub open spec fn filled_u8(old_a: [u8; 64], new_a: [u8; 64], off: int, n: int, v: u8) -> bool {
    forall|i: int|
        0 <= i < 64 ==> #[trigger] new_a[i] == (if off <= i < off + n { v } else { old_a[i] })
}

/// `new` is `old` with the `n` entries from `off` on set to `v`.
pub open spec fn filled_i8(old_a: [i8; 64], new_a: [i8; 64], off: int, n: int, v: i8) -> bool {
    forall|i: int|
        0 <= i < 64 ==> #[trigger] new_a[i] == (if off <= i < off + n { v } else { old_a[i] })
}

/// Sets `n` entries from `off` on.
pub fn fill_u8(a: &mut [u8; 64], off: usize, n: usize, v: u8)
    requires
        off + n <= 64,
    ensures
        filled_u8(*old(a), *final(a), off as int, n as int, v),
{
    let mut k: usize = 0;
    while k < n
        invariant
            k <= n,
            off + n <= 64,
            filled_u8(*old(a), *a, off as int, k as int, v),
        decreases n - k,
    {
        a[off + k] = v;
        k = k + 1;
    }
}

/// Sets `n` entries from `off` on.
pub fn fill_i8(a: &mut [i8; 64], off: usize, n: usize, v: i8)
    requires
        off + n <= 64,
    ensures
        filled_i8(*old(a), *final(a), off as int, n as int, v),
{
    let mut k: usize = 0;
    while k < n
        invariant
            k <= n,
            off + n <= 64,
            filled_i8(*old(a), *a, off as int, k as int, v),
        decreases n - k,
    {
        a[off + k] = v;
        k = k + 1;
    }
}

/// What a context is reset to at the start of a tile.
pub open spec fn context_reset(
    before: BlockContext,
    after: BlockContext,
    keyframe: bool,
    is_tip_frame: bool,
) -> bool {
    &&& all_u8(after.tx_lpf_y, 3)
    &&& all_u8(after.tx_lpf_uv, 2)
    &&& after.fsc == before.fsc
    &&& after.multi_mrl == before.multi_mrl
    &&& after.dip == before.dip
    &&& after.intrabc == before.intrabc
    &&& after.morph_pred == before.morph_pred
    &&& after.motion_mode == before.motion_mode
    &&& after.amvd == before.amvd
    &&& after.mvprec == before.mvprec
    &&& if is_tip_frame {
        &&& after.mode == before.mode
        &&& after.midx == before.midx
        &&& after.mrl == before.mrl
        &&& after.lcoef == before.lcoef
        &&& after.ccoef == before.ccoef
        &&& after.seg_pred == before.seg_pred
        &&& after.skip_txfm == before.skip_txfm
        &&& after.skip_mode == before.skip_mode
        &&& after.intra == before.intra
        &&& after.comp_type == before.comp_type
        &&& after.refs == before.refs
        &&& after.filter == before.filter
        &&& after.partition == before.partition
        &&& after.uvmode == before.uvmode
        &&& after.pal_sz == before.pal_sz
    } else {
        &&& all_u8(after.midx, 0xff)
        &&& all_u8(after.intra, if keyframe { 1 } else { 0 })
        &&& all_u8(after.uvmode, 0)
        &&& all_u8(after.mode, if keyframe { 0 } else { 13 })
        &&& all_u8(after.partition[0], 0)
        &&& all_u8(after.partition[1], 0)
        &&& all_u8(after.skip_txfm, 0)
        &&& all_u8(after.skip_mode, 0)
        &&& if keyframe {
            after.refs == before.refs && after.comp_type == before.comp_type
        } else {
            all_i8(after.refs[0], -1) && all_i8(after.refs[1], -1) && all_u8(after.comp_type, 0)
        }
        &&& all_u8(after.mrl, 0)
        &&& all_u8(after.lcoef, 0x40)
        &&& all_u8(after.ccoef[0], 0x40)
        &&& all_u8(after.ccoef[1], 0x40)
        &&& all_u8(after.filter, 3)
        &&& all_u8(after.seg_pred, 0)
        &&& all_u8(after.pal_sz, 0)
    }
}

/// Resets a context at the start of a tile. A frame that is interpolated as a
/// whole has no blocks, so only the loop-filter entries are reset.
pub fn reset_context(ctx: &mut BlockContext, keyframe: bool, is_tip_frame: bool)
    ensures
        context_reset(*old(ctx), *final(ctx), keyframe, is_tip_frame),
        old(ctx).wf() ==> final(ctx).wf(),
{
    ctx.tx_lpf_y = [3; 64];
    ctx.tx_lpf_uv = [2; 64];
    if is_tip_frame {
        return ;
    }
    ctx.midx = [0xff; 64];
    ctx.intra = if keyframe { [1; 64] } else { [0; 64] };
    ctx.uvmode = [0; 64];
    if keyframe {
        ctx.mode = [0; 64];
    }
    ctx.partition = [[0; 64], [0; 64]];
    ctx.skip_txfm = [0; 64];
    ctx.skip_mode = [0; 64];
    if !keyframe {
        ctx.refs = [[-1; 64], [-1; 64]];
        ctx.comp_type = [0; 64];
        ctx.mode = [13; 64];
    }
    ctx.mrl = [0; 64];
    ctx.lcoef = [0x40; 64];
    ctx.ccoef = [[0x40; 64], [0x40; 64]];
    ctx.filter = [3; 64];
    ctx.seg_pred = [0; 64];
    ctx.pal_sz = [0; 64];
}

/// Where a block lies and how much of it lies within the frame.
#[derive(Debug, Clone, Copy, PartialEq, Eq, Structural)]
pub struct BlockPos {
    pub bx: i32,
    pub by: i32,
    pub bs: BlockSize,
}

impl BlockPos {
    pub open spec fn valid(self, fi: SbFrameInfo) -> bool {
        &&& self.bs != BlockSize::Invalid
        &&& 0 <= self.bx < fi.bw <= 0x1000_0000
        &&& 0 <= self.by < fi.bh <= 0x1000_0000
        &&& self.bx % 64 + self.bs.w4() <= 64
        &&& self.by % 64 + self.bs.h4() <= 64
        &&& 0 <= fi.tile_col_start <= self.bx
        &&& 0 <= fi.tile_row_start <= self.by
        &&& fi.tile_col_end <= 0x1000_0000
        &&& fi.tile_row_end <= 0x1000_0000
        &&& fi.sb_step == 16 || fi.sb_step == 32 || fi.sb_step == 64
    }

    /// Horizontal position in the superblock edge.
    pub open spec fn bx4(self) -> int {
        self.bx as int % 64
    }

    /// Vertical position in the superblock edge.
    pub open spec fn by4(self) -> int {
        self.by as int % 64
    }

    /// Width within the frame.
    pub open spec fn vis_w4(self, fi: SbFrameInfo) -> int {
        min(self.bs.w4(), fi.bw - self.bx)
    }

    /// Height within the frame.
    pub open spec fn vis_h4(self, fi: SbFrameInfo) -> int {
        min(self.bs.h4(), fi.bh - self.by)
    }

    pub open spec fn have_left(self, fi: SbFrameInfo) -> bool {
        self.bx > fi.tile_col_start
    }

    pub open spec fn have_top(self, fi: SbFrameInfo) -> bool {
        self.by > fi.tile_row_start
    }

    /// The rightmost column lies within the tile.
    pub open spec fn right_in_tile(self, fi: SbFrameInfo) -> bool {
        self.bx + self.bs.w4() <= fi.tile_col_end
    }

    /// The lowest row lies within the tile.
    pub open spec fn bottom_in_tile(self, fi: SbFrameInfo) -> bool {
        self.by + self.bs.h4() <= fi.tile_row_end
    }

    /// The row above belongs to the same superblock.
    pub open spec fn top_in_sb(self, fi: SbFrameInfo) -> bool {
        self.by as int % fi.sb_step as int != 0
    }

    /// The neighbours that there are.
    pub open spec fn neighbours(self, fi: SbFrameInfo) -> Neighbours {
        Neighbours {
            top: self.have_top(fi),
            left: self.have_left(fi),
            top_right: self.right_in_tile(fi),
            bottom_left: self.bottom_in_tile(fi),
        }
    }

    /// The same, for warps: the row above the superblock is kept at half width.
    pub open spec fn warp_neighbours(self, fi: SbFrameInfo) -> Neighbours {
        Neighbours {
            top_right: if self.top_in_sb(fi) {
                self.right_in_tile(fi)
            } else {
                (self.bx + self.bs.w4() - 2) / 2 * 2 < fi.tile_col_end
            },
            ..self.neighbours(fi)
        }
    }

    pub fn find_neighbours(&self, fi: &SbFrameInfo) -> (r: Neighbours)
        requires
            self.valid(*fi),
        ensures
            r == self.neighbours(*fi),
    {
        let d: [u8; 4] = self.bs.dim();
        Neighbours {
            top: self.by > fi.tile_row_start,
            left: self.bx > fi.tile_col_start,
            top_right: self.bx + d[0] as i32 <= fi.tile_col_end,
            bottom_left: self.by + d[1] as i32 <= fi.tile_row_end,
        }
    }

    pub fn find_warp_neighbours(&self, fi: &SbFrameInfo) -> (r: Neighbours)
        requires
            self.valid(*fi),
            self.bs.w4() >= 2,
        ensures
            r == self.warp_neighbours(*fi),
    {
        let d: [u8; 4] = self.bs.dim();
        let mut r: Neighbours = self.find_neighbours(fi);
        if self.by % fi.sb_step == 0 {
            r.top_right = (self.bx + d[0] as i32 - 2) / 2 * 2 < fi.tile_col_end;
        }
        r
    }
}

/// An entry of the context above or of the one to the left.
#[derive(Debug, Clone, Copy, PartialEq, Eq, Structural)]
pub struct NbPos {
    pub above: bool,
    pub off: usize,
}

/// The entry that `p` names in the two contexts.
pub open spec fn picked_u8(a: [u8; 64], l: [u8; 64], p: NbPos) -> u8 {
    if p.above { a[p.off as int] } else { l[p.off as int] }
}

/// The entry that `p` names in the two contexts.
pub open spec fn picked_i8(a: [i8; 64], l: [i8; 64], p: NbPos) -> i8 {
    if p.above { a[p.off as int] } else { l[p.off as int] }
}

pub fn pick_u8(a: &[u8; 64], l: &[u8; 64], p: &NbPos) -> (r: u8)
    requires
        p.off < 64,
    ensures
        r == picked_u8(*a, *l, *p),
{
    if p.above { a[p.off] } else { l[p.off] }
}

pub fn pick_i8(a: &[i8; 64], l: &[i8; 64], p: &NbPos) -> (r: i8)
    requires
        p.off < 64,
    ensures
        r == picked_i8(*a, *l, *p),
{
    if p.above { a[p.off] } else { l[p.off] }
}

/// Two neighbouring entries, of which `n` belong to the tile.
#[derive(Debug, Clone, Copy, PartialEq, Eq, Structural)]
pub struct TileNb {
    pub p0: NbPos,
    pub p1: NbPos,
    pub n: usize,
}

pub open spec fn left_at(off: int) -> NbPos {
    NbPos { above: false, off: off as usize }
}

pub open spec fn above_at(off: int) -> NbPos {
    NbPos { above: true, off: off as usize }
}

/// The neighbours looked at across superblocks: the entry beside the lowest
/// row, the one over the rightmost column, then those at the top left corner.
/// Where too few lie in the tile the entry over the corner stands in.
pub open spec fn tile_neighbours(fi: SbFrameInfo, b: BlockPos) -> TileNb {
    let low = left_at(b.by4() + b.bs.h4() - 1);
    let right = above_at(b.bx4() + b.bs.w4() - 1);
    let corner_l = left_at(b.by4());
    let corner_a = above_at(b.bx4());
    let has_low = b.have_left(fi) && b.bottom_in_tile(fi);
    let has_right = b.have_top(fi) && b.right_in_tile(fi);
    let top: int = if b.have_top(fi) { 1 } else { 0 };
    if has_low && has_right {
        TileNb { p0: low, p1: right, n: 2 }
    } else if has_low {
        TileNb { p0: low, p1: corner_l, n: 2 }
    } else if has_right {
        if b.have_left(fi) {
            TileNb { p0: right, p1: corner_l, n: 2 }
        } else {
            TileNb { p0: right, p1: corner_a, n: 2 }
        }
    } else if b.have_left(fi) {
        TileNb { p0: corner_l, p1: corner_a, n: (1 + top) as usize }
    } else {
        TileNb { p0: corner_a, p1: corner_a, n: top as usize }
    }
}

pub fn find_tile_neighbours(fi: &SbFrameInfo, b: &BlockPos) -> (r: TileNb)
    requires
        b.valid(*fi),
    ensures
        r == tile_neighbours(*fi, *b),
        r.p0.off < 64,
        r.p1.off < 64,
        r.n <= 2,
{
    let d: [u8; 4] = b.bs.dim();
    let by4: usize = (b.by % 64) as usize;
    let bx4: usize = (b.bx % 64) as usize;
    let low: NbPos = NbPos { above: false, off: by4 + d[1] as usize - 1 };
    let right: NbPos = NbPos { above: true, off: bx4 + d[0] as usize - 1 };
    let corner_l: NbPos = NbPos { above: false, off: by4 };
    let corner_a: NbPos = NbPos { above: true, off: bx4 };
    let have_left: bool = b.bx > fi.tile_col_start;
    let have_top: bool = b.by > fi.tile_row_start;
    let has_low: bool = have_left && b.by + d[1] as i32 <= fi.tile_row_end;
    let has_right: bool = have_top && b.bx + d[0] as i32 <= fi.tile_col_end;
    let top: usize = if have_top { 1 } else { 0 };
    if has_low && has_right {
        TileNb { p0: low, p1: right, n: 2 }
    } else if has_low {
        TileNb { p0: low, p1: corner_l, n: 2 }
    } else if has_right {
        if have_left {
            TileNb { p0: right, p1: corner_l, n: 2 }
        } else {
            TileNb { p0: right, p1: corner_a, n: 2 }
        }
    } else if have_left {
        TileNb { p0: corner_l, p1: corner_a, n: 1 + top }
    } else {
        TileNb { p0: corner_a, p1: corner_a, n: top }
    }
}

/// The neighbours looked at within a superblock: `n` entries, and whether a
/// single one counts twice.
#[derive(Debug, Clone, Copy, PartialEq, Eq, Structural)]
pub struct SbNb {
    pub p0: NbPos,
    pub p1: NbPos,
    pub n: usize,
    pub twice: bool,
}

/// The neighbours looked at within a superblock: the entry beside the lowest
/// row and the one over the rightmost column where those rows and columns lie
/// within the frame, then those at the top left corner.
pub open spec fn sb_neighbours(fi: SbFrameInfo, b: BlockPos) -> SbNb {
    let low = left_at(b.by4() + b.bs.h4() - 1);
    let right = above_at(b.bx4() + b.bs.w4() - 1);
    let corner_l = left_at(b.by4());
    let corner_a = above_at(b.bx4());
    let left = b.have_left(fi);
    let top = b.top_in_sb(fi);
    let has_low = left && b.vis_h4(fi) == b.bs.h4();
    let has_right = top && b.vis_w4(fi) == b.bs.w4();
    if has_low && has_right {
        SbNb { p0: low, p1: right, n: 2, twice: false }
    } else if has_low {
        SbNb { p0: low, p1: corner_l, n: 2, twice: false }
    } else if has_right {
        if left {
            SbNb { p0: right, p1: corner_l, n: 2, twice: false }
        } else {
            SbNb { p0: right, p1: corner_a, n: 2, twice: false }
        }
    } else if left {
        if top {
            SbNb { p0: corner_l, p1: corner_a, n: 2, twice: false }
        } else {
            SbNb { p0: corner_l, p1: corner_l, n: 1, twice: false }
        }
    } else if top {
        SbNb { p0: corner_a, p1: corner_a, n: 1, twice: true }
    } else {
        SbNb { p0: corner_a, p1: corner_a, n: 0, twice: false }
    }
}

pub fn find_sb_neighbours(fi: &SbFrameInfo, b: &BlockPos) -> (r: SbNb)
    requires
        b.valid(*fi),
    ensures
        r == sb_neighbours(*fi, *b),
        r.p0.off < 64,
        r.p1.off < 64,
        r.n <= 2,
{
    let d: [u8; 4] = b.bs.dim();
    let by4: usize = (b.by % 64) as usize;
    let bx4: usize = (b.bx % 64) as usize;
    let low: NbPos = NbPos { above: false, off: by4 + d[1] as usize - 1 };
    let right: NbPos = NbPos { above: true, off: bx4 + d[0] as usize - 1 };
    let corner_l: NbPos = NbPos { above: false, off: by4 };
    let corner_a: NbPos = NbPos { above: true, off: bx4 };
    let left: bool = b.bx > fi.tile_col_start;
    let top: bool = b.by % fi.sb_step != 0;
    let has_low: bool = left && d[1] as i32 <= fi.bh - b.by;
    let has_right: bool = top && d[0] as i32 <= fi.bw - b.bx;
    if has_low && has_right {
        SbNb { p0: low, p1: right, n: 2, twice: false }
    } else if has_low {
        SbNb { p0: low, p1: corner_l, n: 2, twice: false }
    } else if has_right {
        if left {
            SbNb { p0: right, p1: corner_l, n: 2, twice: false }
        } else {
            SbNb { p0: right, p1: corner_a, n: 2, twice: false }
        }
    } else if left {
        if top {
            SbNb { p0: corner_l, p1: corner_a, n: 2, twice: false }
        } else {
            SbNb { p0: corner_l, p1: corner_l, n: 1, twice: false }
        }
    } else if top {
        SbNb { p0: corner_a, p1: corner_a, n: 1, twice: true }
    } else {
        SbNb { p0: corner_a, p1: corner_a, n: 0, twice: false }
    }
}

/// The sum of what the neighbours within the superblock hold, a single one
/// counting twice where that is so.
pub open spec fn nb_sum(a: [u8; 64], l: [u8; 64], nb: SbNb) -> int {
    let v0: int = if nb.n >= 1 { picked_u8(a, l, nb.p0) as int } else { 0 };
    let v1: int = if nb.n >= 2 {
        picked_u8(a, l, nb.p1) as int
    } else if nb.twice {
        v0
    } else {
        0
    };
    v0 + v1
}

pub fn sum_neighbours(a: &[u8; 64], l: &[u8; 64], nb: &SbNb) -> (r: usize)
    requires
        nb.p0.off < 64,
        nb.p1.off < 64,
    ensures
        r == nb_sum(*a, *l, *nb),
{
    let v0: usize = if nb.n >= 1 { pick_u8(a, l, &nb.p0) as usize } else { 0 };
    let v1: usize = if nb.n >= 2 {
        pick_u8(a, l, &nb.p1) as usize
    } else if nb.twice {
        v0
    } else {
        0
    };
    v0 + v1
}

/// What the neighbour `i` within the superblock holds, zero where there is
/// none; a single one does not count twice here.
pub open spec fn nb_at(a: [u8; 64], l: [u8; 64], nb: SbNb, i: int) -> int {
    if i == 0 {
        if nb.n >= 1 { picked_u8(a, l, nb.p0) as int } else { 0 }
    } else {
        if nb.n >= 2 { picked_u8(a, l, nb.p1) as int } else { 0 }
    }
}

pub fn neighbour_at(a: &[u8; 64], l: &[u8; 64], nb: &SbNb, i: usize) -> (r: u8)
    requires
        nb.p0.off < 64,
        nb.p1.off < 64,
    ensures
        r == nb_at(*a, *l, *nb, i as int),
{
    if i == 0 {
        if nb.n >= 1 { pick_u8(a, l, &nb.p0) } else { 0 }
    } else {
        if nb.n >= 2 { pick_u8(a, l, &nb.p1) } else { 0 }
    }
}

/// The sum of what the neighbours within the superblock hold, a single one
/// counting once.
pub open spec fn nb_sum_present(a: [u8; 64], l: [u8; 64], nb: SbNb) -> int {
    nb_at(a, l, nb, 0) + nb_at(a, l, nb, 1)
}

pub fn sum_present(a: &[u8; 64], l: &[u8; 64], nb: &SbNb) -> (r: usize)
    requires
        nb.p0.off < 64,
        nb.p1.off < 64,
    ensures
        r == nb_sum_present(*a, *l, *nb),
{
    neighbour_at(a, l, nb, 0) as usize + neighbour_at(a, l, nb, 1) as usize
}

/// The neighbours across superblocks: beside the lowest row and over the
/// rightmost column where these lie in the tile; the corner stands in for what
/// is missing; there are as many as sides that have a neighbour, or two where
/// one side shows both its ends.
pub proof fn law_tile_neighbours_touch_the_block(fi: SbFrameInfo, b: BlockPos)
    requires
        b.valid(fi),
    ensures
        ({
            let t = tile_neighbours(fi, b);
            let (x, y) = (b.bx as int % 64, b.by as int % 64);
            let low = b.by + b.bs.h4() <= fi.tile_row_end;
            let right = b.bx + b.bs.w4() <= fi.tile_col_end;
            let left = b.bx > fi.tile_col_start;
            let top = b.by > fi.tile_row_start;
            &&& !left && !top ==> t.n == 0
            &&& left && low ==> t.n == 2 && !t.p0.above && t.p0.off == y + b.bs.h4() - 1
            &&& left && low && top && right ==> t.p1.above && t.p1.off == x + b.bs.w4() - 1
            &&& left && low && !(top && right) ==> !t.p1.above && t.p1.off == y
            &&& !(left && low) && top && right ==> t.n == 2 && t.p0.above && t.p0.off == x
                + b.bs.w4() - 1
            &&& !(left && low) && top && right ==> t.p1.above == !left && t.p1.off == (if left {
                y
            } else {
                x
            })
            &&& left && !low && !(top && right) ==> !t.p0.above && t.p0.off == y && t.n == (if top {
                2int
            } else {
                1
            })
            &&& !left && top && !right ==> t.n == 1 && t.p0.above && t.p0.off == x
        }),
{
    crate::levels::lemma_block_dimensions(b.bs);
}

/// The neighbours within a superblock: the same, where rows and columns count
/// that lie in the frame, and only a row above of the same superblock.
pub proof fn law_superblock_neighbours_touch_the_block(fi: SbFrameInfo, b: BlockPos)
    requires
        b.valid(fi),
    ensures
        ({
            let t = sb_neighbours(fi, b);
            let (x, y) = (b.bx as int % 64, b.by as int % 64);
            let low = b.by + b.bs.h4() <= fi.bh;
            let right = b.bx + b.bs.w4() <= fi.bw;
            let left = b.bx > fi.tile_col_start;
            let top = b.by as int % fi.sb_step as int != 0;
            &&& !left && !top ==> t.n == 0
            &&& left && low ==> t.n == 2 && !t.p0.above && t.p0.off == y + b.bs.h4() - 1
            &&& left && low && top && right ==> t.p1.above && t.p1.off == x + b.bs.w4() - 1
            &&& left && low && !(top && right) ==> !t.p1.above && t.p1.off == y
            &&& !(left && low) && top && right ==> t.n == 2 && t.p0.above && t.p0.off == x
                + b.bs.w4() - 1
            &&& left && !low && !(top && right) ==> !t.p0.above && t.p0.off == y && t.n == (if top {
                2int
            } else {
                1
            })
        }),
{
    crate::levels::lemma_block_dimensions(b.bs);
}

/// At the start of a tile no neighbour has a direction or a palette, in a key
/// frame all of them count as intra, and otherwise none has a reference.
pub proof fn law_reset_contexts_know_nothing(
    before: BlockContext,
    after: BlockContext,
    keyframe: bool,
    i: int,
)
    requires
        context_reset(before, after, keyframe, false),
        0 <= i < 64,
    ensures
        after.midx[i] == 0xff,
        after.pal_sz[i] == 0,
        after.skip_txfm[i] == 0 && after.skip_mode[i] == 0 && after.seg_pred[i] == 0,
        keyframe ==> after.intra[i] == 1 && after.mode[i] == 0,
        !keyframe ==> after.intra[i] == 0 && after.mode[i] == 13 && after.refs[0][i] == -1
            && after.refs[1][i] == -1,
        after.filter[i] == 3,
        after.uvmode[i] == 0,
        after.tx_lpf_y[i] == 3 && after.tx_lpf_uv[i] == 2,
{
}

/// Whether a block sees a warp above its right end: within the superblock where
/// the block ends in the tile; above it, where units are kept in pairs, where
/// the pair that its last unit but one lies in starts in the tile.
pub proof fn law_warps_above_are_kept_in_pairs(fi: SbFrameInfo, b: BlockPos)
    requires
        b.valid(fi),
    ensures
        ({
            let n = b.warp_neighbours(fi);
            let end = b.bx + b.bs.w4();
            &&& b.top_in_sb(fi) ==> n.top_right == b.neighbours(fi).top_right
            &&& !b.top_in_sb(fi) && end % 2 == 0 ==> (n.top_right <==> end - 2 < fi.tile_col_end)
            &&& !b.top_in_sb(fi) && end % 2 == 1 ==> (n.top_right <==> end - 3 < fi.tile_col_end)
            &&& n.top == b.neighbours(fi).top && n.left == b.neighbours(fi).left && n.bottom_left
                == b.neighbours(fi).bottom_left
        }),
{
}

} // verus!
