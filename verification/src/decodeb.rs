//! Decoding of one leaf: its syntax, and all that it changes.
use vstd::prelude::*;

use crate::block::{filled_u8, find_sb_neighbours, find_tile_neighbours, tile_neighbours};
use crate::block::{
    Av2Block, BlockData, BlockPos, CflData, InterData, IntraData, SbNb, SmoothFlags, TileNb,
};
use crate::blockbuild::{block_built, build_block, grid_after, Built};
use crate::blockdec::{
    blank_copy, blank_intra, block_head, copy_syntax, intra_syntax, leaf_neighbours, new_intra,
    read_block_head, read_copy, read_intra, BlockHead, CopySyntax, IntraSyntax, Leaf,
};
use crate::compound::{inter_syntax, read_inter, refs_valid};
use crate::error::{Rav2dError, Result};
use crate::env::{is_smooth, sm_flag, sm_uv_flag, BlockContext};
use crate::flags::{is_seg_fixed, seg_fixed};
use crate::frame::{init_quant_tables_fi, quant_set, quant_valid, sb_deltas, DqTable};
use crate::frameinfo::SbFrameInfo;
use crate::headers::MAX_SEGMENTS;
use crate::interctx::{gather_inter, nx_inter, NxInter};
use crate::intops::{b2i, min};
use crate::intra::is_midx;
use crate::levels::{BlockSize, Mv, MvXY, RefPair};
use crate::motion::{block_motion, BlockMotion, LocalWarp, MotionFrame};
use crate::msac::{MsacContext, Sym};
use crate::sbsyntax::{
    before_qidx, block_qidx, ccso_map_read, dequant_choice, filters_read, read_sb_level,
    sb_level_valid, sb_starts, CcsoMaps, DequantChoice, SbBlock, SbFilter,
};
use crate::segid::{rect_fits, segmap_written, segmaps_valid, write_segmap, SegMaps};
use crate::single::{blank_inter, new_inter, InterSyntax};
use crate::txpart::{copies_pixels, read_tx_part, tx_read, TxBlock};
use crate::warp::MvTile;
use crate::writeback::{
    entry_written, inter_entry, make_inter_entry, write_entry, write_uvmode, EdgeEntry,
};

verus! {

/// All that is coded for one block. The part that does not apply is blank.
#[derive(Debug, Clone, Copy, PartialEq, Eq, Structural)]
pub struct BlockSyntax {
    pub head: BlockHead,
    pub intra: IntraSyntax,
    pub copy: CopySyntax,
    pub inter: InterSyntax,
    pub tx_part: u8,
    pub tx_size_ll: u8,
}

/// What a tile keeps while its blocks are decoded: the segment map, filter
/// choices, cross-component choices and quantizer index, direction and
/// coefficient coding of the luma blocks of a 64x64 area, and the motion around
/// the current block.
pub struct TileState {
    pub segmap: Vec<u8>,
    pub lf: Vec<SbFilter>,
    pub ccso: Vec<u8>,
    pub qidx: i32,
    pub dequant: DequantChoice,
    /// The quantizer steps that were computed last, by segment and plane.
    pub dq: [[[u32; 2]; 3]; MAX_SEGMENTS],
    pub dir_map: [u8; 256],
    pub fsc_map: [u8; 256],
    pub motion: MvTile,
    /// The warp that was derived last.
    pub warp: LocalWarp,
}

/// What a tile takes over from other frames, and which superblock it is at.
pub struct TileInput<'a> {
    pub prev_segmap: Option<&'a [u8]>,
    pub ccso: CcsoMaps<'a>,
    pub lf_idx: usize,
    pub table: &'a DqTable,
    pub motion: &'a MotionFrame,
}

/// The table covers every quantizer index that a superblock can code.
pub open spec fn steps_covered(fi: SbFrameInfo, table: DqTable) -> bool {
    fi.delta_q_present ==> forall|q: int|
        1 <= q <= 255 ==> #[trigger] quant_valid(
            table,
            fi.seg_enabled,
            fi.seg_delta_q,
            sb_deltas(fi),
            q,
        )
}

/// The place of a luma position in the maps of a 64x64 area.
pub open spec fn dir_index(bx: int, by: int) -> int {
    by % 16 * 16 + bx % 16
}

impl<'a> TileInput<'a> {
    pub open spec fn prev_seq(self) -> Option<Seq<u8>> {
        match self.prev_segmap {
            Some(m) => Some(m@),
            None => None,
        }
    }
}

impl TileState {
    pub open spec fn valid(self, fi: SbFrameInfo, f: Leaf, input: TileInput) -> bool {
        &&& segmaps_valid(fi, self.segmap@, input.prev_seq())
        &&& fi.seg_enabled && f.has_luma() ==> rect_fits(
            self.segmap@.len() as int,
            f.by as int,
            f.bx as int,
            f.lbs.w4(),
            f.lbs.h4(),
            fi.b4_stride as int,
        )
        &&& sb_level_valid(
            fi,
            f.pos(),
            input.ccso,
            self.lf@,
            input.lf_idx as int,
            self.ccso@,
            self.qidx as int,
        )
        &&& forall|i: int| 0 <= i < 256 ==> is_midx(#[trigger] self.dir_map[i])
        &&& f.has_luma() ==> f.bx % 16 + min(f.lbs.w4(), 16) <= 16 && f.by % 16 + min(
            f.lbs.h4(),
            16,
        ) <= 16
        &&& f.bx <= 0x1_0000
        &&& f.by <= 0x1_0000
        &&& f.cbx <= 0x1_0000
        &&& f.cby <= 0x1_0000
        &&& self.motion.wf()
        &&& input.motion.valid()
        &&& steps_covered(fi, *input.table)
    }
}

/// The block as the superblock syntax sees it.
pub open spec fn sb_block(f: Leaf, head: BlockHead) -> SbBlock {
    SbBlock { pos: f.pos(), has_luma: f.has_luma(), skip_txfm: head.skip_txfm != 0 }
}

/// The division of the transform; a leaf without luma has none.
#[verifier::opaque]
pub open spec fn leaf_tx(
    s: Sym,
    fi: SbFrameInfo,
    f: Leaf,
    head: BlockHead,
    fsc: u8,
) -> ((int, int), Sym) {
    if f.has_luma() {
        tx_read(
            s,
            TxBlock {
                copies: copies_pixels(head.is_intra, head.intrabc),
                skip: head.skip_txfm != 0,
                fsc,
                size_ll: 0,
            },
            f.lbs,
            fi.seg_lossless[head.seg_id as int] != 0,
            fi.txfm_switchable,
        )
    } else {
        ((0, 0), s)
    }
}

fn read_leaf_tx(
    fi: &SbFrameInfo,
    f: &Leaf,
    head: &BlockHead,
    fsc: u8,
    msac: &mut MsacContext,
) -> (r: (u8, u8))
    requires
        head.valid(),
    ensures
        ((r.0 as int, r.1 as int), final(msac)@) == leaf_tx(old(msac)@, *fi, *f, *head, fsc),
        r.0 <= 7,
{
    proof {
        reveal(leaf_tx);
    }
    if f.lbs == BlockSize::Invalid {
        return (0, 0);
    }
    let mut b: Av2Block = Av2Block::default();
    b.is_intra = head.is_intra;
    b.intrabc = head.intrabc;
    b.skip_txfm = head.skip_txfm;
    b.fsc = fsc;
    let lossless: bool = fi.seg_lossless[head.seg_id as usize] != 0;
    read_tx_part(msac, &mut b, f.lbs, lossless, fi.txfm_switchable);
    (b.tx_part, b.tx_size_ll)
}

/// What follows the head and the superblock syntax of a block: its modes and
/// the division of its transform.
#[verifier::opaque]
pub open spec fn block_body(
    s: Sym,
    fi: SbFrameInfo,
    f: Leaf,
    head: BlockHead,
    midx: u8,
    a: BlockContext,
    l: BlockContext,
) -> (Option<BlockSyntax>, Sym) {
    let b = f.pos();
    let nb = leaf_neighbours(fi, f);
    let blank = BlockSyntax {
        head,
        intra: blank_intra(),
        copy: blank_copy(),
        inter: blank_inter(),
        tx_part: 0,
        tx_size_ll: 0,
    };
    if head.from_edges() {
        let (x, s) = intra_syntax(
            s,
            fi,
            f,
            fi.seg_lossless[head.seg_id as int] != 0,
            midx,
            a,
            l,
        );
        match x {
            None => (None, s),
            Some(x) => {
                let ((p, z), s) = leaf_tx(s, fi, f, head, x.fsc);
                (Some(BlockSyntax { intra: x, tx_part: p as u8, tx_size_ll: z as u8, ..blank }), s)
            },
        }
    } else if head.intrabc != 0 {
        let (c, s) = copy_syntax(s, fi, nb, a, l);
        let ((p, z), s) = leaf_tx(s, fi, f, head, 0);
        (Some(BlockSyntax { copy: c, tx_part: p as u8, tx_size_ll: z as u8, ..blank }), s)
    } else {
        let (x, s) = inter_syntax(
            s,
            fi,
            b,
            f.lbs,
            f.cbs,
            head.skip_mode != 0,
            seg_fixed(fi, head.seg_id as int),
            a,
            l,
            nx_inter(a, l, tile_neighbours(fi, b)),
            nb,
        );
        let ((p, z), s) = leaf_tx(s, fi, f, head, 0);
        (Some(BlockSyntax { inter: x, tx_part: p as u8, tx_size_ll: z as u8, ..blank }), s)
    }
}

impl BlockSyntax {
    pub open spec fn valid(self) -> bool {
        &&& self.head.valid()
        &&& self.intra.valid()
        &&& self.copy.morph_pred <= 1
        &&& self.inter.valid()
        &&& self.tx_part <= 7
    }
}

fn read_block_body(
    fi: &SbFrameInfo,
    f: &Leaf,
    head: &BlockHead,
    midx: u8,
    nx: &TileNb,
    nb: &SbNb,
    a: &BlockContext,
    l: &BlockContext,
    msac: &mut MsacContext,
) -> (r: Option<BlockSyntax>)
    requires
        f.valid(*fi),
        refs_valid(*fi),
        head.valid(),
        head.is_intra == 0 ==> fi.is_inter_or_switch || fi.skip_mode_enabled,
        is_midx(midx),
        *nx == tile_neighbours(*fi, f.pos()),
        *nb == leaf_neighbours(*fi, *f),
        nx.p0.off < 64,
        nx.p1.off < 64,
        nx.n <= 2,
        nb.p0.off < 64,
        nb.p1.off < 64,
        a.wf(),
        l.wf(),
    ensures
        (r, final(msac)@) == block_body(old(msac)@, *fi, *f, *head, midx, *a, *l),
        r matches Some(x) ==> x.valid() && x.head == *head,
{
    proof {
        reveal(block_body);
    }
    let has_luma: bool = f.lbs != BlockSize::Invalid;
    let b: BlockPos = BlockPos { bx: f.bx, by: f.by, bs: if has_luma { f.lbs } else { f.cbs } };
    let mut x: BlockSyntax = BlockSyntax {
        head: *head,
        intra: new_intra(),
        copy: CopySyntax {
            is_refmv: 0,
            drl: 0,
            is_qpel: 0,
            mvd: MvXY { y: 0, x: 0 },
            morph_pred: 0,
        },
        inter: new_inter(),
        tx_part: 0,
        tx_size_ll: 0,
    };
    if head.is_intra != 0 && head.intrabc == 0 {
        let lossless: bool = fi.seg_lossless[head.seg_id as usize] != 0;
        match read_intra(fi, f, lossless, midx, nb, a, l, msac) {
            None => {
                return None;
            },
            Some(i) => {
                x.intra = i;
            },
        }
    } else if head.intrabc != 0 {
        x.copy = read_copy(fi, nb, a, l, msac);
    } else {
        let nxi: NxInter = gather_inter(a, l, nx);
        let fixed: bool = is_seg_fixed(fi, head.seg_id);
        x.inter = read_inter(
            fi,
            &b,
            f.lbs,
            f.cbs,
            head.skip_mode != 0,
            fixed,
            a,
            l,
            &nxi,
            nb,
            msac,
        );
    }
    let (p, z) = read_leaf_tx(fi, f, head, x.intra.fsc, msac);
    x.tx_part = p;
    x.tx_size_ll = z;
    Some(x)
}

/// All that is coded for a leaf.
pub open spec fn leaf_syntax(
    s: Sym,
    fi: SbFrameInfo,
    f: Leaf,
    a: BlockContext,
    l: BlockContext,
    t: TileState,
    input: TileInput,
) -> (Option<BlockSyntax>, Sym) {
    let (head, s) = block_head(s, fi, f, a, l, t.segmap@, input.prev_seq());
    let s = before_qidx(s, fi, sb_block(f, head), input.ccso, t.lf@, input.lf_idx as int);
    let (_, s) = block_qidx(s, fi, sb_block(f, head), t.qidx as int);
    block_body(
        s,
        fi,
        f,
        head,
        t.dir_map[dir_index(f.cbx as int, f.cby as int)],
        a,
        l,
    )
}

/// What a block leaves along its edges.
pub open spec fn leaf_entry(fi: SbFrameInfo, x: BlockSyntax) -> EdgeEntry {
    if x.head.from_edges() {
        EdgeEntry {
            fsc: x.intra.fsc,
            mode: x.intra.luma.y_mode,
            midx: x.intra.luma.midx,
            mrl: if x.intra.mrl_index != 0 { 1 } else { 0 },
            multi_mrl: x.intra.multi_mrl,
            dip: if x.intra.dip != 0 { 1 } else { 0 },
            pal_sz: x.intra.pal_sz,
            seg_pred: x.head.seg_pred,
            intra: 1,
            skip_txfm: x.head.skip_txfm,
            inter: fi.is_inter_or_switch,
            ..plain_entry()
        }
    } else if x.head.intrabc != 0 {
        EdgeEntry {
            intra: 1,
            intrabc: 1,
            morph_pred: x.copy.morph_pred,
            skip_txfm: x.head.skip_txfm,
            inter: fi.is_inter_or_switch,
            ..plain_entry()
        }
    } else {
        inter_entry(x.inter, x.head.skip_mode, x.head.skip_txfm)
    }
}

/// The entry of a block that says nothing: no direction and no reference.
pub open spec fn plain_entry() -> EdgeEntry {
    EdgeEntry {
        fsc: 0,
        mode: 0,
        midx: 0xff,
        mrl: 0,
        multi_mrl: 0,
        dip: 0,
        pal_sz: 0,
        seg_pred: 0,
        skip_mode: 0,
        intra: 0,
        intrabc: 0,
        morph_pred: 0,
        skip_txfm: 0,
        inter: false,
        amvd: 0,
        mvprec: 0,
        motion_mode: 0,
        comp_type: 0,
        ref0: (-1int) as i8,
        ref1: (-1int) as i8,
        filtered: false,
        filter: 0,
    }
}

fn make_entry(fi: &SbFrameInfo, x: &BlockSyntax) -> (r: EdgeEntry)
    requires
        x.valid(),
    ensures
        r == leaf_entry(*fi, *x),
        r.valid(),
{
    let mut e: EdgeEntry = EdgeEntry {
        fsc: 0,
        mode: 0,
        midx: 0xff,
        mrl: 0,
        multi_mrl: 0,
        dip: 0,
        pal_sz: 0,
        seg_pred: 0,
        skip_mode: 0,
        intra: 0,
        intrabc: 0,
        morph_pred: 0,
        skip_txfm: 0,
        inter: false,
        amvd: 0,
        mvprec: 0,
        motion_mode: 0,
        comp_type: 0,
        ref0: -1,
        ref1: -1,
        filtered: false,
        filter: 0,
    };
    if x.head.is_intra != 0 && x.head.intrabc == 0 {
        e.fsc = x.intra.fsc;
        e.mode = x.intra.luma.y_mode;
        e.midx = x.intra.luma.midx;
        e.mrl = if x.intra.mrl_index != 0 { 1 } else { 0 };
        e.multi_mrl = x.intra.multi_mrl;
        e.dip = if x.intra.dip != 0 { 1 } else { 0 };
        e.pal_sz = x.intra.pal_sz;
        e.seg_pred = x.head.seg_pred;
        e.intra = 1;
        e.skip_txfm = x.head.skip_txfm;
        e.inter = fi.is_inter_or_switch;
        e
    } else if x.head.intrabc != 0 {
        e.intra = 1;
        e.intrabc = 1;
        e.morph_pred = x.copy.morph_pred;
        e.skip_txfm = x.head.skip_txfm;
        e.inter = fi.is_inter_or_switch;
        e
    } else {
        make_inter_entry(&x.inter, x.head.skip_mode, x.head.skip_txfm)
    }
}

/// The chroma mode that a block leaves along its edges.
pub open spec fn leaf_uvmode(x: BlockSyntax) -> u8 {
    if x.head.from_edges() { x.intra.chroma.uv_mode } else { 0 }
}

/// `after` is the context `before` once a block has passed along it: its luma
/// entry, if any, over `n` places from `off` on, then its chroma mode, if any,
/// over `cn` places from `coff` on.
pub open spec fn edge_written(
    before: BlockContext,
    after: BlockContext,
    f: Leaf,
    e: EdgeEntry,
    off: int,
    n: int,
    uvmode: u8,
    coff: int,
    cn: int,
) -> bool {
    let luma = BlockContext { uvmode: before.uvmode, ..after };
    &&& if f.has_luma() { entry_written(before, luma, off, n, e) } else { luma == before }
    &&& if f.has_chroma() {
        filled_u8(before.uvmode, after.uvmode, coff, cn, uvmode)
    } else {
        after.uvmode == before.uvmode
    }
}

/// Writes what a block leaves along one edge.
fn write_edge(
    ctx: &mut BlockContext,
    f: &Leaf,
    e: &EdgeEntry,
    off: usize,
    n: usize,
    uvmode: u8,
    coff: usize,
    cn: usize,
)
    requires
        f.has_luma() ==> off + n <= 64,
        f.has_chroma() ==> coff + cn <= 64,
        old(ctx).wf(),
        e.valid(),
        uvmode <= 13,
    ensures
        edge_written(
            *old(ctx),
            *final(ctx),
            *f,
            *e,
            off as int,
            n as int,
            uvmode,
            coff as int,
            cn as int,
        ),
        final(ctx).wf(),
{
    if f.lbs != BlockSize::Invalid {
        write_entry(ctx, off, n, e);
    }
    if f.cbs != BlockSize::Invalid {
        write_uvmode(ctx, coff, cn, uvmode);
    }
}

/// `after` is the map of a 64x64 area with the block set to `v`.
pub open spec fn area_map_written(
    before: [u8; 256],
    after: [u8; 256],
    x0: int,
    y0: int,
    w: int,
    h: int,
    v: u8,
) -> bool {
    forall|i: int|
        0 <= i < 256 ==> #[trigger] after[i] == (if y0 <= i / 16 < y0 + h && x0 <= i % 16 < x0 + w {
            v
        } else {
            before[i]
        })
}

fn write_area_map(map: &mut [u8; 256], x0: usize, y0: usize, w: usize, h: usize, v: u8)
    requires
        x0 + w <= 16,
        y0 + h <= 16,
    ensures
        area_map_written(
            *old(map),
            *final(map),
            x0 as int,
            y0 as int,
            w as int,
            h as int,
            v,
        ),
{
    let mut y: usize = 0;
    while y < h
        invariant
            y <= h,
            x0 + w <= 16,
            y0 + h <= 16,
            area_map_written(*old(map), *map, x0 as int, y0 as int, w as int, y as int, v),
        decreases h - y,
    {
        let row: usize = (y0 + y) * 16 + x0;
        let ghost m1 = *map;
        let mut x: usize = 0;
        while x < w
            invariant
                x <= w,
                y < h,
                x0 + w <= 16,
                y0 + h <= 16,
                row == (y0 + y) * 16 + x0,
                forall|i: int|
                    0 <= i < 256 ==> #[trigger] map[i] == (if row <= i < row + x {
                        v
                    } else {
                        m1[i]
                    }),
            decreases w - x,
        {
            map[row + x] = v;
            x = x + 1;
        }
        assert(area_map_written(
            *old(map),
            *map,
            x0 as int,
            y0 as int,
            w as int,
            y + 1,
            v,
        ));
        y = y + 1;
    }
}

/// Whether the luma block is recorded for the chroma blocks that follow it.
pub open spec fn recorded(fi: SbFrameInfo, f: Leaf) -> bool {
    fi.sdp && fi.has_chroma_layout && !f.has_chroma()
}

/// The maps of a 64x64 area after the leaf.
pub open spec fn maps_recorded(
    fi: SbFrameInfo,
    f: Leaf,
    x: BlockSyntax,
    before: TileState,
    after: TileState,
) -> bool {
    if recorded(fi, f) {
        let x0 = f.bx as int % 16;
        let y0 = f.by as int % 16;
        let w = min(f.lbs.w4(), 16);
        let h = min(f.lbs.h4(), 16);
        &&& area_map_written(
            before.dir_map,
            after.dir_map,
            x0,
            y0,
            w,
            h,
            x.intra.luma.midx,
        )
        &&& area_map_written(before.fsc_map, after.fsc_map, x0, y0, w, h, x.intra.fsc)
    } else {
        after.dir_map == before.dir_map && after.fsc_map == before.fsc_map
    }
}

/// The segment map after the leaf.
pub open spec fn segmap_recorded(
    fi: SbFrameInfo,
    f: Leaf,
    x: BlockSyntax,
    before: Seq<u8>,
    after: Seq<u8>,
) -> bool {
    if fi.seg_enabled && f.has_luma() {
        segmap_written(
            before,
            after,
            f.by * fi.b4_stride + f.bx,
            fi.b4_stride as int,
            f.lbs.w4(),
            f.lbs.h4(),
            x.head.seg_id,
        )
    } else {
        after == before
    }
}

/// The filter choices, the quantizer index and the quantizer steps after the
/// head of the leaf.
pub open spec fn sb_level_recorded(
    s: Sym,
    fi: SbFrameInfo,
    f: Leaf,
    head: BlockHead,
    input: TileInput,
    before: TileState,
    after: TileState,
) -> bool {
    let b = sb_block(f, head);
    let lf_idx = input.lf_idx as int;
    let q = block_qidx(
        before_qidx(s, fi, b, input.ccso, before.lf@, lf_idx),
        fi,
        b,
        before.qidx as int,
    ).0;
    &&& after.lf@ == before.lf@.update(lf_idx, after.lf@[lf_idx])
    &&& filters_read(s, fi, b, input.ccso, before.lf@, lf_idx, after.lf@[lf_idx])
    &&& ccso_map_read(fi, b, after.lf@[lf_idx], before.ccso@, after.ccso@)
    &&& after.qidx == q
    &&& after.dequant == (if f.has_luma() && sb_starts(fi, f.pos()) {
        dequant_choice(fi.quant_yac as int, before.qidx as int, q)
    } else {
        DequantChoice::Keep
    })
    &&& if after.dequant == DequantChoice::Compute {
        quant_set(
            *input.table,
            fi.seg_enabled,
            fi.seg_delta_q,
            sb_deltas(fi),
            q,
            before.dq,
            after.dq,
        )
    } else {
        after.dq == before.dq
    }
}

/// What a leaf leaves behind: along its edges, in the segment map and in the
/// maps of a 64x64 area.
pub open spec fn leaf_left(
    fi: SbFrameInfo,
    f: Leaf,
    x: BlockSyntax,
    a0: BlockContext,
    a1: BlockContext,
    l0: BlockContext,
    l1: BlockContext,
    t0: TileState,
    t1: TileState,
) -> bool {
    let b = f.pos();
    &&& edge_written(
        a0,
        a1,
        f,
        leaf_entry(fi, x),
        b.bx4(),
        b.bs.w4(),
        leaf_uvmode(x),
        f.cbx as int % 64,
        f.cbs.w4(),
    )
    &&& edge_written(
        l0,
        l1,
        f,
        leaf_entry(fi, x),
        b.by4(),
        b.bs.h4(),
        leaf_uvmode(x),
        f.cby as int % 64,
        f.cbs.h4(),
    )
    &&& segmap_recorded(fi, f, x, t0.segmap@, t1.segmap@)
    &&& maps_recorded(fi, f, x, t0, t1)
}

/// Decodes a leaf. An error leaves the contexts and the maps of the blocks as
/// they were.
pub fn decode_leaf(
    fi: &SbFrameInfo,
    f: &Leaf,
    a: &mut BlockContext,
    l: &mut BlockContext,
    t: &mut TileState,
    input: &TileInput,
    msac: &mut MsacContext,
) -> (r: Option<BlockSyntax>)
    requires
        f.valid(*fi),
        refs_valid(*fi),
        old(a).wf(),
        old(l).wf(),
        old(t).valid(*fi, *f, *input),
        recorded(*fi, *f) ==> f.has_luma(),
    ensures
        (r, final(msac)@) == leaf_syntax(
            old(msac)@,
            *fi,
            *f,
            *old(a),
            *old(l),
            *old(t),
            *input,
        ),
        ({
            let (head, s) = block_head(
                old(msac)@,
                *fi,
                *f,
                *old(a),
                *old(l),
                old(t).segmap@,
                input.prev_seq(),
            );
            sb_level_recorded(s, *fi, *f, head, *input, *old(t), *final(t))
        }),
        r is None ==> {
            &&& *final(a) == *old(a)
            &&& *final(l) == *old(l)
            &&& final(t).segmap@ == old(t).segmap@
            &&& final(t).dir_map == old(t).dir_map
            &&& final(t).fsc_map == old(t).fsc_map
        },
        r matches Some(x) ==> {
            &&& x.valid()
            &&& leaf_left(
                *fi,
                *f,
                x,
                *old(a),
                *final(a),
                *old(l),
                *final(l),
                *old(t),
                *final(t),
            )
        },
        final(a).wf(),
        final(l).wf(),
        final(t).motion == old(t).motion,
        final(t).warp == old(t).warp,
{
    let has_luma: bool = f.lbs != BlockSize::Invalid;
    let b: BlockPos = BlockPos { bx: f.bx, by: f.by, bs: if has_luma { f.lbs } else { f.cbs } };
    let nx: TileNb = find_tile_neighbours(fi, &b);
    let mut nb: SbNb = find_sb_neighbours(fi, &b);
    if !has_luma {
        nb.n = 0;
        nb.twice = false;
    }
    let head: BlockHead;
    {
        let maps: SegMaps = SegMaps { cur: t.segmap.as_slice(), prev: input.prev_segmap };
        head = read_block_head(fi, f, a, l, &nx, &nb, &maps, msac);
    }
    let sb: SbBlock = SbBlock { pos: b, has_luma, skip_txfm: head.skip_txfm != 0 };
    let (q, choice) = read_sb_level(
        fi,
        &sb,
        &input.ccso,
        &mut t.lf,
        input.lf_idx,
        &mut t.ccso,
        t.qidx,
        msac,
    );
    t.qidx = q;
    t.dequant = choice;
    if choice == DequantChoice::Compute {
        assert(1 <= q <= 255);
        init_quant_tables_fi(fi, input.table, q, &mut t.dq);
    }
    let midx: u8 = t.dir_map[(f.cby % 16) as usize * 16 + (f.cbx % 16) as usize];
    let body: Option<BlockSyntax> = read_block_body(fi, f, &head, midx, &nx, &nb, a, l, msac);
    match body {
        None => None,
        Some(x) => {
            let e: EdgeEntry = make_entry(fi, &x);
            let uv: u8 = if x.head.is_intra != 0 && x.head.intrabc == 0 {
                x.intra.chroma.uv_mode
            } else {
                0
            };
            let d: [u8; 4] = b.bs.dim();
            let (cw, ch): (usize, usize) = if f.cbs != BlockSize::Invalid {
                let cd: [u8; 4] = f.cbs.dim();
                (cd[0] as usize, cd[1] as usize)
            } else {
                (0, 0)
            };
            write_edge(
                a,
                f,
                &e,
                (b.bx % 64) as usize,
                d[0] as usize,
                uv,
                (f.cbx % 64) as usize,
                cw,
            );
            write_edge(
                l,
                f,
                &e,
                (b.by % 64) as usize,
                d[1] as usize,
                uv,
                (f.cby % 64) as usize,
                ch,
            );
            if fi.seg_enabled && has_luma {
                write_segmap(
                    &mut t.segmap,
                    f.by as usize,
                    f.bx as usize,
                    d[0] as usize,
                    d[1] as usize,
                    fi.b4_stride as usize,
                    x.head.seg_id,
                );
            }
            if fi.sdp && fi.has_chroma_layout && f.cbs == BlockSize::Invalid {
                let x0: usize = (f.bx % 16) as usize;
                let y0: usize = (f.by % 16) as usize;
                let w: usize = if d[0] < 16 { d[0] as usize } else { 16 };
                let h: usize = if d[1] < 16 { d[1] as usize } else { 16 };
                write_area_map(&mut t.dir_map, x0, y0, w, h, x.intra.luma.midx);
                write_area_map(&mut t.fsc_map, x0, y0, w, h, x.intra.fsc);
            }
            Some(x)
        },
    }
}

/// Whether the neighbours of a leaf that is predicted from its edges are
/// smooth: above and to the left, in luma and in chroma.
#[derive(Debug, Clone, Copy, PartialEq, Eq, Structural)]
pub struct LeafSmooth {
    pub luma: SmoothFlags,
    pub chroma: SmoothFlags,
}

/// Whether the luma entry is that of a smooth intra block.
pub open spec fn smooth_luma(c: BlockContext, i: int) -> int {
    b2i(c.intra[i] != 0 && is_smooth(c.mode[i]))
}

pub open spec fn leaf_smooth(f: Leaf, from_edges: bool, a: BlockContext, l: BlockContext) -> LeafSmooth {
    let none = SmoothFlags { a: 0, l: 0 };
    LeafSmooth {
        luma: if from_edges && f.has_luma() {
            SmoothFlags {
                a: smooth_luma(a, f.bx as int % 64) as i32,
                l: smooth_luma(l, f.by as int % 64) as i32,
            }
        } else {
            none
        },
        chroma: if from_edges && f.has_chroma() {
            SmoothFlags {
                a: b2i(is_smooth(a.uvmode[f.cbx as int % 64])) as i32,
                l: b2i(is_smooth(l.uvmode[f.cby as int % 64])) as i32,
            }
        } else {
            none
        },
    }
}

fn find_smooth(f: &Leaf, a: &BlockContext, l: &BlockContext) -> (r: LeafSmooth)
    requires
        0 <= f.bx,
        0 <= f.by,
        0 <= f.cbx,
        0 <= f.cby,
    ensures
        r == leaf_smooth(*f, true, *a, *l),
{
    let none: SmoothFlags = SmoothFlags { a: 0, l: 0 };
    let bx4: usize = (f.bx % 64) as usize;
    let by4: usize = (f.by % 64) as usize;
    let luma: SmoothFlags = if f.lbs != BlockSize::Invalid {
        SmoothFlags {
            a: if a.intra[bx4] != 0 { sm_flag(a, bx4) } else { 0 },
            l: if l.intra[by4] != 0 { sm_flag(l, by4) } else { 0 },
        }
    } else {
        none
    };
    let chroma: SmoothFlags = if f.cbs != BlockSize::Invalid {
        SmoothFlags {
            a: sm_uv_flag(a, (f.cbx % 64) as usize),
            l: sm_uv_flag(l, (f.cby % 64) as usize),
        }
    } else {
        none
    };
    LeafSmooth { luma, chroma }
}

/// `b` holds what was coded for the leaf, and its motion.
pub open spec fn is_block(
    b: Av2Block,
    f: Leaf,
    x: BlockSyntax,
    sm: LeafSmooth,
    m: BlockMotion,
) -> bool {
    let i = b.data.intra;
    let p = b.data.inter;
    &&& b.bs == f.lbs
    &&& b.cbs == f.cbs
    &&& b.seg_id == x.head.seg_id
    &&& b.skip_mode == x.head.skip_mode
    &&& b.is_intra == x.head.is_intra
    &&& b.intrabc == x.head.intrabc
    &&& b.skip_txfm == x.head.skip_txfm
    &&& b.fsc == x.intra.fsc
    &&& b.tx_part == x.tx_part
    &&& b.tx_size_ll == x.tx_size_ll
    &&& b.ref_pair.r[0] == x.inter.ref0
    &&& b.ref_pair.r[1] == x.inter.ref1
    &&& i.y_mode == x.intra.luma.y_mode
    &&& i.y_angle == x.intra.luma.y_angle
    &&& i.dpcm[0] == b2i(x.intra.luma.dpcm)
    &&& i.mrl_index == x.intra.mrl_index
    &&& i.multi_mrl == x.intra.multi_mrl
    &&& i.uv_mode == x.intra.chroma.uv_mode
    &&& i.uv_angle == x.intra.chroma.uv_angle
    &&& i.dpcm[1] == b2i(x.intra.chroma.dpcm)
    &&& i.cfl_type == x.intra.chroma.cfl_type
    &&& i.cfl.cfl_alpha[0] == x.intra.chroma.alpha_u
    &&& i.cfl.cfl_alpha[1] == x.intra.chroma.alpha_v
    &&& i.cfl.cfl_mh_dir == x.intra.chroma.mh_dir
    &&& i.pal_sz == x.intra.pal_sz
    &&& i.dip == x.intra.dip
    &&& i.is_sm[0] == sm.luma
    &&& i.is_sm[1] == sm.chroma
    &&& i.is_refmv == x.copy.is_refmv
    &&& i.is_qpel == x.copy.is_qpel
    &&& i.intrabc_mv.c == m.copy
    &&& i.morph_pred == x.copy.morph_pred
    &&& p.inter_mode == x.inter.inter_mode
    &&& p.comp_type == x.inter.comp_type
    &&& p.motion_mode == x.inter.motion_mode
    &&& p.drl_idx[0] == (if x.head.intrabc != 0 { x.copy.drl } else { x.inter.drl0 })
    &&& p.drl_idx[1] == x.inter.drl1
    &&& p.amvd == x.inter.amvd
    &&& p.mv_prec == x.inter.mv_prec
    &&& p.mv[0].c == m.mv0
    &&& p.mv[1].c == m.mv1
    &&& p.refine_mv == x.inter.refine_mv
    &&& p.wedge_idx == x.inter.wedge_idx
    &&& p.wedge_sign == x.inter.wedge_sign
    &&& p.mask_sign == x.inter.mask_sign
    &&& p.cwp_idx == m.weight
    &&& p.filter == x.inter.filter
    &&& p.warp_ref_idx == x.inter.warp_ref_idx
    &&& p.warpmv_with_mvd == x.inter.warpmv_with_mvd
    &&& p.bawp[0] == x.inter.bawp0
    &&& p.bawp[1] == x.inter.bawp1
    &&& p.interintra_mode == x.inter.interintra_mode
    &&& p.matrix[0] == x.inter.delta0
    &&& p.matrix[1] == x.inter.delta1
    &&& p.matrix[2] == x.inter.delta2
    &&& p.matrix[3] == x.inter.delta3
    &&& p.warp_ii == x.inter.warp_ii
}

fn make_block(f: &Leaf, x: &BlockSyntax, sm: &LeafSmooth, m: &BlockMotion) -> (b: Av2Block)
    requires
        x.inter.amvd <= 1,
        x.inter.wedge_sign <= 1,
    ensures
        is_block(b, *f, *x, *sm, *m),
{
    let drl0: u8 = if x.head.intrabc != 0 { x.copy.drl } else { x.inter.drl0 };
    let intra: IntraData = IntraData {
        y_mode: x.intra.luma.y_mode,
        y_angle: x.intra.luma.y_angle,
        uv_mode: x.intra.chroma.uv_mode,
        uv_angle: x.intra.chroma.uv_angle,
        mrl_index: x.intra.mrl_index,
        multi_mrl: x.intra.multi_mrl,
        dpcm: [
            if x.intra.luma.dpcm { 1u8 } else { 0u8 },
            if x.intra.chroma.dpcm { 1u8 } else { 0u8 },
        ],
        cfl_type: x.intra.chroma.cfl_type,
        cfl: CflData {
            cfl_alpha: [x.intra.chroma.alpha_u, x.intra.chroma.alpha_v],
            cfl_mh_dir: x.intra.chroma.mh_dir,
        },
        pal_sz: x.intra.pal_sz,
        dip: x.intra.dip,
        is_sm: [sm.luma, sm.chroma],
        is_refmv: x.copy.is_refmv,
        is_qpel: x.copy.is_qpel,
        intrabc_mv: Mv { c: m.copy },
        morph_pred: x.copy.morph_pred,
    };
    let inter: InterData = InterData {
        inter_mode: x.inter.inter_mode,
        comp_type: x.inter.comp_type,
        motion_mode: x.inter.motion_mode,
        drl_idx: [drl0, x.inter.drl1],
        amvd: x.inter.amvd as i8,
        mv_prec: x.inter.mv_prec,
        mv: [Mv { c: m.mv0 }, Mv { c: m.mv1 }],
        refine_mv: x.inter.refine_mv,
        wedge_idx: x.inter.wedge_idx,
        wedge_sign: x.inter.wedge_sign as i8,
        mask_sign: x.inter.mask_sign,
        cwp_idx: m.weight,
        filter: x.inter.filter,
        warp_ref_idx: x.inter.warp_ref_idx,
        warpmv_with_mvd: x.inter.warpmv_with_mvd,
        bawp: [x.inter.bawp0, x.inter.bawp1],
        interintra_mode: x.inter.interintra_mode,
        matrix: [x.inter.delta0, x.inter.delta1, x.inter.delta2, x.inter.delta3],
        warp_ii: x.inter.warp_ii,
    };
    Av2Block {
        bs: f.lbs,
        cbs: f.cbs,
        seg_id: x.head.seg_id,
        skip_mode: x.head.skip_mode,
        is_intra: x.head.is_intra,
        intrabc: x.head.intrabc,
        skip_txfm: x.head.skip_txfm,
        fsc: x.intra.fsc,
        tx_part: x.tx_part,
        tx_size_ll: x.tx_size_ll,
        ref_pair: RefPair { r: [x.inter.ref0, x.inter.ref1] },
        data: BlockData { intra, inter },
    }
}

/// A decoded block: what was coded for it with its motion resolved, and what
/// becomes of it.
#[derive(Debug)]
pub struct DecodedBlock {
    pub block: Av2Block,
    pub built: Built,
}

/// What follows the syntax of a leaf: the motion of the block is found and
/// recorded, its steps are planned, and their coefficients are read. There is
/// no block where that fails.
pub open spec fn leaf_built(
    fi: SbFrameInfo,
    f: Leaf,
    x: BlockSyntax,
    sm: LeafSmooth,
    input: TileInput,
    t0: TileState,
    t1: TileState,
    s: Sym,
    s1: Sym,
    r: Option<DecodedBlock>,
) -> bool {
    let mf = *input.motion;
    let (m, s) = block_motion(s, fi, mf, f, x, t0.motion, t0.warp);
    match m {
        None => {
            &&& r is None
            &&& s1 == s
            &&& t1.motion == t0.motion
            &&& t1.warp == t0.warp
        },
        Some(m) => {
            &&& grid_after(fi, mf, f, x, m, t0.motion, t1.motion)
            &&& t1.warp == (m.warp, m.affine)
            &&& block_built(
                fi,
                mf,
                f,
                x,
                m,
                t0.motion,
                t1.motion,
                s,
                s1,
                match r {
                    Some(d) => Some(d.built),
                    None => None,
                },
            )
            &&& r matches Some(d) ==> is_block(d.block, f, x, sm, m)
        },
    }
}

/// Decodes a leaf into a block. It fails where a chroma mode does not exist,
/// which leaves the contexts and the maps of the blocks as they were, where a
/// vector cannot be kept, and where coefficients cannot be decoded.
pub fn decode_b(
    fi: &SbFrameInfo,
    f: &Leaf,
    a: &mut BlockContext,
    l: &mut BlockContext,
    t: &mut TileState,
    input: &TileInput,
    msac: &mut MsacContext,
) -> (r: Result<DecodedBlock>)
    requires
        f.valid(*fi),
        refs_valid(*fi),
        old(a).wf(),
        old(l).wf(),
        old(t).valid(*fi, *f, *input),
        recorded(*fi, *f) ==> f.has_luma(),
    ensures
        r is Err ==> r->Err_0 == Rav2dError::InvalidData,
        ({
            let (head, s) = block_head(
                old(msac)@,
                *fi,
                *f,
                *old(a),
                *old(l),
                old(t).segmap@,
                input.prev_seq(),
            );
            sb_level_recorded(s, *fi, *f, head, *input, *old(t), *final(t))
        }),
        ({
            let (x, s) = leaf_syntax(old(msac)@, *fi, *f, *old(a), *old(l), *old(t), *input);
            match x {
                None => {
                    &&& r is Err
                    &&& final(msac)@ == s
                    &&& *final(a) == *old(a)
                    &&& *final(l) == *old(l)
                    &&& final(t).segmap@ == old(t).segmap@
                    &&& final(t).dir_map == old(t).dir_map
                    &&& final(t).fsc_map == old(t).fsc_map
                    &&& final(t).motion == old(t).motion
                    &&& final(t).warp == old(t).warp
                },
                Some(x) => {
                    &&& x.valid()
                    &&& leaf_left(
                        *fi,
                        *f,
                        x,
                        *old(a),
                        *final(a),
                        *old(l),
                        *final(l),
                        *old(t),
                        *final(t),
                    )
                    &&& leaf_built(
                        *fi,
                        *f,
                        x,
                        leaf_smooth(*f, x.head.from_edges(), *old(a), *old(l)),
                        *input,
                        *old(t),
                        *final(t),
                        s,
                        final(msac)@,
                        r.ok(),
                    )
                },
            }
        }),
        final(a).wf(),
        final(l).wf(),
        final(t).motion.wf(),
{
    let smooth: LeafSmooth = find_smooth(f, a, l);
    let x: BlockSyntax = match decode_leaf(fi, f, a, l, t, input, msac) {
        None => {
            return Err(Rav2dError::InvalidData);
        },
        Some(x) => x,
    };
    let ghost t1 = *t;
    let (m, built) = build_block(fi, input.motion, f, &x, &mut t.motion, t.warp, msac);
    if let Some(m) = m {
        t.warp = (m.warp, m.affine);
        if let Some(built) = built {
            let none: SmoothFlags = SmoothFlags { a: 0, l: 0 };
            let sm: LeafSmooth = if x.head.is_intra != 0 && x.head.intrabc == 0 {
                smooth
            } else {
                LeafSmooth { luma: none, chroma: none }
            };
            let block: Av2Block = make_block(f, &x, &sm, &m);
            return Ok(DecodedBlock { block, built });
        }
    }
    Err(Rav2dError::InvalidData)
}

/// The maps of a 64x64 area go row by row, sixteen units to a row.
pub proof fn law_area_maps_go_by_rows(bx: int, by: int)
    requires
        0 <= bx,
        0 <= by,
    ensures
        0 <= dir_index(bx, by) < 256,
        dir_index(bx, by) % 16 == bx % 16,
        dir_index(bx, by) / 16 == by % 16,
{
}

/// What a block leaves along its edges is what was coded for it.
pub proof fn law_blocks_leave_what_was_coded(fi: SbFrameInfo, x: BlockSyntax)
    ensures
        ({
            let e = leaf_entry(fi, x);
            let edges = x.head.is_intra != 0 && x.head.intrabc == 0;
            &&& edges ==> e.mode == x.intra.luma.y_mode && e.midx == x.intra.luma.midx && e.fsc
                == x.intra.fsc && e.pal_sz == x.intra.pal_sz && e.seg_pred == x.head.seg_pred
                && e.intra == 1 && e.intrabc == 0 && e.skip_txfm == x.head.skip_txfm && e.multi_mrl
                == x.intra.multi_mrl
            &&& edges ==> (e.mrl == 1 <==> x.intra.mrl_index > 0) && (e.dip == 1 <==> x.intra.dip > 0)
            &&& edges ==> e.ref0 == -1 && e.ref1 == -1
            &&& !edges && x.head.intrabc != 0 ==> e.intra == 1 && e.intrabc == 1 && e.morph_pred
                == x.copy.morph_pred && e.midx == 0xff && e.ref0 == -1 && e.skip_txfm
                == x.head.skip_txfm
            &&& !edges && x.head.intrabc == 0 ==> e.intra == 0 && e.ref0 == x.inter.ref0 && e.ref1
                == x.inter.ref1 && e.mode == x.inter.inter_mode && e.skip_mode == x.head.skip_mode
            &&& leaf_uvmode(x) == (if edges { x.intra.chroma.uv_mode } else { 0 })
        }),
{
}

/// A leaf writes its luma entry where its luma lies and its chroma mode where
/// its chroma lies.
pub proof fn law_leaves_write_their_edges(
    before: BlockContext,
    after: BlockContext,
    f: Leaf,
    e: EdgeEntry,
    off: int,
    n: int,
    uvmode: u8,
    coff: int,
    cn: int,
    i: int,
)
    requires
        edge_written(before, after, f, e, off, n, uvmode, coff, cn),
        0 <= i < 64,
    ensures
        f.has_luma() && off <= i < off + n ==> after.mode[i] == e.mode && after.midx[i] == e.midx
            && after.intra[i] == e.intra && after.skip_txfm[i] == e.skip_txfm,
        !f.has_luma() ==> after.mode[i] == before.mode[i] && after.midx[i] == before.midx[i],
        f.has_chroma() && coff <= i < coff + cn ==> after.uvmode[i] == uvmode,
        !f.has_chroma() || !(coff <= i < coff + cn) ==> after.uvmode[i] == before.uvmode[i],
{
}

/// What smoothness a block sees around it: that of the luma above and to the
/// left of its corner, and of the chroma there.
pub proof fn law_smoothness_is_that_of_the_corner(f: Leaf, a: BlockContext, l: BlockContext)
    requires
        f.has_luma(),
        f.has_chroma(),
    ensures
        ({
            let s = leaf_smooth(f, true, a, l);
            let (x, y) = (f.bx as int % 64, f.by as int % 64);
            let (u, v) = (f.cbx as int % 64, f.cby as int % 64);
            &&& s.luma.a == 1 <==> a.intra[x] != 0 && 9 <= a.mode[x] <= 11
            &&& s.luma.l == 1 <==> l.intra[y] != 0 && 9 <= l.mode[y] <= 11
            &&& s.chroma.a == 1 <==> 9 <= a.uvmode[u] <= 11
            &&& s.chroma.l == 1 <==> 9 <= l.uvmode[v] <= 11
            &&& leaf_smooth(f, false, a, l).luma.a == 0 && leaf_smooth(f, false, a, l).chroma.l == 0
        }),
{
}

/// A decoded block holds what was coded for it, and its motion: vectors and
/// references in their order.
pub proof fn law_blocks_hold_what_was_coded(
    b: Av2Block,
    f: Leaf,
    x: BlockSyntax,
    sm: LeafSmooth,
    m: BlockMotion,
)
    requires
        is_block(b, f, x, sm, m),
    ensures
        b.bs == f.lbs && b.cbs == f.cbs,
        b.ref_pair.r[0] == x.inter.ref0 && b.data.inter.mv[0].c == m.mv0,
        b.ref_pair.r[1] == x.inter.ref1 && b.data.inter.mv[1].c == m.mv1,
        b.data.intra.intrabc_mv.c == m.copy,
        b.data.intra.y_mode == x.intra.luma.y_mode && b.data.intra.y_angle == x.intra.luma.y_angle,
        b.data.intra.uv_mode == x.intra.chroma.uv_mode && b.data.intra.uv_angle
            == x.intra.chroma.uv_angle,
        b.data.intra.cfl.cfl_alpha[0] == x.intra.chroma.alpha_u,
        b.data.intra.cfl.cfl_alpha[1] == x.intra.chroma.alpha_v,
        b.data.intra.is_sm[0] == sm.luma && b.data.intra.is_sm[1] == sm.chroma,
        b.data.inter.wedge_idx == x.inter.wedge_idx && b.data.inter.wedge_sign == x.inter.wedge_sign,
        b.data.inter.mask_sign == x.inter.mask_sign && b.data.inter.cwp_idx == m.weight,
        b.data.inter.matrix[0] == x.inter.delta0 && b.data.inter.matrix[1] == x.inter.delta1,
        b.data.inter.matrix[2] == x.inter.delta2 && b.data.inter.matrix[3] == x.inter.delta3,
        b.data.inter.bawp[0] == x.inter.bawp0 && b.data.inter.bawp[1] == x.inter.bawp1,
        b.tx_part == x.tx_part && b.tx_size_ll == x.tx_size_ll,
        b.skip_txfm == x.head.skip_txfm && b.skip_mode == x.head.skip_mode && b.seg_id
            == x.head.seg_id && b.is_intra == x.head.is_intra && b.intrabc == x.head.intrabc,
        b.data.inter.filter == x.inter.filter && b.data.inter.inter_mode == x.inter.inter_mode
            && b.data.inter.comp_type == x.inter.comp_type && b.data.inter.motion_mode
            == x.inter.motion_mode,
{
}

} // verus!
