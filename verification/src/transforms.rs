//! From the steps that build a block to its transform blocks.
use vstd::prelude::*;

use crate::chromatx::{
    chroma_phase_result, inter_chroma_residual, inter_chroma_result, recon_b_intra_chroma_phase,
    ChromaBlock, ChromaCoefs, ChromaPlan, ChromaTuPlan, ChromaTx,
};
use crate::coded::CodedGrid;
use crate::decodeb::{BlockSyntax, LeafSmooth};
use crate::edges::EdgeBounds;
use crate::env::BlockContext;
use crate::error::{Rav2dError, Result};
use crate::frameinfo::SbFrameInfo;
use crate::headers::{PixelLayout, SequenceHeader};
use crate::interplan::InterStep;
use crate::intraplan::IntraStep;
use crate::levels::{BlockSize, TxPartition};
use crate::lumatx::{IntraTools, LumaBlock, LumaTxPlan, RemappedAngle};
use crate::lumawalk::{
    inter_luma_residual, inter_luma_result, luma_result, recon_b_intra_luma_geom, DdtMasks,
    InterState, LumaGeom, LumaJob, LumaState,
};
use crate::predict::{find_edges, tile_edges};
use crate::residual::{CoefReply, TxResidual};
use crate::splitblock::{ChromaPhase, ReconBlock};
use crate::txwalk::TxSize;

verus! {

/// The transform sizes of a block: that which its partition leads to, the large
/// one in the middle of five, the largest that a lossless block can have, and
/// that of chroma.
#[derive(Debug, Clone, Copy, PartialEq, Eq, Structural)]
pub struct BlockTx {
    pub luma: TxSize,
    pub big: TxSize,
    pub largest: TxSize,
    pub chroma: TxSize,
}

/// The masks of data-driven transforms, by the sizes of the transform blocks.
#[derive(Debug, Clone, Copy, PartialEq, Eq, Structural)]
pub struct BlockMasks {
    pub luma: u16,
    pub big: u16,
    pub chroma: u16,
}

/// A mask, where the sequence has data-driven transforms.
pub open spec fn ddt_mask(seq: SequenceHeader, mask: u16) -> Option<u16> {
    if seq.inter_ddt { Some(mask) } else { None }
}

fn find_mask(seq: &SequenceHeader, mask: u16) -> (r: Option<u16>)
    ensures
        r == ddt_mask(*seq, mask),
{
    if seq.inter_ddt {
        Some(mask)
    } else {
        None
    }
}

/// What the sequence allows transform blocks.
pub open spec fn tools_of(seq: SequenceHeader, mask: u16) -> IntraTools {
    IntraTools {
        ibp: seq.ibp,
        edge_filter: seq.intra_edge_filter,
        ddt: ddt_mask(seq, mask),
    }
}

fn find_tools(seq: &SequenceHeader, mask: u16) -> (r: IntraTools)
    ensures
        r == tools_of(*seq, mask),
{
    IntraTools {
        ibp: seq.ibp,
        edge_filter: seq.intra_edge_filter,
        ddt: find_mask(seq, mask),
    }
}

/// Whether chroma planes may be mixed: in other layouts than 4:2:0 only those of
/// small transform blocks are.
pub open spec fn mixes(seq: SequenceHeader, small: bool) -> bool {
    seq.cctx && (seq.layout == PixelLayout::I420 || small)
}

/// The modes of a block, adapted to each shape of its transform blocks.
#[derive(Debug, Clone, Copy, PartialEq, Eq, Structural)]
pub struct BlockAngles {
    pub luma: RemappedAngle,
    pub big: RemappedAngle,
    pub chroma: RemappedAngle,
}

pub open spec fn lossless(fi: SbFrameInfo, x: BlockSyntax) -> bool {
    fi.seg_lossless[x.head.seg_id as int] != 0
}

/// The partition that a code stands for.
pub open spec fn partition_of(code: u8) -> TxPartition {
    if code == 0 {
        TxPartition::Whole
    } else if code == 1 {
        TxPartition::Split
    } else if code == 2 {
        TxPartition::H
    } else if code == 3 {
        TxPartition::V
    } else if code == 4 {
        TxPartition::H4
    } else if code == 5 {
        TxPartition::V4
    } else if code == 6 {
        TxPartition::H5
    } else {
        TxPartition::V5
    }
}

fn find_partition(code: u8) -> (r: TxPartition)
    ensures
        r == partition_of(code),
{
    match code {
        0 => TxPartition::Whole,
        1 => TxPartition::Split,
        2 => TxPartition::H,
        3 => TxPartition::V,
        4 => TxPartition::H4,
        5 => TxPartition::V4,
        6 => TxPartition::H5,
        _ => TxPartition::V5,
    }
}

/// Where the luma transform blocks of a part lie.
pub open spec fn luma_geom(
    fi: SbFrameInfo,
    x: BlockSyntax,
    bx: i32,
    by: i32,
    bs: BlockSize,
    z: BlockTx,
) -> LumaGeom {
    LumaGeom {
        bx,
        by,
        bw4: bs.w4() as i32,
        bh4: bs.h4() as i32,
        part: partition_of(x.tx_part),
        t: z.luma,
        big: z.big,
        lossless: lossless(fi, x),
        tx_size_ll: x.tx_size_ll != 0,
        largest: z.largest,
        fw: fi.bw,
        fh: fi.bh,
    }
}

fn find_luma_geom(
    fi: &SbFrameInfo,
    x: &BlockSyntax,
    bx: i32,
    by: i32,
    bs: BlockSize,
    z: &BlockTx,
) -> (r: LumaGeom)
    requires
        bs != BlockSize::Invalid,
        x.head.seg_id < 16,
    ensures
        r == luma_geom(*fi, *x, bx, by, bs, *z),
{
    let d: [u8; 4] = bs.dim();
    LumaGeom {
        bx,
        by,
        bw4: d[0] as i32,
        bh4: d[1] as i32,
        part: find_partition(x.tx_part),
        t: z.luma,
        big: z.big,
        lossless: fi.seg_lossless[x.head.seg_id as usize] != 0,
        tx_size_ll: x.tx_size_ll != 0,
        largest: z.largest,
        fw: fi.bw,
        fh: fi.bh,
    }
}

/// A luma part that is predicted within its frame.
pub open spec fn luma_job(
    fi: SbFrameInfo,
    seq: SequenceHeader,
    masks: BlockMasks,
    x: BlockSyntax,
    sm: LeafSmooth,
    g: LumaGeom,
    m: BlockAngles,
) -> LumaJob {
    LumaJob {
        b: LumaBlock {
            intrabc: x.head.intrabc != 0,
            skip_txfm: x.head.skip_txfm != 0,
            y_mode: x.intra.luma.y_mode,
            y_angle: x.intra.luma.y_angle,
            mrl_index: x.intra.mrl_index,
            multi_mrl: x.intra.multi_mrl != 0,
            tx_part: g.part,
            dip: x.intra.dip,
            pal_sz: x.intra.pal_sz,
            sm_top: sm.luma.a != 0,
            sm_left: sm.luma.l != 0,
            lossless: g.lossless,
            dpcm: x.intra.luma.dpcm,
            pb_col_start: g.bx,
            pb_row_start: g.by,
        },
        g,
        f: tools_of(seq, masks.luma),
        t: tile_edges(fi),
        m: m.luma,
        m_big: m.big,
        ddt_big: ddt_mask(seq, masks.big),
    }
}

/// Where the chroma transform blocks of a part lie. Lossless ones are single
/// units.
pub open spec fn chroma_geom(
    fi: SbFrameInfo,
    x: BlockSyntax,
    cbx: i32,
    cby: i32,
    cbs: BlockSize,
    z: BlockTx,
) -> ChromaTx {
    ChromaTx {
        t: if lossless(fi, x) {
            TxSize { w: 1, h: 1 }
        } else {
            z.chroma
        },
        cbx,
        cby,
        cbw4: cbs.w4() as i32,
        cbh4: cbs.h4() as i32,
        ss_hor: fi.ss_hor,
        ss_ver: fi.ss_ver,
        fw: fi.bw,
        fh: fi.bh,
    }
}

fn find_chroma_geom(
    fi: &SbFrameInfo,
    x: &BlockSyntax,
    cbx: i32,
    cby: i32,
    cbs: BlockSize,
    z: &BlockTx,
) -> (r: ChromaTx)
    requires
        cbs != BlockSize::Invalid,
        x.head.seg_id < 16,
    ensures
        r == chroma_geom(*fi, *x, cbx, cby, cbs, *z),
{
    let d: [u8; 4] = cbs.dim();
    ChromaTx {
        t: if fi.seg_lossless[x.head.seg_id as usize] != 0 {
            TxSize { w: 1, h: 1 }
        } else {
            z.chroma
        },
        cbx,
        cby,
        cbw4: d[0] as i32,
        cbh4: d[1] as i32,
        ss_hor: fi.ss_hor,
        ss_ver: fi.ss_ver,
        fw: fi.bw,
        fh: fi.bh,
    }
}

/// A chroma part of a block without motion compensation.
pub open spec fn chroma_block(
    fi: SbFrameInfo,
    mixed: bool,
    x: BlockSyntax,
    sm: LeafSmooth,
    apart: bool,
) -> ChromaBlock {
    ChromaBlock {
        is_intra: x.head.is_intra != 0,
        intrabc: x.head.intrabc != 0,
        sdp_active: apart,
        skip_txfm: x.head.skip_txfm != 0,
        uv_mode: x.intra.chroma.uv_mode,
        sm_top: sm.chroma.a != 0,
        sm_left: sm.chroma.l != 0,
        lossless: lossless(fi, x),
        dpcm: x.intra.chroma.dpcm,
        cctx: mixed,
    }
}

/// The block whose transform blocks are built.
pub struct TransformedBlock<'a> {
    pub fi: &'a SbFrameInfo,
    pub seq: &'a SequenceHeader,
    pub syntax: &'a BlockSyntax,
    pub smooth: LeafSmooth,
    pub sizes: BlockTx,
    pub angles: BlockAngles,
    pub masks: BlockMasks,
    /// Whether the chroma transform blocks are small.
    pub small: bool,
}

impl<'a> TransformedBlock<'a> {
    pub open spec fn job(self, bx: i32, by: i32, bs: BlockSize) -> LumaJob {
        luma_job(
            *self.fi,
            *self.seq,
            self.masks,
            *self.syntax,
            self.smooth,
            luma_geom(*self.fi, *self.syntax, bx, by, bs, self.sizes),
            self.angles,
        )
    }

    pub open spec fn chroma(self, cbx: i32, cby: i32, cbs: BlockSize) -> ChromaTx {
        chroma_geom(*self.fi, *self.syntax, cbx, cby, cbs, self.sizes)
    }

    pub open spec fn chroma_block(self, apart: bool) -> ChromaBlock {
        chroma_block(*self.fi, mixes(*self.seq, self.small), *self.syntax, self.smooth, apart)
    }

    /// The sizes divide the parts of the step, and there is a reply for each
    /// transform block that is read.
    pub open spec fn step_fits(self, step: IntraStep, replies: int, stash: ChromaCoefs) -> bool {
        match step {
            IntraStep::Copy(_) => true,
            IntraStep::Luma(bx, by, bs) => {
                &&& bs != BlockSize::Invalid
                &&& self.job(bx, by, bs).valid()
                &&& self.syntax.head.skip_txfm != 0 || replies == self.job(
                    bx,
                    by,
                    bs,
                ).g.tiles().len()
            },
            IntraStep::Chroma(phase, cbx, cby, cbs, apart) => {
                let p = self.chroma(cbx, cby, cbs);
                &&& cbs != BlockSize::Invalid
                &&& p.valid()
                &&& tile_edges(*self.fi).valid()
                &&& 16 <= self.fi.sb_step
                &&& phase == ChromaPhase::Both || phase == ChromaPhase::ReadOnly
                    ==> self.chroma_block(apart).skips() || replies >= 2 * p.tiles().len()
                &&& phase == ChromaPhase::ReconOnly ==> stash.u@.len() == p.tiles().len()
                    && stash.v@.len() == p.tiles().len()
            },
        }
    }

    /// The parts lie in the frame, and the sizes divide them.
    pub open spec fn part_fits(self, k: ReconBlock, step: InterStep, replies: int) -> bool {
        match step {
            InterStep::LumaResidual => {
                let g = luma_geom(*self.fi, *self.syntax, k.bx, k.by, k.lbs, self.sizes);
                &&& k.lbs != BlockSize::Invalid
                &&& g.valid()
                &&& self.syntax.head.skip_txfm != 0 || replies == g.tiles().len()
            },
            InterStep::ChromaResidual => {
                let p = self.chroma(k.cbx, k.cby, k.cbs);
                &&& k.cbs != BlockSize::Invalid
                &&& p.valid()
                &&& replies >= 2 * p.tiles().len()
            },
            _ => true,
        }
    }
}

/// What a step without motion compensation gives.
#[derive(Debug)]
pub enum Transformed {
    /// Samples are copied; there are no transform blocks.
    Copied,
    Luma(Vec<LumaTxPlan>),
    /// Chroma; nothing where its coefficients were only read.
    Chroma(Option<ChromaPlan>),
}

/// What is added to a motion-compensated prediction.
#[derive(Debug)]
pub enum Added {
    /// The step predicts.
    Nothing,
    Luma(Vec<Option<TxResidual>>),
    Chroma(Vec<ChromaTuPlan>),
}

/// The state that transform blocks change.
pub ghost struct TransformState {
    pub a: BlockContext,
    pub l: BlockContext,
    pub coded: CodedGrid,
    pub stash: ChromaCoefs,
}

impl TransformState {
    pub open spec fn luma(self) -> LumaState {
        LumaState { a: self.a, l: self.l, coded: self.coded }
    }
}

/// What a luma step gave.
pub open spec fn luma_plans(r: Result<Transformed>) -> Result<Vec<LumaTxPlan>> {
    match r {
        Ok(t) => Ok(t->Luma_0),
        Err(e) => Err(e),
    }
}

/// What a chroma step gave.
pub open spec fn chroma_plans(r: Result<Transformed>) -> Result<Option<ChromaPlan>> {
    match r {
        Ok(t) => Ok(t->Chroma_0),
        Err(e) => Err(e),
    }
}

/// The step leads from `s0` to `s1` and gives `r`.
pub open spec fn is_transformed(
    b: TransformedBlock,
    step: IntraStep,
    replies: Seq<CoefReply>,
    s0: TransformState,
    s1: TransformState,
    r: Result<Transformed>,
) -> bool {
    match step {
        IntraStep::Copy(_) => s1 == s0 && r == Ok::<Transformed, Rav2dError>(Transformed::Copied),
        IntraStep::Luma(bx, by, bs) => {
            &&& s1.stash == s0.stash
            &&& r matches Ok(t) ==> t is Luma
            &&& luma_result(b.job(bx, by, bs), replies, s0.luma(), s1.luma(), luma_plans(r))
        },
        IntraStep::Chroma(phase, cbx, cby, cbs, apart) => {
            &&& r matches Ok(t) ==> t is Chroma
            &&& chroma_phase_result(
                b.chroma_block(apart),
                tools_of(*b.seq, b.masks.chroma),
                b.chroma(cbx, cby, cbs),
                tile_edges(*b.fi),
                b.angles.chroma,
                phase,
                replies,
                s0.stash,
                s1.stash,
                s0.a,
                s1.a,
                s0.l,
                s1.l,
                s0.coded,
                s1.coded,
                chroma_plans(r),
            )
        },
    }
}

/// Plans the transform blocks of a step of a block without motion compensation.
/// `replies` are what reading their coefficients gave.
pub fn transform_step(
    b: &TransformedBlock,
    step: &IntraStep,
    replies: &[CoefReply],
    stash: &mut ChromaCoefs,
    a: &mut BlockContext,
    l: &mut BlockContext,
    coded: &mut CodedGrid,
) -> (r: Result<Transformed>)
    requires
        b.syntax.head.seg_id < 16,
        old(coded).wf(),
        b.step_fits(*step, replies@.len() as int, *old(stash)),
    ensures
        final(coded).wf(),
        is_transformed(
            *b,
            *step,
            replies@,
            (TransformState { a: *old(a), l: *old(l), coded: *old(coded), stash: *old(stash) }),
            (TransformState {
                a: *final(a),
                l: *final(l),
                coded: *final(coded),
                stash: *final(stash),
            }),
            r,
        ),
{
    let x: &BlockSyntax = b.syntax;
    match *step {
        IntraStep::Copy(_) => Ok(Transformed::Copied),
        IntraStep::Luma(bx, by, bs) => {
            let g: LumaGeom = find_luma_geom(b.fi, x, bx, by, bs, &b.sizes);
            let j: LumaJob = LumaJob {
                b: LumaBlock {
                    intrabc: x.head.intrabc != 0,
                    skip_txfm: x.head.skip_txfm != 0,
                    y_mode: x.intra.luma.y_mode,
                    y_angle: x.intra.luma.y_angle,
                    mrl_index: x.intra.mrl_index,
                    multi_mrl: x.intra.multi_mrl != 0,
                    tx_part: g.part,
                    dip: x.intra.dip,
                    pal_sz: x.intra.pal_sz,
                    sm_top: b.smooth.luma.a != 0,
                    sm_left: b.smooth.luma.l != 0,
                    lossless: g.lossless,
                    dpcm: x.intra.luma.dpcm,
                    pb_col_start: g.bx,
                    pb_row_start: g.by,
                },
                g,
                f: find_tools(b.seq, b.masks.luma),
                t: find_edges(b.fi),
                m: b.angles.luma,
                m_big: b.angles.big,
                ddt_big: find_mask(b.seq, b.masks.big),
            };
            assert(j == b.job(bx, by, bs));
            match recon_b_intra_luma_geom(&j, replies, a, l, coded) {
                Ok(v) => Ok(Transformed::Luma(v)),
                Err(e) => Err(e),
            }
        },
        IntraStep::Chroma(phase, cbx, cby, cbs, apart) => {
            let p: ChromaTx = find_chroma_geom(b.fi, x, cbx, cby, cbs, &b.sizes);
            let k: ChromaBlock = ChromaBlock {
                is_intra: x.head.is_intra != 0,
                intrabc: x.head.intrabc != 0,
                sdp_active: apart,
                skip_txfm: x.head.skip_txfm != 0,
                uv_mode: x.intra.chroma.uv_mode,
                sm_top: b.smooth.chroma.a != 0,
                sm_left: b.smooth.chroma.l != 0,
                lossless: b.fi.seg_lossless[x.head.seg_id as usize] != 0,
                dpcm: x.intra.chroma.dpcm,
                cctx: b.seq.cctx && (b.seq.layout == PixelLayout::I420 || b.small),
            };
            assert(k == b.chroma_block(apart));
            let t: EdgeBounds = find_edges(b.fi);
            let f: IntraTools = find_tools(b.seq, b.masks.chroma);
            match recon_b_intra_chroma_phase(
                &k,
                &f,
                &p,
                &t,
                &b.angles.chroma,
                phase,
                replies,
                stash,
                a,
                l,
                coded,
            ) {
                Ok(v) => Ok(Transformed::Chroma(v)),
                Err(e) => Err(e),
            }
        },
    }
}

/// The masks of luma transform blocks, where there are data-driven transforms.
pub open spec fn luma_masks(seq: SequenceHeader, masks: BlockMasks) -> Option<DdtMasks> {
    if seq.inter_ddt { Some(DdtMasks { t: masks.luma, big: masks.big }) } else { None }
}

/// What a luma step adds.
pub open spec fn luma_added(r: Result<Added>) -> Result<Vec<Option<TxResidual>>> {
    match r {
        Ok(t) => Ok(t->Luma_0),
        Err(e) => Err(e),
    }
}

/// What a chroma step adds.
pub open spec fn chroma_added(r: Result<Added>) -> Result<Vec<ChromaTuPlan>> {
    match r {
        Ok(t) => Ok(t->Chroma_0),
        Err(e) => Err(e),
    }
}

/// The step of part `k` leads from `s0` to `s1` and gives `r`.
pub open spec fn is_added(
    b: TransformedBlock,
    k: ReconBlock,
    step: InterStep,
    replies: Seq<CoefReply>,
    s0: InterState,
    s1: InterState,
    r: Result<Added>,
) -> bool {
    let skip = b.syntax.head.skip_txfm != 0;
    match step {
        InterStep::LumaResidual => {
            &&& r matches Ok(t) ==> t is Luma
            &&& inter_luma_result(
                luma_geom(*b.fi, *b.syntax, k.bx, k.by, k.lbs, b.sizes),
                skip,
                luma_masks(*b.seq, b.masks),
                replies,
                s0,
                s1,
                luma_added(r),
            )
        },
        InterStep::ChromaResidual => {
            &&& s1.types == s0.types
            &&& r matches Ok(t) ==> t is Chroma
            &&& inter_chroma_result(
                b.chroma(k.cbx, k.cby, k.cbs),
                skip,
                mixes(*b.seq, b.small),
                ddt_mask(*b.seq, b.masks.chroma),
                replies,
                s0.luma.a,
                s1.luma.a,
                s0.luma.l,
                s1.luma.l,
                s0.luma.coded,
                s1.luma.coded,
                chroma_added(r),
            )
        },
        _ => s1 == s0 && r == Ok::<Added, Rav2dError>(Added::Nothing),
    }
}

/// Plans what a step adds to the prediction of a motion-compensated part.
/// `types` are the transform types of the luma blocks of the superblock.
pub fn add_residual(
    b: &TransformedBlock,
    k: &ReconBlock,
    step: &InterStep,
    replies: &[CoefReply],
    a: &mut BlockContext,
    l: &mut BlockContext,
    coded: &mut CodedGrid,
    types: &mut [u16; 256],
) -> (r: Result<Added>)
    requires
        b.syntax.head.seg_id < 16,
        old(coded).wf(),
        b.part_fits(*k, *step, replies@.len() as int),
    ensures
        final(coded).wf(),
        is_added(
            *b,
            *k,
            *step,
            replies@,
            (InterState {
                luma: LumaState { a: *old(a), l: *old(l), coded: *old(coded) },
                types: old(types)@,
            }),
            (InterState {
                luma: LumaState { a: *final(a), l: *final(l), coded: *final(coded) },
                types: final(types)@,
            }),
            r,
        ),
{
    let skip: bool = b.syntax.head.skip_txfm != 0;
    match step {
        InterStep::LumaResidual => {
            let g: LumaGeom = find_luma_geom(b.fi, b.syntax, k.bx, k.by, k.lbs, &b.sizes);
            let masks: Option<DdtMasks> = if b.seq.inter_ddt {
                Some(DdtMasks { t: b.masks.luma, big: b.masks.big })
            } else {
                None
            };
            match inter_luma_residual(
                &g,
                skip,
                masks,
                replies,
                a,
                l,
                coded,
                types,
            ) {
                Ok(v) => Ok(Added::Luma(v)),
                Err(e) => Err(e),
            }
        },
        InterStep::ChromaResidual => {
            let p: ChromaTx = find_chroma_geom(b.fi, b.syntax, k.cbx, k.cby, k.cbs, &b.sizes);
            match inter_chroma_residual(
                &p,
                skip,
                b.seq.cctx && (b.seq.layout == PixelLayout::I420 || b.small),
                find_mask(b.seq, b.masks.chroma),
                replies,
                a,
                l,
                coded,
            ) {
                Ok(v) => Ok(Added::Chroma(v)),
                Err(e) => Err(e),
            }
        },
        _ => Ok(Added::Nothing),
    }
}

/// The codes of divisions count in this order: whole, quarters, halves above
/// and beside each other, four strips, and five parts.
pub proof fn law_division_codes_count(c: u8)
    requires
        c <= TxPartition::V5 as u8,
    ensures
        partition_of(c) as int == c,
{
}

/// Where the luma transform blocks of a part lie follows the part; those of a
/// job know what was coded for their block.
pub proof fn law_luma_jobs_know_their_block(
    fi: SbFrameInfo,
    seq: SequenceHeader,
    masks: BlockMasks,
    x: BlockSyntax,
    sm: LeafSmooth,
    bx: i32,
    by: i32,
    bs: BlockSize,
    z: BlockTx,
    m: BlockAngles,
)
    requires
        bs != BlockSize::Invalid,
    ensures
        ({
            let g = luma_geom(fi, x, bx, by, bs, z);
            let j = luma_job(fi, seq, masks, x, sm, g, m);
            &&& g.bx == bx && g.by == by && g.bw4 == bs.w4() && g.bh4 == bs.h4()
            &&& g.fw == fi.bw && g.fh == fi.bh
            &&& x.tx_part <= 7 ==> g.part as int == x.tx_part
            &&& g.lossless == (fi.seg_lossless[x.head.seg_id as int] != 0)
            &&& j.b.y_mode == x.intra.luma.y_mode && j.b.y_angle == x.intra.luma.y_angle
            &&& j.b.mrl_index == x.intra.mrl_index && j.b.dip == x.intra.dip && j.b.pal_sz
                == x.intra.pal_sz
            &&& j.b.sm_top == (sm.luma.a != 0) && j.b.sm_left == (sm.luma.l != 0)
            &&& j.b.skip_txfm == (x.head.skip_txfm != 0) && j.b.intrabc == (x.head.intrabc != 0)
            &&& j.b.dpcm == x.intra.luma.dpcm
            &&& j.b.pb_col_start == bx && j.b.pb_row_start == by
            &&& j.f.ibp == seq.ibp && j.f.edge_filter == seq.intra_edge_filter
            &&& j.t.col_start == fi.tile_col_start && j.t.col_end == fi.tile_col_end
            &&& j.t.row_start == fi.tile_row_start && j.t.row_end == fi.tile_row_end
        }),
{
    crate::levels::lemma_block_dimensions(bs);
}

/// The same of chroma: lossless transform blocks are single units.
pub proof fn law_chroma_jobs_know_their_block(
    fi: SbFrameInfo,
    x: BlockSyntax,
    sm: LeafSmooth,
    cbx: i32,
    cby: i32,
    cbs: BlockSize,
    z: BlockTx,
    apart: bool,
)
    requires
        cbs != BlockSize::Invalid,
    ensures
        ({
            let p = chroma_geom(fi, x, cbx, cby, cbs, z);
            let b = chroma_block(fi, false, x, sm, apart);
            &&& p.cbx == cbx && p.cby == cby && p.cbw4 == cbs.w4() && p.cbh4 == cbs.h4()
            &&& p.ss_hor == fi.ss_hor && p.ss_ver == fi.ss_ver && p.fw == fi.bw && p.fh == fi.bh
            &&& fi.seg_lossless[x.head.seg_id as int] != 0 ==> p.t.w == 1 && p.t.h == 1
            &&& fi.seg_lossless[x.head.seg_id as int] == 0 ==> p.t == z.chroma
            &&& b.uv_mode == x.intra.chroma.uv_mode && b.dpcm == x.intra.chroma.dpcm
            &&& b.sm_top == (sm.chroma.a != 0) && b.sm_left == (sm.chroma.l != 0)
            &&& b.is_intra == (x.head.is_intra != 0) && b.skip_txfm == (x.head.skip_txfm != 0)
            &&& b.intrabc == (x.head.intrabc != 0) && b.sdp_active == apart
        }),
{
    crate::levels::lemma_block_dimensions(cbs);
}

/// The transform blocks of luma and of chroma are those of the given place and
/// size.
pub proof fn law_transform_blocks_lie_in_their_block(
    b: TransformedBlock,
    x: i32,
    y: i32,
    bs: BlockSize,
    apart: bool,
)
    requires
        bs != BlockSize::Invalid,
    ensures
        b.chroma(x, y, bs).cbx == x && b.chroma(x, y, bs).cby == y,
        b.chroma(x, y, bs).cbw4 == bs.w4() && b.chroma(x, y, bs).cbh4 == bs.h4(),
        b.job(x, y, bs).g.bx == x && b.job(x, y, bs).g.by == y,
        b.job(x, y, bs).m == b.angles.luma && b.job(x, y, bs).m_big == b.angles.big,
        b.chroma_block(apart).sdp_active == apart,
        b.chroma_block(apart).sm_top == (b.smooth.chroma.a != 0),
        b.chroma_block(apart).sm_left == (b.smooth.chroma.l != 0),
        b.job(x, y, bs).b.y_mode == b.syntax.intra.luma.y_mode,
{
    crate::levels::lemma_block_dimensions(bs);
}

/// Data-driven transforms have masks, for usual and for large blocks, exactly
/// where the sequence has them.
pub proof fn law_masks_are_for_data_driven_transforms(
    seq: SequenceHeader,
    masks: BlockMasks,
    mask: u16,
)
    ensures
        seq.inter_ddt ==> ddt_mask(seq, mask) == Some(mask) && (luma_masks(seq, masks) matches Some(
            m,
        ) && m.t == masks.luma && m.big == masks.big),
        !seq.inter_ddt ==> ddt_mask(seq, mask) is None && luma_masks(seq, masks) is None,
{
}

} // verus!
