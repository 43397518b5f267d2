//! One block: all of its syntax in order, and what it leaves behind.
use vstd::prelude::*;

use crate::block::{
    nb_sum_present, sb_neighbours, sum_present, tile_neighbours, BlockPos, SbNb, TileNb,
};
use crate::env::BlockContext;
use crate::flags::{
    intra_flag, intrabc_flag, read_intrabc_flag, read_is_intra, read_skip_mode, read_skip_txfm,
    skip_mode_flag, skip_txfm_flag,
};
use crate::frameinfo::SbFrameInfo;
use crate::intops::b2i;
use crate::intra::{
    chroma_mode, dip_mode, fsc_flag, is_midx, luma_mode, mrl_read, palette_size, plain_chroma,
    read_chroma_mode, read_dip, read_fsc, read_luma_mode, read_mrl, read_palette_size, ChromaMode,
    LumaMode,
};
use crate::levels::{lemma_block_dimensions, BlockSize, Mv, MvXY, CFL_PRED};
use crate::msac::{Cdf, MsacContext, Request, Sym};
use crate::mvread::{mv_residual, read_mv_full};
use crate::mvsyntax::{drl_index, read_drl_index, DrlKind};
use crate::segid::{
    read_segid_after_skip, read_segid_before_skip, segid_after_skip, segid_before_skip, SegMaps,
    SegRead,
};




verus! {

/// A leaf of the superblock tree: the luma and the chroma block that are
/// decoded together. Either size can be invalid, but not both.
#[derive(Debug, Clone, Copy, PartialEq, Eq, Structural)]
pub struct Leaf {
    pub bx: i32,
    pub by: i32,
    pub cbx: i32,
    pub cby: i32,
    pub lbs: BlockSize,
    pub cbs: BlockSize,
    pub intra_region: bool,
    pub cfl_disallowed: bool,
}

impl Leaf {
    pub open spec fn has_luma(self) -> bool {
        self.lbs != BlockSize::Invalid
    }

    pub open spec fn has_chroma(self) -> bool {
        self.cbs != BlockSize::Invalid
    }

    /// The block that the leaf is decoded as: luma if there is any.
    pub open spec fn pos(self) -> BlockPos {
        BlockPos {
            bx: self.bx,
            by: self.by,
            bs: if self.has_luma() { self.lbs } else { self.cbs },
        }
    }

    pub open spec fn valid(self, fi: SbFrameInfo) -> bool {
        &&& self.pos().valid(fi)
        &&& 0 <= fi.ss_hor <= 1
        &&& 0 <= fi.ss_ver <= 1
        &&& 0 <= self.cbx
        &&& 0 <= self.cby
        &&& self.has_chroma() ==> {
            &&& self.cbx % 64 + self.cbs.w4() <= 64
            &&& self.cby % 64 + self.cbs.h4() <= 64
        }
    }
}

/// The flags at the head of a block.
#[derive(Debug, Clone, Copy, PartialEq, Eq, Structural)]
pub struct BlockHead {
    pub seg_id: u8,
    pub seg_pred: u8,
    pub skip_mode: u8,
    pub is_intra: u8,
    pub intrabc: u8,
    pub skip_txfm: u8,
}

impl BlockHead {
    pub open spec fn valid(self) -> bool {
        &&& self.seg_id < 16
        &&& self.seg_pred <= 1
        &&& self.skip_mode <= 1
        &&& self.is_intra <= 1
        &&& self.intrabc <= 1
        &&& self.skip_txfm <= 1
    }

    /// Predicted from its edges.
    pub open spec fn from_edges(self) -> bool {
        self.is_intra != 0 && self.intrabc == 0
    }
}

/// The neighbours within the superblock; a leaf without luma has none.
pub open spec fn leaf_neighbours(fi: SbFrameInfo, f: Leaf) -> SbNb {
    if f.has_luma() {
        sb_neighbours(fi, f.pos())
    } else {
        SbNb { n: 0, twice: false, ..sb_neighbours(fi, f.pos()) }
    }
}

/// The flags at the head of a block, in the order in which they are coded.
#[verifier::opaque]
pub open spec fn block_head(
    s: Sym,
    fi: SbFrameInfo,
    f: Leaf,
    a: BlockContext,
    l: BlockContext,
    cur: Seq<u8>,
    prev: Option<Seq<u8>>,
) -> (BlockHead, Sym) {
    let b = f.pos();
    let nx = tile_neighbours(fi, b);
    let nb = leaf_neighbours(fi, f);
    let (seg, s) = segid_before_skip(s, fi, b, f.has_luma(), a, l, cur, prev);
    let (skip_mode, s) = skip_mode_flag(
        s,
        fi,
        b.bs,
        seg.seg_id as int,
        f.intra_region,
        a,
        l,
        nx,
    );
    let (intra, s) = intra_flag(
        s,
        fi,
        f.lbs,
        f.cbs,
        skip_mode != 0,
        f.intra_region,
        a,
        l,
        nx,
    );
    let (ibc, s) = intrabc_flag(s, fi, b.bs, f.has_luma(), intra != 0, f.intra_region, a, l, nb);
    let (skip, s) = skip_txfm_flag(
        s,
        fi,
        seg.seg_id as int,
        intra != 0 && ibc == 0,
        skip_mode,
        a,
        l,
        nx,
    );
    let (seg, s) = segid_after_skip(
        s,
        fi,
        b,
        f.has_luma(),
        skip != 0,
        seg,
        a,
        l,
        cur,
        prev,
    );
    (
        BlockHead {
            seg_id: seg.seg_id,
            seg_pred: seg.seg_pred,
            skip_mode: skip_mode as u8,
            is_intra: intra as u8,
            intrabc: ibc as u8,
            skip_txfm: skip as u8,
        },
        s,
    )
}

pub fn read_block_head(
    fi: &SbFrameInfo,
    f: &Leaf,
    a: &BlockContext,
    l: &BlockContext,
    nx: &TileNb,
    nb: &SbNb,
    maps: &SegMaps,
    msac: &mut MsacContext,
) -> (r: BlockHead)
    requires
        f.valid(*fi),
        maps.valid(*fi),
        a.wf(),
        l.wf(),
        *nx == tile_neighbours(*fi, f.pos()),
        *nb == leaf_neighbours(*fi, *f),
        nx.p0.off < 64,
        nx.p1.off < 64,
        nx.n <= 2,
        nb.p0.off < 64,
        nb.p1.off < 64,
    ensures
        (r, final(msac)@) == block_head(
            old(msac)@,
            *fi,
            *f,
            *a,
            *l,
            maps.cur@,
            maps.prev_seq(),
        ),
        r.valid(),
        r.is_intra == 0 ==> fi.is_inter_or_switch || fi.skip_mode_enabled,
{
    proof {
        reveal(block_head);
    }
    let has_luma: bool = f.lbs != BlockSize::Invalid;
    let b: BlockPos = BlockPos { bx: f.bx, by: f.by, bs: if has_luma { f.lbs } else { f.cbs } };
    let seg: SegRead = read_segid_before_skip(fi, &b, has_luma, a, l, maps, msac);
    let skip_mode: u8 = read_skip_mode(fi, b.bs, seg.seg_id, f.intra_region, a, l, nx, msac);
    let is_intra: u8 = read_is_intra(
        fi,
        f.lbs,
        f.cbs,
        skip_mode != 0,
        f.intra_region,
        a,
        l,
        nx,
        msac,
    );
    let intrabc: u8 = read_intrabc_flag(
        fi,
        b.bs,
        has_luma,
        is_intra != 0,
        f.intra_region,
        a,
        l,
        nb,
        msac,
    );
    let from_edges: bool = is_intra != 0 && intrabc == 0;
    let skip_txfm: u8 = read_skip_txfm(fi, seg.seg_id, from_edges, skip_mode, a, l, nx, msac);
    let seg: SegRead = read_segid_after_skip(
        fi,
        &b,
        has_luma,
        skip_txfm != 0,
        seg,
        a,
        l,
        maps,
        msac,
    );
    BlockHead {
        seg_id: seg.seg_id,
        seg_pred: seg.seg_pred,
        skip_mode,
        is_intra,
        intrabc,
        skip_txfm,
    }
}

/// What is coded for a block that is predicted from its edges.
#[derive(Debug, Clone, Copy, PartialEq, Eq, Structural)]
pub struct IntraSyntax {
    pub luma: LumaMode,
    pub fsc: u8,
    pub mrl_index: u8,
    pub multi_mrl: u8,
    pub chroma: ChromaMode,
    pub pal_sz: u8,
    pub dip: u8,
}

/// A block of which nothing is known yet.
pub open spec fn blank_intra() -> IntraSyntax {
    IntraSyntax {
        luma: LumaMode { dpcm: false, y_mode: 0, y_angle: 0, midx: 0xff },
        fsc: 0,
        mrl_index: 0,
        multi_mrl: 0,
        chroma: plain_chroma(false, 0, 0),
        pal_sz: 0,
        dip: 0,
    }
}

pub fn new_intra() -> (r: IntraSyntax)
    ensures
        r == blank_intra(),
{
    IntraSyntax {
        luma: LumaMode { dpcm: false, y_mode: 0, y_angle: 0, midx: 0xff },
        fsc: 0,
        mrl_index: 0,
        multi_mrl: 0,
        chroma: ChromaMode {
            dpcm: false,
            uv_mode: 0,
            uv_angle: 0,
            cfl_type: 0,
            alpha_u: 0,
            alpha_v: 0,
            mh_dir: 0,
        },
        pal_sz: 0,
        dip: 0,
    }
}

impl IntraSyntax {
    pub open spec fn valid(self) -> bool {
        &&& self.luma.y_mode <= 12
        &&& is_midx(self.luma.midx)
        &&& self.fsc <= 1
        &&& self.mrl_index <= 3
        &&& self.multi_mrl <= 1
        &&& self.chroma.uv_mode <= CFL_PRED
    }
}

/// The luma mode with what refines its reference samples.
#[verifier::opaque]
pub open spec fn with_luma_mode(
    s: Sym,
    fi: SbFrameInfo,
    f: Leaf,
    lossless: bool,
    a: BlockContext,
    l: BlockContext,
    x: IntraSyntax,
) -> (IntraSyntax, Sym) {
    let b = f.pos();
    let nb = leaf_neighbours(fi, f);
    let (luma, s) = luma_mode(s, fi, b, lossless, a, l);
    let (fsc, s) = fsc_flag(s, fi, b.bs, f.intra_region, nb, a, l);
    let ((mrl, multi), s) = mrl_read(s, fi, luma, nb, a, l);
    (IntraSyntax { luma, fsc: fsc as u8, mrl_index: mrl as u8, multi_mrl: multi as u8, ..x }, s)
}

fn read_luma(
    fi: &SbFrameInfo,
    f: &Leaf,
    b: &BlockPos,
    lossless: bool,
    nb: &SbNb,
    a: &BlockContext,
    l: &BlockContext,
    x: &mut IntraSyntax,
    msac: &mut MsacContext,
)
    requires
        f.valid(*fi),
        *b == f.pos(),
        *nb == leaf_neighbours(*fi, *f),
        nb.p0.off < 64,
        nb.p1.off < 64,
        a.wf(),
        l.wf(),
        old(x).valid(),
    ensures
        (*final(x), final(msac)@) == with_luma_mode(
            old(msac)@,
            *fi,
            *f,
            lossless,
            *a,
            *l,
            *old(x),
        ),
        final(x).valid(),
{
    proof {
        reveal(with_luma_mode);
    }
    x.luma = read_luma_mode(fi, b, lossless, a, l, msac);
    x.fsc = read_fsc(fi, b.bs, f.intra_region, nb, a, l, msac);
    let (mrl, multi) = read_mrl(fi, &x.luma, nb, a, l, msac);
    x.mrl_index = mrl;
    x.multi_mrl = multi;
}

/// The palette size and the matrix mode of a luma block.
#[verifier::opaque]
pub open spec fn with_palette(
    s: Sym,
    fi: SbFrameInfo,
    f: Leaf,
    a: BlockContext,
    l: BlockContext,
    x: IntraSyntax,
) -> (IntraSyntax, Sym) {
    let b = f.pos();
    let (pal, s) = palette_size(s, fi, b.bs, x.luma.y_mode);
    let (dip, s) = dip_mode(s, fi, b.bs, x.luma.y_mode, pal, leaf_neighbours(fi, f), a, l);
    (IntraSyntax { pal_sz: pal as u8, dip: dip as u8, ..x }, s)
}

fn read_palette(
    fi: &SbFrameInfo,
    f: &Leaf,
    b: &BlockPos,
    nb: &SbNb,
    a: &BlockContext,
    l: &BlockContext,
    x: &mut IntraSyntax,
    msac: &mut MsacContext,
)
    requires
        f.valid(*fi),
        *b == f.pos(),
        *nb == leaf_neighbours(*fi, *f),
        nb.p0.off < 64,
        nb.p1.off < 64,
        old(x).valid(),
    ensures
        (*final(x), final(msac)@) == with_palette(old(msac)@, *fi, *f, *a, *l, *old(x)),
        final(x).valid(),
        final(x).fsc == old(x).fsc,
{
    proof {
        reveal(with_palette);
    }
    x.pal_sz = read_palette_size(fi, b.bs, x.luma.y_mode, msac);
    x.dip = read_dip(fi, b.bs, x.luma.y_mode, x.pal_sz, nb, a, l, msac);
}

/// All that is coded for a block that is predicted from its edges. `midx` is
/// the direction of the luma block that covers a leaf without luma. A chroma
/// mode that does not exist is an error.
pub open spec fn intra_syntax(
    s: Sym,
    fi: SbFrameInfo,
    f: Leaf,
    lossless: bool,
    midx: u8,
    a: BlockContext,
    l: BlockContext,
) -> (Option<IntraSyntax>, Sym) {
    let (x, s) = if f.has_luma() {
        with_luma_mode(s, fi, f, lossless, a, l, blank_intra())
    } else {
        (blank_intra(), s)
    };
    let (chroma, s) = if f.has_chroma() {
        chroma_mode(
            s,
            fi,
            f.pos().bs,
            f.cbs,
            f.cbx as int % 64,
            f.cby as int % 64,
            lossless,
            f.cfl_disallowed,
            if f.has_luma() { x.luma.midx } else { midx },
            a,
            l,
        )
    } else {
        (Some(plain_chroma(false, 0, 0)), s)
    };
    match chroma {
        None => (None, s),
        Some(c) => {
            let x = IntraSyntax { chroma: c, ..x };
            if f.has_luma() {
                let (x, s) = with_palette(s, fi, f, a, l, x);
                (Some(x), s)
            } else {
                (Some(x), s)
            }
        },
    }
}

pub fn read_intra(
    fi: &SbFrameInfo,
    f: &Leaf,
    lossless: bool,
    midx: u8,
    nb: &SbNb,
    a: &BlockContext,
    l: &BlockContext,
    msac: &mut MsacContext,
) -> (r: Option<IntraSyntax>)
    requires
        f.valid(*fi),
        *nb == leaf_neighbours(*fi, *f),
        nb.p0.off < 64,
        nb.p1.off < 64,
        a.wf(),
        l.wf(),
        is_midx(midx),
    ensures
        (r, final(msac)@) == intra_syntax(old(msac)@, *fi, *f, lossless, midx, *a, *l),
        r matches Some(x) ==> x.valid(),
{
    let has_luma: bool = f.lbs != BlockSize::Invalid;
    let b: BlockPos = BlockPos { bx: f.bx, by: f.by, bs: if has_luma { f.lbs } else { f.cbs } };
    let mut x: IntraSyntax = new_intra();
    if has_luma {
        read_luma(fi, f, &b, lossless, nb, a, l, &mut x, msac);
    }
    if f.cbs != BlockSize::Invalid {
        let dir: u8 = if has_luma { x.luma.midx } else { midx };
        proof {
            lemma_block_dimensions(f.cbs);
        }
        let chroma: Option<ChromaMode> = read_chroma_mode(
            fi,
            b.bs,
            f.cbs,
            (f.cbx % 64) as usize,
            (f.cby % 64) as usize,
            lossless,
            f.cfl_disallowed,
            dir,
            a,
            l,
            msac,
        );
        match chroma {
            None => {
                return None;
            },
            Some(c) => {
                x.chroma = c;
            },
        }
    } else {
        x.chroma = ChromaMode {
            dpcm: false,
            uv_mode: 0,
            uv_angle: 0,
            cfl_type: 0,
            alpha_u: 0,
            alpha_v: 0,
            mh_dir: 0,
        };
    }
    if has_luma {
        read_palette(fi, f, &b, nb, a, l, &mut x, msac);
    }
    Some(x)
}

/// What is coded for a block that is copied from its own frame.
#[derive(Debug, Clone, Copy, PartialEq, Eq, Structural)]
pub struct CopySyntax {
    pub is_refmv: u8,
    pub drl: u8,
    pub is_qpel: u8,
    pub mvd: MvXY,
    pub morph_pred: u8,
}

/// A block of which nothing is known yet.
pub open spec fn blank_copy() -> CopySyntax {
    CopySyntax { is_refmv: 0, drl: 0, is_qpel: 0, mvd: MvXY { y: 0, x: 0 }, morph_pred: 0 }
}

/// A component with the sign that a bit gives it.
pub open spec fn bit_signed(s: Sym, v: int) -> (int, Sym) {
    if v == 0 {
        (v, s)
    } else {
        let (neg, s) = s.bits(1);
        (if neg != 0 { -v } else { v }, s)
    }
}

fn read_bit_sign(v: i32, msac: &mut MsacContext) -> (r: i32)
    requires
        0 <= v,
    ensures
        (r as int, final(msac)@) == bit_signed(old(msac)@, v as int),
{
    if v != 0 && msac.decode_bools_bypass(1) != 0 { -v } else { v }
}

/// All that is coded for a block that is copied from its own frame.
#[verifier::opaque]
pub open spec fn copy_syntax(
    s: Sym,
    fi: SbFrameInfo,
    nb: SbNb,
    a: BlockContext,
    l: BlockContext,
) -> (CopySyntax, Sym) {
    let (refmv, s) = s.flag(Cdf::IntraBcMode);
    let (drl, s) = drl_index(s, DrlKind::Copied, 0, fi.max_bvp_drl_bits as int);
    let (qpel, s) = if refmv == 0 && !fi.force_integer_mv {
        s.flag(Cdf::IntraBcPrecision)
    } else {
        (b2i(!fi.force_integer_mv), s)
    };
    let ((y, x), s) = if refmv == 0 {
        let ((y, x), s) = mv_residual(s, 3 + 2 * qpel);
        let (y, s) = bit_signed(s, y);
        let (x, s) = bit_signed(s, x);
        ((y, x), s)
    } else {
        ((0, 0), s)
    };
    let (morph, s) = if !fi.is_inter_or_switch && fi.bawp && fi.allow_screen_content_tools {
        s.flag(Cdf::MorphPred(nb_sum_present(a.morph_pred, l.morph_pred, nb) as usize))
    } else {
        (0, s)
    };
    (
        CopySyntax {
            is_refmv: refmv as u8,
            drl: drl as u8,
            is_qpel: qpel as u8,
            mvd: MvXY { y: y as i32, x: x as i32 },
            morph_pred: morph as u8,
        },
        s,
    )
}

pub fn read_copy(
    fi: &SbFrameInfo,
    nb: &SbNb,
    a: &BlockContext,
    l: &BlockContext,
    msac: &mut MsacContext,
) -> (r: CopySyntax)
    requires
        nb.p0.off < 64,
        nb.p1.off < 64,
    ensures
        (r, final(msac)@) == copy_syntax(old(msac)@, *fi, *nb, *a, *l),
        r.morph_pred <= 1,
{
    proof {
        reveal(copy_syntax);
    }
    let is_refmv: u8 = msac.decode_bool_adapt(Cdf::IntraBcMode) as u8;
    let drl: u8 = read_drl_index(DrlKind::Copied, 0, fi.max_bvp_drl_bits, msac);
    let is_qpel: u8 = if is_refmv == 0 && !fi.force_integer_mv {
        msac.decode_bool_adapt(Cdf::IntraBcPrecision) as u8
    } else if fi.force_integer_mv {
        0
    } else {
        1
    };
    let mut mvd: MvXY = MvXY { y: 0, x: 0 };
    if is_refmv == 0 {
        let mv: Mv = read_mv_full(msac, 3 + 2 * is_qpel as i32);
        let y: i32 = read_bit_sign(mv.c.y, msac);
        let x: i32 = read_bit_sign(mv.c.x, msac);
        mvd = MvXY { y, x };
    }
    let morph_pred: u8 = if !fi.is_inter_or_switch && fi.bawp && fi.allow_screen_content_tools {
        let ctx: usize = sum_present(&a.morph_pred, &l.morph_pred, nb);
        msac.decode_bool_adapt(Cdf::MorphPred(ctx)) as u8
    } else {
        0
    };
    CopySyntax { is_refmv, drl, is_qpel, mvd, morph_pred }
}

/// A magnitude is followed by a bit for its sign unless it is zero: a set bit
/// makes it negative.
pub proof fn law_set_bit_makes_a_component_negative(s: Sym, v: int)
    requires
        0 <= v,
    ensures
        ({
            let (r, t) = bit_signed(s, v);
            let n = s.asked.len() as int;
            &&& r == v || r == -v
            &&& v == 0 ==> t == s
            &&& v > 0 ==> t.asked == s.asked.push(Request::Bits(1)) && (r < 0 <==> t.got(n) != 0)
        }),
{
}

/// A copy first tells whether it moves by its candidate alone. One that does
/// codes no difference.
pub proof fn law_copies_tell_whether_they_differ(
    s: Sym,
    fi: SbFrameInfo,
    nb: SbNb,
    a: BlockContext,
    l: BlockContext,
)
    requires
        0 <= fi.max_bvp_drl_bits <= 8,
    ensures
        ({
            let (c, t) = copy_syntax(s, fi, nb, a, l);
            let n = s.asked.len() as int;
            &&& c.is_refmv == s.ask(Request::Bool(Cdf::IntraBcMode)).0
            &&& c.is_refmv != 0 ==> c.mvd.y == 0 && c.mvd.x == 0
            &&& fi.force_integer_mv ==> c.is_qpel == 0
            &&& !fi.force_integer_mv && c.is_refmv != 0 ==> c.is_qpel == 1
            &&& fi.is_inter_or_switch || !fi.bawp || !fi.allow_screen_content_tools
                ==> c.morph_pred == 0
        }),
{
    reveal(copy_syntax);
}

/// The block that a leaf is decoded as has the size of luma where it has luma,
/// and that of chroma otherwise; without luma it looks at no neighbours.
pub proof fn law_leaf_is_its_luma(fi: SbFrameInfo, f: Leaf)
    ensures
        f.pos().bx == f.bx,
        f.pos().by == f.by,
        f.lbs != BlockSize::Invalid ==> f.pos().bs == f.lbs,
        f.lbs == BlockSize::Invalid ==> f.pos().bs == f.cbs,
        f.lbs == BlockSize::Invalid ==> leaf_neighbours(fi, f).n == 0,
{
}

/// What was coded first decides over what follows: a block that skips all
/// syntax has no intra prediction, only intra blocks are copied, and chroma
/// alone is not.
pub proof fn law_head_flags_exclude_each_other(
    s: Sym,
    fi: SbFrameInfo,
    f: Leaf,
    a: BlockContext,
    l: BlockContext,
    cur: Seq<u8>,
    prev: Option<Seq<u8>>,
)
    ensures
        ({
            let (h, t) = block_head(s, fi, f, a, l, cur, prev);
            &&& h.intrabc != 0 ==> h.is_intra != 0 && f.has_luma() && fi.allow_intrabc
            &&& f.intra_region ==> h.skip_mode == 0
        }),
{
    reveal(block_head);
    reveal(intrabc_flag);
    reveal(skip_mode_flag);
}

/// A leaf without chroma has no chroma mode, and one without luma no luma mode,
/// palette or matrix.
pub proof fn law_missing_planes_have_no_mode(
    s: Sym,
    fi: SbFrameInfo,
    f: Leaf,
    lossless: bool,
    midx: u8,
    a: BlockContext,
    l: BlockContext,
)
    ensures
        ({
            let (r, t) = intra_syntax(s, fi, f, lossless, midx, a, l);
            &&& !f.has_chroma() ==> (r matches Some(x) && !x.chroma.dpcm && x.chroma.uv_mode == 0
                && x.chroma.uv_angle == 0)
            &&& !f.has_luma() ==> (r matches Some(x) ==> x.luma.y_mode == 0 && x.luma.midx == 0xff
                && !x.luma.dpcm && x.pal_sz == 0 && x.dip == 0 && x.fsc == 0 && x.mrl_index == 0)
            &&& !f.has_luma() && !f.has_chroma() ==> t == s
        }),
{
    reveal(with_palette);
    reveal(with_luma_mode);
}

} // verus!
