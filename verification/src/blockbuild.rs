//! From the syntax of a block to what is done with it: its motion, what it
//! leaves for the motion of others, the steps that build it, and the
//! coefficients that are read for them.
use vstd::prelude::*;

use crate::blockdec::Leaf;
use crate::decodeb::BlockSyntax;
use crate::frameinfo::SbFrameInfo;
use crate::headers::WarpedMotionType;
use crate::interplan::{
    inter_parts, inter_steps, list_inter_parts, recon_b_inter, InterBlock, InterStep,
};
use crate::intraplan::{intra_steps, recon_b_intra, IntraStep};
use crate::levels::{BlockSize, MotionMode, Mv, MvXY, GLOBAL_MV_GLOBAL_MV};
use crate::motion::{
    block_motion, block_samples, find_motion_kind, motion_fits, motion_kind, resolve_motion,
    BlockMotion, LocalWarp, MotionFrame, MotionKind,
};
use crate::msac::{MsacContext, Sym};
use crate::splat::{
    copied_entry, copy_entry, follows_global, intra_entry, pair_entry, pair_is_kept, single_entry,
    splat_kind, splat_oneref_mv, splat_tworef_mv, still_entry,
};
use crate::splitblock::{ChromaPhase, ReconBlock};
use crate::warp::{unit_at, MvBlock, MvTile, WarpSample};

verus! {

/// How many columns after `bx` unit number `k` of the superblock rows lies.
pub open spec fn unit_x(k: int, bx: int) -> int {
    (k % 128 - bx) % 128
}

/// How many lines after `by` unit number `k` of the superblock rows lies.
pub open spec fn unit_y(k: int, by: int) -> int {
    (k / 128 - by) % 64
}

/// `t1` is `t0` with every unit of a block set to `e`, at its place in the
/// block.
pub open spec fn grid_filled(
    t0: MvTile,
    t1: MvTile,
    bx: int,
    by: int,
    w: int,
    h: int,
    e: MvBlock,
) -> bool {
    &&& t1.r@.len() == t0.r@.len()
    &&& forall|k: int|
        0 <= k < t0.r@.len() ==> #[trigger] t1.r@[k] == (if unit_x(k, bx) < w && unit_y(k, by) < h {
            MvBlock { ox4: unit_x(k, bx) as u8, oy4: unit_y(k, by) as u8, ..e }
        } else {
            t0.r@[k]
        })
    &&& t1.ra == t0.ra
    &&& t1.ra_off == t0.ra_off
    &&& t1.ra_tl == t0.ra_tl
}

proof fn lemma_unit_at(bx: int, by: int, x: int, y: int)
    requires
        0 <= bx,
        0 <= by,
        0 <= x < 128,
        0 <= y < 64,
    ensures
        0 <= unit_at(bx + x, by + y) < 64 * 128,
        unit_x(unit_at(bx + x, by + y), bx) == x,
        unit_y(unit_at(bx + x, by + y), by) == y,
{
    let k = unit_at(bx + x, by + y);
    let a = (bx + x) % 128;
    let b = (by + y) % 64;
    assert(k % 128 == a && k / 128 == b);
    assert((a - bx) % 128 == x);
    assert((b - by) % 64 == y);
}

proof fn lemma_unit_is(bx: int, by: int, k: int)
    requires
        0 <= bx,
        0 <= by,
        0 <= k < 64 * 128,
    ensures
        k == unit_at(bx + unit_x(k, bx), by + unit_y(k, by)),
        0 <= unit_x(k, bx) < 128,
        0 <= unit_y(k, by) < 64,
{
    let x = unit_x(k, bx);
    let y = unit_y(k, by);
    assert((bx + x) % 128 == k % 128);
    assert((by + y) % 64 == k / 128);
}

/// The unit at a position within a block that was recorded holds the motion of
/// the block, and tells where in it the position is.
pub proof fn law_recorded_unit(
    t0: MvTile,
    t1: MvTile,
    bx: int,
    by: int,
    w: int,
    h: int,
    e: MvBlock,
    x: int,
    y: int,
)
    requires
        grid_filled(t0, t1, bx, by, w, h, e),
        t0.r@.len() == 64 * 128,
        0 <= bx,
        0 <= by,
        w <= 64,
        h <= 64,
        0 <= x < w,
        0 <= y < h,
    ensures
        t1.unit(bx + x, by + y) == (MvBlock { ox4: x as u8, oy4: y as u8, ..e }),
{
    lemma_unit_at(bx, by, x, y);
}

/// Records the motion of a block in all its units.
fn fill_grid(t: &mut MvTile, bx: i32, by: i32, w: i32, h: i32, e: &MvBlock)
    requires
        old(t).wf(),
        e.wf(),
        0 <= bx <= 0x1_0000,
        0 <= by <= 0x1_0000,
        w == e.bs.w4(),
        h == e.bs.h4(),
        1 <= w <= 64,
        1 <= h <= 64,
    ensures
        grid_filled(*old(t), *final(t), bx as int, by as int, w as int, h as int, *e),
        final(t).wf(),
{
    let ghost t0 = *t;
    let mut y: i32 = 0;
    while y < h
        invariant
            0 <= y <= h <= 64,
            1 <= w <= 64,
            0 <= bx <= 0x1_0000,
            0 <= by <= 0x1_0000,
            t0.r@.len() == 64 * 128,
            grid_filled(t0, *t, bx as int, by as int, w as int, y as int, *e),
        decreases h - y,
    {
        let ghost t1 = *t;
        let mut x: i32 = 0;
        while x < w
            invariant
                0 <= y < h <= 64,
                0 <= x <= w <= 64,
                0 <= bx <= 0x1_0000,
                0 <= by <= 0x1_0000,
                t1.r@.len() == 64 * 128,
                t.r@.len() == 64 * 128,
                t.ra == t1.ra,
                t.ra_off == t1.ra_off,
                t.ra_tl == t1.ra_tl,
                forall|k: int|
                    0 <= k < 64 * 128 ==> #[trigger] t.r@[k] == (if unit_x(k, bx as int) < x
                        && unit_y(k, by as int) == y {
                        MvBlock {
                            ox4: unit_x(k, bx as int) as u8,
                            oy4: unit_y(k, by as int) as u8,
                            ..*e
                        }
                    } else {
                        t1.r@[k]
                    }),
            decreases w - x,
        {
            let mut unit: MvBlock = *e;
            unit.ox4 = x as u8;
            unit.oy4 = y as u8;
            let at: usize = ((by + y) % 64 * 128 + (bx + x) % 128) as usize;
            proof {
                lemma_unit_at(bx as int, by as int, x as int, y as int);
                assert forall|k: int|
                    0 <= k < 64 * 128 && k != at implies !(unit_x(k, bx as int) == x && unit_y(
                    k,
                    by as int,
                ) == y) by {
                    lemma_unit_is(bx as int, by as int, k);
                }
                assert forall|k: int| 0 <= k < 64 * 128 implies 0 <= #[trigger] unit_x(
                    k,
                    bx as int,
                ) by {
                    lemma_unit_is(bx as int, by as int, k);
                }
            }
            t.r[at] = unit;
            x = x + 1;
        }
        proof {
            assert forall|k: int| 0 <= k < 64 * 128 implies #[trigger] t.r@[k] == (if unit_x(
                k,
                bx as int,
            ) < w && unit_y(k, by as int) < y + 1 {
                MvBlock {
                    ox4: unit_x(k, bx as int) as u8,
                    oy4: unit_y(k, by as int) as u8,
                    ..*e
                }
            } else {
                t0.r@[k]
            }) by {
                assert(t1.r@[k] == t1.r@[k]);
            }
        }
        y = y + 1;
    }
    proof {
        assert forall|k: int| 0 <= k < t.r@.len() implies (#[trigger] t.r@[k]).wf() by {
            lemma_unit_is(bx as int, by as int, k);
            assert(t0.r@[k].wf());
        }
    }
}

/// What a block leaves for the motion of others.
pub open spec fn block_entry(
    fi: SbFrameInfo,
    mf: MotionFrame,
    f: Leaf,
    x: BlockSyntax,
    m: BlockMotion,
    e: MvBlock,
) -> bool {
    let mode = x.inter.inter_mode as int;
    match motion_kind(fi, f, x) {
        MotionKind::Coded => false,
        MotionKind::Still => still_entry(f.lbs, e),
        MotionKind::Copy => copied_entry(f.lbs, Mv { c: m.copy }, e),
        MotionKind::Single => single_entry(
            e,
            f.lbs,
            x.inter.ref0,
            Mv { c: m.mv0 },
            x.inter.filter,
            splat_kind(
                x.inter.motion_mode > MotionMode::InterIntra as int,
                mode,
                f.lbs.w4(),
                f.lbs.h4(),
                mf.gmv[x.inter.ref0 as int].wm_type,
            ),
            follows_global(mode, f.lbs.w4(), f.lbs.h4()),
            m.warp,
        ),
        MotionKind::Skip | MotionKind::Pair => pair_entry(
            e,
            f.lbs,
            x.inter.ref0,
            x.inter.ref1,
            Mv { c: m.mv0 },
            Mv { c: m.mv1 },
            x.inter.filter,
            m.weight as int,
            mode == GLOBAL_MV_GLOBAL_MV && f.lbs.w4() > 1 && f.lbs.h4() > 1,
        ),
    }
}

/// The motion around later blocks, after the block.
pub open spec fn grid_after(
    fi: SbFrameInfo,
    mf: MotionFrame,
    f: Leaf,
    x: BlockSyntax,
    m: BlockMotion,
    t0: MvTile,
    t1: MvTile,
) -> bool {
    if motion_kind(fi, f, x) == MotionKind::Coded {
        t1 == t0
    } else {
        exists|e: MvBlock| #[trigger]
            block_entry(fi, mf, f, x, m, e) && grid_filled(
                t0,
                t1,
                f.bx as int,
                f.by as int,
                f.lbs.w4(),
                f.lbs.h4(),
                e,
            )
    }
}

fn record_motion(
    fi: &SbFrameInfo,
    mf: &MotionFrame,
    f: &Leaf,
    x: &BlockSyntax,
    m: &BlockMotion,
    t: &mut MvTile,
)
    requires
        f.valid(*fi),
        f.bx <= 0x1_0000,
        f.by <= 0x1_0000,
        old(t).wf(),
        motion_fits(motion_kind(*fi, *f, *x), *m),
        motion_kind(*fi, *f, *x) == MotionKind::Single ==> 0 <= x.inter.ref0 < 7,
    ensures
        grid_after(*fi, *mf, *f, *x, *m, *old(t), *final(t)),
        final(t).wf(),
{
    let kind: MotionKind = find_motion_kind(fi, f, x);
    if kind == MotionKind::Coded {
        return;
    }
    let d: [u8; 4] = f.lbs.dim();
    let e: MvBlock = match kind {
        MotionKind::Coded | MotionKind::Still => intra_entry(f.lbs),
        MotionKind::Copy => copy_entry(f.lbs, Mv { c: m.copy }),
        MotionKind::Single => {
            let (_, e) = splat_oneref_mv(
                f.lbs,
                x.inter.ref0,
                Mv { c: m.mv0 },
                x.inter.filter,
                x.inter.motion_mode > MotionMode::InterIntra as u8,
                x.inter.inter_mode,
                mf.gmv[x.inter.ref0 as usize].wm_type,
                &m.warp,
            );
            e
        },
        MotionKind::Skip | MotionKind::Pair => {
            let (_, e) = splat_tworef_mv(
                f.lbs,
                [x.inter.ref0, x.inter.ref1],
                [Mv { c: m.mv0 }, Mv { c: m.mv1 }],
                x.inter.filter,
                m.weight,
                x.inter.inter_mode,
                x.inter.refine_mv != 0,
                x.inter.comp_type,
                mf.kept,
            );
            e
        },
    };
    proof {
        assert(block_entry(*fi, *mf, *f, *x, *m, e));
        assert(e.wf()) by {
            assert(e.mv[0] == e.mv[0] && e.mv[1] == e.mv[1]);
            assert(e.lmv[0] == e.lmv[0] && e.lmv[1] == e.lmv[1]);
        }
    }
    fill_grid(t, f.bx, f.by, d[0] as i32, d[1] as i32, &e);
}

/// How the motion of a block enters the bank of earlier motion: it is added, or
/// only counted.
#[derive(Debug, Clone, Copy, PartialEq, Eq, Structural)]
pub enum BankStep {
    Nothing,
    Count,
    Add,
}

pub open spec fn bank_step(mf: MotionFrame, k: MotionKind) -> BankStep {
    if !mf.refmv_bank || k == MotionKind::Coded {
        BankStep::Nothing
    } else if k == MotionKind::Still {
        BankStep::Count
    } else {
        BankStep::Add
    }
}

/// Whether later blocks can take over the warp of the block.
pub open spec fn banks_warp(k: MotionKind, x: BlockSyntax, m: BlockMotion) -> bool {
    k == MotionKind::Single && x.inter.motion_mode > MotionMode::InterIntra as int && m.warp.wm_type
        != WarpedMotionType::Invalid
}

/// Whether later frames see the motion of the block.
pub open spec fn keeps_motion(mf: MotionFrame, k: MotionKind, x: BlockSyntax) -> bool {
    match k {
        MotionKind::Single => mf.kept,
        MotionKind::Skip | MotionKind::Pair => pair_is_kept(
            mf.kept,
            x.inter.inter_mode as int,
            x.inter.refine_mv != 0,
            x.inter.comp_type as int,
        ),
        _ => false,
    }
}

/// The steps by which a block is built.
#[derive(Debug)]
pub enum BlockPlan {
    Intra(Vec<IntraStep>),
    Inter(Vec<InterStep>),
}

/// The block as its reconstruction sees it.
pub open spec fn recon_block(f: Leaf) -> ReconBlock {
    ReconBlock { bx: f.bx, by: f.by, cbx: f.cbx, cby: f.cby, lbs: f.lbs, cbs: f.cbs }
}

/// `b` tells how the block is predicted from other frames.
pub open spec fn is_inter_block(b: InterBlock, x: BlockSyntax, m: BlockMotion) -> bool {
    &&& b.refs[0] == x.inter.ref0
    &&& b.refs[1] == x.inter.ref1
    &&& b.mv[0].c == m.mv0
    &&& b.mv[1].c == m.mv1
    &&& b.filter == x.inter.filter
    &&& b.comp_type == x.inter.comp_type
    &&& b.cwp_idx == m.weight
    &&& b.wedge_idx == x.inter.wedge_idx
    &&& b.wedge_sign == x.inter.wedge_sign
    &&& b.mask_sign == x.inter.mask_sign
    &&& b.inter_mode == x.inter.inter_mode
    &&& b.motion_mode == x.inter.motion_mode
    &&& b.warp_ii == (x.inter.warp_ii != 0)
    &&& b.local_warp == (m.warp.wm_type != WarpedMotionType::Invalid)
    &&& b.local_affine == m.affine
}

/// The block has two references that are frames of their own.
pub open spec fn two_refs(x: BlockSyntax) -> bool {
    0 <= x.inter.ref1 < 7
}

/// `plan` builds the block.
pub open spec fn is_plan(
    fi: SbFrameInfo,
    mf: MotionFrame,
    f: Leaf,
    x: BlockSyntax,
    m: BlockMotion,
    t: MvTile,
    outside: Seq<bool>,
    plan: BlockPlan,
) -> bool {
    let k = recon_block(f);
    if x.head.is_intra != 0 {
        plan matches BlockPlan::Intra(v) && v@ == intra_steps(
            fi,
            k,
            if x.head.intrabc != 0 {
                Some(m.copy)
            } else {
                None
            },
        )
    } else {
        plan matches BlockPlan::Inter(v) && exists|b: InterBlock| #[trigger]
            is_inter_block(b, x, m) && v@ == inter_steps(fi, b, mf.inter, k, t, outside)
    }
}

/// Of the first `n` parts, whether a prediction lies outside of its reference.
pub open spec fn outside_read(s: Sym, n: int) -> (Seq<bool>, Sym)
    decreases n,
{
    if n <= 0 {
        (Seq::empty(), s)
    } else {
        let (v, s) = outside_read(s, n - 1);
        let (b, s) = s.outside(n - 1);
        (v.push(b), s)
    }
}

/// How many parts of the block are asked about; only blocks with two
/// references are.
pub open spec fn outside_count(fi: SbFrameInfo, f: Leaf, x: BlockSyntax) -> int {
    if x.head.is_intra == 0 && two_refs(x) {
        inter_parts(fi, recon_block(f)).len() as int
    } else {
        0
    }
}

/// Coefficients are read for the step. A block that skips them has none; but
/// chroma that is predicted from its edges always has.
pub open spec fn intra_step_reads(s: IntraStep, x: BlockSyntax) -> bool {
    match s {
        IntraStep::Copy(_) => false,
        IntraStep::Luma(_, _, _) => x.head.skip_txfm == 0,
        IntraStep::Chroma(phase, _, _, _, _) => (phase == ChromaPhase::Both || phase
            == ChromaPhase::ReadOnly) && !(x.head.intrabc != 0 && x.head.skip_txfm != 0),
    }
}

pub open spec fn inter_step_reads(s: InterStep, x: BlockSyntax) -> bool {
    (s == InterStep::LumaResidual || s == InterStep::ChromaResidual) && x.head.skip_txfm == 0
}

/// Of each step, whether coefficients are read for it.
pub open spec fn plan_reads(plan: BlockPlan, x: BlockSyntax) -> Seq<bool> {
    match plan {
        BlockPlan::Intra(v) => Seq::new(v@.len(), |i: int| intra_step_reads(v@[i], x)),
        BlockPlan::Inter(v) => Seq::new(v@.len(), |i: int| inter_step_reads(v@[i], x)),
    }
}

/// The coefficients of the steps from the `n`-th on, in order: whether all of
/// them can be decoded. Reading stops at the first that cannot.
pub open spec fn coefs_read(s: Sym, reads: Seq<bool>, n: int) -> (bool, Sym)
    decreases reads.len() - n,
{
    if n >= reads.len() {
        (true, s)
    } else if !reads[n] {
        coefs_read(s, reads, n + 1)
    } else {
        let (ok, s) = s.coefs(n);
        if ok {
            coefs_read(s, reads, n + 1)
        } else {
            (false, s)
        }
    }
}

/// What becomes of a block.
#[derive(Debug)]
pub struct Built {
    pub plan: BlockPlan,
    /// The neighbours that its warp is fitted to.
    pub samples: Vec<WarpSample>,
    pub bank: BankStep,
    pub warp_bank: bool,
    pub kept: bool,
}

/// A block without luma is built from its own frame or from two others.
pub open spec fn buildable(f: Leaf, x: BlockSyntax) -> bool {
    x.head.is_intra != 0 || f.has_luma() || two_refs(x)
}

/// The block with the motion `m` is built, or its coefficients cannot be
/// decoded. `t` is the motion around later blocks, `before` that around this
/// one.
pub open spec fn block_built(
    fi: SbFrameInfo,
    mf: MotionFrame,
    f: Leaf,
    x: BlockSyntax,
    m: BlockMotion,
    before: MvTile,
    t: MvTile,
    s: Sym,
    s1: Sym,
    r: Option<Built>,
) -> bool {
    let k = motion_kind(fi, f, x);
    if !buildable(f, x) {
        r is None && s1 == s
    } else {
        let (outside, s) = outside_read(s, outside_count(fi, f, x));
        exists|plan: BlockPlan| #[trigger]
            is_plan(fi, mf, f, x, m, t, outside, plan) && {
                let (ok, s) = coefs_read(s, plan_reads(plan, x), 0);
                &&& s1 == s
                &&& match r {
                    None => !ok,
                    Some(b) => {
                        &&& ok
                        &&& b.plan == plan
                        &&& b.samples@ == block_samples(fi, f, x, before)
                        &&& b.bank == bank_step(mf, k)
                        &&& b.warp_bank == banks_warp(k, x, m)
                        &&& b.kept == keeps_motion(mf, k, x)
                    },
                }
            }
    }
}

fn read_outside(msac: &mut MsacContext, n: usize) -> (r: Vec<bool>)
    ensures
        (r@, final(msac)@) == outside_read(old(msac)@, n as int),
{
    let mut r: Vec<bool> = Vec::new();
    let ghost s0 = msac@;
    let mut i: usize = 0;
    assert(r@ =~= Seq::empty());
    while i < n
        invariant
            i <= n,
            (r@, msac@) == outside_read(s0, i as int),
        decreases n - i,
    {
        let b: bool = msac.outside(i);
        r.push(b);
        i = i + 1;
    }
    r
}

fn list_reads(plan: &BlockPlan, x: &BlockSyntax) -> (r: Vec<bool>)
    ensures
        r@ == plan_reads(*plan, *x),
{
    let mut r: Vec<bool> = Vec::new();
    match plan {
        BlockPlan::Intra(v) => {
            let mut i: usize = 0;
            while i < v.len()
                invariant
                    i <= v@.len(),
                    r@.len() == i,
                    forall|k: int| 0 <= k < i ==> #[trigger] r@[k] == intra_step_reads(v@[k], *x),
                decreases v@.len() - i,
            {
                let b: bool = match v[i] {
                    IntraStep::Copy(_) => false,
                    IntraStep::Luma(_, _, _) => x.head.skip_txfm == 0,
                    IntraStep::Chroma(phase, _, _, _, _) => (phase == ChromaPhase::Both || phase
                        == ChromaPhase::ReadOnly) && !(x.head.intrabc != 0 && x.head.skip_txfm
                        != 0),
                };
                r.push(b);
                i = i + 1;
            }
        },
        BlockPlan::Inter(v) => {
            let mut i: usize = 0;
            while i < v.len()
                invariant
                    i <= v@.len(),
                    r@.len() == i,
                    forall|k: int| 0 <= k < i ==> #[trigger] r@[k] == inter_step_reads(v@[k], *x),
                decreases v@.len() - i,
            {
                let b: bool = match v[i] {
                    InterStep::LumaResidual | InterStep::ChromaResidual => x.head.skip_txfm == 0,
                    _ => false,
                };
                r.push(b);
                i = i + 1;
            }
        },
    }
    assert(r@ =~= plan_reads(*plan, *x));
    r
}

fn read_coefs(msac: &mut MsacContext, reads: &Vec<bool>) -> (r: bool)
    ensures
        (r, final(msac)@) == coefs_read(old(msac)@, reads@, 0),
{
    let ghost s0 = msac@;
    let n: usize = reads.len();
    let mut i: usize = 0;
    while i < n
        invariant
            n == reads@.len(),
            i <= n,
            s0 == old(msac)@,
            coefs_read(msac@, reads@, i as int) == coefs_read(s0, reads@, 0),
        decreases n - i,
    {
        if reads[i] && !msac.coefs(i) {
            return false;
        }
        i = i + 1;
    }
    true
}

fn make_inter_block(x: &BlockSyntax, m: &BlockMotion) -> (b: InterBlock)
    ensures
        is_inter_block(b, *x, *m),
{
    InterBlock {
        refs: [x.inter.ref0, x.inter.ref1],
        mv: [Mv { c: m.mv0 }, Mv { c: m.mv1 }],
        filter: x.inter.filter,
        comp_type: x.inter.comp_type,
        cwp_idx: m.weight,
        wedge_idx: x.inter.wedge_idx,
        wedge_sign: x.inter.wedge_sign,
        mask_sign: x.inter.mask_sign,
        inter_mode: x.inter.inter_mode,
        motion_mode: x.inter.motion_mode,
        warp_ii: x.inter.warp_ii != 0,
        local_warp: m.warp.wm_type != WarpedMotionType::Invalid,
        local_affine: m.affine,
    }
}

fn make_plan(
    fi: &SbFrameInfo,
    mf: &MotionFrame,
    f: &Leaf,
    x: &BlockSyntax,
    m: &BlockMotion,
    t: &MvTile,
    msac: &mut MsacContext,
) -> (plan: BlockPlan)
    requires
        f.valid(*fi),
        f.bx <= 0x1_0000,
        f.by <= 0x1_0000,
        f.cbx <= 0x1_0000,
        f.cby <= 0x1_0000,
        mf.valid(),
        t.wf(),
        buildable(*f, *x),
    ensures
        ({
            let (outside, s) = outside_read(old(msac)@, outside_count(*fi, *f, *x));
            is_plan(*fi, *mf, *f, *x, *m, *t, outside, plan) && final(msac)@ == s
        }),
{
    let k: ReconBlock = ReconBlock {
        bx: f.bx,
        by: f.by,
        cbx: f.cbx,
        cby: f.cby,
        lbs: f.lbs,
        cbs: f.cbs,
    };
    if x.head.is_intra != 0 {
        let copy: Option<MvXY> = if x.head.intrabc != 0 { Some(m.copy) } else { None };
        return BlockPlan::Intra(recon_b_intra(fi, &k, copy));
    }
    let b: InterBlock = make_inter_block(x, m);
    let outside: Vec<bool> = if 0 <= x.inter.ref1 && x.inter.ref1 < 7 {
        let parts: Vec<ReconBlock> = list_inter_parts(fi, &k);
        read_outside(msac, parts.len())
    } else {
        read_outside(msac, 0)
    };
    let v: Vec<InterStep> = recon_b_inter(fi, &b, &mf.inter, &k, t, outside.as_slice());
    assert(is_inter_block(b, *x, *m));
    BlockPlan::Inter(v)
}

/// Builds a block from its syntax: finds its motion and records it for later
/// blocks, plans its steps, and reads their coefficients. `last` is the warp
/// that was derived last.
pub fn build_block(
    fi: &SbFrameInfo,
    mf: &MotionFrame,
    f: &Leaf,
    x: &BlockSyntax,
    t: &mut MvTile,
    last: LocalWarp,
    msac: &mut MsacContext,
) -> (r: (Option<BlockMotion>, Option<Built>))
    requires
        f.valid(*fi),
        f.bx <= 0x1_0000,
        f.by <= 0x1_0000,
        f.cbx <= 0x1_0000,
        f.cby <= 0x1_0000,
        mf.valid(),
        old(t).wf(),
    ensures
        final(t).wf(),
        ({
            let (m, s) = block_motion(old(msac)@, *fi, *mf, *f, *x, *old(t), last);
            &&& r.0 == m
            &&& match m {
                None => r.1 is None && *final(t) == *old(t) && final(msac)@ == s,
                Some(m) => {
                    &&& grid_after(*fi, *mf, *f, *x, m, *old(t), *final(t))
                    &&& block_built(
                        *fi,
                        *mf,
                        *f,
                        *x,
                        m,
                        *old(t),
                        *final(t),
                        s,
                        final(msac)@,
                        r.1,
                    )
                },
            }
        }),
{
    let mut samples: Vec<WarpSample> = Vec::new();
    let m: BlockMotion = match resolve_motion(fi, mf, f, x, t, last, &mut samples, msac) {
        Some(m) => m,
        None => {
            return (None, None);
        },
    };
    let ghost s = msac@;
    record_motion(fi, mf, f, x, &m, t);
    if x.head.is_intra == 0 && f.lbs == BlockSize::Invalid && !(0 <= x.inter.ref1 && x.inter.ref1
        < 7) {
        return (Some(m), None);
    }
    let plan: BlockPlan = make_plan(fi, mf, f, x, &m, t, msac);
    let reads: Vec<bool> = list_reads(&plan, x);
    let ok: bool = read_coefs(msac, &reads);
    let ghost p = plan;
    assert(is_plan(
        *fi,
        *mf,
        *f,
        *x,
        m,
        *t,
        outside_read(s, outside_count(*fi, *f, *x)).0,
        p,
    ));
    if !ok {
        return (Some(m), None);
    }
    let k: MotionKind = find_motion_kind(fi, f, x);
    let bank: BankStep = if !mf.refmv_bank || k == MotionKind::Coded {
        BankStep::Nothing
    } else if k == MotionKind::Still {
        BankStep::Count
    } else {
        BankStep::Add
    };
    let warp_bank: bool = k == MotionKind::Single && x.inter.motion_mode
        > MotionMode::InterIntra as u8 && m.warp.wm_type != WarpedMotionType::Invalid;
    let kept: bool = match k {
        MotionKind::Single => mf.kept,
        MotionKind::Skip | MotionKind::Pair => {
            let (kept, _) = splat_tworef_mv(
                f.lbs,
                [x.inter.ref0, x.inter.ref1],
                [Mv { c: m.mv0 }, Mv { c: m.mv1 }],
                x.inter.filter,
                m.weight,
                x.inter.inter_mode,
                x.inter.refine_mv != 0,
                x.inter.comp_type,
                mf.kept,
            );
            kept
        },
        _ => false,
    };
    (Some(m), Some(Built { plan, samples, bank, warp_bank, kept }))
}

} // verus!
