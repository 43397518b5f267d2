//! The luma of a block, transform block by transform block.
use vstd::arithmetic::div_mod::lemma_fundamental_div_mod;
use vstd::arithmetic::div_mod::lemma_fundamental_div_mod_converse;
use vstd::prelude::*;

use crate::coded::CodedGrid;
use crate::edges::EdgeBounds;
use crate::env::BlockContext;
use crate::error::{Rav2dError, Result};
use crate::intops::min;
use crate::levels::{TxPartition, PAETH_PRED};
use crate::lumatx::{
    effective_mode, luma_tx_plan, recon_b_luma_tx, IntraTools, LumaBlock, LumaTxPlan, RemappedAngle,
};
use crate::residual::{
    counted, inter_residual_tx, is_side, luma_context_after, luma_residual, marked, skipped_reply,
    types_recorded, units_inside, CoefReply, TxResidual, TxSite, TypeChange, SKIPPED_CTX,
};
use crate::txwalk::{
    all_tiles, covers_unit, inter_luma_tx_walk, kept, law_raster_covers_the_block,
    law_walk_covers_the_block, max0, raster_from, raster_walk, sizes_divide, tx_walk, TxSize, TxTile,
};

verus! {

/// How the luma of a block is divided: its position and size in units, the
/// partition of its transform, and the size of the frame.
#[derive(Debug, Clone, Copy, PartialEq, Eq, Structural)]
pub struct LumaGeom {
    pub bx: i32,
    pub by: i32,
    pub bw4: i32,
    pub bh4: i32,
    pub part: TxPartition,
    /// The size that the partition leads to.
    pub t: TxSize,
    /// The size of the large transform block in the middle of five.
    pub big: TxSize,
    pub lossless: bool,
    /// Whether a lossless block uses the largest size that it can have.
    pub tx_size_ll: bool,
    pub largest: TxSize,
    pub fw: i32,
    pub fh: i32,
}

impl LumaGeom {
    /// The size of the transform blocks of a lossless block.
    pub open spec fn lossless_size(self) -> TxSize {
        if self.tx_size_ll { self.largest } else { TxSize { w: 1, h: 1 } }
    }

    /// The transform blocks in the order in which they are decoded. Those of a
    /// lossless block go line by line.
    pub open spec fn tiles(self) -> Seq<TxTile> {
        let (bx, by, fw, fh) = (self.bx as int, self.by as int, self.fw as int, self.fh as int);
        if self.lossless {
            raster_from(
                self.lossless_size(),
                bx,
                by,
                min(self.bw4 as int, fw - bx),
                min(self.bh4 as int, fh - by),
                0,
                0,
            )
        } else {
            tx_walk(self.part, self.t, self.big, bx, by, fw, fh)
        }
    }

    pub open spec fn site(self, t: TxTile) -> TxSite {
        TxSite { t: t.size, bx: t.x, by: t.y, fw: self.fw, fh: self.fh }
    }

    /// The block lies in the frame, and its transform blocks divide it.
    pub open spec fn valid(self) -> bool {
        &&& 0 <= self.bx < self.fw <= 0x10_0000
        &&& 0 <= self.by < self.fh <= 0x10_0000
        &&& 1 <= self.bw4 <= 16
        &&& 1 <= self.bh4 <= 16
        &&& self.bx % 64 + self.bw4 <= 64
        &&& self.by % 64 + self.bh4 <= 64
        &&& is_side(self.t.w as int) && is_side(self.t.h as int)
        &&& is_side(self.big.w as int) && is_side(self.big.h as int)
        &&& is_side(self.largest.w as int) && is_side(self.largest.h as int)
        &&& if self.lossless {
            self.bw4 as int % self.lossless_size().w as int == 0 && self.bh4 as int
                % self.lossless_size().h as int == 0
        } else {
            sizes_divide(self.part, self.t, self.big, self.bw4 as int, self.bh4 as int)
        }
    }

    /// Lists the transform blocks.
    pub fn list_tiles(&self) -> (r: Vec<TxTile>)
        requires
            self.valid(),
        ensures
            r@ == self.tiles(),
            forall|k: int| 0 <= k < r@.len() ==> self.site(#[trigger] r@[k]).valid(),
    {
        proof {
            law_transform_blocks_lie_in_their_block(*self);
        }
        let r: Vec<TxTile> = if self.lossless {
            let t: TxSize = if self.tx_size_ll { self.largest } else { TxSize { w: 1, h: 1 } };
            raster_walk(t, self.bx, self.by, self.bw4, self.bh4, self.fw, self.fh)
        } else {
            inter_luma_tx_walk(self.part, self.t, self.big, self.bx, self.by, self.fw, self.fh)
        };
        assert(r@ == self.tiles());
        r
    }
}

/// The transform block lies in the block.
pub open spec fn within(g: LumaGeom, t: TxTile) -> bool {
    &&& g.bx <= t.x
    &&& t.x + t.size.w <= g.bx + g.bw4
    &&& g.by <= t.y
    &&& t.y + t.size.h <= g.by + g.bh4
    &&& is_side(t.size.w as int)
    &&& is_side(t.size.h as int)
}

proof fn lemma_kept_within(g: LumaGeom, tiles: Seq<TxTile>, n: int)
    requires
        0 <= n <= tiles.len(),
        forall|i: int| 0 <= i < tiles.len() ==> within(g, #[trigger] tiles[i]),
    ensures
        forall|k: int|
            0 <= k < kept(tiles, n, g.fw as int, g.fh as int).len() ==> within(
                g,
                #[trigger] kept(tiles, n, g.fw as int, g.fh as int)[k],
            ),
    decreases n,
{
    if n > 0 {
        lemma_kept_within(g, tiles, n - 1);
        let (before, s) = (
            kept(tiles, n - 1, g.fw as int, g.fh as int),
            kept(tiles, n, g.fw as int, g.fh as int),
        );
        assert forall|k: int| 0 <= k < s.len() implies within(g, #[trigger] s[k]) by {
            if k < before.len() {
                assert(s[k] == before[k]);
            } else {
                assert(s[k] == tiles[n - 1]);
            }
        }
    }
}

/// A multiple of a side below another has room for the side.
proof fn lemma_room(x: int, end: int, side: int)
    requires
        is_side(side),
        x % side == 0,
        end % side == 0,
        x < end,
    ensures
        x + side <= end,
        (x + side) % side == 0,
{
    lemma_fundamental_div_mod(x, side);
    lemma_fundamental_div_mod(end, side);
    let (p, q) = (x / side, end / side);
    assert(p < q) by (nonlinear_arith)
        requires
            side * p < side * q,
            side > 0,
    ;
    assert(side * p + side <= side * q) by (nonlinear_arith)
        requires
            p < q,
            side > 0,
    ;
    assert(x + side == (p + 1) * side) by (nonlinear_arith)
        requires
            x == side * p,
    ;
    lemma_fundamental_div_mod_converse(x + side, side, p + 1, 0);
}

proof fn lemma_raster_within(g: LumaGeom, t: TxSize, w4: int, h4: int, x: int, y: int)
    requires
        g.valid(),
        t == g.lossless_size(),
        g.lossless,
        w4 <= g.bw4,
        h4 <= g.bh4,
        0 <= x,
        0 <= y,
        x % t.w as int == 0,
        y % t.h as int == 0,
    ensures
        forall|k: int|
            0 <= k < raster_from(t, g.bx as int, g.by as int, w4, h4, x, y).len() ==> within(
                g,
                #[trigger] raster_from(t, g.bx as int, g.by as int, w4, h4, x, y)[k],
            ),
    decreases max0(h4 - y), max0(w4 - x),
{
    let (bx, by) = (g.bx as int, g.by as int);
    let s = raster_from(t, bx, by, w4, h4, x, y);
    if y >= h4 {
        assert(s.len() == 0);
    } else if x >= w4 {
        lemma_room(y, g.bh4 as int, t.h as int);
        assert(0int % t.w as int == 0);
        lemma_raster_within(g, t, w4, h4, 0, y + t.h);
        assert(s == raster_from(t, bx, by, w4, h4, 0, y + t.h));
    } else {
        lemma_room(x, g.bw4 as int, t.w as int);
        lemma_room(y, g.bh4 as int, t.h as int);
        lemma_raster_within(g, t, w4, h4, x + t.w, y);
        let rest = raster_from(t, bx, by, w4, h4, x + t.w, y);
        assert forall|k: int| 0 <= k < s.len() implies within(g, #[trigger] s[k]) by {
            if k > 0 {
                assert(s[k] == rest[k - 1]);
            }
        }
    }
}

/// The parts of a block lie in it.
proof fn lemma_parts_within(g: LumaGeom, i: int)
    requires
        g.valid(),
        !g.lossless,
        0 <= i < all_tiles(g.part, g.t, g.big, g.bx as int, g.by as int).len(),
    ensures
        within(g, all_tiles(g.part, g.t, g.big, g.bx as int, g.by as int)[i]),
{
    let tiles = all_tiles(g.part, g.t, g.big, g.bx as int, g.by as int);
    match g.part {
        TxPartition::Whole => {
            assert(i == 0);
        },
        TxPartition::Split => {
            assert(i == 0 || i == 1 || i == 2 || i == 3);
        },
        TxPartition::H => {
            assert(i == 0 || i == 1);
        },
        TxPartition::V => {
            assert(i == 0 || i == 1);
        },
        TxPartition::H4 => {
            assert(i == 0 || i == 1 || i == 2 || i == 3);
        },
        TxPartition::V4 => {
            assert(i == 0 || i == 1 || i == 2 || i == 3);
        },
        TxPartition::H5 => {
            assert(i == 0 || i == 1 || i == 2 || i == 3 || i == 4);
        },
        TxPartition::V5 => {
            assert(i == 0 || i == 1 || i == 2 || i == 3 || i == 4);
        },
    }
}

/// What lies in a span that does not cross an area does not cross it either.
proof fn lemma_same_area(at: int, len: int, x: int, n: int)
    requires
        0 <= at <= x,
        0 <= n,
        x + n <= at + len,
        at % 64 + len <= 64,
    ensures
        x % 64 + n <= 64,
{
}

/// No transform block reaches beyond its block.
pub proof fn law_transform_blocks_lie_in_their_block(g: LumaGeom)
    requires
        g.valid(),
    ensures
        forall|k: int| 0 <= k < g.tiles().len() ==> within(g, #[trigger] g.tiles()[k]),
        forall|k: int| 0 <= k < g.tiles().len() ==> g.site(#[trigger] g.tiles()[k]).valid(),
{
    let (bx, by, fw, fh) = (g.bx as int, g.by as int, g.fw as int, g.fh as int);
    let w4 = min(g.bw4 as int, fw - bx);
    let h4 = min(g.bh4 as int, fh - by);
    if g.lossless {
        let t = g.lossless_size();
        assert(0int % t.w as int == 0 && 0int % t.h as int == 0);
        lemma_raster_within(g, t, w4, h4, 0, 0);
    } else {
        let tiles = all_tiles(g.part, g.t, g.big, bx, by);
        assert forall|i: int| 0 <= i < tiles.len() implies within(g, #[trigger] tiles[i]) by {
            lemma_parts_within(g, i);
        }
        lemma_kept_within(g, tiles, tiles.len() as int);
    }
    let tiles = g.tiles();
    assert forall|k: int| 0 <= k < tiles.len() implies g.site(#[trigger] tiles[k]).valid() by {
        let t = tiles[k];
        assert(within(g, t));
        lemma_same_area(bx, g.bw4 as int, t.x as int, t.size.w as int);
        lemma_same_area(by, g.bh4 as int, t.y as int, t.size.h as int);
    }
}

/// A luma block that is predicted within its frame. `m` is its mode and angle,
/// adapted to the shape of its transform blocks, `m_big` the same for the large
/// one; `ddt_big` is the mask of the large one.
#[derive(Debug, Clone, Copy, PartialEq, Eq, Structural)]
pub struct LumaJob {
    pub b: LumaBlock,
    pub g: LumaGeom,
    pub f: IntraTools,
    pub t: EdgeBounds,
    pub m: RemappedAngle,
    pub m_big: RemappedAngle,
    pub ddt_big: Option<u16>,
}

impl LumaJob {
    pub open spec fn valid(self) -> bool {
        self.g.valid() && self.t.valid()
    }

    /// The block, placed where its transform blocks are.
    pub open spec fn block(self) -> LumaBlock {
        LumaBlock {
            tx_part: self.g.part,
            lossless: self.g.lossless,
            pb_col_start: self.g.bx,
            pb_row_start: self.g.by,
            ..self.b
        }
    }

    pub open spec fn angle(self, tile: TxTile) -> RemappedAngle {
        if tile.big { self.m_big } else { self.m }
    }

    /// What may be used for a transform block.
    pub open spec fn tools(self, tile: TxTile) -> IntraTools {
        IntraTools { ddt: if tile.big { self.ddt_big } else { self.f.ddt }, ..self.f }
    }
}

/// What the coefficients of a luma transform block are read with.
#[derive(Debug, Clone, Copy, PartialEq, Eq, Structural)]
pub struct LumaRequest {
    pub tile: TxTile,
    /// Whether the block counts as predicted within its frame.
    pub intra: bool,
    pub fsc: bool,
    pub lossless: bool,
    pub y_mode: u8,
    /// Where the contexts above and to the left begin.
    pub above: i32,
    pub left: i32,
}

/// What the coefficients that follow the first `done` transform blocks are
/// read with. Nothing is read where coefficients are skipped.
pub open spec fn luma_request(j: LumaJob, fsc: bool, done: int) -> Option<LumaRequest> {
    if j.b.skip_txfm || done >= j.g.tiles().len() {
        None
    } else {
        let tile = j.g.tiles()[done];
        Some(
            LumaRequest {
                tile,
                intra: !j.b.intrabc,
                fsc,
                lossless: j.g.lossless,
                y_mode: effective_mode(j.b, j.angle(tile)),
                above: (tile.x as int % 64) as i32,
                left: (tile.y as int % 64) as i32,
            },
        )
    }
}

pub fn next_luma_request(j: &LumaJob, fsc: bool, done: usize) -> (r: Option<LumaRequest>)
    requires
        j.valid(),
    ensures
        r == luma_request(*j, fsc, done as int),
{
    let tiles: Vec<TxTile> = j.g.list_tiles();
    if j.b.skip_txfm || done >= tiles.len() {
        return None;
    }
    let tile: TxTile = tiles[done];
    assert(j.g.site(tiles@[done as int]).valid());
    let m: RemappedAngle = if tile.big { j.m_big } else { j.m };
    Some(
        LumaRequest {
            tile,
            intra: !j.b.intrabc,
            fsc,
            lossless: j.g.lossless,
            y_mode: if !j.b.intrabc && j.b.y_mode <= PAETH_PRED { m.mode } else { j.b.y_mode },
            above: tile.x % 64,
            left: tile.y % 64,
        },
    )
}

/// What transform blocks change: the contexts above and to the left, and the
/// units that have been reconstructed.
pub ghost struct LumaState {
    pub a: BlockContext,
    pub l: BlockContext,
    pub coded: CodedGrid,
}

/// `s1` is `s0` after the transform block at `s`.
pub open spec fn tile_done(s: TxSite, c: CoefReply, s0: LumaState, s1: LumaState) -> bool {
    &&& luma_context_after(
        s0.a,
        s1.a,
        s.bx as int % 64,
        units_inside(s.t.w as int, s.fw as int, s.bx as int),
        c.res_ctx,
    )
    &&& luma_context_after(
        s0.l,
        s1.l,
        s.by as int % 64,
        units_inside(s.t.h as int, s.fh as int, s.by as int),
        c.res_ctx,
    )
    &&& marked(
        s0.coded,
        s1.coded,
        s.bx as int % 64,
        s.by as int % 64,
        s.t.w as int,
        s.t.h as int,
    )
}

/// `plan` is the plan of transform block `k`, and `s1` is `s0` after it.
pub open spec fn luma_step(
    j: LumaJob,
    reply: CoefReply,
    k: int,
    s0: LumaState,
    s1: LumaState,
    plan: LumaTxPlan,
) -> bool {
    let tile = j.g.tiles()[k];
    let s = j.g.site(tile);
    &&& plan == luma_tx_plan(j.block(), j.tools(tile), s, j.t, s0.coded, j.angle(tile), reply)
    &&& tile_done(s, counted(j.b.skip_txfm, reply), s0, s1)
}

/// The reply for transform block `k`; where coefficients are skipped there are
/// none to be read.
pub open spec fn reply_for(skip: bool, replies: Seq<CoefReply>, k: int) -> CoefReply {
    if skip { skipped_reply() } else { replies[k] }
}

/// The first `n` transform blocks, one after the other.
pub open spec fn luma_run(
    j: LumaJob,
    replies: Seq<CoefReply>,
    n: int,
    st: Seq<LumaState>,
    plans: Seq<LumaTxPlan>,
) -> bool {
    &&& st.len() == n + 1
    &&& plans.len() == n
    &&& forall|k: int|
        0 <= k < n ==> luma_step(
            j,
            reply_for(j.b.skip_txfm, replies, k),
            k,
            st[k],
            st[k + 1],
            #[trigger] plans[k],
        )
}

/// The first `n` transform blocks lead from `s0` to `s1`.
pub open spec fn luma_leads(
    j: LumaJob,
    replies: Seq<CoefReply>,
    n: int,
    s0: LumaState,
    s1: LumaState,
    plans: Seq<LumaTxPlan>,
) -> bool {
    exists|st: Seq<LumaState>| #[trigger]
        luma_run(j, replies, n, st, plans) && st[0] == s0 && st[n] == s1
}

/// The coefficients of the first `n` transform blocks could be read.
pub open spec fn readable(skip: bool, replies: Seq<CoefReply>, n: int) -> bool {
    skip || forall|k: int| 0 <= k < n ==> !(#[trigger] replies[k]).failed()
}

/// All transform blocks lead from `s0` to `s1`, with the plans `r`; or those
/// before the first whose coefficients could not be read do.
pub open spec fn luma_result(
    j: LumaJob,
    replies: Seq<CoefReply>,
    s0: LumaState,
    s1: LumaState,
    r: Result<Vec<LumaTxPlan>>,
) -> bool {
    &&& r is Ok <==> readable(j.b.skip_txfm, replies, j.g.tiles().len() as int)
    &&& r matches Ok(plans) ==> luma_leads(
        j,
        replies,
        j.g.tiles().len() as int,
        s0,
        s1,
        plans@,
    )
    &&& r matches Err(e) ==> e == Rav2dError::InvalidData && exists|n: int, plans: Seq<LumaTxPlan>|
        {
            &&& 0 <= n < replies.len()
            &&& replies[n].failed()
            &&& readable(false, replies, n)
            &&& #[trigger] luma_leads(j, replies, n, s0, s1, plans)
        }
}

/// Plans all transform blocks of a luma block that is predicted within its
/// frame, in order, with one reply for each of them. Where coefficients could
/// not be read, what came before them has taken effect.
pub fn recon_b_intra_luma_geom(
    j: &LumaJob,
    replies: &[CoefReply],
    a: &mut BlockContext,
    l: &mut BlockContext,
    coded: &mut CodedGrid,
) -> (r: Result<Vec<LumaTxPlan>>)
    requires
        j.valid(),
        old(coded).wf(),
        j.b.skip_txfm || replies@.len() == j.g.tiles().len(),
    ensures
        final(coded).wf(),
        luma_result(
            *j,
            replies@,
            (LumaState { a: *old(a), l: *old(l), coded: *old(coded) }),
            (LumaState { a: *final(a), l: *final(l), coded: *final(coded) }),
            r,
        ),
{
    let tiles: Vec<TxTile> = j.g.list_tiles();
    let n: usize = tiles.len();
    let mut b: LumaBlock = j.b;
    b.tx_part = j.g.part;
    b.lossless = j.g.lossless;
    b.pb_col_start = j.g.bx;
    b.pb_row_start = j.g.by;
    assert(b == j.block());
    let mut plans: Vec<LumaTxPlan> = Vec::new();
    let ghost s0 = LumaState { a: *a, l: *l, coded: *coded };
    let ghost mut st: Seq<LumaState> = seq![s0];
    let mut i: usize = 0;
    while i < n
        invariant
            j.valid(),
            b == j.block(),
            coded.wf(),
            n == tiles@.len(),
            tiles@ == j.g.tiles(),
            forall|k: int| 0 <= k < n ==> j.g.site(#[trigger] tiles@[k]).valid(),
            j.b.skip_txfm || replies@.len() == n,
            i <= n,
            st.len() == i + 1,
            st[0] == s0,
            s0 == (LumaState { a: *old(a), l: *old(l), coded: *old(coded) }),
            st[i as int] == (LumaState { a: *a, l: *l, coded: *coded }),
            luma_run(*j, replies@, i as int, st, plans@),
            readable(j.b.skip_txfm, replies@, i as int),
        decreases n - i,
    {
        let tile: TxTile = tiles[i];
        let s: TxSite = TxSite { t: tile.size, bx: tile.x, by: tile.y, fw: j.g.fw, fh: j.g.fh };
        assert(s == j.g.site(tiles@[i as int]));
        let m: RemappedAngle = if tile.big { j.m_big } else { j.m };
        let reply: CoefReply = if j.b.skip_txfm {
            CoefReply { eob: -1, txtp: 0, res_ctx: SKIPPED_CTX }
        } else {
            replies[i]
        };
        assert(reply == reply_for(j.b.skip_txfm, replies@, i as int));
        let f: IntraTools = IntraTools {
            ddt: if tile.big {
                j.ddt_big
            } else {
                j.f.ddt
            },
            ..j.f
        };
        let done: Result<LumaTxPlan> = recon_b_luma_tx(&b, &f, &s, &j.t, &m, &reply, a, l, coded);
        match done {
            Ok(plan) => {
                let ghost (st0, p0) = (st, plans@);
                let ghost s1 = LumaState { a: *a, l: *l, coded: *coded };
                plans.push(plan);
                proof {
                    st = st0.push(s1);
                    assert(luma_step(*j, reply, i as int, st0[i as int], s1, plan));
                    assert forall|k: int| 0 <= k < i + 1 implies luma_step(
                        *j,
                        reply_for(j.b.skip_txfm, replies@, k),
                        k,
                        st[k],
                        st[k + 1],
                        #[trigger] plans@[k],
                    ) by {
                        if k < i {
                            assert(plans@[k] == p0[k] && st[k] == st0[k] && st[k + 1] == st0[k + 1]);
                        }
                    }
                }
                i = i + 1;
            },
            Err(e) => {
                proof {
                    assert(luma_run(*j, replies@, i as int, st, plans@));
                    assert(luma_leads(
                        *j,
                        replies@,
                        i as int,
                        s0,
                        LumaState { a: *a, l: *l, coded: *coded },
                        plans@,
                    ));
                    assert(replies@[i as int].failed());
                }
                return Err(e);
            },
        }
    }
    assert(luma_run(*j, replies@, n as int, st, plans@));
    Ok(plans)
}

/// What the coefficients of a luma block that is predicted from other frames
/// are read with, after those of the first `done` transform blocks.
pub open spec fn inter_luma_request(g: LumaGeom, skip: bool, done: int) -> Option<LumaRequest> {
    if skip || done >= g.tiles().len() {
        None
    } else {
        let tile = g.tiles()[done];
        Some(
            LumaRequest {
                tile,
                intra: false,
                fsc: false,
                lossless: g.lossless,
                y_mode: 0,
                above: (tile.x as int % 64) as i32,
                left: (tile.y as int % 64) as i32,
            },
        )
    }
}

pub fn next_inter_luma_request(g: &LumaGeom, skip: bool, done: usize) -> (r: Option<LumaRequest>)
    requires
        g.valid(),
    ensures
        r == inter_luma_request(*g, skip, done as int),
{
    let tiles: Vec<TxTile> = g.list_tiles();
    if skip || done >= tiles.len() {
        return None;
    }
    let tile: TxTile = tiles[done];
    assert(g.site(tiles@[done as int]).valid());
    Some(
        LumaRequest {
            tile,
            intra: false,
            fsc: false,
            lossless: g.lossless,
            y_mode: 0,
            above: tile.x % 64,
            left: tile.y % 64,
        },
    )
}

/// What transform blocks that are predicted from other frames change: as
/// before, and the types that are kept for chroma.
pub ghost struct InterState {
    pub luma: LumaState,
    pub types: Seq<u16>,
}

/// The masks of data-driven transforms for the transform blocks of a block, and
/// for the large one in the middle of five.
#[derive(Debug, Clone, Copy, PartialEq, Eq, Structural)]
pub struct DdtMasks {
    pub t: u16,
    pub big: u16,
}

pub open spec fn mask_for(ddt: Option<DdtMasks>, big: bool) -> Option<u16> {
    match ddt {
        Some(m) => Some(if big { m.big } else { m.t }),
        None => None,
    }
}

pub open spec fn inter_change(ddt: Option<u16>) -> TypeChange {
    match ddt {
        Some(m) => TypeChange::Ddt(m),
        None => TypeChange::Keep,
    }
}

/// `added` is what is added to transform block `k`, and `s1` is `s0` after it.
pub open spec fn inter_step(
    g: LumaGeom,
    skip: bool,
    ddt: Option<DdtMasks>,
    reply: CoefReply,
    k: int,
    s0: InterState,
    s1: InterState,
    added: Option<TxResidual>,
) -> bool {
    let s = g.site(g.tiles()[k]);
    let c = counted(skip, reply);
    &&& added == luma_residual(c, s.t, true, inter_change(mask_for(ddt, g.tiles()[k].big)))
    &&& tile_done(s, c, s0.luma, s1.luma)
    &&& if skip {
        s1.types == s0.types
    } else {
        types_recorded(s0.types, s1.types, s, (reply.txtp % 256) as u16)
    }
}

/// The first `n` transform blocks, one after the other.
pub open spec fn inter_run(
    g: LumaGeom,
    skip: bool,
    ddt: Option<DdtMasks>,
    replies: Seq<CoefReply>,
    n: int,
    st: Seq<InterState>,
    added: Seq<Option<TxResidual>>,
) -> bool {
    &&& st.len() == n + 1
    &&& added.len() == n
    &&& forall|k: int|
        0 <= k < n ==> inter_step(
            g,
            skip,
            ddt,
            reply_for(skip, replies, k),
            k,
            st[k],
            st[k + 1],
            #[trigger] added[k],
        )
}

/// The first `n` transform blocks lead from `s0` to `s1`.
pub open spec fn inter_leads(
    g: LumaGeom,
    skip: bool,
    ddt: Option<DdtMasks>,
    replies: Seq<CoefReply>,
    n: int,
    s0: InterState,
    s1: InterState,
    added: Seq<Option<TxResidual>>,
) -> bool {
    exists|st: Seq<InterState>| #[trigger]
        inter_run(g, skip, ddt, replies, n, st, added) && st[0] == s0 && st[n] == s1
}
/// All transform blocks lead from `s0` to `s1`, with what is added to each; or
/// those before the first whose coefficients could not be read do.
pub open spec fn inter_luma_result(
    g: LumaGeom,
    skip: bool,
    ddt: Option<DdtMasks>,
    replies: Seq<CoefReply>,
    s0: InterState,
    s1: InterState,
    r: Result<Vec<Option<TxResidual>>>,
) -> bool {
    &&& r is Ok <==> readable(skip, replies, g.tiles().len() as int)
    &&& r matches Ok(added) ==> inter_leads(
        g,
        skip,
        ddt,
        replies,
        g.tiles().len() as int,
        s0,
        s1,
        added@,
    )
    &&& r matches Err(e) ==> e == Rav2dError::InvalidData && exists|
        n: int,
        added: Seq<Option<TxResidual>>,
    |
        {
            &&& 0 <= n < replies.len()
            &&& replies[n].failed()
            &&& readable(false, replies, n)
            &&& #[trigger] inter_leads(g, skip, ddt, replies, n, s0, s1, added)
        }
}


/// Takes the coefficients of all transform blocks of a luma block that is
/// predicted from other frames, with one reply for each of them, and returns
/// what is added to each.
pub fn inter_luma_residual(
    g: &LumaGeom,
    skip: bool,
    ddt: Option<DdtMasks>,
    replies: &[CoefReply],
    a: &mut BlockContext,
    l: &mut BlockContext,
    coded: &mut CodedGrid,
    types: &mut [u16; 256],
) -> (r: Result<Vec<Option<TxResidual>>>)
    requires
        g.valid(),
        old(coded).wf(),
        skip || replies@.len() == g.tiles().len(),
    ensures
        final(coded).wf(),
        inter_luma_result(
            *g,
            skip,
            ddt,
            replies@,
            (InterState {
                luma: LumaState { a: *old(a), l: *old(l), coded: *old(coded) },
                types: old(types)@,
            }),
            (InterState {
                luma: LumaState { a: *final(a), l: *final(l), coded: *final(coded) },
                types: final(types)@,
            }),
            r,
        ),
{
    let tiles: Vec<TxTile> = g.list_tiles();
    let n: usize = tiles.len();
    let mut added: Vec<Option<TxResidual>> = Vec::new();
    let ghost s0 = InterState {
        luma: LumaState { a: *a, l: *l, coded: *coded },
        types: types@,
    };
    let ghost mut st: Seq<InterState> = seq![s0];
    let mut i: usize = 0;
    while i < n
        invariant
            g.valid(),
            coded.wf(),
            n == tiles@.len(),
            tiles@ == g.tiles(),
            forall|k: int| 0 <= k < n ==> g.site(#[trigger] tiles@[k]).valid(),
            skip || replies@.len() == n,
            i <= n,
            st.len() == i + 1,
            st[0] == s0,
            s0 == (InterState {
                luma: LumaState { a: *old(a), l: *old(l), coded: *old(coded) },
                types: old(types)@,
            }),
            st[i as int] == (InterState {
                luma: LumaState { a: *a, l: *l, coded: *coded },
                types: types@,
            }),
            inter_run(*g, skip, ddt, replies@, i as int, st, added@),
            readable(skip, replies@, i as int),
        decreases n - i,
    {
        let tile: TxTile = tiles[i];
        let s: TxSite = TxSite { t: tile.size, bx: tile.x, by: tile.y, fw: g.fw, fh: g.fh };
        assert(s == g.site(tiles@[i as int]));
        let reply: CoefReply = if skip {
            CoefReply { eob: -1, txtp: 0, res_ctx: SKIPPED_CTX }
        } else {
            replies[i]
        };
        assert(reply == reply_for(skip, replies@, i as int));
        let mask: Option<u16> = match ddt {
            Some(m) => Some(if tile.big { m.big } else { m.t }),
            None => None,
        };
        let done: Result<Option<TxResidual>> = inter_residual_tx(
            &s,
            skip,
            &reply,
            mask,
            a,
            l,
            coded,
            types,
        );
        match done {
            Ok(one) => {
                let ghost (st0, p0) = (st, added@);
                let ghost s1 = InterState {
                    luma: LumaState { a: *a, l: *l, coded: *coded },
                    types: types@,
                };
                added.push(one);
                proof {
                    st = st0.push(s1);
                    assert(inter_step(*g, skip, ddt, reply, i as int, st0[i as int], s1, one));
                    assert forall|k: int| 0 <= k < i + 1 implies inter_step(
                        *g,
                        skip,
                        ddt,
                        reply_for(skip, replies@, k),
                        k,
                        st[k],
                        st[k + 1],
                        #[trigger] added@[k],
                    ) by {
                        if k < i {
                            assert(added@[k] == p0[k] && st[k] == st0[k] && st[k + 1] == st0[k + 1]);
                        }
                    }
                }
                i = i + 1;
            },
            Err(e) => {
                proof {
                    assert(inter_run(*g, skip, ddt, replies@, i as int, st, added@));
                    assert(inter_leads(
                        *g,
                        skip,
                        ddt,
                        replies@,
                        i as int,
                        s0,
                        InterState {
                            luma: LumaState { a: *a, l: *l, coded: *coded },
                            types: types@,
                        },
                        added@,
                    ));
                    assert(replies@[i as int].failed());
                }
                return Err(e);
            },
        }
    }
    assert(inter_run(*g, skip, ddt, replies@, n as int, st, added@));
    Ok(added)
}

/// Every unit of a block that lies within the frame lies in one of its
/// transform blocks.
pub proof fn law_transform_blocks_cover_their_block(g: LumaGeom, x: int, y: int) -> (k: int)
    requires
        g.valid(),
        g.bx <= x < g.bx + g.bw4,
        g.by <= y < g.by + g.bh4,
        x < g.fw,
        y < g.fh,
    ensures
        0 <= k < g.tiles().len(),
        covers_unit(g.tiles()[k], x, y),
{
    let (bx, by, fw, fh) = (g.bx as int, g.by as int, g.fw as int, g.fh as int);
    if g.lossless {
        law_raster_covers_the_block(
            g.lossless_size(),
            bx,
            by,
            min(g.bw4 as int, fw - bx),
            min(g.bh4 as int, fh - by),
            x,
            y,
        )
    } else {
        law_walk_covers_the_block(
            g.part,
            g.t,
            g.big,
            bx,
            by,
            g.bw4 as int,
            g.bh4 as int,
            fw,
            fh,
            x,
            y,
        )
    }
}

/// What has been reconstructed stays so.
proof fn lemma_marks_stay(
    j: LumaJob,
    replies: Seq<CoefReply>,
    n: int,
    st: Seq<LumaState>,
    plans: Seq<LumaTxPlan>,
    i: int,
    k: int,
    x: int,
    y: int,
)
    requires
        luma_run(j, replies, n, st, plans),
        0 <= i <= k <= n,
        st[i].coded.coded(x, y),
    ensures
        st[k].coded.coded(x, y),
    decreases k - i,
{
    if i < k {
        assert(luma_step(
            j,
            reply_for(j.b.skip_txfm, replies, i),
            i,
            st[i],
            st[i + 1],
            plans[i],
        ));
        assert(st[i + 1].coded.coded(x, y));
        lemma_marks_stay(j, replies, n, st, plans, i + 1, k, x, y);
    }
}

/// A position in an area, from another that is not beyond it.
proof fn lemma_offset_in_area(at: int, len: int, x: int)
    requires
        0 <= at <= x < at + len,
        at % 64 + len <= 64,
    ensures
        x % 64 == at % 64 + (x - at),
{
}

/// Once all transform blocks of a block are done, every unit of it that lies
/// within the frame has been reconstructed.
pub proof fn law_luma_marks_the_block(
    j: LumaJob,
    replies: Seq<CoefReply>,
    s0: LumaState,
    s1: LumaState,
    plans: Seq<LumaTxPlan>,
    x: int,
    y: int,
)
    requires
        j.valid(),
        luma_leads(j, replies, j.g.tiles().len() as int, s0, s1, plans),
        j.g.bx <= x < j.g.bx + j.g.bw4,
        j.g.by <= y < j.g.by + j.g.bh4,
        x < j.g.fw,
        y < j.g.fh,
    ensures
        s1.coded.coded(x % 64, y % 64),
{
    let n = j.g.tiles().len() as int;
    let st = choose|st: Seq<LumaState>| #[trigger]
        luma_run(j, replies, n, st, plans) && st[0] == s0 && st[n] == s1;
    let k = law_transform_blocks_cover_their_block(j.g, x, y);
    law_transform_blocks_lie_in_their_block(j.g);
    let tile = j.g.tiles()[k];
    assert(j.g.site(tile).valid());
    lemma_offset_in_area(tile.x as int, tile.size.w as int, x);
    lemma_offset_in_area(tile.y as int, tile.size.h as int, y);
    assert(luma_step(j, reply_for(j.b.skip_txfm, replies, k), k, st[k], st[k + 1], plans[k]));
    assert(st[k + 1].coded.coded(x % 64, y % 64));
    lemma_marks_stay(j, replies, n, st, plans, k + 1, n, x % 64, y % 64);
}

/// What the coefficients of a luma transform block are read with: the blocks
/// come in their order, at their places along the edges; nothing is read where
/// coefficients are skipped.
pub proof fn law_luma_requests_go_through_the_blocks(j: LumaJob, fsc: bool, done: int)
    requires
        0 <= done,
    ensures
        ({
            let r = luma_request(j, fsc, done);
            &&& r is None <==> j.b.skip_txfm || done >= j.g.tiles().len()
            &&& r matches Some(q) ==> {
                &&& q.tile == j.g.tiles()[done]
                &&& q.above == q.tile.x as int % 64
                &&& q.left == q.tile.y as int % 64
                &&& q.fsc == fsc
                &&& q.lossless == j.g.lossless
                &&& q.intra == !j.b.intrabc
            }
            &&& inter_luma_request(j.g, false, done) matches Some(q) ==> q.tile == j.g.tiles()[done]
                && q.above == q.tile.x as int % 64 && q.left == q.tile.y as int % 64 && !q.intra
            &&& inter_luma_request(j.g, true, done) is None
        }),
{
}

/// After a transform block, later ones see its context over the columns and
/// beside the rows that it has in the frame, and its units are there.
pub proof fn law_blocks_leave_their_context(
    s: TxSite,
    c: CoefReply,
    s0: LumaState,
    s1: LumaState,
    i: int,
)
    requires
        tile_done(s, c, s0, s1),
        s.valid(),
        0 <= i < 64,
    ensures
        s.bx % 64 <= i < s.bx % 64 + s.t.w && i - s.bx % 64 < s.fw - s.bx ==> s1.a.lcoef[i]
            == c.res_ctx,
        i < s.bx % 64 || i >= s.bx % 64 + s.t.w ==> s1.a.lcoef[i] == s0.a.lcoef[i],
        s.by % 64 <= i < s.by % 64 + s.t.h && i - s.by % 64 < s.fh - s.by ==> s1.l.lcoef[i]
            == c.res_ctx,
        i < s.by % 64 || i >= s.by % 64 + s.t.h ==> s1.l.lcoef[i] == s0.l.lcoef[i],
{
    assert(s1.a.lcoef@[i] == s1.a.lcoef[i] && s0.a.lcoef@[i] == s0.a.lcoef[i]);
    assert(s1.l.lcoef@[i] == s1.l.lcoef[i] && s0.l.lcoef@[i] == s0.l.lcoef[i]);
}

/// A large transform block in the middle of five has its own angle and its own
/// mask.
pub proof fn law_large_blocks_have_their_own_angle(j: LumaJob, tile: TxTile)
    ensures
        tile.big ==> j.angle(tile) == j.m_big && j.tools(tile).ddt == j.ddt_big,
        !tile.big ==> j.angle(tile) == j.m && j.tools(tile).ddt == j.f.ddt,
        j.tools(tile).ibp == j.f.ibp && j.tools(tile).edge_filter == j.f.edge_filter,
        j.block().pb_col_start == j.g.bx && j.block().pb_row_start == j.g.by,
        j.block().y_mode == j.b.y_mode,
{
}

} // verus!
