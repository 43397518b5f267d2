//! The reconstruction of chroma transform blocks.
use vstd::prelude::*;

use crate::coded::CodedGrid;
use crate::edges::{
    chroma_bottom_left, chroma_top_right, doubled, find_chroma_bottom_left, find_chroma_top_right,
    halved, ChromaSite, EdgeBounds,
};
use crate::env::BlockContext;
use crate::error::{Rav2dError, Result};
use crate::intops::{imax, imin, max, min, p2};
use crate::levels::{CFL_PRED, DC_PRED, PAETH_PRED, VERT_PRED};
use crate::lumatx::{IntraFlags, IntraPlan, IntraTools, RemappedAngle};
use crate::residual::{
    cctx_mix, change_type, changed_type, count_reply, counted, fill_row, filled, is_side, marked,
    mix_planes, skipped_reply, CctxMix, CoefReply, TypeChange, SKIPPED_CTX,
};
use crate::splitblock::ChromaPhase;
use crate::txwalk::{
    covers_unit, law_raster_covers_the_block, raster_from, raster_walk, TxSize, TxTile,
};

verus! {

/// The chroma of a block: the size of its transform in units of chroma, its
/// position and size in units of luma, the subsampling, and the size of the
/// frame in units of luma.
#[derive(Debug, Clone, Copy, PartialEq, Eq, Structural)]
pub struct ChromaTx {
    pub t: TxSize,
    pub cbx: i32,
    pub cby: i32,
    pub cbw4: i32,
    pub cbh4: i32,
    pub ss_hor: i32,
    pub ss_ver: i32,
    pub fw: i32,
    pub fh: i32,
}

/// `n` units of luma, in units of chroma, rounded up.
pub open spec fn shared(n: int, ss: int) -> int {
    if ss == 1 { (n + 1) / 2 } else { n }
}

impl ChromaTx {
    pub open spec fn valid(self) -> bool {
        &&& is_side(self.t.w as int)
        &&& is_side(self.t.h as int)
        &&& 0 <= self.ss_hor <= 1
        &&& 0 <= self.ss_ver <= 1
        &&& 0 <= self.cbx < self.fw <= 0x10_0000
        &&& 0 <= self.cby < self.fh <= 0x10_0000
        &&& 1 <= self.cbw4 <= 32
        &&& 1 <= self.cbh4 <= 32
        &&& self.cx4() + self.w() + self.t.w <= 65
        &&& self.cy4() + self.h() + self.t.h <= 65
    }

    /// The size of the block within the frame, in units of chroma.
    pub open spec fn w(self) -> int {
        shared(min(self.fw - self.cbx, self.cbw4 as int), self.ss_hor as int)
    }

    pub open spec fn h(self) -> int {
        shared(min(self.fh - self.cby, self.cbh4 as int), self.ss_ver as int)
    }

    /// The position of the block in the area of the contexts.
    pub open spec fn cx4(self) -> int {
        self.cbx as int % 64 / p2(self.ss_hor as int)
    }

    pub open spec fn cy4(self) -> int {
        self.cby as int % 64 / p2(self.ss_ver as int)
    }

    /// The size of a transform block within the frame.
    pub open spec fn tw(self) -> int {
        min(self.t.w as int, shared(self.fw - self.cbx, self.ss_hor as int))
    }

    pub open spec fn th(self) -> int {
        min(self.t.h as int, shared(self.fh - self.cby, self.ss_ver as int))
    }

    /// The transform blocks, line by line.
    pub open spec fn tiles(self) -> Seq<TxTile> {
        raster_from(self.t, 0, 0, self.w(), self.h(), 0, 0)
    }

    /// How many units above the transform block at `x` see its coefficients.
    /// Motion-compensated blocks leave out what lies outside of the frame,
    /// others what lies outside of the area.
    pub open spec fn above_len(self, inter: bool, x: int) -> int {
        if inter {
            max(
                min(
                    self.t.w as int,
                    self.fw as int / p2(self.ss_hor as int) - (self.cbx as int / p2(
                        self.ss_hor as int,
                    ) + x),
                ),
                0,
            )
        } else {
            max(min(self.tw(), 64 - (self.cx4() + x)), 0)
        }
    }

    pub open spec fn left_len(self, inter: bool, y: int) -> int {
        if inter {
            max(
                min(
                    self.t.h as int,
                    self.fh as int / p2(self.ss_ver as int) - (self.cby as int / p2(
                        self.ss_ver as int,
                    ) + y),
                ),
                0,
            )
        } else {
            max(min(self.th(), 64 - (self.cy4() + y)), 0)
        }
    }
}

/// `n` units of luma in units of chroma, rounded up.
pub fn share(n: i32, ss: i32) -> (r: i32)
    requires
        0 <= n <= 0x20_0000,
        0 <= ss <= 1,
    ensures
        r == shared(n as int, ss as int),
        0 <= r <= n,
        n >= 1 ==> r >= 1,
{
    if ss == 1 {
        (n + 1) / 2
    } else {
        n
    }
}

impl ChromaTx {
    pub fn width(&self) -> (r: i32)
        requires
            self.valid(),
        ensures
            r == self.w(),
            1 <= r <= 32,
    {
        share(imin(self.fw - self.cbx, self.cbw4), self.ss_hor)
    }

    pub fn height(&self) -> (r: i32)
        requires
            self.valid(),
        ensures
            r == self.h(),
            1 <= r <= 32,
    {
        share(imin(self.fh - self.cby, self.cbh4), self.ss_ver)
    }

    pub fn tile_width(&self) -> (r: i32)
        requires
            self.valid(),
        ensures
            r == self.tw(),
            1 <= r <= self.t.w,
    {
        imin(self.t.w, share(self.fw - self.cbx, self.ss_hor))
    }

    pub fn tile_height(&self) -> (r: i32)
        requires
            self.valid(),
        ensures
            r == self.th(),
            1 <= r <= self.t.h,
    {
        imin(self.t.h, share(self.fh - self.cby, self.ss_ver))
    }

    pub fn col(&self) -> (r: i32)
        requires
            self.valid(),
        ensures
            r == self.cx4(),
            0 <= r < 64,
    {
        halved(self.cbx % 64, self.ss_hor)
    }

    pub fn row(&self) -> (r: i32)
        requires
            self.valid(),
        ensures
            r == self.cy4(),
            0 <= r < 64,
    {
        halved(self.cby % 64, self.ss_ver)
    }

    fn count_above(&self, inter: bool, x: i32) -> (r: i32)
        requires
            self.valid(),
            0 <= x < self.w(),
        ensures
            r == self.above_len(inter, x as int),
            0 <= r <= self.t.w,
    {
        if inter {
            let fw: i32 = halved(self.fw, self.ss_hor);
            let cx: i32 = halved(self.cbx, self.ss_hor);
            imax(imin(self.t.w, fw - (cx + x)), 0)
        } else {
            imax(imin(self.tile_width(), 64 - (self.col() + x)), 0)
        }
    }

    fn count_left(&self, inter: bool, y: i32) -> (r: i32)
        requires
            self.valid(),
            0 <= y < self.h(),
        ensures
            r == self.left_len(inter, y as int),
            0 <= r <= self.t.h,
    {
        if inter {
            let fh: i32 = halved(self.fh, self.ss_ver);
            let cy: i32 = halved(self.cby, self.ss_ver);
            imax(imin(self.t.h, fh - (cy + y)), 0)
        } else {
            imax(imin(self.tile_height(), 64 - (self.row() + y)), 0)
        }
    }

    /// Lists the transform blocks.
    pub fn list_tiles(&self) -> (r: Vec<TxTile>)
        requires
            self.valid(),
        ensures
            r@ == self.tiles(),
            forall|k: int|
                0 <= k < r@.len() ==> 0 <= (#[trigger] r@[k]).x < self.w() && 0 <= r@[k].y
                    < self.h(),
    {
        let w: i32 = self.width();
        let h: i32 = self.height();
        let r: Vec<TxTile> = raster_walk(self.t, 0, 0, w, h, w, h);
        proof {
            lemma_raster_inside(self.t, w as int, h as int, 0, 0);
        }
        r
    }
}

/// All transform blocks start inside of the block.
proof fn lemma_raster_inside(t: TxSize, w: int, h: int, x: int, y: int)
    requires
        0 <= x,
        0 <= y,
        w <= 64,
        h <= 64,
        1 <= t.w <= 16,
        1 <= t.h <= 16,
    ensures
        forall|k: int|
            0 <= k < raster_from(t, 0, 0, w, h, x, y).len() ==> 0 <= (#[trigger] raster_from(
                t,
                0,
                0,
                w,
                h,
                x,
                y,
            )[k]).x < w && 0 <= raster_from(t, 0, 0, w, h, x, y)[k].y < h,
    decreases max(h - y, 0), max(w - x, 0),
{
    let s = raster_from(t, 0, 0, w, h, x, y);
    if y >= h {
        assert(s.len() == 0);
    } else if x >= w {
        lemma_raster_inside(t, w, h, 0, y + t.h);
        let rest = raster_from(t, 0, 0, w, h, 0, y + t.h);
        assert(s == rest);
        assert forall|k: int| 0 <= k < s.len() implies 0 <= (#[trigger] s[k]).x < w && 0 <= s[k].y
            < h by {
            assert(s[k] == rest[k]);
        }
    } else {
        lemma_raster_inside(t, w, h, x + t.w, y);
        let rest = raster_from(t, 0, 0, w, h, x + t.w, y);
        assert forall|k: int| 0 <= k < s.len() implies 0 <= (#[trigger] s[k]).x < w && 0 <= s[k].y
            < h by {
            if k > 0 {
                assert(s[k] == rest[k - 1]);
            }
        }
    }
}

/// What the next coefficients are read for: the plane, the transform block,
/// and whether the block of the first plane that was read last has any.
#[derive(Debug, Clone, Copy, PartialEq, Eq, Structural)]
pub struct CoefRequest {
    pub plane: u8,
    pub tile: TxTile,
    pub u_has_cf: bool,
}

/// The coefficients of all transform blocks of the first plane come before
/// those of the second.
pub open spec fn chroma_request(p: ChromaTx, replies: Seq<CoefReply>) -> Option<CoefRequest> {
    let n = p.tiles().len() as int;
    let k = replies.len() as int;
    if k >= 2 * n {
        None
    } else {
        Some(
            CoefRequest {
                plane: if k < n { 1 } else { 2 },
                tile: p.tiles()[if k < n { k } else { k - n }],
                u_has_cf: k > 0 && replies[min(k, n) - 1].eob >= 0,
            },
        )
    }
}

pub fn next_chroma_request(p: &ChromaTx, replies: &[CoefReply]) -> (r: Option<CoefRequest>)
    requires
        p.valid(),
    ensures
        r == chroma_request(*p, replies@),
{
    let tiles: Vec<TxTile> = p.list_tiles();
    let n: usize = tiles.len();
    let k: usize = replies.len();
    if k < n {
        Some(
            CoefRequest { plane: 1, tile: tiles[k], u_has_cf: k > 0 && replies[k - 1].eob >= 0 },
        )
    } else if k - n < n {
        Some(CoefRequest { plane: 2, tile: tiles[k - n], u_has_cf: replies[n - 1].eob >= 0 })
    } else {
        None
    }
}

/// The reply at which reading stops, from number `k` of `n` on.
pub open spec fn stops_at(replies: Seq<CoefReply>, from: int, n: int, skip: bool, k: int) -> int
    decreases n - k,
{
    if k >= n {
        n
    } else if !skip && replies[from + k].failed() {
        k
    } else {
        stops_at(replies, from, n, skip, k + 1)
    }
}

/// The replies that count, `n` of them from number `from` on.
pub open spec fn counted_from(replies: Seq<CoefReply>, from: int, n: int, skip: bool) -> Seq<
    CoefReply,
> {
    Seq::new(n as nat, |k: int| counted(skip, replies[from + k]))
}

/// What blocks below see after the first `n` transform blocks.
pub open spec fn above_after(
    p: ChromaTx,
    inter: bool,
    cs: Seq<CoefReply>,
    row: Seq<u8>,
    n: int,
) -> Seq<u8>
    decreases n,
{
    if n <= 0 {
        row
    } else {
        let x = p.tiles()[n - 1].x as int;
        filled(
            above_after(p, inter, cs, row, n - 1),
            p.cx4() + x,
            p.above_len(inter, x),
            cs[n - 1].res_ctx,
        )
    }
}

/// What blocks to the right see after the first `n` transform blocks.
pub open spec fn left_after(
    p: ChromaTx,
    inter: bool,
    cs: Seq<CoefReply>,
    row: Seq<u8>,
    n: int,
) -> Seq<u8>
    decreases n,
{
    if n <= 0 {
        row
    } else {
        let y = p.tiles()[n - 1].y as int;
        filled(
            left_after(p, inter, cs, row, n - 1),
            p.cy4() + y,
            p.left_len(inter, y),
            cs[n - 1].res_ctx,
        )
    }
}

proof fn lemma_after_prefix(
    p: ChromaTx,
    inter: bool,
    cs: Seq<CoefReply>,
    ds: Seq<CoefReply>,
    row: Seq<u8>,
    n: int,
)
    requires
        n <= cs.len(),
        n <= ds.len(),
        forall|k: int| 0 <= k < n ==> cs[k] == ds[k],
    ensures
        above_after(p, inter, cs, row, n) == above_after(p, inter, ds, row, n),
        left_after(p, inter, cs, row, n) == left_after(p, inter, ds, row, n),
    decreases n,
{
    if n > 0 {
        lemma_after_prefix(p, inter, cs, ds, row, n - 1);
    }
}

fn read_plane(
    p: &ChromaTx,
    inter: bool,
    skip: bool,
    tiles: &Vec<TxTile>,
    replies: &[CoefReply],
    from: usize,
    above: &mut [u8; 64],
    left: &mut [u8; 64],
) -> (r: Vec<CoefReply>)
    requires
        p.valid(),
        tiles@ == p.tiles(),
        forall|k: int|
            0 <= k < tiles@.len() ==> 0 <= (#[trigger] tiles@[k]).x < p.w() && 0 <= tiles@[k].y
                < p.h(),
        from + tiles@.len() <= replies@.len(),
    ensures
        ({
            let m = stops_at(replies@, from as int, tiles@.len() as int, skip, 0);
            &&& 0 <= m <= tiles@.len()
            &&& r@ == counted_from(replies@, from as int, m, skip)
            &&& final(above)@ == above_after(*p, inter, r@, old(above)@, m)
            &&& final(left)@ == left_after(*p, inter, r@, old(left)@, m)
        }),
{
    let n: usize = tiles.len();
    let total: usize = replies.len();
    let (cx, cy): (i32, i32) = (p.col(), p.row());
    let ghost m = stops_at(replies@, from as int, n as int, skip, 0);
    let ghost (above0, left0) = (above@, left@);
    let mut r: Vec<CoefReply> = Vec::new();
    let mut k: usize = 0;
    assert(r@ =~= counted_from(replies@, from as int, 0, skip));
    while k < n && (skip || replies[from + k].eob != i32::MIN)
        invariant
            p.valid(),
            tiles@ == p.tiles(),
            n == tiles@.len(),
            total == replies@.len(),
            forall|k: int|
                0 <= k < tiles@.len() ==> 0 <= (#[trigger] tiles@[k]).x < p.w() && 0 <= tiles@[k].y
                    < p.h(),
            from + n <= total,
            k <= n,
            cx == p.cx4(),
            cy == p.cy4(),
            0 <= cx,
            0 <= cy,
            m == stops_at(replies@, from as int, n as int, skip, k as int),
            r@ == counted_from(replies@, from as int, k as int, skip),
            above@ == above_after(*p, inter, r@, above0, k as int),
            left@ == left_after(*p, inter, r@, left0, k as int),
        decreases n - k,
    {
        let c: CoefReply = count_reply(skip, &replies[from + k]);
        let tile: TxTile = tiles[k];
        let aw: i32 = p.count_above(inter, tile.x);
        let lh: i32 = p.count_left(inter, tile.y);
        fill_row(above, (cx + tile.x) as usize, aw as usize, c.res_ctx);
        fill_row(left, (cy + tile.y) as usize, lh as usize, c.res_ctx);
        let ghost r0 = r@;
        r.push(c);
        proof {
            lemma_after_prefix(*p, inter, r0, r@, above0, k as int);
            lemma_after_prefix(*p, inter, r0, r@, left0, k as int);
        }
        k = k + 1;
        assert(r@ =~= counted_from(replies@, from as int, k as int, skip));
    }
    r
}

/// The coefficients of the transform blocks of both planes.
#[derive(Debug)]
pub struct ChromaCoefs {
    pub u: Vec<CoefReply>,
    pub v: Vec<CoefReply>,
}

/// Only what coefficients leave for chroma differs.
pub open spec fn only_chroma(a0: BlockContext, a1: BlockContext) -> bool {
    a1 == (BlockContext { ccoef: a1.ccoef, ..a0 })
}

/// Where reading the two planes stops: the numbers of blocks that were read.
pub open spec fn read_counts(p: ChromaTx, replies: Seq<CoefReply>, skip: bool) -> (int, int) {
    let n = p.tiles().len() as int;
    let m = stops_at(replies, 0, n, skip, 0);
    (m, if m < n { 0 } else { stops_at(replies, n, n, skip, 0) })
}

/// Takes the coefficients of both planes, in the order in which they are
/// asked for. The contexts are updated for all that could be read.
pub fn read_chroma(
    p: &ChromaTx,
    inter: bool,
    skip: bool,
    replies: &[CoefReply],
    a: &mut BlockContext,
    l: &mut BlockContext,
) -> (r: Result<ChromaCoefs>)
    requires
        p.valid(),
        replies@.len() >= 2 * p.tiles().len(),
    ensures
        only_chroma(*old(a), *final(a)),
        only_chroma(*old(l), *final(l)),
        ({
            let n = p.tiles().len() as int;
            let (nu, nv) = read_counts(*p, replies@, skip);
            let (us, vs) = (
                counted_from(replies@, 0, nu, skip),
                counted_from(replies@, n, nv, skip),
            );
            &&& r is Ok <==> nu == n && nv == n
            &&& r is Err ==> r == Err::<ChromaCoefs, Rav2dError>(Rav2dError::InvalidData)
            &&& r matches Ok(c) ==> c.u@ == us && c.v@ == vs
            &&& final(a).ccoef[0]@ == above_after(*p, inter, us, old(a).ccoef[0]@, nu)
            &&& final(l).ccoef[0]@ == left_after(*p, inter, us, old(l).ccoef[0]@, nu)
            &&& final(a).ccoef[1]@ == above_after(*p, inter, vs, old(a).ccoef[1]@, nv)
            &&& final(l).ccoef[1]@ == left_after(*p, inter, vs, old(l).ccoef[1]@, nv)
        }),
{
    let tiles: Vec<TxTile> = p.list_tiles();
    let n: usize = tiles.len();
    let mut above: [u8; 64] = a.ccoef[0];
    let mut left: [u8; 64] = l.ccoef[0];
    let u: Vec<CoefReply> = read_plane(p, inter, skip, &tiles, replies, 0, &mut above, &mut left);
    a.ccoef[0] = above;
    l.ccoef[0] = left;
    if u.len() < n {
        return Err(Rav2dError::InvalidData);
    }
    let mut above2: [u8; 64] = a.ccoef[1];
    let mut left2: [u8; 64] = l.ccoef[1];
    let v: Vec<CoefReply> = read_plane(p, inter, skip, &tiles, replies, n, &mut above2, &mut left2);
    a.ccoef[1] = above2;
    l.ccoef[1] = left2;
    if v.len() < n {
        return Err(Rav2dError::InvalidData);
    }
    Ok(ChromaCoefs { u, v })
}

/// What is added to the prediction of a plane.
#[derive(Debug, Clone, Copy, PartialEq, Eq, Structural)]
pub struct PlaneResidual {
    pub eob: i32,
    pub txtp: u32,
}

pub open spec fn plane_residual(eob: i32, txtp: u16, c: TypeChange) -> Option<PlaneResidual> {
    if eob == -1 {
        None
    } else {
        Some(PlaneResidual { eob, txtp: changed_type(txtp, c) as u32 })
    }
}

fn plan_plane(eob: i32, txtp: u16, c: TypeChange) -> (r: Option<PlaneResidual>)
    ensures
        r == plane_residual(eob, txtp, c),
{
    if eob == -1 {
        None
    } else {
        Some(PlaneResidual { eob, txtp: change_type(txtp, c) })
    }
}

/// A transform block of both planes: its prediction, the angle by which the
/// coefficients are mixed, and what is added.
#[derive(Debug, Clone, Copy, PartialEq, Eq, Structural)]
pub struct ChromaTuPlan {
    pub tile: TxTile,
    pub prediction: Option<IntraPlan>,
    pub angle: u16,
    pub u: Option<PlaneResidual>,
    pub v: Option<PlaneResidual>,
}

pub open spec fn tu_plan(
    tile: TxTile,
    prediction: Option<IntraPlan>,
    m: CctxMix,
    c: TypeChange,
) -> ChromaTuPlan {
    ChromaTuPlan {
        tile,
        prediction,
        angle: m.angle,
        u: plane_residual(m.eob.0, m.txtp.0, c),
        v: plane_residual(m.eob.1, m.txtp.1, c),
    }
}

fn plan_tu(tile: TxTile, prediction: Option<IntraPlan>, m: &CctxMix, c: TypeChange) -> (r:
    ChromaTuPlan)
    ensures
        r == tu_plan(tile, prediction, *m, c),
{
    ChromaTuPlan {
        tile,
        prediction,
        angle: m.angle,
        u: plan_plane(m.eob.0, m.txtp.0, c),
        v: plan_plane(m.eob.1, m.txtp.1, c),
    }
}

/// The unit lies in one of the first `n` transform blocks.
pub open spec fn in_tiles(p: ChromaTx, n: int, i: int, j: int) -> bool {
    exists|k: int| 0 <= k < n && #[trigger] in_tile(p, k, i, j)
}

pub open spec fn in_tile(p: ChromaTx, k: int, i: int, j: int) -> bool {
    crate::coded::in_rect(
        i,
        j,
        p.cx4() + p.tiles()[k].x,
        p.cy4() + p.tiles()[k].y,
        p.t.w as int,
        p.t.h as int,
    )
}

fn mark_tiles(p: &ChromaTx, tiles: &Vec<TxTile>, coded: &mut CodedGrid)
    requires
        p.valid(),
        tiles@ == p.tiles(),
        forall|k: int|
            0 <= k < tiles@.len() ==> 0 <= (#[trigger] tiles@[k]).x < p.w() && 0 <= tiles@[k].y
                < p.h(),
        old(coded).wf(),
    ensures
        final(coded).wf(),
        forall|i: int, j: int|
            #[trigger] final(coded).coded(i, j) == (old(coded).coded(i, j) || (
            crate::coded::in_area(i, j) && in_tiles(*p, tiles@.len() as int, i, j))),
{
    let n: usize = tiles.len();
    let ghost g0 = *coded;
    let (cx, cy): (i32, i32) = (p.col(), p.row());
    let mut k: usize = 0;
    while k < n
        invariant
            p.valid(),
            tiles@ == p.tiles(),
            n == tiles@.len(),
            k <= n,
            forall|k: int|
                0 <= k < tiles@.len() ==> 0 <= (#[trigger] tiles@[k]).x < p.w() && 0 <= tiles@[k].y
                    < p.h(),
            cx == p.cx4(),
            cy == p.cy4(),
            0 <= cx,
            0 <= cy,
            coded.wf(),
            forall|i: int, j: int|
                #[trigger] coded.coded(i, j) == (g0.coded(i, j) || (crate::coded::in_area(i, j)
                    && in_tiles(*p, k as int, i, j))),
        decreases n - k,
    {
        let ghost g1 = *coded;
        let tile: TxTile = tiles[k];
        coded.mark(cx + tile.x, cy + tile.y, p.t.w, p.t.h);
        assert forall|i: int, j: int| #[trigger]
            coded.coded(i, j) == (g0.coded(i, j) || (crate::coded::in_area(i, j) && in_tiles(
                *p,
                k + 1,
                i,
                j,
            ))) by {
            assert(g1.coded(i, j) == (g0.coded(i, j) || (crate::coded::in_area(i, j) && in_tiles(
                *p,
                k as int,
                i,
                j,
            ))));
            if in_tile(*p, k as int, i, j) {
                assert(in_tiles(*p, k + 1, i, j));
            }
            if in_tiles(*p, k as int, i, j) {
                let q = choose|q: int| 0 <= q < k && #[trigger] in_tile(*p, q, i, j);
                assert(in_tile(*p, q, i, j));
                assert(in_tiles(*p, k + 1, i, j));
            }
        }
        k = k + 1;
    }
}

/// The plans of the transform blocks of a motion-compensated block.
pub open spec fn inter_tu(
    p: ChromaTx,
    cctx: bool,
    c: TypeChange,
    u: CoefReply,
    v: CoefReply,
    k: int,
) -> ChromaTuPlan {
    tu_plan(p.tiles()[k], None, cctx_mix(cctx, 0, u, v), c)
}

/// What reading the coefficients of a motion-compensated chroma block gives.
pub open spec fn inter_chroma_result(
    p: ChromaTx,
    skip: bool,
    cctx: bool,
    ddt: Option<u16>,
    replies: Seq<CoefReply>,
    a0: BlockContext,
    a1: BlockContext,
    l0: BlockContext,
    l1: BlockContext,
    coded0: CodedGrid,
    coded1: CodedGrid,
    r: Result<Vec<ChromaTuPlan>>,
) -> bool {
    let n = p.tiles().len() as int;
    let (nu, nv) = read_counts(p, replies, skip);
    let (us, vs) = (counted_from(replies, 0, nu, skip), counted_from(replies, n, nv, skip));
    let c = match ddt {
        Some(m) => TypeChange::Ddt(m),
        None => TypeChange::Keep,
    };
    &&& only_chroma(a0, a1)
    &&& only_chroma(l0, l1)
    &&& r is Ok <==> nu == n && nv == n
    &&& r is Err ==> r == Err::<Vec<ChromaTuPlan>, Rav2dError>(Rav2dError::InvalidData) && coded1
        == coded0
    &&& r matches Ok(plans) ==> {
        &&& plans@.len() == n
        &&& forall|k: int|
            0 <= k < n ==> #[trigger] plans@[k] == inter_tu(p, cctx, c, us[k], vs[k], k)
        &&& forall|i: int, j: int|
            #[trigger] coded1.coded(i, j) == (coded0.coded(i, j) || (crate::coded::in_area(i, j)
                && in_tiles(p, n, i, j)))
    }
    &&& a1.ccoef[0]@ == above_after(p, true, us, a0.ccoef[0]@, nu)
    &&& l1.ccoef[0]@ == left_after(p, true, us, l0.ccoef[0]@, nu)
    &&& a1.ccoef[1]@ == above_after(p, true, vs, a0.ccoef[1]@, nv)
    &&& l1.ccoef[1]@ == left_after(p, true, vs, l0.ccoef[1]@, nv)
}

/// Takes the coefficients of the chroma of a motion-compensated block, whose
/// prediction is in place. `cctx` tells whether the planes may be mixed; `ddt`
/// is the mask of the types that become data-driven.
pub fn inter_chroma_residual(
    p: &ChromaTx,
    skip: bool,
    cctx: bool,
    ddt: Option<u16>,
    replies: &[CoefReply],
    a: &mut BlockContext,
    l: &mut BlockContext,
    coded: &mut CodedGrid,
) -> (r: Result<Vec<ChromaTuPlan>>)
    requires
        p.valid(),
        replies@.len() >= 2 * p.tiles().len(),
        old(coded).wf(),
    ensures
        final(coded).wf(),
        inter_chroma_result(
            *p,
            skip,
            cctx,
            ddt,
            replies@,
            *old(a),
            *final(a),
            *old(l),
            *final(l),
            *old(coded),
            *final(coded),
            r,
        ),
{
    let cs: ChromaCoefs = match read_chroma(p, true, skip, replies, a, l) {
        Ok(v) => v,
        Err(e) => {
            return Err(e);
        },
    };
    let tiles: Vec<TxTile> = p.list_tiles();
    mark_tiles(p, &tiles, coded);
    let change: TypeChange = match ddt {
        Some(m) => TypeChange::Ddt(m),
        None => TypeChange::Keep,
    };
    let n: usize = tiles.len();
    let mut plans: Vec<ChromaTuPlan> = Vec::new();
    let mut k: usize = 0;
    while k < n
        invariant
            k <= n,
            n == tiles@.len(),
            tiles@ == p.tiles(),
            cs.u@.len() == n,
            cs.v@.len() == n,
            plans@.len() == k,
            forall|q: int|
                0 <= q < k ==> #[trigger] plans@[q] == inter_tu(
                    *p,
                    cctx,
                    change,
                    cs.u@[q],
                    cs.v@[q],
                    q,
                ),
        decreases n - k,
    {
        let m: CctxMix = mix_planes(cctx, 0, &cs.u[k], &cs.v[k]);
        plans.push(plan_tu(tiles[k], None, &m, change));
        k = k + 1;
    }
    Ok(plans)
}

/// How the chroma of a block is predicted within its frame.
#[derive(Debug, Clone, Copy, PartialEq, Eq, Structural)]
pub struct ChromaBlock {
    pub is_intra: bool,
    pub intrabc: bool,
    pub sdp_active: bool,
    pub skip_txfm: bool,
    pub uv_mode: u8,
    pub sm_top: bool,
    pub sm_left: bool,
    pub lossless: bool,
    pub dpcm: bool,
    /// Whether the planes may be mixed.
    pub cctx: bool,
}

impl ChromaBlock {
    /// Whether chroma is predicted from its surroundings: where it is coded
    /// apart from luma, also in blocks that are copied.
    pub open spec fn predicted(self) -> bool {
        self.is_intra && (self.sdp_active || !self.intrabc)
    }

    pub open spec fn skips(self) -> bool {
        self.intrabc && self.skip_txfm
    }

    pub open spec fn mode(self, m: RemappedAngle) -> u8 {
        if self.uv_mode <= PAETH_PRED { m.mode } else { self.uv_mode }
    }
}

pub open spec fn chroma_site(p: ChromaTx, tile: TxTile) -> ChromaSite {
    ChromaSite {
        cbx: p.cbx,
        cby: p.cby,
        x: tile.x,
        y: tile.y,
        ss_hor: p.ss_hor,
        ss_ver: p.ss_ver,
        w: p.tw() as i32,
        h: p.th() as i32,
        full_w: (p.t.w * 4) as i32,
        full_h: (p.t.h * 4) as i32,
    }
}

/// The prediction of a transform block; there is none for chroma from luma.
pub open spec fn chroma_prediction(
    b: ChromaBlock,
    f: IntraTools,
    p: ChromaTx,
    t: EdgeBounds,
    g: CodedGrid,
    m: RemappedAngle,
    tile: TxTile,
) -> Option<IntraPlan> {
    let mode = b.mode(m);
    if !b.predicted() || mode == CFL_PRED {
        None
    } else {
        let ibp = f.ibp && !(p.t.w == 1 && p.t.h == 1);
        Some(
            IntraPlan {
                mode,
                angle: m.angle,
                flags: IntraFlags {
                    luma: false,
                    smooth_top: if ibp { b.sm_top } else { b.sm_top || b.sm_left },
                    smooth_left: if ibp { b.sm_left } else { b.sm_top || b.sm_left },
                    edge_filter: f.edge_filter,
                    ibp: ibp && mode == DC_PRED,
                    mrl_index: 0,
                    multi_mrl: false,
                    has_left: p.cbx + tile.x * p2(p.ss_hor as int) > t.col_start,
                    has_top: p.cby + tile.y * p2(p.ss_ver as int) > t.row_start,
                    dip: false,
                },
                n_tr: chroma_top_right(g, t, chroma_site(p, tile)) as i32,
                n_bl: chroma_bottom_left(g, t, chroma_site(p, tile)) as i32,
                max_w: (4 * p.fw - 4 * (p.cbx + tile.x)) as i32,
                max_h: (4 * p.fh - 4 * (p.cby + tile.y)) as i32,
            },
        )
    }
}

fn plan_chroma_prediction(
    b: &ChromaBlock,
    f: &IntraTools,
    p: &ChromaTx,
    t: &EdgeBounds,
    g: &CodedGrid,
    m: &RemappedAngle,
    tile: TxTile,
) -> (r: Option<IntraPlan>)
    requires
        p.valid(),
        t.valid(),
        16 <= t.sb_step,
        g.wf(),
        0 <= tile.x < p.w(),
        0 <= tile.y < p.h(),
    ensures
        r == chroma_prediction(*b, *f, *p, *t, *g, *m, tile),
{
    let mode: u8 = if b.uv_mode <= PAETH_PRED { m.mode } else { b.uv_mode };
    if !(b.is_intra && (b.sdp_active || !b.intrabc)) || mode == CFL_PRED {
        return None;
    }
    let ibp: bool = f.ibp && !(p.t.w == 1 && p.t.h == 1);
    let site: ChromaSite = ChromaSite {
        cbx: p.cbx,
        cby: p.cby,
        x: tile.x,
        y: tile.y,
        ss_hor: p.ss_hor,
        ss_ver: p.ss_ver,
        w: p.tile_width(),
        h: p.tile_height(),
        full_w: p.t.w * 4,
        full_h: p.t.h * 4,
    };
    let (w, h): (i32, i32) = (p.width(), p.height());
    let (cx, cy): (i32, i32) = (p.col(), p.row());
    assert(site.cx4() == cx && site.cy4() == cy);
    let n_tr: i32 = find_chroma_top_right(g, t, &site);
    let n_bl: i32 = find_chroma_bottom_left(g, t, &site);
    let sx: i32 = doubled(tile.x, p.ss_hor);
    let sy: i32 = doubled(tile.y, p.ss_ver);
    Some(
        IntraPlan {
            mode,
            angle: m.angle,
            flags: IntraFlags {
                luma: false,
                smooth_top: if ibp { b.sm_top } else { b.sm_top || b.sm_left },
                smooth_left: if ibp { b.sm_left } else { b.sm_top || b.sm_left },
                edge_filter: f.edge_filter,
                ibp: ibp && mode == DC_PRED,
                mrl_index: 0,
                multi_mrl: false,
                has_left: p.cbx + sx > t.col_start,
                has_top: p.cby + sy > t.row_start,
                dip: false,
            },
            n_tr,
            n_bl,
            max_w: 4 * p.fw - 4 * (p.cbx + tile.x),
            max_h: 4 * p.fh - 4 * (p.cby + tile.y),
        },
    )
}

pub open spec fn chroma_change(b: ChromaBlock, f: IntraTools, mode: u8) -> TypeChange {
    if b.lossless && b.predicted() && b.dpcm {
        TypeChange::Dpcm(mode == VERT_PRED)
    } else if b.intrabc {
        match f.ddt {
            Some(m) => TypeChange::Ddt(m),
            None => TypeChange::Keep,
        }
    } else {
        TypeChange::Keep
    }
}

/// The marks on the way through the transform blocks, and the plans that are
/// made from them: each block is predicted with those before it marked.
pub open spec fn chroma_built(
    gs: Seq<CodedGrid>,
    b: ChromaBlock,
    f: IntraTools,
    p: ChromaTx,
    t: EdgeBounds,
    m: RemappedAngle,
    us: Seq<CoefReply>,
    vs: Seq<CoefReply>,
    plans: Seq<ChromaTuPlan>,
) -> bool {
    &&& gs.len() == plans.len() + 1
    &&& forall|k: int|
        0 <= k < plans.len() ==> marked(
            #[trigger] gs[k],
            gs[k + 1],
            p.cx4() + p.tiles()[k].x,
            p.cy4() + p.tiles()[k].y,
            p.tw(),
            p.th(),
        )
    &&& forall|k: int|
        0 <= k < plans.len() ==> #[trigger] plans[k] == tu_plan(
            p.tiles()[k],
            chroma_prediction(b, f, p, t, gs[k], m, p.tiles()[k]),
            cctx_mix(b.cctx, 1, us[k], vs[k]),
            chroma_change(b, f, b.mode(m)),
        )
}

fn build_chroma(
    b: &ChromaBlock,
    f: &IntraTools,
    p: &ChromaTx,
    t: &EdgeBounds,
    m: &RemappedAngle,
    cs: &ChromaCoefs,
    coded: &mut CodedGrid,
) -> (r: Vec<ChromaTuPlan>)
    requires
        p.valid(),
        t.valid(),
        16 <= t.sb_step,
        old(coded).wf(),
        cs.u@.len() == p.tiles().len(),
        cs.v@.len() == p.tiles().len(),
    ensures
        final(coded).wf(),
        r@.len() == p.tiles().len(),
        exists|gs: Seq<CodedGrid>|
            #[trigger] chroma_built(gs, *b, *f, *p, *t, *m, cs.u@, cs.v@, r@) && gs[0] == *old(coded)
                && gs.last() == *final(coded),
{
    let tiles: Vec<TxTile> = p.list_tiles();
    let n: usize = tiles.len();
    let mode: u8 = if b.uv_mode <= PAETH_PRED { m.mode } else { b.uv_mode };
    let predicted: bool = b.is_intra && (b.sdp_active || !b.intrabc);
    let change: TypeChange = if b.lossless && predicted && b.dpcm {
        TypeChange::Dpcm(mode == VERT_PRED)
    } else if b.intrabc {
        match f.ddt {
            Some(mask) => TypeChange::Ddt(mask),
            None => TypeChange::Keep,
        }
    } else {
        TypeChange::Keep
    };
    let (cx, cy): (i32, i32) = (p.col(), p.row());
    let (tw, th): (i32, i32) = (p.tile_width(), p.tile_height());
    let ghost mut gs: Seq<CodedGrid> = seq![*coded];
    let ghost g0 = *coded;
    let mut plans: Vec<ChromaTuPlan> = Vec::new();
    let mut k: usize = 0;
    while k < n
        invariant
            p.valid(),
            t.valid(),
            16 <= t.sb_step,
            n == tiles@.len(),
            tiles@ == p.tiles(),
            k <= n,
            forall|k: int|
                0 <= k < tiles@.len() ==> 0 <= (#[trigger] tiles@[k]).x < p.w() && 0 <= tiles@[k].y
                    < p.h(),
            cs.u@.len() == n,
            cs.v@.len() == n,
            cx == p.cx4(),
            cy == p.cy4(),
            0 <= cx,
            0 <= cy,
            tw == p.tw(),
            th == p.th(),
            tw <= p.t.w,
            th <= p.t.h,
            change == chroma_change(*b, *f, b.mode(*m)),
            coded.wf(),
            plans@.len() == k,
            chroma_built(gs, *b, *f, *p, *t, *m, cs.u@, cs.v@, plans@),
            gs[0] == g0,
            gs.last() == *coded,
        decreases n - k,
    {
        let tile: TxTile = tiles[k];
        let pred: Option<IntraPlan> = plan_chroma_prediction(b, f, p, t, coded, m, tile);
        let mix: CctxMix = mix_planes(b.cctx, 1, &cs.u[k], &cs.v[k]);
        let ghost (gs0, plans0) = (gs, plans@);
        plans.push(plan_tu(tile, pred, &mix, change));
        coded.mark(cx + tile.x, cy + tile.y, tw, th);
        proof {
            gs = gs.push(*coded);
            assert(gs[k as int] == gs0.last());
            assert forall|q: int| 0 <= q < plans@.len() implies marked(
                #[trigger] gs[q],
                gs[q + 1],
                p.cx4() + p.tiles()[q].x,
                p.cy4() + p.tiles()[q].y,
                p.tw(),
                p.th(),
            ) by {
                if q < k {
                    assert(gs[q] == gs0[q] && gs[q + 1] == gs0[q + 1]);
                }
            }
            assert forall|q: int| 0 <= q < plans@.len() implies #[trigger] plans@[q] == tu_plan(
                p.tiles()[q],
                chroma_prediction(*b, *f, *p, *t, gs[q], *m, p.tiles()[q]),
                cctx_mix(b.cctx, 1, cs.u@[q], cs.v@[q]),
                chroma_change(*b, *f, b.mode(*m)),
            ) by {
                if q < k {
                    assert(plans@[q] == plans0[q] && gs[q] == gs0[q]);
                }
            }
        }
        k = k + 1;
    }
    plans
}

/// The coefficients of a block that has none.
pub open spec fn no_coefs(c: ChromaCoefs, n: int) -> bool {
    c.u@.len() == n && c.v@.len() == n && forall|k: int|
        0 <= k < n ==> #[trigger] c.u@[k] == skipped_reply() && #[trigger] c.v@[k] == skipped_reply()
}

/// The contexts after a block whose coefficients are skipped as a whole.
pub open spec fn skipped_context(
    a0: BlockContext,
    a1: BlockContext,
    at: int,
    n: int,
) -> bool {
    only_chroma(a0, a1) && a1.ccoef[0]@ == filled(a0.ccoef[0]@, at, n, SKIPPED_CTX) && a1.ccoef[1]@
        == filled(a0.ccoef[1]@, at, n, SKIPPED_CTX)
}

fn skip_chroma(p: &ChromaTx, a: &mut BlockContext, l: &mut BlockContext)
    requires
        p.valid(),
    ensures
        skipped_context(*old(a), *final(a), p.cx4(), max(min(p.w(), 64 - p.cx4()), 0)),
        skipped_context(*old(l), *final(l), p.cy4(), max(min(p.h(), 64 - p.cy4()), 0)),
{
    let (cx, cy): (i32, i32) = (p.col(), p.row());
    let aw: i32 = imax(imin(p.width(), 64 - cx), 0);
    let lh: i32 = imax(imin(p.height(), 64 - cy), 0);
    let mut r0: [u8; 64] = a.ccoef[0];
    fill_row(&mut r0, cx as usize, aw as usize, SKIPPED_CTX);
    a.ccoef[0] = r0;
    let mut r1: [u8; 64] = a.ccoef[1];
    fill_row(&mut r1, cx as usize, aw as usize, SKIPPED_CTX);
    a.ccoef[1] = r1;
    let mut c0: [u8; 64] = l.ccoef[0];
    fill_row(&mut c0, cy as usize, lh as usize, SKIPPED_CTX);
    l.ccoef[0] = c0;
    let mut c1: [u8; 64] = l.ccoef[1];
    fill_row(&mut c1, cy as usize, lh as usize, SKIPPED_CTX);
    l.ccoef[1] = c1;
}

fn empty_coefs(n: usize) -> (r: ChromaCoefs)
    ensures
        no_coefs(r, n as int),
{
    let mut u: Vec<CoefReply> = Vec::new();
    let mut v: Vec<CoefReply> = Vec::new();
    let none: CoefReply = CoefReply { eob: -1, txtp: 0, res_ctx: SKIPPED_CTX };
    let mut k: usize = 0;
    while k < n
        invariant
            k <= n,
            none == skipped_reply(),
            u@.len() == k,
            v@.len() == k,
            forall|q: int| 0 <= q < k ==> #[trigger] u@[q] == skipped_reply(),
            forall|q: int| 0 <= q < k ==> #[trigger] v@[q] == skipped_reply(),
        decreases n - k,
    {
        u.push(none);
        v.push(none);
        k = k + 1;
    }
    ChromaCoefs { u, v }
}

/// The contexts after the coefficients were read, and what was read. `ok`
/// tells whether all could be.
pub open spec fn chroma_read(
    b: ChromaBlock,
    p: ChromaTx,
    replies: Seq<CoefReply>,
    a0: BlockContext,
    a1: BlockContext,
    l0: BlockContext,
    l1: BlockContext,
    ok: bool,
    c: ChromaCoefs,
) -> bool {
    let n = p.tiles().len() as int;
    if b.skips() {
        &&& ok
        &&& no_coefs(c, n)
        &&& skipped_context(a0, a1, p.cx4(), max(min(p.w(), 64 - p.cx4()), 0))
        &&& skipped_context(l0, l1, p.cy4(), max(min(p.h(), 64 - p.cy4()), 0))
    } else {
        let (nu, nv) = read_counts(p, replies, false);
        let (us, vs) = (counted_from(replies, 0, nu, false), counted_from(replies, n, nv, false));
        &&& ok == (nu == n && nv == n)
        &&& ok ==> c.u@ == us && c.v@ == vs
        &&& only_chroma(a0, a1)
        &&& only_chroma(l0, l1)
        &&& a1.ccoef[0]@ == above_after(p, false, us, a0.ccoef[0]@, nu)
        &&& l1.ccoef[0]@ == left_after(p, false, us, l0.ccoef[0]@, nu)
        &&& a1.ccoef[1]@ == above_after(p, false, vs, a0.ccoef[1]@, nv)
        &&& l1.ccoef[1]@ == left_after(p, false, vs, l0.ccoef[1]@, nv)
    }
}

fn read_intra_chroma(
    b: &ChromaBlock,
    p: &ChromaTx,
    replies: &[CoefReply],
    a: &mut BlockContext,
    l: &mut BlockContext,
) -> (r: Option<ChromaCoefs>)
    requires
        p.valid(),
        b.skips() || replies@.len() >= 2 * p.tiles().len(),
    ensures
        r matches Some(c) ==> chroma_read(
            *b,
            *p,
            replies@,
            *old(a),
            *final(a),
            *old(l),
            *final(l),
            true,
            c,
        ) && c.u@.len() == p.tiles().len() && c.v@.len() == p.tiles().len(),
        r is None ==> forall|c: ChromaCoefs| #[trigger]
            chroma_read(*b, *p, replies@, *old(a), *final(a), *old(l), *final(l), false, c),
{
    if b.intrabc && b.skip_txfm {
        skip_chroma(p, a, l);
        let tiles: Vec<TxTile> = p.list_tiles();
        Some(empty_coefs(tiles.len()))
    } else {
        match read_chroma(p, false, false, replies, a, l) {
            Ok(c) => Some(c),
            Err(_) => None,
        }
    }
}

/// What is done of the chroma of a block: whether it is predicted from luma
/// first, and the plans of its transform blocks.
#[derive(Debug)]
pub struct ChromaPlan {
    pub cfl: bool,
    pub tus: Vec<ChromaTuPlan>,
}

/// A plan that follows from the coefficients and the marks.
pub open spec fn chroma_planned(
    b: ChromaBlock,
    f: IntraTools,
    p: ChromaTx,
    t: EdgeBounds,
    m: RemappedAngle,
    c: ChromaCoefs,
    g0: CodedGrid,
    g1: CodedGrid,
    plan: ChromaPlan,
) -> bool {
    &&& plan.cfl == (b.predicted() && b.mode(m) == CFL_PRED)
    &&& plan.tus@.len() == p.tiles().len()
    &&& exists|gs: Seq<CodedGrid>|
        #[trigger] chroma_built(gs, b, f, p, t, m, c.u@, c.v@, plan.tus@) && gs[0] == g0
            && gs.last() == g1
}

fn plan_chroma(
    b: &ChromaBlock,
    f: &IntraTools,
    p: &ChromaTx,
    t: &EdgeBounds,
    m: &RemappedAngle,
    c: &ChromaCoefs,
    coded: &mut CodedGrid,
) -> (r: ChromaPlan)
    requires
        p.valid(),
        t.valid(),
        16 <= t.sb_step,
        old(coded).wf(),
        c.u@.len() == p.tiles().len(),
        c.v@.len() == p.tiles().len(),
    ensures
        final(coded).wf(),
        chroma_planned(*b, *f, *p, *t, *m, *c, *old(coded), *final(coded), r),
{
    let mode: u8 = if b.uv_mode <= PAETH_PRED { m.mode } else { b.uv_mode };
    let cfl: bool = b.is_intra && (b.sdp_active || !b.intrabc) && mode == CFL_PRED;
    let tus: Vec<ChromaTuPlan> = build_chroma(b, f, p, t, m, c, coded);
    ChromaPlan { cfl, tus }
}

/// What a phase of a chroma block that is predicted within its frame gives.
pub open spec fn chroma_phase_result(
    b: ChromaBlock,
    f: IntraTools,
    p: ChromaTx,
    t: EdgeBounds,
    m: RemappedAngle,
    phase: ChromaPhase,
    replies: Seq<CoefReply>,
    stash0: ChromaCoefs,
    stash1: ChromaCoefs,
    a0: BlockContext,
    a1: BlockContext,
    l0: BlockContext,
    l1: BlockContext,
    coded0: CodedGrid,
    coded1: CodedGrid,
    r: Result<Option<ChromaPlan>>,
) -> bool {
    &&& r is Err ==> r == Err::<Option<ChromaPlan>, Rav2dError>(Rav2dError::InvalidData) && stash1
        == stash0 && coded1 == coded0 && (phase == ChromaPhase::Both || phase
        == ChromaPhase::ReadOnly) && forall|c: ChromaCoefs| #[trigger]
        chroma_read(b, p, replies, a0, a1, l0, l1, false, c)
    &&& phase == ChromaPhase::Nothing ==> r == Ok::<Option<ChromaPlan>, Rav2dError>(None) && stash1
        == stash0 && a1 == a0 && l1 == l0 && coded1 == coded0
    &&& phase == ChromaPhase::ReadOnly && r is Ok ==> r == Ok::<Option<ChromaPlan>, Rav2dError>(
        None,
    ) && coded1 == coded0 && chroma_read(b, p, replies, a0, a1, l0, l1, true, stash1)
    &&& phase == ChromaPhase::ReconOnly ==> stash1 == stash0 && a1 == a0 && l1 == l0 && (
    r matches Ok(Some(plan)) && chroma_planned(b, f, p, t, m, stash0, coded0, coded1, plan))
    &&& phase == ChromaPhase::Both && r is Ok ==> stash1 == stash0 && (r matches Ok(Some(plan))
        && exists|c: ChromaCoefs| #[trigger]
        chroma_read(b, p, replies, a0, a1, l0, l1, true, c) && chroma_planned(
            b,
            f,
            p,
            t,
            m,
            c,
            coded0,
            coded1,
            plan,
        ))
}

/// Reconstructs the chroma of a block that is predicted within its frame. The
/// coefficients may be read ahead of the reconstruction: they wait in `stash`
/// until then. `m` is the mode and angle, adapted to the shape of the
/// transform.
pub fn recon_b_intra_chroma_phase(
    b: &ChromaBlock,
    f: &IntraTools,
    p: &ChromaTx,
    t: &EdgeBounds,
    m: &RemappedAngle,
    phase: ChromaPhase,
    replies: &[CoefReply],
    stash: &mut ChromaCoefs,
    a: &mut BlockContext,
    l: &mut BlockContext,
    coded: &mut CodedGrid,
) -> (r: Result<Option<ChromaPlan>>)
    requires
        p.valid(),
        t.valid(),
        16 <= t.sb_step,
        old(coded).wf(),
        phase == ChromaPhase::Both || phase == ChromaPhase::ReadOnly ==> b.skips() || replies@.len()
            >= 2 * p.tiles().len(),
        phase == ChromaPhase::ReconOnly ==> old(stash).u@.len() == p.tiles().len()
            && old(stash).v@.len() == p.tiles().len(),
    ensures
        final(coded).wf(),
        chroma_phase_result(
            *b,
            *f,
            *p,
            *t,
            *m,
            phase,
            replies@,
            *old(stash),
            *final(stash),
            *old(a),
            *final(a),
            *old(l),
            *final(l),
            *old(coded),
            *final(coded),
            r,
        ),
{
    match phase {
        ChromaPhase::Nothing => Ok(None),
        ChromaPhase::ReconOnly => Ok(Some(plan_chroma(b, f, p, t, m, stash, coded))),
        ChromaPhase::ReadOnly => {
            match read_intra_chroma(b, p, replies, a, l) {
                Some(c) => {
                    *stash = c;
                    Ok(None)
                },
                None => Err(Rav2dError::InvalidData),
            }
        },
        ChromaPhase::Both => {
            match read_intra_chroma(b, p, replies, a, l) {
                Some(c) => Ok(Some(plan_chroma(b, f, p, t, m, &c, coded))),
                None => Err(Rav2dError::InvalidData),
            }
        },
    }
}

/// Every unit of chroma of a block that lies within the frame lies in one of
/// its transform blocks.
pub proof fn law_chroma_blocks_cover_their_block(p: ChromaTx, x: int, y: int) -> (k: int)
    requires
        p.valid(),
        0 <= x < p.w(),
        0 <= y < p.h(),
    ensures
        0 <= k < p.tiles().len(),
        covers_unit(p.tiles()[k], x, y),
{
    law_raster_covers_the_block(p.t, 0, 0, p.w(), p.h(), x, y)
}

/// The coefficients of the first chroma plane come before those of the second,
/// each in the order of the transform blocks; the second plane is told whether
/// the first one has any.
pub proof fn law_first_plane_is_read_first(p: ChromaTx, replies: Seq<CoefReply>)
    ensures
        ({
            let n = p.tiles().len();
            let k = replies.len() as int;
            let r = chroma_request(p, replies);
            &&& r is None <==> k >= 2 * n
            &&& k < n ==> (r matches Some(q) && q.plane == 1 && q.tile == p.tiles()[k])
            &&& n <= k < 2 * n ==> (r matches Some(q) && q.plane == 2 && q.tile == p.tiles()[k - n]
                && (q.u_has_cf <==> n > 0 && replies[n - 1].eob >= 0))
        }),
{
}

/// Chroma units for luma units: half as many, rounded up, where chroma is
/// subsampled.
pub proof fn law_chroma_units(n: int)
    requires
        0 <= n,
    ensures
        shared(n, 0) == n,
        n <= 2 * shared(n, 1) <= n + 1,
{
}

/// What the prediction of a chroma transform block is told of its
/// surroundings.
pub proof fn law_chroma_prediction_knows_its_edges(
    b: ChromaBlock,
    f: IntraTools,
    p: ChromaTx,
    t: EdgeBounds,
    g: CodedGrid,
    m: RemappedAngle,
    tile: TxTile,
)
    requires
        b.is_intra,
        b.sdp_active || !b.intrabc,
        b.uv_mode <= 12,
        m.mode <= 12,
        p.ss_hor == 0,
        p.ss_ver == 0,
        0 <= p.cbx <= 0x10_0000,
        0 <= p.cby <= 0x10_0000,
        0 <= p.fw <= 0x10_0000,
        0 <= p.fh <= 0x10_0000,
        0 <= tile.x <= 64,
        0 <= tile.y <= 64,
    ensures
        chroma_prediction(b, f, p, t, g, m, tile) matches Some(q) && {
            &&& q.mode == m.mode && q.angle == m.angle
            &&& !q.flags.luma && !q.flags.dip && q.flags.mrl_index == 0
            &&& q.flags.has_left == (p.cbx + tile.x > t.col_start)
            &&& q.flags.has_top == (p.cby + tile.y > t.row_start)
            &&& q.max_w == 4 * (p.fw - p.cbx - tile.x)
            &&& q.max_h == 4 * (p.fh - p.cby - tile.y)
            &&& !f.ibp ==> (q.flags.smooth_top <==> b.sm_top || b.sm_left)
            &&& f.ibp && p.t.w > 1 ==> q.flags.smooth_top == b.sm_top && q.flags.smooth_left
                == b.sm_left
            &&& q.flags.ibp ==> m.mode == 0
        },
{
    assert(p2(0) == 1);
    assert(tile.x * p2(0) == tile.x && tile.y * p2(0) == tile.y) by (nonlinear_arith)
        requires
            p2(0) == 1,
    ;
}

/// Chroma from luma, and chroma of copies that goes along with luma, is not
/// predicted from its edges.
pub proof fn law_chroma_without_edges(
    b: ChromaBlock,
    f: IntraTools,
    p: ChromaTx,
    t: EdgeBounds,
    g: CodedGrid,
    m: RemappedAngle,
    tile: TxTile,
)
    ensures
        b.uv_mode == CFL_PRED ==> chroma_prediction(b, f, p, t, g, m, tile) is None,
        !b.is_intra || (b.intrabc && !b.sdp_active) ==> chroma_prediction(b, f, p, t, g, m, tile) is None,
        b.lossless && b.is_intra && !b.intrabc && b.dpcm ==> chroma_change(b, f, 1)
            == TypeChange::Dpcm(true) && chroma_change(b, f, 2) == TypeChange::Dpcm(false),
        b.skips() <==> b.intrabc && b.skip_txfm,
{
}

/// A plane has a residual where it has a last coefficient, of the mixed type.
pub proof fn law_planes_have_their_residual(
    tile: TxTile,
    pred: Option<IntraPlan>,
    m: CctxMix,
)
    ensures
        ({
            let r = tu_plan(tile, pred, m, TypeChange::Keep);
            &&& r.tile == tile && r.prediction == pred && r.angle == m.angle
            &&& r.u is None <==> m.eob.0 == -1
            &&& r.v is None <==> m.eob.1 == -1
            &&& r.u matches Some(x) ==> x.eob == m.eob.0 && x.txtp == m.txtp.0
            &&& r.v matches Some(x) ==> x.eob == m.eob.1 && x.txtp == m.txtp.1
        }),
{
}

} // verus!
