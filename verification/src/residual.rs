//! What the coefficients of a transform block lead to.
use vstd::prelude::*;

use crate::coded::CodedGrid;
use crate::env::BlockContext;
use crate::error::{Rav2dError, Result};
use crate::intops::{imax, imin, max, min};
use crate::txwalk::TxSize;

verus! {

/// The coefficients of a transform block as they were read: the index of the
/// last one, -1 where there is none; the transform type, with the secondary
/// transform or the cross-component transform in the high byte; and what
/// later blocks see of it. An index of `i32::MIN` tells that they could not be
/// read.
#[derive(Debug, Clone, Copy, PartialEq, Eq, Structural)]
pub struct CoefReply {
    pub eob: i32,
    pub txtp: u16,
    pub res_ctx: u8,
}

/// What later blocks see of a block without coefficients.
pub const SKIPPED_CTX: u8 = 0x40;

impl CoefReply {
    pub open spec fn valid(self) -> bool {
        self.eob == i32::MIN || -1 <= self.eob < 0x4000
    }

    pub open spec fn failed(self) -> bool {
        self.eob == i32::MIN
    }
}

/// The reply that stands for a block whose coefficients are skipped.
pub open spec fn skipped_reply() -> CoefReply {
    CoefReply { eob: (-1int) as i32, txtp: 0, res_ctx: SKIPPED_CTX }
}

/// The reply that counts.
pub open spec fn counted(skip: bool, r: CoefReply) -> CoefReply {
    if skip { skipped_reply() } else { r }
}

pub fn count_reply(skip: bool, r: &CoefReply) -> (res: CoefReply)
    ensures
        res == counted(skip, *r),
{
    if skip {
        CoefReply { eob: -1, txtp: 0, res_ctx: SKIPPED_CTX }
    } else {
        *r
    }
}

/// `row` with `n` entries from `at` on set to `v`.
pub open spec fn filled(row: Seq<u8>, at: int, n: int, v: u8) -> Seq<u8> {
    Seq::new(row.len(), |i: int| if at <= i < at + n { v } else { row[i] })
}

pub fn fill_row(row: &mut [u8; 64], at: usize, n: usize, v: u8)
    requires
        at + n <= 64,
    ensures
        final(row)@ == filled(old(row)@, at as int, n as int, v),
{
    let ghost r0 = row@;
    let mut k: usize = 0;
    while k < n
        invariant
            k <= n,
            at + n <= 64,
            row@ == filled(r0, at as int, k as int, v),
            r0.len() == 64,
        decreases n - k,
    {
        row[at + k] = v;
        k = k + 1;
        assert(row@ =~= filled(r0, at as int, k as int, v));
    }
    assert(row@ =~= filled(r0, at as int, n as int, v));
}

/// The secondary transform of a block.
#[derive(Debug, Clone, Copy, PartialEq, Eq, Structural)]
pub struct StxPlan {
    /// Whether the kernels for eight by eight coefficients are used.
    pub eight: bool,
    /// The kernel, among those of its size.
    pub kernel: i32,
    /// Where its coefficients start.
    pub offset: i32,
    /// The order in which the results are placed.
    pub scan: i32,
    pub transpose: bool,
    /// The index of the last coefficient after it.
    pub eob: i32,
}

/// The side of a transform in units.
pub open spec fn is_side(n: int) -> bool {
    n == 1 || n == 2 || n == 4 || n == 8 || n == 16
}

/// The number of times that one unit is doubled to give the side.
pub open spec fn side_log2(n: int) -> int {
    if n == 1 {
        0
    } else if n == 2 {
        1
    } else if n == 4 {
        2
    } else if n == 8 {
        3
    } else {
        4
    }
}

/// The secondary transform that a code stands for: the low two bits give the
/// kernel, the next four the set of kernels.
pub open spec fn stx_plan(code: int, t: TxSize, transpose: bool) -> Option<StxPlan> {
    let kernel = code / 4 % 16 * 3 + code % 4 - 1;
    let side = min(side_log2(t.h as int), 3);
    if code % 4 == 0 {
        None
    } else if t.w >= 2 && t.h >= 2 {
        Some(
            StxPlan {
                eight: true,
                kernel: kernel as i32,
                offset: (kernel * 1536) as i32,
                scan: (side - 1) as i32,
                transpose,
                eob: if side == 1 { 63 } else if side == 2 { 119 } else { 231 },
            },
        )
    } else {
        Some(
            StxPlan {
                eight: false,
                kernel: kernel as i32,
                offset: (kernel * 128) as i32,
                scan: side as i32,
                transpose,
                eob: if side <= 1 { 15 } else if side == 2 { 51 } else { 99 },
            },
        )
    }
}

pub fn plan_stx(code: u16, t: TxSize, transpose: bool) -> (r: Option<StxPlan>)
    requires
        code < 256,
        is_side(t.h as int),
    ensures
        r == stx_plan(code as int, t, transpose),
{
    let low: i32 = code as i32 % 4;
    if low == 0 {
        return None;
    }
    let kernel: i32 = code as i32 / 4 % 16 * 3 + low - 1;
    let side: i32 = if t.h == 1 { 0 } else if t.h == 2 { 1 } else if t.h == 4 { 2 } else { 3 };
    if t.w >= 2 && t.h >= 2 {
        Some(
            StxPlan {
                eight: true,
                kernel,
                offset: kernel * 1536,
                scan: side - 1,
                transpose,
                eob: if side == 1 { 63 } else if side == 2 { 119 } else { 231 },
            },
        )
    } else {
        Some(
            StxPlan {
                eight: false,
                kernel,
                offset: kernel * 128,
                scan: side,
                transpose,
                eob: if side <= 1 { 15 } else if side == 2 { 51 } else { 99 },
            },
        )
    }
}

/// What the type of a transform is changed for.
#[derive(Debug, Clone, Copy, PartialEq, Eq, Structural)]
pub enum TypeChange {
    Keep,
    /// Differences along the prediction of a lossless block; the flag tells
    /// whether it is vertical.
    Dpcm(bool),
    /// Types under the mask become data-driven ones.
    Ddt(u16),
}

pub open spec fn changed_type(txtp: u16, c: TypeChange) -> int {
    match c {
        TypeChange::Keep => txtp as int,
        TypeChange::Dpcm(vertical) => txtp + (if vertical { 512int } else { 256 }),
        TypeChange::Ddt(mask) => txtp + (txtp & mask),
    }
}

pub fn change_type(txtp: u16, c: TypeChange) -> (r: u32)
    ensures
        r == changed_type(txtp, c),
{
    match c {
        TypeChange::Keep => txtp as u32,
        TypeChange::Dpcm(vertical) => txtp as u32 + (if vertical { 512 } else { 256 }),
        TypeChange::Ddt(mask) => txtp as u32 + (txtp & mask) as u32,
    }
}

/// The inverse transform of a block.
#[derive(Debug, Clone, Copy, PartialEq, Eq, Structural)]
pub struct TxResidual {
    pub stx: Option<StxPlan>,
    /// The index of the last coefficient, after a secondary transform.
    pub eob: i32,
    pub txtp: u32,
}

/// What is added to the prediction of a luma transform block.
pub open spec fn luma_residual(r: CoefReply, t: TxSize, transpose: bool, c: TypeChange) -> Option<
    TxResidual,
> {
    if r.eob == -1 {
        None
    } else {
        let stx = stx_plan(r.txtp as int / 256, t, transpose);
        Some(
            TxResidual {
                stx,
                eob: match stx {
                    Some(s) => s.eob,
                    None => r.eob,
                },
                txtp: changed_type((r.txtp % 256) as u16, c) as u32,
            },
        )
    }
}

pub fn plan_luma_residual(r: &CoefReply, t: TxSize, transpose: bool, c: TypeChange) -> (res: Option<
    TxResidual,
>)
    requires
        is_side(t.h as int),
    ensures
        res == luma_residual(*r, t, transpose, c),
{
    if r.eob == -1 {
        return None;
    }
    let stx: Option<StxPlan> = plan_stx(r.txtp / 256, t, transpose);
    let eob: i32 = match stx {
        Some(s) => s.eob,
        None => r.eob,
    };
    Some(TxResidual { stx, eob, txtp: change_type(r.txtp % 256, c) })
}

/// How many of `n` units from `at` on lie in a frame of `end` units.
pub open spec fn units_inside(n: int, end: int, at: int) -> int {
    max(min(n, end - at), 0)
}

/// Where a transform block lies, and the size of the frame, in units.
#[derive(Debug, Clone, Copy, PartialEq, Eq, Structural)]
pub struct TxSite {
    pub t: TxSize,
    pub bx: i32,
    pub by: i32,
    pub fw: i32,
    pub fh: i32,
}

impl TxSite {
    pub open spec fn valid(self) -> bool {
        &&& is_side(self.t.w as int)
        &&& is_side(self.t.h as int)
        &&& 0 <= self.bx <= 0x10_0000
        &&& 0 <= self.by <= 0x10_0000
        &&& 0 <= self.fw <= 0x10_0000
        &&& 0 <= self.fh <= 0x10_0000
        &&& self.bx % 64 + self.t.w <= 64
        &&& self.by % 64 + self.t.h <= 64
    }
}

/// Later blocks see `ctx` above and to the left of them as far as the
/// transform block lies in the frame.
pub open spec fn luma_context_after(
    a0: BlockContext,
    a1: BlockContext,
    at: int,
    n: int,
    ctx: u8,
) -> bool {
    a1 == (BlockContext { lcoef: a1.lcoef, ..a0 }) && a1.lcoef@ == filled(a0.lcoef@, at, n, ctx)
}

/// Writes what later blocks see of a luma transform block.
pub fn write_luma_context(s: &TxSite, ctx: u8, a: &mut BlockContext, l: &mut BlockContext)
    requires
        s.valid(),
    ensures
        luma_context_after(
            *old(a),
            *final(a),
            s.bx as int % 64,
            units_inside(s.t.w as int, s.fw as int, s.bx as int),
            ctx,
        ),
        luma_context_after(
            *old(l),
            *final(l),
            s.by as int % 64,
            units_inside(s.t.h as int, s.fh as int, s.by as int),
            ctx,
        ),
{
    let aw: i32 = imax(imin(s.t.w, s.fw - s.bx), 0);
    let lh: i32 = imax(imin(s.t.h, s.fh - s.by), 0);
    let mut row: [u8; 64] = a.lcoef;
    fill_row(&mut row, (s.bx % 64) as usize, aw as usize, ctx);
    a.lcoef = row;
    let mut col: [u8; 64] = l.lcoef;
    fill_row(&mut col, (s.by % 64) as usize, lh as usize, ctx);
    l.lcoef = col;
}

/// The marks of `g1` are those of `g0` and the units of a rectangle.
pub open spec fn marked(g0: CodedGrid, g1: CodedGrid, x: int, y: int, w: int, h: int) -> bool {
    forall|i: int, j: int|
        #[trigger] g1.coded(i, j) == (g0.coded(i, j) || (crate::coded::in_area(i, j)
            && crate::coded::in_rect(i, j, x, y, w, h)))
}

/// `t1` is `t0` with the units of a transform block within an area of sixteen
/// by sixteen set to `v`.
pub open spec fn types_recorded(t0: Seq<u16>, t1: Seq<u16>, s: TxSite, v: u16) -> bool {
    let (x0, y0) = (s.bx as int % 16, s.by as int % 16);
    &&& t1.len() == t0.len()
    &&& forall|i: int|
        0 <= i < 256 ==> #[trigger] t1[i] == if x0 <= i % 16 < x0 + s.t.w && y0 <= i / 16 < y0
            + s.t.h {
            v
        } else {
            t0[i]
        }
}

fn record_types(s: &TxSite, v: u16, types: &mut [u16; 256])
    requires
        s.valid(),
    ensures
        types_recorded(old(types)@, final(types)@, *s, v),
{
    let ghost t0 = types@;
    let (x0, y0): (usize, usize) = ((s.bx % 16) as usize, (s.by % 16) as usize);
    let mut k: usize = 0;
    while k < 256
        invariant
            k <= 256,
            s.valid(),
            x0 == s.bx as int % 16,
            y0 == s.by as int % 16,
            t0.len() == 256,
            forall|i: int|
                k <= i < 256 ==> #[trigger] types@[i] == t0[i],
            forall|i: int|
                0 <= i < k ==> #[trigger] types@[i] == if x0 <= i % 16 < x0 + s.t.w && y0 <= i / 16
                    < y0 + s.t.h {
                    v
                } else {
                    t0[i]
                },
        decreases 256 - k,
    {
        let (x, y): (usize, usize) = (k % 16, k / 16);
        if x0 <= x && x < x0 + s.t.w as usize && y0 <= y && y < y0 + s.t.h as usize {
            types[k] = v;
        }
        k = k + 1;
    }
}

/// Takes the coefficients of a luma transform block that is predicted from
/// other frames: the context and the marks are updated, the types of its units
/// are kept for chroma, and the inverse transform is returned. `ddt` is the
/// mask of the types that become data-driven, where that is enabled.
pub fn inter_residual_tx(
    s: &TxSite,
    skip: bool,
    reply: &CoefReply,
    ddt: Option<u16>,
    a: &mut BlockContext,
    l: &mut BlockContext,
    coded: &mut CodedGrid,
    types: &mut [u16; 256],
) -> (r: Result<Option<TxResidual>>)
    requires
        s.valid(),
        old(coded).wf(),
    ensures
        final(coded).wf(),
        r is Err <==> !skip && reply.failed(),
        r is Err ==> r == Err::<Option<TxResidual>, Rav2dError>(Rav2dError::InvalidData) && *final(a)
            == *old(a) && *final(l) == *old(l) && *final(coded) == *old(coded) && *final(types)
            == *old(types),
        r matches Ok(v) ==> {
            let c = counted(skip, *reply);
            &&& v == luma_residual(
                c,
                s.t,
                true,
                match ddt {
                    Some(m) => TypeChange::Ddt(m),
                    None => TypeChange::Keep,
                },
            )
            &&& luma_context_after(
                *old(a),
                *final(a),
                s.bx as int % 64,
                units_inside(s.t.w as int, s.fw as int, s.bx as int),
                c.res_ctx,
            )
            &&& luma_context_after(
                *old(l),
                *final(l),
                s.by as int % 64,
                units_inside(s.t.h as int, s.fh as int, s.by as int),
                c.res_ctx,
            )
            &&& marked(
                *old(coded),
                *final(coded),
                s.bx as int % 64,
                s.by as int % 64,
                s.t.w as int,
                s.t.h as int,
            )
            &&& if skip {
                *final(types) == *old(types)
            } else {
                types_recorded(old(types)@, final(types)@, *s, (reply.txtp % 256) as u16)
            }
        },
{
    if !skip && reply.eob == i32::MIN {
        return Err(Rav2dError::InvalidData);
    }
    let c: CoefReply = count_reply(skip, reply);
    if !skip {
        record_types(s, reply.txtp % 256, types);
    }
    write_luma_context(s, c.res_ctx, a, l);
    coded.mark(s.bx % 64, s.by % 64, s.t.w, s.t.h);
    let change: TypeChange = match ddt {
        Some(m) => TypeChange::Ddt(m),
        None => TypeChange::Keep,
    };
    Ok(plan_luma_residual(&c, s.t, true, change))
}

/// How the coefficients of the two chroma planes are mixed.
#[derive(Debug, Clone, Copy, PartialEq, Eq)]
pub struct CctxMix {
    /// The angle, from one on; zero where they are not.
    pub angle: u16,
    pub eob: (i32, i32),
    pub txtp: (u16, u16),
}

/// The cross-component transform comes with the first plane, in the high byte
/// of its type, where its last coefficient is at `first` or later. Both planes
/// then have the type of the first and the later last coefficient.
pub open spec fn cctx_mix(enabled: bool, first: int, u: CoefReply, v: CoefReply) -> CctxMix {
    let angle = if enabled && u.eob >= first { u.txtp as int / 256 } else { 0 };
    if angle == 0 {
        CctxMix { angle: 0, eob: (u.eob, v.eob), txtp: (u.txtp, v.txtp) }
    } else {
        let e = max(u.eob as int, v.eob as int) as i32;
        let t = (u.txtp % 256) as u16;
        CctxMix { angle: angle as u16, eob: (e, e), txtp: (t, t) }
    }
}

pub fn mix_planes(enabled: bool, first: i32, u: &CoefReply, v: &CoefReply) -> (r: CctxMix)
    ensures
        r == cctx_mix(enabled, first as int, *u, *v),
{
    let angle: u16 = if enabled && u.eob >= first { u.txtp / 256 } else { 0 };
    if angle == 0 {
        CctxMix { angle: 0, eob: (u.eob, v.eob), txtp: (u.txtp, v.txtp) }
    } else {
        let e: i32 = imax(u.eob, v.eob);
        let t: u16 = u.txtp % 256;
        CctxMix { angle, eob: (e, e), txtp: (t, t) }
    }
}

/// Mixed planes have one type and one last coefficient between them.
pub proof fn law_mixed_planes_agree(enabled: bool, first: int, u: CoefReply, v: CoefReply)
    requires
        cctx_mix(enabled, first, u, v).angle != 0,
    ensures
        ({
            let m = cctx_mix(enabled, first, u, v);
            m.eob.0 == m.eob.1 && m.txtp.0 == m.txtp.1 && m.txtp.0 < 256 && m.eob.0 >= u.eob
                && m.eob.0 >= v.eob
        }),
{
}

/// Skipped coefficients count as none, and leave no residual; coded ones count
/// as they are.
pub proof fn law_skipped_blocks_have_no_residual(r: CoefReply, t: TxSize, across: bool, c: TypeChange)
    ensures
        luma_residual(counted(true, r), t, across, c) is None,
        counted(false, r) == r,
        r.eob != -1 ==> luma_residual(counted(false, r), t, across, c) is Some,
        r.eob == -1 ==> luma_residual(counted(false, r), t, across, c) is None,
{
}

/// A secondary transform is there where the low two bits of its code are not
/// zero; they count kernels within a set of three. Blocks of at least eight
/// pixels a side have the larger kernels.
pub proof fn law_secondary_transforms_count_kernels(code: int, t: TxSize, across: bool)
    requires
        0 <= code < 64,
    ensures
        code % 4 == 0 <==> stx_plan(code, t, across) is None,
        stx_plan(code, t, across) matches Some(p) ==> {
            &&& p.kernel == 3 * (code / 4) + (code % 4 - 1)
            &&& p.eight == (t.w >= 2 && t.h >= 2)
            &&& p.eight ==> p.offset == 1536 * p.kernel
            &&& !p.eight ==> p.offset == 128 * p.kernel
            &&& p.transpose == across
        },
        code % 4 != 0 && code / 4 < 15 ==> (stx_plan(code + 4, t, across) matches Some(q)
            && stx_plan(code, t, across) matches Some(p) && q.kernel == p.kernel + 3),
{
}

/// A residual without a secondary transform ends at its last coefficient and
/// keeps its type.
pub proof fn law_plain_residual_keeps_its_type(r: CoefReply, t: TxSize, across: bool)
    requires
        r.eob != -1,
        r.txtp < 256,
    ensures
        luma_residual(r, t, across, TypeChange::Keep) matches Some(x) ==> x.eob == r.eob && x.txtp
            == r.txtp && x.stx is None,
        luma_residual(r, t, across, TypeChange::Dpcm(true)) matches Some(x) ==> x.txtp == r.txtp
            + 512,
        luma_residual(r, t, across, TypeChange::Dpcm(false)) matches Some(x) ==> x.txtp == r.txtp
            + 256,
{
}

/// The units of a transform block that lie in the frame.
pub proof fn law_units_inside_the_frame(n: int, end: int, at: int)
    requires
        0 <= n,
    ensures
        at + n <= end ==> units_inside(n, end, at) == n,
        at <= end < at + n ==> units_inside(n, end, at) == end - at,
        at >= end ==> units_inside(n, end, at) == 0,
{
}

/// Two chroma planes are mixed where the first one has an angle and enough
/// coefficients; both then end at the later of their ends and have the type of
/// the first.
pub proof fn law_mixed_planes_share_type_and_end(enabled: bool, first: int, u: CoefReply, v: CoefReply)
    ensures
        ({
            let m = cctx_mix(enabled, first, u, v);
            let mixed = enabled && u.eob >= first && u.txtp >= 256;
            &&& !mixed ==> m.angle == 0 && m.eob == (u.eob, v.eob) && m.txtp == (u.txtp, v.txtp)
            &&& mixed ==> m.angle == u.txtp / 256 && m.txtp.0 == u.txtp % 256 && m.txtp.1
                == m.txtp.0
            &&& mixed ==> m.eob.0 >= u.eob && m.eob.0 >= v.eob && (m.eob.0 == u.eob || m.eob.0
                == v.eob) && m.eob.1 == m.eob.0
        }),
{
}

/// Filling sets a run of entries and leaves the others.
pub proof fn law_filling_sets_a_run(row: Seq<u8>, at: int, n: int, v: u8, i: int)
    requires
        0 <= i < row.len(),
    ensures
        filled(row, at, n, v).len() == row.len(),
        at <= i < at + n ==> filled(row, at, n, v)[i] == v,
        i < at || i >= at + n ==> filled(row, at, n, v)[i] == row[i],
{
}

/// The logarithm of a side of a transform block.
pub proof fn law_side_is_a_power_of_its_logarithm(n: int)
    requires
        n == 1 || n == 2 || n == 4 || n == 8 || n == 16,
    ensures
        crate::intops::p2(side_log2(n)) == n,
{
}

} // verus!
