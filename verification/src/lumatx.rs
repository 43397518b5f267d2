//! The reconstruction of luma transform blocks within a frame.
use vstd::prelude::*;

use crate::coded::CodedGrid;
use crate::edges::{
    find_luma_bottom_left, find_luma_top_right, luma_bottom_left, luma_top_right, EdgeBounds,
};
use crate::env::BlockContext;
use crate::error::{Rav2dError, Result};
use crate::levels::{
    TxPartition, HOR_DOWN_PRED, HOR_PRED, PAETH_PRED, SMOOTH_H_PRED, VERT_LEFT_PRED, VERT_PRED,
};
use crate::residual::{
    count_reply, counted, luma_context_after, luma_residual, marked, plan_luma_residual,
    units_inside, write_luma_context, CoefReply, TxResidual, TxSite, TypeChange,
};

verus! {

/// How a block is predicted within its frame.
#[derive(Debug, Clone, Copy, PartialEq, Eq, Structural)]
pub struct LumaBlock {
    /// Whether it is copied from its own frame.
    pub intrabc: bool,
    pub skip_txfm: bool,
    pub y_mode: u8,
    pub y_angle: i8,
    /// Which of the lines above and to the left are used.
    pub mrl_index: u8,
    pub multi_mrl: bool,
    pub tx_part: TxPartition,
    /// The data-driven predictor, from one on; zero where there is none.
    pub dip: u8,
    pub pal_sz: u8,
    /// Whether the neighbours above and to the left are smooth.
    pub sm_top: bool,
    pub sm_left: bool,
    pub lossless: bool,
    pub dpcm: bool,
    /// Where the prediction block starts.
    pub pb_col_start: i32,
    pub pb_row_start: i32,
}

/// The tools that the sequence enables; the mask is that of the transform
/// types that become data-driven.
#[derive(Debug, Clone, Copy, PartialEq, Eq, Structural)]
pub struct IntraTools {
    pub ibp: bool,
    pub edge_filter: bool,
    pub ddt: Option<u16>,
}

/// A mode and its angle, adapted to the shape of the transform block.
#[derive(Debug, Clone, Copy, PartialEq, Eq, Structural)]
pub struct RemappedAngle {
    pub mode: u8,
    pub angle: i32,
}

/// What the edges are prepared and the prediction is made with.
#[derive(Debug, Clone, Copy, PartialEq, Eq, Structural)]
pub struct IntraFlags {
    pub luma: bool,
    pub smooth_top: bool,
    pub smooth_left: bool,
    pub edge_filter: bool,
    pub ibp: bool,
    pub mrl_index: u8,
    pub multi_mrl: bool,
    pub has_left: bool,
    pub has_top: bool,
    pub dip: bool,
}

/// The prediction of a transform block.
#[derive(Debug, Clone, Copy, PartialEq, Eq, Structural)]
pub struct IntraPlan {
    pub mode: u8,
    /// The angle, or the number of the data-driven predictor.
    pub angle: i32,
    pub flags: IntraFlags,
    /// How many units can be used above to the right and below to the left.
    pub n_tr: i32,
    pub n_bl: i32,
    /// How many samples lie in the frame.
    pub max_w: i32,
    pub max_h: i32,
}

/// Whether prediction reaches beyond the block: it does not in the later
/// transform blocks of a block that is divided into five.
pub open spec fn is_later_of_five(b: LumaBlock, s: TxSite) -> bool {
    (s.by > b.pb_row_start || s.bx > b.pb_col_start) && (b.tx_part == TxPartition::H5 || b.tx_part
        == TxPartition::V5)
}

pub open spec fn luma_flags(b: LumaBlock, f: IntraTools, s: TxSite, t: EdgeBounds) -> IntraFlags {
    let small = s.t.w == 1 && s.t.h == 1;
    let ibp = f.ibp && !small && b.mrl_index == 0;
    IntraFlags {
        luma: true,
        smooth_top: if ibp { b.sm_top } else { b.sm_top || b.sm_left },
        smooth_left: if ibp { b.sm_left } else { b.sm_top || b.sm_left },
        edge_filter: f.edge_filter,
        ibp: ibp && b.y_angle as int % 2 == 0,
        mrl_index: b.mrl_index,
        multi_mrl: b.multi_mrl && !small,
        has_left: s.bx > t.col_start,
        has_top: s.by > t.row_start,
        dip: b.dip > 0,
    }
}

/// The mode of a block: angles are adapted to the shape of the transform
/// block, copies keep what they have.
pub open spec fn effective_mode(b: LumaBlock, m: RemappedAngle) -> u8 {
    if !b.intrabc && b.y_mode <= PAETH_PRED { m.mode } else { b.y_mode }
}

pub open spec fn luma_prediction(
    b: LumaBlock,
    f: IntraTools,
    s: TxSite,
    t: EdgeBounds,
    g: CodedGrid,
    m: RemappedAngle,
) -> Option<IntraPlan> {
    if b.intrabc || b.pal_sz != 0 {
        None
    } else {
        let five = is_later_of_five(b, s);
        Some(
            IntraPlan {
                mode: effective_mode(b, m),
                angle: if b.dip > 0 { (b.dip - 1) as i32 } else { m.angle },
                flags: luma_flags(b, f, s, t),
                n_tr: luma_top_right(g, t, s.bx as int, s.by as int, s.t.w as int, five) as i32,
                n_bl: luma_bottom_left(g, t, s.bx as int, s.by as int, s.t.h as int, five) as i32,
                max_w: (4 * (s.fw - s.bx)) as i32,
                max_h: (4 * (s.fh - s.by)) as i32,
            },
        )
    }
}

/// Whether the results of a secondary transform are placed across: for the
/// modes that predict along the rows they are not.
pub open spec fn places_across(b: LumaBlock, mode: u8) -> bool {
    b.intrabc || !(mode == HOR_PRED || mode == HOR_DOWN_PRED || mode == VERT_LEFT_PRED || mode
        == SMOOTH_H_PRED)
}

pub open spec fn luma_change(b: LumaBlock, f: IntraTools, mode: u8) -> TypeChange {
    if b.lossless && !b.intrabc && b.dpcm {
        TypeChange::Dpcm(mode == VERT_PRED)
    } else if b.intrabc {
        match f.ddt {
            Some(m) => TypeChange::Ddt(m),
            None => TypeChange::Keep,
        }
    } else {
        TypeChange::Keep
    }
}

/// The prediction of a transform block, and what is added to it.
#[derive(Debug, Clone, Copy, PartialEq, Eq, Structural)]
pub struct LumaTxPlan {
    pub prediction: Option<IntraPlan>,
    pub residual: Option<TxResidual>,
}

pub open spec fn luma_tx_plan(
    b: LumaBlock,
    f: IntraTools,
    s: TxSite,
    t: EdgeBounds,
    g: CodedGrid,
    m: RemappedAngle,
    reply: CoefReply,
) -> LumaTxPlan {
    let mode = effective_mode(b, m);
    LumaTxPlan {
        prediction: luma_prediction(b, f, s, t, g, m),
        residual: luma_residual(
            counted(b.skip_txfm, reply),
            s.t,
            places_across(b, mode),
            luma_change(b, f, mode),
        ),
    }
}

fn plan_prediction(
    b: &LumaBlock,
    f: &IntraTools,
    s: &TxSite,
    t: &EdgeBounds,
    g: &CodedGrid,
    m: &RemappedAngle,
    mode: u8,
) -> (r: Option<IntraPlan>)
    requires
        s.valid(),
        t.valid(),
        g.wf(),
        mode == effective_mode(*b, *m),
    ensures
        r == luma_prediction(*b, *f, *s, *t, *g, *m),
{
    if b.intrabc || b.pal_sz != 0 {
        return None;
    }
    let five: bool = (s.by > b.pb_row_start || s.bx > b.pb_col_start) && (b.tx_part
        == TxPartition::H5 || b.tx_part == TxPartition::V5);
    let small: bool = s.t.w == 1 && s.t.h == 1;
    let ibp: bool = f.ibp && !small && b.mrl_index == 0;
    let n_tr: i32 = find_luma_top_right(g, t, s.bx, s.by, s.t.w, five);
    let n_bl: i32 = find_luma_bottom_left(g, t, s.bx, s.by, s.t.h, five);
    Some(
        IntraPlan {
            mode,
            angle: if b.dip > 0 { b.dip as i32 - 1 } else { m.angle },
            flags: IntraFlags {
                luma: true,
                smooth_top: if ibp { b.sm_top } else { b.sm_top || b.sm_left },
                smooth_left: if ibp { b.sm_left } else { b.sm_top || b.sm_left },
                edge_filter: f.edge_filter,
                ibp: ibp && b.y_angle % 2 == 0,
                mrl_index: b.mrl_index,
                multi_mrl: b.multi_mrl && !small,
                has_left: s.bx > t.col_start,
                has_top: s.by > t.row_start,
                dip: b.dip > 0,
            },
            n_tr,
            n_bl,
            max_w: 4 * (s.fw - s.bx),
            max_h: 4 * (s.fh - s.by),
        },
    )
}

/// Takes the coefficients of a luma transform block, and plans its prediction
/// and its inverse transform. The context and the marks are updated. `m` is
/// the mode and angle of the block, adapted to the shape of the transform.
pub fn recon_b_luma_tx(
    b: &LumaBlock,
    f: &IntraTools,
    s: &TxSite,
    t: &EdgeBounds,
    m: &RemappedAngle,
    reply: &CoefReply,
    a: &mut BlockContext,
    l: &mut BlockContext,
    coded: &mut CodedGrid,
) -> (r: Result<LumaTxPlan>)
    requires
        s.valid(),
        t.valid(),
        old(coded).wf(),
    ensures
        final(coded).wf(),
        r is Err <==> !b.skip_txfm && reply.failed(),
        r is Err ==> r == Err::<LumaTxPlan, Rav2dError>(Rav2dError::InvalidData) && *final(a) == *old(a)
            && *final(l) == *old(l) && *final(coded) == *old(coded),
        r matches Ok(p) ==> {
            let c = counted(b.skip_txfm, *reply);
            &&& p == luma_tx_plan(*b, *f, *s, *t, *old(coded), *m, *reply)
            &&& luma_context_after(
                *old(a),
                *final(a),
                s.bx as int % 64,
                units_inside(s.t.w as int, s.fw as int, s.bx as int),
                c.res_ctx,
            )
            &&& luma_context_after(
                *old(l),
                *final(l),
                s.by as int % 64,
                units_inside(s.t.h as int, s.fh as int, s.by as int),
                c.res_ctx,
            )
            &&& marked(
                *old(coded),
                *final(coded),
                s.bx as int % 64,
                s.by as int % 64,
                s.t.w as int,
                s.t.h as int,
            )
        },
{
    if !b.skip_txfm && reply.eob == i32::MIN {
        return Err(Rav2dError::InvalidData);
    }
    let c: CoefReply = count_reply(b.skip_txfm, reply);
    write_luma_context(s, c.res_ctx, a, l);
    let mode: u8 = if !b.intrabc && b.y_mode <= PAETH_PRED { m.mode } else { b.y_mode };
    let prediction: Option<IntraPlan> = plan_prediction(b, f, s, t, coded, m, mode);
    let across: bool = b.intrabc || !(mode == HOR_PRED || mode == HOR_DOWN_PRED || mode
        == VERT_LEFT_PRED || mode == SMOOTH_H_PRED);
    let change: TypeChange = if b.lossless && !b.intrabc && b.dpcm {
        TypeChange::Dpcm(mode == VERT_PRED)
    } else if b.intrabc {
        match f.ddt {
            Some(mask) => TypeChange::Ddt(mask),
            None => TypeChange::Keep,
        }
    } else {
        TypeChange::Keep
    };
    let residual: Option<TxResidual> = plan_luma_residual(&c, s.t, across, change);
    coded.mark(s.bx % 64, s.by % 64, s.t.w, s.t.h);
    Ok(LumaTxPlan { prediction, residual })
}

/// The first transform block of a tile has no neighbours to predict from.
pub proof fn law_tile_corner_has_no_neighbours(
    b: LumaBlock,
    f: IntraTools,
    s: TxSite,
    t: EdgeBounds,
    g: CodedGrid,
    m: RemappedAngle,
)
    requires
        s.bx == t.col_start,
        s.by == t.row_start,
        !b.intrabc,
        b.pal_sz == 0,
    ensures
        luma_prediction(b, f, s, t, g, m) matches Some(p) && p.n_tr == 0 && p.n_bl == 0
            && !p.flags.has_left && !p.flags.has_top,
{
}

/// What the prediction of a transform block is told of its surroundings.
pub proof fn law_prediction_knows_its_edges(
    b: LumaBlock,
    f: IntraTools,
    s: TxSite,
    t: EdgeBounds,
    g: CodedGrid,
    m: RemappedAngle,
)
    requires
        !b.intrabc,
        b.pal_sz == 0,
        0 <= s.bx <= 0x10_0000,
        0 <= s.by <= 0x10_0000,
        0 <= s.fw <= 0x10_0000,
        0 <= s.fh <= 0x10_0000,
    ensures
        luma_prediction(b, f, s, t, g, m) matches Some(p) && {
            let small = s.t.w == 1 && s.t.h == 1;
            &&& p.flags.has_left == (s.bx > t.col_start)
            &&& p.flags.has_top == (s.by > t.row_start)
            &&& p.max_w == 4 * (s.fw - s.bx)
            &&& p.max_h == 4 * (s.fh - s.by)
            &&& p.flags.mrl_index == b.mrl_index
            &&& p.flags.multi_mrl == (b.multi_mrl && !small)
            &&& p.flags.luma
            &&& p.flags.edge_filter == f.edge_filter
            &&& b.dip == 0 ==> p.angle == m.angle && !p.flags.dip
            &&& b.dip > 0 ==> p.angle == b.dip - 1 && p.flags.dip
            &&& b.y_mode <= 12 ==> p.mode == m.mode
            &&& p.flags.ibp ==> f.ibp && !small && b.mrl_index == 0
            &&& !p.flags.ibp && !f.ibp ==> p.flags.smooth_top == p.flags.smooth_left
            &&& !f.ibp ==> (p.flags.smooth_top <==> b.sm_top || b.sm_left)
            &&& f.ibp && !small && b.mrl_index == 0 ==> p.flags.smooth_top == b.sm_top
                && p.flags.smooth_left == b.sm_left
        },
{
}

/// Copied blocks and blocks with a palette are not predicted from their edges.
pub proof fn law_copies_are_not_predicted(
    b: LumaBlock,
    f: IntraTools,
    s: TxSite,
    t: EdgeBounds,
    g: CodedGrid,
    m: RemappedAngle,
)
    ensures
        luma_prediction(b, f, s, t, g, m) is None <==> b.intrabc || b.pal_sz != 0,
{
}

/// Differences go down the columns for the vertical mode, and along the rows
/// for the other one; only lossless blocks that say so are coded by them.
pub proof fn law_differences_follow_the_mode(b: LumaBlock, f: IntraTools)
    ensures
        b.lossless && !b.intrabc && b.dpcm ==> luma_change(b, f, 1) == TypeChange::Dpcm(true)
            && luma_change(b, f, 2) == TypeChange::Dpcm(false),
        !b.intrabc && !(b.lossless && b.dpcm) ==> luma_change(b, f, 1) == TypeChange::Keep,
        b.intrabc && f.ddt is None ==> luma_change(b, f, 1) == TypeChange::Keep,
        places_across(b, 1) && (b.intrabc || !places_across(b, 2)),
{
}

} // verus!
