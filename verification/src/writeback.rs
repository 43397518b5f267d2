//! What a block leaves behind for the blocks below and to its right.
use vstd::prelude::*;

use crate::block::{fill_i8, fill_u8, filled_i8, filled_u8};
use crate::env::BlockContext;
use crate::single::InterSyntax;

verus! {

/// The values that a block writes along one of its edges. Those of inter
/// prediction are written where `inter` is set, the filter where `filtered`
/// is.
#[derive(Debug, Clone, Copy, PartialEq, Eq, Structural)]
pub struct EdgeEntry {
    pub fsc: u8,
    pub mode: u8,
    pub midx: u8,
    pub mrl: u8,
    pub multi_mrl: u8,
    pub dip: u8,
    pub pal_sz: u8,
    pub seg_pred: u8,
    pub skip_mode: u8,
    pub intra: u8,
    pub intrabc: u8,
    pub morph_pred: u8,
    pub skip_txfm: u8,
    pub inter: bool,
    pub amvd: u8,
    pub mvprec: u8,
    pub motion_mode: u8,
    pub comp_type: u8,
    pub ref0: i8,
    pub ref1: i8,
    pub filtered: bool,
    pub filter: u8,
}

impl EdgeEntry {
    /// Every value is one that a context can hold.
    pub open spec fn valid(self) -> bool {
        &&& self.fsc <= 1
        &&& self.mode <= 28
        &&& self.midx < 56 || self.midx == 0xff
        &&& self.mrl <= 1
        &&& self.multi_mrl <= 1
        &&& self.dip <= 1
        &&& self.seg_pred <= 1
        &&& self.skip_mode <= 1
        &&& self.intra <= 1
        &&& self.intrabc <= 1
        &&& self.morph_pred <= 1
        &&& self.skip_txfm <= 1
        &&& self.inter ==> {
            &&& self.amvd <= 1
            &&& self.mvprec <= 2
            &&& self.motion_mode <= 4
            &&& self.comp_type <= 3
            &&& -1 <= self.ref0 <= 7
            &&& -1 <= self.ref1 <= 7
        }
        &&& self.filtered ==> self.filter <= 3
    }
}

/// `after` is `before` with the inter values of the entry.
pub open spec fn inter_written(
    before: BlockContext,
    after: BlockContext,
    off: int,
    n: int,
    e: EdgeEntry,
) -> bool {
    if e.inter {
        &&& filled_u8(before.amvd, after.amvd, off, n, e.amvd)
        &&& filled_u8(before.mvprec, after.mvprec, off, n, e.mvprec)
        &&& filled_u8(before.motion_mode, after.motion_mode, off, n, e.motion_mode)
        &&& filled_u8(before.comp_type, after.comp_type, off, n, e.comp_type)
        &&& filled_i8(before.refs[0], after.refs[0], off, n, e.ref0)
        &&& filled_i8(before.refs[1], after.refs[1], off, n, e.ref1)
    } else {
        &&& after.amvd == before.amvd
        &&& after.mvprec == before.mvprec
        &&& after.motion_mode == before.motion_mode
        &&& after.comp_type == before.comp_type
        &&& after.refs == before.refs
    }
}

/// `after` is `before` with the entry written to the `n` places from `off` on.
pub open spec fn entry_written(
    before: BlockContext,
    after: BlockContext,
    off: int,
    n: int,
    e: EdgeEntry,
) -> bool {
    &&& filled_u8(before.fsc, after.fsc, off, n, e.fsc)
    &&& filled_u8(before.mode, after.mode, off, n, e.mode)
    &&& filled_u8(before.midx, after.midx, off, n, e.midx)
    &&& filled_u8(before.mrl, after.mrl, off, n, e.mrl)
    &&& filled_u8(before.multi_mrl, after.multi_mrl, off, n, e.multi_mrl)
    &&& filled_u8(before.dip, after.dip, off, n, e.dip)
    &&& filled_u8(before.pal_sz, after.pal_sz, off, n, e.pal_sz)
    &&& filled_u8(before.seg_pred, after.seg_pred, off, n, e.seg_pred)
    &&& filled_u8(before.skip_mode, after.skip_mode, off, n, e.skip_mode)
    &&& filled_u8(before.intra, after.intra, off, n, e.intra)
    &&& filled_u8(before.intrabc, after.intrabc, off, n, e.intrabc)
    &&& filled_u8(before.morph_pred, after.morph_pred, off, n, e.morph_pred)
    &&& filled_u8(before.skip_txfm, after.skip_txfm, off, n, e.skip_txfm)
    &&& inter_written(before, after, off, n, e)
    &&& if e.filtered {
        filled_u8(before.filter, after.filter, off, n, e.filter)
    } else {
        after.filter == before.filter
    }
    &&& after.lcoef == before.lcoef
    &&& after.ccoef == before.ccoef
    &&& after.partition == before.partition
    &&& after.uvmode == before.uvmode
    &&& after.tx_lpf_y == before.tx_lpf_y
    &&& after.tx_lpf_uv == before.tx_lpf_uv
}

fn write_inter(ctx: &mut BlockContext, off: usize, n: usize, e: &EdgeEntry)
    requires
        off + n <= 64,
        e.inter,
    ensures
        inter_written(*old(ctx), *final(ctx), off as int, n as int, *e),
        *final(ctx) == (BlockContext {
            amvd: final(ctx).amvd,
            mvprec: final(ctx).mvprec,
            motion_mode: final(ctx).motion_mode,
            comp_type: final(ctx).comp_type,
            refs: final(ctx).refs,
            ..*old(ctx)
        }),
{
    fill_u8(&mut ctx.amvd, off, n, e.amvd);
    fill_u8(&mut ctx.mvprec, off, n, e.mvprec);
    fill_u8(&mut ctx.motion_mode, off, n, e.motion_mode);
    fill_u8(&mut ctx.comp_type, off, n, e.comp_type);
    fill_i8(&mut ctx.refs[0], off, n, e.ref0);
    fill_i8(&mut ctx.refs[1], off, n, e.ref1);
}

/// Writes an entry to the `n` places from `off` on.
pub fn write_entry(ctx: &mut BlockContext, off: usize, n: usize, e: &EdgeEntry)
    requires
        off + n <= 64,
    ensures
        entry_written(*old(ctx), *final(ctx), off as int, n as int, *e),
        old(ctx).wf() && e.valid() ==> final(ctx).wf(),
{
    fill_u8(&mut ctx.fsc, off, n, e.fsc);
    fill_u8(&mut ctx.mode, off, n, e.mode);
    fill_u8(&mut ctx.midx, off, n, e.midx);
    fill_u8(&mut ctx.mrl, off, n, e.mrl);
    fill_u8(&mut ctx.multi_mrl, off, n, e.multi_mrl);
    fill_u8(&mut ctx.dip, off, n, e.dip);
    fill_u8(&mut ctx.pal_sz, off, n, e.pal_sz);
    fill_u8(&mut ctx.seg_pred, off, n, e.seg_pred);
    fill_u8(&mut ctx.skip_mode, off, n, e.skip_mode);
    fill_u8(&mut ctx.intra, off, n, e.intra);
    fill_u8(&mut ctx.intrabc, off, n, e.intrabc);
    fill_u8(&mut ctx.morph_pred, off, n, e.morph_pred);
    fill_u8(&mut ctx.skip_txfm, off, n, e.skip_txfm);
    if e.inter {
        write_inter(ctx, off, n, e);
    }
    if e.filtered {
        fill_u8(&mut ctx.filter, off, n, e.filter);
    }
    proof {
        if old(ctx).wf() && e.valid() {
            law_entry_keeps_context(*old(ctx), *ctx, off as int, n as int, *e);
        }
    }
}

/// Writing an entry of valid values keeps a context well formed.
pub proof fn law_entry_keeps_context(
    before: BlockContext,
    after: BlockContext,
    off: int,
    n: int,
    e: EdgeEntry,
)
    requires
        before.wf(),
        e.valid(),
        entry_written(before, after, off, n, e),
    ensures
        after.wf(),
{
}

/// Writing the same entry twice is writing it once.
pub proof fn law_entry_is_idempotent(
    c0: BlockContext,
    c1: BlockContext,
    c2: BlockContext,
    off: int,
    n: int,
    e: EdgeEntry,
)
    requires
        entry_written(c0, c1, off, n, e),
        entry_written(c1, c2, off, n, e),
    ensures
        entry_written(c0, c2, off, n, e),
{
}

/// `after` is `before` with the chroma mode written.
pub open spec fn uvmode_written(
    before: BlockContext,
    after: BlockContext,
    off: int,
    n: int,
    v: u8,
) -> bool {
    &&& filled_u8(before.uvmode, after.uvmode, off, n, v)
    &&& after == (BlockContext { uvmode: after.uvmode, ..before })
}

/// Writes a chroma mode to the `n` places from `off` on.
pub fn write_uvmode(ctx: &mut BlockContext, off: usize, n: usize, v: u8)
    requires
        off + n <= 64,
    ensures
        uvmode_written(*old(ctx), *final(ctx), off as int, n as int, v),
        old(ctx).wf() && v <= 13 ==> final(ctx).wf(),
{
    fill_u8(&mut ctx.uvmode, off, n, v);
}

/// What a block predicted from other frames leaves behind.
pub open spec fn inter_entry(x: InterSyntax, skip_mode: u8, skip_txfm: u8) -> EdgeEntry {
    EdgeEntry {
        fsc: 0,
        mode: x.inter_mode,
        midx: 0xff,
        mrl: 0,
        multi_mrl: 0,
        dip: 0,
        pal_sz: 0,
        seg_pred: 0,
        skip_mode,
        intra: 0,
        intrabc: 0,
        morph_pred: 0,
        skip_txfm,
        inter: true,
        amvd: x.amvd,
        mvprec: x.mvprec_def,
        motion_mode: x.motion_mode,
        comp_type: x.comp_type,
        ref0: x.ref0,
        ref1: x.ref1,
        filtered: true,
        filter: x.filter,
    }
}

pub fn make_inter_entry(x: &InterSyntax, skip_mode: u8, skip_txfm: u8) -> (r: EdgeEntry)
    requires
        x.valid(),
        skip_mode <= 1,
        skip_txfm <= 1,
    ensures
        r == inter_entry(*x, skip_mode, skip_txfm),
        r.valid(),
{
    EdgeEntry {
        fsc: 0,
        mode: x.inter_mode,
        midx: 0xff,
        mrl: 0,
        multi_mrl: 0,
        dip: 0,
        pal_sz: 0,
        seg_pred: 0,
        skip_mode,
        intra: 0,
        intrabc: 0,
        morph_pred: 0,
        skip_txfm,
        inter: true,
        amvd: x.amvd,
        mvprec: x.mvprec_def,
        motion_mode: x.motion_mode,
        comp_type: x.comp_type,
        ref0: x.ref0,
        ref1: x.ref1,
        filtered: true,
        filter: x.filter,
    }
}

/// What a block leaves is found again at each of its places, and what lies
/// beside them stays.
pub proof fn law_entries_are_found_again(
    before: BlockContext,
    after: BlockContext,
    off: int,
    n: int,
    e: EdgeEntry,
    i: int,
)
    requires
        entry_written(before, after, off, n, e),
        0 <= off,
        off + n <= 64,
        0 <= i < 64,
    ensures
        off <= i < off + n ==> {
            &&& after.mode[i] == e.mode
            &&& after.midx[i] == e.midx
            &&& after.fsc[i] == e.fsc
            &&& after.mrl[i] == e.mrl
            &&& after.multi_mrl[i] == e.multi_mrl
            &&& after.dip[i] == e.dip
            &&& after.pal_sz[i] == e.pal_sz
            &&& after.seg_pred[i] == e.seg_pred
            &&& after.skip_mode[i] == e.skip_mode
            &&& after.skip_txfm[i] == e.skip_txfm
            &&& after.intra[i] == e.intra
            &&& after.intrabc[i] == e.intrabc
            &&& after.morph_pred[i] == e.morph_pred
            &&& e.inter ==> after.refs[0][i] == e.ref0 && after.refs[1][i] == e.ref1
                && after.motion_mode[i] == e.motion_mode && after.comp_type[i] == e.comp_type
                && after.amvd[i] == e.amvd && after.mvprec[i] == e.mvprec
            &&& e.filtered ==> after.filter[i] == e.filter
        },
        !(off <= i < off + n) ==> {
            &&& after.mode[i] == before.mode[i]
            &&& after.midx[i] == before.midx[i]
            &&& after.intra[i] == before.intra[i]
            &&& after.refs[0][i] == before.refs[0][i]
            &&& after.refs[1][i] == before.refs[1][i]
            &&& after.filter[i] == before.filter[i]
            &&& after.skip_txfm[i] == before.skip_txfm[i]
        },
{
}

/// An inter block leaves its own mode, references, filter and flags; it has no
/// direction and is no intra block.
pub proof fn law_inter_blocks_leave_their_motion(x: InterSyntax, skip_mode: u8, skip_txfm: u8)
    ensures
        ({
            let e = inter_entry(x, skip_mode, skip_txfm);
            &&& e.inter && e.filtered
            &&& e.mode == x.inter_mode && e.ref0 == x.ref0 && e.ref1 == x.ref1
            &&& e.filter == x.filter && e.motion_mode == x.motion_mode && e.comp_type == x.comp_type
            &&& e.amvd == x.amvd && e.mvprec == x.mvprec_def
            &&& e.skip_mode == skip_mode && e.skip_txfm == skip_txfm
            &&& e.midx == 0xff && e.intra == 0 && e.intrabc == 0 && e.pal_sz == 0 && e.seg_pred == 0
        }),
{
}

} // verus!
