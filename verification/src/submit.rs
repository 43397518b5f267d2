//! A frame from its headers to its picture: its plan, its decoding, and what it
//! leaves for later ones.
use vstd::prelude::*;

use crate::error::{Rav2dError, Result};
use crate::frame::restore_planes;
use crate::framedec::{
    frame_begun, work_from, work_run, FrameParams, MainContext, MainState,
};
use crate::frameinit::{
    frame_ready, groups_split, same_but_slots, without_tiles, FrameState,
};
use crate::frameplan::{
    frame_planned, pictures, plan_frame, refs_usable, FrameDerived, FramePlan, FrameRequest,
};
use crate::framesetup::{
    chroma_root, filter_of, info_set, keeps_motion, law_blocks_know_their_frame, motion_set,
    ranges_match, shape_of, tile_params_of, unit_sides, FrameJob,
};
use crate::framestart::{job_fits, main_started, run_started};
use crate::frametop::{
    decode_frame, frame_decoded, frame_prepared, frame_set_up, frame_started, frame_stopped,
    kept_tile, plan_distances, readers_ready,
};
use crate::headers::{FrameHeader, SequenceHeader};
use crate::intops::bit_of;
use crate::refsetup::{refresh_refs, refreshed, slot_usable, FrameResult, RefPicture, RefSlot};
use crate::sbrow::{bank_classes, RowInput};
use crate::tile::{
    between, cdf_source, group_set, groups_set, tiles_before, TileGroup, TileParams, TileSlot,
    WienerRanges,
};

verus! {

/// The numbers under which what a frame leaves is kept, where it leaves it.
#[derive(Debug, Clone, Copy, PartialEq, Eq, Structural)]
pub struct FrameBuffers {
    pub picture: u64,
    pub out_cdf: u64,
    pub cur_segmap: u64,
    pub refmvs: u64,
}

/// A frame that was decoded.
pub struct Submitted {
    pub plan: FramePlan,
    pub state: FrameState,
    /// The tile whose distributions are kept.
    pub kept: Option<usize>,
}

/// What a decoded frame leaves for later ones. Distributions are left where
/// those of a tile are kept, and a segment map where there are segments.
pub open spec fn is_result(
    q: FrameRequest,
    r: FramePlan,
    kept: Option<usize>,
    made: FrameBuffers,
    x: FrameResult,
) -> bool {
    &&& x.pic == (RefPicture {
        w: q.hdr.width,
        h: q.hdr.height,
        layout: q.seq.layout,
        bpc: (8 + 2 * q.seq.hbd) as i32,
        coded_w: q.hdr.width,
        frame_offset: q.hdr.frame_offset,
        n_ref_frames: q.hdr.n_ref_frames,
    })
    &&& x.picture == made.picture
    &&& x.show_immediate == (q.hdr.show_immediate != 0)
    &&& x.in_cdf == r.in_cdf
    &&& x.out_cdf == (if kept is Some { Some(made.out_cdf) } else { None })
    &&& x.disable_cdf_update == (q.hdr.disable_cdf_update != 0)
    &&& x.cur_segmap == (if q.hdr.segmentation.enabled != 0 { Some(made.cur_segmap) } else { None })
    &&& x.prev_segmap == r.prev_segmap
    &&& x.update_map == (q.hdr.segmentation.update_map != 0)
    &&& x.is_inter_or_switch == q.inter()
    &&& x.refmvs == (if keeps_motion(q) { Some(made.refmvs) } else { None })
    &&& x.ccsomap is None
    &&& forall|i: int|
        0 <= i < 7 ==> #[trigger] x.refpoc[i] == (if q.inter() {
            r.refs@[i].pic.frame_offset as int
        } else {
            0
        })
}

fn make_result(
    q: &FrameRequest,
    r: &FramePlan,
    kept: Option<usize>,
    made: &FrameBuffers,
    Ghost(slots): Ghost<Seq<Option<RefPicture>>>,
) -> (x: FrameResult)
    requires
        q.valid(slots),
        q.inter() ==> r.refs@.len() == 7 && forall|i: int|
            0 <= i < 7 ==> slots[q.hdr.refidx[i] as int] == Some((#[trigger] r.refs@[i]).pic),
    ensures
        is_result(*q, *r, kept, *made, x),
{
    let mut refpoc: [u8; 7] = [0; 7];
    let inter: bool = q.hdr.is_inter_or_switch();
    if inter {
        let mut i: usize = 0;
        while i < 7
            invariant
                i <= 7,
                q.valid(slots),
                r.refs@.len() == 7,
                forall|k: int|
                    0 <= k < 7 ==> slots[q.hdr.refidx[k] as int] == Some(
                        (#[trigger] r.refs@[k]).pic,
                    ),
                forall|k: int|
                    0 <= k < i ==> #[trigger] refpoc[k] == r.refs@[k].pic.frame_offset as int,
            decreases 7 - i,
        {
            let offset: i32 = r.refs[i].pic.frame_offset;
            assert(slots[q.hdr.refidx[i as int] as int] == Some(r.refs@[i as int].pic));
            assert(0 <= offset <= 0xff);
            refpoc[i] = offset as u8;
            i = i + 1;
        }
    }
    let motion: bool = q.seq.ref_frame_mvs && (q.hdr.allow_intrabc != 0 || inter);
    FrameResult {
        pic: RefPicture {
            w: q.hdr.width,
            h: q.hdr.height,
            layout: q.seq.layout,
            bpc: 8 + 2 * q.seq.hbd as i32,
            coded_w: q.hdr.width,
            frame_offset: q.hdr.frame_offset,
            n_ref_frames: q.hdr.n_ref_frames,
        },
        picture: made.picture,
        show_immediate: q.hdr.show_immediate != 0,
        in_cdf: r.in_cdf,
        out_cdf: if kept.is_some() {
            Some(made.out_cdf)
        } else {
            None
        },
        disable_cdf_update: q.hdr.disable_cdf_update != 0,
        cur_segmap: if q.hdr.segmentation.enabled != 0 {
            Some(made.cur_segmap)
        } else {
            None
        },
        prev_segmap: r.prev_segmap,
        update_map: q.hdr.segmentation.update_map != 0,
        is_inter_or_switch: inter,
        refmvs: if motion {
            Some(made.refmvs)
        } else {
            None
        },
        ccsomap: None,
        refpoc,
    }
}

/// The frame was planned, prepared and decoded as its headers say, from a new
/// state; the tile that its header names has its distributions kept.
pub open spec fn frame_accepted(
    q: FrameRequest,
    job: FrameJob,
    kept: [RefSlot; 8],
    c0: MainState,
    c1: MainState,
    s: Submitted,
) -> bool {
    &&& frame_planned(q, kept, s.plan)
    &&& q.hdr.tip.frame_mode == 2 || groups_split(*q.hdr, job.tile_groups@)
    &&& exists|f: FrameState| #[trigger]
        f.is_new() && frame_set_up(q, s.plan, job, f, s.state)
    &&& frame_decoded(q, s.plan, job, s.state, c0, c1)
    &&& match s.kept {
        Some(t) => kept_tile(*q.hdr, s.state.ts@.len() as int) == Some(t as int),
        None => kept_tile(*q.hdr, s.state.ts@.len() as int) is None,
    }
}

/// A tile of the planned and prepared frame cannot be decoded.
pub open spec fn frame_refused(
    q: FrameRequest,
    job: FrameJob,
    kept: [RefSlot; 8],
    c: MainState,
) -> bool {
    exists|p: FramePlan, f: FrameState, f1: FrameState|
        #![trigger frame_set_up(q, p, job, f, f1)]
        frame_planned(q, kept, p) && f.is_new() && frame_set_up(q, p, job, f, f1)
            && frame_stopped(q, p, job, f1, c)
}

/// The slots after a decoded frame: those that its header flags refer to it.
pub open spec fn slots_refreshed(
    hdr: FrameHeader,
    x: FrameResult,
    before: [RefSlot; 8],
    after: [RefSlot; 8],
) -> bool {
    forall|i: int|
        0 <= i < 8 ==> #[trigger] after[i] == (if bit_of(hdr.refresh_frame_flags as int, i) {
            refreshed(before[i], x)
        } else {
            before[i]
        })
}

/// Plans and decodes a frame. Once it is decoded, the slots that its header
/// flags refer to it, and its picture is put out. A frame without headers, or
/// one that cannot be planned or decoded, leaves the slots and the output as
/// they were. `c` brings a reader for each tile, and the motion around the
/// first block.
pub fn submit_frame(
    seq_hdr: Option<&SequenceHeader>,
    frame_hdr: Option<&FrameHeader>,
    derived: FrameDerived,
    job: &FrameJob,
    made: &FrameBuffers,
    c: &mut MainContext,
    refs: &mut [RefSlot; 8],
    frame_out: &mut Vec<u64>,
) -> (r: Result<Submitted>)
    requires
        seq_hdr matches Some(seq) ==> (frame_hdr matches Some(hdr) ==> {
            let q = FrameRequest { seq, hdr, derived };
            &&& q.valid(pictures(*old(refs)))
            &&& job_fits(q, *job, *old(refs))
            &&& readers_ready(*hdr, old(c)@)
        }),
    ensures
        r is Err ==> *final(refs) == *old(refs) && final(frame_out)@ == old(frame_out)@,
        r is Err ==> r->Err_0 == Rav2dError::InvalidData,
        seq_hdr is None || frame_hdr is None ==> r is Err,
        seq_hdr matches Some(seq) ==> (frame_hdr matches Some(hdr) ==> {
            let q = FrameRequest { seq, hdr, derived };
            &&& !refs_usable(q, *old(refs)) ==> r is Err
            &&& hdr.tip.frame_mode != 2 && !groups_split(*hdr, job.tile_groups@) ==> r is Err
            &&& r is Err ==> {
                ||| !refs_usable(q, *old(refs))
                ||| hdr.tip.frame_mode != 2 && !groups_split(*hdr, job.tile_groups@)
                ||| frame_refused(q, *job, *old(refs), old(c)@)
            }
            &&& r matches Ok(s) ==> {
                &&& frame_accepted(q, *job, *old(refs), old(c)@, final(c)@, s)
                &&& final(frame_out)@ == old(frame_out)@.push(made.picture)
                &&& exists|x: FrameResult| #[trigger]
                    is_result(q, s.plan, s.kept, *made, x) && slots_refreshed(
                        *hdr,
                        x,
                        *old(refs),
                        *final(refs),
                    )
            }
        }),
{
    let seq: &SequenceHeader = match seq_hdr {
        Some(s) => s,
        None => {
            return Err(Rav2dError::InvalidData);
        },
    };
    let hdr: &FrameHeader = match frame_hdr {
        Some(h) => h,
        None => {
            return Err(Rav2dError::InvalidData);
        },
    };
    let q: FrameRequest = FrameRequest { seq, hdr, derived };
    let ghost slots = pictures(*refs);
    let ghost c0 = c@;
    let plan: FramePlan = match plan_frame(&q, refs) {
        Ok(p) => p,
        Err(e) => {
            return Err(e);
        },
    };
    let mut state: FrameState = FrameState::new();
    let ghost new = state;
    let kept: Option<usize> = match decode_frame(&q, &plan, job, refs, &mut state, c) {
        Ok(k) => k,
        Err(e) => {
            return Err(e);
        },
    };
    proof {
        if q.inter() {
            assert forall|i: int| 0 <= i < 7 implies slots[q.hdr.refidx[i] as int] == Some(
                (#[trigger] plan.refs@[i]).pic,
            ) by {
                assert(slot_usable(q.frame(), slots[q.hdr.refidx[i] as int]));
            }
        }
        assert(new.is_new() && frame_set_up(q, plan, *job, new, state));
    }
    let x: FrameResult = make_result(&q, &plan, kept, made, Ghost(slots));
    refresh_refs(refs, hdr.refresh_frame_flags, &x);
    frame_out.push(made.picture);
    let s: Submitted = Submitted { plan, state, kept };
    assert(frame_accepted(q, *job, *old(refs), c0, c@, s));
    assert(is_result(q, s.plan, s.kept, *made, x));
    Ok(s)
}

/// A frame that is decoded puts out one picture, and fills every slot that its
/// header flags with that picture; it is showable later where it is not shown
/// at once. The slot keeps the distributions of the tile that the header names,
/// or where they are not updated those that the frame started with. The other
/// slots keep what they had.
pub proof fn law_decoded_frame_fills_its_slots(
    q: FrameRequest,
    p: FramePlan,
    kept: Option<usize>,
    made: FrameBuffers,
    x: FrameResult,
    before: [RefSlot; 8],
    after: [RefSlot; 8],
    i: int,
)
    requires
        is_result(q, p, kept, made, x),
        slots_refreshed(*q.hdr, x, before, after),
        0 <= i < 8,
    ensures
        if bit_of(q.hdr.refresh_frame_flags as int, i) {
            &&& after[i].picture == Some(made.picture)
            &&& after[i].pic == Some(x.pic)
            &&& after[i].showable == (q.hdr.show_immediate == 0)
            &&& after[i].cdf == (if q.hdr.disable_cdf_update != 0 {
                p.in_cdf
            } else if kept is Some {
                Some(made.out_cdf)
            } else {
                None
            })
        } else {
            after[i] == before[i]
        },
{
}

/// A submitted frame is decoded with what its headers, its plan and its
/// prepared state say: the blocks of every tile know the frame by its headers
/// and the plan; chroma, restoration units and filters are those of the
/// headers; motion refers to the references of the plan; and every tile starts
/// with the quantizer and the filters of its slot.
pub proof fn law_submitted_frame_follows_its_headers(
    q: FrameRequest,
    job: FrameJob,
    kept: [RefSlot; 8],
    c0: MainState,
    c1: MainState,
    s: Submitted,
    t: int,
)
    requires
        frame_accepted(q, job, kept, c0, c1, s),
        0 <= t < s.state.ts@.len(),
        t < c0.runs.len(),
    ensures
        s.plan.geometry == q.geometry(),
        refs_usable(q, kept),
        s.state.lf.restore_planes == restore_planes(*q.hdr),
        exists|p: FrameParams, input: RowInput, b: MainState| #[trigger]
            frame_started(q, s.plan, job, s.state, c0, p, input, b) && work_run(
                p,
                input,
                work_from(p, 0),
                work_from(p, 0).len() as int,
                b,
                c1,
            ) && {
                &&& info_set(q, s.plan, s.state.ts@[t].tiling, p.info_of(t))
                &&& p.c_root_bs == chroma_root(q.seq.layout, q.geometry().root_bs)
                &&& unit_sides(*q.hdr, p.unit_log2)
                &&& p.filter == filter_of(q, s.plan, job.switches, restore_planes(*q.hdr) as i32)
                &&& p.start_of_tile_row@ == s.state.lf.start_of_tile_row@
                &&& motion_set(q, s.plan, *input.motion)
                &&& b.runs[t].sym == c0.runs[t].sym
                &&& b.runs[t].qidx == s.state.ts@[t].last_qidx
                &&& b.runs[t].banks == bank_classes(s.state.ts@[t].ns_wiener_bank)
            },
{
    let (p, input, b) = choose|p: FrameParams, input: RowInput, b: MainState| #[trigger]
        frame_started(q, s.plan, job, s.state, c0, p, input, b) && work_run(
            p,
            input,
            work_from(p, 0),
            work_from(p, 0).len() as int,
            b,
            c1,
        );
    law_blocks_know_their_frame(q, s.plan, job, s.state, p, t);
    let m = choose|m: MainState| #[trigger]
        frame_begun(p, m, b) && main_started(
            s.plan.geometry,
            q.hdr.segmentation.enabled != 0,
            s.state,
            c0,
            m,
        );
    assert(run_started(s.state.ts@[t], c0.runs[t], m.runs[t]));
    assert(frame_started(q, s.plan, job, s.state, c0, p, input, b));
}

/// Every tile of a tile group starts with the distributions that the plan
/// carries over from the primary reference, or else with the defaults, and with
/// the quantizer index of the header.
pub proof fn law_tiles_start_as_planned(
    q: FrameRequest,
    plan: FramePlan,
    job: FrameJob,
    before: FrameState,
    after: FrameState,
    g: int,
    j: int,
)
    requires
        frame_set_up(q, plan, job, before, after),
        q.hdr.tip.frame_mode != 2,
        0 <= g < job.tile_groups@.len(),
        job.tile_groups@[g].start <= j < job.tile_groups@[g].start + job.tile_groups@[g].count(),
        0 <= j < after.ts@.len(),
    ensures
        after.ts@[j].cdf == cdf_source(plan.in_cdf, q.derived.qcat),
        after.ts@[j].last_qidx == q.hdr.quant.yac,
{
    let (ranges, d) = choose|ranges: WienerRanges, d: [u8; 7]|
        #![trigger ranges_match(*job.y, *job.uv, ranges), plan_distances(plan, d)]
        ranges_match(*job.y, *job.uv, ranges) && plan_distances(plan, d) && frame_prepared(
            before,
            after,
            *q.hdr,
            *job.table,
            ranges,
            job.tile_groups@,
            tile_params_of(q, plan, job.n_tc),
            d,
            shape_of(plan, job.n_tc),
        );
    let m = choose|m: FrameState| #[trigger]
        without_tiles(m) && frame_ready(
            before,
            m,
            *q.hdr,
            *job.table,
            d,
            shape_of(plan, job.n_tc),
        ) && same_but_slots(m, after) && after.ts@.len() == m.ts@.len() && groups_set(
            m.ts@,
            after.ts@,
            job.tile_groups@,
            job.tile_groups@.len() as int,
            *q.hdr,
            ranges,
            tile_params_of(q, plan, job.n_tc),
            m.tile_start_off@,
        );
    assert(without_tiles(m));
    lemma_tile_started(
        m.ts@,
        after.ts@,
        job.tile_groups@,
        job.tile_groups@.len() as int,
        *q.hdr,
        ranges,
        tile_params_of(q, plan, job.n_tc),
        m.tile_start_off@,
        g,
        j,
    );
}

proof fn lemma_tile_started(
    before: Seq<TileSlot>,
    after: Seq<TileSlot>,
    groups: Seq<TileGroup>,
    n: int,
    hdr: FrameHeader,
    ranges: WienerRanges,
    p: TileParams,
    offs: Seq<u32>,
    g: int,
    j: int,
)
    requires
        groups_set(before, after, groups, n, hdr, ranges, p, offs),
        0 <= g < n <= groups.len(),
        groups[g].start <= j < groups[g].start + groups[g].count(),
        0 <= j < after.len(),
    ensures
        after[j].cdf == cdf_source(p.in_cdf, p.qcat),
        after[j].last_qidx == hdr.quant.yac,
    decreases n,
{
    let mid = choose|mid: Seq<TileSlot>|
        #[trigger] between(mid) && groups_set(
            before,
            mid,
            groups,
            n - 1,
            hdr,
            ranges,
            p,
            offs,
        ) && group_set(
            mid,
            after,
            groups[n - 1],
            tiles_before(groups, n - 1),
            hdr,
            ranges,
            p,
            offs,
        );
    let last = groups[n - 1];
    if !(last.start <= j < last.start + last.count()) {
        assert(after[j] == mid[j]);
        lemma_tile_started(before, mid, groups, n - 1, hdr, ranges, p, offs, g, j);
    }
}

} // verus!
