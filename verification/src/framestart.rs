//! From the prepared state of a frame to where its decoding starts.
use vstd::prelude::*;

use crate::block::context_reset;
use crate::decodeb::{steps_covered, TileState};
use crate::env::BlockContext;
use crate::frame::{
    frame_deltas, ns_coeffs, quant_valid, sb_deltas, tile_row_first, DqTable, NsWienerBank,
};
use crate::framedec::{main_ok, FrameParams, MainContext, MainState, RunState};
use crate::framegeom::FrameGeometry;
use crate::frameinfo::{is_frame_info, InfoRefs};
use crate::frameinit::{
    contexts_made, contexts_ready, contexts_reset, frame_ready, same_but_slots, tiles_placed,
    without_tiles, FrameState,
};
use crate::frameplan::{frame_planned, offsets_of, pictures, FramePlan, FrameRequest};
use crate::framesetup::{
    are_info_refs, info_size, input_set, is_restored, no_tile, params_set, ranges_match, shape_of,
    tile_params_of, FrameJob,
};
use crate::frametop::frame_prepared;
use crate::headers::{FrameHeader, MAX_SEGMENTS};
use crate::intops::{min, p2, POW2};
use crate::intra::is_midx;
use crate::refsetup::{distances, same_units, slot_usable, RefSlot};
use crate::restoration::{
    bank_in_range, class_in_range, filter_in_range, law_empty_bank_is_in_range, NsTables,
};
use crate::restunit::Av2Restoration;
use crate::sbrow::{bank_classes, banks_ok, frame_units, input_at, RowInput};
use crate::sbsyntax::{DequantChoice, SbFilter};
use crate::segid::segmaps_valid;
use crate::tile::{
    bank_started, between, bounds_of, classes_fit, grid_valid, group_set, groups_set, tiles_before,
    TileGroup, TileSlot, WienerRanges,
};

verus! {

/// The headers lie in their ranges, the tables cover what the frame looks up,
/// and its tile groups lie within its tiles.
pub open spec fn job_fits(q: FrameRequest, job: FrameJob, kept: [RefSlot; 8]) -> bool {
    let hdr = *q.hdr;
    &&& grid_valid(hdr.tiling.t)
    &&& hdr.tiling.n_bytes <= 7
    &&& classes_fit(hdr)
    &&& tile_row_first(hdr.tiling.t.row_start_sb@, hdr.tiling.t.rows as int) <= q.geometry().sbh
    &&& steps_fit(hdr, *job.table)
    &&& groups_fit(hdr, job.tile_groups@)
    &&& job.y.valid(false)
    &&& job.uv.valid(true)
    &&& is_restored(hdr, false) ==> 7 <= hdr.restoration.unit_size[0] <= 12
    &&& is_restored(hdr, true) ==> 7 - min(q.seq.ss_ver as int, q.seq.ss_hor as int)
        <= hdr.restoration.unit_size[1] <= 12
    &&& q.seq.ss_hor <= 1
    &&& q.seq.ss_ver <= 1
    &&& 1 <= q.seq.max_pb_aspect_ratio_log2 <= 24
    &&& hdr.n_ref_frames <= 7
    &&& q.seq.num_same_ref_comp <= 7
    &&& hdr.mv_precision <= 3
    &&& hdr.subpel_filter_mode <= 4
    &&& q.inter() || hdr.skip_mode_enabled != 0 ==> hdr.n_ref_frames >= 1
    &&& hdr.cdef.enabled != 0 ==> 1 <= hdr.cdef.n_strengths <= 100
    &&& hdr.delta.q.res_log2 <= 16
    &&& maps_fit(q, job, kept)
}

/// The table covers the steps of quantizer index `i`.
pub open spec fn index_fits(hdr: FrameHeader, table: DqTable, i: int) -> bool {
    quant_valid(
        table,
        hdr.segmentation.enabled != 0,
        hdr.segmentation.d.delta_q,
        frame_deltas(hdr),
        i,
    )
}

/// The table covers every quantizer index of the frame.
pub open spec fn steps_fit(hdr: FrameHeader, table: DqTable) -> bool {
    &&& table.covers(hdr.quant.yac as int)
    &&& index_fits(hdr, table, hdr.quant.yac as int)
    &&& hdr.delta.q.present != 0 ==> forall|i: int|
        1 <= i <= 255 ==> #[trigger] index_fits(hdr, table, i)
}

/// The tile groups lie within the tiles of the frame.
pub open spec fn groups_fit(hdr: FrameHeader, groups: Seq<TileGroup>) -> bool {
    let n = hdr.tiling.t.cols * hdr.tiling.t.rows;
    &&& tiles_before(groups, groups.len() as int) <= n
    &&& forall|i: int|
        0 <= i < groups.len() ==> 0 <= (#[trigger] groups[i]).start && groups[i].end < n
}

/// The segment maps are those that the slots keep by number. One of a reference
/// with as many units has an entry for each of them.
pub open spec fn maps_fit(q: FrameRequest, job: FrameJob, kept: [RefSlot; 8]) -> bool {
    &&& forall|i: int|
        0 <= i < 8 ==> ((#[trigger] job.segmaps[i]) is Some <==> kept[i].segmap is Some)
    &&& q.hdr.segmentation.enabled != 0 && q.hdr.primary_ref_frame is Some ==> (
    kept[q.primary()].pic matches Some(pic) ==> (same_units(
        q.frame(),
        pic.coded_w as int,
        pic.h as int,
    ) ==> (job.segmaps[q.primary()] matches Some(m) ==> q.geometry().bh * q.geometry().b4_stride
        <= m@.len())))
}

/// The filters of a bank lie in the ranges of their plane.
pub open spec fn plane_in_range(b: NsWienerBank, pl: int, y: NsTables, uv: NsTables) -> bool {
    bank_in_range(b.classes(), if pl == 0 { y } else { uv }, ns_coeffs(pl))
}

/// A slot that decoding can start from.
pub open spec fn slot_ok(s: TileSlot, y: NsTables, uv: NsTables) -> bool {
    &&& 0 <= s.tiling.row <= 64
    &&& 0 <= s.tiling.col_start
    &&& 0 <= s.tiling.col_end <= 0x10_0000
    &&& 0 <= s.tiling.row_start
    &&& 0 <= s.tiling.row_end <= 0x3_fff0
    &&& 0 <= s.last_qidx <= 0xffff
    &&& forall|pl: int| 0 <= pl < 3 ==> plane_in_range(#[trigger] s.ns_wiener_bank[pl], pl, y, uv)
}

/// A state that a frame can be prepared in.
pub open spec fn state_ok(f: FrameState, y: NsTables, uv: NsTables) -> bool {
    &&& forall|i: int| 0 <= i < f.ts@.len() ==> slot_ok(#[trigger] f.ts@[i], y, uv)
    &&& forall|i: int| 0 <= i < f.a@.len() ==> (#[trigger] f.a@[i]).wf()
}

proof fn lemma_started_bank_in_range(
    before: NsWienerBank,
    after: NsWienerBank,
    y: NsTables,
    uv: NsTables,
    ranges: WienerRanges,
    pl: int,
    n: int,
)
    requires
        y.valid(false),
        uv.valid(true),
        ranges_match(y, uv, ranges),
        0 <= pl < 3,
        plane_in_range(before, pl, y, uv),
        bank_started(before, after, ranges.of(pl), pl, n),
    ensures
        plane_in_range(after, pl, y, uv),
{
    let t = if pl == 0 { y } else { uv };
    let c = ns_coeffs(pl);
    assert(POW2[3] == 8 && POW2[4] == 16 && POW2[5] == 32 && POW2[6] == 64 && POW2[7] == 128);
    assert forall|i: int| 0 <= i < 16 implies class_in_range(#[trigger] after.classes()[i], t, c) by {
        assert(class_in_range(before.classes()[i], t, c));
        assert forall|k: int| 0 <= k < 4 implies filter_in_range(
            #[trigger] after.class(i).filters[k],
            t,
            c,
        ) by {
            assert(filter_in_range(before.class(i).filters[k], t, c));
            assert forall|m: int| 0 <= m < c implies t.ranges@[m][1]
                <= #[trigger] after.class(i).filters[k][m] < t.ranges@[m][1] + p2(
                t.ranges@[m][0] as int,
            ) by {
                assert(before.class(i).filters[k][m] == before.filter[k][i][m]);
                assert(after.class(i).filters[k][m] == after.filter[k][i][m]);
                if pl == 0 {
                    assert(ranges.y[m] == y.ranges@[m]);
                } else {
                    assert(ranges.uv[m] == uv.ranges@[m]);
                }
                assert(3 <= t.ranges@[m][0] <= 7);
            }
        }
    }
}

proof fn lemma_unused_slot(s: TileSlot, y: NsTables, uv: NsTables)
    requires
        s.unused(),
        y.valid(false),
        uv.valid(true),
    ensures
        slot_ok(s, y, uv),
{
    assert forall|pl: int| 0 <= pl < 3 implies plane_in_range(
        #[trigger] s.ns_wiener_bank[pl],
        pl,
        y,
        uv,
    ) by {
        if pl == 0 {
            law_empty_bank_is_in_range(s.ns_wiener_bank[pl], y, false);
        } else {
            law_empty_bank_is_in_range(s.ns_wiener_bank[pl], uv, true);
        }
    }
}

proof fn lemma_bounds(
    cols: Seq<u16>,
    rows: Seq<u16>,
    r: int,
    c: int,
    sb_shift: int,
    bw: int,
    bh: int,
)
    requires
        0 <= r <= 64,
        4 <= sb_shift <= 6,
        0 <= bw <= 0x4000,
        0 <= bh <= 0x4000,
    ensures
        ({
            let b = bounds_of(cols, rows, r, c, sb_shift, bw, bh);
            &&& b.row == r
            &&& 0 <= b.col_start
            &&& 0 <= b.col_end <= 0x10_0000
            &&& 0 <= b.row_start
            &&& 0 <= b.row_end <= 0x3_fff0
        }),
{
    assert(POW2[4] == 16 && POW2[5] == 32 && POW2[6] == 64);
    assert(16 <= p2(sb_shift) <= 64);
    let k = p2(sb_shift);
    assert(0 <= cols[c] * k <= 0xffff * 64 && 0 <= cols[c + 1] * k && 0 <= rows[r] * k <= 0xffff
        * 64 && 0 <= rows[r + 1] * k) by (nonlinear_arith)
        requires
            0 <= cols[c] <= 0xffff,
            0 <= cols[c + 1] <= 0xffff,
            0 <= rows[r] <= 0xffff,
            0 <= rows[r + 1] <= 0xffff,
            16 <= k <= 64,
    ;
}

proof fn lemma_tile_row(k: int, cols: int, rows: int)
    requires
        0 <= k < cols * rows,
        0 <= cols <= 64,
        0 <= rows <= 64,
    ensures
        0 <= k / cols < 64,
{
    assert(0 <= k / cols < 64) by (nonlinear_arith)
        requires
            0 <= k < cols * rows,
            0 <= cols <= 64,
            0 <= rows <= 64,
    ;
}

/// The slots stay fit through the tiles of the first `n` groups.
proof fn lemma_groups_keep_slots(
    before: Seq<TileSlot>,
    after: Seq<TileSlot>,
    q: FrameRequest,
    plan: FramePlan,
    job: FrameJob,
    ranges: WienerRanges,
    offs: Seq<u32>,
    n: int,
)
    requires
        0 <= n <= job.tile_groups@.len(),
        job.y.valid(false),
        job.uv.valid(true),
        ranges_match(*job.y, *job.uv, ranges),
        grid_valid(q.hdr.tiling.t),
        groups_fit(*q.hdr, job.tile_groups@),
        4 <= plan.geometry.sb_shift <= 6,
        0 <= plan.geometry.bw <= 0x4000,
        0 <= plan.geometry.bh <= 0x4000,
        forall|i: int| 0 <= i < before.len() ==> slot_ok(#[trigger] before[i], *job.y, *job.uv),
        groups_set(
            before,
            after,
            job.tile_groups@,
            n,
            *q.hdr,
            ranges,
            tile_params_of(q, plan, job.n_tc),
            offs,
        ),
    ensures
        after.len() == before.len(),
        forall|i: int| 0 <= i < after.len() ==> slot_ok(#[trigger] after[i], *job.y, *job.uv),
    decreases n,
{
    if n > 0 {
        let groups = job.tile_groups@;
        let tp = tile_params_of(q, plan, job.n_tc);
        let mid = choose|mid: Seq<TileSlot>|
            #[trigger] between(mid) && groups_set(
                before,
                mid,
                groups,
                n - 1,
                *q.hdr,
                ranges,
                tp,
                offs,
            ) && group_set(
                mid,
                after,
                groups[n - 1],
                tiles_before(groups, n - 1),
                *q.hdr,
                ranges,
                tp,
                offs,
            );
        lemma_groups_keep_slots(before, mid, q, plan, job, ranges, offs, n - 1);
        let g = groups[n - 1];
        let first = tiles_before(groups, n - 1);
        lemma_tiles_before_grow(groups, n, groups.len() as int);
        lemma_tiles_before_grow(groups, 0, n - 1);
        assert forall|j: int| 0 <= j < after.len() implies slot_ok(
            #[trigger] after[j],
            *job.y,
            *job.uv,
        ) by {
            assert(slot_ok(mid[j], *job.y, *job.uv));
            if g.start <= j < g.start + g.count() {
                let t = q.hdr.tiling.t;
                let k = first + (j - g.start);
                lemma_tile_row(k, t.cols as int, t.rows as int);
                lemma_bounds(
                    t.col_start_sb@,
                    t.row_start_sb@,
                    k / t.cols as int,
                    k % t.cols as int,
                    tp.sb_shift as int,
                    tp.bw as int,
                    tp.bh as int,
                );
                assert forall|pl: int| 0 <= pl < 3 implies plane_in_range(
                    #[trigger] after[j].ns_wiener_bank[pl],
                    pl,
                    *job.y,
                    *job.uv,
                ) by {
                    assert(plane_in_range(mid[j].ns_wiener_bank[pl], pl, *job.y, *job.uv));
                    if crate::frame::uses_ns(q.hdr.restoration.p[pl].restoration_type) {
                        lemma_started_bank_in_range(
                            mid[j].ns_wiener_bank[pl],
                            after[j].ns_wiener_bank[pl],
                            *job.y,
                            *job.uv,
                            ranges,
                            pl,
                            q.hdr.restoration.p[pl].ns.num_classes as int,
                        );
                    }
                }
            }
        }
    }
}

proof fn lemma_tiles_before_grow(groups: Seq<TileGroup>, a: int, b: int)
    requires
        0 <= a <= b,
    ensures
        0 <= tiles_before(groups, a) <= tiles_before(groups, b),
    decreases b,
{
    if a < b {
        lemma_tiles_before_grow(groups, a, b - 1);
    } else if a > 0 {
        lemma_tiles_before_grow(groups, a - 1, b - 1);
    }
}

proof fn lemma_contexts_wf(
    before: FrameState,
    after: FrameState,
    hdr: FrameHeader,
    shape: crate::frameinit::FrameShape,
)
    requires
        contexts_ready(before, after, hdr, shape),
        forall|i: int| 0 <= i < before.a@.len() ==> (#[trigger] before.a@[i]).wf(),
    ensures
        forall|i: int| 0 <= i < after.a@.len() ==> (#[trigger] after.a@[i]).wf(),
{
    let n = shape.sb256w * hdr.tiling.t.rows;
    let mid = choose|mid: Seq<BlockContext>|
        #[trigger] contexts_made(before, mid, n) && if shape.n_tc > 1 {
            contexts_reset(
                mid,
                after.a@,
                n,
                !hdr.frame_type.inter_or_switch(),
                hdr.tip.frame_mode == 2,
            )
        } else {
            after.a@ == mid
        };
    assert forall|i: int| 0 <= i < mid.len() implies (#[trigger] mid[i]).wf() by {
        if n != before.a_sz && i >= before.a@.len() {
            assert(mid[i].is_zero());
        } else {
            assert(mid[i] == before.a@[i]);
        }
    }
    assert forall|i: int| 0 <= i < after.a@.len() implies (#[trigger] after.a@[i]).wf() by {
        assert(mid[i].wf());
        if shape.n_tc > 1 && i < n {
            lemma_reset_wf(
                mid[i],
                after.a@[i],
                !hdr.frame_type.inter_or_switch(),
                hdr.tip.frame_mode == 2,
            );
        }
    }
}

proof fn lemma_reset_wf(before: BlockContext, after: BlockContext, key: bool, tip: bool)
    requires
        before.wf(),
        context_reset(before, after, key, tip),
    ensures
        after.wf(),
{
}

/// A prepared frame is one that decoding can start from.
pub proof fn lemma_prepared_ok(
    q: FrameRequest,
    plan: FramePlan,
    job: FrameJob,
    kept: [RefSlot; 8],
    ranges: WienerRanges,
    absrefdist: [u8; 7],
    f0: FrameState,
    f1: FrameState,
)
    requires
        q.valid(pictures(kept)),
        plan.geometry == q.geometry(),
        job_fits(q, job, kept),
        ranges_match(*job.y, *job.uv, ranges),
        state_ok(f0, *job.y, *job.uv),
        frame_prepared(
            f0,
            f1,
            *q.hdr,
            *job.table,
            ranges,
            job.tile_groups@,
            tile_params_of(q, plan, job.n_tc),
            absrefdist,
            shape_of(plan, job.n_tc),
        ),
    ensures
        state_ok(f1, *job.y, *job.uv),
        f1.ts@.len() == q.hdr.tiling.t.cols * q.hdr.tiling.t.rows,
{
    let hdr = *q.hdr;
    let tp = tile_params_of(q, plan, job.n_tc);
    let shape = shape_of(plan, job.n_tc);
    let m = choose|m: FrameState| #[trigger]
        without_tiles(m) && frame_ready(f0, m, hdr, *job.table, absrefdist, shape)
            && same_but_slots(m, f1) && f1.ts@.len() == m.ts@.len() && if hdr.tip.frame_mode != 2 {
            groups_set(
                m.ts@,
                f1.ts@,
                job.tile_groups@,
                job.tile_groups@.len() as int,
                hdr,
                ranges,
                tp,
                m.tile_start_off@,
            )
        } else {
            tiles_placed(m.ts@, f1.ts@, hdr, tp)
        };
    lemma_contexts_wf(f0, m, hdr, shape);
    assert forall|i: int| 0 <= i < m.ts@.len() implies slot_ok(
        #[trigger] m.ts@[i],
        *job.y,
        *job.uv,
    ) by {
        if i < f0.ts@.len() {
            assert(m.ts@[i] == f0.ts@[i]);
            assert(slot_ok(f0.ts@[i], *job.y, *job.uv));
        } else {
            lemma_unused_slot(m.ts@[i], *job.y, *job.uv);
        }
    }
    if hdr.tip.frame_mode != 2 {
        lemma_groups_keep_slots(
            m.ts@,
            f1.ts@,
            q,
            plan,
            job,
            ranges,
            m.tile_start_off@,
            job.tile_groups@.len() as int,
        );
    } else {
        assert forall|k: int| 0 <= k < f1.ts@.len() implies slot_ok(
            #[trigger] f1.ts@[k],
            *job.y,
            *job.uv,
        ) by {
            let t = hdr.tiling.t;
            assert(slot_ok(m.ts@[k], *job.y, *job.uv));
            lemma_tile_row(k, t.cols as int, t.rows as int);
            lemma_bounds(
                t.col_start_sb@,
                t.row_start_sb@,
                k / t.cols as int,
                k % t.cols as int,
                tp.sb_shift as int,
                tp.bw as int,
                tp.bh as int,
            );
        }
    }
}

proof fn lemma_sbh(q: FrameRequest)
    requires
        q.frame().valid(),
        q.hdr.sb128 <= 2,
    ensures
        0 <= q.geometry().sbh <= 0x4000,
{
    assert(POW2[0] == 1 && POW2[1] == 2 && POW2[2] == 4);
    let bh = crate::framegeom::units_of(q.hdr.height as int);
    let step = 16 * p2(q.hdr.sb128 as int);
    assert(0 <= (bh + step - 1) / step <= bh) by (nonlinear_arith)
        requires
            0 <= bh,
            1 <= step,
    ;
}

/// What a frame is decoded with lies in its ranges.
pub proof fn lemma_params_valid(
    q: FrameRequest,
    plan: FramePlan,
    job: FrameJob,
    kept: [RefSlot; 8],
    f: FrameState,
    p: FrameParams,
)
    requires
        q.valid(pictures(kept)),
        frame_planned(q, kept, plan),
        job_fits(q, job, kept),
        state_ok(f, *job.y, *job.uv),
        f.ts@.len() == q.hdr.tiling.t.cols * q.hdr.tiling.t.rows,
        params_set(q, plan, job, f, p),
    ensures
        p.valid(),
        steps_covered(p.info, *job.table),
{
    let k = choose|k: InfoRefs| #[trigger]
        are_info_refs(q, plan, k) && is_frame_info(
            *q.seq,
            *q.hdr,
            info_size(plan),
            k,
            no_tile(),
            p.info,
        );
    let slots = pictures(kept);
    assert(POW2[0] == 1 && POW2[1] == 2 && POW2[2] == 4);
    assert forall|i: int| 0 <= i < 8 implies #[trigger] p.info.refdir[i] <= 1
        && p.info.refdist[i] > -128 by {
        if q.inter() && i < 7 {
            let d = plan.distances->Some_0;
            let pocs = choose|pocs: [i32; 7]|
                #[trigger] offsets_of(plan.refs@, pocs) && distances(
                    q.seq.order_hint_n_bits as int,
                    q.hdr.frame_offset as int,
                    pocs,
                    d,
                );
            assert(offsets_of(plan.refs@, pocs));
            assert(slot_usable(q.frame(), slots[q.hdr.refidx[i] as int]));
            assert(plan.refs@[i].pic == slots[q.hdr.refidx[i] as int]->Some_0);
            assert(pocs[i] == plan.refs@[i].pic.frame_offset);
            assert(d.refdir[i] <= 1);
            assert(d.refdist[i] > -128);
        }
    }
    assert forall|t: int| 0 <= t < p.tiles@.len() implies {
        let b = #[trigger] p.tiles@[t];
        &&& 0 <= b.row <= 64
        &&& 0 <= b.col_start
        &&& 0 <= b.col_end <= 0x10_0000
        &&& 0 <= b.row_start
        &&& 0 <= b.row_end <= 0x3_fff0
    } by {
        assert(slot_ok(f.ts@[t], *job.y, *job.uv));
    }
    assert(crate::compound::refs_valid(p.info)) by {
        assert forall|i: int| 0 <= i < 8 implies #[trigger] p.info.refdist[i] > -128 by {
            assert(p.info.refdir[i] <= 1);
        }
    }
    lemma_sbh(q);
    assert(sb_deltas(p.info) == frame_deltas(*q.hdr));
    if p.info.delta_q_present {
        assert forall|i: int| 1 <= i <= 255 implies #[trigger] quant_valid(
            *job.table,
            p.info.seg_enabled,
            p.info.seg_delta_q,
            sb_deltas(p.info),
            i,
        ) by {
            assert(index_fits(*q.hdr, *job.table, i));
        }
    }
}

/// No quantizer step has been computed yet.
pub open spec fn no_steps(dq: [[[u32; 2]; 3]; MAX_SEGMENTS]) -> bool {
    forall|i: int, pl: int, ac: int|
        0 <= i < 16 && 0 <= pl < 3 && 0 <= ac < 2 ==> #[trigger] dq[i][pl][ac] == 0
}

/// How many entries the segment map has: one for each unit of whole 256x256
/// areas, and none where there are no segments.
pub open spec fn segmap_len(g: FrameGeometry, segments: bool) -> int {
    if segments { g.b4_stride * 64 * g.sb256h } else { 0 }
}

/// What the tiles of a frame share before the first of them is decoded. The
/// motion around the first block is given.
pub open spec fn tile_started(
    g: FrameGeometry,
    segments: bool,
    f: FrameState,
    t0: TileState,
    t1: TileState,
) -> bool {
    &&& t1.segmap@.len() == segmap_len(g, segments)
    &&& forall|i: int| 0 <= i < t1.segmap@.len() ==> #[trigger] t1.segmap@[i] == 0
    &&& t1.lf@ == f.lf.mask@
    &&& t1.ccso@.len() == 0
    &&& t1.qidx == 0
    &&& t1.dequant == DequantChoice::Keep
    &&& no_steps(t1.dq)
    &&& forall|i: int| 0 <= i < 256 ==> #[trigger] t1.dir_map[i] == 0
    &&& forall|i: int| 0 <= i < 256 ==> #[trigger] t1.fsc_map[i] == 0
    &&& t1.motion == t0.motion
    &&& t1.warp == t0.warp
}

/// What a tile carries before its first row of superblocks: its reader, and the
/// quantizer and the filters of its slot.
pub open spec fn run_started(slot: TileSlot, r0: RunState, r1: RunState) -> bool {
    &&& r1.sym == r0.sym
    &&& r1.banks == bank_classes(slot.ns_wiener_bank)
    &&& r1.qidx == slot.last_qidx
    &&& no_steps(r1.dq)
    &&& r1.parts.len() == 0
}

/// Where the decoding of a prepared frame starts. Of `s0` only the readers and
/// the motion are taken.
pub open spec fn main_started(
    g: FrameGeometry,
    segments: bool,
    f: FrameState,
    s0: MainState,
    s1: MainState,
) -> bool {
    &&& s1.row.a == f.a@
    &&& s1.row.lr == frame_units(f.lf.lr_mask@)
    &&& s1.row.banks == s0.row.banks
    &&& s1.row.sb.sym == s0.row.sb.sym
    &&& s1.row.sb.a == s0.row.sb.a
    &&& s1.row.sb.walk == s0.row.sb.walk
    &&& s1.row.sb.l.is_zero()
    &&& s1.row.sb.parts.len() == 0
    &&& s1.row.sb.leaves.len() == 0
    &&& s1.row.sb.blocks.len() == 0
    &&& tile_started(g, segments, f, s0.row.sb.t, s1.row.sb.t)
    &&& s1.runs.len() == s0.runs.len()
    &&& forall|i: int|
        0 <= i < s0.runs.len() ==> run_started(f.ts@[i], s0.runs[i], #[trigger] s1.runs[i])
    &&& s1.filtered.len() == 0
}

fn copy_contexts(v: &Vec<BlockContext>) -> (r: Vec<BlockContext>)
    ensures
        r@ == v@,
{
    let n: usize = v.len();
    let mut r: Vec<BlockContext> = Vec::new();
    let mut i: usize = 0;
    while i < n
        invariant
            i <= n,
            n == v@.len(),
            r@ == v@.subrange(0, i as int),
        decreases n - i,
    {
        r.push(v[i]);
        i = i + 1;
    }
    assert(r@ =~= v@);
    r
}

fn copy_masks(v: &Vec<SbFilter>) -> (r: Vec<SbFilter>)
    ensures
        r@ == v@,
{
    let n: usize = v.len();
    let mut r: Vec<SbFilter> = Vec::new();
    let mut i: usize = 0;
    while i < n
        invariant
            i <= n,
            n == v@.len(),
            r@ == v@.subrange(0, i as int),
        decreases n - i,
    {
        r.push(v[i]);
        i = i + 1;
    }
    assert(r@ =~= v@);
    r
}

fn copy_units(v: &Vec<Av2Restoration>) -> (r: Vec<Av2Restoration>)
    ensures
        r@ == v@,
{
    let n: usize = v.len();
    let mut r: Vec<Av2Restoration> = Vec::new();
    let mut i: usize = 0;
    while i < n
        invariant
            i <= n,
            n == v@.len(),
            r@ == v@.subrange(0, i as int),
        decreases n - i,
    {
        r.push(v[i]);
        i = i + 1;
    }
    assert(r@ =~= v@);
    r
}

fn start_tile(g: &FrameGeometry, segments: bool, f: &FrameState, t: &mut TileState)
    requires
        0 <= g.b4_stride <= 0x4000,
        0 <= g.sb256h <= 0x800,
    ensures
        tile_started(*g, segments, *f, *old(t), *final(t)),
{
    let mut len: usize = 0;
    if segments {
        assert(0 <= g.b4_stride * 64 * g.sb256h <= 0xffff_ffff) by (nonlinear_arith)
            requires
                0 <= g.b4_stride <= 0x4000,
                0 <= g.sb256h <= 0x800,
        ;
        assert(0 <= g.b4_stride * 64 <= 0x10_0000);
        len = (g.b4_stride as usize * 64) * g.sb256h as usize;
    }
    let mut map: Vec<u8> = Vec::new();
    map.resize(len, 0);
    t.segmap = map;
    t.lf = copy_masks(&f.lf.mask);
    t.ccso = Vec::new();
    t.qidx = 0;
    t.dequant = DequantChoice::Keep;
    t.dq = [[[0; 2]; 3]; MAX_SEGMENTS];
    t.dir_map = [0; 256];
    t.fsc_map = [0; 256];
}

/// Starts the decoding of a prepared frame. `c` brings a reader for each tile,
/// and the motion around the first block.
pub fn start_main(g: &FrameGeometry, segments: bool, f: &FrameState, c: &mut MainContext)
    requires
        0 <= g.b4_stride <= 0x4000,
        0 <= g.sb256h <= 0x800,
        old(c).runs@.len() == f.ts@.len(),
    ensures
        main_started(*g, segments, *f, old(c)@, final(c)@),
{
    let ghost s0 = c@;
    c.row.a = copy_contexts(&f.a);
    c.row.lr = copy_units(&f.lf.lr_mask);
    c.row.sb.l = BlockContext::default();
    c.row.sb.parts = Vec::new();
    c.row.sb.leaves = Vec::new();
    c.row.sb.blocks = Vec::new();
    start_tile(g, segments, f, &mut c.row.sb.t);
    c.filtered = Vec::new();
    let n: usize = f.ts.len();
    let ghost row = c.row;
    let mut i: usize = 0;
    while i < n
        invariant
            i <= n,
            n == f.ts@.len(),
            n == c.runs@.len(),
            n == s0.runs.len(),
            c.row == row,
            c.filtered@.len() == 0,
            forall|k: int| i <= k < n ==> (#[trigger] c.runs@[k])@ == s0.runs[k],
            forall|k: int|
                0 <= k < i ==> run_started(f.ts@[k], s0.runs[k], (#[trigger] c.runs@[k])@),
        decreases n - i,
    {
        assert(c.runs@[i as int]@ == s0.runs[i as int]);
        c.runs[i].banks = f.ts[i].ns_wiener_bank;
        c.runs[i].qidx = f.ts[i].last_qidx;
        c.runs[i].dq = [[[0; 2]; 3]; MAX_SEGMENTS];
        c.runs[i].parts = Vec::new();
        assert(run_started(f.ts@[i as int], s0.runs[i as int], c.runs@[i as int]@));
        i = i + 1;
    }
    proof {
        assert forall|k: int| 0 <= k < s0.runs.len() implies run_started(
            f.ts@[k],
            s0.runs[k],
            #[trigger] c@.runs[k],
        ) by {
            assert(c@.runs[k] == c.runs@[k]@);
        }
    }
}

/// Decoding starts from a state that it keeps.
pub proof fn lemma_started_ok(
    q: FrameRequest,
    plan: FramePlan,
    job: FrameJob,
    kept: [RefSlot; 8],
    f: FrameState,
    p: FrameParams,
    input: RowInput,
    s0: MainState,
    s1: MainState,
)
    requires
        q.valid(pictures(kept)),
        frame_planned(q, kept, plan),
        job_fits(q, job, kept),
        state_ok(f, *job.y, *job.uv),
        forall|i: int| 0 <= i < f.lf.mask@.len() ==> (#[trigger] f.lf.mask@[i]).idle(),
        params_set(q, plan, job, f, p),
        p.valid(),
        steps_covered(p.info, *job.table),
        input_set(q, plan, job, input),
        s0.row.sb.t.motion.wf(),
        s0.runs.len() == f.ts@.len(),
        main_started(plan.geometry, q.hdr.segmentation.enabled != 0, f, s0, s1),
    ensures
        main_ok(p, input, s1),
{
    let g = plan.geometry;
    let t = s1.row.sb.t;
    let fi = p.info;
    assert forall|i: int| 0 <= i < s1.row.a.len() implies (#[trigger] s1.row.a[i]).wf() by {
        assert(f.a@[i].wf());
    }
    assert(segmaps_valid(fi, t.segmap@, input_at(input, 0).prev_seq())) by {
        if fi.seg_enabled {
            assert(0 <= fi.bw <= fi.b4_stride);
            assert(fi.b4_stride == g.b4_stride && fi.bh == g.bh);
            assert(g.bh <= 64 * g.sb256h);
            assert(g.bh * g.b4_stride <= g.b4_stride * 64 * g.sb256h) by (nonlinear_arith)
                requires
                    0 <= g.b4_stride,
                    0 <= g.bh <= 64 * g.sb256h,
            ;
            if plan.prev_segmap is Some {
                let k = q.hdr.primary_ref_frame->Some_0 as int;
                assert(slot_usable(q.frame(), pictures(kept)[q.hdr.refidx[k] as int]));
                assert(plan.refs@[k].pic == pictures(kept)[q.hdr.refidx[k] as int]->Some_0);
                assert(kept[q.primary()].pic == Some(plan.refs@[k].pic));
            }
        }
    }
    assert forall|i: int, j: int| 0 <= i < t.lf@.len() && 0 <= j < 16 implies -1
        <= #[trigger] t.lf@[i].cdef_idx[j] <= 100 by {
        assert(f.lf.mask@[i].idle());
    }
    assert forall|i: int| 0 <= i < 256 implies is_midx(#[trigger] t.dir_map[i]) by {
        assert(t.dir_map[i] == 0);
    }
    assert forall|k: int| 0 <= k < s1.runs.len() implies banks_ok(
        (#[trigger] s1.runs[k]).banks,
        p.row_of(k, 0),
    ) && 0 <= s1.runs[k].qidx <= 0xffff by {
        let slot = f.ts@[k];
        assert(slot_ok(slot, *job.y, *job.uv));
        assert(run_started(slot, s0.runs[k], s1.runs[k]));
        assert forall|pl: int| 0 <= pl < 3 implies bank_in_range(
            #[trigger] s1.runs[k].banks[pl],
            p.row_of(k, 0).tables(pl),
            ns_coeffs(pl),
        ) by {
            assert(plane_in_range(slot.ns_wiener_bank[pl], pl, *job.y, *job.uv));
        }
    }
}

} // verus!
