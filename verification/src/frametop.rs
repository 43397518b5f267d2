//! Decoding of a frame from its headers to its kept distributions.
use vstd::prelude::*;

use crate::error::{Rav2dError, Result};
use crate::frame::DqTable;
use crate::framedec::{
    decode_frame_main, decodes_at, decodes_from, frame_begun, tile_row_work, work_fails, work_from,
    work_run, FrameParams, MainContext, MainState, Work,
};
use crate::frameinit::{
    frame_ready, groups_split, prepare_frame, same_but_slots, tiles_placed, without_tiles,
    FrameShape, FrameState,
};
use crate::frameplan::{frame_planned, pictures, FramePlan, FrameRequest};
use crate::framesetup::{
    find_input, find_motion, find_ranges, find_shape, find_tile_params, frame_params, input_set,
    params_set, ranges_match, shape_of, tile_params_of, FrameJob,
};
use crate::framestart::{
    job_fits, lemma_params_valid, lemma_prepared_ok, lemma_started_ok, main_started, start_main,
    state_ok,
};
use crate::headers::FrameHeader;
use crate::intops::max;
use crate::motion::MotionFrame;
use crate::refsetup::RefSlot;
use crate::sbrow::RowInput;
use crate::tile::{groups_set, TileGroup, TileParams, WienerRanges};

verus! {

/// The tile whose distributions are kept, as the header names it: none where
/// they are not updated, nor for a frame that is interpolated as a whole.
pub open spec fn kept_tile(hdr: FrameHeader, n_tiles: int) -> Option<int> {
    if hdr.tip.frame_mode != 2 && hdr.disable_cdf_update == 0 && hdr.tiling.update < n_tiles {
        Some(hdr.tiling.update as int)
    } else {
        None
    }
}

/// The frame is ready, with its tiles in their slots.
pub open spec fn frame_prepared(
    before: FrameState,
    after: FrameState,
    hdr: FrameHeader,
    table: DqTable,
    ranges: WienerRanges,
    groups: Seq<TileGroup>,
    tp: TileParams,
    absrefdist: [u8; 7],
    shape: FrameShape,
) -> bool {
    exists|m: FrameState| #[trigger]
        without_tiles(m) && frame_ready(before, m, hdr, table, absrefdist, shape)
            && same_but_slots(m, after) && after.ts@.len() == m.ts@.len() && if hdr.tip.frame_mode
            != 2 {
            groups_set(
                m.ts@,
                after.ts@,
                groups,
                groups.len() as int,
                hdr,
                ranges,
                tp,
                m.tile_start_off@,
            )
        } else {
            tiles_placed(m.ts@, after.ts@, hdr, tp)
        }
}

/// Distances are those of the plan; a frame without references has none.
pub open spec fn plan_distances(r: FramePlan, d: [u8; 7]) -> bool {
    match r.distances {
        Some(x) => d == x.absrefdist,
        None => forall|i: int| 0 <= i < 7 ==> #[trigger] d[i] == 0,
    }
}

/// The frame is prepared as its headers and its plan say.
pub open spec fn frame_set_up(
    q: FrameRequest,
    plan: FramePlan,
    job: FrameJob,
    before: FrameState,
    after: FrameState,
) -> bool {
    exists|ranges: WienerRanges, d: [u8; 7]|
        #![trigger ranges_match(*job.y, *job.uv, ranges), plan_distances(plan, d)]
        ranges_match(*job.y, *job.uv, ranges) && plan_distances(plan, d) && frame_prepared(
            before,
            after,
            *q.hdr,
            *job.table,
            ranges,
            job.tile_groups@,
            tile_params_of(q, plan, job.n_tc),
            d,
            shape_of(plan, job.n_tc),
        )
}

/// Decoding starts from `b`, with what the headers, the plan and the prepared
/// state `f` say: the same tiles, with the quantizers and the filters of their
/// slots, under fresh contexts. Of `c` only the readers and the motion are
/// taken.
pub open spec fn frame_started(
    q: FrameRequest,
    plan: FramePlan,
    job: FrameJob,
    f: FrameState,
    c: MainState,
    p: FrameParams,
    input: RowInput,
    b: MainState,
) -> bool {
    &&& params_set(q, plan, job, f, p)
    &&& input_set(q, plan, job, input)
    &&& exists|s: MainState| #[trigger]
        frame_begun(p, s, b) && main_started(
            plan.geometry,
            q.hdr.segmentation.enabled != 0,
            f,
            c,
            s,
        )
}

/// Decoding all tiles of the prepared frame takes `c0` to `c1`.
pub open spec fn frame_decoded(
    q: FrameRequest,
    plan: FramePlan,
    job: FrameJob,
    f: FrameState,
    c0: MainState,
    c1: MainState,
) -> bool {
    exists|p: FrameParams, input: RowInput, b: MainState| #[trigger]
        frame_started(q, plan, job, f, c0, p, input, b) && work_run(
            p,
            input,
            work_from(p, 0),
            work_from(p, 0).len() as int,
            b,
            c1,
        )
}

/// A tile of the prepared frame cannot be decoded from `c`.
pub open spec fn frame_stopped(
    q: FrameRequest,
    plan: FramePlan,
    job: FrameJob,
    f: FrameState,
    c: MainState,
) -> bool {
    exists|p: FrameParams, input: RowInput, b: MainState, n: int, m: MainState|
        #![trigger frame_started(q, plan, job, f, c, p, input, b), work_fails(
            p,
            input,
            work_from(p, 0),
            n,
            b,
            m,
        )]
        frame_started(q, plan, job, f, c, p, input, b) && work_fails(
            p,
            input,
            work_from(p, 0),
            n,
            b,
            m,
        )
}

/// What has to hold where the decoding of a frame starts: a reader for each
/// tile, and motion around the first block.
pub open spec fn readers_ready(hdr: FrameHeader, c: MainState) -> bool {
    &&& c.runs.len() == hdr.tiling.t.cols * hdr.tiling.t.rows
    &&& c.row.sb.t.motion.wf()
}

/// Decodes a planned frame: gets it ready, derives what it is decoded with,
/// decodes its tiles, and tells which tile's distributions are kept. `kept` are
/// the slots that the plan was made with; `c` brings a reader for each tile.
pub fn decode_frame<'a>(
    q: &FrameRequest<'a>,
    plan: &FramePlan,
    job: &FrameJob<'a>,
    kept: &[RefSlot; 8],
    f: &mut FrameState,
    c: &mut MainContext,
) -> (r: Result<Option<usize>>)
    requires
        q.valid(pictures(*kept)),
        frame_planned(*q, *kept, *plan),
        job_fits(*q, *job, *kept),
        state_ok(*old(f), *job.y, *job.uv),
        readers_ready(*q.hdr, old(c)@),
    ensures
        r matches Ok(k) ==> {
            &&& q.hdr.tip.frame_mode == 2 || groups_split(*q.hdr, job.tile_groups@)
            &&& frame_set_up(*q, *plan, *job, *old(f), *final(f))
            &&& frame_decoded(*q, *plan, *job, *final(f), old(c)@, final(c)@)
            &&& match k {
                Some(t) => kept_tile(*q.hdr, final(f).ts@.len() as int) == Some(t as int),
                None => kept_tile(*q.hdr, final(f).ts@.len() as int) is None,
            }
        },
        r matches Err(e) ==> {
            &&& e == Rav2dError::InvalidData
            &&& (q.hdr.tip.frame_mode != 2 && !groups_split(*q.hdr, job.tile_groups@) && *final(c)
                == *old(c)) || (frame_set_up(*q, *plan, *job, *old(f), *final(f)) && frame_stopped(
                *q,
                *plan,
                *job,
                *final(f),
                old(c)@,
            ))
        },
{
    let ghost f0 = *f;
    let ghost c0 = c@;
    let ranges: WienerRanges = find_ranges(job.y, job.uv);
    let tp: TileParams = find_tile_params(q, plan, job.n_tc);
    let shape: FrameShape = find_shape(plan, job.n_tc);
    let d: [u8; 7] = match &plan.distances {
        Some(x) => x.absrefdist,
        None => [0; 7],
    };
    assert(plan_distances(*plan, d));
    proof {
        lemma_geometry_small(*q);
    }
    match prepare_frame(q.hdr, job.table, &ranges, job.tile_groups, &tp, f, &d, &shape) {
        Ok(_) => {},
        Err(e) => {
            return Err(e);
        },
    }
    let ghost m = choose|m: FrameState| #[trigger]
        without_tiles(m) && frame_ready(f0, m, *q.hdr, *job.table, d, shape) && same_but_slots(
            m,
            *f,
        ) && f.ts@.len() == m.ts@.len() && if q.hdr.tip.frame_mode != 2 {
            groups_set(
                m.ts@,
                f.ts@,
                job.tile_groups@,
                job.tile_groups@.len() as int,
                *q.hdr,
                ranges,
                tp,
                m.tile_start_off@,
            )
        } else {
            tiles_placed(m.ts@, f.ts@, *q.hdr, tp)
        };
    proof {
        assert(without_tiles(m));
        assert(frame_prepared(
            f0,
            *f,
            *q.hdr,
            *job.table,
            ranges,
            job.tile_groups@,
            tp,
            d,
            shape,
        ));
        assert(frame_set_up(*q, *plan, *job, f0, *f));
        lemma_prepared_ok(*q, *plan, *job, *kept, ranges, d, f0, *f);
    }
    let p: FrameParams = frame_params(q, plan, job, f);
    let motion: MotionFrame = find_motion(q, plan);
    let input: RowInput = find_input(q, plan, job, &motion);
    start_main(&plan.geometry, q.hdr.segmentation.enabled != 0, f, c);
    let ghost s = c@;
    proof {
        lemma_params_valid(*q, *plan, *job, *kept, *f, p);
        lemma_started_ok(*q, *plan, *job, *kept, *f, p, input, c0, s);
    }
    match decode_frame_main(&p, &input, c) {
        Ok(_) => {
            proof {
                let b = choose|b: MainState| #[trigger]
                    frame_begun(p, s, b) && work_run(
                        p,
                        input,
                        work_from(p, 0),
                        work_from(p, 0).len() as int,
                        b,
                        c@,
                    );
                assert(frame_started(*q, *plan, *job, *f, c0, p, input, b));
            }
        },
        Err(e) => {
            proof {
                let (b, n, mm) = choose|b: MainState, n: int, mm: MainState|
                    #![trigger frame_begun(p, s, b), work_fails(
                        p,
                        input,
                        work_from(p, 0),
                        n,
                        b,
                        mm,
                    )]
                    frame_begun(p, s, b) && work_fails(p, input, work_from(p, 0), n, b, mm);
                assert(frame_started(*q, *plan, *job, *f, c0, p, input, b));
                assert(work_fails(p, input, work_from(p, 0), n, b, mm));
            }
            return Err(e);
        },
    }
    let update: usize = q.hdr.tiling.update as usize;
    if q.hdr.tip.frame_mode != 2 && q.hdr.disable_cdf_update == 0 && update < f.ts.len() {
        Ok(Some(update))
    } else {
        Ok(None)
    }
}

proof fn lemma_geometry_small(q: FrameRequest)
    requires
        q.frame().valid(),
        q.hdr.sb128 <= 2,
    ensures
        0 <= q.geometry().bw <= 0x4000,
        0 <= q.geometry().bh <= 0x4000,
        0 <= q.geometry().sb256w <= 0x100,
        0 <= q.geometry().sb256h <= 0x100,
        0 <= q.geometry().b4_stride <= 0x4000,
        4 <= q.geometry().sb_shift <= 6,
{
}

proof fn lemma_in_sum<A>(a: Seq<A>, b: Seq<A>, v: A)
    requires
        a.contains(v) || b.contains(v),
    ensures
        (a + b).contains(v),
{
    if a.contains(v) {
        let i = choose|i: int| 0 <= i < a.len() && a[i] == v;
        assert((a + b)[i] == v);
    } else {
        let i = choose|i: int| 0 <= i < b.len() && b[i] == v;
        assert((a + b)[a.len() + i] == v);
    }
}

proof fn lemma_decoded_at(p: FrameParams, base: int, by: int, c: int, k: int)
    requires
        0 <= k <= c < p.cols(),
        p.tiles@[base + c].row_start <= by < p.tiles@[base + c].row_end,
    ensures
        decodes_at(p, base, by, k).contains(Work::Decode((base + c) as usize, by as i32)),
    decreases c - k,
{
    let w = Work::Decode((base + c) as usize, by as i32);
    let s = decodes_at(p, base, by, k);
    if k == c {
        assert(s[0] == w);
    } else {
        lemma_decoded_at(p, base, by, c, k + 1);
        let rest = decodes_at(p, base, by, k + 1);
        let b = p.tiles@[base + k];
        if b.row_start <= by < b.row_end {
            lemma_in_sum(seq![Work::Decode((base + k) as usize, by as i32)], rest, w);
        }
    }
}

proof fn lemma_decoded_from(p: FrameParams, base: int, from: int, end: int, by: int, c: int)
    requires
        p.step() > 0,
        from <= by < end,
        (by - from) % p.step() == 0,
        0 <= c < p.cols(),
        p.tiles@[base + c].row_start <= by < p.tiles@[base + c].row_end,
    ensures
        decodes_from(p, base, from, end).contains(Work::Decode((base + c) as usize, by as i32)),
    decreases max(end - from, 0),
{
    let w = Work::Decode((base + c) as usize, by as i32);
    let here = decodes_at(p, base, from, 0);
    let rest = decodes_from(p, base, from + p.step(), end);
    if from == by {
        lemma_decoded_at(p, base, by, c, 0);
    } else {
        let d = by - from;
        assert(d >= p.step() && (d - p.step()) % p.step() == 0) by {
            if d < p.step() {
                vstd::arithmetic::div_mod::lemma_small_mod(d as nat, p.step() as nat);
            }
            vstd::arithmetic::div_mod::lemma_mod_sub_multiples_vanish(d, p.step());
        }
        lemma_decoded_from(p, base, from + p.step(), end, by, c);
    }
    lemma_in_sum(here, rest, w);
}

proof fn lemma_row_in_work(p: FrameParams, r: int, k: int, w: Work)
    requires
        0 <= k <= r < p.rows(),
        p.cols() > 0,
        tile_row_work(p, r).contains(w),
    ensures
        work_from(p, k).contains(w),
    decreases r - k,
{
    if k < r {
        lemma_row_in_work(p, r, k + 1, w);
    }
    lemma_in_sum(tile_row_work(p, k), work_from(p, k + 1), w);
}

/// Every row of superblocks of every tile is decoded. Tiles of one tile row
/// have the same rows.
pub proof fn law_every_row_is_decoded(p: FrameParams, r: int, c: int, by: int)
    requires
        p.valid(),
        p.step() > 0,
        0 <= r < p.rows(),
        0 <= c < p.cols(),
        p.tiles@[r * p.cols() + c].row_start == p.tiles@[r * p.cols()].row_start,
        p.tiles@[r * p.cols() + c].row_end == p.tiles@[r * p.cols()].row_end,
        p.tiles@[r * p.cols()].row_start <= by < p.tiles@[r * p.cols()].row_end,
        (by - p.tiles@[r * p.cols()].row_start) % p.step() == 0,
    ensures
        work_from(p, 0).contains(Work::Decode((r * p.cols() + c) as usize, by as i32)),
{
    let base = r * p.cols();
    let b = p.tiles@[base];
    let w = Work::Decode((base + c) as usize, by as i32);
    lemma_decoded_from(p, base, b.row_start as int, b.row_end as int, by, c);
    lemma_in_sum(
        decodes_from(p, base, b.row_start as int, b.row_end as int),
        crate::framedec::filters_from(p, b.row_start as int, b.row_end as int),
        w,
    );
    lemma_row_in_work(p, r, 0, w);
}

} // verus!
