//! Getting the state of a frame ready for its tiles.
use vstd::prelude::*;

use crate::block::{context_reset, reset_context};
use crate::env::BlockContext;
use crate::error::{Rav2dError, Result};
use crate::frame::{
    compute_gdf_ref_dst_idx, compute_restore_planes, frame_deltas, gdf_ref_dst,
    init_quant_tables, init_start_of_tile_row, init_wiener, ns_class_idx, quant_set, quant_valid,
    restore_planes, rows_marked, tile_row_first, wiener_set, DqTable, LoopFilterState,
};
use crate::headers::{AdaptiveBoolean, FrameHeader, FrameType, RestorationType, MAX_SEGMENTS};
use crate::restunit::Av2Restoration;
use crate::sbsyntax::SbFilter;
use crate::tile::{
    classes_fit, decode_frame_init_cdf, decode_tip_frame_init, grid_valid, groups_set,
    split_tiles, tile_placed, tiles_before, TileGroup, TileParams, TileSlot, WienerRanges,
};

verus! {

/// What a frame is decoded into besides its picture.
pub struct FrameState {
    pub lf: LoopFilterState,
    /// Where the coefficients of each tile start.
    pub tile_start_off: Vec<u32>,
    pub ts: Vec<TileSlot>,
    pub n_ts: i32,
    /// The contexts above, by tile row and 256x256 column.
    pub a: Vec<BlockContext>,
    pub a_sz: i32,
    pub dq: [[[u32; 2]; 3]; MAX_SEGMENTS],
    /// Numbers under which quantizer matrices are kept, by transform size and
    /// plane.
    pub qm: [[Option<u64>; 3]; 25],
}

impl FrameState {
    /// Nothing has been decoded into it yet.
    pub open spec fn is_new(self) -> bool {
        &&& self.lf.base_q == 0
        &&& self.lf.wiener_idx == 0
        &&& self.lf.ns_subclass_class_idx is None
        &&& self.lf.start_of_tile_row@.len() == 0
        &&& self.lf.mask@.len() == 0
        &&& self.lf.lr_mask@.len() == 0
        &&& self.lf.restore_planes == 0
        &&& self.lf.gdf_ref_dst_idx == 0
        &&& self.lf.re_sz == 0
        &&& self.tile_start_off@.len() == 0
        &&& self.ts@.len() == 0
        &&& self.n_ts == 0
        &&& self.a@.len() == 0
        &&& self.a_sz == 0
        &&& forall|i: int, pl: int, ac: int|
            0 <= i < 16 && 0 <= pl < 3 && 0 <= ac < 2 ==> #[trigger] self.dq[i][pl][ac] == 0
        &&& no_matrices(self.qm)
    }

    pub fn new() -> (r: Self)
        ensures
            r.is_new(),
    {
        let row: [Option<u64>; 3] = [None; 3];
        FrameState {
            lf: LoopFilterState::default(),
            tile_start_off: Vec::new(),
            ts: Vec::new(),
            n_ts: 0,
            a: Vec::new(),
            a_sz: 0,
            dq: [[[0; 2]; 3]; MAX_SEGMENTS],
            qm: [row; 25],
        }
    }
}

/// The size of a frame in superblocks, and how it is decoded.
pub struct FrameShape {
    pub sbh: i32,
    pub sb256w: i32,
    pub sb256h: i32,
    pub n_tc: i32,
    pub n_passes: i32,
}

/// `after` is `before` cut or filled up with zeros to length `n`.
pub open spec fn resized(before: Seq<u32>, after: Seq<u32>, n: int) -> bool {
    &&& after.len() == n
    &&& forall|i: int|
        0 <= i < n ==> #[trigger] after[i] == (if i < before.len() { before[i] } else { 0 })
}

/// `after` is `before` cut or filled up with unused slots to length `n`.
pub open spec fn slots_resized(before: Seq<TileSlot>, after: Seq<TileSlot>, n: int) -> bool {
    &&& after.len() == n
    &&& forall|i: int|
        0 <= i < n ==> if i < before.len() {
            #[trigger] after[i] == before[i]
        } else {
            after[i].unused()
        }
}

/// `after` is `before` cut or filled up with zero contexts to length `n`.
pub open spec fn contexts_resized(
    before: Seq<BlockContext>,
    after: Seq<BlockContext>,
    n: int,
) -> bool {
    &&& after.len() == n
    &&& forall|i: int|
        0 <= i < n ==> if i < before.len() {
            #[trigger] after[i] == before[i]
        } else {
            after[i].is_zero()
        }
}

/// The first `n` contexts are reset for a new tile row; others stay.
pub open spec fn contexts_reset(
    before: Seq<BlockContext>,
    after: Seq<BlockContext>,
    n: int,
    keyframe: bool,
    is_tip: bool,
) -> bool {
    &&& after.len() == before.len()
    &&& forall|i: int|
        0 <= i < after.len() ==> if i < n {
            context_reset(before[i], #[trigger] after[i], keyframe, is_tip)
        } else {
            after[i] == before[i]
        }
}

/// The contexts above a frame, made anew only where their number changes.
pub open spec fn contexts_made(before: FrameState, a: Seq<BlockContext>, n: int) -> bool {
    if n != before.a_sz {
        contexts_resized(before.a@, a, n)
    } else {
        a == before.a@
    }
}

/// The contexts above a frame: made where their number changes, and reset
/// where several threads share them.
pub open spec fn contexts_ready(
    before: FrameState,
    after: FrameState,
    hdr: FrameHeader,
    shape: FrameShape,
) -> bool {
    let n = shape.sb256w * hdr.tiling.t.rows;
    exists|mid: Seq<BlockContext>|
        #[trigger] contexts_made(before, mid, n) && if shape.n_tc > 1 {
            contexts_reset(
                mid,
                after.a@,
                n,
                !hdr.frame_type.inter_or_switch(),
                hdr.tip.frame_mode == 2,
            )
        } else {
            after.a@ == mid
        }
}

/// The loop filters of a frame before its first block.
pub open spec fn filters_ready(
    before: LoopFilterState,
    after: LoopFilterState,
    hdr: FrameHeader,
    table: DqTable,
    absrefdist: [u8; 7],
    shape: FrameShape,
) -> bool {
    let n = shape.sb256w * shape.sb256h;
    &&& after.start_of_tile_row@.len() == shape.sbh
    &&& rows_marked(
        before.start_of_tile_row@,
        after.start_of_tile_row@,
        hdr.tiling.t.row_start_sb@,
        hdr.tiling.t.rows as int,
    )
    &&& after.mask@.len() == n
    &&& forall|i: int| 0 <= i < n ==> (#[trigger] after.mask@[i]).idle()
    &&& after.lr_mask@.len() == n
    &&& forall|i: int| 0 <= i < n ==> (#[trigger] after.lr_mask@[i]).idle()
    &&& if hdr.restoration.p[0].restoration_type == RestorationType::Off {
        &&& after.base_q == before.base_q
        &&& after.wiener_idx == before.wiener_idx
        &&& after.ns_subclass_class_idx == before.ns_subclass_class_idx
    } else {
        &&& after.base_q == table.step(hdr.quant.yac as int)
        &&& after.wiener_idx == wiener_set(hdr.quant.yac as int)
        &&& after.ns_subclass_class_idx == ns_class_idx(hdr.restoration.p[0])
    }
    &&& after.restore_planes == restore_planes(hdr)
    &&& after.gdf_ref_dst_idx == (if hdr.gdf.enabled != AdaptiveBoolean::Off {
        gdf_ref_dst(hdr, absrefdist)
    } else {
        before.gdf_ref_dst_idx as int
    })
    &&& after.re_sz == shape.sb256h * hdr.tiling.t.cols
}

/// The frame has a size, and the tables cover it.
pub open spec fn shape_valid(hdr: FrameHeader, table: DqTable, shape: FrameShape) -> bool {
    &&& hdr.tiling.t.rows <= 64
    &&& tile_row_first(hdr.tiling.t.row_start_sb@, hdr.tiling.t.rows as int) <= shape.sbh
    &&& 0 <= shape.sb256w <= 0x4000
    &&& 0 <= shape.sb256h <= 0x4000
    &&& quant_valid(
        table,
        hdr.segmentation.enabled != 0,
        hdr.segmentation.d.delta_q,
        frame_deltas(hdr),
        hdr.quant.yac as int,
    )
    &&& table.covers(hdr.quant.yac as int)
}

fn resize_slots(ts: &mut Vec<TileSlot>, n: usize)
    ensures
        slots_resized(old(ts)@, final(ts)@, n as int),
{
    let ghost t0 = ts@;
    if ts.len() > n {
        ts.truncate(n);
    }
    while ts.len() < n
        invariant
            ts@.len() <= n,
            t0.len() <= ts@.len() || ts@.len() == n,
            forall|i: int|
                0 <= i < ts@.len() ==> if i < t0.len() {
                    #[trigger] ts@[i] == t0[i]
                } else {
                    ts@[i].unused()
                },
        decreases n - ts@.len(),
    {
        ts.push(TileSlot::default());
    }
}

fn resize_contexts(a: &mut Vec<BlockContext>, n: usize)
    ensures
        contexts_resized(old(a)@, final(a)@, n as int),
{
    let ghost a0 = a@;
    if a.len() > n {
        a.truncate(n);
    }
    while a.len() < n
        invariant
            a@.len() <= n,
            a0.len() <= a@.len() || a@.len() == n,
            forall|i: int|
                0 <= i < a@.len() ==> if i < a0.len() {
                    #[trigger] a@[i] == a0[i]
                } else {
                    a@[i].is_zero()
                },
        decreases n - a@.len(),
    {
        a.push(BlockContext::default());
    }
}

fn blank_masks(n: usize) -> (r: Vec<SbFilter>)
    ensures
        r@.len() == n,
        forall|i: int| 0 <= i < n ==> (#[trigger] r@[i]).idle(),
{
    let mut r: Vec<SbFilter> = Vec::new();
    while r.len() < n
        invariant
            r@.len() <= n,
            forall|i: int| 0 <= i < r@.len() ==> (#[trigger] r@[i]).idle(),
        decreases n - r@.len(),
    {
        r.push(SbFilter::default());
    }
    r
}

fn blank_units(n: usize) -> (r: Vec<Av2Restoration>)
    ensures
        r@.len() == n,
        forall|i: int| 0 <= i < n ==> (#[trigger] r@[i]).idle(),
{
    let mut r: Vec<Av2Restoration> = Vec::new();
    while r.len() < n
        invariant
            r@.len() <= n,
            forall|i: int| 0 <= i < r@.len() ==> (#[trigger] r@[i]).idle(),
        decreases n - r@.len(),
    {
        r.push(Av2Restoration::default());
    }
    r
}

fn reset_contexts(a: &mut Vec<BlockContext>, n: usize, keyframe: bool, is_tip: bool)
    ensures
        contexts_reset(old(a)@, final(a)@, n as int, keyframe, is_tip),
{
    let ghost a0 = a@;
    let mut i: usize = 0;
    while i < n && i < a.len()
        invariant
            i <= n,
            a@.len() == a0.len(),
            forall|k: int|
                0 <= k < a@.len() ==> if k < i {
                    context_reset(a0[k], #[trigger] a@[k], keyframe, is_tip)
                } else {
                    a@[k] == a0[k]
                },
        decreases n - i,
    {
        reset_context(&mut a[i], keyframe, is_tip);
        i = i + 1;
    }
}

/// No matrix is kept.
pub open spec fn no_matrices(qm: [[Option<u64>; 3]; 25]) -> bool {
    forall|t: int, p: int| 0 <= t < 25 && 0 <= p < 3 ==> #[trigger] qm[t][p] is None
}

/// The state of a frame before its tiles are put in their slots.
pub open spec fn frame_ready(
    before: FrameState,
    after: FrameState,
    hdr: FrameHeader,
    table: DqTable,
    absrefdist: [u8; 7],
    shape: FrameShape,
) -> bool {
    let several = shape.n_passes > 1 && after.n_ts != before.n_ts;
    &&& filters_ready(before.lf, after.lf, hdr, table, absrefdist, shape)
    &&& after.n_ts == hdr.tiling.t.cols * hdr.tiling.t.rows
    &&& slots_resized(before.ts@, after.ts@, after.n_ts as int)
    &&& several ==> resized(before.tile_start_off@, after.tile_start_off@, after.n_ts as int)
    &&& !several ==> after.tile_start_off@ == before.tile_start_off@
    &&& after.a_sz == shape.sb256w * hdr.tiling.t.rows
    &&& contexts_ready(before, after, hdr, shape)
    &&& quant_set(
        table,
        hdr.segmentation.enabled != 0,
        hdr.segmentation.d.delta_q,
        frame_deltas(hdr),
        hdr.quant.yac as int,
        before.dq,
        after.dq,
    )
    &&& if hdr.quant.qm.enabled == 0 {
        no_matrices(after.qm)
    } else {
        after.qm == before.qm
    }
}

/// Gets the state of a frame ready: the tile slots, the contexts above, the
/// loop filters, and the quantizer steps.
pub fn decode_frame_init(
    frame_hdr: &FrameHeader,
    table: &DqTable,
    f: &mut FrameState,
    absrefdist: &[u8; 7],
    shape: &FrameShape,
)
    requires
        shape_valid(*frame_hdr, *table, *shape),
    ensures
        frame_ready(*old(f), *final(f), *frame_hdr, *table, *absrefdist, *shape),
{
    let ghost f0 = *f;
    let cols: i32 = frame_hdr.tiling.t.cols as i32;
    let rows: i32 = frame_hdr.tiling.t.rows as i32;
    assert(0 <= cols * rows <= 255 * 255 && 0 <= shape.sb256w * rows <= 0x4000 * 255 && 0
        <= shape.sb256h * cols <= 0x4000 * 255 && 0 <= shape.sb256w * shape.sb256h <= 0x4000
        * 0x4000) by (nonlinear_arith)
        requires
            0 <= cols <= 255,
            0 <= rows <= 255,
            0 <= shape.sb256w <= 0x4000,
            0 <= shape.sb256h <= 0x4000,
    ;
    init_start_of_tile_row(
        &mut f.lf.start_of_tile_row,
        shape.sbh,
        frame_hdr.tiling.t.rows,
        &frame_hdr.tiling.t.row_start_sb,
    );
    let n_ts: i32 = cols * rows;
    if n_ts != f.n_ts {
        if shape.n_passes > 1 {
            f.tile_start_off.resize(n_ts as usize, 0);
        }
        f.n_ts = n_ts;
    }
    resize_slots(&mut f.ts, n_ts as usize);
    let a_sz: i32 = shape.sb256w * rows;
    if a_sz != f.a_sz {
        resize_contexts(&mut f.a, a_sz as usize);
        f.a_sz = a_sz;
    }
    let ghost mid = f.a@;
    let n_areas: usize = (shape.sb256w * shape.sb256h) as usize;
    f.lf.mask = blank_masks(n_areas);
    f.lf.lr_mask = blank_units(n_areas);
    init_wiener(frame_hdr, table.lookup(frame_hdr.quant.yac as i32), &mut f.lf);
    f.lf.restore_planes = compute_restore_planes(frame_hdr);
    if frame_hdr.gdf.enabled != AdaptiveBoolean::Off {
        f.lf.gdf_ref_dst_idx = compute_gdf_ref_dst_idx(frame_hdr, absrefdist);
    }
    f.lf.re_sz = shape.sb256h * cols;
    init_quant_tables(frame_hdr, table, frame_hdr.quant.yac as i32, &mut f.dq);
    if frame_hdr.quant.qm.enabled == 0 {
        let row: [Option<u64>; 3] = [None; 3];
        f.qm = [row; 25];
    }
    if shape.n_tc > 1 {
        reset_contexts(
            &mut f.a,
            a_sz as usize,
            frame_hdr.is_key_or_intra(),
            frame_hdr.tip.frame_mode == 2,
        );
    }
    let ghost n = shape.sb256w * frame_hdr.tiling.t.rows;
    assert(contexts_made(f0, mid, n));
}

/// Nothing but the tile slots differs.
pub open spec fn same_but_slots(a: FrameState, b: FrameState) -> bool {
    b == (FrameState { ts: b.ts, ..a })
}

/// Every tile group lies within the tiles of the frame.
pub open spec fn groups_valid(
    hdr: FrameHeader,
    groups: Seq<TileGroup>,
    p: TileParams,
    n_offs: int,
) -> bool {
    let n = hdr.tiling.t.cols * hdr.tiling.t.rows;
    &&& tiles_before(groups, groups.len() as int) <= n
    &&& forall|i: int|
        0 <= i < groups.len() ==> 0 <= (#[trigger] groups[i]).start && groups[i].end < n
    &&& p.n_passes > 1 ==> n_offs >= n
}

/// Marks a frame whose tiles are not in their slots yet.
pub open spec fn without_tiles(f: FrameState) -> bool {
    true
}

/// Gets a frame ready up to its first block: its state, then its tiles. The
/// tiles of a frame that is interpolated as a whole have no data of their own.
pub fn prepare_frame(
    frame_hdr: &FrameHeader,
    table: &DqTable,
    ranges: &WienerRanges,
    tile_groups: &[TileGroup],
    p: &TileParams,
    f: &mut FrameState,
    absrefdist: &[u8; 7],
    shape: &FrameShape,
) -> (r: Result<()>)
    requires
        shape_valid(*frame_hdr, *table, *shape),
        ranges.valid(),
        classes_fit(*frame_hdr),
        frame_hdr.tiling.n_bytes <= 7,
        grid_valid(frame_hdr.tiling.t),
        0 <= p.sb_shift <= 14,
        p.n_passes == shape.n_passes,
        groups_valid(
            *frame_hdr,
            tile_groups@,
            *p,
            if old(f).n_ts != frame_hdr.tiling.t.cols * frame_hdr.tiling.t.rows {
                frame_hdr.tiling.t.cols * frame_hdr.tiling.t.rows
            } else {
                old(f).tile_start_off@.len() as int
            },
        ),
    ensures
        exists|m: FrameState| #[trigger]
            without_tiles(m) && frame_ready(
                *old(f),
                m,
                *frame_hdr,
                *table,
                *absrefdist,
                *shape,
            ) && same_but_slots(m, *final(f)) && final(f).ts@.len() == m.ts@.len() && if frame_hdr.tip.frame_mode
                != 2 {
                r is Ok ==> groups_set(
                    m.ts@,
                    final(f).ts@,
                    tile_groups@,
                    tile_groups@.len() as int,
                    *frame_hdr,
                    *ranges,
                    *p,
                    m.tile_start_off@,
                )
            } else {
                tiles_placed(m.ts@, final(f).ts@, *frame_hdr, *p)
            },
        r is Ok <==> frame_hdr.tip.frame_mode == 2 || groups_split(*frame_hdr, tile_groups@),
        r is Err ==> r->Err_0 == Rav2dError::InvalidData,
{
    decode_frame_init(frame_hdr, table, f, absrefdist, shape);
    let ghost m = *f;
    assert(without_tiles(m));
    if frame_hdr.tip.frame_mode != 2 {
        decode_frame_init_cdf(
            &mut f.ts,
            tile_groups,
            frame_hdr,
            ranges,
            p,
            f.tile_start_off.as_slice(),
        )
    } else {
        decode_tip_frame_init(&mut f.ts, frame_hdr, p.sb_shift, p.bw, p.bh, p.n_tc);
        Ok(())
    }
}

/// The bytes of every tile group can be divided among its tiles.
pub open spec fn groups_split(hdr: FrameHeader, groups: Seq<TileGroup>) -> bool {
    forall|i: int|
        0 <= i < groups.len() ==> split_tiles(
            (#[trigger] groups[i]).data@,
            hdr.tiling.n_bytes as int,
            0,
            groups[i].count(),
        ) is Some
}

/// Every tile has its place.
pub open spec fn tiles_placed(
    before: Seq<TileSlot>,
    after: Seq<TileSlot>,
    hdr: FrameHeader,
    p: TileParams,
) -> bool {
    forall|k: int|
        0 <= k < after.len() ==> tile_placed(
            before[k],
            #[trigger] after[k],
            hdr.tiling.t,
            k,
            p.sb_shift as int,
            p.bw as int,
            p.bh as int,
            p.n_tc as int,
        )
}

/// Before its first block nothing is known of the filters of a frame: every
/// area is idle. There is one slot for each tile, and above every tile row one
/// context for each 256x256 area.
pub proof fn law_frame_starts_without_strengths(
    before: FrameState,
    after: FrameState,
    hdr: FrameHeader,
    table: DqTable,
    absrefdist: [u8; 7],
    shape: FrameShape,
    i: int,
)
    requires
        frame_ready(before, after, hdr, table, absrefdist, shape),
        0 <= i < shape.sb256w * shape.sb256h,
    ensures
        after.lf.mask@.len() == shape.sb256w * shape.sb256h,
        after.lf.lr_mask@.len() == after.lf.mask@.len(),
        after.lf.mask@[i].idle(),
        after.lf.lr_mask@[i].idle(),
        after.lf.start_of_tile_row@.len() == shape.sbh,
        after.ts@.len() == hdr.tiling.t.cols * hdr.tiling.t.rows,
        after.a_sz == shape.sb256w * hdr.tiling.t.rows,
        hdr.quant.qm.enabled == 0 ==> no_matrices(after.qm),
        hdr.quant.qm.enabled != 0 ==> after.qm == before.qm,
        hdr.restoration.p[0].restoration_type != RestorationType::Off ==> after.lf.base_q
            == table.step(hdr.quant.yac as int),
        hdr.restoration.p[0].restoration_type == RestorationType::Off ==> after.lf.base_q
            == before.lf.base_q,
        after.lf.restore_planes % 2 == 0 ==> hdr.restoration.p[0].restoration_type
            == RestorationType::Off && hdr.gdf.enabled == AdaptiveBoolean::Off,
        hdr.gdf.enabled == AdaptiveBoolean::Off ==> after.lf.gdf_ref_dst_idx
            == before.lf.gdf_ref_dst_idx,
{
}

/// Resizing keeps what there was and fills up with blanks.
pub proof fn law_resizing_keeps_the_front(before: Seq<u32>, after: Seq<u32>, n: int, i: int)
    requires
        resized(before, after, n),
        0 <= i < n,
    ensures
        after.len() == n,
        i < before.len() ==> after[i] == before[i],
        i >= before.len() ==> after[i] == 0,
{
}

/// The contexts above a frame with several threads are those of a new tile row.
pub proof fn law_shared_contexts_are_reset(
    before: FrameState,
    after: FrameState,
    hdr: FrameHeader,
    shape: FrameShape,
    i: int,
)
    requires
        contexts_ready(before, after, hdr, shape),
        before.a@.len() == before.a_sz,
        shape.n_tc > 1,
        0 <= i < shape.sb256w * hdr.tiling.t.rows,
    ensures
        after.a@.len() == shape.sb256w * hdr.tiling.t.rows,
        hdr.frame_type == FrameType::Key || hdr.frame_type == FrameType::Intra ==> exists|
            c: BlockContext,
            tip: bool,
        | #[trigger]
            context_reset(c, after.a@[i], true, tip) && tip == (hdr.tip.frame_mode == 2),
        hdr.frame_type == FrameType::Inter || hdr.frame_type == FrameType::Switch ==> exists|
            c: BlockContext,
            tip: bool,
        | #[trigger]
            context_reset(c, after.a@[i], false, tip) && tip == (hdr.tip.frame_mode == 2),
{
    let n = shape.sb256w * hdr.tiling.t.rows;
    let mid = choose|mid: Seq<BlockContext>|
        #[trigger] contexts_made(before, mid, n) && contexts_reset(
            mid,
            after.a@,
            n,
            !hdr.frame_type.inter_or_switch(),
            hdr.tip.frame_mode == 2,
        );
    assert(context_reset(
        mid[i],
        after.a@[i],
        !hdr.frame_type.inter_or_switch(),
        hdr.tip.frame_mode == 2,
    ));
}

} // verus!
