//! What a frame is decoded with. All of it follows from its headers, its plan
//! and its prepared state.
use vstd::prelude::*;

use crate::filterrow::FilterParams;
use crate::frame::DqTable;
use crate::framedec::FrameParams;
use crate::frameinfo::{is_frame_info, InfoRefs, InfoSize, SbFrameInfo};
use crate::frameinit::{FrameShape, FrameState};
use crate::frameplan::{FramePlan, FrameRequest};
use crate::headers::{FrameHeader, MvHeader, PixelLayout, RestorationType};
use crate::interplan::InterFrame;
use crate::intops::POW2;
use crate::levels::BlockSize;
use crate::motion::MotionFrame;
use crate::restoration::NsTables;
use crate::sbrow::RowInput;
use crate::sbsyntax::CcsoMaps;
use crate::tile::{TileBounds, TileGroup, TileParams, WienerRanges};

verus! {

/// The filters that the caller has switched on.
#[derive(Debug, Clone, Copy, PartialEq, Eq, Structural)]
pub struct FilterSwitches {
    pub deblock: bool,
    pub cdef: bool,
    pub ccso: bool,
    pub wiener: bool,
    pub gdf: bool,
}

/// The tables that a frame is decoded with, its bytes, and what the caller has
/// chosen.
pub struct FrameJob<'a> {
    pub table: &'a DqTable,
    pub y: &'a NsTables,
    pub uv: &'a NsTables,
    pub tile_groups: &'a [TileGroup],
    pub switches: FilterSwitches,
    pub n_tc: i32,
    /// The segment maps that the slots keep.
    pub segmaps: [Option<&'a [u8]>; 8],
}

/// What the tiles of the frame have in common. They start with the
/// distributions that the plan carries over.
pub open spec fn tile_params_of(q: FrameRequest, plan: FramePlan, n_tc: i32) -> TileParams {
    TileParams {
        in_cdf: plan.in_cdf,
        qcat: q.derived.qcat,
        sb_shift: plan.geometry.sb_shift,
        bw: plan.geometry.bw,
        bh: plan.geometry.bh,
        n_tc,
        n_passes: 1,
    }
}

pub fn find_tile_params(q: &FrameRequest, plan: &FramePlan, n_tc: i32) -> (r: TileParams)
    ensures
        r == tile_params_of(*q, *plan, n_tc),
{
    TileParams {
        in_cdf: plan.in_cdf,
        qcat: q.derived.qcat,
        sb_shift: plan.geometry.sb_shift,
        bw: plan.geometry.bw,
        bh: plan.geometry.bh,
        n_tc,
        n_passes: 1,
    }
}

/// The size of the frame in superblocks; it is decoded in one pass.
pub open spec fn shape_of(plan: FramePlan, n_tc: i32) -> FrameShape {
    FrameShape {
        sbh: plan.geometry.sbh,
        sb256w: plan.geometry.sb256w,
        sb256h: plan.geometry.sb256h,
        n_tc,
        n_passes: 1,
    }
}

pub fn find_shape(plan: &FramePlan, n_tc: i32) -> (r: FrameShape)
    ensures
        r == shape_of(*plan, n_tc),
{
    FrameShape {
        sbh: plan.geometry.sbh,
        sb256w: plan.geometry.sb256w,
        sb256h: plan.geometry.sb256h,
        n_tc,
        n_passes: 1,
    }
}

/// The ranges of the coefficients are those of the tables.
pub open spec fn ranges_match(y: NsTables, uv: NsTables, r: WienerRanges) -> bool {
    &&& forall|m: int| 0 <= m < 16 ==> #[trigger] r.y[m] == y.ranges@[m]
    &&& forall|m: int| 0 <= m < 18 ==> #[trigger] r.uv[m] == uv.ranges@[m]
}

pub fn find_ranges(y: &NsTables, uv: &NsTables) -> (r: WienerRanges)
    requires
        y.valid(false),
        uv.valid(true),
    ensures
        ranges_match(*y, *uv, r),
        r.valid(),
{
    let mut r: WienerRanges = WienerRanges { y: [[0; 2]; 16], uv: [[0; 2]; 18] };
    let mut m: usize = 0;
    while m < 18
        invariant
            m <= 18,
            y.valid(false),
            uv.valid(true),
            forall|k: int| 0 <= k < m && k < 16 ==> #[trigger] r.y[k] == y.ranges@[k],
            forall|k: int| 0 <= k < m ==> #[trigger] r.uv[k] == uv.ranges@[k],
        decreases 18 - m,
    {
        if m < 16 {
            r.y[m] = y.ranges[m];
        }
        r.uv[m] = uv.ranges[m];
        m = m + 1;
    }
    proof {
        assert(POW2[3] == 8 && POW2[4] == 16 && POW2[5] == 32 && POW2[6] == 64 && POW2[7] == 128);
        assert forall|k: int| 0 <= k < 16 implies 0 <= (#[trigger] r.y@[k])[0] <= 7 && -128
            <= crate::frame::range_middle(r.y@[k]) <= 127 by {
            assert(r.y[k] == y.ranges@[k]);
        }
        assert forall|k: int| 0 <= k < 18 implies 0 <= (#[trigger] r.uv@[k])[0] <= 7 && -128
            <= crate::frame::range_middle(r.uv@[k]) <= 127 by {
            assert(r.uv[k] == uv.ranges@[k]);
        }
    }
    r
}

/// Whether luma (or chroma) is restored.
pub open spec fn is_restored(hdr: FrameHeader, chroma: bool) -> bool {
    if chroma {
        hdr.restoration.p[1].restoration_type != RestorationType::Off
            || hdr.restoration.p[2].restoration_type != RestorationType::Off
    } else {
        hdr.restoration.p[0].restoration_type != RestorationType::Off
    }
}

/// The sides of restoration units, as the header gives them. Where nothing is
/// restored they are not read; 7 stands for them.
pub open spec fn unit_sides(hdr: FrameHeader, r: [u8; 2]) -> bool {
    &&& r[0] == (if is_restored(hdr, false) { hdr.restoration.unit_size[0] } else { 7 })
    &&& r[1] == (if is_restored(hdr, true) { hdr.restoration.unit_size[1] } else { 7 })
}

/// Which filters the frame uses.
pub open spec fn filter_of(
    q: FrameRequest,
    plan: FramePlan,
    s: FilterSwitches,
    restore_planes: i32,
) -> FilterParams {
    FilterParams {
        deblock: s.deblock,
        cdef: s.cdef,
        ccso: s.ccso,
        wiener: s.wiener,
        gdf: s.gdf,
        level_y0: q.hdr.deblock.level_y[0] as i32,
        level_y1: q.hdr.deblock.level_y[1] as i32,
        seq_cdef: q.seq.cdef,
        restore_planes,
        sbh: plan.geometry.sbh,
        sb_step: plan.geometry.sb_step,
        sb256w: plan.geometry.sb256w,
        sb128: q.hdr.sb128 as i32,
        bh: plan.geometry.bh,
    }
}

pub fn find_filter(
    q: &FrameRequest,
    plan: &FramePlan,
    s: &FilterSwitches,
    restore_planes: i32,
) -> (r: FilterParams)
    ensures
        r == filter_of(*q, *plan, *s, restore_planes),
{
    FilterParams {
        deblock: s.deblock,
        cdef: s.cdef,
        ccso: s.ccso,
        wiener: s.wiener,
        gdf: s.gdf,
        level_y0: q.hdr.deblock.level_y[0] as i32,
        level_y1: q.hdr.deblock.level_y[1] as i32,
        seq_cdef: q.seq.cdef,
        restore_planes,
        sbh: plan.geometry.sbh,
        sb_step: plan.geometry.sb_step,
        sb256w: plan.geometry.sb256w,
        sb128: q.hdr.sb128 as i32,
        bh: plan.geometry.bh,
    }
}

/// What the plan says of the references. A frame without references has all
/// distances zero.
pub open spec fn are_info_refs(q: FrameRequest, plan: FramePlan, k: InfoRefs) -> bool {
    &&& k.skip_mode_refs == plan.skip_mode_refs
    &&& k.tip == q.derived.tip
    &&& match plan.distances {
        Some(d) => {
            &&& k.refdist == d.refdist
            &&& k.absrefdist == d.absrefdist
            &&& k.furthest_future_refidx == d.furthest_future_refidx
            &&& forall|i: int|
                0 <= i < 8 ==> #[trigger] k.refdir[i] == (if i < 7 { d.refdir[i] } else { 0 })
        },
        None => {
            &&& forall|i: int| 0 <= i < 7 ==> #[trigger] k.refdist[i] == 0
            &&& forall|i: int| 0 <= i < 7 ==> #[trigger] k.absrefdist[i] == 0
            &&& k.furthest_future_refidx == 0
            &&& forall|i: int| 0 <= i < 8 ==> #[trigger] k.refdir[i] == 0
        },
    }
}

pub open spec fn info_size(plan: FramePlan) -> InfoSize {
    InfoSize {
        bw: plan.geometry.bw,
        bh: plan.geometry.bh,
        root_bs: plan.geometry.root_bs,
        sb_step: plan.geometry.sb_step,
        n_passes: 1,
    }
}

/// What the blocks of a tile with the given bounds know of the frame is what
/// its headers and its plan say.
pub open spec fn info_set(
    q: FrameRequest,
    plan: FramePlan,
    tile: TileBounds,
    r: SbFrameInfo,
) -> bool {
    exists|k: InfoRefs| #[trigger]
        are_info_refs(q, plan, k) && is_frame_info(*q.seq, *q.hdr, info_size(plan), k, tile, r)
}

pub open spec fn no_tile() -> TileBounds {
    TileBounds { row: 0, col: 0, col_start: 0, col_end: 0, row_start: 0, row_end: 0 }
}

fn find_info(q: &FrameRequest, plan: &FramePlan) -> (r: SbFrameInfo)
    requires
        0 <= plan.geometry.bw <= 0x1_0000,
    ensures
        info_set(*q, *plan, no_tile(), r),
{
    let mut refdir: [u8; 8] = [0; 8];
    let mut refdist: [i8; 7] = [0; 7];
    let mut absrefdist: [u8; 7] = [0; 7];
    let mut furthest: i8 = 0;
    if let Some(d) = &plan.distances {
        refdist = d.refdist;
        absrefdist = d.absrefdist;
        furthest = d.furthest_future_refidx;
        refdir = [
            d.refdir[0],
            d.refdir[1],
            d.refdir[2],
            d.refdir[3],
            d.refdir[4],
            d.refdir[5],
            d.refdir[6],
            0,
        ];
    }
    let g: &crate::framegeom::FrameGeometry = &plan.geometry;
    let r: SbFrameInfo = SbFrameInfo::from_frame(
        q.seq,
        q.hdr,
        g.bw,
        g.bh,
        g.root_bs,
        g.sb_step,
        1,
        refdir,
        &refdist,
        &absrefdist,
        plan.skip_mode_refs,
        0,
        0,
        0,
        0,
        furthest,
        q.derived.tip,
    );
    assert(are_info_refs(
        *q,
        *plan,
        InfoRefs {
            refdir,
            refdist,
            absrefdist,
            skip_mode_refs: plan.skip_mode_refs,
            furthest_future_refidx: furthest,
            tip: q.derived.tip,
        },
    ));
    r
}

/// What inter prediction knows of the references.
pub open spec fn inter_set(q: FrameRequest, plan: FramePlan, r: InterFrame) -> bool {
    &&& r.force_integer_mv == (q.hdr.force_integer_mv != 0)
    &&& r.imp_msk_bld == q.seq.imp_msk_bld
    &&& forall|i: int| 0 <= i < 7 ==> #[trigger] r.present[i] == q.inter()
    &&& forall|i: int|
        0 <= i < 7 ==> #[trigger] r.scaled[i] == (q.inter() && plan.refs@[i].hor.scale != 0)
    &&& r.global_warp == plan.global_warp
    &&& r.global_affine == q.hdr.gmv.affine
    &&& r.ss_hor == plan.geometry.ss_hor
    &&& r.ss_ver == plan.geometry.ss_ver
    &&& r.fw == plan.geometry.bw
    &&& r.fh == plan.geometry.bh
}

/// What motion knows of the frame. It is kept for later frames where the
/// sequence uses it and the frame has any.
pub open spec fn motion_set(q: FrameRequest, plan: FramePlan, r: MotionFrame) -> bool {
    &&& r.gmv == q.hdr.gmv.m
    &&& r.mv_header == (MvHeader {
        force_integer_mv: q.hdr.force_integer_mv,
        mv_precision: q.hdr.mv_precision,
    })
    &&& r.iw4 == q.derived.iw4
    &&& r.ih4 == q.derived.ih4
    &&& r.refmv_bank == q.seq.refmv_bank
    &&& r.kept == keeps_motion(q)
    &&& inter_set(q, plan, r.inter)
}

/// Whether the motion of the frame is kept for later ones.
pub open spec fn keeps_motion(q: FrameRequest) -> bool {
    q.seq.ref_frame_mvs && (q.hdr.allow_intrabc != 0 || q.inter())
}

pub fn find_motion(q: &FrameRequest, plan: &FramePlan) -> (r: MotionFrame)
    requires
        q.inter() ==> plan.refs@.len() == 7,
    ensures
        motion_set(*q, *plan, r),
{
    let inter: bool = q.hdr.is_inter_or_switch();
    let mut scaled: [bool; 7] = [false; 7];
    if inter {
        let mut i: usize = 0;
        while i < 7
            invariant
                i <= 7,
                plan.refs@.len() == 7,
                forall|k: int|
                    0 <= k < i ==> #[trigger] scaled[k] == (plan.refs@[k].hor.scale != 0),
            decreases 7 - i,
        {
            scaled[i] = plan.refs[i].hor.scale != 0;
            i = i + 1;
        }
    }
    MotionFrame {
        gmv: q.hdr.gmv.m,
        mv_header: MvHeader {
            force_integer_mv: q.hdr.force_integer_mv,
            mv_precision: q.hdr.mv_precision,
        },
        iw4: q.derived.iw4,
        ih4: q.derived.ih4,
        refmv_bank: q.seq.refmv_bank,
        kept: q.seq.ref_frame_mvs && (q.hdr.allow_intrabc != 0 || inter),
        inter: InterFrame {
            force_integer_mv: q.hdr.force_integer_mv != 0,
            imp_msk_bld: q.seq.imp_msk_bld,
            present: [inter; 7],
            scaled,
            global_warp: plan.global_warp,
            global_affine: q.hdr.gmv.affine,
            ss_hor: plan.geometry.ss_hor,
            ss_ver: plan.geometry.ss_ver,
            fw: plan.geometry.bw,
            fh: plan.geometry.bh,
        },
    }
}

/// The segment map that the plan takes over, by the slot that keeps it.
pub open spec fn prev_map<'a>(q: FrameRequest, plan: FramePlan, job: FrameJob<'a>) -> Option<
    &'a [u8],
> {
    if plan.prev_segmap is Some { job.segmaps[q.primary()] } else { None }
}

/// What the tiles take over from other frames.
pub open spec fn input_set(
    q: FrameRequest,
    plan: FramePlan,
    job: FrameJob,
    input: RowInput,
) -> bool {
    &&& input.prev_segmap == prev_map(q, plan, job)
    &&& input.ccso == (CcsoMaps { prev0: None, prev1: None, prev2: None })
    &&& *input.table == *job.table
    &&& motion_set(q, plan, *input.motion)
}

pub fn find_input<'a>(
    q: &FrameRequest,
    plan: &FramePlan,
    job: &FrameJob<'a>,
    motion: &'a MotionFrame,
) -> (r: RowInput<'a>)
    requires
        motion_set(*q, *plan, *motion),
        plan.prev_segmap is Some ==> q.hdr.primary_ref_frame is Some
            && q.hdr.primary_ref_frame->Some_0 < 7,
        forall|i: int| 0 <= i < 7 ==> #[trigger] q.hdr.refidx[i] < 8,
    ensures
        input_set(*q, *plan, *job, r),
{
    let mut prev_segmap: Option<&'a [u8]> = None;
    if plan.prev_segmap.is_some() {
        if let Some(k) = q.hdr.primary_ref_frame {
            assert(q.hdr.refidx[k as int] < 8);
            prev_segmap = job.segmaps[q.hdr.refidx[k as usize] as usize];
        }
    }
    RowInput {
        prev_segmap,
        ccso: CcsoMaps { prev0: None, prev1: None, prev2: None },
        table: job.table,
        motion,
    }
}

/// The size of the largest chroma blocks; a monochrome frame has none.
pub open spec fn chroma_root(layout: PixelLayout, root_bs: BlockSize) -> BlockSize {
    if layout == PixelLayout::I400 { BlockSize::Invalid } else { root_bs }
}

/// What stays the same over the frame is what its headers, its plan and its
/// prepared state say.
pub open spec fn params_set(
    q: FrameRequest,
    plan: FramePlan,
    job: FrameJob,
    f: FrameState,
    p: FrameParams,
) -> bool {
    &&& *p.hdr == *q.hdr
    &&& info_set(q, plan, no_tile(), p.info)
    &&& p.tiles@.len() == f.ts@.len()
    &&& forall|i: int| 0 <= i < f.ts@.len() ==> #[trigger] p.tiles@[i] == f.ts@[i].tiling
    &&& p.sb256w == plan.geometry.sb256w
    &&& p.root_bs == plan.geometry.root_bs
    &&& p.c_root_bs == chroma_root(q.seq.layout, plan.geometry.root_bs)
    &&& unit_sides(*q.hdr, p.unit_log2)
    &&& *p.y == *job.y
    &&& *p.uv == *job.uv
    &&& p.filter == filter_of(q, plan, job.switches, f.lf.restore_planes)
    &&& p.start_of_tile_row@ == f.lf.start_of_tile_row@
}

/// Derives what stays the same over a frame.
pub fn frame_params<'a>(
    q: &FrameRequest<'a>,
    plan: &FramePlan,
    job: &FrameJob<'a>,
    f: &FrameState,
) -> (p: FrameParams<'a>)
    requires
        0 <= plan.geometry.bw <= 0x1_0000,
    ensures
        params_set(*q, *plan, *job, *f, p),
{
    let info: SbFrameInfo = find_info(q, plan);
    let n: usize = f.ts.len();
    let mut tiles: Vec<TileBounds> = Vec::new();
    let mut i: usize = 0;
    while i < n
        invariant
            i <= n,
            n == f.ts@.len(),
            tiles@.len() == i,
            forall|k: int| 0 <= k < i ==> #[trigger] tiles@[k] == f.ts@[k].tiling,
        decreases n - i,
    {
        tiles.push(f.ts[i].tiling);
        i = i + 1;
    }
    let rows: usize = f.lf.start_of_tile_row.len();
    let mut starts: Vec<u8> = Vec::new();
    let mut k: usize = 0;
    while k < rows
        invariant
            k <= rows,
            rows == f.lf.start_of_tile_row@.len(),
            starts@ == f.lf.start_of_tile_row@.subrange(0, k as int),
        decreases rows - k,
    {
        starts.push(f.lf.start_of_tile_row[k]);
        k = k + 1;
    }
    assert(starts@ =~= f.lf.start_of_tile_row@);
    let luma: bool = q.hdr.restoration.p[0].restoration_type != RestorationType::Off;
    let chroma: bool = q.hdr.restoration.p[1].restoration_type != RestorationType::Off
        || q.hdr.restoration.p[2].restoration_type != RestorationType::Off;
    let sides: [u8; 2] = [
        if luma { q.hdr.restoration.unit_size[0] } else { 7 },
        if chroma { q.hdr.restoration.unit_size[1] } else { 7 },
    ];
    FrameParams {
        hdr: q.hdr,
        info,
        tiles,
        sb256w: plan.geometry.sb256w,
        root_bs: plan.geometry.root_bs,
        c_root_bs: if q.seq.layout == PixelLayout::I400 {
            BlockSize::Invalid
        } else {
            plan.geometry.root_bs
        },
        unit_log2: sides,
        y: job.y,
        uv: job.uv,
        filter: find_filter(q, plan, &job.switches, f.lf.restore_planes),
        start_of_tile_row: starts,
    }
}

/// The blocks of every tile know exactly what the headers and the plan say of
/// the frame, and the bounds of their tile.
pub proof fn law_blocks_know_their_frame(
    q: FrameRequest,
    plan: FramePlan,
    job: FrameJob,
    f: FrameState,
    p: FrameParams,
    t: int,
)
    requires
        params_set(q, plan, job, f, p),
        0 <= t < f.ts@.len(),
    ensures
        info_set(q, plan, f.ts@[t].tiling, p.info_of(t)),
{
    let k = choose|k: InfoRefs| #[trigger]
        are_info_refs(q, plan, k) && is_frame_info(
            *q.seq,
            *q.hdr,
            info_size(plan),
            k,
            no_tile(),
            p.info,
        );
    assert(p.tiles@[t] == f.ts@[t].tiling);
    assert(are_info_refs(q, plan, k));
}

/// The blocks of a frame see its references as the plan has them: none are
/// there in a frame without references, and a reference of another width is
/// scaled. Motion is kept where the sequence uses it and the frame has any.
pub proof fn law_frame_knows_its_references(q: FrameRequest, plan: FramePlan, r: MotionFrame, i: int)
    requires
        motion_set(q, plan, r),
        0 <= i < 7,
    ensures
        r.inter.present[i] <==> q.inter(),
        r.inter.scaled[i] ==> q.inter(),
        q.inter() ==> (r.inter.scaled[i] <==> plan.refs@[i].hor.scale != 0),
        r.inter.fw == plan.geometry.bw && r.inter.fh == plan.geometry.bh,
        r.inter.ss_hor == plan.geometry.ss_hor && r.inter.ss_ver == plan.geometry.ss_ver,
        r.inter.force_integer_mv <==> q.hdr.force_integer_mv != 0,
        r.iw4 == q.derived.iw4 && r.ih4 == q.derived.ih4,
        r.kept ==> q.seq.ref_frame_mvs,
        q.seq.ref_frame_mvs && q.inter() ==> r.kept,
        q.seq.ref_frame_mvs && !q.inter() ==> (r.kept <==> q.hdr.allow_intrabc != 0),
{
}

/// The filters run over the rows of the frame with the levels of its header.
pub proof fn law_filters_go_by_the_header(
    q: FrameRequest,
    plan: FramePlan,
    s: FilterSwitches,
    restore_planes: i32,
)
    ensures
        ({
            let f = filter_of(q, plan, s, restore_planes);
            &&& f.level_y0 == q.hdr.deblock.level_y[0] && f.level_y1 == q.hdr.deblock.level_y[1]
            &&& f.deblock == s.deblock && f.cdef == s.cdef && f.ccso == s.ccso && f.wiener
                == s.wiener && f.gdf == s.gdf
            &&& f.seq_cdef == q.seq.cdef && f.restore_planes == restore_planes
            &&& f.sbh == plan.geometry.sbh && f.bh == plan.geometry.bh && f.sb_step
                == plan.geometry.sb_step && f.sb256w == plan.geometry.sb256w && f.sb128
                == q.hdr.sb128
            &&& info_size(plan).bw == plan.geometry.bw && info_size(plan).bh == plan.geometry.bh
            &&& chroma_root(PixelLayout::I400, plan.geometry.root_bs) == BlockSize::Invalid
            &&& q.seq.layout != PixelLayout::I400 ==> chroma_root(
                q.seq.layout,
                plan.geometry.root_bs,
            ) == plan.geometry.root_bs
        }),
{
}

/// The side of restoration units is that of the header for luma where luma is
/// restored, and for chroma where one of its planes is.
pub proof fn law_restoration_units_have_their_side(hdr: FrameHeader, r: [u8; 2])
    requires
        unit_sides(hdr, r),
    ensures
        hdr.restoration.p[0].restoration_type != RestorationType::Off ==> r[0]
            == hdr.restoration.unit_size[0],
        hdr.restoration.p[1].restoration_type != RestorationType::Off ==> r[1]
            == hdr.restoration.unit_size[1],
        hdr.restoration.p[2].restoration_type != RestorationType::Off ==> r[1]
            == hdr.restoration.unit_size[1],
{
}

} // verus!
