use rav2d::blockdec::Leaf;
use rav2d::decodeb::TileState;
use rav2d::env::BlockContext;
use rav2d::error::Rav2dError;
use rav2d::filterrow::FilterParams;
use rav2d::frame::{DqTable, NsWienerBank};
use rav2d::framedec::{decode_frame_main, FrameParams, MainContext, TileRun};
use rav2d::frameinfo::SbFrameInfo;
use rav2d::frameinit::FrameState;
use rav2d::frameplan::{plan_frame, FrameDerived, FrameRequest};
use rav2d::framesetup::{FilterSwitches, FrameJob};
use rav2d::frametop::decode_frame;
use rav2d::headers::{
    FrameHeader, FrameType, MvHeader, PixelLayout, SequenceHeader, WarpedMotionParams,
    WarpedMotionType, MAX_SEGMENTS,
};
use rav2d::interplan::InterFrame;
use rav2d::levels::{BlockSize, RefPair};
use rav2d::motion::MotionFrame;
use rav2d::msac::{MsacContext, Request};
use rav2d::partition::{DirState, SbNode};
use rav2d::refsetup::{RefPicture, RefSlot};
use rav2d::replay::{replay_sb, Replay};
use rav2d::restoration::NsTables;
use rav2d::restunit::Av2Restoration;
use rav2d::sbdec::{decode_sb, SbContext, Walk};
use rav2d::sbrow::{decode_tile_sbrow_entropy, RowContext, RowInput, RowParams};
use rav2d::sbsyntax::{CcsoMaps, DequantChoice, SbFilter};
use rav2d::splat::intra_entry;
use rav2d::submit::{submit_frame, FrameBuffers, Submitted};
use rav2d::tile::{CdfSource, TileBounds, TileGroup};
use rav2d::warp::MvTile;

const Y_RANGES: [[i8; 2]; 16] = [[4, -8]; 16];
const UV_RANGES: [[i8; 2]; 18] = [[4, -8]; 18];
const W: i32 = 32;
const H: i32 = 20;

fn y_tables() -> NsTables {
    NsTables { masks: vec![0, 0x3f, 0xfff, 0xffff], ranges: Y_RANGES.to_vec() }
}

fn uv_tables() -> NsTables {
    NsTables { masks: vec![0, 0x3f, 0x3ffff], ranges: UV_RANGES.to_vec() }
}

fn info() -> SbFrameInfo {
    SbFrameInfo {
        bw: W,
        bh: H,
        ss_ver: 1,
        ss_hor: 1,
        root_bs: BlockSize::Bs64x64,
        max_pb_aspect_ratio_log2: 2,
        n_passes: 1,
        has_chroma_layout: true,
        max_drl_bits: 3,
        txfm_switchable: true,
        skip_mode_refs: RefPair { r: [0, 0] },
        n_ref_frames: 7,
        tile_col_end: W,
        tile_row_end: H,
        sb_step: 16,
        b4_stride: W,
        sb256w: 1,
        ..Default::default()
    }
}

fn sb_context(replies: Vec<u32>) -> SbContext {
    SbContext {
        a: BlockContext::default(),
        l: BlockContext::default(),
        t: TileState {
            segmap: vec![0; (W * H) as usize],
            lf: vec![SbFilter::default()],
            ccso: vec![0; 3],
            qidx: 0,
            dequant: DequantChoice::Keep,
            dq: [[[0; 2]; 3]; MAX_SEGMENTS],
            dir_map: [0; 256],
            fsc_map: [0; 256],
            motion: still_tile(),
            warp: (no_warp(), false),
        },
        msac: MsacContext::new(replies),
        walk: Walk { cbx: 0, cby: 0, intra_region: false, cfl_disallowed: false },
        parts: Vec::new(),
        leaves: Vec::new(),
        blocks: Vec::new(),
    }
}

fn no_warp() -> WarpedMotionParams {
    WarpedMotionParams {
        wm_type: WarpedMotionType::Identity,
        matrix: [0, 0, 0x10000, 0, 0, 0x10000],
    }
}

fn still_tile() -> MvTile {
    let unit = intra_entry(BlockSize::Bs4x4);
    MvTile { r: vec![unit; 64 * 128], ra: vec![unit; 128], ra_off: 0, ra_tl: unit }
}

fn motion_frame() -> &'static MotionFrame {
    Box::leak(Box::new(MotionFrame {
        gmv: [no_warp(); 7],
        mv_header: MvHeader { force_integer_mv: 0, mv_precision: 3 },
        iw4: W,
        ih4: H,
        refmv_bank: false,
        kept: false,
        inter: InterFrame {
            force_integer_mv: false,
            imp_msk_bld: false,
            present: [true; 7],
            scaled: [false; 7],
            global_warp: [false; 7],
            global_affine: [false; 7],
            ss_hor: 1,
            ss_ver: 1,
            fw: W,
            fh: H,
        },
    }))
}

fn no_steps() -> &'static DqTable {
    Box::leak(Box::new(DqTable { base: 0, steps: Vec::new() }))
}

fn banks() -> [NsWienerBank; 3] {
    [NsWienerBank::default(), NsWienerBank::default(), NsWienerBank::default()]
}

fn row_context(replies: Vec<u32>) -> RowContext {
    RowContext {
        a: vec![BlockContext::default()],
        sb: sb_context(replies),
        banks: banks(),
        lr: vec![Av2Restoration::default()],
    }
}

fn no_input() -> RowInput<'static> {
    RowInput {
        prev_segmap: None,
        ccso: CcsoMaps { prev0: None, prev1: None, prev2: None },
        table: no_steps(),
        motion: motion_frame(),
    }
}

fn bounds(col: i32) -> TileBounds {
    TileBounds {
        row: 0,
        col,
        col_start: 16 * col,
        col_end: 16 * col + 16,
        row_start: 0,
        row_end: H,
    }
}

fn holders(leaves: &[Leaf], x: i32, y: i32) -> usize {
    leaves
        .iter()
        .filter(|f| f.lbs != BlockSize::Invalid)
        .filter(|f| {
            let d = f.lbs.dim();
            f.bx <= x && x < f.bx + d[0] as i32 && f.by <= y && y < f.by + d[1] as i32
        })
        .count()
}

fn header() -> FrameHeader {
    let mut hdr = FrameHeader::default();
    hdr.tiling.t.cols = 2;
    hdr.tiling.t.rows = 1;
    hdr.tiling.t.col_start_sb[1] = 1;
    hdr.tiling.t.col_start_sb[2] = 2;
    hdr.tiling.t.row_start_sb[1] = 2;
    hdr.tiling.n_bytes = 2;
    hdr.quant.yac = 100;
    hdr
}

fn params<'a>(hdr: &'a FrameHeader, y: &'a NsTables, uv: &'a NsTables) -> FrameParams<'a> {
    FrameParams {
        hdr,
        info: info(),
        tiles: vec![bounds(0), bounds(1)],
        sb256w: 1,
        root_bs: BlockSize::Bs64x64,
        c_root_bs: BlockSize::Bs64x64,
        unit_log2: [7, 7],
        y,
        uv,
        filter: FilterParams {
            deblock: true,
            cdef: false,
            ccso: false,
            wiener: false,
            gdf: false,
            level_y0: 1,
            level_y1: 0,
            seq_cdef: false,
            restore_planes: 0,
            sbh: 2,
            sb_step: 16,
            sb256w: 1,
            sb128: 0,
            bh: H,
        },
        start_of_tile_row: vec![1, 0],
    }
}

fn run() -> TileRun {
    TileRun {
        msac: MsacContext::new(vec![0; 4096]),
        banks: banks(),
        qidx: 100,
        dq: [[[0; 2]; 3]; MAX_SEGMENTS],
        parts: Vec::new(),
    }
}

fn main_context() -> MainContext {
    MainContext { row: row_context(Vec::new()), runs: vec![run(), run()], filtered: Vec::new() }
}

#[test]
fn a_row_decodes_every_unit_of_its_tile_once() {
    let (y, uv) = (y_tables(), uv_tables());
    let hdr = FrameHeader::default();
    let p = RowParams {
        by: 16,
        sb256w: 1,
        root_bs: BlockSize::Bs64x64,
        c_root_bs: BlockSize::Bs64x64,
        tile: TileBounds { col_end: W, ..bounds(0) },
        unit_log2: [7, 7],
        y: &y,
        uv: &uv,
    };
    let mut c = row_context(vec![0; 4096]);
    assert_eq!(decode_tile_sbrow_entropy(&info(), &p, &hdr, &no_input(), &mut c), Ok(()));
    for x in 0..W {
        assert_eq!(holders(&c.sb.leaves, x, 16), 1);
        assert_eq!(holders(&c.sb.leaves, x, 19), 1);
        assert_eq!(holders(&c.sb.leaves, x, 15), 0);
    }
}

#[test]
fn rows_without_a_place_are_refused() {
    let (y, uv) = (y_tables(), uv_tables());
    let p = RowParams {
        by: 0,
        sb256w: 1,
        root_bs: BlockSize::Bs64x64,
        c_root_bs: BlockSize::Bs64x64,
        tile: bounds(0),
        unit_log2: [7, 7],
        y: &y,
        uv: &uv,
    };
    let mut c = row_context(vec![0; 4096]);
    c.a = Vec::new();
    let r = decode_tile_sbrow_entropy(&info(), &p, &FrameHeader::default(), &no_input(), &mut c);
    assert_eq!(r, Err(Rav2dError::InvalidData));
}

#[test]
fn readers_may_run_a_little_over() {
    let (y, uv) = (y_tables(), uv_tables());
    let p = RowParams {
        by: 0,
        sb256w: 1,
        root_bs: BlockSize::Bs64x64,
        c_root_bs: BlockSize::Bs64x64,
        tile: bounds(0),
        unit_log2: [7, 7],
        y: &y,
        uv: &uv,
    };
    let hdr = FrameHeader::default();
    let mut replies: Vec<u32> = Vec::new();
    loop {
        let mut c = row_context(replies.clone());
        assert_eq!(decode_tile_sbrow_entropy(&info(), &p, &hdr, &no_input(), &mut c), Ok(()));
        if c.sb.msac.pending() == Some(Request::Overrun) {
            break;
        }
        assert!(c.sb.msac.pending().is_some());
        replies.push(0);
    }
    for (over, r) in [(14, Ok(())), (15, Err(Rav2dError::InvalidData))] {
        let mut told = replies.clone();
        told.push(over);
        let mut c = row_context(told);
        assert_eq!(decode_tile_sbrow_entropy(&info(), &p, &hdr, &no_input(), &mut c), r);
        assert_eq!(c.sb.msac.pending(), None);
    }
}

#[test]
fn frames_start_from_fresh_contexts() {
    let (y, uv) = (y_tables(), uv_tables());
    let mut hdr = header();
    hdr.tiling.t.cols = 0;
    let mut p = params(&hdr, &y, &uv);
    p.tiles = Vec::new();
    let mut c = main_context();
    c.runs = Vec::new();
    c.row.a[0].midx = [7; 64];
    c.row.a.push(BlockContext::default());
    c.row.a[1].midx = [7; 64];
    c.row.sb.t.segmap[5] = 3;
    assert_eq!(decode_frame_main(&p, &no_input(), &mut c), Ok(()));
    assert_eq!(c.row.a[0].midx, [0xff; 64]);
    assert_eq!(c.row.a[1].midx, [7; 64]);
    assert_eq!(c.row.sb.t.segmap[5], 3);
    p.info.seg_enabled = true;
    assert_eq!(decode_frame_main(&p, &no_input(), &mut c), Ok(()));
    assert_eq!(c.row.sb.t.segmap[5], 0);
}

#[test]
fn a_frame_decodes_every_unit_once() {
    let (y, uv) = (y_tables(), uv_tables());
    let hdr = header();
    let p = params(&hdr, &y, &uv);
    let mut c = main_context();
    assert_eq!(decode_frame_main(&p, &no_input(), &mut c), Ok(()));
    for y in 0..H {
        for x in 0..W {
            assert_eq!(holders(&c.row.sb.leaves, x, y), 1);
        }
    }
    assert_eq!(c.filtered.len(), 2);
    assert_eq!(c.row.sb.leaves.len(), c.row.sb.blocks.len());
}

fn dq_table() -> DqTable {
    let mut steps: Vec<u32> = Vec::new();
    for q in 0..2048u32 {
        steps.push(32 + q);
    }
    DqTable { base: -1024, steps }
}

fn sequence() -> SequenceHeader {
    SequenceHeader {
        layout: PixelLayout::I420,
        ss_hor: 1,
        ss_ver: 1,
        max_pb_aspect_ratio_log2: 2,
        order_hint_n_bits: 4,
        ref_frame_mvs: true,
        ..Default::default()
    }
}

fn sized_header() -> FrameHeader {
    let mut hdr = header();
    hdr.width = 4 * W;
    hdr.height = 4 * H;
    hdr.refresh_frame_flags = 0b1000_0010;
    hdr.frame_offset = 9;
    hdr.n_ref_frames = 1;
    hdr
}

fn derived() -> FrameDerived {
    FrameDerived {
        shears: [false; 7],
        tip: RefPair { r: [-1, -1] },
        qcat: 2,
        iw4: W,
        ih4: H,
    }
}

fn no_switches() -> FilterSwitches {
    FilterSwitches { deblock: true, cdef: false, ccso: false, wiener: false, gdf: false }
}

fn good_group() -> [TileGroup; 1] {
    [TileGroup { data: vec![3u8, 0, 1, 1, 1, 1, 2, 2, 2, 2], start: 0, end: 1 }]
}

fn no_slots() -> [RefSlot; 8] {
    [
        RefSlot::new(),
        RefSlot::new(),
        RefSlot::new(),
        RefSlot::new(),
        RefSlot::new(),
        RefSlot::new(),
        RefSlot::new(),
        RefSlot::new(),
    ]
}

fn full_slots() -> [RefSlot; 8] {
    let mut refs = no_slots();
    for (i, r) in refs.iter_mut().enumerate() {
        r.pic = Some(RefPicture {
            w: 4 * W,
            h: 4 * H,
            layout: PixelLayout::I420,
            bpc: 8,
            coded_w: 4 * W,
            frame_offset: 8,
            n_ref_frames: 1,
        });
        r.picture = Some(i as u64);
        r.cdf = Some(40 + i as u64);
    }
    refs
}

fn buffers() -> FrameBuffers {
    FrameBuffers { picture: 99, out_cdf: 5, cur_segmap: 6, refmvs: 7 }
}

fn submit(
    hdr: Option<&FrameHeader>,
    groups: &[TileGroup],
    c: &mut MainContext,
    refs: &mut [RefSlot; 8],
    out: &mut Vec<u64>,
) -> Result<Submitted, Rav2dError> {
    let (table, y, uv) = (dq_table(), y_tables(), uv_tables());
    let job = FrameJob {
        table: &table,
        y: &y,
        uv: &uv,
        tile_groups: groups,
        switches: no_switches(),
        n_tc: 1,
        segmaps: [None; 8],
    };
    submit_frame(Some(&sequence()), hdr, derived(), &job, &buffers(), c, refs, out)
}

#[test]
fn frames_keep_the_distributions_of_one_tile() {
    let (table, y, uv) = (dq_table(), y_tables(), uv_tables());
    let seq = sequence();
    let mut results = Vec::new();
    for (data, update, off) in [
        (vec![3u8, 0, 1, 1, 1, 1, 2, 2, 2, 2], 1u16, 0u8),
        (vec![3u8, 0, 1, 1, 1, 1, 2, 2, 2, 2], 2, 0),
        (vec![3u8, 0, 1, 1, 1, 1, 2, 2, 2, 2], 1, 1),
        (vec![0xFFu8; 3], 1, 0),
    ] {
        let mut hdr = sized_header();
        hdr.tiling.update = update;
        hdr.disable_cdf_update = off;
        let q = FrameRequest { seq: &seq, hdr: &hdr, derived: derived() };
        let plan = plan_frame(&q, &no_slots()).unwrap();
        let groups = [TileGroup { data, start: 0, end: 1 }];
        let job = FrameJob {
            table: &table,
            y: &y,
            uv: &uv,
            tile_groups: &groups,
            switches: no_switches(),
            n_tc: 1,
            segmaps: [None; 8],
        };
        let mut f = FrameState::new();
        let mut c = main_context();
        results.push(decode_frame(&q, &plan, &job, &no_slots(), &mut f, &mut c));
    }
    assert_eq!(results, vec![Ok(Some(1)), Ok(None), Ok(None), Err(Rav2dError::InvalidData)]);
}

#[test]
fn frames_are_decoded_with_what_their_headers_say() {
    let mut hdr = sized_header();
    hdr.deblock.level_y[0] = 1;
    let mut c = main_context();
    let mut refs = no_slots();
    let mut out: Vec<u64> = Vec::new();
    let s = submit(Some(&hdr), &good_group(), &mut c, &mut refs, &mut out).unwrap();
    assert_eq!((s.plan.geometry.bw, s.plan.geometry.bh), (W, H));
    assert_eq!(s.state.ts.len(), 2);
    assert_eq!(s.state.ts[1].tiling, bounds(1));
    assert_eq!(s.state.ts[1].last_qidx, 100);
    assert_eq!(s.state.ts[0].cdf, CdfSource::Defaults(2));
    for y in 0..H {
        for x in 0..W {
            assert_eq!(holders(&c.row.sb.leaves, x, y), 1);
        }
    }
    assert_eq!(c.filtered.len(), 2);
    assert!(c.filtered[0].deblock && c.filtered[0].start_of_tile_row);
    assert!(!c.filtered[1].start_of_tile_row);
}

#[test]
fn decoded_frames_fill_their_slots() {
    for (groups, done) in
        [(good_group(), true), ([TileGroup { data: vec![0xFFu8; 3], start: 0, end: 1 }], false)]
    {
        let mut c = main_context();
        let mut refs = no_slots();
        let mut out: Vec<u64> = vec![1];
        let r = submit(Some(&sized_header()), &groups, &mut c, &mut refs, &mut out);
        assert_eq!(r.is_ok(), done);
        if done {
            assert_eq!(r.unwrap().kept, Some(0));
            assert_eq!(out, vec![1, 99]);
            for i in 0..8 {
                if i == 1 || i == 7 {
                    assert_eq!(refs[i].picture, Some(99));
                    assert_eq!(refs[i].pic.unwrap().frame_offset, 9);
                    assert!(refs[i].showable);
                    assert_eq!((refs[i].cdf, refs[i].refmvs), (Some(5), None));
                } else {
                    assert_eq!(refs[i], RefSlot::new());
                }
            }
        } else {
            assert_eq!(out, vec![1]);
            assert_eq!(refs, no_slots());
        }
    }
}

#[test]
fn inter_frames_start_from_their_references() {
    let mut hdr = sized_header();
    hdr.frame_type = FrameType::Inter;
    hdr.refidx = [0, 1, 2, 3, 4, 5, 6];
    hdr.primary_ref_frame = Some(3);
    let mut c = main_context();
    for run in c.runs.iter_mut() {
        run.msac = MsacContext::new(Vec::new());
    }
    let mut refs = full_slots();
    let mut out: Vec<u64> = Vec::new();
    let s = submit(Some(&hdr), &good_group(), &mut c, &mut refs, &mut out).unwrap();
    assert_eq!(s.plan.in_cdf, Some(43));
    assert_eq!(s.state.ts[0].cdf, CdfSource::Kept(43));
    assert_eq!(s.state.ts[1].cdf, CdfSource::Kept(43));
    assert_eq!(s.plan.distances.unwrap().refdist, [-1; 7]);
    assert_eq!(out, vec![99]);
    assert_eq!(refs[7].cdf, Some(5));
    assert_eq!(refs[7].refmvs, Some(7));
    assert_eq!(refs[7].refpoc, [8; 7]);
    assert_eq!(refs[0], full_slots()[0]);
}

#[test]
fn frames_without_usable_references_leave_nothing() {
    let mut hdr = sized_header();
    hdr.frame_type = FrameType::Inter;
    hdr.refidx = [0, 1, 2, 3, 4, 5, 6];
    let mut bad: Vec<[RefSlot; 8]> = vec![no_slots(), full_slots(), full_slots(), full_slots()];
    bad[1][2].pic = bad[1][2].pic.map(|p| RefPicture { layout: PixelLayout::I444, ..p });
    bad[2][6].pic = bad[2][6].pic.map(|p| RefPicture { bpc: 10, ..p });
    bad[3][0].pic = bad[3][0].pic.map(|p| RefPicture { w: 8 * W + 1, ..p });
    for before in bad {
        let mut refs = before;
        let mut c = main_context();
        let mut out: Vec<u64> = vec![1];
        let r = submit(Some(&hdr), &good_group(), &mut c, &mut refs, &mut out);
        assert!(matches!(r, Err(Rav2dError::InvalidData)));
        assert_eq!(refs, before);
        assert_eq!(out, vec![1]);
    }
}

#[test]
fn frames_without_headers_are_refused() {
    let mut refs = full_slots();
    let mut out: Vec<u64> = Vec::new();
    let r = submit(None, &good_group(), &mut main_context(), &mut refs, &mut out);
    assert!(matches!(r, Err(Rav2dError::InvalidData)));
    assert_eq!(refs, full_slots());
    assert!(out.is_empty());
}

#[test]
fn a_second_pass_finds_the_same_leaves() {
    let mut fi = info();
    fi.is_inter_or_switch = true;
    fi.ext_partitions = true;
    fi.n_passes = 2;
    let mut c = sb_context(vec![0xFF; 4096]);
    let mut dir = DirState { dir: 0, part: 0, child: 0, at_limit: false };
    let n = SbNode { bx: 0, by: 0, lbs: BlockSize::Bs32x32, cbs: BlockSize::Bs32x32 };
    assert_eq!(
        decode_sb(
            &fi,
            &n,
            &rav2d::decodeb::TileInput {
                prev_segmap: None,
                ccso: CcsoMaps { prev0: None, prev1: None, prev2: None },
                lf_idx: 0,
                table: no_steps(),
                motion: motion_frame(),
            },
            &mut dir,
            &mut c,
        ),
        Ok(())
    );
    assert!(c.leaves.len() > 1);
    let mut again = Replay {
        parts: c.parts.clone(),
        used: 0,
        walk: Walk { cbx: 0, cby: 0, intra_region: false, cfl_disallowed: false },
        leaves: Vec::new(),
    };
    assert!(replay_sb(&fi, &n, &mut again));
    assert_eq!(again.used, c.parts.len());
    assert_eq!(again.leaves, c.leaves);
    let mut short = Replay { parts: Vec::new(), used: 0, walk: again.walk, leaves: Vec::new() };
    assert!(!replay_sb(&fi, &n, &mut short));
}
