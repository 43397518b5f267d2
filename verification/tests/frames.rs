use rav2d::error::Rav2dError;
use rav2d::filterrow::{collect_noskip, filter_sbrow, FilterParams};
use rav2d::frame::{init_quant_tables_fi, DqTable};
use rav2d::framegeom::frame_geometry;
use rav2d::frameinfo::SbFrameInfo;
use rav2d::frameplan::{plan_frame, FrameDerived, FrameRequest};
use rav2d::framesetup::{find_filter, find_motion, FilterSwitches};
use rav2d::headers::{
    FrameHeader, FrameType, PixelLayout, SequenceHeader, WarpedMotionParams, WarpedMotionType,
    MAX_SEGMENTS,
};
use rav2d::levels::{
    BlockSize, Mv, MvXY, RefPair, GLOBAL_MV, NEAR_MV, NEAR_MV_NEW_MV, NEW_MV, NEW_MV_NEW_MV,
};
use rav2d::mvresolve::{apply_warp_delta, resolve_copy, resolve_pair, resolve_single};
use rav2d::partition::partition_subb;
use rav2d::picplane::{clone_plane, find_plane_size, PlaneSize};
use rav2d::refsetup::{
    find_skip_mode_refs, refresh_refs, FrameResult, RefSlot, RefPicture,
};
use rav2d::splat::{keep_pair, splat_oneref_mv, splat_tworef_mv, warp_origin, SplatKind};
use rav2d::warp::fitted_type;

fn picture(w: i32, frame_offset: i32) -> RefPicture {
    RefPicture {
        w,
        h: 64,
        layout: PixelLayout::I420,
        bpc: 8,
        coded_w: w,
        frame_offset,
        n_ref_frames: 1,
    }
}

fn kept(n: u64) -> RefSlot {
    RefSlot {
        pic: None,
        picture: Some(n),
        showable: false,
        cdf: Some(n + 10),
        segmap: Some(n + 20),
        refmvs: Some(n + 30),
        ccsomap: None,
        refpoc: [0; 7],
    }
}

fn kept_all() -> [RefSlot; 8] {
    [kept(0), kept(1), kept(2), kept(3), kept(4), kept(5), kept(6), kept(7)]
}

fn kept_with(slots: [Option<RefPicture>; 8]) -> [RefSlot; 8] {
    let mut r = kept_all();
    for i in 0..8 {
        r[i].pic = slots[i];
    }
    r
}

fn header(frame_type: FrameType) -> FrameHeader {
    let mut hdr = FrameHeader::default();
    hdr.frame_type = frame_type;
    hdr.width = 64;
    hdr.height = 64;
    hdr.frame_offset = 4;
    hdr.n_ref_frames = 2;
    hdr.skip_mode_enabled = 1;
    hdr.refidx = [0, 1, 2, 3, 4, 5, 6];
    hdr.use_ref_frame_mvs = 1;
    for m in hdr.gmv.m.iter_mut() {
        m.wm_type = WarpedMotionType::Affine;
    }
    hdr
}

fn request<'a>(hdr: &'a FrameHeader) -> FrameRequest<'a> {
    let seq = SequenceHeader {
        layout: PixelLayout::I420,
        order_hint_n_bits: 4,
        ..Default::default()
    };
    FrameRequest {
        seq: Box::leak(Box::new(seq)),
        hdr,
        derived: FrameDerived {
            shears: [true; 7],
            tip: RefPair { r: [-1, -1] },
            qcat: 0,
            iw4: 16,
            ih4: 16,
        },
    }
}

#[test]
fn key_frames_need_no_references() {
    let hdr = header(FrameType::Key);
    let p = plan_frame(&request(&hdr), &kept_all()).unwrap();
    assert_eq!(p.refs.len(), 0);
    assert_eq!(p.in_cdf, None);
    assert_eq!(p.skip_mode_refs.r, [0, 1]);
    assert_eq!((p.geometry.bw, p.geometry.sb256w), (16, 1));
}

#[test]
fn inter_frames_look_up_their_references() {
    let mut hdr = header(FrameType::Inter);
    hdr.primary_ref_frame = Some(1);
    hdr.segmentation.enabled = 1;
    let mut slots = [Some(picture(64, 3)); 8];
    slots[1] = Some(picture(128, 6));
    slots[2] = Some(picture(64, 5));
    let p = plan_frame(&request(&hdr), &kept_with(slots)).unwrap();
    assert_eq!(p.refs.len(), 7);
    assert_eq!(p.refs[0].hor.scale, 0);
    assert_eq!(p.refs[1].hor.scale, 0x8000);
    assert_eq!(p.refs[1].hor.step, 0x800);
    assert_eq!(p.refs[1].ver.scale, 0x4000);
    assert_eq!(p.global_warp, [true, false, true, true, true, true, true]);
    assert_eq!(p.in_cdf, Some(11));
    // The primary reference has another size.
    assert_eq!(p.prev_segmap, None);
    assert_eq!(p.ref_mvs[0], Some(30));
    assert_eq!(p.ref_mvs[1], None);
    let d = p.distances.unwrap();
    assert_eq!(d.refdist, [-1, 2, 1, -1, -1, -1, -1]);
    assert_eq!(d.furthest_future_refidx, 1);
    assert_eq!(p.skip_mode_refs.r, [0, 1]);
}

#[test]
fn segment_maps_come_from_the_primary_reference() {
    let mut hdr = header(FrameType::Inter);
    hdr.primary_ref_frame = Some(2);
    hdr.segmentation.enabled = 1;
    hdr.segmentation.temporal = 1;
    let slots = [Some(picture(64, 3)); 8];
    let p = plan_frame(&request(&hdr), &kept_with(slots)).unwrap();
    assert_eq!(p.prev_segmap, Some(22));
}

#[test]
fn unusable_references_are_refused() {
    let hdr = header(FrameType::Inter);
    let mut slots = [Some(picture(64, 3)); 8];
    slots[6] = None;
    assert!(matches!(
        plan_frame(&request(&hdr), &kept_with(slots)),
        Err(Rav2dError::InvalidData)
    ));
    slots[6] = Some(picture(129, 3));
    assert!(plan_frame(&request(&hdr), &kept_with(slots)).is_err());
    slots[6] = Some(picture(128, 3));
    assert!(plan_frame(&request(&hdr), &kept_with(slots)).is_ok());
}

#[test]
fn references_of_another_format_are_refused() {
    let hdr = header(FrameType::Inter);
    let mut slots = [Some(picture(64, 3)); 8];
    slots[3] = Some(RefPicture { layout: PixelLayout::I444, ..picture(64, 3) });
    assert!(plan_frame(&request(&hdr), &kept_with(slots)).is_err());
    slots[3] = Some(RefPicture { bpc: 10, ..picture(64, 3) });
    assert!(plan_frame(&request(&hdr), &kept_with(slots)).is_err());
}

#[test]
fn motion_and_filters_follow_the_headers() {
    let mut hdr = header(FrameType::Inter);
    hdr.deblock.level_y = [3, 5];
    hdr.mv_precision = 2;
    hdr.gmv.affine[4] = true;
    let mut slots = [Some(picture(64, 3)); 8];
    slots[1] = Some(picture(128, 6));
    let mut q = request(&hdr);
    let seq = SequenceHeader { refmv_bank: true, ref_frame_mvs: true, cdef: true, ..*q.seq };
    q.seq = &seq;
    let plan = plan_frame(&q, &kept_with(slots)).unwrap();
    let m = find_motion(&q, &plan);
    assert_eq!(m.inter.scaled, [false, true, false, false, false, false, false]);
    assert_eq!(m.inter.global_warp, plan.global_warp);
    assert_eq!(m.inter.global_affine, hdr.gmv.affine);
    assert_eq!(m.inter.present, [true; 7]);
    assert_eq!((m.inter.fw, m.inter.fh, m.mv_header.mv_precision), (16, 16, 2));
    assert!(m.kept && m.refmv_bank);
    let on = FilterSwitches { deblock: true, cdef: true, ccso: false, wiener: false, gdf: false };
    let f = find_filter(&q, &plan, &on, 6);
    assert_eq!((f.level_y0, f.level_y1, f.restore_planes, f.bh), (3, 5, 6, 16));
    assert!(f.seq_cdef && f.deblock && !f.gdf);
}

#[test]
fn near_references_can_be_skipped_to() {
    assert_eq!(find_skip_mode_refs(true, 2, &[1, 3, 0, 0, 0, 0, 0]).r, [0, 0]);
    assert_eq!(find_skip_mode_refs(true, 2, &[2, 3, 0, 0, 0, 0, 0]).r, [0, 1]);
    assert_eq!(find_skip_mode_refs(false, 2, &[2, 3, 0, 0, 0, 0, 0]).r, [0, 0]);
    assert_eq!(find_skip_mode_refs(true, 1, &[2, 3, 0, 0, 0, 0, 0]).r, [0, 0]);
}

#[test]
fn frames_go_where_their_flags_say() {
    let mut refs = kept_all();
    let f = FrameResult {
        pic: picture(64, 4),
        picture: 99,
        show_immediate: false,
        in_cdf: Some(1),
        out_cdf: Some(2),
        disable_cdf_update: false,
        cur_segmap: Some(3),
        prev_segmap: Some(4),
        update_map: false,
        is_inter_or_switch: false,
        refmvs: Some(5),
        ccsomap: Some(6),
        refpoc: [7; 7],
    };
    refresh_refs(&mut refs, 0b101, &f);
    assert_eq!(refs[0].picture, Some(99));
    assert_eq!(refs[0].pic, Some(picture(64, 4)));
    assert!(refs[0].showable);
    assert_eq!(refs[0].cdf, Some(2));
    assert_eq!(refs[0].segmap, Some(4));
    assert_eq!(refs[0].refmvs, Some(30));
    assert_eq!(refs[0].refpoc, [7; 7]);
    assert_eq!(refs[1], kept(1));
    assert_eq!(refs[2].ccsomap, Some(6));
}

#[test]
fn geometry_of_a_frame() {
    let mut hdr = FrameHeader::default();
    hdr.width = 353;
    hdr.height = 289;
    hdr.sb128 = 1;
    let g = frame_geometry(&hdr, PixelLayout::I422, 1);
    assert_eq!((g.bw, g.bh), (90, 74));
    assert_eq!((g.ss_hor, g.ss_ver), (1, 0));
    assert_eq!((g.sb_shift, g.sb_step, g.sbh), (5, 32, 3));
    assert_eq!(g.b4_stride, 128);
    assert_eq!((g.bpc, g.bitdepth_max), (10, 1023));
    assert_eq!(g.root_bs, BlockSize::Bs128x128);
}

#[test]
fn planes_of_a_picture() {
    let s = find_plane_size(5, 3, PixelLayout::I420, 10, 1).unwrap();
    assert_eq!((s.row_bytes, s.rows), (6, 2));
    let s = find_plane_size(5, 3, PixelLayout::I422, 8, 2).unwrap();
    assert_eq!((s.row_bytes, s.rows), (3, 3));
    assert_eq!(find_plane_size(5, 3, PixelLayout::I400, 8, 1), None);
    let r = clone_plane(&[1, 2, 3, 4, 5, 6], 3, 4, PlaneSize { row_bytes: 2, rows: 2 });
    assert_eq!(r, vec![1, 2, 0, 0, 4, 5, 0, 0]);
}

fn filters() -> FilterParams {
    FilterParams {
        deblock: true,
        cdef: true,
        ccso: false,
        wiener: false,
        gdf: false,
        level_y0: 0,
        level_y1: 1,
        seq_cdef: true,
        restore_planes: 7,
        sbh: 3,
        sb_step: 16,
        sb256w: 2,
        sb128: 0,
        bh: 40,
    }
}

#[test]
fn filters_of_a_row() {
    let r = filter_sbrow(&filters(), &[1, 0, 0], 0);
    assert!(r.deblock && r.start_of_tile_row && !r.copy_db);
    assert_eq!(r.seam, None);
    assert_eq!((r.cdef.unwrap().start, r.cdef.unwrap().end), (0, 14));
    let r = filter_sbrow(&filters(), &[1, 0, 0], 2);
    assert_eq!((r.seam.unwrap().start, r.seam.unwrap().end), (30, 32));
    assert_eq!((r.cdef.unwrap().start, r.cdef.unwrap().end), (32, 40));
    let mut p = filters();
    p.deblock = false;
    p.cdef = false;
    p.wiener = true;
    let r = filter_sbrow(&p, &[], 1);
    assert!(!r.deblock && r.copy_db && r.cdef.is_none());
}

#[test]
fn missing_areas_have_no_blocks() {
    let mut area = [[0u16; 4]; 32];
    area[1][2] = 5;
    let r = collect_noskip(&[area], 0, 2);
    assert_eq!(r.len(), 2);
    assert_eq!(r[0][1][2], 5);
    assert_eq!(r[1], [[0u16; 4]; 32]);
}

fn xy(y: i32, x: i32) -> MvXY {
    MvXY { y, x }
}

#[test]
fn copies_start_somewhere() {
    let r = resolve_copy(xy(0, 0), xy(0, 0), true, false, 0, false);
    assert_eq!((r.y, r.x), (-512, 0));
    let r = resolve_copy(xy(0, 0), xy(0, 0), true, false, 1, true);
    assert_eq!((r.y, r.x), (0, -3072));
    let r = resolve_copy(xy(-16, 0), xy(8, -8), false, true, 1, true);
    assert_eq!((r.y, r.x), (-8, -8));
}

#[test]
fn differences_count_for_new_vectors() {
    let r = resolve_single(NEAR_MV, xy(5, 6), xy(8, 8), false, 6, false);
    assert_eq!((r.y, r.x), (5, 6));
    let r = resolve_single(NEW_MV, xy(5, 6), xy(8, 8), false, 6, false);
    assert_eq!((r.y, r.x), (13, 14));
    let (a, b) = resolve_pair(NEAR_MV_NEW_MV, xy(1, 2), xy(3, 4), xy(8, 8), xy(8, 8), true, 3);
    assert_eq!((a.y, a.x, b.y, b.x), (1, 2, 11, 12));
    let (a, b) = resolve_pair(NEW_MV_NEW_MV, xy(1, 2), xy(3, 4), xy(8, 8), xy(8, 8), true, 3);
    assert_eq!((a.y, a.x, b.y, b.x), (9, 10, 11, 12));
}

#[test]
fn warps_differ_from_their_base() {
    let base = [0, 0, 0x10000, 0, 0, 0x10000];
    let mut m = base;
    apply_warp_delta(&mut m, &base, &[1, 2, -128, -128]);
    assert_eq!(m, [0, 0, 0x10400, 0x800, -0x800, 0x10400]);
    let mut m = base;
    apply_warp_delta(&mut m, &base, &[100, 0, 0, 0]);
    assert_eq!(m[2], 0x10000 + 0x7fc0);
}

#[test]
fn entries_of_moved_blocks() {
    let warp = WarpedMotionParams {
        wm_type: WarpedMotionType::RotZoom,
        matrix: [1, 2, 3, 4, 5, 6],
    };
    let mv = Mv { c: xy(7, 8) };
    let (kind, e) = splat_oneref_mv(
        BlockSize::Bs8x8, 3, mv, 1, true, NEW_MV, WarpedMotionType::Identity, &warp,
    );
    assert_eq!(kind, SplatKind::Local);
    assert_eq!((e.mf, e.m, e.refs), (2, [1, 2, 3, 4, 5, 6], [3, -1]));
    let (kind, e) = splat_oneref_mv(
        BlockSize::Bs8x8, 3, mv, 1, false, GLOBAL_MV, WarpedMotionType::Translation, &warp,
    );
    assert_eq!(kind, SplatKind::Shift);
    assert_eq!(e.mf, 1);
    let (kept, e) = splat_tworef_mv(
        BlockSize::Bs8x8, [1, 2], [mv, mv], 0, 8, NEW_MV_NEW_MV, false, 1, true,
    );
    assert!(kept);
    assert_eq!(e.mf, 32);
    let (kept, _) = splat_tworef_mv(
        BlockSize::Bs8x8, [1, 2], [mv, mv], 0, 8, NEW_MV_NEW_MV, false, 2, true,
    );
    assert!(!kept);
    // A weight below zero counts too.
    let (_, e) = splat_tworef_mv(
        BlockSize::Bs8x8, [1, 2], [mv, mv], 0, -4, NEW_MV_NEW_MV, false, 1, true,
    );
    assert_eq!(e.mf, 240);
}

#[test]
fn kept_motion() {
    let (u, v) = (Mv { c: xy(1, 2) }, Mv { c: xy(3, 4) });
    let k = keep_pair([5, 6], Some(u), Some(v), true).unwrap();
    assert_eq!((k.ref0, k.ref1, k.mv0.c.y), (6, 5, 3));
    let k = keep_pair([5, 6], None, Some(v), false).unwrap();
    assert_eq!((k.ref0, k.ref1, k.mv1.c.y), (6, 6, 3));
    assert_eq!(keep_pair([5, 6], None, None, false), None);
}

#[test]
fn identity_warps_have_no_shift() {
    assert_eq!(warp_origin(&[0, 0, 0x10000, 0, 0, 0x10000], 7, 9), (0, 0));
    assert_eq!(warp_origin(&[5, 6, 0x10000, 0, 0, 0x10001], 7, 9), (46, 5));
}

#[test]
fn fits_can_fail() {
    assert_eq!(
        fitted_type(true, true, WarpedMotionType::Affine),
        WarpedMotionType::Affine
    );
    assert_eq!(
        fitted_type(true, false, WarpedMotionType::Affine),
        WarpedMotionType::Invalid
    );
}

#[test]
fn parts_of_a_block() {
    let p = partition_subb(BlockSize::Bs64x64);
    assert_eq!(p.part[0][0], BlockSize::Bs64x32 as i8);
    assert_eq!(p.ctx, [3, 6]);
}

#[test]
fn superblock_quantizers_agree_with_the_frame() {
    let mut steps: Vec<u32> = Vec::new();
    for q in 0..512u32 {
        steps.push(q * 3 + 1);
    }
    let table = DqTable { base: -64, steps };
    let fi = SbFrameInfo { q_uac_delta: 7, ..Default::default() };
    let mut dq = [[[0u32; 2]; 3]; MAX_SEGMENTS];
    init_quant_tables_fi(&fi, &table, 50, &mut dq);
    assert_eq!(dq[0][0], [table.lookup(50); 2]);
    assert_eq!(dq[0][1][1], table.lookup(57));
}
