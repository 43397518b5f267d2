use rav2d::block::{
    find_sb_neighbours, find_tile_neighbours, sum_neighbours, sum_present, BlockPos, NbPos,
};
use rav2d::compound::read_compound;
use rav2d::env::BlockContext;
use rav2d::frameinfo::SbFrameInfo;
use rav2d::headers::AdaptiveBoolean;
use rav2d::interctx::{
    count_frame_refs, count_ref, find_comp_flag_ctx, find_mask_ctx, find_tip_ctx, get_filter_ctx,
    get_single_filter_ctx, get_snglref_ctx, has_warp_neighbour, NbInter, NxInter,
};
use rav2d::intops::{
    apply_sign64, bit_set, floor_div, iclip, inv_recenter, low_bits, shr, shr64,
};
use rav2d::intra::{read_chroma_mode, read_dip, read_luma_mode, read_mrl, read_palette_size};
use rav2d::levels::{BlockSize, MvXY, CFL_PRED, NEAR_MV_NEAR_MV};
use rav2d::msac::{Cdf, MsacContext, Request};
use rav2d::mvsyntax::{is_odd_steps, read_drl_index, read_signs, DrlKind, SignRule};
use rav2d::sbsyntax::{
    read_ccso, read_cdef, read_cdef_index, read_gdf, read_qidx, DequantChoice, SbFilter,
};
use rav2d::segid::{
    get_cur_frame_segid, read_segid_after_skip, read_segid_before_skip, write_segmap, SegMaps,
    SegRead,
};
use rav2d::single::read_single_ref;

fn info() -> SbFrameInfo {
    SbFrameInfo {
        bw: 16,
        bh: 16,
        tile_col_end: 16,
        tile_row_end: 16,
        sb_step: 16,
        b4_stride: 16,
        sb256w: 1,
        root_bs: BlockSize::Bs64x64,
        n_ref_frames: 7,
        max_drl_bits: 3,
        ..Default::default()
    }
}

fn at(bx: i32, by: i32, bs: BlockSize) -> BlockPos {
    BlockPos { bx, by, bs }
}

fn nb(ref0: i8, ref1: i8) -> NbInter {
    NbInter { ref0, ref1, amvd: 0, comp_type: 0, intrabc: 0 }
}

fn plain() -> (BlockContext, BlockContext) {
    let (mut a, mut l) = (BlockContext::default(), BlockContext::default());
    a.midx = [0xff; 64];
    l.midx = [0xff; 64];
    a.refs = [[-1; 64]; 2];
    l.refs = [[-1; 64]; 2];
    (a, l)
}

#[test]
fn integer_operations() {
    assert_eq!(floor_div(-7, 2), -4);
    assert_eq!(floor_div(7, 2), 3);
    assert_eq!(shr(-5, 1), -3);
    assert_eq!(shr64(-1, 32), -1);
    assert_eq!(low_bits(-1, 3), 7);
    assert_eq!(iclip(9, 0, 5), 5);
    assert!(bit_set(4, 2) && !bit_set(4, 1));
    assert_eq!(apply_sign64(5, -1), -5);
    assert_eq!((inv_recenter(5, 4), inv_recenter(5, 3), inv_recenter(5, 11)), (7, 3, 11));
}

#[test]
fn readers_tell_what_they_need() {
    let mut msac = MsacContext::new(vec![9]);
    assert_eq!(msac.decode_uniform(4), 3);
    assert_eq!(msac.pending(), None);
    assert_eq!(msac.decode_bool_adapt(Cdf::Gdf), 0);
    assert_eq!(msac.pending(), Some(Request::Bool(Cdf::Gdf)));
    msac.answer(1);
    assert_eq!(msac.decode_uniform(4), 3);
    assert_eq!(msac.decode_bool_adapt(Cdf::Gdf), 1);
    assert_eq!(msac.pending(), None);
}

#[test]
fn neighbours_at_the_edges_of_a_tile() {
    let fi = info();
    assert_eq!(find_tile_neighbours(&fi, &at(0, 0, BlockSize::Bs8x8)).n, 0);
    let nx = find_tile_neighbours(&fi, &at(4, 4, BlockSize::Bs8x8));
    assert_eq!(nx.p0, NbPos { above: false, off: 5 });
    assert_eq!(nx.p1, NbPos { above: true, off: 5 });
    let lone = find_sb_neighbours(&fi, &at(0, 4, BlockSize::Bs8x8));
    assert_eq!((lone.p0.above, lone.p0.off, lone.p1.off, lone.n), (true, 1, 0, 2));
    let cut = SbFrameInfo { bw: 1, ..info() };
    let twice = find_sb_neighbours(&cut, &at(0, 4, BlockSize::Bs8x8));
    assert!(twice.twice);
    let mut above = [0u8; 64];
    above[0] = 3;
    assert_eq!(sum_neighbours(&above, &[0; 64], &twice), 6);
    assert_eq!(sum_present(&above, &[0; 64], &twice), 3);
}

#[test]
fn enhancement_strengths() {
    let mut msac = MsacContext::new(vec![0, 2]);
    assert_eq!(read_cdef_index(4, 0, 0, &mut msac), 3);
    assert_eq!(read_cdef_index(1, 0, 0, &mut msac), 0);
    let mut fi = info();
    fi.cdef_enabled = true;
    fi.cdef_n_strengths = 2;
    let mut lf = vec![SbFilter { cdef_idx: [-1; 16], gdf: [0; 16], ccso: [0; 3] }];
    let mut msac = MsacContext::new(vec![0]);
    read_cdef(&fi, &at(0, 0, BlockSize::Bs8x8), true, &mut lf, 0, &mut msac);
    assert_eq!(lf[0].cdef_idx[0], -1);
    read_cdef(&fi, &at(0, 0, BlockSize::Bs8x8), false, &mut lf, 0, &mut msac);
    assert_eq!(lf[0].cdef_idx[0..2], [1, -1]);
}

#[test]
fn guided_filter_areas() {
    let mut fi = info();
    fi.gdf_is_key = true;
    fi.gdf_enabled = AdaptiveBoolean::On;
    let mut lf = SbFilter::default();
    let mut msac = MsacContext::new(Vec::new());
    read_gdf(&fi, &at(0, 0, BlockSize::Bs8x8), &mut lf, &mut msac);
    assert_eq!(lf.gdf, [1, 1, 0, 0, 1, 1, 0, 0, 0, 0, 0, 0, 0, 0, 0, 0]);
    assert_eq!(msac.pending(), None);
}

#[test]
fn quantizer_steps() {
    let mut fi = info();
    fi.delta_q_present = true;
    fi.delta_q_res_log2 = 1;
    fi.quant_yac = 100;
    let mut msac = MsacContext::new(vec![7, 1, 3, 1]);
    let r = read_qidx(&fi, &at(0, 0, BlockSize::Bs8x8), false, 100, &mut msac);
    assert_eq!(r, (84, DequantChoice::Compute));
    let r = read_qidx(&fi, &at(2, 0, BlockSize::Bs8x8), false, 84, &mut msac);
    assert_eq!(r, (84, DequantChoice::Keep));
}

#[test]
fn sample_offsets_are_taken_over_or_read() {
    let mut fi = info();
    let mut msac = MsacContext::new(vec![1]);
    assert_eq!(read_ccso(&fi, 0, Some(0), Some(1), &mut msac), 1);
    fi.ccso_sb_reuse = [true; 3];
    assert_eq!(read_ccso(&fi, 2, Some(1), None, &mut msac), 1);
    assert_eq!(read_ccso(&fi, 2, None, None, &mut msac), 0);
}

#[test]
fn segments_are_predicted_from_their_neighbours() {
    let map = [3u8, 3, 3, 0];
    assert_eq!(get_cur_frame_segid(1, 1, true, true, &map, 2), (3, 2));
    assert_eq!(get_cur_frame_segid(0, 1, false, true, &map, 2), (3, 0));
    assert_eq!(get_cur_frame_segid(0, 0, false, false, &map, 2), (0, 0));
    let mut out = vec![0u8; 9];
    write_segmap(&mut out, 1, 1, 2, 1, 3, 5);
    assert_eq!(out, vec![0, 0, 0, 0, 5, 5, 0, 0, 0]);
}

#[test]
fn segments_are_read_before_or_after_the_skip_flag() {
    let mut fi = info();
    fi.seg_enabled = true;
    fi.seg_update_map = true;
    fi.seg_temporal = true;
    fi.seg_preskip = true;
    fi.seg_last_active_segid = 7;
    let cur = vec![0u8; 256];
    let prev = vec![6u8; 256];
    let maps = SegMaps { cur: &cur, prev: Some(&prev) };
    let (a, l) = plain();
    let b = at(4, 4, BlockSize::Bs8x8);
    let mut msac = MsacContext::new(vec![1]);
    let r = read_segid_before_skip(&fi, &b, true, &a, &l, &maps, &mut msac);
    assert_eq!(r, SegRead { seg_id: 6, seg_pred: 1 });
    fi.seg_preskip = false;
    let mut msac = MsacContext::new(vec![0, 3]);
    let before = read_segid_before_skip(&fi, &b, true, &a, &l, &maps, &mut msac);
    assert_eq!(before, SegRead { seg_id: 0, seg_pred: 0 });
    let r = read_segid_after_skip(&fi, &b, true, false, before, &a, &l, &maps, &mut msac);
    assert_eq!(r, SegRead { seg_id: 3, seg_pred: 0 });
}

#[test]
fn contexts_of_references() {
    let mut fi = info();
    fi.refdir[1] = 1;
    let nx = NxInter { n: 2, p0: nb(0, -1), p1: nb(1, -1) };
    assert_eq!(find_comp_flag_ctx(&fi, &nx), 1);
    assert_eq!(count_ref(&nx, 1), 1);
    assert_eq!(count_frame_refs(&nx), 2);
    assert_eq!(find_tip_ctx(&nx), 0);
    fi.furthest_future_refidx = 1;
    assert_eq!(find_mask_ctx(&fi, &nx, 0, 1), 8);
    assert_eq!(find_comp_flag_ctx(&fi, &NxInter { n: 2, p0: nb(0, 1), p1: nb(1, 0) }), 4);
    assert_eq!(find_comp_flag_ctx(&fi, &NxInter { n: 0, ..nx }), 1);
}

#[test]
fn contexts_of_a_single_reference() {
    let fi = info();
    let (mut a, mut l) = plain();
    let b = at(4, 4, BlockSize::Bs8x8);
    assert_eq!(get_snglref_ctx(&fi, &b, &a, &l, 2), 0);
    a.refs[0][5] = 2;
    assert_eq!(get_snglref_ctx(&fi, &b, &a, &l, 2), 1);
    a.mode[5] = 15;
    l.refs[1][4] = 2;
    assert_eq!(get_snglref_ctx(&fi, &b, &a, &l, 2), 4);
    assert!(has_warp_neighbour(&fi, &b, &a, &l, 2));
    assert!(!has_warp_neighbour(&fi, &b, &a, &l, 3));
    a.filter[5] = 1;
    l.filter[5] = 2;
    l.refs[0][5] = 2;
    let near = find_sb_neighbours(&fi, &b);
    assert_eq!(get_single_filter_ctx(&a, &l, &near, 2), 3);
    assert_eq!(get_filter_ctx(&a, &l, &near, 2), 7);
}

#[test]
fn directions_of_the_neighbours_come_first() {
    let fi = info();
    let (a, mut l) = plain();
    l.midx[5] = 20;
    let b = at(4, 4, BlockSize::Bs8x8);
    let m = read_luma_mode(&fi, &b, false, &a, &l, &mut MsacContext::new(vec![0, 5]));
    assert_eq!((m.y_mode, m.y_angle, m.midx), (1, 3, 20));
    let m = read_luma_mode(&fi, &b, false, &a, &l, &mut MsacContext::new(vec![0, 6]));
    assert_eq!((m.y_mode, m.y_angle, m.midx), (1, 0, 17));
    let m = read_luma_mode(&fi, &b, false, &a, &l, &mut MsacContext::new(vec![0, 4]));
    assert_eq!((m.y_mode, m.midx), (12, 0xff));
    let m = read_luma_mode(&fi, &b, true, &a, &l, &mut MsacContext::new(vec![1, 1]));
    assert!(m.dpcm);
    assert_eq!(m.y_mode, 2);
}

#[test]
fn lines_palettes_and_data_driven_modes() {
    let mut fi = info();
    fi.mrls = true;
    fi.allow_screen_content_tools = true;
    fi.intra_dip = true;
    let (a, mut l) = plain();
    l.midx[5] = 20;
    let b = at(4, 4, BlockSize::Bs16x16);
    let near = find_sb_neighbours(&fi, &b);
    let m = read_luma_mode(&fi, &b, false, &a, &l, &mut MsacContext::new(vec![0, 5]));
    assert_eq!(read_mrl(&fi, &m, &near, &a, &l, &mut MsacContext::new(vec![2, 1])), (2, 1));
    assert_eq!(read_palette_size(&fi, b.bs, 0, &mut MsacContext::new(vec![1, 3])), 5);
    assert_eq!(read_palette_size(&fi, b.bs, 1, &mut MsacContext::new(vec![1, 3])), 0);
    let dip = read_dip(&fi, b.bs, 0, 0, &near, &a, &l, &mut MsacContext::new(vec![1, 1, 4]));
    assert_eq!(dip, 16 + 5);
}

#[test]
fn chroma_modes_by_index() {
    let mut fi = info();
    let (a, l) = plain();
    let bs = BlockSize::Bs16x16;
    let read = |fi: &SbFrameInfo, midx: u8, replies: Vec<u32>| {
        read_chroma_mode(fi, bs, bs, 4, 4, false, false, midx, &a, &l, &mut MsacContext::new(replies))
    };
    let same = read(&fi, 20, vec![0]).unwrap();
    assert_eq!((same.uv_mode, same.uv_angle), (1, 3));
    let second = read(&fi, 0xff, vec![1]).unwrap();
    assert_eq!(second.uv_mode, 9);
    assert!(read(&fi, 20, vec![7, 7]).is_none());
    fi.cfl = true;
    let scaled = read(&fi, 20, vec![1, 0, 3, 2, 0]).unwrap();
    assert_eq!(scaled.uv_mode, CFL_PRED);
    assert_eq!((scaled.alpha_u, scaled.alpha_v), (-3, -1));
}

#[test]
fn candidates_and_signs() {
    let kind = DrlKind::Plain(0);
    assert_eq!(read_drl_index(kind, 0, 3, &mut MsacContext::new(vec![1, 1, 0])), 2);
    assert_eq!(read_drl_index(kind, 0, 3, &mut MsacContext::new(vec![1, 1, 1, 1])), 3);
    let mut rule = SignRule { derived: 2, odd: true, seen: 0 };
    let mut msac = MsacContext::new(vec![0]);
    let mv = read_signs(MvXY { y: 4, x: 6 }, &mut rule, &mut msac);
    assert_eq!(mv, MvXY { y: 4, x: -6 });
    assert_eq!(msac.pending(), None);
    assert!(is_odd_steps(8, 3) && !is_odd_steps(16, 3));
}

#[test]
fn references_by_elimination() {
    let none = NxInter { n: 0, p0: nb(-1, -1), p1: nb(-1, -1) };
    assert_eq!(read_single_ref(&none, 7, &mut MsacContext::new(vec![0, 0, 1])), 2);
    assert_eq!(read_single_ref(&none, 7, &mut MsacContext::new(Vec::new())), 6);
    let fi = info();
    let (a, l) = plain();
    let b = at(4, 4, BlockSize::Bs8x8);
    let near = find_sb_neighbours(&fi, &b);
    let x = read_compound(&fi, &b, &a, &l, &none, &near, &mut MsacContext::new(Vec::new()));
    assert_eq!((x.ref0, x.ref1), (2, 6));
    assert_eq!((x.inter_mode, x.comp_type), (NEAR_MV_NEAR_MV, 1));
}
