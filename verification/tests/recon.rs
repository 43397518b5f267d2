use rav2d::cflgeom::{plan_linear_cfl, plan_mh_cfl, MhDir};
use rav2d::chromatx::{
    inter_chroma_residual, next_chroma_request, recon_b_intra_chroma_phase, ChromaBlock,
    ChromaCoefs, ChromaTx,
};
use rav2d::coded::CodedGrid;
use rav2d::edges::{find_luma_bottom_left, find_luma_top_right, EdgeBounds};
use rav2d::env::BlockContext;
use rav2d::error::Rav2dError;
use rav2d::frameinfo::SbFrameInfo;
use rav2d::interintra::{iiblend_plane, BlendMask, BlendSite};
use rav2d::interplan::{
    is_warp_block, recon_b_inter, recon_b_inter_compound, BlendKind, InterBlock, InterFrame,
    InterStep,
};
use rav2d::intraplan::{recon_b_inter_split, recon_b_intra, CopyPart, IntraStep};
use rav2d::levels::{BlockSize, MotionMode, Mv, MvXY, TxPartition, CFL_PRED, GLOBAL_MV, NEW_MV};
use rav2d::lumatx::{recon_b_luma_tx, IntraTools, LumaBlock, RemappedAngle};
use rav2d::mcgeom::{inter_emu_edge, plan_mc, McSite, PadRegion};
use rav2d::residual::{
    change_type, inter_residual_tx, mix_planes, plan_stx, CoefReply, TxSite, TypeChange,
};
use rav2d::splat::{intra_entry, splat_oneref_mv};
use rav2d::splitblock::{split_block, ChromaPhase, ReconBlock};
use rav2d::txwalk::{inter_luma_tx_walk, raster_walk, TxSize};
use rav2d::warp::MvTile;
use rav2d::warpgeom::{ext_warp_plane, warp_affine_plane, WarpParams};

fn site(bx: i32, mvx: i32) -> McSite {
    McSite {
        bx,
        by: 8,
        bw4: 2,
        bh4: 2,
        mvx,
        mvy: 0,
        ss_hor: 0,
        ss_ver: 0,
        fw: 16,
        fh: 16,
    }
}

#[test]
fn whole_vectors_read_the_block_itself() {
    let p = plan_mc(&site(4, 16), 0);
    assert_eq!(p.hor.start, 18);
    assert_eq!(p.hor.len, 8);
    assert_eq!(p.hor.frac, 0);
    assert_eq!(p.padded, None);
    assert!(!p.bilinear);
}

#[test]
fn fractions_read_beyond_the_block() {
    let p = plan_mc(&site(0, 1), 3);
    assert_eq!(p.hor.frac, 2);
    assert!(p.bilinear);
    assert_eq!(
        p.padded,
        Some(PadRegion { x: -3, y: 32, w: 15, h: 8, plane_w: 64, plane_h: 64 })
    );
}

#[test]
fn chroma_vectors_count_sixteenths() {
    let mut s = site(4, -3);
    s.ss_hor = 1;
    s.ss_ver = 1;
    let p = plan_mc(&s, 0);
    assert_eq!(p.hor.start, 7);
    assert_eq!(p.hor.len, 4);
    assert_eq!(p.hor.frac, 13);
}

#[test]
fn padding_repeats_the_edges() {
    let src: Vec<u8> = vec![1, 2, 3, 4, 5, 6];
    let p = PadRegion { x: -1, y: -1, w: 5, h: 4, plane_w: 3, plane_h: 2 };
    let r = inter_emu_edge(&src, 3, &p);
    assert_eq!(
        r,
        vec![1, 1, 2, 3, 3, 1, 1, 2, 3, 3, 4, 4, 5, 6, 6, 4, 4, 5, 6, 6]
    );
}

fn warp_params(matrix: [i32; 6], bw4: i32, ss: i32) -> WarpParams {
    WarpParams {
        bx: 8,
        by: 8,
        bw4,
        bh4: bw4,
        ss_hor: ss,
        ss_ver: ss,
        fw: 64,
        fh: 64,
        matrix,
        abcd: [0; 4],
    }
}

#[test]
fn identity_warps_stay_in_place() {
    let r = warp_affine_plane(&warp_params([0, 0, 0x10000, 0, 0, 0x10000], 4, 0));
    assert_eq!(r.len(), 4);
    assert_eq!((r[0].x, r[0].y), (0, 0));
    assert_eq!((r[1].x, r[1].y), (8, 0));
    assert_eq!((r[2].x, r[2].y), (0, 8));
    assert_eq!((r[0].dx, r[0].dy), (32, 32));
    assert_eq!((r[3].dx, r[3].dy), (40, 40));
    assert_eq!((r[0].mx, r[0].my), (0, 0));
    assert_eq!(r[0].padded, None);
}

#[test]
fn shears_are_taken_off_the_fraction() {
    let mut p = warp_params([100, 0, 0x10000, 0, 0, 0x10000], 2, 0);
    p.abcd = [10, 0, 0, 0];
    let r = warp_affine_plane(&p);
    // 100 - 40 without its low six bits
    assert_eq!(r[0].mx, 0);
    p.matrix[0] = 200;
    assert_eq!(warp_affine_plane(&p)[0].mx, 128);
}

#[test]
fn general_warps_go_by_four() {
    let r = ext_warp_plane(&warp_params([0, 0, 0x10000, 0, 0, 0x10000], 2, 1));
    assert_eq!(r.len(), 1);
    assert_eq!((r[0].dx, r[0].dy), (16, 16));
    let r = ext_warp_plane(&warp_params([0, 0, 0x10000, 0, 0, 0x10000], 4, 0));
    assert_eq!(r.len(), 16);
    assert_eq!((r[1].x, r[1].y), (4, 0));
    assert_eq!((r[2].x, r[2].y), (0, 4));
    assert_eq!((r[4].x, r[4].y), (8, 0));
    assert_eq!(r[0].padded, None);
}

#[test]
fn warps_out_of_the_frame_are_padded() {
    let r = warp_affine_plane(&warp_params([-40 * 0x10000, 0, 0x10000, 0, 0, 0x10000], 2, 0));
    assert_eq!(r[0].dx, -8);
    assert_eq!(
        r[0].padded,
        Some(PadRegion { x: -11, y: 29, w: 15, h: 15, plane_w: 256, plane_h: 256 })
    );
}

#[test]
fn marks_stay_in_their_area() {
    let mut g = CodedGrid::new();
    g.mark(62, 0, 4, 2);
    assert!(g.is_coded(62, 1));
    assert!(g.is_coded(63, 0));
    assert!(!g.is_coded(0, 1));
    assert!(!g.is_coded(62, 2));
    assert_eq!(g.count_right(62, 0, 8), 2);
    assert_eq!(g.count_down(63, 0, 8), 2);
    g.clear();
    assert!(!g.is_coded(62, 1));
}

fn bounds() -> EdgeBounds {
    EdgeBounds { col_start: 0, col_end: 64, row_start: 0, row_end: 64, sb_step: 16 }
}

#[test]
fn surroundings_of_a_transform_block() {
    let mut g = CodedGrid::new();
    let t = bounds();
    assert_eq!(find_luma_top_right(&g, &t, 4, 0, 2, false), 0);
    assert_eq!(find_luma_top_right(&g, &t, 4, 16, 2, false), 2);
    assert_eq!(find_luma_top_right(&g, &t, 4, 4, 2, false), 0);
    g.mark(4, 0, 3, 4);
    assert_eq!(find_luma_top_right(&g, &t, 4, 4, 2, false), 1);
    assert_eq!(find_luma_top_right(&g, &t, 4, 4, 2, true), 0);
    assert_eq!(find_luma_bottom_left(&g, &t, 16, 4, 2, false), 2);
    assert_eq!(find_luma_bottom_left(&g, &t, 0, 4, 2, false), 0);
}

fn reply(eob: i32, txtp: u16) -> CoefReply {
    CoefReply { eob, txtp, res_ctx: 7 }
}

fn tx_site(bx: i32, by: i32, n: i32) -> TxSite {
    TxSite { t: TxSize { w: n, h: n }, bx, by, fw: 16, fh: 16 }
}

#[test]
fn secondary_transforms_by_size() {
    let small = plan_stx(2, TxSize { w: 1, h: 4 }, true).unwrap();
    assert!(!small.eight);
    assert_eq!((small.kernel, small.offset, small.scan, small.eob), (1, 128, 2, 51));
    let large = plan_stx(4 + 3, TxSize { w: 2, h: 2 }, false).unwrap();
    assert!(large.eight);
    assert_eq!((large.kernel, large.offset, large.scan, large.eob), (5, 5 * 1536, 0, 63));
    assert_eq!(plan_stx(8, TxSize { w: 2, h: 2 }, false), None);
}

#[test]
fn transform_types_change() {
    assert_eq!(change_type(5, TypeChange::Keep), 5);
    assert_eq!(change_type(5, TypeChange::Dpcm(false)), 261);
    assert_eq!(change_type(5, TypeChange::Dpcm(true)), 517);
    assert_eq!(change_type(6, TypeChange::Ddt(4)), 10);
}

#[test]
fn residuals_of_moved_blocks() {
    let (mut a, mut l) = (BlockContext::default(), BlockContext::default());
    let mut g = CodedGrid::new();
    let mut types = [0u16; 256];
    let s = tx_site(14, 2, 4);
    let r = inter_residual_tx(
        &s, false, &reply(10, 3), None, &mut a, &mut l, &mut g, &mut types,
    );
    let p = r.unwrap().unwrap();
    assert_eq!((p.eob, p.txtp), (10, 3));
    assert_eq!(p.stx, None);
    // Only two of the four units lie in the frame.
    assert_eq!((a.lcoef[13], a.lcoef[14], a.lcoef[15], a.lcoef[16]), (0, 7, 7, 0));
    assert_eq!((l.lcoef[2], l.lcoef[5], l.lcoef[6]), (7, 7, 0));
    assert!(g.is_coded(17, 5));
    assert_eq!(types[2 * 16 + 14], 3);
    assert_eq!(types[2 * 16 + 13], 0);
}

#[test]
fn skipped_residuals_leave_their_mark() {
    let (mut a, mut l) = (BlockContext::default(), BlockContext::default());
    let mut g = CodedGrid::new();
    let mut types = [9u16; 256];
    let s = tx_site(0, 0, 1);
    let r = inter_residual_tx(
        &s, true, &reply(i32::MIN, 3), None, &mut a, &mut l, &mut g, &mut types,
    );
    assert_eq!(r, Ok(None));
    assert_eq!(a.lcoef[0], 0x40);
    assert_eq!(types[0], 9);
}

#[test]
fn unreadable_coefficients_are_an_error() {
    let (mut a, mut l) = (BlockContext::default(), BlockContext::default());
    let mut g = CodedGrid::new();
    let mut types = [0u16; 256];
    let s = tx_site(0, 0, 1);
    let r = inter_residual_tx(
        &s, false, &reply(i32::MIN, 3), None, &mut a, &mut l, &mut g, &mut types,
    );
    assert_eq!(r, Err(Rav2dError::InvalidData));
    assert!(!g.is_coded(0, 0));
}

#[test]
fn mixed_planes_share_type_and_end() {
    let m = mix_planes(true, 0, &reply(3, 0x205), &reply(9, 1));
    assert_eq!((m.angle, m.eob, m.txtp), (2, (9, 9), (5, 5)));
    let m = mix_planes(false, 0, &reply(3, 0x205), &reply(9, 1));
    assert_eq!((m.angle, m.eob, m.txtp), (0, (3, 9), (0x205, 1)));
    let m = mix_planes(true, 1, &reply(0, 0x205), &reply(9, 1));
    assert_eq!(m.angle, 0);
}

fn luma_block() -> LumaBlock {
    LumaBlock {
        intrabc: false,
        skip_txfm: false,
        y_mode: 0,
        y_angle: 0,
        mrl_index: 0,
        multi_mrl: false,
        tx_part: TxPartition::Whole,
        dip: 0,
        pal_sz: 0,
        sm_top: true,
        sm_left: false,
        lossless: false,
        dpcm: false,
        pb_col_start: 0,
        pb_row_start: 0,
    }
}

fn tools() -> IntraTools {
    IntraTools { ibp: true, edge_filter: true, ddt: None }
}

fn luma(b: &LumaBlock, s: &TxSite, c: &CoefReply) -> rav2d::lumatx::LumaTxPlan {
    let (mut a, mut l) = (BlockContext::default(), BlockContext::default());
    let mut g = CodedGrid::new();
    let m = RemappedAngle { mode: b.y_mode, angle: 3 };
    recon_b_luma_tx(b, &tools(), s, &bounds(), &m, c, &mut a, &mut l, &mut g).unwrap()
}

#[test]
fn the_first_block_of_a_tile_has_no_neighbours() {
    let p = luma(&luma_block(), &tx_site(0, 0, 2), &reply(-1, 0));
    let i = p.prediction.unwrap();
    assert_eq!((i.n_tr, i.n_bl), (0, 0));
    assert!(!i.flags.has_left && !i.flags.has_top);
    assert_eq!((i.max_w, i.max_h), (64, 64));
    assert_eq!(i.angle, 3);
    assert!(i.flags.ibp && i.flags.smooth_top && !i.flags.smooth_left);
    assert_eq!(p.residual, None);
}

#[test]
fn small_blocks_are_not_blended() {
    let p = luma(&luma_block(), &tx_site(4, 4, 1), &reply(2, 0));
    let i = p.prediction.unwrap();
    assert!(!i.flags.ibp);
    assert!(i.flags.smooth_top && i.flags.smooth_left);
    assert!(i.flags.has_left && i.flags.has_top);
}

#[test]
fn data_driven_predictors_replace_the_angle() {
    let mut b = luma_block();
    b.dip = 4;
    let i = luma(&b, &tx_site(4, 4, 2), &reply(2, 0)).prediction.unwrap();
    assert_eq!(i.angle, 3);
    b.dip = 3;
    let i = luma(&b, &tx_site(4, 4, 2), &reply(2, 0)).prediction.unwrap();
    assert_eq!(i.angle, 2);
    assert!(i.flags.dip);
}

#[test]
fn copies_are_not_predicted() {
    let mut b = luma_block();
    b.intrabc = true;
    assert_eq!(luma(&b, &tx_site(4, 4, 2), &reply(2, 0)).prediction, None);
}

#[test]
fn lossless_differences_change_the_type() {
    let mut b = luma_block();
    b.lossless = true;
    b.dpcm = true;
    b.y_mode = 1;
    let r = luma(&b, &tx_site(4, 4, 1), &reply(2, 1)).residual.unwrap();
    assert_eq!(r.txtp, 513);
}

fn chroma_tx() -> ChromaTx {
    ChromaTx {
        t: TxSize { w: 1, h: 1 },
        cbx: 4,
        cby: 4,
        cbw4: 4,
        cbh4: 2,
        ss_hor: 1,
        ss_ver: 1,
        fw: 16,
        fh: 16,
    }
}

#[test]
fn chroma_planes_are_read_one_after_the_other() {
    let p = chroma_tx();
    let mut replies: Vec<CoefReply> = Vec::new();
    let r = next_chroma_request(&p, &replies).unwrap();
    assert_eq!((r.plane, r.tile.x, r.u_has_cf), (1, 0, false));
    replies.push(reply(4, 0));
    let r = next_chroma_request(&p, &replies).unwrap();
    assert_eq!((r.plane, r.tile.x, r.u_has_cf), (1, 1, true));
    replies.push(reply(-1, 0));
    let r = next_chroma_request(&p, &replies).unwrap();
    assert_eq!((r.plane, r.tile.x, r.u_has_cf), (2, 0, false));
    replies.push(reply(-1, 0));
    replies.push(reply(-1, 0));
    assert_eq!(next_chroma_request(&p, &replies), None);
}

#[test]
fn chroma_of_moved_blocks() {
    let p = chroma_tx();
    let (mut a, mut l) = (BlockContext::default(), BlockContext::default());
    let mut g = CodedGrid::new();
    let replies = [reply(4, 0x105), reply(-1, 0), reply(2, 1), reply(3, 2)];
    let r = inter_chroma_residual(&p, false, true, None, &replies, &mut a, &mut l, &mut g).unwrap();
    assert_eq!(r.len(), 2);
    assert_eq!(r[0].angle, 1);
    assert_eq!(r[0].u.unwrap().eob, 4);
    assert_eq!(r[0].v.unwrap().txtp, 5);
    assert_eq!(r[1].angle, 0);
    assert_eq!(r[1].u, None);
    assert_eq!(r[1].v.unwrap().eob, 3);
    assert_eq!((a.ccoef[0][1], a.ccoef[0][2], a.ccoef[0][3]), (0, 7, 7));
    assert!(g.is_coded(2, 2) && g.is_coded(3, 2) && !g.is_coded(4, 2));
    let bad = [reply(4, 0), reply(i32::MIN, 0), reply(2, 1), reply(3, 2)];
    let e = inter_chroma_residual(&p, false, true, None, &bad, &mut a, &mut l, &mut g);
    assert!(e.is_err());
}

fn chroma_block(mode: u8) -> ChromaBlock {
    ChromaBlock {
        is_intra: true,
        intrabc: false,
        sdp_active: false,
        skip_txfm: false,
        uv_mode: mode,
        sm_top: false,
        sm_left: false,
        lossless: false,
        dpcm: false,
        cctx: true,
    }
}

#[test]
fn chroma_can_be_read_ahead() {
    let p = chroma_tx();
    let b = chroma_block(2);
    let m = RemappedAngle { mode: 2, angle: 0 };
    let replies = [reply(4, 0x105), reply(-1, 0), reply(2, 1), reply(3, 2)];
    let (mut a, mut l) = (BlockContext::default(), BlockContext::default());
    let mut g = CodedGrid::new();
    let mut stash = ChromaCoefs { u: Vec::new(), v: Vec::new() };
    let both = recon_b_intra_chroma_phase(
        &b, &tools(), &p, &bounds(), &m, ChromaPhase::Both, &replies, &mut stash, &mut a, &mut l,
        &mut g,
    )
    .unwrap()
    .unwrap();
    let mut g = CodedGrid::new();
    let read = recon_b_intra_chroma_phase(
        &b, &tools(), &p, &bounds(), &m, ChromaPhase::ReadOnly, &replies, &mut stash, &mut a,
        &mut l, &mut g,
    )
    .unwrap();
    assert!(read.is_none());
    assert!(!g.is_coded(2, 2));
    let later = recon_b_intra_chroma_phase(
        &b, &tools(), &p, &bounds(), &m, ChromaPhase::ReconOnly, &[], &mut stash, &mut a, &mut l,
        &mut g,
    )
    .unwrap()
    .unwrap();
    assert_eq!(both.tus, later.tus);
    assert!(!both.cfl);
    assert_eq!(both.tus[0].angle, 1);
    assert_eq!(both.tus[0].prediction.unwrap().mode, 2);
    assert_eq!(both.tus[0].prediction.unwrap().max_w, 48);
    assert!(g.is_coded(2, 2));
}

#[test]
fn chroma_from_luma_comes_first() {
    let p = chroma_tx();
    let b = chroma_block(CFL_PRED);
    let m = RemappedAngle { mode: 12, angle: 0 };
    let replies = [reply(-1, 0), reply(-1, 0), reply(-1, 0), reply(-1, 0)];
    let (mut a, mut l) = (BlockContext::default(), BlockContext::default());
    let mut g = CodedGrid::new();
    let mut stash = ChromaCoefs { u: Vec::new(), v: Vec::new() };
    let r = recon_b_intra_chroma_phase(
        &b, &tools(), &p, &bounds(), &m, ChromaPhase::Both, &replies, &mut stash, &mut a, &mut l,
        &mut g,
    )
    .unwrap()
    .unwrap();
    assert!(r.cfl);
    assert_eq!(r.tus[0].prediction, None);
}

#[test]
fn copied_chroma_without_coefficients() {
    let p = chroma_tx();
    let mut b = chroma_block(0);
    b.intrabc = true;
    b.skip_txfm = true;
    let m = RemappedAngle { mode: 0, angle: 0 };
    let (mut a, mut l) = (BlockContext::default(), BlockContext::default());
    let mut g = CodedGrid::new();
    let mut stash = ChromaCoefs { u: Vec::new(), v: Vec::new() };
    let r = recon_b_intra_chroma_phase(
        &b, &tools(), &p, &bounds(), &m, ChromaPhase::Both, &[], &mut stash, &mut a, &mut l,
        &mut g,
    )
    .unwrap()
    .unwrap();
    assert_eq!(r.tus[0].u, None);
    assert_eq!((a.ccoef[1][2], a.ccoef[1][3], a.ccoef[1][4]), (0x40, 0x40, 0));
    let e = recon_b_intra_chroma_phase(
        &chroma_block(0), &tools(), &p, &bounds(), &m, ChromaPhase::Both,
        &[reply(i32::MIN, 0), reply(0, 0), reply(0, 0), reply(0, 0)], &mut stash, &mut a, &mut l,
        &mut g,
    );
    assert!(e.is_err());
    let n = recon_b_intra_chroma_phase(
        &chroma_block(0), &tools(), &p, &bounds(), &m, ChromaPhase::Nothing, &[], &mut stash,
        &mut a, &mut l, &mut g,
    );
    assert!(n.unwrap().is_none());
}

#[test]
fn linear_fits() {
    let mut p = chroma_tx();
    p.t = TxSize { w: 2, h: 1 };
    let r = plan_linear_cfl(&p, &bounds(), true);
    assert!(r.edges.has_top && r.edges.has_left && !r.edges.top_sb_edge);
    assert_eq!((r.rows_above, r.wpad, r.hpad), (2, 0, 0));
    p.cby = 16;
    p.fh = 32;
    assert_eq!(plan_linear_cfl(&p, &bounds(), false).rows_above, 1);
}

#[test]
fn fits_across_lines() {
    let mut p = chroma_tx();
    p.t = TxSize { w: 2, h: 1 };
    let mut g = CodedGrid::new();
    let r = plan_mh_cfl(&p, &bounds(), &g, MhDir::Center);
    // Two units, and two samples on the left.
    assert_eq!((r.refw, r.refh, r.subleft, r.stride, r.n_top), (10, 4, 1, 64, 1));
    g.mark(4, 1, 1, 1);
    let r = plan_mh_cfl(&p, &bounds(), &g, MhDir::Left);
    assert_eq!((r.refw, r.subleft), (14, 0));
    assert_eq!(plan_mh_cfl(&p, &bounds(), &g, MhDir::Top).n_top, 2);
    p.cbx = 0;
    p.cby = 0;
    let r = plan_mh_cfl(&p, &bounds(), &g, MhDir::Center);
    assert_eq!((r.refw, r.refh, r.subleft, r.n_top), (8, 4, 0, 0));
}

#[test]
fn blends_with_intra_prediction() {
    let g = CodedGrid::new();
    let s = BlendSite {
        chroma: false,
        bx: 4,
        by: 4,
        bw4: 2,
        bh4: 2,
        ss_hor: 0,
        ss_ver: 0,
        fw: 16,
        fh: 16,
    };
    let r = iiblend_plane(&g, &bounds(), &s, 3, -1, true);
    assert_eq!(r.intra.mode, 9);
    assert_eq!(r.intra.angle, 0);
    assert_eq!((r.intra.n_tr, r.intra.n_bl), (0, 0));
    assert_eq!(r.mask, BlendMask::Mode(3));
    assert!(r.intra.flags.ibp);
    let mut g = CodedGrid::new();
    g.mark(6, 3, 1, 1);
    g.mark(3, 6, 1, 1);
    let r = iiblend_plane(&g, &bounds(), &s, 3, 5, true);
    assert_eq!((r.intra.n_tr, r.intra.n_bl), (1, 1));
    assert_eq!(r.mask, BlendMask::Wedge(5));
    let r = iiblend_plane(&g, &bounds(), &s, 2, -1, false);
    assert_eq!((r.intra.mode, r.intra.angle, r.intra.n_tr), (2, 180, 0));
}

fn mv(y: i32, x: i32) -> Mv {
    Mv { c: MvXY { y, x } }
}

fn inter_block() -> InterBlock {
    InterBlock {
        refs: [2, -1],
        mv: [mv(8, 16), mv(0, 0)],
        filter: 1,
        comp_type: 0,
        cwp_idx: 8,
        wedge_idx: -1,
        wedge_sign: 0,
        mask_sign: 0,
        inter_mode: NEW_MV,
        motion_mode: MotionMode::Translation as u8,
        warp_ii: false,
        local_warp: false,
        local_affine: false,
    }
}

fn inter_frame() -> InterFrame {
    InterFrame {
        force_integer_mv: false,
        imp_msk_bld: true,
        present: [true; 7],
        scaled: [false; 7],
        global_warp: [true; 7],
        global_affine: [true; 7],
        ss_hor: 1,
        ss_ver: 1,
        fw: 32,
        fh: 32,
    }
}

fn block(lbs: BlockSize, cbs: BlockSize) -> ReconBlock {
    ReconBlock { bx: 4, by: 4, cbx: 4, cby: 4, lbs, cbs }
}

fn still_tile() -> MvTile {
    let unit = intra_entry(BlockSize::Bs4x4);
    MvTile { r: vec![unit; 64 * 128], ra: vec![unit; 64], ra_off: 0, ra_tl: unit }
}

#[test]
fn shifted_blocks() {
    let k = block(BlockSize::Bs16x16, BlockSize::Bs16x16);
    let r = recon_b_inter(&info(), &inter_block(), &inter_frame(), &k, &still_tile(), &[]);
    assert_eq!(r.len(), 5);
    match r[0] {
        InterStep::Shift(p) => {
            assert_eq!((p.plane, p.ref_idx, p.bw4, p.mv.x, p.filter), (0, 2, 4, 16, 1));
        }
        _ => panic!("no shift"),
    }
    assert_eq!(r[1], InterStep::LumaResidual);
    assert_eq!(r[4], InterStep::ChromaResidual);
}

#[test]
fn blocks_without_a_picture_are_left_alone() {
    let k = block(BlockSize::Bs16x16, BlockSize::Bs16x16);
    let mut f = inter_frame();
    f.present[2] = false;
    assert_eq!(recon_b_inter(&info(), &inter_block(), &f, &k, &still_tile(), &[]).len(), 0);
    let mut b = inter_block();
    b.refs[0] = 7;
    assert_eq!(recon_b_inter(&info(), &b, &inter_frame(), &k, &still_tile(), &[]).len(), 0);
}

#[test]
fn warped_blocks() {
    let k = block(BlockSize::Bs8x8, BlockSize::Bs8x8);
    let mut b = inter_block();
    b.inter_mode = GLOBAL_MV;
    assert!(is_warp_block(&b, &inter_frame(), BlockSize::Bs8x8));
    assert!(!is_warp_block(&b, &inter_frame(), BlockSize::Bs4x8));
    let r = recon_b_inter(&info(), &b, &inter_frame(), &k, &still_tile(), &[]);
    match (r[0], r[2]) {
        (InterStep::Warp(y), InterStep::Warp(u)) => {
            assert!(y.affine && !y.local);
            // Four samples of chroma are too few for the affine kernel.
            assert!(!u.affine);
        }
        _ => panic!("no warp"),
    }
}

#[test]
fn blended_blocks() {
    let k = block(BlockSize::Bs8x8, BlockSize::Bs8x8);
    let mut b = inter_block();
    b.motion_mode = MotionMode::InterIntra as u8;
    let r = recon_b_inter(&info(), &b, &inter_frame(), &k, &still_tile(), &[]);
    assert_eq!(r[1], InterStep::BlendIntra(0, BlockSize::Bs8x8, false));
    assert_eq!(r[5], InterStep::BlendIntra(1, BlockSize::Bs8x8, true));
}

#[test]
fn chroma_follows_the_blocks_under_it() {
    let mut t = still_tile();
    let warp = rav2d::headers::WarpedMotionParams {
        wm_type: rav2d::headers::WarpedMotionType::Identity,
        matrix: [0; 6],
    };
    let (_, e) = splat_oneref_mv(
        BlockSize::Bs4x4,
        3,
        mv(1, 2),
        2,
        false,
        NEW_MV,
        rav2d::headers::WarpedMotionType::Identity,
        &warp,
    );
    t.r[4 * 128 + 5] = e;
    let k = block(BlockSize::Bs4x4, BlockSize::Bs8x8);
    let r = recon_b_inter(&info(), &inter_block(), &inter_frame(), &k, &t, &[]);
    assert_eq!(r.len(), 5);
    match r[2] {
        InterStep::Shift(p) => {
            assert_eq!((p.plane, p.ref_idx, p.bx, p.by, p.bw4), (1, 3, 5, 4, 1));
            assert_eq!((p.mv.y, p.mv.x, p.filter), (1, 2, 2));
        }
        _ => panic!("no shift"),
    }
}

#[test]
fn large_moved_blocks_are_built_in_parts() {
    let k = block(BlockSize::Bs128x128, BlockSize::Bs128x128);
    let r = recon_b_inter(&info(), &inter_block(), &inter_frame(), &k, &still_tile(), &[]);
    let luma = r.iter().filter(|s| **s == InterStep::LumaResidual).count();
    let chroma = r.iter().filter(|s| **s == InterStep::ChromaResidual).count();
    assert_eq!((luma, chroma), (4, 1));
    match (r[0], r[5]) {
        (InterStep::Shift(a), InterStep::Shift(b)) => {
            assert_eq!((a.bx, a.by, a.bw4), (k.bx, k.by, 16));
            assert_eq!((b.bx, b.by, b.bw4), (k.bx + 16, k.by, 16));
        }
        _ => panic!("no shift"),
    }
    let mut b = inter_block();
    b.refs[1] = 1;
    b.comp_type = 1;
    let r = recon_b_inter(&info(), &b, &inter_frame(), &k, &still_tile(), &[false, true]);
    let masks: Vec<usize> = (0..r.len())
        .filter(|i| r[*i] == InterStep::Blend(0, BlendKind::OutsideMask))
        .collect();
    assert_eq!(masks.len(), 1);
}

#[test]
fn blends_of_two_references() {
    let k = block(BlockSize::Bs8x8, BlockSize::Bs8x8);
    let mut b = inter_block();
    b.refs = [1, 4];
    b.comp_type = 1;
    let f = inter_frame();
    let kind = |b: &InterBlock, outside: bool| -> (BlendKind, BlendKind) {
        let r = recon_b_inter_compound(b, &f, &k, outside);
        assert_eq!(r.len(), 11);
        match (r[2], r[6]) {
            (InterStep::Blend(0, y), InterStep::Blend(1, u)) => (y, u),
            _ => panic!("no blend"),
        }
    };
    assert_eq!(kind(&b, false), (BlendKind::Average, BlendKind::Average));
    assert_eq!(kind(&b, true), (BlendKind::OutsideMask, BlendKind::OutsideMask));
    b.cwp_idx = -4;
    assert_eq!(kind(&b, true), (BlendKind::Weighted(-4), BlendKind::Weighted(-4)));
    b.cwp_idx = 12;
    assert_eq!(kind(&b, true), (BlendKind::Weighted(12), BlendKind::Weighted(12)));
    b.comp_type = 2;
    b.wedge_sign = 1;
    assert_eq!(kind(&b, true), (BlendKind::Wedge(true), BlendKind::Wedge(true)));
    b.comp_type = 3;
    assert_eq!(kind(&b, true), (BlendKind::DeriveMask(false), BlendKind::Mask(false)));
}

fn info() -> SbFrameInfo {
    SbFrameInfo { bw: 64, bh: 64, ss_hor: 1, ss_ver: 1, ..Default::default() }
}

#[test]
fn copies_come_before_what_is_added() {
    let k = block(BlockSize::Bs8x8, BlockSize::Bs8x8);
    let v = MvXY { y: -64, x: 0 };
    let r = recon_b_intra(&info(), &k, Some(v));
    assert_eq!(r.len(), 5);
    assert_eq!(
        r[0],
        IntraStep::Copy(CopyPart { plane: 0, bx: 4, by: 4, bs: BlockSize::Bs8x8, mv: v })
    );
    assert_eq!(r[1], IntraStep::Luma(4, 4, BlockSize::Bs8x8));
    assert_eq!(r[4], IntraStep::Chroma(ChromaPhase::Both, 4, 4, BlockSize::Bs8x8, false));
    assert_eq!(recon_b_intra(&info(), &k, None).len(), 2);
}

#[test]
fn large_blocks_are_built_in_parts() {
    let k = ReconBlock {
        bx: 0,
        by: 0,
        cbx: 0,
        cby: 0,
        lbs: BlockSize::Bs128x128,
        cbs: BlockSize::Bs128x128,
    };
    let parts = split_block(&info(), &k);
    assert_eq!(parts.len(), 4);
    let phases: Vec<ChromaPhase> = parts.iter().map(|p| p.phase).collect();
    assert_eq!(
        phases,
        vec![
            ChromaPhase::ReadOnly,
            ChromaPhase::Nothing,
            ChromaPhase::Nothing,
            ChromaPhase::ReconOnly
        ]
    );
    let r = recon_b_intra(&info(), &k, None);
    assert_eq!(r.len(), 6);
    let q = recon_b_inter_split(&info(), &k);
    assert_eq!(q.len(), 4);
    assert_eq!(q[0].cbs, BlockSize::Bs128x128);
    assert_eq!(q[3].cbs, BlockSize::Invalid);
    assert_eq!((q[3].bx, q[3].by), (16, 16));
}

#[test]
fn transform_blocks_in_order() {
    let (t, big) = (TxSize { w: 2, h: 1 }, TxSize { w: 4, h: 2 });
    let r = inter_luma_tx_walk(TxPartition::H5, t, big, 0, 0, 64, 64);
    let at: Vec<(i32, i32)> = r.iter().map(|t| (t.x, t.y)).collect();
    assert_eq!(at, vec![(0, 0), (2, 0), (0, 1), (0, 3), (2, 3)]);
    let r = inter_luma_tx_walk(TxPartition::H5, t, big, 0, 0, 2, 3);
    assert_eq!(r.len(), 2);
    let r = raster_walk(TxSize { w: 1, h: 1 }, 0, 0, 2, 2, 64, 64);
    assert_eq!(r.len(), 4);
    assert_eq!((r[1].x, r[1].y), (1, 0));
}
