use rav2d::env::{
    fix_int_mv_precision, fix_mv_precision, get_gmv_2d, get_intra_ctx, get_poc_diff,
    get_warpmv_2d, mv_reduce_prec, sm_flag, sm_uv_flag, warp_type, BlockContext, SBEdgeCtx,
};
use rav2d::headers::{MvHeader, WarpedMotionParams, WarpedMotionType};
use rav2d::levels::MvXY;

#[test]
fn test_get_poc_diff() {
    assert_eq!(get_poc_diff(0, 10, 5), 0);
    assert_eq!(get_poc_diff(4, 10, 5), 5);
    assert_eq!(get_poc_diff(4, 5, 10), -5);
}

#[test]
fn poc_diff_wraps() {
    assert_eq!(get_poc_diff(4, 1, 15), 2);
    assert_eq!(get_poc_diff(4, 15, 1), -2);
    assert_eq!(get_poc_diff(4, 8, 0), -8);
}

#[test]
fn test_fix_int_mv_precision() {
    let mut mv = MvXY { x: 13, y: -5 };
    fix_int_mv_precision(&mut mv);
    assert_eq!(mv.x & 7, 0);
    assert_eq!(mv.y & 7, 0);
}

#[test]
fn int_mv_values() {
    let mut mv = MvXY { x: 13, y: -5 };
    fix_int_mv_precision(&mut mv);
    assert_eq!((mv.x, mv.y), (16, -8));
}

#[test]
fn quarter_mv_values() {
    let hdr = MvHeader { force_integer_mv: 0, mv_precision: 2 };
    let mut mv = MvXY { x: 13, y: -13 };
    fix_mv_precision(&hdr, &mut mv);
    assert_eq!(mv.x % 2, 0);
    assert_eq!(mv.y % 2, 0);
    assert!((mv.x - 13).abs() <= 1 && (mv.y + 13).abs() <= 1);
    let fine = MvHeader { force_integer_mv: 0, mv_precision: 3 };
    let mut same = MvXY { x: 13, y: -13 };
    fix_mv_precision(&fine, &mut same);
    assert_eq!(same, MvXY { x: 13, y: -13 });
}

#[test]
fn test_mv_reduce_prec_noop() {
    let mut mv = MvXY { x: 100, y: -200 };
    let orig = mv;
    mv_reduce_prec(&mut mv, 6);
    assert_eq!(mv.x, orig.x);
    assert_eq!(mv.y, orig.y);
}

#[test]
fn reduced_mv_is_a_multiple() {
    for prec in 0..6 {
        let mut mv = MvXY { x: 101, y: -203 };
        mv_reduce_prec(&mut mv, prec);
        assert_eq!(mv.x % (1 << (6 - prec)), 0);
        assert_eq!(mv.y % (1 << (6 - prec)), 0);
    }
}

#[test]
fn test_warp_type_identity() {
    let mtx = [0, 0, 0x10000, 0, 0, 0x10000];
    assert_eq!(warp_type(&mtx), WarpedMotionType::Identity);
}

#[test]
fn test_warp_type_translation() {
    let mtx = [100, 200, 0x10000, 0, 0, 0x10000];
    assert_eq!(warp_type(&mtx), WarpedMotionType::Translation);
}

#[test]
fn test_warp_type_rotzoom() {
    let mtx = [0, 0, 0x10100, 0x100, -0x100, 0x10100];
    assert_eq!(warp_type(&mtx), WarpedMotionType::RotZoom);
}

#[test]
fn test_warp_type_affine() {
    let mtx = [0, 0, 0x10100, 0x100, 0x50, 0x10200];
    assert_eq!(warp_type(&mtx), WarpedMotionType::Affine);
}

#[test]
fn identity_does_not_move() {
    let m = [0, 0, 0x10000, 0, 0, 0x10000];
    let mv = get_warpmv_2d(&m, 4, 8, 2, 2, 100, 100, 3);
    assert_eq!((mv.y, mv.x), (0, 0));
    let gmv = WarpedMotionParams { wm_type: WarpedMotionType::Identity, matrix: m };
    let hdr = MvHeader { force_integer_mv: 0, mv_precision: 3 };
    let g = get_gmv_2d(&gmv, 4, 8, 2, 2, 100, 100, &hdr);
    assert_eq!((g.y, g.x), (0, 0));
}

#[test]
fn test_block_context_default() {
    let bc = BlockContext::default();
    assert_eq!(bc.intra[0], 0);
    assert_eq!(bc.refs[0][0], 0);
}

#[test]
fn smooth_modes() {
    let mut bc = BlockContext::default();
    for m in 0..13u8 {
        bc.mode[5] = m;
        bc.uvmode[6] = m;
        let smooth = (9..=11).contains(&m) as i32;
        assert_eq!(sm_flag(&bc, 5), smooth);
        assert_eq!(sm_uv_flag(&bc, 6), smooth);
    }
}

#[test]
fn edge_context_default() {
    let mut intra = BlockContext::default();
    intra.intra[3] = 1;
    intra.intra[4] = 1;
    let inter = BlockContext::default();
    let _edge = SBEdgeCtx::default();
    assert_eq!(get_intra_ctx([&intra, &inter], [3, 3], 2), 3);
    assert_eq!(get_intra_ctx([&intra, &intra], [3, 3], 2), 4);
    assert_eq!(get_intra_ctx([&intra, &intra], [3, 3], 0), 0);
}
