use rav2d::block::{reset_context, Av2Block};
use rav2d::dsp::N_SWITCHABLE_FILTERS;
use rav2d::env::BlockContext;
use rav2d::frame::{init_quant_tables, DqTable};
use rav2d::headers::{FrameHeader, MAX_SEGMENTS};
use rav2d::levels::{BlockSize, MvXY, TxPartition};
use rav2d::msac::{Cdf, MsacContext, Request};
use rav2d::mvread::{
    decode_4way, read_amvd, read_amvd_raw, read_mv_full, read_mv_residual, read_wedge_idx,
};
use rav2d::mvscale::{affine_lowest_px, jmvd_scale, mc_lowest_px, ScalableMotionParams};
use rav2d::pal::read_pal_indices;
use rav2d::segid::{get_prev_frame_segid, neg_deinterleave};
use rav2d::tables::{
    DEFAULT_MODE_LIST_UV, DEFAULT_MODE_LIST_Y, INTRA_DIR_MODE_Y_TO_UV_IDX, MV_PREC_TBL,
    PARTITION_SUBB_CTX, PARTITION_SUBB_PART, REORDERED_DIR_Y_MODE, REORDERED_NONDIR_Y_MODE,
    SIZE_GROUP, SS_SIZE_MUL, TX_PART_GROUP, WEDGE_ANGLE_DIST2IDX,
};
use rav2d::txpart::read_tx_part;

fn make_msac(byte: u32, n: usize) -> MsacContext {
    MsacContext::new(vec![byte; n])
}

fn make_dq_table() -> DqTable {
    let mut steps: Vec<u32> = Vec::new();
    for q in 0..512u32 {
        steps.push(32 + q);
    }
    DqTable { base: -64, steps }
}

#[test]
fn test_neg_deinterleave_zero_ref() {
    assert_eq!(neg_deinterleave(5, 0, 10), 5);
}

#[test]
fn test_neg_deinterleave_max_ref() {
    assert_eq!(neg_deinterleave(3, 9, 10), 10 - 3 - 1);
}

#[test]
fn test_neg_deinterleave_small_ref() {
    assert_eq!(neg_deinterleave(0, 3, 10), 3);
    assert_eq!(neg_deinterleave(1, 3, 10), 4);
    assert_eq!(neg_deinterleave(2, 3, 10), 2);
    assert_eq!(neg_deinterleave(3, 3, 10), 5);
    assert_eq!(neg_deinterleave(4, 3, 10), 1);
    assert_eq!(neg_deinterleave(5, 3, 10), 6);
    assert_eq!(neg_deinterleave(6, 3, 10), 0);
}

#[test]
fn test_neg_deinterleave_large_ref() {
    // 2*ref >= max
    assert_eq!(neg_deinterleave(0, 7, 10), 7);
    assert_eq!(neg_deinterleave(1, 7, 10), 8);
    assert_eq!(neg_deinterleave(2, 7, 10), 6);
}

#[test]
fn neg_deinterleave_is_a_permutation() {
    for r in 0..10 {
        let mut seen = [false; 10];
        for d in 0..10 {
            let v = neg_deinterleave(d, r, 10);
            assert!(!seen[v as usize]);
            seen[v as usize] = true;
        }
    }
}

#[test]
fn test_init_quant_tables_no_seg() {
    let mut hdr = FrameHeader::default();
    hdr.quant.yac = 100;
    hdr.quant.ydc_delta = 0;
    hdr.quant.uac_delta = 0;
    hdr.quant.udc_delta = 0;
    hdr.quant.vac_delta = 0;
    hdr.quant.vdc_delta = 0;
    hdr.segmentation.enabled = 0;

    let mut dq = [[[0u32; 2]; 3]; MAX_SEGMENTS];
    init_quant_tables(&hdr, &make_dq_table(), 100, &mut dq);

    assert!(dq[0][0][0] > 0);
    assert!(dq[0][0][1] > 0);
    assert_eq!(dq[0][0][0], dq[0][0][1]);
    // segments 1+ should be untouched
    assert_eq!(dq[1][0][0], 0);
}

#[test]
fn quant_tables_take_deltas() {
    let mut hdr = FrameHeader::default();
    hdr.quant.ydc_delta = -3;
    hdr.quant.vac_delta = 5;
    let mut dq = [[[0u32; 2]; 3]; MAX_SEGMENTS];
    let table = make_dq_table();
    init_quant_tables(&hdr, &table, 100, &mut dq);
    assert_eq!(dq[0][0][0], table.lookup(97));
    assert_eq!(dq[0][0][1], table.lookup(100));
    assert_eq!(dq[0][2][1], table.lookup(105));
}

#[test]
fn test_reset_context_keyframe() {
    let mut ctx = BlockContext::default();
    reset_context(&mut ctx, true, false);
    assert_eq!(ctx.tx_lpf_y[0], 3);
    assert_eq!(ctx.tx_lpf_uv[0], 2);
    assert_eq!(ctx.intra[0], 1);
    assert_eq!(ctx.mode[0], 0); // DC_PRED
    assert_eq!(ctx.lcoef[0], 0x40);
    assert_eq!(ctx.filter[0], N_SWITCHABLE_FILTERS as u8);
}

#[test]
fn test_reset_context_interframe() {
    let mut ctx = BlockContext::default();
    reset_context(&mut ctx, false, false);
    assert_eq!(ctx.intra[0], 0);
    assert_eq!(ctx.mode[0], 13); // NEARMV
    assert_eq!(ctx.refs[0][0], -1);
    assert_eq!(ctx.refs[1][0], -1);
}

#[test]
fn test_reset_context_tip_frame() {
    let mut ctx = BlockContext::default();
    ctx.midx[0] = 42;
    reset_context(&mut ctx, false, true);
    assert_eq!(ctx.tx_lpf_y[0], 3);
    // tip frame returns early, midx should be untouched
    assert_eq!(ctx.midx[0], 42);
}

#[test]
fn test_size_group_lookup() {
    assert_eq!(SIZE_GROUP[BlockSize::Bs4x4 as usize], 0);
    assert_eq!(SIZE_GROUP[BlockSize::Bs8x8 as usize], 1);
    assert_eq!(SIZE_GROUP[BlockSize::Bs16x16 as usize], 2);
    assert_eq!(SIZE_GROUP[BlockSize::Bs32x32 as usize], 3);
    assert_eq!(SIZE_GROUP[BlockSize::Bs256x256 as usize], 3);
}

#[test]
fn test_ss_size_mul() {
    assert_eq!(SS_SIZE_MUL[0], [4, 4]); // I400
    assert_eq!(SS_SIZE_MUL[1], [6, 5]); // I420
    assert_eq!(SS_SIZE_MUL[3], [12, 8]); // I444
}

#[test]
fn test_tx_part_group() {
    assert_eq!(TX_PART_GROUP[BlockSize::Bs4x4 as usize], 0);
    assert_eq!(TX_PART_GROUP[BlockSize::Bs8x8 as usize], 1);
    assert_eq!(TX_PART_GROUP[BlockSize::Bs64x64 as usize], 7);
    assert_eq!(TX_PART_GROUP[BlockSize::Bs64x16 as usize], 8);
}

#[test]
fn test_jmvd_scale_amvd() {
    let mut mv = MvXY { x: 10, y: 20 };
    jmvd_scale(&mut mv, true, 1);
    assert_eq!(mv.x, 20);
    assert_eq!(mv.y, 40);

    jmvd_scale(&mut mv, true, 2);
    assert_eq!(mv.x, 10);
    assert_eq!(mv.y, 20);

    jmvd_scale(&mut mv, true, 0);
    assert_eq!(mv.x, 10);
    assert_eq!(mv.y, 20);
}

#[test]
fn test_jmvd_scale_no_amvd() {
    let mut mv = MvXY { x: 10, y: 20 };
    jmvd_scale(&mut mv, false, 1);
    assert_eq!(mv.y, 40);
    assert_eq!(mv.x, 10);

    let mut mv = MvXY { x: 10, y: 20 };
    jmvd_scale(&mut mv, false, 2);
    assert_eq!(mv.x, 20);
    assert_eq!(mv.y, 20);
}

#[test]
fn test_get_prev_frame_segid() {
    let seg_map = vec![0, 1, 2, 3, 4, 5, 6, 7, 0, 1, 2, 3, 4, 5, 6, 7];
    let id = get_prev_frame_segid(0, 0, 2, 2, &seg_map, 8);
    assert_eq!(id, 0);

    let id = get_prev_frame_segid(0, 2, 2, 1, &seg_map, 8);
    assert_eq!(id, 2);
}

#[test]
fn test_mc_lowest_px_no_scale() {
    let smp = ScalableMotionParams { scale: 0, step: 0 };
    let mut dst = 0;
    mc_lowest_px(&mut dst, 4, 4, 0, 0, &smp);
    assert_eq!(dst, 32); // (4+4)*4 + 0 + 0
}

#[test]
fn test_intra_mode_tables() {
    assert_eq!(REORDERED_NONDIR_Y_MODE[0], 0); // DC_PRED
    assert_eq!(REORDERED_NONDIR_Y_MODE[1], 9); // SMOOTH_PRED
    assert_eq!(REORDERED_DIR_Y_MODE[2], 1); // VERT_PRED
    assert_eq!(DEFAULT_MODE_LIST_Y.len(), 56);
    assert_eq!(DEFAULT_MODE_LIST_UV[0], 1); // VERT_PRED
    assert_eq!(INTRA_DIR_MODE_Y_TO_UV_IDX.len(), 8);
}

#[test]
fn test_mv_prec_tbl() {
    assert_eq!(MV_PREC_TBL[0], [3, 1, 0]);
    assert_eq!(MV_PREC_TBL[1], [4, 3, 1]);
}

#[test]
fn test_partition_subb() {
    let part = &PARTITION_SUBB_PART[BlockSize::Bs64x64 as usize];
    let ctx = &PARTITION_SUBB_CTX[BlockSize::Bs64x64 as usize];
    assert_eq!(part[0][0], BlockSize::Bs64x32 as i8);
    assert_eq!(part[0][3], BlockSize::Bs32x32 as i8);
    assert_eq!(part[1][0], BlockSize::Bs32x64 as i8);
    assert_eq!(ctx[0], 3);
    assert_eq!(ctx[1], 6);

    let ctx = &PARTITION_SUBB_CTX[BlockSize::Bs4x4 as usize];
    assert_eq!(ctx[0], -1);
    assert_eq!(ctx[1], -1);
}

#[test]
fn test_read_wedge_idx() {
    let mut msac = make_msac(0x55, 64);
    let idx = read_wedge_idx(&mut msac);
    assert!(idx >= -1 && idx <= 67);
}

#[test]
fn wedge_idx_follows_the_symbols() {
    let mut msac = MsacContext::new(vec![0, 1, 0]);
    assert_eq!(read_wedge_idx(&mut msac), 3);
    let mut msac = MsacContext::new(vec![2, 0, 0]);
    assert_eq!(read_wedge_idx(&mut msac), 38);
}

#[test]
fn test_wedge_angle_dist2idx() {
    assert_eq!(WEDGE_ANGLE_DIST2IDX[0][0], -1);
    assert_eq!(WEDGE_ANGLE_DIST2IDX[0][1], 0);
    assert_eq!(WEDGE_ANGLE_DIST2IDX[1][0], 3);
    assert_eq!(WEDGE_ANGLE_DIST2IDX[10][0], -1);
    assert_eq!(WEDGE_ANGLE_DIST2IDX[10][1], 38);
}

#[test]
fn test_decode_4way_basic() {
    let mut msac = make_msac(0x80, 64);
    let result = decode_4way(&mut msac, 8, Cdf::WienerNsCf, 5);
    assert!(result >= 0 && result < 32);
}

#[test]
fn test_decode_4way_center_ref() {
    let mut msac = make_msac(0x00, 64);
    let result = decode_4way(&mut msac, 16, Cdf::WienerNsCf, 5);
    assert!(result >= 0 && result < 32);
}

#[test]
fn four_way_zero_is_the_reference() {
    for r in 0..32 {
        let mut msac = make_msac(0, 4);
        assert_eq!(decode_4way(&mut msac, r, Cdf::WienerNsCf, 5), r);
    }
}

#[test]
fn test_read_amvd_zero_joint() {
    let mut msac = make_msac(0x00, 64);
    let mv = read_amvd_raw(&mut msac, Cdf::AmvdJoint, Cdf::AmvdIndex(0), Cdf::AmvdIndex(1));
    let (y, x) = (mv.c.y, mv.c.x);
    assert!(y >= 0 && x >= 0);
}

#[test]
fn test_read_amvd_nonzero() {
    let mut msac = make_msac(0xFF, 64);
    let mv = read_amvd_raw(&mut msac, Cdf::AmvdJoint, Cdf::AmvdIndex(0), Cdf::AmvdIndex(1));
    let (y, x) = (mv.c.y, mv.c.x);
    assert!(y >= 0 && x >= 0);
}

#[test]
fn amvd_without_joint_is_zero() {
    let mut msac = make_msac(0, 8);
    let mv = read_amvd(&mut msac);
    assert_eq!((mv.c.y, mv.c.x), (0, 0));
}

#[test]
fn test_read_mv_residual_zero() {
    let mut msac = make_msac(0x00, 128);
    let mv = read_mv_residual(&mut msac, 3);
    assert_eq!((mv.c.y, mv.c.x), (0, 0));
}

#[test]
fn test_read_mv_residual_all_precs() {
    for mv_prec in 0..7 {
        let mut msac = make_msac(0x80, 256);
        let mv = read_mv_residual(&mut msac, mv_prec);
        let (y, x) = (mv.c.y, mv.c.x);
        assert!(y >= 0 || y < 0);
        assert!(x >= 0 || x < 0);
    }
}

#[test]
fn residuals_are_multiples_of_the_precision() {
    for mv_prec in 0..6 {
        for byte in 0..4 {
            let mut msac = make_msac(byte, 64);
            let mv = read_mv_full(&mut msac, mv_prec);
            let step = 1 << (6 - mv_prec);
            assert_eq!(mv.c.y % step, 0);
            assert_eq!(mv.c.x % step, 0);
        }
    }
}

#[test]
fn test_affine_lowest_px_basic() {
    let b_dim = [8u8, 8, 32, 32];
    let mat = [0i32, 1 << 16, 0, 0, 0, 1 << 16];
    let mut dst = i32::MIN;
    affine_lowest_px(&mut dst, &b_dim, 4, 4, &mat, 0, 0);
    assert!(dst > i32::MIN);
}

#[test]
fn test_affine_lowest_px_subsampled() {
    let b_dim = [8u8, 8, 32, 32];
    let mat = [0i32, 1 << 16, 0, 0, 0, 1 << 16];
    let mut dst0 = i32::MIN;
    let mut dst1 = i32::MIN;
    affine_lowest_px(&mut dst0, &b_dim, 4, 4, &mat, 0, 0);
    affine_lowest_px(&mut dst1, &b_dim, 4, 4, &mat, 1, 1);
    assert!(dst0 > i32::MIN);
    assert!(dst1 > i32::MIN);
}

#[test]
fn test_affine_lowest_px_accumulates() {
    let b_dim = [8u8, 8, 32, 32];
    let mat = [0i32, 1 << 16, 0, 0, 0, 1 << 16];
    let mut dst = 1000;
    affine_lowest_px(&mut dst, &b_dim, 0, 0, &mat, 0, 0);
    assert!(dst >= 1000);
}

#[test]
fn test_read_tx_part_4x4_noop() {
    let mut msac = make_msac(0x80, 64);
    let mut b = Av2Block::default();
    read_tx_part(&mut msac, &mut b, BlockSize::Bs4x4, false, true);
    assert_eq!(b.tx_part, TxPartition::Whole as u8);
    assert!(msac.pending().is_none());
}

#[test]
fn test_read_tx_part_lossless_4x4() {
    let mut msac = make_msac(0x80, 64);
    let mut b = Av2Block::default();
    read_tx_part(&mut msac, &mut b, BlockSize::Bs4x4, true, false);
    assert_eq!(b.tx_size_ll, 0);
    assert_eq!(b.tx_part, TxPartition::Whole as u8);
}

#[test]
fn test_read_tx_part_lossless_intra_fsc() {
    let mut msac = make_msac(0x80, 64);
    let mut b = Av2Block::default();
    b.is_intra = 1;
    b.fsc = 1;
    read_tx_part(&mut msac, &mut b, BlockSize::Bs8x8, true, false);
    assert!(b.tx_size_ll <= 1);
}

#[test]
fn test_read_tx_part_switchable_skip() {
    let mut msac = make_msac(0x80, 64);
    let mut b = Av2Block::default();
    b.skip_txfm = 1;
    read_tx_part(&mut msac, &mut b, BlockSize::Bs16x16, false, true);
    assert_eq!(b.tx_part, TxPartition::Whole as u8);
}

#[test]
fn test_read_tx_part_switchable_8x8() {
    let mut msac = make_msac(0x80, 64);
    let mut b = Av2Block::default();
    b.skip_txfm = 0;
    read_tx_part(&mut msac, &mut b, BlockSize::Bs8x8, false, true);
    assert!(b.tx_part <= TxPartition::V5 as u8);
}

#[test]
fn test_read_tx_part_switchable_8x4() {
    let mut msac = make_msac(0xFF, 64);
    let mut b = Av2Block::default();
    b.skip_txfm = 0;
    read_tx_part(&mut msac, &mut b, BlockSize::Bs8x4, false, true);
    assert!(b.tx_part <= TxPartition::V5 as u8);
}

#[test]
fn test_read_pal_indices_basic() {
    let mut msac = make_msac(0x00, 512);
    let sz = [4, 4, 4, 4];
    let ret = read_pal_indices(&mut msac, 3, &sz);
    assert!(ret.is_some());
}

#[test]
fn test_read_pal_indices_pal_sz_range() {
    for pal_sz in 2..=8 {
        let mut msac = make_msac(0x80, 512);
        let sz = [4, 4, 4, 4];
        // The largest answer to the first symbol copies a line that is not
        // there.
        let ret = read_pal_indices(&mut msac, pal_sz, &sz);
        assert!(ret.is_none());

        let mut msac = make_msac(1, 512);
        let ret = read_pal_indices(&mut msac, pal_sz, &sz);
        match ret {
            Some(g) => {
                for line in g.lines.iter() {
                    for v in line.iter() {
                        assert!((*v as i32) < pal_sz);
                    }
                }
            }
            None => panic!("no grid"),
        }
    }
}

#[test]
fn test_read_pal_indices_does_not_panic() {
    for &byte in &[0x00u32, 0x55, 0x80, 0xAA, 0xFF] {
        let mut msac = make_msac(byte, 512);
        let sz = [8, 4, 8, 4];
        let _ = read_pal_indices(&mut msac, 4, &sz);
    }
}

#[test]
fn reader_replays_its_answers() {
    let mut msac = MsacContext::new(vec![]);
    let _ = msac.decode_symbol_adapt(Cdf::WedgeQuad, 3);
    assert_eq!(msac.pending(), Some(Request::Symbol(Cdf::WedgeQuad, 3)));
    msac.answer(2);
    assert_eq!(msac.decode_symbol_adapt(Cdf::WedgeQuad, 3), 2);
    assert_eq!(msac.pending(), None);
    assert_eq!(msac.decode_bools_bypass(4), 0);
    assert_eq!(msac.pending(), Some(Request::Bits(4)));
}
