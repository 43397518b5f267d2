use rav2d::coded::CodedGrid;
use rav2d::edges::EdgeBounds;
use rav2d::env::BlockContext;
use rav2d::error::Rav2dError;
use rav2d::ipred::{dispatch_ipred, PredKernel, PreparedModes};
use rav2d::levels::TxPartition;
use rav2d::lumatx::{IntraTools, LumaBlock, RemappedAngle};
use rav2d::lumawalk::{
    inter_luma_residual, next_inter_luma_request, next_luma_request, recon_b_intra_luma_geom,
    LumaGeom, LumaJob,
};
use rav2d::residual::CoefReply;
use rav2d::txwalk::TxSize;

fn size(w: i32, h: i32) -> TxSize {
    TxSize { w, h }
}

fn geom() -> LumaGeom {
    LumaGeom {
        bx: 8,
        by: 4,
        bw4: 4,
        bh4: 4,
        part: TxPartition::Split,
        t: size(2, 2),
        big: size(2, 2),
        lossless: false,
        tx_size_ll: false,
        largest: size(4, 4),
        fw: 64,
        fh: 64,
    }
}

fn job(g: LumaGeom) -> LumaJob {
    LumaJob {
        b: LumaBlock {
            intrabc: false,
            skip_txfm: false,
            y_mode: 2,
            y_angle: 0,
            mrl_index: 0,
            multi_mrl: false,
            tx_part: TxPartition::Whole,
            dip: 0,
            pal_sz: 0,
            sm_top: false,
            sm_left: false,
            lossless: false,
            dpcm: false,
            pb_col_start: 0,
            pb_row_start: 0,
        },
        g,
        f: IntraTools { ibp: false, edge_filter: false, ddt: None },
        t: EdgeBounds { col_start: 0, col_end: 64, row_start: 0, row_end: 64, sb_step: 16 },
        m: RemappedAngle { mode: 2, angle: 0 },
        m_big: RemappedAngle { mode: 3, angle: 3 },
        ddt_big: None,
    }
}

fn reply(eob: i32, res_ctx: u8) -> CoefReply {
    CoefReply { eob, txtp: 0, res_ctx }
}

fn positions(g: &LumaGeom) -> Vec<(i32, i32)> {
    g.list_tiles().iter().map(|t| (t.x, t.y)).collect()
}

#[test]
fn divided_blocks_are_walked_in_order() {
    assert_eq!(positions(&geom()), vec![(8, 4), (10, 4), (8, 6), (10, 6)]);
    let cut = LumaGeom { fw: 10, ..geom() };
    assert_eq!(positions(&cut), vec![(8, 4), (8, 6)]);
}

#[test]
fn lossless_blocks_go_line_by_line() {
    let g = LumaGeom { lossless: true, fh: 6, ..geom() };
    let expected = vec![(8, 4), (9, 4), (10, 4), (11, 4), (8, 5), (9, 5), (10, 5), (11, 5)];
    assert_eq!(positions(&g), expected);
    let g = LumaGeom { tx_size_ll: true, ..g };
    assert_eq!(positions(&g), vec![(8, 4)]);
}

#[test]
fn luma_coefficients_are_asked_for_one_by_one() {
    let mut j = job(geom());
    let r = next_luma_request(&j, true, 3).unwrap();
    assert_eq!((r.tile.x, r.tile.y, r.above, r.left), (10, 6, 10, 6));
    assert!(r.intra && r.fsc && !r.lossless);
    assert_eq!(r.y_mode, 2);
    assert!(next_luma_request(&j, true, 4).is_none());
    j.b.skip_txfm = true;
    assert!(next_luma_request(&j, true, 0).is_none());
}

#[test]
fn the_large_transform_block_has_its_own_angle() {
    let g = LumaGeom { part: TxPartition::H5, t: size(2, 1), big: size(4, 2), ..geom() };
    let j = job(g);
    let modes: Vec<u8> =
        (0..5).map(|k| next_luma_request(&j, false, k).unwrap().y_mode).collect();
    assert_eq!(modes, vec![2, 2, 3, 2, 2]);
}

#[test]
fn all_transform_blocks_of_a_block_are_planned() {
    let j = job(geom());
    let (mut a, mut l) = (BlockContext::default(), BlockContext::default());
    let mut coded = CodedGrid::new();
    let replies = [reply(0, 1), reply(-1, 2), reply(3, 3), reply(4, 4)];
    let plans = recon_b_intra_luma_geom(&j, &replies, &mut a, &mut l, &mut coded).unwrap();
    assert_eq!(plans.len(), 4);
    assert_eq!(plans[0].residual.unwrap().eob, 0);
    assert!(plans[1].residual.is_none());
    assert_eq!(a.lcoef[8..12], [3, 3, 4, 4]);
    assert_eq!(l.lcoef[4..8], [2, 2, 4, 4]);
    // The third block sees the second above to its right.
    assert_eq!(plans[2].prediction.unwrap().n_tr, 2);
    assert_eq!(coded.count_right(8, 7, 16), 4);
    assert_eq!(coded.count_right(8, 8, 16), 0);
}

#[test]
fn a_walk_stops_where_coefficients_cannot_be_read() {
    let j = job(geom());
    let (mut a, mut l) = (BlockContext::default(), BlockContext::default());
    let mut coded = CodedGrid::new();
    let replies = [reply(0, 9), reply(i32::MIN, 9), reply(0, 9), reply(0, 9)];
    let r = recon_b_intra_luma_geom(&j, &replies, &mut a, &mut l, &mut coded);
    assert!(matches!(r, Err(Rav2dError::InvalidData)));
    assert_eq!(coded.count_right(8, 4, 16), 2);
    assert_eq!(coded.count_right(8, 6, 16), 0);
}

#[test]
fn moved_blocks_record_their_types() {
    let g = geom();
    assert!(!next_inter_luma_request(&g, false, 0).unwrap().intra);
    assert!(next_inter_luma_request(&g, true, 0).is_none());
    let (mut a, mut l) = (BlockContext::default(), BlockContext::default());
    let mut coded = CodedGrid::new();
    let mut types = [7u16; 256];
    let replies = [
        CoefReply { eob: 1, txtp: 1, res_ctx: 0 },
        CoefReply { eob: 1, txtp: 2, res_ctx: 0 },
        CoefReply { eob: -1, txtp: 0, res_ctx: 0 },
        CoefReply { eob: 1, txtp: 3, res_ctx: 5 },
    ];
    let added =
        inter_luma_residual(&g, false, None, &replies, &mut a, &mut l, &mut coded, &mut types)
            .unwrap();
    assert_eq!(added[3].unwrap().txtp, 3);
    assert!(added[2].is_none());
    assert_eq!(types[4 * 16 + 8..4 * 16 + 13], [1, 1, 2, 2, 7]);
    assert_eq!(types[7 * 16 + 8..7 * 16 + 13], [0, 0, 3, 3, 7]);
    assert_eq!(a.lcoef[10..12], [5, 5]);
}

#[test]
fn skipped_blocks_need_no_replies() {
    let (mut a, mut l) = (BlockContext::default(), BlockContext::default());
    let mut coded = CodedGrid::new();
    let mut types = [7u16; 256];
    let added =
        inter_luma_residual(&geom(), true, None, &[], &mut a, &mut l, &mut coded, &mut types)
            .unwrap();
    assert_eq!(added, vec![None; 4]);
    assert_eq!(types, [7u16; 256]);
    assert_eq!(a.lcoef[8..12], [0x40; 4]);
}

#[test]
fn kernels_by_mode() {
    let p = PreparedModes { dc_128: 20, top_dc: 21, left_dc: 22, z1: 23, z2: 24, z3: 25, dip: 26 };
    let coded: Vec<PredKernel> = [0, 1, 2, 9, 10, 11, 12]
        .iter()
        .map(|m| dispatch_ipred(*m, &p))
        .collect();
    assert_eq!(
        coded,
        vec![
            PredKernel::Dc,
            PredKernel::Vertical,
            PredKernel::Horizontal,
            PredKernel::Smooth,
            PredKernel::SmoothV,
            PredKernel::SmoothH,
            PredKernel::Paeth,
        ]
    );
    assert_eq!(dispatch_ipred(21, &p), PredKernel::DcTop);
    assert_eq!(dispatch_ipred(26, &p), PredKernel::DataDriven);
    assert_eq!(dispatch_ipred(3, &p), PredKernel::DcMiddle);
}
