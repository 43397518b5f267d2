use rav2d::block::SmoothFlags;
use rav2d::blockdec::{BlockHead, CopySyntax, IntraSyntax, Leaf};
use rav2d::chromatx::ChromaCoefs;
use rav2d::coded::CodedGrid;
use rav2d::decodeb::{BlockSyntax, LeafSmooth};
use rav2d::env::BlockContext;
use rav2d::error::Rav2dError;
use rav2d::frameinfo::SbFrameInfo;
use rav2d::headers::{
    MvHeader, PixelLayout, SequenceHeader, WarpedMotionParams, WarpedMotionType,
};
use rav2d::interintra::BlendMask;
use rav2d::interplan::{BlendKind, InterFrame, InterStep, McPart, WarpPart};
use rav2d::intra::{ChromaMode, LumaMode};
use rav2d::intraplan::{CopyPart, IntraStep};
use rav2d::levels::{BlockSize, MvXY};
use rav2d::lumatx::RemappedAngle;
use rav2d::motion::{BlockMotion, MotionFrame};
use rav2d::predict::{predict_step, PredictedBlock, Prediction, Shears};
use rav2d::residual::CoefReply;
use rav2d::single::InterSyntax;
use rav2d::splitblock::{ChromaPhase, ReconBlock};
use rav2d::transforms::{
    add_residual, transform_step, Added, BlockAngles, BlockMasks, BlockTx, Transformed,
    TransformedBlock,
};
use rav2d::txwalk::TxSize;

fn info() -> SbFrameInfo {
    SbFrameInfo {
        bw: 64,
        bh: 64,
        ss_hor: 1,
        ss_ver: 1,
        tile_col_end: 64,
        tile_row_end: 64,
        sb_step: 16,
        ..Default::default()
    }
}

fn sequence() -> SequenceHeader {
    SequenceHeader { layout: PixelLayout::I420, ibp: true, cctx: true, ..Default::default() }
}

fn still() -> MvXY {
    MvXY { y: 0, x: 0 }
}

fn syntax() -> BlockSyntax {
    BlockSyntax {
        head: BlockHead {
            seg_id: 1,
            seg_pred: 0,
            skip_mode: 0,
            is_intra: 1,
            intrabc: 0,
            skip_txfm: 0,
        },
        intra: IntraSyntax {
            luma: LumaMode { dpcm: false, y_mode: 2, y_angle: 0, midx: 0 },
            fsc: 0,
            mrl_index: 0,
            multi_mrl: 0,
            chroma: ChromaMode {
                dpcm: false,
                uv_mode: 2,
                uv_angle: 0,
                cfl_type: 0,
                alpha_u: 0,
                alpha_v: 0,
                mh_dir: 0,
            },
            pal_sz: 0,
            dip: 0,
        },
        copy: CopySyntax { is_refmv: 0, drl: 0, is_qpel: 0, mvd: still(), morph_pred: 0 },
        inter: InterSyntax {
            ref0: 0,
            ref1: -1,
            inter_mode: 0,
            comp_type: 0,
            motion_mode: 0,
            drl0: 0,
            drl1: 0,
            amvd: 0,
            mv_prec: 0,
            mvprec_def: 0,
            mvd0: still(),
            mvd1: still(),
            jmvd_scale: 0,
            refine_mv: 0,
            wedge_idx: 5,
            wedge_sign: 0,
            mask_sign: 0,
            cwp_idx: 8,
            filter: 0,
            warp_ref_idx: 0,
            warpmv_with_mvd: 0,
            bawp0: 0,
            bawp1: 0,
            interintra_mode: 3,
            delta0: 0,
            delta1: 0,
            delta2: 0,
            delta3: 0,
            warp_ii: 0,
        },
        tx_part: 1,
        tx_size_ll: 0,
    }
}

fn warp(x: i32) -> WarpedMotionParams {
    WarpedMotionParams {
        wm_type: WarpedMotionType::Affine,
        matrix: [x, 0, 0x10000, 0, 0, 0x10000],
    }
}

fn motion_frame() -> MotionFrame {
    MotionFrame {
        gmv: [warp(0); 7],
        mv_header: MvHeader { force_integer_mv: 0, mv_precision: 3 },
        iw4: 64,
        ih4: 64,
        refmv_bank: true,
        kept: true,
        inter: InterFrame {
            force_integer_mv: false,
            imp_msk_bld: true,
            present: [true; 7],
            scaled: [false; 7],
            global_warp: [false; 7],
            global_affine: [false; 7],
            ss_hor: 1,
            ss_ver: 1,
            fw: 64,
            fh: 64,
        },
    }
}

fn predicted(step: InterStep) -> Option<Prediction> {
    let (fi, mf, x) = (info(), motion_frame(), syntax());
    let leaf = Leaf {
        bx: 4,
        by: 4,
        cbx: 4,
        cby: 4,
        lbs: BlockSize::Bs16x16,
        cbs: BlockSize::Bs16x16,
        intra_region: false,
        cfl_disallowed: false,
    };
    let motion = BlockMotion {
        mv0: still(),
        mv1: still(),
        weight: 8,
        copy: still(),
        warp: warp(8 << 16),
        affine: true,
    };
    let b = PredictedBlock {
        fi: &fi,
        mf: &mf,
        leaf: &leaf,
        syntax: &x,
        motion: &motion,
        shears: &Shears { local: [0; 4], global: [[0; 4]; 7] },
        seq: &sequence(),
    };
    predict_step(&b, &CodedGrid::new(), &step)
}

fn part(plane: u8, bx: i32) -> McPart {
    let mv = MvXY { y: 0, x: 16 };
    McPart { plane, ref_idx: 2, bx, by: 4, bw4: 4, bh4: 4, mv, filter: 0 }
}

#[test]
fn shifts_read_where_the_vector_points() {
    match predicted(InterStep::Shift(part(0, 4))) {
        Some(Prediction::Shift(p)) => {
            assert_eq!((p.hor.start, p.hor.len, p.hor.frac), (18, 16, 0));
        }
        _ => panic!("no shift"),
    }
    match predicted(InterStep::Prepare(1, part(1, 4))) {
        Some(Prediction::Shift(p)) => {
            assert_eq!((p.hor.start, p.hor.len, p.hor.frac), (9, 8, 0));
        }
        _ => panic!("no shift"),
    }
    assert!(predicted(InterStep::Shift(part(0, -1))).is_none());
}

#[test]
fn warps_go_by_the_model_of_the_block_or_of_the_reference() {
    let p = WarpPart {
        plane: 0,
        ref_idx: 0,
        bx: 4,
        by: 4,
        bs: BlockSize::Bs16x16,
        local: true,
        affine: true,
    };
    let tiles = |p: WarpPart| match predicted(InterStep::Warp(p)) {
        Some(Prediction::Warp(v)) => v.len(),
        _ => 0,
    };
    assert_eq!(tiles(p), 4);
    assert_eq!(tiles(WarpPart { affine: false, ..p }), 16);
    assert_eq!(tiles(WarpPart { local: false, ..p }), 4);
    assert_eq!(tiles(WarpPart { local: false, ref_idx: 7, ..p }), 0);
    assert_eq!(tiles(WarpPart { bs: BlockSize::Invalid, ..p }), 0);
}

#[test]
fn blends_and_residuals_follow_the_predictions() {
    match predicted(InterStep::BlendIntra(0, BlockSize::Bs16x16, false)) {
        Some(Prediction::BlendIntra(p)) => {
            assert_eq!(p.intra.mode, 9);
            assert_eq!(p.mask, BlendMask::Wedge(5));
        }
        _ => panic!("no blend"),
    }
    assert!(predicted(InterStep::BlendIntra(0, BlockSize::Invalid, false)).is_none());
    let kind = BlendKind::Weighted(-3);
    assert!(matches!(
        predicted(InterStep::Blend(2, kind)),
        Some(Prediction::Blend(2, BlendKind::Weighted(-3)))
    ));
    assert!(matches!(predicted(InterStep::LumaResidual), Some(Prediction::Residual)));
    assert!(matches!(predicted(InterStep::ChromaResidual), Some(Prediction::Residual)));
}

fn size(w: i32, h: i32) -> TxSize {
    TxSize { w, h }
}

fn reply(eob: i32, res_ctx: u8) -> CoefReply {
    CoefReply { eob, txtp: 0, res_ctx }
}

fn transformed<'a>(fi: &'a SbFrameInfo, x: &'a BlockSyntax) -> TransformedBlock<'a> {
    let none = SmoothFlags { a: 0, l: 0 };
    let m = RemappedAngle { mode: 2, angle: 0 };
    TransformedBlock {
        fi,
        seq: Box::leak(Box::new(sequence())),
        syntax: x,
        smooth: LeafSmooth { luma: none, chroma: none },
        sizes: BlockTx {
            luma: size(2, 2),
            big: size(2, 2),
            largest: size(4, 4),
            chroma: size(2, 2),
        },
        angles: BlockAngles { luma: m, big: m, chroma: m },
        masks: BlockMasks { luma: 0xff, big: 0, chroma: 0 },
        small: false,
    }
}

#[test]
fn the_steps_of_an_intra_block_are_transformed() {
    let (fi, x) = (info(), syntax());
    let b = transformed(&fi, &x);
    let (mut a, mut l) = (BlockContext::default(), BlockContext::default());
    let mut g = CodedGrid::new();
    let mut stash = ChromaCoefs { u: vec![], v: vec![] };
    let luma = IntraStep::Luma(8, 4, BlockSize::Bs16x16);
    let replies = [reply(0, 1), reply(-1, 2), reply(3, 3), reply(4, 4)];
    match transform_step(&b, &luma, &replies, &mut stash, &mut a, &mut l, &mut g).unwrap() {
        Transformed::Luma(v) => {
            assert_eq!(v.len(), 4);
            assert_eq!(v[2].residual.unwrap().eob, 3);
        }
        _ => panic!("no luma"),
    }
    assert_eq!(a.lcoef[8..12], [3, 3, 4, 4]);
    let chroma = IntraStep::Chroma(ChromaPhase::ReadOnly, 8, 4, BlockSize::Bs16x16, false);
    let replies = [reply(6, 1), reply(7, 2)];
    let r = transform_step(&b, &chroma, &replies, &mut stash, &mut a, &mut l, &mut g).unwrap();
    assert!(matches!(r, Transformed::Chroma(None)));
    assert_eq!((stash.u.len(), stash.v.len()), (1, 1));
    let chroma = IntraStep::Chroma(ChromaPhase::ReconOnly, 8, 4, BlockSize::Bs16x16, false);
    let r = transform_step(&b, &chroma, &[], &mut stash, &mut a, &mut l, &mut g).unwrap();
    assert!(matches!(r, Transformed::Chroma(Some(_))));
    let copy = CopyPart { plane: 0, bx: 4, by: 4, bs: BlockSize::Bs8x8, mv: still() };
    let copy = IntraStep::Copy(copy);
    let r = transform_step(&b, &copy, &[], &mut stash, &mut a, &mut l, &mut g).unwrap();
    assert!(matches!(r, Transformed::Copied));
    let bad = [reply(i32::MIN, 0), reply(0, 0), reply(0, 0), reply(0, 0)];
    let r = transform_step(&b, &luma, &bad, &mut stash, &mut a, &mut l, &mut g);
    assert!(matches!(r, Err(Rav2dError::InvalidData)));
}

#[test]
fn lossless_segments_have_the_smallest_transforms() {
    let (mut fi, mut x) = (info(), syntax());
    fi.seg_lossless[1] = 1;
    x.head.skip_txfm = 1;
    let b = transformed(&fi, &x);
    let (mut a, mut l) = (BlockContext::default(), BlockContext::default());
    let mut g = CodedGrid::new();
    let mut stash = ChromaCoefs { u: vec![], v: vec![] };
    let luma = IntraStep::Luma(8, 4, BlockSize::Bs16x16);
    match transform_step(&b, &luma, &[], &mut stash, &mut a, &mut l, &mut g).unwrap() {
        Transformed::Luma(v) => assert_eq!(v.len(), 16),
        _ => panic!("no luma"),
    }
}

#[test]
fn data_driven_types_go_by_the_size_of_the_transform() {
    let (fi, mut x) = (info(), syntax());
    x.head.is_intra = 0;
    x.tx_part = 6;
    let seq = SequenceHeader { inter_ddt: true, ..sequence() };
    let mut b = transformed(&fi, &x);
    b.seq = &seq;
    b.sizes = BlockTx { luma: size(2, 1), big: size(4, 2), ..b.sizes };
    let bs = BlockSize::Bs16x16;
    let k = ReconBlock { bx: 4, by: 4, cbx: 4, cby: 4, lbs: bs, cbs: bs };
    let (mut a, mut l) = (BlockContext::default(), BlockContext::default());
    let mut g = CodedGrid::new();
    let mut types = [0u16; 256];
    let replies = [CoefReply { eob: 3, txtp: 3, res_ctx: 1 }; 5];
    let step = InterStep::LumaResidual;
    match add_residual(&b, &k, &step, &replies, &mut a, &mut l, &mut g, &mut types).unwrap() {
        Added::Luma(v) => {
            let t: Vec<u32> = v.iter().map(|r| r.unwrap().txtp).collect();
            assert_eq!(t, vec![6, 6, 3, 6, 6]);
        }
        _ => panic!("no luma"),
    }
}

#[test]
fn residuals_are_added_to_moved_parts() {
    let (fi, mut x) = (info(), syntax());
    x.head.is_intra = 0;
    let b = transformed(&fi, &x);
    let (bs, cbs) = (BlockSize::Bs16x16, BlockSize::Bs16x16);
    let k = ReconBlock { bx: 4, by: 4, cbx: 4, cby: 4, lbs: bs, cbs };
    let (mut a, mut l) = (BlockContext::default(), BlockContext::default());
    let mut g = CodedGrid::new();
    let mut types = [0u16; 256];
    let replies = [reply(0, 1), reply(-1, 2), reply(3, 3), reply(4, 4)];
    let step = InterStep::LumaResidual;
    match add_residual(&b, &k, &step, &replies, &mut a, &mut l, &mut g, &mut types).unwrap() {
        Added::Luma(v) => {
            assert_eq!(v.len(), 4);
            assert!(v[1].is_none());
            assert_eq!(v[3].unwrap().eob, 4);
        }
        _ => panic!("no luma"),
    }
    let step = InterStep::ChromaResidual;
    let replies = [reply(5, 1), reply(2, 1)];
    match add_residual(&b, &k, &step, &replies, &mut a, &mut l, &mut g, &mut types).unwrap() {
        Added::Chroma(v) => {
            assert_eq!(v.len(), 1);
            assert_eq!(v[0].u.unwrap().eob, 5);
        }
        _ => panic!("no chroma"),
    }
    let bad = [reply(i32::MIN, 1), reply(2, 1)];
    let r = add_residual(&b, &k, &step, &bad, &mut a, &mut l, &mut g, &mut types);
    assert!(matches!(r, Err(Rav2dError::InvalidData)));
    let step = InterStep::Shift(part(0, 4));
    let r = add_residual(&b, &k, &step, &[], &mut a, &mut l, &mut g, &mut types).unwrap();
    assert!(matches!(r, Added::Nothing));
}
