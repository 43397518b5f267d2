use rav2d::block::Av2Block;
use rav2d::blockdec::Leaf;
use rav2d::blockbuild::{BankStep, BlockPlan};
use rav2d::decodeb::{decode_b, DecodedBlock, TileInput, TileState};
use rav2d::env::BlockContext;
use rav2d::error::Rav2dError;
use rav2d::frame::DqTable;
use rav2d::frameinfo::SbFrameInfo;
use rav2d::headers::{MvHeader, WarpedMotionParams, WarpedMotionType, MAX_SEGMENTS};
use rav2d::interplan::{InterFrame, InterStep};
use rav2d::intraplan::IntraStep;
use rav2d::levels::{BlockSize, RefPair, CFL_PRED, NEAR_MV};
use rav2d::motion::MotionFrame;
use rav2d::msac::{CandPart, Cdf, MsacContext, Request, NO_COEFS};
use rav2d::partition::{DirState, SbNode};
use rav2d::sbdec::{decode_sb, SbContext, Walk};
use rav2d::sbsyntax::{CcsoMaps, DequantChoice, SbFilter};
use rav2d::splat::intra_entry;
use rav2d::warp::MvTile;

fn make_info(size: i32) -> SbFrameInfo {
    SbFrameInfo {
        bw: size,
        bh: size,
        ss_ver: 1,
        ss_hor: 1,
        root_bs: BlockSize::Bs64x64,
        max_pb_aspect_ratio_log2: 2,
        n_passes: 1,
        has_chroma_layout: true,
        max_bvp_drl_bits: 2,
        max_drl_bits: 3,
        txfm_switchable: true,
        skip_mode_refs: RefPair { r: [0, 0] },
        n_ref_frames: 7,
        tile_col_end: size,
        tile_row_end: size,
        sb_step: 16,
        b4_stride: size,
        sb256w: (size + 63) / 64,
        ..Default::default()
    }
}

fn make_tile(size: i32) -> TileState {
    let n = ((size + 63) / 64) as usize;
    let mut lf: Vec<SbFilter> = Vec::new();
    for _ in 0..n * n {
        lf.push(SbFilter::default());
    }
    TileState {
        segmap: vec![0; (size * size) as usize],
        lf,
        ccso: vec![0; 3 * n * n],
        qidx: 0,
        dequant: DequantChoice::Keep,
        dq: [[[0; 2]; 3]; MAX_SEGMENTS],
        dir_map: [0; 256],
        fsc_map: [0; 256],
        motion: still_tile(),
        warp: (no_warp(), false),
    }
}

fn no_warp() -> WarpedMotionParams {
    WarpedMotionParams {
        wm_type: WarpedMotionType::Identity,
        matrix: [0, 0, 0x10000, 0, 0, 0x10000],
    }
}

fn still_tile() -> MvTile {
    let unit = intra_entry(BlockSize::Bs4x4);
    MvTile { r: vec![unit; 64 * 128], ra: vec![unit; 128], ra_off: 0, ra_tl: unit }
}

fn motion_frame() -> MotionFrame {
    MotionFrame {
        gmv: [no_warp(); 7],
        mv_header: MvHeader { force_integer_mv: 0, mv_precision: 3 },
        iw4: 64,
        ih4: 64,
        refmv_bank: true,
        kept: true,
        inter: InterFrame {
            force_integer_mv: false,
            imp_msk_bld: true,
            present: [true; 7],
            scaled: [false; 7],
            global_warp: [false; 7],
            global_affine: [false; 7],
            ss_hor: 1,
            ss_ver: 1,
            fw: 64,
            fh: 64,
        },
    }
}

fn make_steps() -> DqTable {
    let mut steps: Vec<u32> = Vec::new();
    for q in 0..2048u32 {
        steps.push(1000 + q);
    }
    DqTable { base: -1024, steps }
}

fn no_input() -> TileInput<'static> {
    TileInput {
        prev_segmap: None,
        ccso: CcsoMaps { prev0: None, prev1: None, prev2: None },
        lf_idx: 0,
        table: Box::leak(Box::new(make_steps())),
        motion: Box::leak(Box::new(motion_frame())),
    }
}

fn leaf(x: i32, y: i32, lbs: BlockSize, cbs: BlockSize) -> Leaf {
    Leaf { bx: x, by: y, cbx: x, cby: y, lbs, cbs, intra_region: false, cfl_disallowed: false }
}

fn run(
    fi: &SbFrameInfo,
    f: Leaf,
    byte: u32,
    n: usize,
    a: &mut BlockContext,
    l: &mut BlockContext,
) -> Result<Av2Block, Rav2dError> {
    let mut msac = MsacContext::new(vec![byte; n]);
    let mut t = make_tile(fi.bw);
    decode_b(fi, &f, a, l, &mut t, &no_input(), &mut msac).map(|d| d.block)
}

fn make_sb(size: i32, byte: u32, n: usize) -> SbContext {
    SbContext {
        a: BlockContext::default(),
        l: BlockContext::default(),
        t: make_tile(size),
        msac: MsacContext::new(vec![byte; n]),
        walk: Walk { cbx: 0, cby: 0, intra_region: false, cfl_disallowed: false },
        parts: Vec::new(),
        leaves: Vec::new(),
        blocks: Vec::new(),
    }
}

#[test]
fn test_decode_sb_partition_none_leaf() {
    let fi = make_info(64);
    let mut c = make_sb(64, 1, 128);
    let mut dir = DirState { dir: 0, part: 0, child: 0, at_limit: false };
    let n = SbNode { bx: 0, by: 0, lbs: BlockSize::Bs4x4, cbs: BlockSize::Bs4x4 };
    let result = decode_sb(&fi, &n, &no_input(), &mut dir, &mut c);
    assert!(result.is_ok());
    assert_eq!(c.leaves.len(), 1);
}

#[test]
fn test_decode_sb_split_recurse() {
    let mut fi = make_info(128);
    fi.is_inter_or_switch = true;
    fi.ext_partitions = true;
    let mut c = make_sb(128, 0xFF, 256);
    let mut dir = DirState { dir: 0, part: 0, child: 0, at_limit: false };
    let n = SbNode { bx: 0, by: 0, lbs: BlockSize::Bs32x32, cbs: BlockSize::Bs32x32 };
    let result = decode_sb(&fi, &n, &no_input(), &mut dir, &mut c);
    assert!(result.is_ok());
    assert_eq!(n.bx, 0);
    assert_eq!(n.by, 0);
    assert!(c.leaves.len() > 1);
}

#[test]
fn leaves_cover_an_undivided_superblock() {
    let fi = make_info(64);
    let mut c = make_sb(64, 0, 512);
    let mut dir = DirState { dir: 0, part: 0, child: 0, at_limit: false };
    let n = SbNode { bx: 0, by: 0, lbs: BlockSize::Bs64x64, cbs: BlockSize::Bs64x64 };
    let result = decode_sb(&fi, &n, &no_input(), &mut dir, &mut c);
    assert!(result.is_ok());
    assert_eq!(c.leaves.len(), c.blocks.len());
    let mut area = 0;
    for f in c.leaves.iter() {
        area += f.lbs.area();
    }
    assert_eq!(area, 16 * 16);
}

#[test]
fn every_unit_is_decoded_once() {
    let mut fi = make_info(128);
    fi.is_inter_or_switch = true;
    fi.ext_partitions = true;
    fi.bw = 7;
    fi.tile_col_end = 7;
    let mut c = make_sb(128, 0xFF, 4096);
    let mut dir = DirState { dir: 0, part: 0, child: 0, at_limit: false };
    let n = SbNode { bx: 0, by: 0, lbs: BlockSize::Bs32x32, cbs: BlockSize::Bs32x32 };
    assert!(decode_sb(&fi, &n, &no_input(), &mut dir, &mut c).is_ok());
    for y in 0..8 {
        for x in 0..7 {
            let holders = c
                .leaves
                .iter()
                .filter(|f| f.lbs != BlockSize::Invalid)
                .filter(|f| {
                    let d = f.lbs.dim();
                    f.bx <= x && x < f.bx + d[0] as i32 && f.by <= y && y < f.by + d[1] as i32
                })
                .count();
            assert_eq!(holders, 1);
        }
    }
}

#[test]
fn test_decode_b_intra_keyframe() {
    let fi = make_info(64);
    let (mut a, mut l) = (BlockContext::default(), BlockContext::default());
    let f = leaf(8, 8, BlockSize::Bs8x8, BlockSize::Bs8x8);
    let b = run(&fi, f, 1, 128, &mut a, &mut l).unwrap();
    assert_eq!(b.is_intra, 1);
    assert_eq!(b.skip_mode, 0);
    assert_eq!(b.skip_txfm, 0);
    assert_eq!(b.intrabc, 0);
}

#[test]
fn test_decode_b_inter_skip_mode() {
    let mut fi = make_info(64);
    fi.is_inter_or_switch = true;
    fi.skip_mode_enabled = true;
    let (mut a, mut l) = (BlockContext::default(), BlockContext::default());
    let f = leaf(8, 8, BlockSize::Bs8x8, BlockSize::Bs8x8);
    let b = run(&fi, f, 0x00, 128, &mut a, &mut l).unwrap();
    // skip_mode decoded (block is 2x2=4 > 2, inter frame, skip_mode_enabled)
    assert_eq!(b.seg_id, 0);
}

#[test]
fn test_decode_b_skip_mask_forces_skip_txfm() {
    let mut fi = make_info(64);
    fi.is_inter_or_switch = true;
    fi.seg_skip_mask = 1;
    let (mut a, mut l) = (BlockContext::default(), BlockContext::default());
    let f = leaf(8, 8, BlockSize::Bs8x8, BlockSize::Bs8x8);
    let b = run(&fi, f, 1, 128, &mut a, &mut l).unwrap();
    // seg_skip_mask bit 0 set, seg_id=0: skip_txfm forced to 1
    assert_eq!(b.skip_txfm, 1);
}

#[test]
fn test_decode_b_intra_y_mode_decoding() {
    let fi = make_info(64);
    let (mut a, mut l) = (BlockContext::default(), BlockContext::default());
    let f = leaf(8, 8, BlockSize::Bs8x8, BlockSize::Bs8x8);
    let b = run(&fi, f, 1, 128, &mut a, &mut l).unwrap();
    assert_eq!(b.is_intra, 1);
    // y_mode should be a valid intra prediction mode (0-12)
    let y_mode = b.data.intra.y_mode;
    assert!(y_mode <= 12, "y_mode={y_mode} out of range");
}

#[test]
fn test_decode_b_intra_y_mode_with_neighbours() {
    let fi = make_info(64);
    let (mut a, mut l) = (BlockContext::default(), BlockContext::default());
    // Set neighbour midx to directional mode 17 (VERT_PRED centre)
    a.midx[9] = 17;
    l.midx[9] = 17;
    let f = leaf(8, 8, BlockSize::Bs8x8, BlockSize::Bs8x8);
    let b = run(&fi, f, 2, 256, &mut a, &mut l).unwrap();
    assert_eq!(b.is_intra, 1);
    let y_mode = b.data.intra.y_mode;
    assert!(y_mode <= 12, "y_mode={y_mode} out of range");
}

#[test]
fn test_decode_b_fsc_and_mrl() {
    let mut fi = make_info(64);
    fi.idtx_intra = true;
    fi.mrls = true;
    fi.cfl = true;
    let (mut a, mut l) = (BlockContext::default(), BlockContext::default());
    let f = leaf(8, 8, BlockSize::Bs8x8, BlockSize::Bs8x8);
    let b = run(&fi, f, 1, 256, &mut a, &mut l).unwrap();
    assert_eq!(b.is_intra, 1);
    // FSC decoded (8x8 block, idtx_intra=true)
    // fsc is 0 or 1
    assert!(b.fsc <= 1);
    // MRL decoded only if directional mode (midx != 0xff)
    let mrl = b.data.intra.mrl_index;
    assert!(mrl <= 3);
}

#[test]
fn test_decode_b_uv_chroma_mode() {
    let mut fi = make_info(64);
    fi.idtx_intra = true;
    fi.mrls = true;
    fi.cfl = true;
    let (mut a, mut l) = (BlockContext::default(), BlockContext::default());
    // Decode with both luma and chroma
    let f = leaf(4, 4, BlockSize::Bs8x8, BlockSize::Bs4x4);
    let b = run(&fi, f, 2, 256, &mut a, &mut l).unwrap();
    assert_eq!(b.is_intra, 1);
    let uv_mode = b.data.intra.uv_mode;
    let uv_angle = b.data.intra.uv_angle;
    // UV mode should be valid (0-13)
    assert!(uv_mode <= CFL_PRED, "uv_mode {} out of range", uv_mode);
    // UV angle in [-3, 3]
    assert!(uv_angle >= -3 && uv_angle <= 3, "uv_angle {} out of range", uv_angle);
}

#[test]
fn test_decode_b_uv_dpcm_chroma() {
    let mut fi = make_info(64);
    fi.any_lossless = true;
    fi.seg_lossless = [1; MAX_SEGMENTS];
    let (mut a, mut l) = (BlockContext::default(), BlockContext::default());
    // Feed data that makes dpcm[0]=true and dpcm[1]=true
    let f = leaf(4, 4, BlockSize::Bs4x4, BlockSize::Bs4x4);
    let b = run(&fi, f, 0xFF, 256, &mut a, &mut l).unwrap();
    assert_eq!(b.is_intra, 1);
    let dpcm_chroma = b.data.intra.dpcm[1];
    // With 0xFF data and lossless, DPCM should be triggered
    let uv_mode = b.data.intra.uv_mode;
    if dpcm_chroma != 0 {
        // DPCM chroma: uv_mode is VERT(1) or HOR(2)
        assert!(uv_mode == 1 || uv_mode == 2);
    }
}

#[test]
fn test_decode_b_context_writeback() {
    let fi = make_info(64);
    let (mut a, mut l) = (BlockContext::default(), BlockContext::default());
    // Decode 8x8 block at (4,4); keyframe: always intra
    let f = leaf(4, 4, BlockSize::Bs8x8, BlockSize::Bs4x4);
    let b = run(&fi, f, 1, 256, &mut a, &mut l).unwrap();
    assert_eq!(b.is_intra, 1);

    // Verify above context written for bw4=2 positions starting at bx4=4
    assert_eq!(a.intra[4], 1);
    assert_eq!(a.intra[5], 1);
    assert_eq!(a.intrabc[4], 0);
    assert_eq!(a.skip_mode[4], 0);

    // Verify left context written for bh4=2 positions starting at by4=4
    assert_eq!(l.intra[4], 1);
    assert_eq!(l.intra[5], 1);
    assert_eq!(l.intrabc[4], 0);

    // Verify uvmode written for chroma (cbs=Bs4x4: cbw4=cbh4=1 at cbx4=4, cby4=4)
    let uv_mode = b.data.intra.uv_mode;
    assert_eq!(a.uvmode[4], uv_mode);
    assert_eq!(l.uvmode[4], uv_mode);
}

#[test]
fn test_decode_b_single_ref_inter() {
    let mut fi = make_info(64);
    fi.is_inter_or_switch = true;
    let (mut a, mut l) = (BlockContext::default(), BlockContext::default());
    let f = leaf(4, 4, BlockSize::Bs8x8, BlockSize::Bs8x8);
    for byte in [1u32, 0] {
        let b = run(&fi, f, byte, 512, &mut a, &mut l).unwrap();
        // In inter frame, block may be inter or intra depending on bitstream
        if b.is_intra == 0 {
            let comp_type = b.data.inter.comp_type;
            let inter_mode = b.data.inter.inter_mode;
            let refs = b.ref_pair.r;
            // Non-skip-mode single ref: comp_type=0, ref[1]=-1
            if b.skip_mode == 0 {
                assert_eq!(comp_type, 0);
                assert_eq!(refs[1], -1);
                // inter_mode should be NEARMV(13), GLOBALMV(14), or NEWMV(15)
                assert!(
                    inter_mode >= 13 && inter_mode <= 17,
                    "inter_mode {} out of range",
                    inter_mode
                );
            }
            // Context writeback: intra=0 in both a and l
            assert_eq!(a.intra[1], 0);
            assert_eq!(l.intra[1], 0);
        }
    }
}

#[test]
fn test_decode_b_compound_inter() {
    let mut fi = make_info(64);
    fi.is_inter_or_switch = true;
    fi.switchable_comp_refs = true;
    let (mut a, mut l) = (BlockContext::default(), BlockContext::default());
    let f = leaf(4, 4, BlockSize::Bs8x8, BlockSize::Bs8x8);
    let b = run(&fi, f, 0xFF, 512, &mut a, &mut l).unwrap();
    if b.is_intra == 0 {
        let comp_type = b.data.inter.comp_type;
        // With switchable_comp_refs and 0xFF data (decode returns 1),
        // is_comp=true so comp_type should be AVG(1)
        if b.skip_mode == 0 {
            assert_eq!(comp_type, 1, "expected compound (AVG) mode");
        }
    }
}

#[test]
fn asking_again_gives_the_same_block() {
    let mut fi = make_info(64);
    fi.is_inter_or_switch = true;
    fi.switchable_comp_refs = true;
    let f = leaf(4, 4, BlockSize::Bs8x8, BlockSize::Bs8x8);
    for byte in 0..4 {
        let (mut a, mut l) = (BlockContext::default(), BlockContext::default());
        let first = run(&fi, f, byte, 512, &mut a, &mut l);
        let (mut a, mut l) = (BlockContext::default(), BlockContext::default());
        let second = run(&fi, f, byte, 512, &mut a, &mut l);
        assert_eq!(first, second);
    }
}

/// Decodes a leaf with the reader answering one request after the other.
fn drive(
    fi: &SbFrameInfo,
    f: Leaf,
    answer: fn(Request) -> u32,
) -> (Result<DecodedBlock, Rav2dError>, TileState, Vec<Request>) {
    let mut msac = MsacContext::new(Vec::new());
    let mut asked = Vec::new();
    loop {
        let (mut a, mut l) = (BlockContext::default(), BlockContext::default());
        let mut t = make_tile(fi.bw);
        let r = decode_b(fi, &f, &mut a, &mut l, &mut t, &no_input(), &mut msac);
        match msac.pending() {
            None => return (r, t, asked),
            Some(q) => {
                asked.push(q);
                msac.answer(answer(q));
            }
        }
    }
}

fn inter_info() -> SbFrameInfo {
    let mut fi = make_info(64);
    fi.is_inter_or_switch = true;
    fi
}

fn near_answer(q: Request) -> u32 {
    match q {
        Request::Bool(Cdf::Intra(_)) => 1,
        Request::Candidate(_, _, CandPart::Y(0)) => 48,
        Request::Candidate(_, _, CandPart::X(0)) => 31,
        _ => 0,
    }
}

#[test]
fn vectors_come_from_their_candidates() {
    let (r, t, asked) = drive(&inter_info(), leaf(4, 8, BlockSize::Bs8x8, BlockSize::Bs8x8), near_answer);
    let d = r.unwrap();
    assert_eq!((d.block.is_intra, d.block.data.inter.inter_mode), (0, NEAR_MV));
    let mv = d.block.data.inter.mv[0].c;
    assert_eq!((mv.y, mv.x), (24, -16));
    let unit = t.motion.r[9 * 128 + 5];
    assert_eq!((unit.ox4, unit.oy4, unit.refs), (1, 1, [d.block.ref_pair.r[0], -1]));
    assert_eq!((unit.mv[0].c.y, unit.mv[0].c.x, unit.valid), (24, -16, true));
    assert_eq!(t.motion.r[9 * 128 + 6].valid, false);
    assert_eq!((d.built.bank, d.built.kept, d.built.warp_bank), (BankStep::Add, true, false));
    match d.built.plan {
        BlockPlan::Inter(v) => {
            assert_eq!(v.len(), 5);
            match v[0] {
                InterStep::Shift(p) => assert_eq!((p.mv.y, p.mv.x, p.bx, p.by), (24, -16, 4, 8)),
                _ => panic!("no shift"),
            }
            assert_eq!((v[1], v[4]), (InterStep::LumaResidual, InterStep::ChromaResidual));
        }
        BlockPlan::Intra(_) => panic!("no inter block"),
    }
    let n = asked.len();
    assert_eq!(asked[n - 2..], [Request::Coefs(1), Request::Coefs(4)]);
}

#[test]
fn blocks_without_coefficients_are_refused() {
    let f = leaf(4, 8, BlockSize::Bs8x8, BlockSize::Bs8x8);
    let (r, t, asked) = drive(&inter_info(), f, |q| match q {
        Request::Coefs(4) => NO_COEFS,
        _ => near_answer(q),
    });
    assert!(matches!(r, Err(Rav2dError::InvalidData)));
    assert_eq!(asked.last(), Some(&Request::Coefs(4)));
    // The block was recorded before.
    assert!(t.motion.r[8 * 128 + 4].valid);
}

#[test]
fn vectors_that_cannot_be_kept_are_refused() {
    let f = leaf(4, 8, BlockSize::Bs8x8, BlockSize::Bs8x8);
    let (r, t, _) = drive(&inter_info(), f, |q| match q {
        Request::Candidate(_, _, CandPart::Y(0)) => 0x4000_0000,
        _ => near_answer(q),
    });
    assert!(matches!(r, Err(Rav2dError::InvalidData)));
    assert!(!t.motion.r[8 * 128 + 4].valid);
}

#[test]
fn long_vectors_are_kept() {
    let f = leaf(4, 8, BlockSize::Bs8x8, BlockSize::Bs8x8);
    let (r, t, _) = drive(&inter_info(), f, |q| match q {
        Request::Candidate(_, _, CandPart::Y(0)) => 0x8_0000,
        _ => near_answer(q),
    });
    assert_eq!(r.unwrap().block.data.inter.mv[0].c.y, 0x4_0000);
    assert_eq!(t.motion.r[8 * 128 + 4].mv[0].c.y, 0x4_0000);
}

#[test]
fn copies_resolve_their_vector() {
    let mut fi = make_info(64);
    fi.allow_intrabc = true;
    let f = leaf(4, 20, BlockSize::Bs8x8, BlockSize::Bs8x8);
    let (r, t, _) = drive(&fi, f, |q| match q {
        Request::Bool(Cdf::IntraBc(_)) => 1,
        Request::Bool(Cdf::IntraBcMode) => 1,
        _ => 0,
    });
    let d = r.unwrap();
    assert_eq!((d.block.is_intra, d.block.intrabc), (1, 1));
    let mv = d.block.data.intra.intrabc_mv.c;
    // Without a candidate the copy comes from one superblock above.
    assert_eq!((mv.y, mv.x), (-512, 0));
    assert_eq!(t.motion.r[20 * 128 + 4].mv[0].c.y, -512);
    assert_eq!(d.built.bank, BankStep::Add);
    match d.built.plan {
        BlockPlan::Intra(v) => assert!(matches!(v[0], IntraStep::Copy(p) if p.mv.y == -512)),
        BlockPlan::Inter(_) => panic!("no copy"),
    }
}

#[test]
fn frames_without_references_or_segments_are_decoded() {
    let mut fi = make_info(64);
    fi.n_ref_frames = 0;
    fi.seg_skip_mask = 1;
    let (mut a, mut l) = (BlockContext::default(), BlockContext::default());
    let f = leaf(8, 8, BlockSize::Bs8x8, BlockSize::Bs8x8);
    let mut t = make_tile(64);
    t.segmap = Vec::new();
    let mut msac = MsacContext::new(vec![1; 128]);
    let d = decode_b(&fi, &f, &mut a, &mut l, &mut t, &no_input(), &mut msac).unwrap();
    assert_eq!((d.block.is_intra, d.block.intrabc), (1, 0));
    assert_eq!((d.block.seg_id, d.block.skip_txfm), (0, 1));
    assert_eq!((d.built.bank, d.built.kept), (BankStep::Nothing, false));
}

#[test]
fn changed_quantizers_have_their_own_steps() {
    let mut fi = make_info(64);
    fi.delta_q_present = true;
    fi.q_uac_delta = 3;
    fi.quant_yac = 100;
    let f = leaf(0, 0, BlockSize::Bs8x8, BlockSize::Bs8x8);
    let (r, t, _) = drive(&fi, f, |q| match q {
        Request::Symbol(Cdf::DeltaQ, _) => 5,
        _ => 0,
    });
    assert!(r.is_ok());
    assert_eq!((t.qidx, t.dequant), (5, DequantChoice::Compute));
    // The table starts at -1024.
    assert_eq!(t.dq[0], [[2029, 2029], [2029, 2032], [2029, 2029]]);
    let (_, t, _) = drive(&fi, f, |_| 0);
    assert_eq!((t.qidx, t.dequant), (1, DequantChoice::Compute));
    let (_, t, _) = drive(&fi, leaf(4, 0, BlockSize::Bs8x8, BlockSize::Bs8x8), |_| 0);
    assert_eq!((t.qidx, t.dequant), (0, DequantChoice::Keep));
    assert_eq!(t.dq[0], [[0, 0]; 3]);
}
