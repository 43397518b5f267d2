use rav2d::error::Rav2dError;
use rav2d::frame::{
    compute_gdf_ref_dst_idx, compute_restore_planes, init_ns_wiener_bank, init_start_of_tile_row,
    init_wiener, DqTable, LoopFilterState, NsWienerBank,
};
use rav2d::frameinfo::SbFrameInfo;
use rav2d::frameinit::{decode_frame_init, prepare_frame, FrameShape, FrameState};
use rav2d::headers::{
    AdaptiveBoolean, FrameHeader, FrameType, NSWienerPlane, RestorationType, SequenceHeader,
    TxfmMode, WarpedMotionType, MAX_SEGMENTS,
};
use rav2d::levels::{BlockSize, Mv, MvXY, RefPair};
use rav2d::msac::MsacContext;
use rav2d::restoration::{read_restoration_info, NsTables};
use rav2d::restunit::Av2RestorationUnit;
use rav2d::splat::{copy_entry, intra_entry};
use rav2d::tile::{
    decode_frame_init_cdf, decode_tip_frame_init, setup_tile, setup_tile_bounds,
    setup_tile_wiener_banks, CdfSource, TileGroup, TileParams, TileSlot, WienerRanges,
};
use rav2d::warp::{derive_warpmv, extend_warpmv, MvTile, WarpSite};

/// The ranges of the coefficients: the number of bits, and the least value.
const Y_RANGES: [[i8; 2]; 16] = [
    [5, -12], [5, -12], [5, -7], [5, -7], [4, -8], [4, -8], [4, -8], [4, -8], [4, -8], [4, -8],
    [4, -8], [4, -8], [4, -8], [4, -8], [4, -8], [4, -8],
];
const UV_RANGES: [[i8; 2]; 18] = [
    [5, -12], [5, -12], [5, -7], [5, -7], [4, -8], [4, -8], [4, -8], [4, -8], [4, -8], [4, -8],
    [4, -8], [4, -8], [4, -8], [4, -8], [4, -8], [4, -8], [4, -8], [4, -8],
];

fn make_ranges() -> WienerRanges {
    WienerRanges { y: Y_RANGES, uv: UV_RANGES }
}

fn make_y_tables() -> NsTables {
    NsTables { masks: vec![0, 0x3f, 0xfff, 0xffff], ranges: Y_RANGES.to_vec() }
}

fn make_uv_tables() -> NsTables {
    NsTables { masks: vec![0, 0x3f, 0x3ffff], ranges: UV_RANGES.to_vec() }
}

fn make_dq_table() -> DqTable {
    let mut steps: Vec<u32> = Vec::new();
    for q in 0..2048u32 {
        steps.push(32 + q);
    }
    DqTable { base: -1024, steps }
}

fn make_frame_state() -> FrameState {
    FrameState {
        lf: LoopFilterState::default(),
        tile_start_off: Vec::new(),
        ts: Vec::new(),
        n_ts: 0,
        a: Vec::new(),
        a_sz: 0,
        dq: [[[0u32; 2]; 3]; MAX_SEGMENTS],
        qm: [[None; 3]; 25],
    }
}

#[test]
fn test_compute_restore_planes_none() {
    let fh = FrameHeader::default();
    assert_eq!(compute_restore_planes(&fh), 0);
}

#[test]
fn test_compute_restore_planes_all() {
    let mut fh = FrameHeader::default();
    fh.restoration.p[0].restoration_type = RestorationType::NsWiener;
    fh.restoration.p[1].restoration_type = RestorationType::NsWiener;
    fh.restoration.p[2].restoration_type = RestorationType::PcWiener;
    assert_eq!(compute_restore_planes(&fh), 7);
}

#[test]
fn test_compute_restore_planes_gdf_only() {
    let mut fh = FrameHeader::default();
    fh.gdf.enabled = AdaptiveBoolean::On;
    assert_eq!(compute_restore_planes(&fh), 1);
}

#[test]
fn test_compute_gdf_ref_dst_idx_disabled() {
    let fh = FrameHeader::default();
    let absrefdist = [0u8; 7];
    assert_eq!(compute_gdf_ref_dst_idx(&fh, &absrefdist), 0);
}

#[test]
fn test_compute_gdf_ref_dst_idx_inter() {
    let mut fh = FrameHeader::default();
    fh.gdf.enabled = AdaptiveBoolean::On;
    fh.frame_type = FrameType::Inter;
    fh.n_ref_frames = 7;
    let absrefdist = [3, 5, 2, 1, 1, 1, 1];
    assert_eq!(compute_gdf_ref_dst_idx(&fh, &absrefdist), 3);
}

#[test]
fn test_init_ns_wiener_bank_y() {
    let mut bank = NsWienerBank::default();
    init_ns_wiener_bank(&mut bank, &Y_RANGES, 0, 3);
    assert_eq!(bank.bank_size, [0; 16]);
    assert_eq!(bank.bank_idx, [0; 16]);
    for n in 0..3 {
        assert_ne!(bank.filter[0][n][0], 0);
    }
    assert_eq!(bank.filter[0][3][0], 0);
}

#[test]
fn test_init_ns_wiener_bank_uv() {
    let mut bank = NsWienerBank::default();
    init_ns_wiener_bank(&mut bank, &UV_RANGES, 1, 2);
    for n in 0..2 {
        assert_ne!(bank.filter[0][n][0], 0);
    }
    assert_eq!(bank.filter[0][2][0], 0);
    assert_eq!(bank.filter[0][0][16], 0); // cf_range[16] = [4,-8] -> -8+8=0
    assert_eq!(bank.filter[0][0][18], 0); // beyond n_coeffs, untouched
}

#[test]
fn test_init_start_of_tile_row() {
    let row_start_sb: [u16; 4] = [0, 3, 5, 8];
    let mut buf = Vec::new();
    init_start_of_tile_row(&mut buf, 8, 3, &row_start_sb);
    assert_eq!(buf[0], 0b01); // tile_row=0, start
    assert_eq!(buf[1], 0b00); // tile_row=0, cont
    assert_eq!(buf[2], 0b00); // tile_row=0, cont
    assert_eq!(buf[3], 0b11); // tile_row=1, start
    assert_eq!(buf[4], 0b10); // tile_row=1, cont
    assert_eq!(buf[5], 0b101); // tile_row=2, start
    assert_eq!(buf[6], 0b100); // tile_row=2, cont
    assert_eq!(buf[7], 0b100); // tile_row=2, cont
}

#[test]
fn test_init_wiener_none() {
    let fh = FrameHeader::default();
    let mut lf = LoopFilterState::default();
    init_wiener(&fh, 77, &mut lf);
    assert_eq!(lf.base_q, 0);
}

#[test]
fn test_init_wiener_ns_wiener() {
    let mut fh = FrameHeader::default();
    fh.restoration.p[0].restoration_type = RestorationType::NsWiener;
    fh.restoration.p[0].ns.num_classes_idx = 3;
    fh.quant.yac = 100;
    let mut lf = LoopFilterState::default();
    init_wiener(&fh, 77, &mut lf);
    assert_eq!(lf.wiener_idx, 0);
    assert_eq!(lf.ns_subclass_class_idx, Some(2));
    assert!(lf.base_q != 0);
}

#[test]
fn test_init_wiener_idx_ranges() {
    let mut fh = FrameHeader::default();
    fh.restoration.p[0].restoration_type = RestorationType::PcWiener;

    let mut lf = LoopFilterState::default();
    fh.quant.yac = 50;
    init_wiener(&fh, 77, &mut lf);
    assert_eq!(lf.wiener_idx, 0);

    fh.quant.yac = 150;
    init_wiener(&fh, 77, &mut lf);
    assert_eq!(lf.wiener_idx, 1);

    fh.quant.yac = 200;
    init_wiener(&fh, 77, &mut lf);
    assert_eq!(lf.wiener_idx, 2);

    fh.quant.yac = 250;
    init_wiener(&fh, 77, &mut lf);
    assert_eq!(lf.wiener_idx, 3);
}

fn make_default_ns_plane(n_classes: u8) -> NSWienerPlane {
    NSWienerPlane {
        frame_filters_on: 0,
        num_classes_idx: 0,
        num_classes: n_classes,
        temporal: 0,
        refidx: 0,
        filter: [[0; 18]; 16],
    }
}

#[test]
fn test_read_restoration_info_switchable_none() {
    let mut msac = MsacContext::new(vec![0xFF; 16]);
    let mut bank = NsWienerBank::default();
    let mut lr = Av2RestorationUnit::default();
    let ns = make_default_ns_plane(1);
    read_restoration_info(
        &mut msac,
        &mut bank,
        &mut lr,
        0,
        RestorationType::Switchable,
        &ns,
        &make_y_tables(),
    );
    assert!(
        lr.restoration_type == RestorationType::Off
            || lr.restoration_type == RestorationType::PcWiener
            || lr.restoration_type == RestorationType::NsWiener
    );
}

#[test]
fn test_read_restoration_info_ns_wiener_type() {
    let mut msac = MsacContext::new(vec![0x00; 16]);
    let mut bank = NsWienerBank::default();
    let mut lr = Av2RestorationUnit::default();
    let ns = make_default_ns_plane(1);
    read_restoration_info(
        &mut msac,
        &mut bank,
        &mut lr,
        0,
        RestorationType::NsWiener,
        &ns,
        &make_y_tables(),
    );
    assert!(
        lr.restoration_type == RestorationType::Off
            || lr.restoration_type == RestorationType::NsWiener
    );
}

#[test]
fn test_read_restoration_info_pc_wiener_type() {
    let mut msac = MsacContext::new(vec![0x80; 16]);
    let mut bank = NsWienerBank::default();
    let mut lr = Av2RestorationUnit::default();
    let ns = make_default_ns_plane(1);
    read_restoration_info(
        &mut msac,
        &mut bank,
        &mut lr,
        0,
        RestorationType::PcWiener,
        &ns,
        &make_y_tables(),
    );
    assert!(
        lr.restoration_type == RestorationType::Off
            || lr.restoration_type == RestorationType::PcWiener
    );
}

#[test]
fn test_read_restoration_info_ns_filter_exact_match() {
    let mut msac = MsacContext::new(vec![0xFF; 64]);
    let mut bank = NsWienerBank::default();
    bank.filter[0][0][0] = 5;
    bank.filter[0][0][1] = -3;
    let mut lr = Av2RestorationUnit::default();
    let ns = make_default_ns_plane(1);
    read_restoration_info(
        &mut msac,
        &mut bank,
        &mut lr,
        0,
        RestorationType::NsWiener,
        &ns,
        &make_y_tables(),
    );
    if lr.restoration_type == RestorationType::NsWiener {
        assert!(bank.bank_size[0] <= 4);
    }
}

#[test]
fn test_read_restoration_info_uv_plane() {
    let mut msac = MsacContext::new(vec![0x40; 64]);
    let mut bank = NsWienerBank::default();
    let mut lr = Av2RestorationUnit::default();
    let ns = make_default_ns_plane(1);
    read_restoration_info(
        &mut msac,
        &mut bank,
        &mut lr,
        1,
        RestorationType::NsWiener,
        &ns,
        &make_uv_tables(),
    );
    assert!(
        lr.restoration_type == RestorationType::Off
            || lr.restoration_type == RestorationType::NsWiener
    );
}

#[test]
fn restoration_that_is_off_reads_one_symbol() {
    let mut msac = MsacContext::new(vec![0]);
    let mut bank = NsWienerBank::default();
    let mut lr = Av2RestorationUnit::default();
    let ns = make_default_ns_plane(1);
    read_restoration_info(
        &mut msac,
        &mut bank,
        &mut lr,
        0,
        RestorationType::NsWiener,
        &ns,
        &make_y_tables(),
    );
    assert!(lr.restoration_type == RestorationType::Off);
    assert!(msac.pending().is_none());
}

fn make_frame_hdr_for_init(cols: u8, rows: u8) -> FrameHeader {
    let mut hdr = FrameHeader::default();
    hdr.tiling.t.cols = cols;
    hdr.tiling.t.rows = rows;
    hdr.quant.yac = 100;
    hdr
}

#[test]
fn test_decode_frame_init_single_tile() {
    let hdr = make_frame_hdr_for_init(1, 1);
    let mut f = make_frame_state();
    let shape = FrameShape { sbh: 4, sb256w: 2, sb256h: 2, n_tc: 1, n_passes: 1 };
    decode_frame_init(&hdr, &make_dq_table(), &mut f, &[0u8; 7], &shape);

    assert_eq!(f.n_ts, 1);
    assert_eq!(f.ts.len(), 1);
    assert_eq!(f.lf.re_sz, 2);
    assert!(f.dq[0][0][0] > 0);
}

#[test]
fn test_decode_frame_init_multi_tile() {
    let hdr = make_frame_hdr_for_init(2, 3);
    let mut f = make_frame_state();
    let shape = FrameShape { sbh: 8, sb256w: 4, sb256h: 4, n_tc: 1, n_passes: 1 };
    decode_frame_init(&hdr, &make_dq_table(), &mut f, &[0u8; 7], &shape);

    assert_eq!(f.n_ts, 6);
    assert_eq!(f.ts.len(), 6);
    assert_eq!(f.a_sz, 4 * 3);
    assert_eq!(f.a.len(), 12);
}

#[test]
fn test_decode_frame_init_multithread_resets_ctx() {
    let mut hdr = make_frame_hdr_for_init(1, 1);
    hdr.tip.frame_mode = 0;
    let mut f = make_frame_state();
    let shape = FrameShape { sbh: 4, sb256w: 2, sb256h: 2, n_tc: 4, n_passes: 1 };
    decode_frame_init(&hdr, &make_dq_table(), &mut f, &[0u8; 7], &shape);

    assert_eq!(f.n_ts, 1);
    assert_eq!(f.a.len(), 2);
    assert_eq!(f.a[0].tx_lpf_y[0], 3);
}

#[test]
fn test_decode_frame_init_multipass_allocs_tile_start_off() {
    let hdr = make_frame_hdr_for_init(2, 2);
    let mut f = make_frame_state();
    let shape = FrameShape { sbh: 4, sb256w: 2, sb256h: 2, n_tc: 1, n_passes: 2 };
    decode_frame_init(&hdr, &make_dq_table(), &mut f, &[0u8; 7], &shape);

    assert_eq!(f.n_ts, 4);
    assert_eq!(f.tile_start_off.len(), 4);
}

#[test]
fn test_decode_frame_init_mask_alloc() {
    let hdr = make_frame_hdr_for_init(1, 1);
    let mut f = make_frame_state();
    let shape = FrameShape { sbh: 4, sb256w: 3, sb256h: 2, n_tc: 1, n_passes: 1 };
    decode_frame_init(&hdr, &make_dq_table(), &mut f, &[0u8; 7], &shape);

    assert_eq!(f.lf.mask.len(), 6);
    assert_eq!(f.lf.lr_mask.len(), 6);
}

#[test]
fn test_setup_tile_bounds_basic() {
    let mut ts = TileSlot::default();
    let col_start_sb: [u16; 3] = [0, 4, 8];
    let row_start_sb: [u16; 3] = [0, 2, 4];

    setup_tile_bounds(&mut ts, 0, 1, &col_start_sb, &row_start_sb, 2, 64, 32, 1);

    assert_eq!(ts.tiling.row, 0);
    assert_eq!(ts.tiling.col, 1);
    assert_eq!(ts.tiling.col_start, 16);
    assert_eq!(ts.tiling.col_end, 32);
    assert_eq!(ts.tiling.row_start, 0);
    assert_eq!(ts.tiling.row_end, 8);
}

#[test]
fn test_setup_tile_bounds_clamps_to_frame() {
    let mut ts = TileSlot::default();
    let col_start_sb: [u16; 2] = [0, 100];
    let row_start_sb: [u16; 2] = [0, 100];

    setup_tile_bounds(&mut ts, 0, 0, &col_start_sb, &row_start_sb, 2, 30, 20, 1);

    assert_eq!(ts.tiling.col_end, 30);
    assert_eq!(ts.tiling.row_end, 20);
}

#[test]
fn test_setup_tile_bounds_multithread_progress() {
    let mut ts = TileSlot::default();
    let col_start_sb: [u16; 2] = [0, 4];
    let row_start_sb: [u16; 3] = [0, 3, 6];

    setup_tile_bounds(&mut ts, 1, 0, &col_start_sb, &row_start_sb, 2, 64, 64, 4);

    for p in 0..3 {
        assert_eq!(ts.progress[p], 3);
    }
}

#[test]
fn test_decode_tip_frame_init_sets_all_tiles() {
    let mut hdr = FrameHeader::default();
    hdr.tiling.t.cols = 2;
    hdr.tiling.t.rows = 2;
    hdr.tiling.t.col_start_sb[0] = 0;
    hdr.tiling.t.col_start_sb[1] = 4;
    hdr.tiling.t.col_start_sb[2] = 8;
    hdr.tiling.t.row_start_sb[0] = 0;
    hdr.tiling.t.row_start_sb[1] = 3;
    hdr.tiling.t.row_start_sb[2] = 6;

    let mut ts = vec![
        TileSlot::default(),
        TileSlot::default(),
        TileSlot::default(),
        TileSlot::default(),
    ];

    decode_tip_frame_init(&mut ts, &hdr, 2, 64, 48, 1);

    assert_eq!(ts[0].tiling.col_start, 0);
    assert_eq!(ts[0].tiling.row_start, 0);
    assert_eq!(ts[1].tiling.col_start, 16);
    assert_eq!(ts[1].tiling.row_start, 0);
    assert_eq!(ts[2].tiling.col_start, 0);
    assert_eq!(ts[2].tiling.row_start, 12);
    assert_eq!(ts[3].tiling.col_start, 16);
    assert_eq!(ts[3].tiling.row_start, 12);
    assert_eq!(ts[3].tiling.row_end, 24);
}

#[test]
fn test_setup_tile_wiener_banks() {
    let mut ts = TileSlot::default();
    let mut hdr = FrameHeader::default();
    hdr.restoration.p[0].restoration_type = RestorationType::NsWiener;
    hdr.restoration.p[0].ns.num_classes = 2;
    hdr.restoration.p[1].restoration_type = RestorationType::Off;
    hdr.restoration.p[2].restoration_type = RestorationType::Switchable;
    hdr.restoration.p[2].ns.num_classes = 1;

    setup_tile_wiener_banks(&mut ts, &hdr, &make_ranges());

    assert_ne!(ts.ns_wiener_bank[0].filter[0][0][0], 0);
    assert_ne!(ts.ns_wiener_bank[2].filter[0][0][0], 0);
}

#[test]
fn test_setup_tile_sets_cdf_and_qidx() {
    let mut ts = TileSlot::default();
    let mut hdr = FrameHeader::default();
    hdr.quant.yac = 128;
    hdr.tiling.t.cols = 1;
    hdr.tiling.t.rows = 1;
    hdr.tiling.t.col_start_sb[1] = 4;
    hdr.tiling.t.row_start_sb[1] = 4;
    let data = vec![0xAA; 32];

    setup_tile(
        &mut ts,
        &data,
        &hdr,
        &make_ranges(),
        None,
        2,
        0,
        0,
        hdr.tiling.t.col_start_sb.as_ref(),
        hdr.tiling.t.row_start_sb.as_ref(),
        2,
        32,
        32,
        1,
        0,
    );

    assert_eq!(ts.last_qidx, 128);
    assert_eq!(ts.msac_buf.len(), 32);
    assert_eq!(ts.tiling.col_start, 0);
    assert_eq!(ts.tiling.row_start, 0);
    assert_eq!(ts.cdf, CdfSource::Defaults(2));
}

#[test]
fn test_setup_tile_with_input_cdf() {
    let mut ts = TileSlot::default();
    let hdr = FrameHeader::default();

    setup_tile(
        &mut ts,
        &[0; 8],
        &hdr,
        &make_ranges(),
        Some(12345),
        0,
        0,
        0,
        &[0, 1],
        &[0, 1],
        2,
        16,
        16,
        1,
        0,
    );

    assert_eq!(ts.cdf, CdfSource::Kept(12345));
}

fn make_tile_params(bw: i32, bh: i32) -> TileParams {
    TileParams { in_cdf: None, qcat: 0, sb_shift: 2, bw, bh, n_tc: 1, n_passes: 1 }
}

#[test]
fn test_decode_frame_init_cdf_single_tile() {
    let mut hdr = FrameHeader::default();
    hdr.tiling.t.cols = 1;
    hdr.tiling.t.rows = 1;
    hdr.tiling.t.col_start_sb[1] = 4;
    hdr.tiling.t.row_start_sb[1] = 4;
    hdr.tiling.n_bytes = 2;

    let tg = TileGroup { data: vec![0x55; 64], start: 0, end: 0 };
    let mut ts = vec![TileSlot::default()];
    let tile_start_off = vec![0u32];

    let res = decode_frame_init_cdf(
        &mut ts,
        &[tg],
        &hdr,
        &make_ranges(),
        &make_tile_params(32, 32),
        &tile_start_off,
    );

    assert!(res.is_ok());
    assert_eq!(ts[0].msac_buf.len(), 64);
}

#[test]
fn test_decode_frame_init_cdf_multi_tile() {
    let mut hdr = FrameHeader::default();
    hdr.tiling.t.cols = 2;
    hdr.tiling.t.rows = 1;
    hdr.tiling.t.col_start_sb[1] = 4;
    hdr.tiling.t.col_start_sb[2] = 8;
    hdr.tiling.t.row_start_sb[1] = 4;
    hdr.tiling.n_bytes = 2;

    let mut data = Vec::new();
    // tile 0 size: 10 bytes (little-endian: 9 because tile_sz = stored+1)
    data.push(9);
    data.push(0);
    data.extend_from_slice(&[0xAA; 10]);
    // tile 1: remaining
    data.extend_from_slice(&[0xBB; 20]);

    let tg = TileGroup { data, start: 0, end: 1 };
    let mut ts = vec![TileSlot::default(), TileSlot::default()];
    let tile_start_off = vec![0u32; 2];

    let res = decode_frame_init_cdf(
        &mut ts,
        &[tg],
        &hdr,
        &make_ranges(),
        &make_tile_params(64, 32),
        &tile_start_off,
    );

    assert!(res.is_ok());
    assert_eq!(ts[0].msac_buf.len(), 10);
    assert_eq!(ts[1].msac_buf.len(), 20);
    assert_eq!(ts[0].tiling.col, 0);
    assert_eq!(ts[1].tiling.col, 1);
}

#[test]
fn test_decode_frame_init_cdf_error_on_truncated() {
    let mut hdr = FrameHeader::default();
    hdr.tiling.t.cols = 2;
    hdr.tiling.t.rows = 1;
    hdr.tiling.n_bytes = 2;

    // too short: claims huge tile_sz
    let tg = TileGroup { data: vec![0xFF; 3], start: 0, end: 1 };
    let mut ts = vec![TileSlot::default(), TileSlot::default()];
    let tile_start_off = vec![0u32; 2];

    let res = decode_frame_init_cdf(
        &mut ts,
        &[tg],
        &hdr,
        &make_ranges(),
        &make_tile_params(64, 32),
        &tile_start_off,
    );

    assert!(res.is_err());
}

#[test]
fn frames_without_enough_tile_data_are_refused() {
    let mut hdr = make_frame_hdr_for_init(2, 1);
    hdr.tiling.n_bytes = 2;
    let tg = TileGroup { data: vec![0xFF; 3], start: 0, end: 1 };
    let mut f = make_frame_state();
    let shape = FrameShape { sbh: 4, sb256w: 2, sb256h: 2, n_tc: 1, n_passes: 1 };
    let res = prepare_frame(
        &hdr,
        &make_dq_table(),
        &make_ranges(),
        &[tg],
        &make_tile_params(64, 32),
        &mut f,
        &[0; 7],
        &shape,
    );
    assert_eq!(res, Err(Rav2dError::InvalidData));
    assert_eq!(f.n_ts, 2);
}

fn make_test_tile() -> MvTile {
    let unit = intra_entry(BlockSize::Bs4x4);
    MvTile { r: vec![unit; 64 * 128], ra: vec![unit; 256], ra_off: 0, ra_tl: unit }
}

#[test]
fn test_extend_warpmv_translation() {
    let mut rt = make_test_tile();
    let by = 4i32;
    let bx = 4i32;
    let sb_step = 16;
    let neighbor_row = ((by - 1) & 63) as usize * 128;
    let neighbor_x = ((bx + 2) & 127) as usize;
    rt.r[neighbor_row + neighbor_x].mf = 0;
    rt.r[neighbor_row + neighbor_x].mv[0] = Mv { c: MvXY { y: 100, x: 200 } };
    rt.r[neighbor_row + neighbor_x].refs[0] = 1;

    let b_dim = &[4u8, 4, 2, 2];
    let mv0 = Mv { c: MvXY { y: 50, x: 100 } };
    let gmv = [0i32; 6];

    let m = extend_warpmv(&rt, bx, by, 2, -1, b_dim, 1, mv0, sb_step, &gmv);
    assert_eq!(m.len(), 6);
}

#[test]
fn test_derive_warpmv_single_top_neighbor() {
    let mut rt = make_test_tile();
    let by = 4i32;
    let bx = 4i32;
    let sb_step = 16;
    let ref_idx: i8 = 1;
    let above_row = ((by - 1) & 63) as usize * 128;
    let above_x = (bx & 127) as usize;
    rt.r[above_row + above_x].bs = BlockSize::Bs8x8;
    rt.r[above_row + above_x].mf = 0;
    rt.r[above_row + above_x].mv[0] = Mv { c: MvXY { y: 32, x: 64 } };
    rt.r[above_row + above_x].refs[0] = ref_idx;

    let left_col = ((bx - 1) & 127) as usize;
    let cur_row = (by & 63) as usize * 128;
    rt.r[cur_row + left_col].bs = BlockSize::Bs8x8;
    rt.r[cur_row + left_col].mf = 0;
    rt.r[cur_row + left_col].mv[0] = Mv { c: MvXY { y: 16, x: 48 } };
    rt.r[cur_row + left_col].refs[0] = ref_idx;

    let site = WarpSite {
        bx,
        by,
        have_top: true,
        have_left: true,
        bw4: 2,
        w4: 2,
        h4: 2,
        sb_step,
        col_end: 64,
    };
    let samples = derive_warpmv(&rt, &site, ref_idx);
    assert!(samples.len() <= 8);
    assert!(samples.len() >= 1);
}

#[test]
fn copied_blocks_keep_their_vector() {
    let e = copy_entry(BlockSize::Bs8x8, Mv { c: MvXY { y: -8, x: -16 } });
    assert_eq!(e.mv[0].c.x, -16);
    assert_eq!(e.refs, [-1, -1]);
    assert!(e.valid);
    assert!(e.warp_type == WarpedMotionType::Identity);
}

#[test]
fn test_sbframeinfo_from_frame() {
    let seq = SequenceHeader { ss_hor: 1, ss_ver: 1, sdp: true, ..Default::default() };
    let mut fh = FrameHeader::default();
    fh.frame_type = FrameType::Key;
    fh.segmentation.enabled = 1;
    fh.n_ref_frames = 7;
    fh.txfm_mode = TxfmMode::Switchable;

    let fi = SbFrameInfo::from_frame(
        &seq,
        &fh,
        64,
        64,
        BlockSize::Bs64x64,
        16,
        1,
        [0; 8],
        &[0; 7],
        &[0; 7],
        RefPair { r: [0, 0] },
        0,
        64,
        0,
        64,
        -1,
        RefPair { r: [-1, -1] },
    );

    assert_eq!(fi.bw, 64);
    assert_eq!(fi.bh, 64);
    assert_eq!(fi.ss_hor, 1);
    assert_eq!(fi.ss_ver, 1);
    assert_eq!(fi.sb_step, 16);
    assert!(!fi.is_inter_or_switch);
    assert!(fi.sdp);
    assert!(fi.seg_enabled);
    assert!(fi.txfm_switchable);
    assert_eq!(fi.n_ref_frames, 7);
    assert_eq!(fi.tile_col_end, 64);
    assert_eq!(fi.tile_row_end, 64);
}
