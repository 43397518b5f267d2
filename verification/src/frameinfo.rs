//! What the parser of a superblock needs to know of its frame and tile.
use vstd::prelude::*;

use crate::headers::{
    AdaptiveBoolean, FrameHeader, FrameType, PixelLayout, SequenceHeader, TxfmMode,
};
use crate::intops::shr;
use crate::levels::{BlockSize, RefPair};
use crate::tile::TileBounds;

verus! {

#[derive(Debug, Clone, Copy)]
pub struct SbFrameInfo {
    pub bw: i32,
    pub bh: i32,
    pub ss_ver: i32,
    pub ss_hor: i32,
    pub root_bs: BlockSize,
    pub is_inter_or_switch: bool,
    pub sdp: bool,
    pub ext_sdp: bool,
    pub ext_partitions: bool,
    pub uneven_4way: bool,
    pub max_pb_aspect_ratio_log2: u8,
    pub n_passes: i32,
    pub seg_enabled: bool,
    pub seg_update_map: bool,
    pub seg_temporal: bool,
    pub seg_preskip: bool,
    pub seg_ext: bool,
    pub seg_last_active_segid: u8,
    pub seg_globalmv_mask: u16,
    pub seg_skip_mask: u16,
    pub seg_lossless: [u8; 16],
    pub has_prev_segmap: bool,
    pub delta_q_present: bool,
    pub delta_q_res_log2: u8,
    pub quant_yac: i32,
    pub sb128: i32,
    pub b4_stride: i32,
    pub q_ydc_delta: i32,
    pub q_uac_delta: i32,
    pub q_udc_delta: i32,
    pub q_vac_delta: i32,
    pub q_vdc_delta: i32,
    pub seg_delta_q: [i16; 16],
    pub gdf_enabled: AdaptiveBoolean,
    pub gdf_is_key: bool,
    pub cur_w: i32,
    pub cur_h: i32,
    pub cdef_enabled: bool,
    pub cdef_on_skiptx: bool,
    pub cdef_n_strengths: u8,
    pub ccso_enabled: [bool; 3],
    pub ccso_sb_reuse: [bool; 3],
    pub sb256w: i32,
    pub skip_mode_enabled: bool,
    pub allow_intrabc: bool,
    pub any_lossless: bool,
    pub has_chroma_layout: bool,
    pub idtx_intra: bool,
    pub mrls: bool,
    pub mhccp: bool,
    pub cfl: bool,
    pub allow_screen_content_tools: bool,
    pub intra_dip: bool,
    pub force_integer_mv: bool,
    pub max_bvp_drl_bits: u8,
    pub max_drl_bits: u8,
    pub bawp: bool,
    pub txfm_switchable: bool,
    pub skip_mode_refs: RefPair,
    pub n_ref_frames: u8,
    pub warp_motion: bool,
    pub motion_modes: u8,
    pub adaptive_mvd: bool,
    pub flex_mvres: bool,
    pub mv_precision: u8,
    pub mvd_sign_derive: bool,
    pub tip_frame_mode: u8,
    pub six_param_warp_delta: bool,
    pub subpel_filter_mode: u8,
    pub switchable_comp_refs: bool,
    pub num_same_ref_comp: u8,
    pub refdir: [u8; 8],
    pub refdist: [i8; 8],
    pub opfl_refine_type: u8,
    pub masked_compound: bool,
    pub cwp: bool,
    pub refine_mv_enabled: bool,
    pub absrefdist: [u8; 8],
    pub furthest_future_refidx: i8,
    pub tip: RefPair,
    pub tile_col_start: i32,
    pub tile_col_end: i32,
    pub tile_row_start: i32,
    pub tile_row_end: i32,
    pub sb_step: i32,
}

impl Default for SbFrameInfo {
    fn default() -> (r: Self)
        ensures
            r.bw == 0,
            r.bh == 0,
            r.ss_ver == 0,
            r.ss_hor == 0,
            r.root_bs == BlockSize::Invalid,
            !r.is_inter_or_switch,
            !r.sdp,
            !r.ext_sdp,
            !r.ext_partitions,
            !r.uneven_4way,
            r.max_pb_aspect_ratio_log2 == 0,
            r.n_passes == 0,
            !r.seg_enabled,
            !r.seg_update_map,
            !r.seg_temporal,
            !r.seg_preskip,
            !r.seg_ext,
            r.seg_last_active_segid == 0,
            r.seg_globalmv_mask == 0,
            r.seg_skip_mask == 0,
            forall|i: int| 0 <= i < 16 ==> r.seg_lossless[i] == 0,
            !r.has_prev_segmap,
            !r.delta_q_present,
            r.delta_q_res_log2 == 0,
            r.quant_yac == 0,
            r.sb128 == 0,
            r.b4_stride == 0,
            r.q_ydc_delta == 0,
            r.q_uac_delta == 0,
            r.q_udc_delta == 0,
            r.q_vac_delta == 0,
            r.q_vdc_delta == 0,
            forall|i: int| 0 <= i < 16 ==> r.seg_delta_q[i] == 0,
            r.gdf_enabled == AdaptiveBoolean::Off,
            !r.gdf_is_key,
            r.cur_w == 0,
            r.cur_h == 0,
            !r.cdef_enabled,
            !r.cdef_on_skiptx,
            r.cdef_n_strengths == 0,
            forall|i: int| 0 <= i < 3 ==> !r.ccso_enabled[i],
            forall|i: int| 0 <= i < 3 ==> !r.ccso_sb_reuse[i],
            r.sb256w == 0,
            !r.skip_mode_enabled,
            !r.allow_intrabc,
            !r.any_lossless,
            !r.has_chroma_layout,
            !r.idtx_intra,
            !r.mrls,
            !r.mhccp,
            !r.cfl,
            !r.allow_screen_content_tools,
            !r.intra_dip,
            !r.force_integer_mv,
            r.max_bvp_drl_bits == 0,
            r.max_drl_bits == 0,
            !r.bawp,
            !r.txfm_switchable,
            r.skip_mode_refs.r[0] == 0 && r.skip_mode_refs.r[1] == 0,
            r.n_ref_frames == 0,
            !r.warp_motion,
            r.motion_modes == 0,
            !r.adaptive_mvd,
            !r.flex_mvres,
            r.mv_precision == 0,
            !r.mvd_sign_derive,
            r.tip_frame_mode == 0,
            !r.six_param_warp_delta,
            r.subpel_filter_mode == 0,
            !r.switchable_comp_refs,
            r.num_same_ref_comp == 0,
            forall|i: int| 0 <= i < 8 ==> r.refdir[i] == 0,
            forall|i: int| 0 <= i < 8 ==> r.refdist[i] == 0,
            r.opfl_refine_type == 0,
            !r.masked_compound,
            !r.cwp,
            !r.refine_mv_enabled,
            forall|i: int| 0 <= i < 8 ==> r.absrefdist[i] == 0,
            r.furthest_future_refidx == 0,
            r.tip.r[0] == 0 && r.tip.r[1] == 0,
            r.tile_col_start == 0,
            r.tile_col_end == 0,
            r.tile_row_start == 0,
            r.tile_row_end == 0,
            r.sb_step == 0,
    {
        SbFrameInfo {
            bw: 0,
            bh: 0,
            ss_ver: 0,
            ss_hor: 0,
            root_bs: BlockSize::Invalid,
            is_inter_or_switch: false,
            sdp: false,
            ext_sdp: false,
            ext_partitions: false,
            uneven_4way: false,
            max_pb_aspect_ratio_log2: 0,
            n_passes: 0,
            seg_enabled: false,
            seg_update_map: false,
            seg_temporal: false,
            seg_preskip: false,
            seg_ext: false,
            seg_last_active_segid: 0,
            seg_globalmv_mask: 0,
            seg_skip_mask: 0,
            seg_lossless: [0; 16],
            has_prev_segmap: false,
            delta_q_present: false,
            delta_q_res_log2: 0,
            quant_yac: 0,
            sb128: 0,
            b4_stride: 0,
            q_ydc_delta: 0,
            q_uac_delta: 0,
            q_udc_delta: 0,
            q_vac_delta: 0,
            q_vdc_delta: 0,
            seg_delta_q: [0; 16],
            gdf_enabled: AdaptiveBoolean::Off,
            gdf_is_key: false,
            cur_w: 0,
            cur_h: 0,
            cdef_enabled: false,
            cdef_on_skiptx: false,
            cdef_n_strengths: 0,
            ccso_enabled: [false, false, false],
            ccso_sb_reuse: [false, false, false],
            sb256w: 0,
            skip_mode_enabled: false,
            allow_intrabc: false,
            any_lossless: false,
            has_chroma_layout: false,
            idtx_intra: false,
            mrls: false,
            mhccp: false,
            cfl: false,
            allow_screen_content_tools: false,
            intra_dip: false,
            force_integer_mv: false,
            max_bvp_drl_bits: 0,
            max_drl_bits: 0,
            bawp: false,
            txfm_switchable: false,
            skip_mode_refs: RefPair { r: [0, 0] },
            n_ref_frames: 0,
            warp_motion: false,
            motion_modes: 0,
            adaptive_mvd: false,
            flex_mvres: false,
            mv_precision: 0,
            mvd_sign_derive: false,
            tip_frame_mode: 0,
            six_param_warp_delta: false,
            subpel_filter_mode: 0,
            switchable_comp_refs: false,
            num_same_ref_comp: 0,
            refdir: [0; 8],
            refdist: [0; 8],
            opfl_refine_type: 0,
            masked_compound: false,
            cwp: false,
            refine_mv_enabled: false,
            absrefdist: [0; 8],
            furthest_future_refidx: 0,
            tip: RefPair { r: [0, 0] },
            tile_col_start: 0,
            tile_col_end: 0,
            tile_row_start: 0,
            tile_row_end: 0,
            sb_step: 0,
        }
    }
}

/// The size of a frame as its blocks see it, and the number of its passes.
pub struct InfoSize {
    pub bw: i32,
    pub bh: i32,
    pub root_bs: BlockSize,
    pub sb_step: i32,
    pub n_passes: i32,
}

/// What blocks know of the references of their frame.
pub struct InfoRefs {
    pub refdir: [u8; 8],
    pub refdist: [i8; 7],
    pub absrefdist: [u8; 7],
    pub skip_mode_refs: RefPair,
    pub furthest_future_refidx: i8,
    pub tip: RefPair,
}

/// `r` is what the blocks of a tile know of their frame. What is known of the
/// seven references is extended by an entry of zero.
pub open spec fn is_frame_info(
    seq_hdr: SequenceHeader,
    frame_hdr: FrameHeader,
    g: InfoSize,
    k: InfoRefs,
    tile: TileBounds,
    r: SbFrameInfo,
) -> bool {
    &&& r.bw == g.bw
    &&& r.bh == g.bh
    &&& r.ss_ver == seq_hdr.ss_ver
    &&& r.ss_hor == seq_hdr.ss_hor
    &&& r.root_bs == g.root_bs
    &&& r.is_inter_or_switch == frame_hdr.frame_type.inter_or_switch()
    &&& r.sdp == seq_hdr.sdp
    &&& r.ext_sdp == seq_hdr.ext_sdp
    &&& r.ext_partitions == seq_hdr.ext_partitions
    &&& r.uneven_4way == seq_hdr.uneven_4way_partitions
    &&& r.max_pb_aspect_ratio_log2 == seq_hdr.max_pb_aspect_ratio_log2
    &&& r.n_passes == g.n_passes
    &&& r.seg_enabled == (frame_hdr.segmentation.enabled != 0)
    &&& r.seg_update_map == (frame_hdr.segmentation.update_map != 0)
    &&& r.seg_temporal == (frame_hdr.segmentation.temporal != 0)
    &&& r.seg_preskip == (frame_hdr.segmentation.preskip != 0)
    &&& r.seg_ext == seq_hdr.segmentation.ext
    &&& r.seg_last_active_segid == frame_hdr.segmentation.last_active_segid
    &&& r.seg_globalmv_mask == frame_hdr.segmentation.d.globalmv_mask
    &&& r.seg_skip_mask == frame_hdr.segmentation.d.skip_mask
    &&& r.seg_lossless == frame_hdr.segmentation.lossless
    &&& r.has_prev_segmap == (frame_hdr.primary_ref_frame is Some)
    &&& r.delta_q_present == (frame_hdr.delta.q.present != 0)
    &&& r.delta_q_res_log2 == frame_hdr.delta.q.res_log2
    &&& r.quant_yac == frame_hdr.quant.yac
    &&& r.sb128 == frame_hdr.sb128
    &&& r.b4_stride == 64 * ((g.bw + 63) / 64)
    &&& r.q_ydc_delta == frame_hdr.quant.ydc_delta
    &&& r.q_uac_delta == frame_hdr.quant.uac_delta
    &&& r.q_udc_delta == frame_hdr.quant.udc_delta
    &&& r.q_vac_delta == frame_hdr.quant.vac_delta
    &&& r.q_vdc_delta == frame_hdr.quant.vdc_delta
    &&& r.seg_delta_q == frame_hdr.segmentation.d.delta_q
    &&& r.gdf_enabled == frame_hdr.gdf.enabled
    &&& r.gdf_is_key == (frame_hdr.frame_type == FrameType::Key)
    &&& r.cur_w == frame_hdr.width
    &&& r.cur_h == frame_hdr.height
    &&& r.cdef_enabled == (frame_hdr.cdef.enabled != 0)
    &&& r.cdef_on_skiptx == (frame_hdr.cdef.on_skiptx != 0)
    &&& r.cdef_n_strengths == frame_hdr.cdef.n_strengths
    &&& forall|p: int| 0 <= p < 3 ==> r.ccso_enabled[p] == (frame_hdr.ccso.p[p].enabled != 0)
    &&& forall|p: int| 0 <= p < 3 ==> r.ccso_sb_reuse[p] == (frame_hdr.ccso.p[p].sb_reuse != 0)
    &&& r.sb256w == (g.bw + 63) / 64
    &&& r.skip_mode_enabled == (frame_hdr.skip_mode_enabled != 0)
    &&& r.allow_intrabc == (frame_hdr.allow_intrabc != 0)
    &&& r.any_lossless == (frame_hdr.any_lossless != 0)
    &&& r.has_chroma_layout == (seq_hdr.layout != PixelLayout::I400)
    &&& r.idtx_intra == seq_hdr.idtx_intra
    &&& r.mrls == seq_hdr.mrls
    &&& r.mhccp == seq_hdr.mhccp
    &&& r.cfl == seq_hdr.cfl
    &&& r.allow_screen_content_tools == (frame_hdr.allow_screen_content_tools != 0)
    &&& r.intra_dip == seq_hdr.intra_dip
    &&& r.force_integer_mv == (frame_hdr.force_integer_mv != 0)
    &&& r.max_bvp_drl_bits == frame_hdr.max_bvp_drl_bits
    &&& r.max_drl_bits == frame_hdr.max_drl_bits
    &&& r.bawp == (frame_hdr.bawp != 0)
    &&& r.txfm_switchable == (frame_hdr.txfm_mode == TxfmMode::Switchable)
    &&& r.skip_mode_refs == k.skip_mode_refs
    &&& r.n_ref_frames == frame_hdr.n_ref_frames
    &&& r.warp_motion == (frame_hdr.warp_motion != 0)
    &&& r.motion_modes == frame_hdr.motion_modes
    &&& r.adaptive_mvd == seq_hdr.adaptive_mvd
    &&& r.flex_mvres == seq_hdr.flex_mvres
    &&& r.mv_precision == frame_hdr.mv_precision
    &&& r.mvd_sign_derive == seq_hdr.mvd_sign_derive
    &&& r.tip_frame_mode == frame_hdr.tip.frame_mode
    &&& r.six_param_warp_delta == seq_hdr.six_param_warp_delta
    &&& r.subpel_filter_mode == frame_hdr.subpel_filter_mode
    &&& r.switchable_comp_refs == (frame_hdr.switchable_comp_refs != 0)
    &&& r.num_same_ref_comp == seq_hdr.num_same_ref_comp
    &&& r.refdir == k.refdir
    &&& forall|i: int| 0 <= i < 8 ==> r.refdist[i] == (if i < 7 { k.refdist[i] } else { 0 })
    &&& r.opfl_refine_type == frame_hdr.opfl_refine_type
    &&& r.masked_compound == seq_hdr.masked_compound
    &&& r.cwp == seq_hdr.cwp
    &&& r.refine_mv_enabled == seq_hdr.refine_mv
    &&& forall|i: int| 0 <= i < 8 ==> r.absrefdist[i] == (if i < 7 { k.absrefdist[i] } else { 0 })
    &&& r.furthest_future_refidx == k.furthest_future_refidx
    &&& r.tip == k.tip
    &&& r.tile_col_start == tile.col_start
    &&& r.tile_col_end == tile.col_end
    &&& r.tile_row_start == tile.row_start
    &&& r.tile_row_end == tile.row_end
    &&& r.sb_step == g.sb_step
}

impl SbFrameInfo {
    /// Gathers the information from the headers, the geometry of the frame and
    /// the bounds of the tile. What is known of the seven references is
    /// extended by an entry of zero.
    pub fn from_frame(
        seq_hdr: &SequenceHeader,
        frame_hdr: &FrameHeader,
        bw: i32,
        bh: i32,
        root_bs: BlockSize,
        sb_step: i32,
        n_passes: i32,
        refdir: [u8; 8],
        refdist: &[i8; 7],
        absrefdist: &[u8; 7],
        skip_mode_refs: RefPair,
        tile_col_start: i32,
        tile_col_end: i32,
        tile_row_start: i32,
        tile_row_end: i32,
        furthest_future_refidx: i8,
        tip: RefPair,
    ) -> (r: Self)
        requires
            0 <= bw <= i32::MAX - 63,
        ensures
            is_frame_info(
                *seq_hdr,
                *frame_hdr,
                (InfoSize { bw, bh, root_bs, sb_step, n_passes }),
                (InfoRefs {
                    refdir,
                    refdist: *refdist,
                    absrefdist: *absrefdist,
                    skip_mode_refs,
                    furthest_future_refidx,
                    tip,
                }),
                (TileBounds {
                    row: 0,
                    col: 0,
                    col_start: tile_col_start,
                    col_end: tile_col_end,
                    row_start: tile_row_start,
                    row_end: tile_row_end,
                }),
                r,
            ),
    {
        proof {
            assert(crate::intops::p2(6) == 64);
        }
        SbFrameInfo {
            bw,
            bh,
            ss_ver: seq_hdr.ss_ver as i32,
            ss_hor: seq_hdr.ss_hor as i32,
            root_bs,
            is_inter_or_switch: frame_hdr.is_inter_or_switch(),
            sdp: seq_hdr.sdp,
            ext_sdp: seq_hdr.ext_sdp,
            ext_partitions: seq_hdr.ext_partitions,
            uneven_4way: seq_hdr.uneven_4way_partitions,
            max_pb_aspect_ratio_log2: seq_hdr.max_pb_aspect_ratio_log2,
            n_passes,
            seg_enabled: frame_hdr.segmentation.enabled != 0,
            seg_update_map: frame_hdr.segmentation.update_map != 0,
            seg_temporal: frame_hdr.segmentation.temporal != 0,
            seg_preskip: frame_hdr.segmentation.preskip != 0,
            seg_ext: seq_hdr.segmentation.ext,
            seg_last_active_segid: frame_hdr.segmentation.last_active_segid,
            seg_globalmv_mask: frame_hdr.segmentation.d.globalmv_mask,
            seg_skip_mask: frame_hdr.segmentation.d.skip_mask,
            seg_lossless: frame_hdr.segmentation.lossless,
            has_prev_segmap: frame_hdr.primary_ref_frame.is_some(),
            delta_q_present: frame_hdr.delta.q.present != 0,
            delta_q_res_log2: frame_hdr.delta.q.res_log2,
            quant_yac: frame_hdr.quant.yac as i32,
            sb128: frame_hdr.sb128 as i32,
            b4_stride: 64 * shr(bw + 63, 6),
            q_ydc_delta: frame_hdr.quant.ydc_delta as i32,
            q_uac_delta: frame_hdr.quant.uac_delta as i32,
            q_udc_delta: frame_hdr.quant.udc_delta as i32,
            q_vac_delta: frame_hdr.quant.vac_delta as i32,
            q_vdc_delta: frame_hdr.quant.vdc_delta as i32,
            seg_delta_q: frame_hdr.segmentation.d.delta_q,
            gdf_enabled: frame_hdr.gdf.enabled,
            gdf_is_key: frame_hdr.frame_type == FrameType::Key,
            cur_w: frame_hdr.width,
            cur_h: frame_hdr.height,
            cdef_enabled: frame_hdr.cdef.enabled != 0,
            cdef_on_skiptx: frame_hdr.cdef.on_skiptx != 0,
            cdef_n_strengths: frame_hdr.cdef.n_strengths,
            ccso_enabled: [
                frame_hdr.ccso.p[0].enabled != 0,
                frame_hdr.ccso.p[1].enabled != 0,
                frame_hdr.ccso.p[2].enabled != 0,
            ],
            ccso_sb_reuse: [
                frame_hdr.ccso.p[0].sb_reuse != 0,
                frame_hdr.ccso.p[1].sb_reuse != 0,
                frame_hdr.ccso.p[2].sb_reuse != 0,
            ],
            sb256w: shr(bw + 63, 6),
            skip_mode_enabled: frame_hdr.skip_mode_enabled != 0,
            allow_intrabc: frame_hdr.allow_intrabc != 0,
            any_lossless: frame_hdr.any_lossless != 0,
            has_chroma_layout: seq_hdr.layout != PixelLayout::I400,
            idtx_intra: seq_hdr.idtx_intra,
            mrls: seq_hdr.mrls,
            mhccp: seq_hdr.mhccp,
            cfl: seq_hdr.cfl,
            allow_screen_content_tools: frame_hdr.allow_screen_content_tools != 0,
            intra_dip: seq_hdr.intra_dip,
            force_integer_mv: frame_hdr.force_integer_mv != 0,
            max_bvp_drl_bits: frame_hdr.max_bvp_drl_bits,
            max_drl_bits: frame_hdr.max_drl_bits,
            bawp: frame_hdr.bawp != 0,
            txfm_switchable: frame_hdr.txfm_mode == TxfmMode::Switchable,
            skip_mode_refs,
            n_ref_frames: frame_hdr.n_ref_frames,
            warp_motion: frame_hdr.warp_motion != 0,
            motion_modes: frame_hdr.motion_modes,
            adaptive_mvd: seq_hdr.adaptive_mvd,
            flex_mvres: seq_hdr.flex_mvres,
            mv_precision: frame_hdr.mv_precision,
            mvd_sign_derive: seq_hdr.mvd_sign_derive,
            tip_frame_mode: frame_hdr.tip.frame_mode,
            six_param_warp_delta: seq_hdr.six_param_warp_delta,
            subpel_filter_mode: frame_hdr.subpel_filter_mode,
            switchable_comp_refs: frame_hdr.switchable_comp_refs != 0,
            num_same_ref_comp: seq_hdr.num_same_ref_comp,
            refdir,
            refdist: [
                refdist[0],
                refdist[1],
                refdist[2],
                refdist[3],
                refdist[4],
                refdist[5],
                refdist[6],
                0,
            ],
            opfl_refine_type: frame_hdr.opfl_refine_type,
            masked_compound: seq_hdr.masked_compound,
            cwp: seq_hdr.cwp,
            refine_mv_enabled: seq_hdr.refine_mv,
            absrefdist: [
                absrefdist[0],
                absrefdist[1],
                absrefdist[2],
                absrefdist[3],
                absrefdist[4],
                absrefdist[5],
                absrefdist[6],
                0,
            ],
            furthest_future_refidx,
            tip,
            tile_col_start,
            tile_col_end,
            tile_row_start,
            tile_row_end,
            sb_step,
        }
    }
}

/// Blocks know the frame as its headers have it: its size in units, the
/// subsampling of each direction, its tools, the segments, its references and
/// the bounds of their tile.
pub proof fn law_blocks_go_by_the_headers(
    seq_hdr: SequenceHeader,
    frame_hdr: FrameHeader,
    g: InfoSize,
    k: InfoRefs,
    tile: TileBounds,
    r: SbFrameInfo,
)
    requires
        is_frame_info(seq_hdr, frame_hdr, g, k, tile, r),
        0 <= g.bw <= 0x10_0000,
    ensures
        r.bw == g.bw && r.bh == g.bh && r.sb_step == g.sb_step && r.root_bs == g.root_bs,
        r.ss_hor == seq_hdr.ss_hor && r.ss_ver == seq_hdr.ss_ver,
        r.cur_w == frame_hdr.width && r.cur_h == frame_hdr.height,
        r.tile_col_start == tile.col_start && r.tile_col_end == tile.col_end,
        r.tile_row_start == tile.row_start && r.tile_row_end == tile.row_end,
        r.is_inter_or_switch <==> frame_hdr.frame_type == FrameType::Inter || frame_hdr.frame_type
            == FrameType::Switch,
        r.gdf_is_key <==> frame_hdr.frame_type == FrameType::Key,
        r.seg_enabled <==> frame_hdr.segmentation.enabled != 0,
        r.seg_update_map <==> frame_hdr.segmentation.update_map != 0,
        r.seg_temporal <==> frame_hdr.segmentation.temporal != 0,
        r.seg_preskip <==> frame_hdr.segmentation.preskip != 0,
        r.seg_globalmv_mask == frame_hdr.segmentation.d.globalmv_mask,
        r.seg_skip_mask == frame_hdr.segmentation.d.skip_mask,
        r.delta_q_present <==> frame_hdr.delta.q.present != 0,
        r.quant_yac == frame_hdr.quant.yac && r.q_ydc_delta == frame_hdr.quant.ydc_delta,
        r.q_uac_delta == frame_hdr.quant.uac_delta && r.q_udc_delta == frame_hdr.quant.udc_delta,
        r.q_vac_delta == frame_hdr.quant.vac_delta && r.q_vdc_delta == frame_hdr.quant.vdc_delta,
        r.cdef_enabled <==> frame_hdr.cdef.enabled != 0,
        r.cdef_on_skiptx <==> frame_hdr.cdef.on_skiptx != 0,
        r.skip_mode_enabled <==> frame_hdr.skip_mode_enabled != 0,
        r.allow_intrabc <==> frame_hdr.allow_intrabc != 0,
        r.any_lossless <==> frame_hdr.any_lossless != 0,
        r.force_integer_mv <==> frame_hdr.force_integer_mv != 0,
        r.bawp <==> frame_hdr.bawp != 0,
        r.warp_motion <==> frame_hdr.warp_motion != 0,
        r.switchable_comp_refs <==> frame_hdr.switchable_comp_refs != 0,
        r.max_drl_bits == frame_hdr.max_drl_bits && r.max_bvp_drl_bits == frame_hdr.max_bvp_drl_bits,
        r.has_chroma_layout <==> seq_hdr.layout != PixelLayout::I400,
        r.has_prev_segmap <==> frame_hdr.primary_ref_frame is Some,
        r.sdp == seq_hdr.sdp && r.ext_sdp == seq_hdr.ext_sdp && r.cfl == seq_hdr.cfl && r.mhccp
            == seq_hdr.mhccp && r.mrls == seq_hdr.mrls && r.intra_dip == seq_hdr.intra_dip,
        r.skip_mode_refs == k.skip_mode_refs && r.refdir == k.refdir && r.tip == k.tip,
        r.refdist[7] == 0 && r.absrefdist[7] == 0,
        forall|i: int|
            0 <= i < 7 ==> #[trigger] r.refdist[i] == k.refdist[i] && r.absrefdist[i]
                == k.absrefdist[i],
        r.bw <= 64 * r.sb256w < r.bw + 64,
        r.b4_stride == 64 * r.sb256w,
{
}

} // verus!
