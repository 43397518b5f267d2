//! The parts of the sequence and frame headers that steer decoding.
use vstd::prelude::*;

verus! {

pub const MAX_SEGMENTS: usize = 16;

#[derive(Debug, Clone, Copy, PartialEq, Eq, Structural)]
pub enum AdaptiveBoolean {
    Off,
    On,
    Adaptive,
}

#[derive(Debug, Clone, Copy, PartialEq, Eq, Structural)]
pub enum FrameType {
    Key,
    Inter,
    Intra,
    Switch,
}

impl FrameType {
    /// Whether blocks of the frame may refer to other frames.
    pub open spec fn inter_or_switch(self) -> bool {
        self == FrameType::Inter || self == FrameType::Switch
    }

    pub fn is_inter_or_switch(self) -> (r: bool)
        ensures
            r == self.inter_or_switch(),
    {
        match self {
            FrameType::Inter => true,
            FrameType::Switch => true,
            _ => false,
        }
    }
}

#[derive(Debug, Clone, Copy, PartialEq, Eq, Structural)]
pub enum RestorationType {
    Off,
    PcWiener,
    NsWiener,
    Switchable,
}

#[derive(Debug, Clone, Copy, PartialEq, Eq, Structural)]
pub enum TxfmMode {
    Only4x4,
    Largest,
    Switchable,
}

#[derive(Debug, Clone, Copy, PartialEq, Eq, Structural)]
pub enum PixelLayout {
    I400,
    I420,
    I422,
    I444,
}

/// Kinds of warped motion, in increasing generality.
#[derive(Debug, Clone, Copy, PartialEq, Eq, Structural)]
pub enum WarpedMotionType {
    Invalid,
    Identity,
    Translation,
    RotZoom,
    Affine,
}

#[derive(Debug, Clone, Copy)]
pub struct WarpedMotionParams {
    pub wm_type: WarpedMotionType,
    pub matrix: [i32; 6],
}

/// What motion-vector precision depends on.
#[derive(Debug, Clone, Copy, PartialEq, Eq, Structural)]
pub struct MvHeader {
    pub force_integer_mv: u8,
    pub mv_precision: u8,
}

/// The tools that a sequence switches on.
#[derive(Debug, Clone, Copy)]
pub struct SequenceHeader {
    pub layout: PixelLayout,
    pub ss_ver: u8,
    pub ss_hor: u8,
    pub sdp: bool,
    pub ext_sdp: bool,
    pub ext_partitions: bool,
    pub uneven_4way_partitions: bool,
    pub max_pb_aspect_ratio_log2: u8,
    pub segmentation: SequenceSegmentation,
    pub idtx_intra: bool,
    pub mrls: bool,
    pub mhccp: bool,
    pub cfl: bool,
    pub intra_dip: bool,
    pub adaptive_mvd: bool,
    pub flex_mvres: bool,
    pub mvd_sign_derive: bool,
    pub six_param_warp_delta: bool,
    pub num_same_ref_comp: u8,
    pub masked_compound: bool,
    pub cwp: bool,
    pub refine_mv: bool,
    pub order_hint_n_bits: u8,
    /// Zero for 8 bits per sample, one for 10 and two for 12.
    pub hbd: u8,
    pub cdef: bool,
    pub refmv_bank: bool,
    pub ref_frame_mvs: bool,
    pub imp_msk_bld: bool,
    pub cctx: bool,
    pub ibp: bool,
    pub intra_edge_filter: bool,
    pub inter_ddt: bool,
}

impl Default for SequenceHeader {
    /// A monochrome sequence without any tool.
    fn default() -> (r: Self)
        ensures
            r == (SequenceHeader {
                layout: PixelLayout::I400,
                ss_ver: 0,
                ss_hor: 0,
                sdp: false,
                ext_sdp: false,
                ext_partitions: false,
                uneven_4way_partitions: false,
                max_pb_aspect_ratio_log2: 0,
                segmentation: SequenceSegmentation { ext: false },
                idtx_intra: false,
                mrls: false,
                mhccp: false,
                cfl: false,
                intra_dip: false,
                adaptive_mvd: false,
                flex_mvres: false,
                mvd_sign_derive: false,
                six_param_warp_delta: false,
                num_same_ref_comp: 0,
                masked_compound: false,
                cwp: false,
                refine_mv: false,
                order_hint_n_bits: 0,
                hbd: 0,
                cdef: false,
                refmv_bank: false,
                ref_frame_mvs: false,
                imp_msk_bld: false,
                cctx: false,
                ibp: false,
                intra_edge_filter: false,
                inter_ddt: false,
            }),
    {
        SequenceHeader {
            layout: PixelLayout::I400,
            ss_ver: 0,
            ss_hor: 0,
            sdp: false,
            ext_sdp: false,
            ext_partitions: false,
            uneven_4way_partitions: false,
            max_pb_aspect_ratio_log2: 0,
            segmentation: SequenceSegmentation { ext: false },
            idtx_intra: false,
            mrls: false,
            mhccp: false,
            cfl: false,
            intra_dip: false,
            adaptive_mvd: false,
            flex_mvres: false,
            mvd_sign_derive: false,
            six_param_warp_delta: false,
            num_same_ref_comp: 0,
            masked_compound: false,
            cwp: false,
            refine_mv: false,
            order_hint_n_bits: 0,
            hbd: 0,
            cdef: false,
            refmv_bank: false,
            ref_frame_mvs: false,
            imp_msk_bld: false,
            cctx: false,
            ibp: false,
            intra_edge_filter: false,
            inter_ddt: false,
        }
    }
}

#[derive(Debug, Clone, Copy)]
pub struct SequenceSegmentation {
    pub ext: bool,
}

#[derive(Debug, Clone, Copy, Default)]
pub struct QmHeader {
    pub enabled: u8,
}

#[derive(Debug, Clone, Copy, Default)]
pub struct QuantHeader {
    pub yac: u16,
    pub ydc_delta: i8,
    pub uac_delta: i8,
    pub udc_delta: i8,
    pub vac_delta: i8,
    pub vdc_delta: i8,
    pub qm: QmHeader,
}

#[derive(Debug, Clone, Copy, Default)]
pub struct SegmentationData {
    pub delta_q: [i16; 16],
    pub globalmv_mask: u16,
    pub skip_mask: u16,
}

#[derive(Debug, Clone, Copy, Default)]
pub struct SegmentationHeader {
    pub enabled: u8,
    pub update_map: u8,
    pub temporal: u8,
    pub preskip: u8,
    pub last_active_segid: u8,
    pub lossless: [u8; 16],
    pub d: SegmentationData,
}

#[derive(Debug, Clone, Copy, Default)]
pub struct DeltaQHeader {
    pub present: u8,
    pub res_log2: u8,
}

#[derive(Debug, Clone, Copy, Default)]
pub struct DeltaHeader {
    pub q: DeltaQHeader,
}

#[derive(Debug, Clone, Copy, Default)]
pub struct CdefHeader {
    pub enabled: u8,
    pub on_skiptx: u8,
    pub n_strengths: u8,
}

#[derive(Debug, Clone, Copy)]
pub struct GdfHeader {
    pub enabled: AdaptiveBoolean,
}

#[derive(Debug, Clone, Copy, Default)]
pub struct CcsoPlane {
    pub enabled: u8,
    pub sb_reuse: u8,
}

#[derive(Debug, Clone, Copy, Default)]
pub struct CcsoHeader {
    pub p: [CcsoPlane; 3],
}

/// The non-separable Wiener filters of one plane.
#[derive(Debug, Clone, Copy)]
pub struct NSWienerPlane {
    pub frame_filters_on: u8,
    pub num_classes_idx: u8,
    pub num_classes: u8,
    pub temporal: u8,
    pub refidx: u8,
    pub filter: [[i8; 18]; 16],
}

#[derive(Debug, Clone, Copy)]
pub struct RestorationPlane {
    pub restoration_type: RestorationType,
    pub ns: NSWienerPlane,
}

#[derive(Debug, Clone, Copy)]
pub struct RestorationHeader {
    pub p: [RestorationPlane; 3],
    /// Binary logarithms of the sides of restoration units, for luma and
    /// chroma.
    pub unit_size: [u8; 2],
}

#[derive(Debug, Clone, Copy, Default)]
pub struct DeblockHeader {
    pub level_y: [u8; 2],
    pub level_u: u8,
    pub level_v: u8,
}

/// The global motion of each reference, and whether it is affine.
#[derive(Debug, Clone, Copy)]
pub struct GlobalMotion {
    pub m: [WarpedMotionParams; 7],
    pub affine: [bool; 7],
}

/// Where the tiles of a frame start, in superblocks; the entry after the
/// last is the end of the frame.
#[derive(Debug, Clone, Copy)]
pub struct TileGrid {
    pub cols: u8,
    pub rows: u8,
    pub col_start_sb: [u16; 65],
    pub row_start_sb: [u16; 65],
}

#[derive(Debug, Clone, Copy)]
pub struct TilingHeader {
    pub t: TileGrid,
    pub n_bytes: u8,
    /// The tile whose distributions are kept for later frames.
    pub update: u16,
}

#[derive(Debug, Clone, Copy, Default)]
pub struct TipHeader {
    pub frame_mode: u8,
}

/// What a frame switches on, and its geometry.
#[derive(Debug, Clone, Copy)]
pub struct FrameHeader {
    pub frame_type: FrameType,
    pub width: i32,
    pub height: i32,
    pub sb128: u8,
    pub frame_offset: i32,
    pub n_ref_frames: u8,
    /// Whether the picture is shown as soon as it is decoded.
    pub show_immediate: u8,
    pub disable_cdf_update: u8,
    /// The slots that refer to the frame once it is decoded, by bit.
    pub refresh_frame_flags: u8,
    /// The reference that state is carried over from, if there is one.
    pub primary_ref_frame: Option<u8>,
    /// The slots of the references.
    pub refidx: [u8; 7],
    pub use_ref_frame_mvs: u8,
    pub gmv: GlobalMotion,
    pub deblock: DeblockHeader,
    pub quant: QuantHeader,
    pub segmentation: SegmentationHeader,
    pub delta: DeltaHeader,
    pub cdef: CdefHeader,
    pub gdf: GdfHeader,
    pub ccso: CcsoHeader,
    pub restoration: RestorationHeader,
    pub tiling: TilingHeader,
    pub tip: TipHeader,
    pub skip_mode_enabled: u8,
    pub allow_intrabc: u8,
    pub any_lossless: u8,
    pub allow_screen_content_tools: u8,
    pub force_integer_mv: u8,
    pub max_bvp_drl_bits: u8,
    pub max_drl_bits: u8,
    pub bawp: u8,
    pub txfm_mode: TxfmMode,
    pub warp_motion: u8,
    pub motion_modes: u8,
    pub mv_precision: u8,
    pub subpel_filter_mode: u8,
    pub switchable_comp_refs: u8,
    pub opfl_refine_type: u8,
}

impl FrameHeader {
    pub fn is_inter_or_switch(&self) -> (r: bool)
        ensures
            r == self.frame_type.inter_or_switch(),
    {
        self.frame_type.is_inter_or_switch()
    }

    pub fn is_key_or_intra(&self) -> (r: bool)
        ensures
            r == !self.frame_type.inter_or_switch(),
    {
        !self.frame_type.is_inter_or_switch()
    }

    /// Every tool is off, every number is zero, and the frame is a key frame.
    pub open spec fn is_blank(self) -> bool {
        &&& self.frame_type == FrameType::Key
        &&& self.width == 0
        &&& self.height == 0
        &&& self.sb128 == 0
        &&& self.frame_offset == 0
        &&& self.n_ref_frames == 0
        &&& self.show_immediate == 0
        &&& self.disable_cdf_update == 0
        &&& self.refresh_frame_flags == 0
        &&& self.primary_ref_frame is None
        &&& forall|i: int| 0 <= i < 7 ==> self.refidx[i] == 0
        &&& self.use_ref_frame_mvs == 0
        &&& forall|i: int|
            0 <= i < 7 ==> (#[trigger] self.gmv.m[i]).wm_type == WarpedMotionType::Identity
                && self.gmv.m[i].matrix@ == seq![0i32, 0, 0x10000, 0, 0, 0x10000]
        &&& forall|i: int| 0 <= i < 7 ==> !(#[trigger] self.gmv.affine[i])
        &&& self.deblock.level_y[0] == 0
        &&& self.deblock.level_y[1] == 0
        &&& self.deblock.level_u == 0
        &&& self.deblock.level_v == 0
        &&& self.quant.yac == 0
        &&& self.quant.ydc_delta == 0
        &&& self.quant.uac_delta == 0
        &&& self.quant.udc_delta == 0
        &&& self.quant.vac_delta == 0
        &&& self.quant.vdc_delta == 0
        &&& self.quant.qm.enabled == 0
        &&& self.segmentation.enabled == 0
        &&& self.segmentation.update_map == 0
        &&& self.segmentation.temporal == 0
        &&& self.segmentation.preskip == 0
        &&& self.segmentation.last_active_segid == 0
        &&& forall|i: int| 0 <= i < 16 ==> self.segmentation.lossless[i] == 0
        &&& forall|i: int| 0 <= i < 16 ==> self.segmentation.d.delta_q[i] == 0
        &&& self.segmentation.d.globalmv_mask == 0
        &&& self.segmentation.d.skip_mask == 0
        &&& self.delta.q.present == 0
        &&& self.delta.q.res_log2 == 0
        &&& self.cdef.enabled == 0
        &&& self.cdef.on_skiptx == 0
        &&& self.cdef.n_strengths == 0
        &&& self.gdf.enabled == AdaptiveBoolean::Off
        &&& forall|i: int|
            0 <= i < 3 ==> (#[trigger] self.ccso.p[i]).enabled == 0 && self.ccso.p[i].sb_reuse == 0
        &&& forall|i: int|
            0 <= i < 3 ==> {
                let p = #[trigger] self.restoration.p[i];
                &&& p.restoration_type == RestorationType::Off
                &&& p.ns.frame_filters_on == 0
                &&& p.ns.num_classes_idx == 0
                &&& p.ns.num_classes == 0
                &&& p.ns.temporal == 0
                &&& p.ns.refidx == 0
            }
        &&& self.restoration.unit_size[0] == 0
        &&& self.restoration.unit_size[1] == 0
        &&& self.tiling.n_bytes == 0
        &&& self.tiling.update == 0
        &&& self.tiling.t.cols == 0
        &&& self.tiling.t.rows == 0
        &&& forall|i: int| 0 <= i < 65 ==> self.tiling.t.col_start_sb[i] == 0
        &&& forall|i: int| 0 <= i < 65 ==> self.tiling.t.row_start_sb[i] == 0
        &&& self.tip.frame_mode == 0
        &&& self.skip_mode_enabled == 0
        &&& self.allow_intrabc == 0
        &&& self.any_lossless == 0
        &&& self.allow_screen_content_tools == 0
        &&& self.force_integer_mv == 0
        &&& self.max_bvp_drl_bits == 0
        &&& self.max_drl_bits == 0
        &&& self.bawp == 0
        &&& self.txfm_mode == TxfmMode::Only4x4
        &&& self.warp_motion == 0
        &&& self.motion_modes == 0
        &&& self.mv_precision == 0
        &&& self.subpel_filter_mode == 0
        &&& self.switchable_comp_refs == 0
        &&& self.opfl_refine_type == 0
    }
}

impl Default for FrameHeader {
    fn default() -> (r: Self)
        ensures
            r.is_blank(),
    {
        let ns: NSWienerPlane = NSWienerPlane {
            frame_filters_on: 0,
            num_classes_idx: 0,
            num_classes: 0,
            temporal: 0,
            refidx: 0,
            filter: [[0; 18]; 16],
        };
        let plane: RestorationPlane = RestorationPlane {
            restoration_type: RestorationType::Off,
            ns,
        };
        let ccso: CcsoPlane = CcsoPlane { enabled: 0, sb_reuse: 0 };
        let still: WarpedMotionParams = WarpedMotionParams {
            wm_type: WarpedMotionType::Identity,
            matrix: [0, 0, 0x10000, 0, 0, 0x10000],
        };
        FrameHeader {
            frame_type: FrameType::Key,
            width: 0,
            height: 0,
            sb128: 0,
            frame_offset: 0,
            n_ref_frames: 0,
            show_immediate: 0,
            disable_cdf_update: 0,
            refresh_frame_flags: 0,
            primary_ref_frame: None,
            refidx: [0; 7],
            use_ref_frame_mvs: 0,
            gmv: GlobalMotion { m: [still; 7], affine: [false; 7] },
            deblock: DeblockHeader { level_y: [0; 2], level_u: 0, level_v: 0 },
            quant: QuantHeader {
                yac: 0,
                ydc_delta: 0,
                uac_delta: 0,
                udc_delta: 0,
                vac_delta: 0,
                vdc_delta: 0,
                qm: QmHeader { enabled: 0 },
            },
            segmentation: SegmentationHeader {
                enabled: 0,
                update_map: 0,
                temporal: 0,
                preskip: 0,
                last_active_segid: 0,
                lossless: [0; 16],
                d: SegmentationData { delta_q: [0; 16], globalmv_mask: 0, skip_mask: 0 },
            },
            delta: DeltaHeader { q: DeltaQHeader { present: 0, res_log2: 0 } },
            cdef: CdefHeader { enabled: 0, on_skiptx: 0, n_strengths: 0 },
            gdf: GdfHeader { enabled: AdaptiveBoolean::Off },
            ccso: CcsoHeader { p: [ccso, ccso, ccso] },
            restoration: RestorationHeader { p: [plane, plane, plane], unit_size: [0; 2] },
            tiling: TilingHeader {
                t: TileGrid { cols: 0, rows: 0, col_start_sb: [0; 65], row_start_sb: [0; 65] },
                n_bytes: 0,
                update: 0,
            },
            tip: TipHeader { frame_mode: 0 },
            skip_mode_enabled: 0,
            allow_intrabc: 0,
            any_lossless: 0,
            allow_screen_content_tools: 0,
            force_integer_mv: 0,
            max_bvp_drl_bits: 0,
            max_drl_bits: 0,
            bawp: 0,
            txfm_mode: TxfmMode::Only4x4,
            warp_motion: 0,
            motion_modes: 0,
            mv_precision: 0,
            subpel_filter_mode: 0,
            switchable_comp_refs: 0,
            opfl_refine_type: 0,
        }
    }
}

/// Exactly inter frames and switch frames refer to other frames.
pub proof fn law_frames_that_refer_to_others(t: FrameType)
    ensures
        t.inter_or_switch() <==> t != FrameType::Key && t != FrameType::Intra,
{
}

} // verus!
