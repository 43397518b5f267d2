//! Tables of pixel kernels. An entry that is not set is left to the plain
//! implementation.
use vstd::prelude::*;

use crate::levels::N_RECT_TX_SIZES;

verus! {

pub const N_FILTERS: usize = 4;

pub const N_SWITCHABLE_FILTERS: usize = 3;

/// A pixel kernel, by the number under which it is registered.
#[derive(Debug, Clone, Copy, PartialEq, Eq, Structural)]
pub struct PixelFn {
    pub kernel: u32,
}

/// Film grain synthesis.
#[derive(Debug, Clone, Copy)]
pub struct FilmGrainDSPContext {
    pub generate_grain_y: Option<PixelFn>,
    pub generate_grain_uv: [Option<PixelFn>; 3],
    pub fgy_32x32xn: Option<PixelFn>,
    pub fguv_32x32xn: [Option<PixelFn>; 3],
}

impl FilmGrainDSPContext {
    /// No kernel is set.
    pub open spec fn is_unset(self) -> bool {
        &&& self.generate_grain_y is None
        &&& forall|i: int| 0 <= i < 3 ==> (#[trigger] self.generate_grain_uv[i]) is None
        &&& self.fgy_32x32xn is None
        &&& forall|i: int| 0 <= i < 3 ==> (#[trigger] self.fguv_32x32xn[i]) is None
    }
}

impl Default for FilmGrainDSPContext {
    fn default() -> (r: Self)
        ensures
            r.is_unset(),
    {
        FilmGrainDSPContext {
            generate_grain_y: None,
            generate_grain_uv: [None; 3],
            fgy_32x32xn: None,
            fguv_32x32xn: [None; 3],
        }
    }
}

/// Intra prediction.
#[derive(Debug, Clone, Copy)]
pub struct IntraPredDSPContext {
    pub intra_pred: [Option<PixelFn>; 14],
    pub cfl_pred: [[Option<PixelFn>; 3]; 2],
    pub cfl_gen_y: [[Option<PixelFn>; 3]; 3],
    pub cfl_gen_mat: [Option<PixelFn>; 3],
    pub cfl_calc_alphas: Option<PixelFn>,
    pub cfl_mhccp_pred: [Option<PixelFn>; 3],
    pub pal_pred: Option<PixelFn>,
}

impl IntraPredDSPContext {
    /// No kernel is set.
    pub open spec fn is_unset(self) -> bool {
        &&& forall|i: int| 0 <= i < 14 ==> (#[trigger] self.intra_pred[i]) is None
        &&& forall|i: int, j: int|
            0 <= i < 2 && 0 <= j < 3 ==> (#[trigger] self.cfl_pred[i][j]) is None
        &&& forall|i: int, j: int|
            0 <= i < 3 && 0 <= j < 3 ==> (#[trigger] self.cfl_gen_y[i][j]) is None
        &&& forall|i: int| 0 <= i < 3 ==> (#[trigger] self.cfl_gen_mat[i]) is None
        &&& self.cfl_calc_alphas is None
        &&& forall|i: int| 0 <= i < 3 ==> (#[trigger] self.cfl_mhccp_pred[i]) is None
        &&& self.pal_pred is None
    }
}

impl Default for IntraPredDSPContext {
    fn default() -> (r: Self)
        ensures
            r.is_unset(),
    {
        IntraPredDSPContext {
            intra_pred: [None; 14],
            cfl_pred: [[None; 3], [None; 3]],
            cfl_gen_y: [[None; 3], [None; 3], [None; 3]],
            cfl_gen_mat: [None; 3],
            cfl_calc_alphas: None,
            cfl_mhccp_pred: [None; 3],
            pal_pred: None,
        }
    }
}

/// Motion compensation.
#[derive(Debug, Clone, Copy)]
pub struct MCDSPContext {
    pub mc: [Option<PixelFn>; N_FILTERS],
    pub mc_scaled: [Option<PixelFn>; N_FILTERS],
    pub mct: [Option<PixelFn>; N_FILTERS],
    pub mct_scaled: [Option<PixelFn>; N_FILTERS],
    pub avg: Option<PixelFn>,
    pub w_avg: Option<PixelFn>,
    pub mask: Option<PixelFn>,
    pub w_mask: [Option<PixelFn>; 3],
    pub blend: Option<PixelFn>,
    pub warp8x8: Option<PixelFn>,
    pub warp8x8t: Option<PixelFn>,
    pub ext_warp4x4: Option<PixelFn>,
    pub ext_warp4x4t: Option<PixelFn>,
    pub emu_edge: Option<PixelFn>,
    pub morph: Option<PixelFn>,
    pub opfl_derive_mv: Option<PixelFn>,
    pub sad_refine_mv: Option<PixelFn>,
    pub sad8x8: Option<PixelFn>,
}

impl MCDSPContext {
    /// No kernel is set.
    pub open spec fn is_unset(self) -> bool {
        &&& forall|i: int| 0 <= i < N_FILTERS ==> (#[trigger] self.mc[i]) is None
        &&& forall|i: int| 0 <= i < N_FILTERS ==> (#[trigger] self.mc_scaled[i]) is None
        &&& forall|i: int| 0 <= i < N_FILTERS ==> (#[trigger] self.mct[i]) is None
        &&& forall|i: int| 0 <= i < N_FILTERS ==> (#[trigger] self.mct_scaled[i]) is None
        &&& self.avg is None
        &&& self.w_avg is None
        &&& self.mask is None
        &&& forall|i: int| 0 <= i < 3 ==> (#[trigger] self.w_mask[i]) is None
        &&& self.blend is None
        &&& self.warp8x8 is None
        &&& self.warp8x8t is None
        &&& self.ext_warp4x4 is None
        &&& self.ext_warp4x4t is None
        &&& self.emu_edge is None
        &&& self.morph is None
        &&& self.opfl_derive_mv is None
        &&& self.sad_refine_mv is None
        &&& self.sad8x8 is None
    }
}

impl Default for MCDSPContext {
    fn default() -> (r: Self)
        ensures
            r.is_unset(),
    {
        MCDSPContext {
            mc: [None; 4],
            mc_scaled: [None; 4],
            mct: [None; 4],
            mct_scaled: [None; 4],
            avg: None,
            w_avg: None,
            mask: None,
            w_mask: [None; 3],
            blend: None,
            warp8x8: None,
            warp8x8t: None,
            ext_warp4x4: None,
            ext_warp4x4t: None,
            emu_edge: None,
            morph: None,
            opfl_derive_mv: None,
            sad_refine_mv: None,
            sad8x8: None,
        }
    }
}

/// Inverse transforms.
#[derive(Debug, Clone, Copy)]
pub struct InvTxfmDSPContext {
    pub cctx: Option<PixelFn>,
    pub itxfm_add: [Option<PixelFn>; N_RECT_TX_SIZES],
}

impl InvTxfmDSPContext {
    /// No kernel is set.
    pub open spec fn is_unset(self) -> bool {
        &&& self.cctx is None
        &&& forall|i: int| 0 <= i < N_RECT_TX_SIZES ==> (#[trigger] self.itxfm_add[i]) is None
    }
}

impl Default for InvTxfmDSPContext {
    fn default() -> (r: Self)
        ensures
            r.is_unset(),
    {
        InvTxfmDSPContext {
            cctx: None,
            itxfm_add: [None; 25],
        }
    }
}

/// Secondary inverse transforms.
#[derive(Debug, Clone, Copy)]
pub struct StxDSPContext {
    pub stxfm: Option<PixelFn>,
}

impl StxDSPContext {
    /// No kernel is set.
    pub open spec fn is_unset(self) -> bool {
        &&& self.stxfm is None
    }
}

impl Default for StxDSPContext {
    fn default() -> (r: Self)
        ensures
            r.is_unset(),
    {
        StxDSPContext {
            stxfm: None,
        }
    }
}

/// Deblocking.
#[derive(Debug, Clone, Copy)]
pub struct DeblockDSPContext {
    pub deblock_sb: [[Option<PixelFn>; 2]; 2],
}

impl DeblockDSPContext {
    /// No kernel is set.
    pub open spec fn is_unset(self) -> bool {
        &&& forall|i: int, j: int|
            0 <= i < 2 && 0 <= j < 2 ==> (#[trigger] self.deblock_sb[i][j]) is None
    }
}

impl Default for DeblockDSPContext {
    fn default() -> (r: Self)
        ensures
            r.is_unset(),
    {
        DeblockDSPContext {
            deblock_sb: [[None; 2], [None; 2]],
        }
    }
}

/// Cross-component sample offsets.
#[derive(Debug, Clone, Copy)]
pub struct CcsoDSPContext {
    pub prep: [Option<PixelFn>; 3],
    pub add: Option<PixelFn>,
}

impl CcsoDSPContext {
    /// No kernel is set.
    pub open spec fn is_unset(self) -> bool {
        &&& forall|i: int| 0 <= i < 3 ==> (#[trigger] self.prep[i]) is None
        &&& self.add is None
    }
}

impl Default for CcsoDSPContext {
    fn default() -> (r: Self)
        ensures
            r.is_unset(),
    {
        CcsoDSPContext {
            prep: [None; 3],
            add: None,
        }
    }
}

/// Constrained directional enhancement.
#[derive(Debug, Clone, Copy)]
pub struct CdefDSPContext {
    pub dir: Option<PixelFn>,
    pub fb: [Option<PixelFn>; 3],
}

impl CdefDSPContext {
    /// No kernel is set.
    pub open spec fn is_unset(self) -> bool {
        &&& self.dir is None
        &&& forall|i: int| 0 <= i < 3 ==> (#[trigger] self.fb[i]) is None
    }
}

impl Default for CdefDSPContext {
    fn default() -> (r: Self)
        ensures
            r.is_unset(),
    {
        CdefDSPContext {
            dir: None,
            fb: [None; 3],
        }
    }
}

/// Loop restoration.
#[derive(Debug, Clone, Copy)]
pub struct LoopRestorationDSPContext {
    pub ns_wiener_single: [Option<PixelFn>; 2],
    pub ns_wiener_multi: Option<PixelFn>,
    pub pc_wiener: Option<PixelFn>,
    pub gdf_prep: Option<PixelFn>,
    pub gdf_add: Option<PixelFn>,
}

impl LoopRestorationDSPContext {
    /// No kernel is set.
    pub open spec fn is_unset(self) -> bool {
        &&& forall|i: int| 0 <= i < 2 ==> (#[trigger] self.ns_wiener_single[i]) is None
        &&& self.ns_wiener_multi is None
        &&& self.pc_wiener is None
        &&& self.gdf_prep is None
        &&& self.gdf_add is None
    }
}

impl Default for LoopRestorationDSPContext {
    fn default() -> (r: Self)
        ensures
            r.is_unset(),
    {
        LoopRestorationDSPContext {
            ns_wiener_single: [None; 2],
            ns_wiener_multi: None,
            pc_wiener: None,
            gdf_prep: None,
            gdf_add: None,
        }
    }
}

/// All kernels of one bit depth.
#[derive(Debug, Clone, Copy)]
pub struct DSPContext {
    pub fg: FilmGrainDSPContext,
    pub ipred: IntraPredDSPContext,
    pub mc: MCDSPContext,
    pub itx: InvTxfmDSPContext,
    pub stx: StxDSPContext,
    pub lf: DeblockDSPContext,
    pub ccso: CcsoDSPContext,
    pub cdef: CdefDSPContext,
    pub lr: LoopRestorationDSPContext,
}

impl DSPContext {
    /// No kernel is set.
    pub open spec fn is_unset(self) -> bool {
        &&& self.fg.is_unset()
        &&& self.ipred.is_unset()
        &&& self.mc.is_unset()
        &&& self.itx.is_unset()
        &&& self.stx.is_unset()
        &&& self.lf.is_unset()
        &&& self.ccso.is_unset()
        &&& self.cdef.is_unset()
        &&& self.lr.is_unset()
    }
}

impl Default for DSPContext {
    fn default() -> (r: Self)
        ensures
            r.is_unset(),
    {
        DSPContext {
            fg: FilmGrainDSPContext::default(),
            ipred: IntraPredDSPContext::default(),
            mc: MCDSPContext::default(),
            itx: InvTxfmDSPContext::default(),
            stx: StxDSPContext::default(),
            lf: DeblockDSPContext::default(),
            ccso: CcsoDSPContext::default(),
            cdef: CdefDSPContext::default(),
            lr: LoopRestorationDSPContext::default(),
        }
    }
}

/// Palettes.
#[derive(Debug, Clone, Copy)]
pub struct PalDSPContext {
    pub pal_idx_finish: Option<PixelFn>,
}

impl PalDSPContext {
    /// No kernel is set.
    pub open spec fn is_unset(self) -> bool {
        &&& self.pal_idx_finish is None
    }
}

impl Default for PalDSPContext {
    fn default() -> (r: Self)
        ensures
            r.is_unset(),
    {
        PalDSPContext {
            pal_idx_finish: None,
        }
    }
}

/// Motion vector storage.
#[derive(Debug, Clone, Copy)]
pub struct RefmvsDSPContext {
    pub splat_mv: Option<PixelFn>,
    pub splat_warpmv: Option<PixelFn>,
    pub splat_comp_warpmv: Option<PixelFn>,
    pub splat_comp_wedgemv: Option<PixelFn>,
}

impl RefmvsDSPContext {
    /// No kernel is set.
    pub open spec fn is_unset(self) -> bool {
        &&& self.splat_mv is None
        &&& self.splat_warpmv is None
        &&& self.splat_comp_warpmv is None
        &&& self.splat_comp_wedgemv is None
    }
}

impl Default for RefmvsDSPContext {
    fn default() -> (r: Self)
        ensures
            r.is_unset(),
    {
        RefmvsDSPContext {
            splat_mv: None,
            splat_warpmv: None,
            splat_comp_warpmv: None,
            splat_comp_wedgemv: None,
        }
    }
}

} // verus!
