use rav2d::dsp::{
    DSPContext, PalDSPContext, RefmvsDSPContext, N_FILTERS, N_SWITCHABLE_FILTERS,
};

#[test]
fn test_dsp_context_default() {
    let dsp = DSPContext::default();
    assert!(dsp.mc.avg.is_none());
    assert!(dsp.itx.itxfm_add[0].is_none());
}

#[test]
fn test_n_filters() {
    assert_eq!(N_FILTERS, 4);
    assert_eq!(N_SWITCHABLE_FILTERS, 3);
}

#[test]
fn all_kernels_start_unset() {
    let dsp = DSPContext::default();
    assert!(dsp.fg.generate_grain_y.is_none());
    assert!(dsp.ipred.intra_pred.iter().all(|k| k.is_none()));
    assert!(dsp.ipred.cfl_gen_y.iter().flatten().all(|k| k.is_none()));
    assert!(dsp.lf.deblock_sb.iter().flatten().all(|k| k.is_none()));
    assert!(dsp.ccso.add.is_none());
    assert!(dsp.cdef.dir.is_none());
    assert!(dsp.lr.pc_wiener.is_none());
    assert!(dsp.stx.stxfm.is_none());
    assert!(PalDSPContext::default().pal_idx_finish.is_none());
    assert!(RefmvsDSPContext::default().splat_mv.is_none());
}
