//! The kernels of intra prediction.
use vstd::prelude::*;

use crate::levels::{
    DC_PRED, HOR_PRED, PAETH_PRED, SMOOTH_H_PRED, SMOOTH_PRED, SMOOTH_V_PRED, VERT_PRED,
};

verus! {

/// How a block is predicted from its prepared edges.
#[derive(Debug, Clone, Copy, PartialEq, Eq, Structural)]
pub enum PredKernel {
    Dc,
    /// The middle of the range of samples; nothing is known of the edges.
    DcMiddle,
    DcTop,
    DcLeft,
    Horizontal,
    Vertical,
    Paeth,
    Smooth,
    SmoothV,
    SmoothH,
    /// Along an angle, from the edge above, both edges, or the edge to the
    /// left.
    AngleTop,
    AngleBoth,
    AngleLeft,
    DataDriven,
}

/// The numbers of the modes that only the preparation of the edges leads to.
#[derive(Debug, Clone, Copy, PartialEq, Eq, Structural)]
pub struct PreparedModes {
    pub dc_128: u8,
    pub top_dc: u8,
    pub left_dc: u8,
    pub z1: u8,
    pub z2: u8,
    pub z3: u8,
    pub dip: u8,
}

impl PreparedModes {
    /// The numbers differ from each other and from those of the coded modes.
    pub open spec fn distinct(self) -> bool {
        let s = seq![
            self.dc_128,
            self.top_dc,
            self.left_dc,
            self.z1,
            self.z2,
            self.z3,
            self.dip,
        ];
        s.no_duplicates() && forall|i: int| 0 <= i < 7 ==> #[trigger] s[i] > PAETH_PRED
    }
}

/// The kernel that mode `m` is predicted with; that of a mode that is not known
/// is the middle of the range.
pub open spec fn kernel_of(m: u8, p: PreparedModes) -> PredKernel {
    if m == DC_PRED {
        PredKernel::Dc
    } else if m == p.dc_128 {
        PredKernel::DcMiddle
    } else if m == p.top_dc {
        PredKernel::DcTop
    } else if m == p.left_dc {
        PredKernel::DcLeft
    } else if m == HOR_PRED {
        PredKernel::Horizontal
    } else if m == VERT_PRED {
        PredKernel::Vertical
    } else if m == PAETH_PRED {
        PredKernel::Paeth
    } else if m == SMOOTH_PRED {
        PredKernel::Smooth
    } else if m == SMOOTH_V_PRED {
        PredKernel::SmoothV
    } else if m == SMOOTH_H_PRED {
        PredKernel::SmoothH
    } else if m == p.z1 {
        PredKernel::AngleTop
    } else if m == p.z2 {
        PredKernel::AngleBoth
    } else if m == p.z3 {
        PredKernel::AngleLeft
    } else if m == p.dip {
        PredKernel::DataDriven
    } else {
        PredKernel::DcMiddle
    }
}

pub fn dispatch_ipred(m: u8, p: &PreparedModes) -> (r: PredKernel)
    ensures
        r == kernel_of(m, *p),
{
    if m == DC_PRED {
        PredKernel::Dc
    } else if m == p.dc_128 {
        PredKernel::DcMiddle
    } else if m == p.top_dc {
        PredKernel::DcTop
    } else if m == p.left_dc {
        PredKernel::DcLeft
    } else if m == HOR_PRED {
        PredKernel::Horizontal
    } else if m == VERT_PRED {
        PredKernel::Vertical
    } else if m == PAETH_PRED {
        PredKernel::Paeth
    } else if m == SMOOTH_PRED {
        PredKernel::Smooth
    } else if m == SMOOTH_V_PRED {
        PredKernel::SmoothV
    } else if m == SMOOTH_H_PRED {
        PredKernel::SmoothH
    } else if m == p.z1 {
        PredKernel::AngleTop
    } else if m == p.z2 {
        PredKernel::AngleBoth
    } else if m == p.z3 {
        PredKernel::AngleLeft
    } else if m == p.dip {
        PredKernel::DataDriven
    } else {
        PredKernel::DcMiddle
    }
}

/// Where the numbers of the modes are distinct, each prepared mode has the
/// kernel made for it.
pub proof fn law_prepared_modes_have_their_kernels(p: PreparedModes)
    requires
        p.distinct(),
    ensures
        kernel_of(p.dc_128, p) == PredKernel::DcMiddle,
        kernel_of(p.top_dc, p) == PredKernel::DcTop,
        kernel_of(p.left_dc, p) == PredKernel::DcLeft,
        kernel_of(p.z1, p) == PredKernel::AngleTop,
        kernel_of(p.z2, p) == PredKernel::AngleBoth,
        kernel_of(p.z3, p) == PredKernel::AngleLeft,
        kernel_of(p.dip, p) == PredKernel::DataDriven,
{
    let s = seq![p.dc_128, p.top_dc, p.left_dc, p.z1, p.z2, p.z3, p.dip];
    assert(s[0] == p.dc_128 && s[1] == p.top_dc && s[2] == p.left_dc && s[3] == p.z1 && s[4]
        == p.z2 && s[5] == p.z3 && s[6] == p.dip);
}

} // verus!
