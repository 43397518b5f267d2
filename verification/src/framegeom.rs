//! The geometry of a frame.
use vstd::prelude::*;

use crate::headers::{FrameHeader, PixelLayout};
use crate::intops::{p2, POW2};
use crate::levels::BlockSize;

verus! {

/// The size of a frame in various units, and its sample format.
#[derive(Debug, Clone, Copy, PartialEq, Eq, Structural)]
pub struct FrameGeometry {
    pub ss_ver: i32,
    pub ss_hor: i32,
    pub root_bs: BlockSize,
    /// Width and height in units of four pixels, rounded up to whole 8x8
    /// areas.
    pub bw: i32,
    pub bh: i32,
    /// Width and height in units of 256 pixels.
    pub sb256w: i32,
    pub sb256h: i32,
    /// Binary logarithm of the side of a superblock in units of four pixels,
    /// and that side.
    pub sb_shift: i32,
    pub sb_step: i32,
    /// Height in superblocks.
    pub sbh: i32,
    /// The distance between rows of maps with an entry for each unit.
    pub b4_stride: i32,
    pub bpc: i32,
    pub bitdepth_max: i32,
}

/// The size of superblocks.
pub open spec fn root_size(sb128: int) -> BlockSize {
    if sb128 == 0 {
        BlockSize::Bs64x64
    } else if sb128 == 1 {
        BlockSize::Bs128x128
    } else {
        BlockSize::Bs256x256
    }
}

/// Pixels in units of four, rounded up to a multiple of two units.
pub open spec fn units_of(pixels: int) -> int {
    (pixels + 7) / 8 * 2
}

pub open spec fn geometry(
    width: int,
    height: int,
    sb128: int,
    layout: PixelLayout,
    hbd: int,
) -> FrameGeometry {
    let bw = units_of(width);
    let bh = units_of(height);
    let sb_step = 16 * p2(sb128);
    FrameGeometry {
        ss_ver: if layout == PixelLayout::I420 { 1 } else { 0 },
        ss_hor: if layout == PixelLayout::I420 || layout == PixelLayout::I422 { 1 } else { 0 },
        root_bs: root_size(sb128),
        bw: bw as i32,
        bh: bh as i32,
        sb256w: ((bw + 63) / 64) as i32,
        sb256h: ((bh + 63) / 64) as i32,
        sb_shift: (4 + sb128) as i32,
        sb_step: sb_step as i32,
        sbh: ((bh + sb_step - 1) / sb_step) as i32,
        b4_stride: ((bw + 63) / 64 * 64) as i32,
        bpc: (8 + 2 * hbd) as i32,
        bitdepth_max: (p2(8 + 2 * hbd) - 1) as i32,
    }
}

/// The largest width and height of a frame.
pub const MAX_FRAME_SIZE: i32 = 0x10000;

/// Derives the geometry of a frame. `hbd` is zero for 8 bits per sample, one
/// for 10 and two for 12.
pub fn frame_geometry(frame_hdr: &FrameHeader, layout: PixelLayout, hbd: u8) -> (r: FrameGeometry)
    requires
        0 <= frame_hdr.width <= MAX_FRAME_SIZE,
        0 <= frame_hdr.height <= MAX_FRAME_SIZE,
        frame_hdr.sb128 <= 2,
        hbd <= 2,
    ensures
        r == geometry(
            frame_hdr.width as int,
            frame_hdr.height as int,
            frame_hdr.sb128 as int,
            layout,
            hbd as int,
        ),
{
    let sb128: i32 = frame_hdr.sb128 as i32;
    let root_bs: BlockSize = if sb128 == 0 {
        BlockSize::Bs64x64
    } else if sb128 == 1 {
        BlockSize::Bs128x128
    } else {
        BlockSize::Bs256x256
    };
    let bw: i32 = (frame_hdr.width + 7) / 8 * 2;
    let bh: i32 = (frame_hdr.height + 7) / 8 * 2;
    assert(POW2[0] == 1 && POW2[1] == 2 && POW2[2] == 4);
    assert(POW2[8] == 256 && POW2[10] == 1024 && POW2[12] == 4096);
    let sb_step: i32 = if sb128 == 0 {
        16
    } else if sb128 == 1 {
        32
    } else {
        64
    };
    let bpc: i32 = 8 + 2 * hbd as i32;
    FrameGeometry {
        ss_ver: if layout == PixelLayout::I420 { 1 } else { 0 },
        ss_hor: if layout == PixelLayout::I420 || layout == PixelLayout::I422 { 1 } else { 0 },
        root_bs,
        bw,
        bh,
        sb256w: (bw + 63) / 64,
        sb256h: (bh + 63) / 64,
        sb_shift: 4 + sb128,
        sb_step,
        sbh: (bh + sb_step - 1) / sb_step,
        b4_stride: (bw + 63) / 64 * 64,
        bpc,
        bitdepth_max: (POW2[bpc as usize] - 1) as i32,
    }
}

/// The units, the superblocks and the 256x256 areas of a frame cover all of
/// its pixels, and none of them lies wholly outside.
pub proof fn law_geometry_covers_the_frame(
    width: int,
    height: int,
    sb128: int,
    layout: PixelLayout,
    hbd: int,
)
    requires
        1 <= width <= MAX_FRAME_SIZE,
        1 <= height <= MAX_FRAME_SIZE,
        0 <= sb128 <= 2,
        0 <= hbd <= 2,
    ensures
        ({
            let g = geometry(width, height, sb128, layout, hbd);
            &&& width <= 4 * g.bw < width + 8
            &&& height <= 4 * g.bh < height + 8
            &&& g.bw <= 64 * g.sb256w < g.bw + 64
            &&& g.bh <= 64 * g.sb256h < g.bh + 64
            &&& g.bh <= g.sbh * g.sb_step < g.bh + g.sb_step
            &&& g.bw <= g.b4_stride
            &&& g.sb_step == p2(g.sb_shift as int)
        }),
{
    assert(POW2[0] == 1 && POW2[1] == 2 && POW2[2] == 4);
    assert(POW2[4] == 16 && POW2[5] == 32 && POW2[6] == 64);
    let g = geometry(width, height, sb128, layout, hbd);
    let bh = units_of(height);
    if sb128 == 0 {
        assert(g.sb_step == 16 && g.sbh == (bh + 15) / 16);
        assert(g.sbh * g.sb_step == g.sbh * 16) by (nonlinear_arith)
            requires
                g.sb_step == 16,
        ;
    } else if sb128 == 1 {
        assert(g.sb_step == 32 && g.sbh == (bh + 31) / 32);
        assert(g.sbh * g.sb_step == g.sbh * 32) by (nonlinear_arith)
            requires
                g.sb_step == 32,
        ;
    } else {
        assert(g.sb_step == 64 && g.sbh == (bh + 63) / 64);
        assert(g.sbh * g.sb_step == g.sbh * 64) by (nonlinear_arith)
            requires
                g.sb_step == 64,
        ;
    }
}

/// The numbers of a frame: units of four pixels in pairs, superblocks that
/// cover it, and the format of its planes.
pub proof fn law_geometry_of_a_frame(
    width: int,
    height: int,
    sb128: int,
    layout: PixelLayout,
    hbd: int,
)
    requires
        1 <= width <= 0x1_0000,
        1 <= height <= 0x1_0000,
        0 <= sb128 <= 2,
        0 <= hbd <= 2,
    ensures
        ({
            let g = geometry(width, height, sb128, layout, hbd);
            &&& g.bw % 2 == 0 && 4 * g.bw - 8 < width <= 4 * g.bw
            &&& g.bh % 2 == 0 && 4 * g.bh - 8 < height <= 4 * g.bh
            &&& 64 * g.sb256w - 64 < g.bw <= 64 * g.sb256w
            &&& 64 * g.sb256h - 64 < g.bh <= 64 * g.sb256h
            &&& g.b4_stride == 64 * g.sb256w
            &&& sb128 == 0 ==> g.sb_step == 16 && g.sb_shift == 4 && g.root_bs
                == BlockSize::Bs64x64
            &&& sb128 == 1 ==> g.sb_step == 32 && g.sb_shift == 5 && g.root_bs
                == BlockSize::Bs128x128
            &&& sb128 == 2 ==> g.sb_step == 64 && g.sb_shift == 6 && g.root_bs
                == BlockSize::Bs256x256
            &&& layout == PixelLayout::I420 ==> g.ss_hor == 1 && g.ss_ver == 1
            &&& layout == PixelLayout::I422 ==> g.ss_hor == 1 && g.ss_ver == 0
            &&& layout == PixelLayout::I444 ==> g.ss_hor == 0 && g.ss_ver == 0
            &&& hbd == 0 ==> g.bpc == 8 && g.bitdepth_max == 255
            &&& hbd == 1 ==> g.bpc == 10 && g.bitdepth_max == 1023
            &&& hbd == 2 ==> g.bpc == 12 && g.bitdepth_max == 4095
            &&& g.sb_step * g.sbh - g.sb_step < g.bh <= g.sb_step * g.sbh
        }),
{
    assert(p2(0) == 1 && p2(1) == 2 && p2(2) == 4 && p2(8) == 256 && p2(10) == 1024 && p2(12)
        == 4096);
    let bh = units_of(height);
    if sb128 == 0 {
        assert((bh + 16 - 1) / 16 * 16 >= bh);
    } else if sb128 == 1 {
        assert((bh + 32 - 1) / 32 * 32 >= bh);
    } else {
        assert((bh + 64 - 1) / 64 * 64 >= bh);
    }
}

} // verus!
