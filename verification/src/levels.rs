//! Block sizes, partitions, modes and motion vectors.
use vstd::prelude::*;

use crate::intops::p2;

verus! {

pub const N_BS_SIZES: usize = 31;

pub const N_PARTITIONS: usize = 10;

pub const N_RECT_TX_SIZES: usize = 25;

/// The pseudo reference that stands for temporally interpolated prediction.
pub const TIP_FRAME: i8 = 7;

/// Prediction from the left and slightly down.
pub const HOR_DOWN_PRED: u8 = 6;

/// Prediction from above and slightly to the left.
pub const VERT_LEFT_PRED: u8 = 8;

/// Chroma-from-luma, the chroma mode that follows the thirteen intra modes.
pub const CFL_PRED: u8 = 13;

pub const DC_PRED: u8 = 0;

pub const VERT_PRED: u8 = 1;

pub const HOR_PRED: u8 = 2;

pub const SMOOTH_PRED: u8 = 9;

pub const SMOOTH_V_PRED: u8 = 10;

pub const SMOOTH_H_PRED: u8 = 11;

pub const PAETH_PRED: u8 = 12;

pub const NEAR_MV: u8 = 13;

pub const GLOBAL_MV: u8 = 14;

pub const NEW_MV: u8 = 15;

pub const WARP_MV: u8 = 16;

pub const WARP_NEW_MV: u8 = 17;

pub const NEAR_MV_NEAR_MV: u8 = 18;

pub const NEAR_MV_NEW_MV: u8 = 19;

pub const NEW_MV_NEAR_MV: u8 = 20;

pub const GLOBAL_MV_GLOBAL_MV: u8 = 21;

pub const NEW_MV_NEW_MV: u8 = 22;

pub const JOINT_NEW_MV: u8 = 23;

pub const OPFL_NEAR_MV_NEAR_MV: u8 = 24;

pub const OPFL_NEAR_MV_NEW_MV: u8 = 25;

pub const OPFL_NEW_MV_NEAR_MV: u8 = 26;

pub const OPFL_NEW_MV_NEW_MV: u8 = 27;

pub const OPFL_JOINT_NEW_MV: u8 = 28;

/// Block sizes, from the largest to the smallest; `Invalid` marks an absent
/// luma or chroma part.
#[derive(Debug, Clone, Copy, PartialEq, Eq, Structural)]
pub enum BlockSize {
    Bs256x256,
    Bs256x128,
    Bs128x256,
    Bs128x128,
    Bs128x64,
    Bs64x128,
    Bs64x64,
    Bs64x32,
    Bs64x16,
    Bs64x8,
    Bs64x4,
    Bs32x64,
    Bs32x32,
    Bs32x16,
    Bs32x8,
    Bs32x4,
    Bs16x64,
    Bs16x32,
    Bs16x16,
    Bs16x8,
    Bs16x4,
    Bs8x64,
    Bs8x32,
    Bs8x16,
    Bs8x8,
    Bs8x4,
    Bs4x64,
    Bs4x32,
    Bs4x16,
    Bs4x8,
    Bs4x4,
    Invalid,
}

/// Width and height in units of four pixels, then the binary logarithm of
/// each.
pub const BLOCK_DIMENSIONS: [[u8; 4]; 31] = [
    [64, 64, 6, 6], [64, 32, 6, 5], [32, 64, 5, 6], [32, 32, 5, 5], [32, 16, 5, 4],
    [16, 32, 4, 5], [16, 16, 4, 4], [16, 8, 4, 3], [16, 4, 4, 2], [16, 2, 4, 1], [16, 1, 4, 0],
    [8, 16, 3, 4], [8, 8, 3, 3], [8, 4, 3, 2], [8, 2, 3, 1], [8, 1, 3, 0], [4, 16, 2, 4],
    [4, 8, 2, 3], [4, 4, 2, 2], [4, 2, 2, 1], [4, 1, 2, 0], [2, 16, 1, 4], [2, 8, 1, 3],
    [2, 4, 1, 2], [2, 2, 1, 1], [2, 1, 1, 0], [1, 16, 0, 4], [1, 8, 0, 3], [1, 4, 0, 2],
    [1, 2, 0, 1], [1, 1, 0, 0],
];

impl BlockSize {
    /// Width in units of four pixels.
    #[verifier::opaque]
    pub open spec fn w4(self) -> int {
        BLOCK_DIMENSIONS[self as int][0] as int
    }

    /// Height in units of four pixels.
    #[verifier::opaque]
    pub open spec fn h4(self) -> int {
        BLOCK_DIMENSIONS[self as int][1] as int
    }

    /// Binary logarithm of [`BlockSize::w4`].
    #[verifier::opaque]
    pub open spec fn lw4(self) -> int {
        BLOCK_DIMENSIONS[self as int][2] as int
    }

    /// Binary logarithm of [`BlockSize::h4`].
    #[verifier::opaque]
    pub open spec fn lh4(self) -> int {
        BLOCK_DIMENSIONS[self as int][3] as int
    }

    /// The dimensions of a valid block size.
    pub fn dim(self) -> (d: [u8; 4])
        requires
            self != BlockSize::Invalid,
        ensures
            d[0] == self.w4(),
            d[1] == self.h4(),
            d[2] == self.lw4(),
            d[3] == self.lh4(),
            1 <= d[0] <= 64,
            1 <= d[1] <= 64,
            d[2] <= 6,
            d[3] <= 6,
    {
        proof {
            lemma_block_dimensions(self);
            reveal(BlockSize::w4);
            reveal(BlockSize::h4);
            reveal(BlockSize::lw4);
            reveal(BlockSize::lh4);
        }
        BLOCK_DIMENSIONS[self as usize]
    }

    /// The area of a valid block size, in units of four by four pixels.
    pub fn area(self) -> (r: i32)
        requires
            self != BlockSize::Invalid,
        ensures
            r == self.w4() * self.h4(),
            1 <= r <= 4096,
    {
        let d: [u8; 4] = self.dim();
        assert(1 <= d[0] * d[1] <= 4096) by (nonlinear_arith)
            requires
                1 <= d[0] <= 64,
                1 <= d[1] <= 64,
        ;
        d[0] as i32 * d[1] as i32
    }
}

/// Every side of a block is a power of two of at most 64 units, and the
/// logarithms in the table are those of the sides.
pub proof fn lemma_block_dimensions(bs: BlockSize)
    requires
        bs != BlockSize::Invalid,
    ensures
        1 <= bs.w4() <= 64,
        1 <= bs.h4() <= 64,
        0 <= bs.lw4() <= 6,
        0 <= bs.lh4() <= 6,
        bs.w4() == p2(bs.lw4()),
        bs.h4() == p2(bs.lh4()),
        is_side(bs.w4()),
        is_side(bs.h4()),
{
    reveal(BlockSize::w4);
    reveal(BlockSize::h4);
    reveal(BlockSize::lw4);
    reveal(BlockSize::lh4);
}

/// The sides that a block can have, in units of four pixels.
pub open spec fn is_side(v: int) -> bool {
    v == 1 || v == 2 || v == 4 || v == 8 || v == 16 || v == 32 || v == 64
}

/// How a block is divided.
#[derive(Debug, Clone, Copy, PartialEq, Eq, Structural)]
pub enum BlockPartition {
    Whole,
    H,
    V,
    H3,
    V3,
    H4A,
    H4B,
    V4A,
    V4B,
    Split,
    Invalid,
}

/// How the transform of a block is divided.
#[derive(Debug, Clone, Copy, PartialEq, Eq, Structural)]
pub enum TxPartition {
    Whole,
    Split,
    H,
    V,
    H4,
    V4,
    H5,
    V5,
}

#[derive(Debug, Clone, Copy, PartialEq, Eq, Structural)]
pub enum MotionMode {
    Translation,
    InterIntra,
    WarpCausal,
    WarpDelta,
    WarpExtend,
}

/// Vertical and horizontal displacement in eighths of a pixel.
#[derive(Debug, Clone, Copy, PartialEq, Eq, Structural)]
pub struct MvXY {
    pub y: i32,
    pub x: i32,
}

/// A motion vector.
#[derive(Debug, Clone, Copy, PartialEq, Eq, Structural)]
pub struct Mv {
    pub c: MvXY,
}

impl Default for Mv {
    fn default() -> (r: Self)
        ensures
            r.c.y == 0,
            r.c.x == 0,
    {
        Mv { c: MvXY { y: 0, x: 0 } }
    }
}

/// The two references of a block; an unused one is negative.
#[derive(Debug, Clone, Copy, PartialEq, Eq)]
pub struct RefPair {
    pub r: [i8; 2],
}

/// A block size is named by its width and its height in pixels, and measured in
/// units of four.
pub proof fn law_block_sizes_are_named_by_width_and_height(bs: BlockSize)
    requires
        bs != BlockSize::Invalid,
    ensures
        BlockSize::Bs256x256.w4() == 64 && BlockSize::Bs256x256.h4() == 64,
        BlockSize::Bs256x128.w4() == 64 && BlockSize::Bs256x128.h4() == 32,
        BlockSize::Bs128x256.w4() == 32 && BlockSize::Bs128x256.h4() == 64,
        BlockSize::Bs128x128.w4() == 32 && BlockSize::Bs128x128.h4() == 32,
        BlockSize::Bs128x64.w4() == 32 && BlockSize::Bs128x64.h4() == 16,
        BlockSize::Bs64x128.w4() == 16 && BlockSize::Bs64x128.h4() == 32,
        BlockSize::Bs64x64.w4() == 16 && BlockSize::Bs64x64.h4() == 16,
        BlockSize::Bs64x32.w4() == 16 && BlockSize::Bs64x32.h4() == 8,
        BlockSize::Bs64x16.w4() == 16 && BlockSize::Bs64x16.h4() == 4,
        BlockSize::Bs64x8.w4() == 16 && BlockSize::Bs64x8.h4() == 2,
        BlockSize::Bs64x4.w4() == 16 && BlockSize::Bs64x4.h4() == 1,
        BlockSize::Bs32x64.w4() == 8 && BlockSize::Bs32x64.h4() == 16,
        BlockSize::Bs32x32.w4() == 8 && BlockSize::Bs32x32.h4() == 8,
        BlockSize::Bs32x16.w4() == 8 && BlockSize::Bs32x16.h4() == 4,
        BlockSize::Bs32x8.w4() == 8 && BlockSize::Bs32x8.h4() == 2,
        BlockSize::Bs32x4.w4() == 8 && BlockSize::Bs32x4.h4() == 1,
        BlockSize::Bs16x64.w4() == 4 && BlockSize::Bs16x64.h4() == 16,
        BlockSize::Bs16x32.w4() == 4 && BlockSize::Bs16x32.h4() == 8,
        BlockSize::Bs16x16.w4() == 4 && BlockSize::Bs16x16.h4() == 4,
        BlockSize::Bs16x8.w4() == 4 && BlockSize::Bs16x8.h4() == 2,
        BlockSize::Bs16x4.w4() == 4 && BlockSize::Bs16x4.h4() == 1,
        BlockSize::Bs8x64.w4() == 2 && BlockSize::Bs8x64.h4() == 16,
        BlockSize::Bs8x32.w4() == 2 && BlockSize::Bs8x32.h4() == 8,
        BlockSize::Bs8x16.w4() == 2 && BlockSize::Bs8x16.h4() == 4,
        BlockSize::Bs8x8.w4() == 2 && BlockSize::Bs8x8.h4() == 2,
        BlockSize::Bs8x4.w4() == 2 && BlockSize::Bs8x4.h4() == 1,
        BlockSize::Bs4x64.w4() == 1 && BlockSize::Bs4x64.h4() == 16,
        BlockSize::Bs4x32.w4() == 1 && BlockSize::Bs4x32.h4() == 8,
        BlockSize::Bs4x16.w4() == 1 && BlockSize::Bs4x16.h4() == 4,
        BlockSize::Bs4x8.w4() == 1 && BlockSize::Bs4x8.h4() == 2,
        BlockSize::Bs4x4.w4() == 1 && BlockSize::Bs4x4.h4() == 1,
        bs.w4() == p2(bs.lw4()),
        bs.h4() == p2(bs.lh4()),
{
    reveal(BlockSize::w4);
    reveal(BlockSize::h4);
    lemma_block_dimensions(bs);
}

} // verus!
