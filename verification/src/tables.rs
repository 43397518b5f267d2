//! Constant tables, indexed by block size unless said otherwise.
use vstd::prelude::*;

verus! {

/// Size group of a block, 0 for the smallest.
pub const SIZE_GROUP: [u8; 31] = [
    3, 3, 3, 3, 3, 3, 3, 3, 2, 2, 2, 3, 3, 2, 1, 1, 2, 2, 2, 1, 0, 2, 1, 1, 1, 0, 2, 1, 0, 0, 0,
];

/// Pixels of all three planes, and of luma and one chroma plane, per four
/// luma pixels, indexed by pixel layout.
pub const SS_SIZE_MUL: [[u8; 2]; 4] = [[4, 4], [6, 5], [8, 6], [12, 8]];

/// Size group for the division of a transform.
pub const TX_PART_GROUP: [u8; 31] = [
    0, 0, 0, 0, 0, 0, 7, 6, 8, 8, 8, 6, 5, 4, 8, 8, 8, 4, 3, 2, 8, 8, 8, 2, 1, 0, 8, 8, 8, 0, 0,
];

/// Context of the two-dimensional division of a transform.
pub const TX_TYPE_GROUP_VH: [u8; 31] = [
    0, 0, 0, 0, 0, 0, 9, 8, 13, 11, 0, 7, 6, 5, 11, 0, 12, 4, 3, 2, 0, 10, 10, 1, 0, 0, 0, 0, 0,
    0, 0,
];

pub const REORDERED_NONDIR_Y_MODE: [u8; 5] = [0, 9, 10, 11, 12];

pub const REORDERED_DIR_Y_MODE: [u8; 8] = [3, 8, 1, 5, 4, 6, 2, 7];

pub const DEFAULT_MODE_LIST_Y: [u8; 56] = [
    17, 45, 3, 10, 24, 31, 38, 52, 15, 19, 43, 47, 1, 5, 8, 12, 22, 26, 29, 33, 36, 40, 50, 54, 16,
    18, 44, 46, 2, 4, 9, 11, 23, 25, 30, 32, 37, 39, 51, 53, 14, 20, 42, 48, 0, 6, 7, 13, 21, 27,
    28, 34, 35, 41, 49, 55,
];

pub const DEFAULT_MODE_LIST_UV: [u8; 8] = [1, 2, 3, 4, 8, 5, 6, 7];

pub const INTRA_DIR_MODE_Y_TO_UV_IDX: [u8; 8] = [2, 4, 0, 5, 3, 6, 1, 7];

pub const MV_PREC_TBL: [[u8; 3]; 2] = [[3, 1, 0], [4, 3, 1]];

/// Width and height below which the parts of a divided block are not divided
/// again, indexed by partition.
pub const PARTITION_LIM: [[u8; 2]; 10] = [
    [1, 1], [1, 2], [2, 1], [2, 4], [4, 2], [1, 8], [1, 8], [8, 1], [8, 1], [2, 2],
];

/// Index of a wedge, by angle and distance; -1 where there is none.
pub const WEDGE_ANGLE_DIST2IDX: [[i8; 4]; 20] = [
    [-1, 0, 1, 2], [3, 4, 5, 6], [7, 8, 9, 10], [11, 12, 13, 14], [15, 16, 17, 18],
    [-1, 19, 20, 21], [22, 23, 24, 25], [26, 27, 28, 29], [30, 31, 32, 33], [34, 35, 36, 37],
    [-1, 38, 39, 40], [-1, 41, 42, 43], [-1, 44, 45, 46], [-1, 47, 48, 49], [-1, 50, 51, 52],
    [-1, 53, 54, 55], [-1, 56, 57, 58], [-1, 59, 60, 61], [-1, 62, 63, 64], [-1, 65, 66, 67],
];

/// Block-size group for forward skip coding.
pub const FSC_BSIZE_GROUPS: [u8; 31] = [
    0, 0, 0, 0, 0, 0, 0, 0, 0, 0, 0, 0, 5, 5, 4, 4, 0, 5, 4, 3, 3, 0, 4, 3, 2, 1, 0, 4, 3, 1, 0,
];

pub const CWP_WEIGHTING_FACTOR: [[i8; 5]; 2] = [[8, 12, 4, 10, 6], [8, 12, 4, 20, -4]];

/// Context of adaptive motion-vector differences, by compound mode counted
/// from the first with a new vector.
pub const AMVD_MODE_CONTEXT: [u8; 10] = [0, 1, 0, 7, 5, 0, 2, 3, 8, 6];

/// The parts of a block divided horizontally, then vertically: in halves, in
/// the outer parts of three, in the outer parts of four, in quarters. A part
/// that does not exist is -1.
pub const PARTITION_SUBB_PART: [[[i8; 4]; 2]; 31] = [
    [[1, -1, -1, 3], [2, -1, -1, 3]], // 256x256
    [[-1, -1, -1, -1], [3, -1, -1, -1]], // 256x128
    [[3, -1, -1, -1], [-1, -1, -1, -1]], // 128x256
    [[4, -1, -1, 6], [5, -1, -1, 6]], // 128x128
    [[-1, -1, -1, -1], [6, -1, -1, -1]], // 128x64
    [[6, -1, -1, -1], [-1, -1, -1, -1]], // 64x128
    [[7, 8, 9, 12], [11, 16, 21, 12]], // 64x64
    [[8, 9, 10, 13], [12, 17, 22, 13]], // 64x32
    [[9, 10, -1, 14], [13, 18, 23, 14]], // 64x16
    [[-1, -1, -1, -1], [-1, -1, -1, -1]], // 64x8
    [[-1, -1, -1, -1], [-1, -1, -1, -1]], // 64x4
    [[12, 13, 14, 17], [16, 21, 26, 17]], // 32x64
    [[13, 14, 15, 18], [17, 22, 27, 18]], // 32x32
    [[14, 15, -1, 19], [18, 23, 28, 19]], // 32x16
    [[15, -1, -1, -1], [19, 24, 29, 20]], // 32x8
    [[-1, -1, -1, -1], [-1, -1, -1, -1]], // 32x4
    [[17, 18, 19, 22], [21, 26, -1, 22]], // 16x64
    [[18, 19, 20, 23], [22, 27, -1, 23]], // 16x32
    [[19, 20, -1, 24], [23, 28, -1, 24]], // 16x16
    [[20, -1, -1, -1], [24, 29, -1, 25]], // 16x8
    [[-1, -1, -1, -1], [25, -1, -1, -1]], // 16x4
    [[-1, -1, -1, -1], [-1, -1, -1, -1]], // 8x64
    [[23, 24, 25, 28], [27, -1, -1, -1]], // 8x32
    [[24, 25, -1, 29], [28, -1, -1, -1]], // 8x16
    [[25, -1, -1, -1], [29, -1, -1, -1]], // 8x8
    [[-1, -1, -1, -1], [30, -1, -1, -1]], // 8x4
    [[-1, -1, -1, -1], [-1, -1, -1, -1]], // 4x64
    [[-1, -1, -1, -1], [-1, -1, -1, -1]], // 4x32
    [[29, -1, -1, -1], [-1, -1, -1, -1]], // 4x16
    [[30, -1, -1, -1], [-1, -1, -1, -1]], // 4x8
    [[-1, -1, -1, -1], [-1, -1, -1, -1]], // 4x4
];

/// Contexts of the split flag and of the direction flag.
pub const PARTITION_SUBB_CTX: [[i8; 2]; 31] = [
    [9, 12], [8, -1], [7, -1], [6, 9], [5, -1], [4, -1], [3, 6], [3, 5],
    [15, 14], [0, 0], [0, -1], [3, 4], [2, 3], [2, 2], [13, 14], [0, -1],
    [14, 13], [2, 1], [1, 0], [1, 2], [11, -1], [0, 0], [12, 13], [1, 1],
    [0, 0], [0, -1], [0, -1], [0, -1], [10, -1], [0, -1], [-1, -1],
];

} // verus!
