//! How a superblock is divided into blocks.
use vstd::prelude::*;

use crate::frameinfo::SbFrameInfo;
use crate::intops::{b2i, clip, iclip, max, min, p2, POW2};
use crate::levels::{lemma_block_dimensions, BlockPartition, BlockSize};
use crate::msac::{Cdf, Derived, MsacContext, Request, Sym};
use crate::tables::{PARTITION_SUBB_CTX, PARTITION_SUBB_PART};

verus! {

/// The block size with number `i`; numbers that are not in the table stand
/// for no block.
pub open spec fn block_size_of(i: int) -> BlockSize {
    if i == 0 { BlockSize::Bs256x256 }
    else if i == 1 { BlockSize::Bs256x128 }
    else if i == 2 { BlockSize::Bs128x256 }
    else if i == 3 { BlockSize::Bs128x128 }
    else if i == 4 { BlockSize::Bs128x64 }
    else if i == 5 { BlockSize::Bs64x128 }
    else if i == 6 { BlockSize::Bs64x64 }
    else if i == 7 { BlockSize::Bs64x32 }
    else if i == 8 { BlockSize::Bs64x16 }
    else if i == 9 { BlockSize::Bs64x8 }
    else if i == 10 { BlockSize::Bs64x4 }
    else if i == 11 { BlockSize::Bs32x64 }
    else if i == 12 { BlockSize::Bs32x32 }
    else if i == 13 { BlockSize::Bs32x16 }
    else if i == 14 { BlockSize::Bs32x8 }
    else if i == 15 { BlockSize::Bs32x4 }
    else if i == 16 { BlockSize::Bs16x64 }
    else if i == 17 { BlockSize::Bs16x32 }
    else if i == 18 { BlockSize::Bs16x16 }
    else if i == 19 { BlockSize::Bs16x8 }
    else if i == 20 { BlockSize::Bs16x4 }
    else if i == 21 { BlockSize::Bs8x64 }
    else if i == 22 { BlockSize::Bs8x32 }
    else if i == 23 { BlockSize::Bs8x16 }
    else if i == 24 { BlockSize::Bs8x8 }
    else if i == 25 { BlockSize::Bs8x4 }
    else if i == 26 { BlockSize::Bs4x64 }
    else if i == 27 { BlockSize::Bs4x32 }
    else if i == 28 { BlockSize::Bs4x16 }
    else if i == 29 { BlockSize::Bs4x8 }
    else if i == 30 { BlockSize::Bs4x4 }
    else { BlockSize::Invalid }
}

/// Part `k` of a block that is divided along direction `d`.
#[verifier::opaque]
pub open spec fn part_of(bs: BlockSize, d: int, k: int) -> BlockSize {
    block_size_of(PARTITION_SUBB_PART[bs as int][d][k] as int)
}

/// Whether part `k` of a block that is divided along direction `d` exists.
pub open spec fn has_part(bs: BlockSize, d: int, k: int) -> bool {
    part_of(bs, d, k) != BlockSize::Invalid
}

/// The context of the split flag (`k` zero) or of the direction flag.
#[verifier::opaque]
pub open spec fn part_ctx(bs: BlockSize, k: int) -> int {
    PARTITION_SUBB_CTX[bs as int][k] as int
}

impl BlockSize {
    /// The block size with number `i`.
    pub fn from_raw(i: i8) -> (r: BlockSize)
        ensures
            r == block_size_of(i as int),
            0 <= i < 31 ==> r as int == i,
    {
        match i {
            0 => BlockSize::Bs256x256,
            1 => BlockSize::Bs256x128,
            2 => BlockSize::Bs128x256,
            3 => BlockSize::Bs128x128,
            4 => BlockSize::Bs128x64,
            5 => BlockSize::Bs64x128,
            6 => BlockSize::Bs64x64,
            7 => BlockSize::Bs64x32,
            8 => BlockSize::Bs64x16,
            9 => BlockSize::Bs64x8,
            10 => BlockSize::Bs64x4,
            11 => BlockSize::Bs32x64,
            12 => BlockSize::Bs32x32,
            13 => BlockSize::Bs32x16,
            14 => BlockSize::Bs32x8,
            15 => BlockSize::Bs32x4,
            16 => BlockSize::Bs16x64,
            17 => BlockSize::Bs16x32,
            18 => BlockSize::Bs16x16,
            19 => BlockSize::Bs16x8,
            20 => BlockSize::Bs16x4,
            21 => BlockSize::Bs8x64,
            22 => BlockSize::Bs8x32,
            23 => BlockSize::Bs8x16,
            24 => BlockSize::Bs8x8,
            25 => BlockSize::Bs8x4,
            26 => BlockSize::Bs4x64,
            27 => BlockSize::Bs4x32,
            28 => BlockSize::Bs4x16,
            29 => BlockSize::Bs4x8,
            30 => BlockSize::Bs4x4,
            _ => BlockSize::Invalid,
        }
    }
}

/// The partition with number `i`.
pub open spec fn partition_of(i: int) -> BlockPartition {
    if i == 0 { BlockPartition::Whole }
    else if i == 1 { BlockPartition::H }
    else if i == 2 { BlockPartition::V }
    else if i == 3 { BlockPartition::H3 }
    else if i == 4 { BlockPartition::V3 }
    else if i == 5 { BlockPartition::H4A }
    else if i == 6 { BlockPartition::H4B }
    else if i == 7 { BlockPartition::V4A }
    else if i == 8 { BlockPartition::V4B }
    else if i == 9 { BlockPartition::Split }
    else { BlockPartition::Invalid }
}

impl BlockPartition {
    /// The partition with number `i`.
    pub fn from_raw(i: u8) -> (r: BlockPartition)
        ensures
            r == partition_of(i as int),
            i < 10 ==> r as int == i,
    {
        match i {
            0 => BlockPartition::Whole,
            1 => BlockPartition::H,
            2 => BlockPartition::V,
            3 => BlockPartition::H3,
            4 => BlockPartition::V3,
            5 => BlockPartition::H4A,
            6 => BlockPartition::H4B,
            7 => BlockPartition::V4A,
            8 => BlockPartition::V4B,
            9 => BlockPartition::Split,
            _ => BlockPartition::Invalid,
        }
    }
}

/// The parts of a block and the contexts of its division.
#[derive(Debug, Clone, Copy)]
pub struct PartitionConstants {
    pub part: [[i8; 4]; 2],
    pub ctx: [i8; 2],
}

pub fn partition_subb(bs: BlockSize) -> (r: PartitionConstants)
    requires
        bs != BlockSize::Invalid,
    ensures
        r.part == PARTITION_SUBB_PART[bs as int],
        r.ctx == PARTITION_SUBB_CTX[bs as int],
{
    PartitionConstants {
        part: PARTITION_SUBB_PART[bs as usize],
        ctx: PARTITION_SUBB_CTX[bs as usize],
    }
}

/// Part `k` of a block that is divided along direction `d`.
pub fn get_part(bs: BlockSize, d: usize, k: usize) -> (r: BlockSize)
    requires
        bs != BlockSize::Invalid,
        d < 2,
        k < 4,
    ensures
        r == part_of(bs, d as int, k as int),
{
    reveal(part_of);
    BlockSize::from_raw(PARTITION_SUBB_PART[bs as usize][d][k])
}

fn get_ctx(bs: BlockSize, k: usize) -> (r: i32)
    requires
        bs != BlockSize::Invalid,
        k < 2,
    ensures
        r == part_ctx(bs, k as int),
{
    reveal(part_ctx);
    PARTITION_SUBB_CTX[bs as usize][k] as i32
}

/// A block that may be divided: its position in units of four pixels and the
/// sizes of its luma and chroma parts.
#[derive(Debug, Clone, Copy, PartialEq, Eq, Structural)]
pub struct SbNode {
    pub bx: i32,
    pub by: i32,
    pub lbs: BlockSize,
    pub cbs: BlockSize,
}

impl SbNode {
    /// The size of the luma part, or of the chroma part where there is no
    /// luma.
    pub open spec fn bs(self) -> BlockSize {
        if self.lbs == BlockSize::Invalid { self.cbs } else { self.lbs }
    }

    pub open spec fn chroma_only(self) -> bool {
        self.lbs == BlockSize::Invalid
    }

    pub open spec fn w4(self) -> int {
        self.bs().w4()
    }

    pub open spec fn h4(self) -> int {
        self.bs().h4()
    }

    /// Width in units of four samples of the first plane that the block has.
    pub open spec fn plane_w4(self, fi: SbFrameInfo) -> int {
        if self.chroma_only() { self.w4() / p2(fi.ss_hor as int) } else { self.w4() }
    }

    /// Height in units of four samples of the first plane that the block has.
    pub open spec fn plane_h4(self, fi: SbFrameInfo) -> int {
        if self.chroma_only() { self.h4() / p2(fi.ss_ver as int) } else { self.h4() }
    }

    /// The right half lies, at least in part, within the frame.
    pub open spec fn have_h(self, fi: SbFrameInfo) -> bool {
        fi.bw > self.bx + self.w4() / 2
    }

    /// The lower half lies, at least in part, within the frame.
    pub open spec fn have_v(self, fi: SbFrameInfo) -> bool {
        fi.bh > self.by + self.h4() / 2
    }

    pub open spec fn valid(self, fi: SbFrameInfo) -> bool {
        &&& self.bs() != BlockSize::Invalid
        &&& 0 <= self.bx <= 0x1000_0000
        &&& 0 <= self.by <= 0x1000_0000
        &&& self.plane_w4(fi) >= 1
        &&& self.plane_h4(fi) >= 1
    }

    pub fn size(&self) -> (r: BlockSize)
        ensures
            r == self.bs(),
    {
        if self.lbs == BlockSize::Invalid { self.cbs } else { self.lbs }
    }
}

/// The frame has a chroma format and an aspect-ratio limit that blocks can be
/// divided under.
pub open spec fn divisible(fi: SbFrameInfo) -> bool {
    &&& 0 <= fi.ss_hor <= 1
    &&& 0 <= fi.ss_ver <= 1
    &&& 1 <= fi.max_pb_aspect_ratio_log2 <= 24
    &&& 0 <= fi.bw <= 0x1000_0000
    &&& 0 <= fi.bh <= 0x1000_0000
}

/// What is remembered of the directions in which luma was divided: codes 1
/// for horizontal, 2 for vertical and 255 for undivided, of the block and of
/// its parts.
#[derive(Debug, Clone, Copy, PartialEq, Eq, Structural)]
pub struct DirState {
    pub dir: u8,
    pub part: u8,
    pub child: u8,
    /// The block is too small for its parts to choose a region type.
    pub at_limit: bool,
}

/// The partition that follows from the size of the block and the edges of the
/// frame alone, with its direction (1 for vertical, -1 for none).
pub open spec fn forced_partition(fi: SbFrameInfo, n: SbNode) -> Option<(BlockPartition, int)> {
    let (w, h) = (n.w4(), n.h4());
    if max(n.plane_w4(fi), n.plane_h4(fi)) == 1 || (!has_part(n.bs(), 0, 0)
        && !has_part(n.bs(), 1, 0)) {
        Some((BlockPartition::Whole, -1))
    } else if n.have_h(fi) && n.have_v(fi) {
        None
    } else if w == h {
        if n.have_v(fi) { Some((BlockPartition::V, 1)) } else { Some((BlockPartition::H, 0)) }
    } else if w > h {
        if !n.have_h(fi) || fi.bh <= n.by + h / 4 {
            Some((BlockPartition::V, 1))
        } else {
            None
        }
    } else {
        if !n.have_v(fi) || fi.bw <= n.bx + w / 4 {
            Some((BlockPartition::H, 0))
        } else {
            None
        }
    }
}

/// The partition that chroma takes over from luma: that of an undivided
/// block, or of one whose parts were divided across its own direction.
pub open spec fn inherited_partition(n: SbNode, d: DirState) -> Option<(BlockPartition, int)> {
    if n.cbs != BlockSize::Bs64x64 || !n.chroma_only() {
        None
    } else if d.dir == 0xff {
        Some((BlockPartition::Whole, -1))
    } else if d.child % 4 == 1 && d.dir % 4 == 2 {
        Some((partition_of(d.part as int), 1))
    } else if d.child % 4 == 2 && d.dir % 4 == 1 {
        Some((partition_of(d.part as int), 0))
    } else {
        None
    }
}

/// The side of the block along which direction `d` divides it.
pub open spec fn along(d: int, w: int, h: int) -> int {
    if d == 1 { w } else { h }
}

/// The side of the block across which direction `d` does not divide it.
pub open spec fn across(d: int, w: int, h: int) -> int {
    if d == 1 { h } else { w }
}

/// Whether a block can be divided in three along direction `d`.
pub open spec fn three_way_allowed(fi: SbFrameInfo, n: SbNode, d: int) -> bool {
    let (w, h) = (n.w4(), n.h4());
    let (pw, ph) = (n.plane_w4(fi), n.plane_h4(fi));
    let (cw, ch) = (w / p2(fi.ss_hor as int), h / p2(fi.ss_ver as int));
    let aspect = p2(fi.max_pb_aspect_ratio_log2 as int);
    &&& fi.ext_partitions
    &&& along(d, pw, ph) >= 4
    &&& across(d, pw, ph) >= 2
    &&& along(d, w, h) * aspect >= across(d, w, h) * 4
    &&& (n.cbs != n.lbs || (along(d, cw, ch) >= 4 && across(d, cw, ch) >= 2) || (if d == 1 {
        if n.lbs == BlockSize::Bs32x8 { n.have_v(fi) } else { n.bx + w / 4 * 3 < fi.bw }
    } else {
        if n.lbs == BlockSize::Bs8x32 { n.have_h(fi) } else { n.by + h / 4 * 3 < fi.bh }
    }))
}

/// Whether a block can be divided in four uneven parts along direction `d`.
pub open spec fn four_way_allowed(fi: SbFrameInfo, n: SbNode, d: int) -> bool {
    let (w, h) = (n.w4(), n.h4());
    let (pw, ph) = (n.plane_w4(fi), n.plane_h4(fi));
    let (cw, ch) = (w / p2(fi.ss_hor as int), h / p2(fi.ss_ver as int));
    let aspect = p2(fi.max_pb_aspect_ratio_log2 as int);
    &&& along(d, pw, ph) >= 8
    &&& fi.uneven_4way
    &&& along(d, w, h) * aspect >= across(d, w, h) * 8
    &&& (n.cbs != n.lbs || along(d, cw, ch) >= 8 || (if d == 1 {
        n.bx + w / 8 * 7 < fi.bw
    } else {
        n.by + h / 8 * 7 < fi.bh
    }))
}

/// Halves, thirds or uneven quarters along direction `d`.
pub open spec fn extended_partition(s: Sym, fi: SbFrameInfo, n: SbNode, d: int) -> (
    BlockPartition,
    Sym,
) {
    let pl = b2i(n.chroma_only());
    let two = if d == 1 { BlockPartition::V } else { BlockPartition::H };
    let three = if d == 1 { BlockPartition::V3 } else { BlockPartition::H3 };
    let has3 = three_way_allowed(fi, n, d);
    let has4 = four_way_allowed(fi, n, d);
    if max(n.w4(), n.h4()) > 16 || !(has3 || has4) {
        (two, s)
    } else {
        let (c, s) = s.context(
            Derived::Partition2(
                n.bs(),
                pl as usize,
                d as usize,
                (n.by % 64) as usize,
                (n.bx % 64) as usize,
            ),
            4,
        );
        let ctx = (c + part_ctx(n.bs(), 0) * 4) as usize;
        let (ext, s) = s.flag(Cdf::PartExt(pl as usize, ctx));
        if ext == 0 {
            (two, s)
        } else if !has4 {
            (three, s)
        } else {
            let (four, s) = if has3 { s.flag(Cdf::Part4way(pl as usize, ctx)) } else { (1, s) };
            if four == 0 {
                (three, s)
            } else {
                let (v, s) = s.bit();
                (partition_of(5 + 2 * d + v), s)
            }
        }
    }
}

/// The direction of a division, and the division itself.
pub open spec fn directed_partition(s: Sym, fi: SbFrameInfo, n: SbNode, ctx1: int) -> (
    (BlockPartition, int),
    Sym,
) {
    let (w, h) = (n.w4(), n.h4());
    let (pw, ph) = (n.plane_w4(fi), n.plane_h4(fi));
    let pl = b2i(n.chroma_only());
    let aspect = p2(fi.max_pb_aspect_ratio_log2 as int);
    let v_aspect = w * aspect >= h * 2;
    let h_aspect = h * aspect >= w * 2;
    let (d, s) = if min(pw, ph) == 1 {
        (b2i(pw > ph), s)
    } else if !(v_aspect && h_aspect) {
        (b2i(v_aspect), s)
    } else {
        s.flag(
            Cdf::PartDir(pl as usize, (ctx1 + part_ctx(n.bs(), 1) * 4) as usize),
        )
    };
    let (bp, s) = extended_partition(s, fi, n, d);
    ((bp, d), s)
}

/// The partition that is coded for a block.
pub open spec fn coded_partition(s: Sym, fi: SbFrameInfo, n: SbNode, intra_region: bool) -> (
    (BlockPartition, int),
    Sym,
) {
    let bs = n.bs();
    let pl = b2i(n.chroma_only());
    let both = n.have_h(fi) && n.have_v(fi);
    let (ctx1, s) = s.context(
        Derived::Partition(bs, pl as usize, (n.by % 64) as usize, (n.bx % 64) as usize),
        4,
    );
    let (split, s) = if fi.is_inter_or_switch && !intra_region && bs.lw4() + bs.lh4() == 1 {
        (0, s)
    } else if !both {
        (1, s)
    } else {
        s.flag(
            Cdf::PartSplit(pl as usize, (ctx1 + part_ctx(bs, 0) * 4) as usize),
        )
    };
    if split == 0 {
        ((BlockPartition::Whole, -1), s)
    } else if (bs == BlockSize::Bs128x128 || bs == BlockSize::Bs256x256) && both {
        let (square, s) = s.flag(
            Cdf::PartSquare((ctx1 + 4 * b2i(bs == BlockSize::Bs256x256)) as usize),
        );
        if square != 0 {
            ((BlockPartition::Split, -1), s)
        } else {
            directed_partition(s, fi, n, ctx1)
        }
    } else if max(n.w4(), n.h4()) >= 32 {
        ((if n.w4() > n.h4() { BlockPartition::V } else { BlockPartition::H }, -1), s)
    } else {
        directed_partition(s, fi, n, ctx1)
    }
}

/// The partition of a block and its direction.
#[verifier::opaque]
pub open spec fn node_partition(
    s: Sym,
    fi: SbFrameInfo,
    n: SbNode,
    intra_region: bool,
    d: DirState,
) -> ((BlockPartition, int), Sym) {
    match forced_partition(fi, n) {
        Some(p) => (p, s),
        None => match inherited_partition(n, d) {
            Some(p) => (p, s),
            None => coded_partition(s, fi, n, intra_region),
        },
    }
}

/// Every part that the partition needs exists for a block of this size.
pub open spec fn partition_fits(bs: BlockSize, bp: BlockPartition) -> bool {
    match bp {
        BlockPartition::Whole => true,
        BlockPartition::H => has_part(bs, 0, 0),
        BlockPartition::V => has_part(bs, 1, 0),
        BlockPartition::H3 => has_part(bs, 0, 1) && has_part(bs, 0, 3),
        BlockPartition::V3 => has_part(bs, 1, 1) && has_part(bs, 1, 3),
        BlockPartition::H4A | BlockPartition::H4B => has_part(bs, 0, 0) && has_part(bs, 0, 1)
            && has_part(bs, 0, 2),
        BlockPartition::V4A | BlockPartition::V4B => has_part(bs, 1, 0) && has_part(bs, 1, 1)
            && has_part(bs, 1, 2),
        BlockPartition::Split => has_part(bs, 0, 3),
        BlockPartition::Invalid => false,
    }
}

/// The partition and direction of a block.
#[derive(Debug, Clone, Copy, PartialEq, Eq, Structural)]
pub struct PartitionRead {
    pub bp: BlockPartition,
    pub dir: i32,
}

/// What the table says of the parts of a block that is not forced to stay
/// whole.
pub proof fn lemma_parts_exist(bs: BlockSize)
    requires
        bs != BlockSize::Invalid,
    ensures
        ({
            let (w, h) = (bs.w4(), bs.h4());
            let whole = !has_part(bs, 0, 0) && !has_part(bs, 1, 0);
            &&& !whole && w >= 2 && h >= 2 && max(w, h) <= 16 ==> has_part(bs, 0, 0) && has_part(
                bs,
                1,
                0,
            )
            &&& !whole && w == h ==> has_part(bs, 0, 0) && has_part(bs, 1, 0)
            &&& !whole && w > h ==> has_part(bs, 1, 0)
            &&& !whole && h > w ==> has_part(bs, 0, 0)
            &&& !whole && w >= 4 && h >= 2 && max(w, h) <= 16 ==> has_part(bs, 1, 1) && has_part(
                bs,
                1,
                3,
            )
            &&& !whole && h >= 4 && w >= 2 && max(w, h) <= 16 ==> has_part(bs, 0, 1) && has_part(
                bs,
                0,
                3,
            )
            &&& !whole && w >= 8 && max(w, h) <= 16 ==> has_part(bs, 1, 1) && has_part(bs, 1, 2)
            &&& !whole && h >= 8 && max(w, h) <= 16 ==> has_part(bs, 0, 1) && has_part(bs, 0, 2)
            &&& (bs == BlockSize::Bs128x128 || bs == BlockSize::Bs256x256) ==> has_part(bs, 0, 3) && w
                == h
            &&& -1 <= part_ctx(bs, 0) <= 15
            &&& -1 <= part_ctx(bs, 1) <= 14
            &&& !whole ==> part_ctx(bs, 0) >= 0
            &&& !whole && w >= 2 && h >= 2 && (max(w, h) <= 16 || w == h) ==> part_ctx(bs, 1) >= 0
        }),
{
    reveal(part_of);
    reveal(part_ctx);
    reveal(BlockSize::w4);
    reveal(BlockSize::h4);
}

/// The two sides of a block in the plane that its partition is coded for.
fn plane_dims(fi: &SbFrameInfo, n: &SbNode) -> (r: (i32, i32))
    requires
        divisible(*fi),
        n.valid(*fi),
    ensures
        r.0 == n.plane_w4(*fi),
        r.1 == n.plane_h4(*fi),
        1 <= r.0 <= 64,
        1 <= r.1 <= 64,
{
    let d: [u8; 4] = n.size().dim();
    assert(p2(0) == 1 && p2(1) == 2);
    if n.lbs == BlockSize::Invalid {
        (d[0] as i32 / POW2[fi.ss_hor as usize] as i32, d[1] as i32 / POW2[fi.ss_ver as usize] as i32)
    } else {
        (d[0] as i32, d[1] as i32)
    }
}

fn find_forced(fi: &SbFrameInfo, n: &SbNode) -> (r: Option<PartitionRead>)
    requires
        divisible(*fi),
        n.valid(*fi),
    ensures
        r is None <==> forced_partition(*fi, *n) is None,
        r matches Some(p) ==> forced_partition(*fi, *n) == Some((p.bp, p.dir as int))
            && partition_fits(n.bs(), p.bp) && -1 <= p.dir <= 1,
{
    let bs: BlockSize = n.size();
    let d: [u8; 4] = bs.dim();
    let w: i32 = d[0] as i32;
    let h: i32 = d[1] as i32;
    let (pw, ph) = plane_dims(fi, n);
    proof {
        lemma_parts_exist(bs);
    }
    let have_h: bool = fi.bw > n.bx + w / 2;
    let have_v: bool = fi.bh > n.by + h / 2;
    if (if pw > ph { pw } else { ph }) == 1 || (get_part(bs, 0, 0) == BlockSize::Invalid
        && get_part(bs, 1, 0) == BlockSize::Invalid) {
        Some(PartitionRead { bp: BlockPartition::Whole, dir: -1 })
    } else if have_h && have_v {
        None
    } else if w == h {
        if have_v {
            Some(PartitionRead { bp: BlockPartition::V, dir: 1 })
        } else {
            Some(PartitionRead { bp: BlockPartition::H, dir: 0 })
        }
    } else if w > h {
        if !have_h || fi.bh <= n.by + h / 4 {
            Some(PartitionRead { bp: BlockPartition::V, dir: 1 })
        } else {
            None
        }
    } else {
        if !have_v || fi.bw <= n.bx + w / 4 {
            Some(PartitionRead { bp: BlockPartition::H, dir: 0 })
        } else {
            None
        }
    }
}

pub fn find_inherited(n: &SbNode, d: &DirState) -> (r: Option<PartitionRead>)
    ensures
        r is None <==> inherited_partition(*n, *d) is None,
        r matches Some(p) ==> inherited_partition(*n, *d) == Some((p.bp, p.dir as int)) && -1
            <= p.dir <= 1,
{
    if n.cbs != BlockSize::Bs64x64 || n.lbs != BlockSize::Invalid {
        None
    } else if d.dir == 0xff {
        Some(PartitionRead { bp: BlockPartition::Whole, dir: -1 })
    } else if d.child % 4 == 1 && d.dir % 4 == 2 {
        Some(PartitionRead { bp: BlockPartition::from_raw(d.part), dir: 1 })
    } else if d.child % 4 == 2 && d.dir % 4 == 1 {
        Some(PartitionRead { bp: BlockPartition::from_raw(d.part), dir: 0 })
    } else {
        None
    }
}

fn check_three_way(fi: &SbFrameInfo, n: &SbNode, dir: i32) -> (r: bool)
    requires
        divisible(*fi),
        n.valid(*fi),
        0 <= dir <= 1,
    ensures
        r == three_way_allowed(*fi, *n, dir as int),
{
    let d: [u8; 4] = n.size().dim();
    let w: i32 = d[0] as i32;
    let h: i32 = d[1] as i32;
    let (pw, ph) = plane_dims(fi, n);
    assert(p2(0) == 1 && p2(1) == 2);
    assert(forall|k: int| 1 <= k <= 24 ==> 1 <= #[trigger] POW2[k] <= 0x100_0000);
    let cw: i32 = w / POW2[fi.ss_hor as usize] as i32;
    let ch: i32 = h / POW2[fi.ss_ver as usize] as i32;
    let aspect: i32 = POW2[fi.max_pb_aspect_ratio_log2 as usize] as i32;
    let have_h: bool = fi.bw > n.bx + w / 2;
    let have_v: bool = fi.bh > n.by + h / 2;
    let (al, ac) = if dir == 1 { (w, h) } else { (h, w) };
    let (pal, pac) = if dir == 1 { (pw, ph) } else { (ph, pw) };
    let (cal, cac) = if dir == 1 { (cw, ch) } else { (ch, cw) };
    proof {
        lemma_aspect_product(al as int, aspect as int);
    }
    let reach: bool = if dir == 1 {
        if n.lbs == BlockSize::Bs32x8 { have_v } else { n.bx + w / 4 * 3 < fi.bw }
    } else {
        if n.lbs == BlockSize::Bs8x32 { have_h } else { n.by + h / 4 * 3 < fi.bh }
    };
    fi.ext_partitions && pal >= 4 && pac >= 2 && al as i64 * aspect as i64 >= ac as i64 * 4 && (
    n.cbs != n.lbs || (cal >= 4 && cac >= 2) || reach)
}

fn check_four_way(fi: &SbFrameInfo, n: &SbNode, dir: i32) -> (r: bool)
    requires
        divisible(*fi),
        n.valid(*fi),
        0 <= dir <= 1,
    ensures
        r == four_way_allowed(*fi, *n, dir as int),
{
    let d: [u8; 4] = n.size().dim();
    let w: i32 = d[0] as i32;
    let h: i32 = d[1] as i32;
    let (pw, ph) = plane_dims(fi, n);
    assert(p2(0) == 1 && p2(1) == 2);
    assert(forall|k: int| 1 <= k <= 24 ==> 1 <= #[trigger] POW2[k] <= 0x100_0000);
    let cw: i32 = w / POW2[fi.ss_hor as usize] as i32;
    let ch: i32 = h / POW2[fi.ss_ver as usize] as i32;
    let aspect: i32 = POW2[fi.max_pb_aspect_ratio_log2 as usize] as i32;
    let (al, ac) = if dir == 1 { (w, h) } else { (h, w) };
    let pal: i32 = if dir == 1 { pw } else { ph };
    let cal: i32 = if dir == 1 { cw } else { ch };
    proof {
        lemma_aspect_product(al as int, aspect as int);
    }
    let reach: bool = if dir == 1 {
        n.bx + w / 8 * 7 < fi.bw
    } else {
        n.by + h / 8 * 7 < fi.bh
    };
    pal >= 8 && fi.uneven_4way && al as i64 * aspect as i64 >= ac as i64 * 8 && (n.cbs != n.lbs
        || cal >= 8 || reach)
}

proof fn lemma_aspect_product(side: int, aspect: int)
    requires
        1 <= side <= 64,
        1 <= aspect <= 0x100_0000,
    ensures
        aspect <= side * aspect <= 0x4000_0000,
        side <= side * aspect,
{
    assert(aspect <= side * aspect <= 0x4000_0000 && side <= side * aspect) by (nonlinear_arith)
        requires
            1 <= side <= 64,
            1 <= aspect <= 0x100_0000,
    ;
}

fn read_extended(fi: &SbFrameInfo, n: &SbNode, dir: i32, msac: &mut MsacContext) -> (r:
    BlockPartition)
    requires
        divisible(*fi),
        n.valid(*fi),
        0 <= dir <= 1,
        forced_partition(*fi, *n) != Some((BlockPartition::Whole, -1int)),
        has_part(n.bs(), dir as int, 0),
    ensures
        (r, final(msac)@) == extended_partition(old(msac)@, *fi, *n, dir as int),
        partition_fits(n.bs(), r),
{
    let bs: BlockSize = n.size();
    let d: [u8; 4] = bs.dim();
    proof {
        lemma_parts_exist(bs);
        assert(p2(0) == 1 && p2(1) == 2);
    }
    let two: BlockPartition = if dir == 1 { BlockPartition::V } else { BlockPartition::H };
    let three: BlockPartition = if dir == 1 { BlockPartition::V3 } else { BlockPartition::H3 };
    let has3: bool = check_three_way(fi, n, dir);
    let has4: bool = check_four_way(fi, n, dir);
    if (if d[0] > d[1] { d[0] } else { d[1] }) > 16 || !(has3 || has4) {
        return two;
    }
    let pl: usize = if n.lbs == BlockSize::Invalid { 1 } else { 0 };
    let ctx5: u32 = msac.derive_context(
        Derived::Partition2(bs, pl, dir as usize, (n.by % 64) as usize, (n.bx % 64) as usize),
        4,
    );
    let ctx6: usize = (ctx5 as i32 + get_ctx(bs, 0) * 4) as usize;
    if msac.decode_bool_adapt(Cdf::PartExt(pl, ctx6)) == 0 {
        return two;
    }
    if !has4 {
        return three;
    }
    let four: u32 = if has3 { msac.decode_bool_adapt(Cdf::Part4way(pl, ctx6)) } else { 1 };
    if four == 0 {
        return three;
    }
    let v: u32 = msac.decode_bool_bypass();
    BlockPartition::from_raw((5 + 2 * dir) as u8 + v as u8)
}

fn read_directed(fi: &SbFrameInfo, n: &SbNode, ctx1: u32, msac: &mut MsacContext) -> (r:
    PartitionRead)
    requires
        divisible(*fi),
        n.valid(*fi),
        ctx1 < 4,
        forced_partition(*fi, *n) is None,
        max(n.w4(), n.h4()) <= 16 || n.w4() == n.h4(),
    ensures
        ((r.bp, r.dir as int), final(msac)@) == directed_partition(
            old(msac)@,
            *fi,
            *n,
            ctx1 as int,
        ),
        partition_fits(n.bs(), r.bp),
        0 <= r.dir <= 1,
{
    let bs: BlockSize = n.size();
    let d: [u8; 4] = bs.dim();
    let w: i32 = d[0] as i32;
    let h: i32 = d[1] as i32;
    let (pw, ph) = plane_dims(fi, n);
    assert(p2(0) == 1 && p2(1) == 2);
    assert(forall|k: int| 1 <= k <= 24 ==> 2 <= #[trigger] POW2[k] <= 0x100_0000);
    let aspect: i32 = POW2[fi.max_pb_aspect_ratio_log2 as usize] as i32;
    proof {
        lemma_parts_exist(bs);
        lemma_aspect_product(w as int, aspect as int);
        lemma_aspect_product(h as int, aspect as int);
        lemma_some_aspect(w as int, h as int, aspect as int);
    }
    let v_aspect: bool = w as i64 * aspect as i64 >= h as i64 * 2;
    let h_aspect: bool = h as i64 * aspect as i64 >= w as i64 * 2;
    let pl: usize = if n.lbs == BlockSize::Invalid { 1 } else { 0 };
    let dir: i32 = if pw == 1 || ph == 1 {
        if pw > ph { 1 } else { 0 }
    } else if !(v_aspect && h_aspect) {
        if v_aspect { 1 } else { 0 }
    } else {
        msac.decode_bool_adapt(Cdf::PartDir(pl, (ctx1 as i32 + get_ctx(bs, 1) * 4) as usize)) as i32
    };
    let bp: BlockPartition = read_extended(fi, n, dir, msac);
    PartitionRead { bp, dir }
}

proof fn lemma_some_aspect(w: int, h: int, aspect: int)
    requires
        1 <= w,
        1 <= h,
        2 <= aspect,
    ensures
        w >= h ==> w * aspect >= h * 2,
        h >= w ==> h * aspect >= w * 2,
{
    assert(w >= h ==> w * aspect >= h * 2) by (nonlinear_arith)
        requires
            1 <= w,
            1 <= h,
            2 <= aspect,
    ;
    assert(h >= w ==> h * aspect >= w * 2) by (nonlinear_arith)
        requires
            1 <= w,
            1 <= h,
            2 <= aspect,
    ;
}

fn read_coded(fi: &SbFrameInfo, n: &SbNode, intra_region: bool, msac: &mut MsacContext) -> (r:
    PartitionRead)
    requires
        divisible(*fi),
        n.valid(*fi),
        forced_partition(*fi, *n) is None,
    ensures
        ((r.bp, r.dir as int), final(msac)@) == coded_partition(
            old(msac)@,
            *fi,
            *n,
            intra_region,
        ),
        partition_fits(n.bs(), r.bp),
        -1 <= r.dir <= 1,
{
    let bs: BlockSize = n.size();
    let d: [u8; 4] = bs.dim();
    let w: i32 = d[0] as i32;
    let h: i32 = d[1] as i32;
    let have_h: bool = fi.bw > n.bx + w / 2;
    let have_v: bool = fi.bh > n.by + h / 2;
    let both: bool = have_h && have_v;
    let pl: usize = if n.lbs == BlockSize::Invalid { 1 } else { 0 };
    proof {
        lemma_parts_exist(bs);
        lemma_block_dimensions(bs);
    }
    let ctx1: u32 = msac.derive_context(
        Derived::Partition(bs, pl, (n.by % 64) as usize, (n.bx % 64) as usize),
        4,
    );
    let split: u32 = if fi.is_inter_or_switch && !intra_region && d[2] + d[3] == 1 {
        0
    } else if !both {
        1
    } else {
        msac.decode_bool_adapt(Cdf::PartSplit(pl, (ctx1 as i32 + get_ctx(bs, 0) * 4) as usize))
    };
    if split == 0 {
        PartitionRead { bp: BlockPartition::Whole, dir: -1 }
    } else if (bs == BlockSize::Bs128x128 || bs == BlockSize::Bs256x256) && both {
        let extra: u32 = if bs == BlockSize::Bs256x256 { 4 } else { 0 };
        if msac.decode_bool_adapt(Cdf::PartSquare((ctx1 + extra) as usize)) != 0 {
            PartitionRead { bp: BlockPartition::Split, dir: -1 }
        } else {
            read_directed(fi, n, ctx1, msac)
        }
    } else if w >= 32 || h >= 32 {
        if w > h {
            PartitionRead { bp: BlockPartition::V, dir: -1 }
        } else {
            PartitionRead { bp: BlockPartition::H, dir: -1 }
        }
    } else {
        read_directed(fi, n, ctx1, msac)
    }
}

/// Finds how a block is divided: forced by its size or the frame, taken over
/// from luma, or read.
pub fn read_partition(
    fi: &SbFrameInfo,
    n: &SbNode,
    intra_region: bool,
    d: &DirState,
    msac: &mut MsacContext,
) -> (r: PartitionRead)
    requires
        divisible(*fi),
        n.valid(*fi),
        inherited_partition(*n, *d) matches Some(p) ==> partition_fits(n.bs(), p.0),
    ensures
        ((r.bp, r.dir as int), final(msac)@) == node_partition(
            old(msac)@,
            *fi,
            *n,
            intra_region,
            *d,
        ),
        partition_fits(n.bs(), r.bp),
        -1 <= r.dir <= 1,
{
    proof {
        reveal(node_partition);
    }
    match find_forced(fi, n) {
        Some(p) => p,
        None => match find_inherited(n, d) {
            Some(p) => p,
            None => read_coded(fi, n, intra_region, msac),
        },
    }
}

/// The code of a direction: 1 for horizontal, 2 for vertical, 255 for none.
pub open spec fn dir_code(dir: int) -> int {
    if dir == -1 { 0xff } else { dir + 1 }
}

/// The memory of directions once a block has been divided.
pub open spec fn dir_after(d: DirState, bp: BlockPartition, dir: int) -> DirState {
    DirState {
        dir: d.dir | (dir_code(dir) as u8),
        part: d.part | (bp as u8),
        child: d.child,
        at_limit: d.at_limit,
    }
}

/// Whether chroma of a 64x64 block was divided along another direction than
/// luma, so that it cannot be predicted from luma.
pub open spec fn cfl_disallowed_after(n: SbNode, d: DirState, dir: int, before: bool) -> bool {
    if n.chroma_only() && n.cbs == BlockSize::Bs64x64 {
        dir != -1 && dir_code(dir) != d.dir % 4
    } else {
        before
    }
}

/// Whether a divided block of an inter frame says that all its parts are
/// intra blocks.
pub open spec fn region_type_coded(
    fi: SbFrameInfo,
    n: SbNode,
    bp: BlockPartition,
    at_limit: bool,
) -> bool {
    let (w, h) = (n.w4(), n.h4());
    &&& fi.is_inter_or_switch
    &&& fi.ext_sdp
    &&& n.cbs != BlockSize::Invalid
    &&& n.lbs != BlockSize::Invalid
    &&& bp == BlockPartition::H || bp == BlockPartition::V || bp == BlockPartition::H3 || bp
        == BlockPartition::V3
    &&& !at_limit
    &&& min(w, h) >= 2
    &&& n.bs() != fi.root_bs
    &&& max(w, h) <= 16
}

/// The context of the region type: the area of the block.
pub open spec fn region_ctx(bs: BlockSize) -> int {
    let sz = bs.lw4() + bs.lh4();
    clip(sz - 4, 0, 3) + b2i(sz == 4)
}

/// All that is decided at one block of the tree.
#[derive(Debug, Clone, Copy, PartialEq, Eq, Structural)]
pub struct NodeRead {
    pub bp: BlockPartition,
    /// The chroma part that is left to the parts of the block.
    pub cbs: BlockSize,
    pub intra_region: bool,
    pub sdp_cfl_disallowed: bool,
    pub dir: DirState,
    /// The partition in the form in which it is kept for a later pass.
    pub stored: u8,
}

/// Partition, directions and region type of a block.
pub open spec fn node_read(
    s: Sym,
    fi: SbFrameInfo,
    n: SbNode,
    intra_region: bool,
    cfl_disallowed: bool,
    d: DirState,
) -> (NodeRead, Sym) {
    let ((bp, dir), s) = node_partition(s, fi, n, intra_region, d);
    let after = dir_after(d, bp, dir);
    let cfl = cfl_disallowed_after(n, d, dir, cfl_disallowed);
    if region_type_coded(fi, n, bp, d.at_limit) {
        let (mixed, s) = s.flag(Cdf::RegionType(region_ctx(n.bs()) as usize));
        let intra = mixed == 0;
        (
            NodeRead {
                bp,
                cbs: if intra { BlockSize::Invalid } else { n.cbs },
                intra_region: intra,
                sdp_cfl_disallowed: cfl,
                dir: after,
                stored: (bp as int + 128 * b2i(intra)) as u8,
            },
            s,
        )
    } else {
        (
            NodeRead {
                bp,
                cbs: n.cbs,
                intra_region,
                sdp_cfl_disallowed: cfl,
                dir: after,
                stored: bp as u8,
            },
            s,
        )
    }
}

/// Reads all that is decided at one block of the tree.
pub fn read_node(
    fi: &SbFrameInfo,
    n: &SbNode,
    intra_region: bool,
    sdp_cfl_disallowed: bool,
    d: &DirState,
    msac: &mut MsacContext,
) -> (r: NodeRead)
    requires
        divisible(*fi),
        n.valid(*fi),
        inherited_partition(*n, *d) matches Some(p) ==> partition_fits(n.bs(), p.0),
    ensures
        (r, final(msac)@) == node_read(
            old(msac)@,
            *fi,
            *n,
            intra_region,
            sdp_cfl_disallowed,
            *d,
        ),
        partition_fits(n.bs(), r.bp),
{
    let pr: PartitionRead = read_partition(fi, n, intra_region, d, msac);
    let code: u8 = if pr.dir == -1 { 0xff } else { (pr.dir + 1) as u8 };
    let bp: BlockPartition = pr.bp;
    let cfl: bool = if n.lbs == BlockSize::Invalid && n.cbs == BlockSize::Bs64x64 {
        pr.dir != -1 && code != d.dir % 4
    } else {
        sdp_cfl_disallowed
    };
    let dir: DirState = DirState {
        dir: d.dir | code,
        part: d.part | (bp as u8),
        child: d.child,
        at_limit: d.at_limit,
    };
    let bs: BlockSize = n.size();
    let dim: [u8; 4] = bs.dim();
    let halved: bool = bp == BlockPartition::H || bp == BlockPartition::V || bp
        == BlockPartition::H3 || bp == BlockPartition::V3;
    if fi.is_inter_or_switch && fi.ext_sdp && n.cbs != BlockSize::Invalid && n.lbs
        != BlockSize::Invalid && halved && !d.at_limit && dim[0] >= 2 && dim[1] >= 2 && bs
        != fi.root_bs && dim[0] <= 16 && dim[1] <= 16 {
        let sz: i32 = dim[2] as i32 + dim[3] as i32;
        let ctx: i32 = iclip(sz - 4, 0, 3) + (if sz == 4 { 1i32 } else { 0i32 });
        let intra: bool = msac.decode_bool_adapt(Cdf::RegionType(ctx as usize)) == 0;
        NodeRead {
            bp,
            cbs: if intra { BlockSize::Invalid } else { n.cbs },
            intra_region: intra,
            sdp_cfl_disallowed: cfl,
            dir,
            stored: bp as u8 + (if intra { 128u8 } else { 0u8 }),
        }
    } else {
        NodeRead {
            bp,
            cbs: n.cbs,
            intra_region,
            sdp_cfl_disallowed: cfl,
            dir,
            stored: bp as u8,
        }
    }
}

/// Parts side by side.
pub open spec fn is_vertical(bp: BlockPartition) -> bool {
    bp == BlockPartition::V || bp == BlockPartition::V3 || bp == BlockPartition::V4A || bp
        == BlockPartition::V4B
}

/// Parts one above the other.
pub open spec fn is_horizontal(bp: BlockPartition) -> bool {
    bp == BlockPartition::H || bp == BlockPartition::H3 || bp == BlockPartition::H4A || bp
        == BlockPartition::H4B
}

/// What the flags that were asked from number `k` on mean for a partition.
pub open spec fn flags_tell(t: Sym, k: int, bp: BlockPartition, dir: int) -> bool {
    let e = t.asked.len() - 1;
    let last = t.asked[e];
    &&& last matches Request::Bool(Cdf::PartSplit(_, _)) ==> {
        &&& t.got(e) == 0 <==> bp == BlockPartition::Whole
        &&& t.got(e) == 1 ==> bp == BlockPartition::H || bp == BlockPartition::V
    }
    &&& last matches Request::Bool(Cdf::PartSquare(_)) ==> {
        &&& t.got(e) == 1 <==> bp == BlockPartition::Split
    }
    &&& forall|j: int|
        k <= j <= e ==> ((#[trigger] t.asked[j]) matches Request::Bool(Cdf::PartDir(_, _)) ==> {
            &&& dir == t.got(j)
            &&& t.got(j) == 1 ==> is_vertical(bp)
            &&& t.got(j) == 0 ==> is_horizontal(bp)
        })
    &&& last matches Request::Bool(Cdf::PartDir(_, _)) ==> bp == (if t.got(e) == 1 {
        BlockPartition::V
    } else {
        BlockPartition::H
    })
    &&& last matches Request::Bool(Cdf::PartExt(_, _)) ==> {
        &&& t.got(e) == 0 <==> bp == BlockPartition::H || bp == BlockPartition::V
        &&& t.got(e) == 1 <==> bp == BlockPartition::H3 || bp == BlockPartition::V3
    }
    &&& last matches Request::Bool(Cdf::Part4way(_, _)) ==> t.got(e) == 0 && (bp
        == BlockPartition::H3 || bp == BlockPartition::V3)
    &&& last is Bit ==> {
        &&& t.got(e) == 0 <==> bp == BlockPartition::H4A || bp == BlockPartition::V4A
        &&& t.got(e) == 1 <==> bp == BlockPartition::H4B || bp == BlockPartition::V4B
    }
}

/// `t` comes after `s` in a parse.
pub open spec fn follows(s: Sym, t: Sym) -> bool {
    &&& t.replies == s.replies
    &&& t.asked.len() >= s.asked.len()
    &&& forall|j: int| 0 <= j < s.asked.len() ==> #[trigger] t.asked[j] == s.asked[j]
}

/// What is asked after the direction is known.
proof fn lemma_extended(s: Sym, fi: SbFrameInfo, n: SbNode, d: int)
    requires
        0 <= d <= 1,
    ensures
        ({
            let (bp, t) = extended_partition(s, fi, n, d);
            let k = s.asked.len() as int;
            let e = t.asked.len() - 1;
            &&& follows(s, t)
            &&& d == 1 ==> is_vertical(bp)
            &&& d == 0 ==> is_horizontal(bp)
            &&& e < k ==> bp == (if d == 1 { BlockPartition::V } else { BlockPartition::H })
            &&& forall|j: int|
                k <= j <= e ==> !((#[trigger] t.asked[j]) matches Request::Bool(
                    Cdf::PartDir(_, _),
                ))
            &&& e >= k ==> flags_tell(t, k, bp, d) && !(t.asked[e] matches Request::Bool(
                Cdf::PartSplit(_, _),
            )) && !(t.asked[e] matches Request::Bool(Cdf::PartSquare(_)))
        }),
{
}

proof fn lemma_directed(s: Sym, fi: SbFrameInfo, n: SbNode, ctx1: int)
    ensures
        ({
            let ((bp, d), t) = directed_partition(s, fi, n, ctx1);
            let k = s.asked.len() as int;
            let e = t.asked.len() - 1;
            &&& follows(s, t)
            &&& 0 <= d <= 1
            &&& d == 1 ==> is_vertical(bp)
            &&& d == 0 ==> is_horizontal(bp)
            &&& e < k ==> bp == BlockPartition::V || bp == BlockPartition::H
            &&& e >= k ==> flags_tell(t, k, bp, d) && !(t.asked[e] matches Request::Bool(
                Cdf::PartSplit(_, _),
            )) && !(t.asked[e] matches Request::Bool(Cdf::PartSquare(_)))
        }),
{
    let (w, h) = (n.w4(), n.h4());
    let (pw, ph) = (n.plane_w4(fi), n.plane_h4(fi));
    let pl = b2i(n.chroma_only());
    let aspect = p2(fi.max_pb_aspect_ratio_log2 as int);
    let v_aspect = w * aspect >= h * 2;
    let h_aspect = h * aspect >= w * 2;
    let k = s.asked.len() as int;
    if min(pw, ph) != 1 && v_aspect && h_aspect {
        let (d, s1) = s.flag(
            Cdf::PartDir(pl as usize, (ctx1 + part_ctx(n.bs(), 1) * 4) as usize),
        );
        lemma_extended(s1, fi, n, d);
        let t = extended_partition(s1, fi, n, d).1;
        assert(t.asked[k] == s1.asked[k]);
        assert forall|j: int| 0 <= j < s.asked.len() implies #[trigger] t.asked[j] == s.asked[j] by {
            assert(s1.asked[j] == s.asked[j]);
        }
    } else {
        lemma_extended(s, fi, n, directed_partition(s, fi, n, ctx1).0.1);
    }
}

/// What a division asks after `m` tells what it asks after `s`, where no
/// direction is asked in between.
proof fn lemma_flags_before(s: Sym, m: Sym, fi: SbFrameInfo, n: SbNode, ctx1: int)
    requires
        follows(s, m),
        m.asked.len() > s.asked.len(),
        forall|j: int|
            s.asked.len() <= j < m.asked.len() ==> !((#[trigger] m.asked[j]) matches Request::Bool(
                Cdf::PartDir(_, _),
            )),
        ({
            let e = m.asked.len() - 1;
            ||| m.asked[e] is Context
            ||| (m.asked[e] matches Request::Bool(Cdf::PartSplit(_, _))) && m.got(e) == 1
            ||| (m.asked[e] matches Request::Bool(Cdf::PartSquare(_))) && m.got(e) == 0
        }),
    ensures
        ({
            let ((bp, dir), t) = directed_partition(m, fi, n, ctx1);
            &&& follows(s, t)
            &&& bp != BlockPartition::Whole
            &&& bp != BlockPartition::Split
            &&& t.asked.len() > s.asked.len()
            &&& t.asked[s.asked.len() as int] == m.asked[s.asked.len() as int]
            &&& flags_tell(t, s.asked.len() as int, bp, dir)
        }),
{
    lemma_directed(m, fi, n, ctx1);
    let ((bp, dir), t) = directed_partition(m, fi, n, ctx1);
    assert forall|j: int| 0 <= j < s.asked.len() implies #[trigger] t.asked[j] == s.asked[j] by {
        assert(m.asked[j] == s.asked[j]);
    }
    let e = m.asked.len() - 1;
    assert(t.asked[e] == m.asked[e]);
    assert(t.got(e) == m.got(e));
    assert forall|j: int|
        s.asked.len() <= j < m.asked.len() implies !((#[trigger] t.asked[j]) matches Request::Bool(
        Cdf::PartDir(_, _),
    )) by {
        assert(t.asked[j] == m.asked[j]);
    }
}

#[verifier::rlimit(40)]
proof fn lemma_coded(s: Sym, fi: SbFrameInfo, n: SbNode, intra_region: bool)
    requires
        n.bs() != BlockSize::Invalid,
    ensures
        ({
            let ((bp, dir), t) = coded_partition(s, fi, n, intra_region);
            &&& t.replies == s.replies
            &&& t.asked.len() > s.asked.len()
            &&& t.asked[s.asked.len() as int] is Context
            &&& flags_tell(t, s.asked.len() as int, bp, dir)
            &&& bp == BlockPartition::Whole ==> dir == -1
            &&& bp == BlockPartition::Split ==> dir == -1 && n.w4() == n.h4() && n.w4() >= 32
        }),
{
    let bs = n.bs();
    let pl = b2i(n.chroma_only());
    let both = n.have_h(fi) && n.have_v(fi);
    assert(bs == BlockSize::Bs128x128 || bs == BlockSize::Bs256x256 ==> n.w4() >= 32 && n.w4()
        == n.h4()) by {
        reveal(BlockSize::w4);
        reveal(BlockSize::h4);
    }
    let k = s.asked.len() as int;
    let (ctx1, s1) = s.context(
        Derived::Partition(bs, pl as usize, (n.by % 64) as usize, (n.bx % 64) as usize),
        4,
    );
    let (split, s2) = if fi.is_inter_or_switch && !intra_region && bs.lw4() + bs.lh4() == 1 {
        (0, s1)
    } else if !both {
        (1, s1)
    } else {
        s1.flag(Cdf::PartSplit(pl as usize, (ctx1 + part_ctx(bs, 0) * 4) as usize))
    };
    assert(follows(s, s1) && follows(s, s2));
    if split != 0 && (bs == BlockSize::Bs128x128 || bs == BlockSize::Bs256x256) && both {
        let (square, s3) = s2.flag(
            Cdf::PartSquare((ctx1 + 4 * b2i(bs == BlockSize::Bs256x256)) as usize),
        );
        assert(follows(s, s3));
        if square == 0 {
            lemma_flags_before(s, s3, fi, n, ctx1);
        }
    } else if split != 0 && max(n.w4(), n.h4()) < 32 {
        lemma_flags_before(s, s2, fi, n, ctx1);
    }
}

/// What the flags of a coded partition mean. The split flag tells whether the
/// block is divided at all, the square flag whether in quarters. The direction
/// flag is set where the parts lie side by side. The next flag tells halves
/// from other parts, the one after it three parts from four, and the last bit
/// which of the inner parts is the larger one.
pub proof fn law_partition_follows_its_flags(
    s: Sym,
    fi: SbFrameInfo,
    n: SbNode,
    intra_region: bool,
    d: DirState,
)
    requires
        divisible(fi),
        n.valid(fi),
        forced_partition(fi, n) is None,
        inherited_partition(n, d) is None,
    ensures
        ({
            let ((bp, dir), t) = node_partition(s, fi, n, intra_region, d);
            &&& t.replies == s.replies
            &&& t.asked.len() > s.asked.len()
            &&& t.asked[s.asked.len() as int] is Context
            &&& flags_tell(t, s.asked.len() as int, bp, dir)
            &&& bp == BlockPartition::Whole ==> dir == -1
            &&& bp == BlockPartition::Split ==> dir == -1 && n.w4() == n.h4() && n.w4() >= 32
        }),
{
    reveal(node_partition);
    lemma_coded(s, fi, n, intra_region);
}

/// A block that crosses the edge of the frame is divided without a flag, so
/// that its parts get within the frame: a square block whose lower half lies
/// outside is cut below the upper half, one that only the right half of lies
/// outside is cut beside the left half.
pub proof fn law_edge_blocks_are_cut_at_the_edge(
    s: Sym,
    fi: SbFrameInfo,
    n: SbNode,
    intra_region: bool,
    d: DirState,
)
    requires
        divisible(fi),
        n.valid(fi),
        n.plane_w4(fi) > 1 || n.plane_h4(fi) > 1,
        has_part(n.bs(), 0, 0) || has_part(n.bs(), 1, 0),
    ensures
        ({
            let ((bp, dir), t) = node_partition(s, fi, n, intra_region, d);
            let right = n.bx + n.w4() / 2 < fi.bw;
            let below = n.by + n.h4() / 2 < fi.bh;
            &&& n.w4() == n.h4() && !below ==> bp == BlockPartition::H && dir == 0 && t == s
            &&& n.w4() == n.h4() && below && !right ==> bp == BlockPartition::V && dir == 1 && t
                == s
            &&& n.w4() > n.h4() && !right ==> bp == BlockPartition::V && dir == 1 && t == s
            &&& n.w4() < n.h4() && !below ==> bp == BlockPartition::H && dir == 0 && t == s
        }),
{
    reveal(node_partition);
}

/// A block whose region type is coded as intra (a zero) leaves no chroma to its
/// parts, and all its parts are intra blocks; otherwise both stay as they were.
/// Nothing else is asked after the partition.
pub proof fn law_region_type_decides_over_the_parts(
    s: Sym,
    fi: SbFrameInfo,
    n: SbNode,
    intra_region: bool,
    cfl: bool,
    d: DirState,
)
    ensures
        ({
            let (r, t) = node_read(s, fi, n, intra_region, cfl, d);
            let ((bp, dir), u) = node_partition(s, fi, n, intra_region, d);
            let k = u.asked.len() as int;
            &&& r.bp == bp
            &&& t.asked.len() == k || t.asked.len() == k + 1
            &&& t.asked.len() == k ==> r.cbs == n.cbs && r.intra_region == intra_region && r.stored
                == bp as int
            &&& t.asked.len() == k + 1 ==> {
                &&& t.asked[k] matches Request::Bool(Cdf::RegionType(_))
                &&& fi.is_inter_or_switch
                &&& n.lbs != BlockSize::Invalid
                &&& t.got(k) == 0 ==> r.intra_region && r.cbs == BlockSize::Invalid && r.stored
                    == bp as int + 128
                &&& t.got(k) == 1 ==> !r.intra_region && r.cbs == n.cbs && r.stored == bp as int
            }
        }),
{
}

/// A region type is coded for blocks of 8 to 64 pixels each way of inter
/// frames that are divided in two or in the three-way pattern, unless they are
/// whole superblocks or at the limit.
pub proof fn law_region_types_are_for_divided_blocks(
    fi: SbFrameInfo,
    n: SbNode,
    bp: BlockPartition,
    at_limit: bool,
)
    ensures
        ({
            let fits = 2 <= n.w4() <= 16 && 2 <= n.h4() <= 16;
            let divided = bp == BlockPartition::H || bp == BlockPartition::V || bp
                == BlockPartition::H3 || bp == BlockPartition::V3;
            let both = n.lbs != BlockSize::Invalid && n.cbs != BlockSize::Invalid;
            let coded = region_type_coded(fi, n, bp, at_limit);
            &&& coded ==> fits && divided && both && !at_limit && fi.is_inter_or_switch && fi.ext_sdp
                && n.bs() != fi.root_bs
            &&& fits && divided && both && !at_limit && fi.is_inter_or_switch && fi.ext_sdp && n.bs()
                != fi.root_bs ==> coded
        }),
{
}

} // verus!
