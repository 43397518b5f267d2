//! Blocks wider or higher than 64 pixels are reconstructed in parts.
use vstd::prelude::*;

use crate::frameinfo::SbFrameInfo;
use crate::intops::{imin, min};
use crate::levels::{lemma_block_dimensions, BlockSize};

verus! {

/// A block to reconstruct: the position and size of its luma part, and of its
/// chroma part.
#[derive(Debug, Clone, Copy, PartialEq, Eq, Structural)]
pub struct ReconBlock {
    pub bx: i32,
    pub by: i32,
    pub cbx: i32,
    pub cby: i32,
    pub lbs: BlockSize,
    pub cbs: BlockSize,
}

/// What is done of chroma along with a part of luma. The coefficients of
/// chroma come after those of the first part of luma that it lies over, its
/// samples can be predicted only after the last.
#[derive(Debug, Clone, Copy, PartialEq, Eq, Structural)]
pub enum ChromaPhase {
    Both,
    ReadOnly,
    ReconOnly,
    Nothing,
}

/// A part of a block, and what is done of its chroma.
#[derive(Debug, Clone, Copy, PartialEq, Eq, Structural)]
pub struct SubBlock {
    pub block: ReconBlock,
    pub phase: ChromaPhase,
}

impl ReconBlock {
    pub open spec fn bs(self) -> BlockSize {
        if self.lbs == BlockSize::Invalid { self.cbs } else { self.lbs }
    }

    /// The block is wider or higher than 64 pixels.
    pub open spec fn large(self) -> bool {
        self.bs().w4() > 16 || self.bs().h4() > 16
    }

    /// The block is wider or higher than 128 pixels.
    pub open spec fn huge(self) -> bool {
        self.bs().w4() > 32 || self.bs().h4() > 32
    }

    pub open spec fn valid(self) -> bool {
        &&& self.bs() != BlockSize::Invalid
        &&& 0 <= self.bx <= 0x20_0000
        &&& 0 <= self.by <= 0x20_0000
        &&& 0 <= self.cbx <= 0x20_0000
        &&& 0 <= self.cby <= 0x20_0000
    }
}

/// The side of the parts, in units.
pub open spec fn part_step(b: ReconBlock) -> int {
    if b.huge() { 32 } else { 16 }
}

/// The part of chroma over a 64x64 part of luma, by how often chroma is
/// subsampled.
pub open spec fn chroma_part(bs: BlockSize, ss: int) -> BlockSize {
    if ss == 0 {
        BlockSize::Bs64x64
    } else if ss == 1 {
        if bs == BlockSize::Bs128x128 { BlockSize::Bs128x64 } else { BlockSize::Bs64x64 }
    } else {
        bs
    }
}

/// How many parts lie within the frame in one direction.
pub open spec fn part_count(start: int, len: int, frame: int, step: int) -> int {
    let end = min(start + len, frame);
    if end <= start {
        0
    } else {
        (end - start + step - 1) / step
    }
}

/// `1` for luma that chroma is as dense as, `2` where it is half as dense.
pub open spec fn density(ss: int) -> int {
    if ss == 1 { 2 } else { 1 }
}

/// Part `(i, j)` of a block.
pub open spec fn part_at(fi: SbFrameInfo, b: ReconBlock, i: int, j: int) -> SubBlock {
    let step = part_step(b);
    let (x, y) = (b.bx + i * step, b.by + j * step);
    let x_end = min(b.bx + b.bs().w4(), fi.bw as int);
    let y_end = min(b.by + b.bs().h4(), fi.bh as int);
    let (dx, dy) = (density(fi.ss_hor as int), density(fi.ss_ver as int));
    let has = b.cbs != BlockSize::Invalid;
    if b.huge() {
        SubBlock {
            block: ReconBlock {
                bx: x as i32,
                by: y as i32,
                cbx: (b.cbx + i * 32) as i32,
                cby: (b.cby + j * 32) as i32,
                lbs: if b.lbs == BlockSize::Invalid {
                    BlockSize::Invalid
                } else {
                    BlockSize::Bs128x128
                },
                cbs: if has { BlockSize::Bs128x128 } else { BlockSize::Invalid },
            },
            phase: if has { ChromaPhase::Both } else { ChromaPhase::Nothing },
        }
    } else {
        let read = has && i % dx == 0 && j % dy == 0;
        let recon = has && (dx == 1 || x + step >= x_end) && (dy == 1 || y + step >= y_end);
        SubBlock {
            block: ReconBlock {
                bx: x as i32,
                by: y as i32,
                cbx: (b.cbx + i / dx * dx * 16) as i32,
                cby: (b.cby + j / dy * dy * 16) as i32,
                lbs: if b.lbs == BlockSize::Invalid {
                    BlockSize::Invalid
                } else {
                    BlockSize::Bs64x64
                },
                cbs: if read || recon {
                    chroma_part(b.bs(), fi.ss_hor + fi.ss_ver)
                } else {
                    BlockSize::Invalid
                },
            },
            phase: if read && recon {
                ChromaPhase::Both
            } else if read {
                ChromaPhase::ReadOnly
            } else if recon {
                ChromaPhase::ReconOnly
            } else {
                ChromaPhase::Nothing
            },
        }
    }
}

/// How many parts a block has across.
pub open spec fn parts_across(fi: SbFrameInfo, b: ReconBlock) -> int {
    part_count(b.bx as int, b.bs().w4(), fi.bw as int, part_step(b))
}

/// How many parts a block has down.
pub open spec fn parts_down(fi: SbFrameInfo, b: ReconBlock) -> int {
    part_count(b.by as int, b.bs().h4(), fi.bh as int, part_step(b))
}

/// The parts of row `j` from column `i` on.
pub open spec fn parts_of_row(fi: SbFrameInfo, b: ReconBlock, i: int, j: int) -> Seq<SubBlock>
    decreases parts_across(fi, b) - i,
{
    if i >= parts_across(fi, b) {
        Seq::empty()
    } else {
        seq![part_at(fi, b, i, j)] + parts_of_row(fi, b, i + 1, j)
    }
}

/// The parts of a large block from row `j` on, line by line.
pub open spec fn parts_from(fi: SbFrameInfo, b: ReconBlock, j: int) -> Seq<SubBlock>
    decreases parts_down(fi, b) - j,
{
    if j >= parts_down(fi, b) {
        Seq::empty()
    } else {
        parts_of_row(fi, b, 0, j) + parts_from(fi, b, j + 1)
    }
}

/// The parts of the first `n` parts of a huge block.
pub open spec fn parts_of_parts(fi: SbFrameInfo, parts: Seq<SubBlock>, n: int) -> Seq<SubBlock>
    decreases n,
{
    if n <= 0 {
        Seq::empty()
    } else {
        parts_of_parts(fi, parts, n - 1) + parts_from(fi, parts[n - 1].block, 0)
    }
}

/// All parts of a block in the order in which they are reconstructed.
pub open spec fn all_parts(fi: SbFrameInfo, b: ReconBlock) -> Seq<SubBlock> {
    if b.huge() {
        let parts = parts_from(fi, b, 0);
        parts_of_parts(fi, parts, parts.len() as int)
    } else if b.large() {
        parts_from(fi, b, 0)
    } else {
        seq![
            SubBlock {
                block: b,
                phase: if b.cbs == BlockSize::Invalid {
                    ChromaPhase::Nothing
                } else {
                    ChromaPhase::Both
                },
            },
        ]
    }
}

/// The size of the part of chroma over a part of luma.
fn find_chroma_part(bs: BlockSize, ss: i32) -> (r: BlockSize)
    requires
        0 <= ss <= 2,
    ensures
        r == chroma_part(bs, ss as int),
{
    if ss == 0 {
        BlockSize::Bs64x64
    } else if ss == 1 {
        if bs == BlockSize::Bs128x128 {
            BlockSize::Bs128x64
        } else {
            BlockSize::Bs64x64
        }
    } else {
        bs
    }
}

/// A part has luma where its block has, and lies not far from it.
pub open spec fn part_of(b: ReconBlock, s: SubBlock) -> bool {
    &&& s.block.lbs == BlockSize::Invalid <==> b.lbs == BlockSize::Invalid
    &&& b.bx <= s.block.bx <= b.bx + 128
    &&& b.by <= s.block.by <= b.by + 128
    &&& b.cbx <= s.block.cbx <= b.cbx + 128
    &&& b.cby <= s.block.cby <= b.cby + 128
}

fn make_part(fi: &SbFrameInfo, b: &ReconBlock, i: i32, j: i32) -> (r: SubBlock)
    requires
        b.valid(),
        b.large(),
        0 <= fi.ss_hor <= 1,
        0 <= fi.ss_ver <= 1,
        0 <= i <= 4,
        0 <= j <= 4,
    ensures
        r == part_at(*fi, *b, i as int, j as int),
        part_of(*b, r),
{
    let bs: BlockSize = if b.lbs == BlockSize::Invalid { b.cbs } else { b.lbs };
    let d: [u8; 4] = bs.dim();
    let has: bool = b.cbs != BlockSize::Invalid;
    if d[0] > 32 || d[1] > 32 {
        return SubBlock {
            block: ReconBlock {
                bx: b.bx + i * 32,
                by: b.by + j * 32,
                cbx: b.cbx + i * 32,
                cby: b.cby + j * 32,
                lbs: if b.lbs == BlockSize::Invalid {
                    BlockSize::Invalid
                } else {
                    BlockSize::Bs128x128
                },
                cbs: if has { BlockSize::Bs128x128 } else { BlockSize::Invalid },
            },
            phase: if has { ChromaPhase::Both } else { ChromaPhase::Nothing },
        };
    }
    let (x, y): (i32, i32) = (b.bx + i * 16, b.by + j * 16);
    let x_end: i32 = imin(b.bx + d[0] as i32, fi.bw);
    let y_end: i32 = imin(b.by + d[1] as i32, fi.bh);
    let read: bool = has && (fi.ss_hor == 0 || i % 2 == 0) && (fi.ss_ver == 0 || j % 2 == 0);
    let recon: bool = has && (fi.ss_hor == 0 || x + 16 >= x_end) && (fi.ss_ver == 0 || y + 16
        >= y_end);
    let ci: i32 = if fi.ss_hor == 1 { i / 2 * 2 } else { i };
    let cj: i32 = if fi.ss_ver == 1 { j / 2 * 2 } else { j };
    SubBlock {
        block: ReconBlock {
            bx: x,
            by: y,
            cbx: b.cbx + ci * 16,
            cby: b.cby + cj * 16,
            lbs: if b.lbs == BlockSize::Invalid { BlockSize::Invalid } else { BlockSize::Bs64x64 },
            cbs: if read || recon {
                find_chroma_part(bs, fi.ss_hor + fi.ss_ver)
            } else {
                BlockSize::Invalid
            },
        },
        phase: if read && recon {
            ChromaPhase::Both
        } else if read {
            ChromaPhase::ReadOnly
        } else if recon {
            ChromaPhase::ReconOnly
        } else {
            ChromaPhase::Nothing
        },
    }
}

fn count_parts(start: i32, len: i32, frame: i32, step: i32) -> (r: i32)
    requires
        0 <= start <= 0x20_0000,
        1 <= len <= 64,
        step == 16 || step == 32,
    ensures
        r == part_count(start as int, len as int, frame as int, step as int),
        0 <= r <= 4,
        step == 32 ==> r <= 2,
{
    let end: i32 = imin(start + len, frame);
    if end <= start {
        0
    } else if step == 16 {
        (end - start + 15) / 16
    } else {
        (end - start + 31) / 32
    }
}

/// Appends the parts of a large block.
fn split_once(fi: &SbFrameInfo, b: &ReconBlock, v: &mut Vec<SubBlock>)
    requires
        b.valid(),
        b.large(),
        0 <= fi.ss_hor <= 1,
        0 <= fi.ss_ver <= 1,
    ensures
        final(v)@ == old(v)@ + parts_from(*fi, *b, 0),
        forall|k: int|
            old(v)@.len() <= k < final(v)@.len() ==> part_of(*b, #[trigger] final(v)@[k]),
        forall|k: int| 0 <= k < old(v)@.len() ==> #[trigger] final(v)@[k] == old(v)@[k],
        old(v)@.len() <= final(v)@.len(),
{
    let bs: BlockSize = if b.lbs == BlockSize::Invalid { b.cbs } else { b.lbs };
    let d: [u8; 4] = bs.dim();
    let step: i32 = if d[0] > 32 || d[1] > 32 { 32 } else { 16 };
    let nx: i32 = count_parts(b.bx, d[0] as i32, fi.bw, step);
    let ny: i32 = count_parts(b.by, d[1] as i32, fi.bh, step);
    let ghost start = v@;
    let ghost whole = v@ + parts_from(*fi, *b, 0);
    let mut j: i32 = 0;
    while j < ny
        invariant
            b.valid(),
            b.large(),
            0 <= fi.ss_hor <= 1,
            0 <= fi.ss_ver <= 1,
            nx == parts_across(*fi, *b),
            ny == parts_down(*fi, *b),
            0 <= nx <= 4,
            0 <= j <= ny <= 4,
            v@ + parts_from(*fi, *b, j as int) == whole,
            start.len() <= v@.len(),
            forall|k: int| start.len() <= k < v@.len() ==> part_of(*b, #[trigger] v@[k]),
            forall|k: int| 0 <= k < start.len() ==> #[trigger] v@[k] == start[k],
        decreases ny - j,
    {
        let ghost later = parts_from(*fi, *b, j + 1);
        assert(v@ + parts_from(*fi, *b, j as int) =~= v@ + parts_of_row(*fi, *b, 0, j as int)
            + later);
        let mut i: i32 = 0;
        while i < nx
            invariant
                b.valid(),
                b.large(),
                0 <= fi.ss_hor <= 1,
                0 <= fi.ss_ver <= 1,
                nx == parts_across(*fi, *b),
                0 <= i <= nx <= 4,
                0 <= j < 4,
                v@ + parts_of_row(*fi, *b, i as int, j as int) + later == whole,
                start.len() <= v@.len(),
                forall|k: int| start.len() <= k < v@.len() ==> part_of(*b, #[trigger] v@[k]),
                forall|k: int| 0 <= k < start.len() ==> #[trigger] v@[k] == start[k],
            decreases nx - i,
        {
            let ghost v0 = v@;
            let part: SubBlock = make_part(fi, b, i, j);
            let ghost rest = parts_of_row(*fi, *b, i + 1, j as int);
            v.push(part);
            assert(v0 + (seq![part] + rest) + later =~= v@ + rest + later);
            i = i + 1;
        }
        assert(v@ + Seq::<SubBlock>::empty() + later =~= v@ + later);
        j = j + 1;
    }
    assert(v@ + Seq::<SubBlock>::empty() =~= v@);
}

/// The same of the parts of parts.
pub open spec fn near_part(b: ReconBlock, s: SubBlock) -> bool {
    &&& s.block.lbs == BlockSize::Invalid <==> b.lbs == BlockSize::Invalid
    &&& b.bx <= s.block.bx <= b.bx + 256
    &&& b.by <= s.block.by <= b.by + 256
    &&& b.cbx <= s.block.cbx <= b.cbx + 256
    &&& b.cby <= s.block.cby <= b.cby + 256
}

/// Lists the parts of a block in the order in which they are reconstructed.
/// A block of at most 64 by 64 pixels is its only part.
pub fn split_block(fi: &SbFrameInfo, b: &ReconBlock) -> (r: Vec<SubBlock>)
    requires
        b.valid(),
        b.bx <= 0x10_0000,
        b.by <= 0x10_0000,
        b.cbx <= 0x10_0000,
        b.cby <= 0x10_0000,
        0 <= fi.ss_hor <= 1,
        0 <= fi.ss_ver <= 1,
    ensures
        r@ == all_parts(*fi, *b),
        forall|k: int| 0 <= k < r@.len() ==> near_part(*b, #[trigger] r@[k]),
{
    let bs: BlockSize = if b.lbs == BlockSize::Invalid { b.cbs } else { b.lbs };
    let d: [u8; 4] = bs.dim();
    let mut v: Vec<SubBlock> = Vec::new();
    if d[0] <= 16 && d[1] <= 16 {
        v.push(
            SubBlock {
                block: *b,
                phase: if b.cbs == BlockSize::Invalid {
                    ChromaPhase::Nothing
                } else {
                    ChromaPhase::Both
                },
            },
        );
        assert(v@ =~= all_parts(*fi, *b));
        return v;
    }
    let mut parts: Vec<SubBlock> = Vec::new();
    split_once(fi, b, &mut parts);
    assert(parts@ =~= parts_from(*fi, *b, 0));
    if d[0] <= 32 && d[1] <= 32 {
        return parts;
    }
    proof {
        lemma_parts_valid(*fi, *b, 0);
    }
    let mut k: usize = 0;
    while k < parts.len()
        invariant
            k <= parts@.len(),
            0 <= fi.ss_hor <= 1,
            0 <= fi.ss_ver <= 1,
            parts@ == parts_from(*fi, *b, 0),
            forall|i: int| 0 <= i < parts@.len() ==> part_of(*b, #[trigger] parts@[i]),
            forall|i: int| 0 <= i < v@.len() ==> near_part(*b, #[trigger] v@[i]),
            forall|i: int| 0 <= i < parts@.len() ==> part_valid(#[trigger] parts@[i]),
            v@ == parts_of_parts(*fi, parts@, k as int),
        decreases parts@.len() - k,
    {
        assert(part_valid(parts@[k as int]));
        split_once(fi, &parts[k].block, &mut v);
        k = k + 1;
    }
    v
}

/// A part that is divided again.
spec fn part_valid(s: SubBlock) -> bool {
    s.block.valid() && s.block.large()
}

proof fn lemma_row_valid(fi: SbFrameInfo, b: ReconBlock, i: int, j: int)
    requires
        b.valid(),
        b.huge(),
        0 <= i,
        0 <= j <= 1,
        b.bx <= 0x10_0000,
        b.by <= 0x10_0000,
        b.cbx <= 0x10_0000,
        b.cby <= 0x10_0000,
        parts_across(fi, b) <= 2,
    ensures
        forall|k: int|
            0 <= k < parts_of_row(fi, b, i, j).len() ==> part_valid(
                #[trigger] parts_of_row(fi, b, i, j)[k],
            ),
    decreases parts_across(fi, b) - i,
{
    if i < parts_across(fi, b) {
        lemma_row_valid(fi, b, i + 1, j);
        reveal(BlockSize::w4);
        reveal(BlockSize::h4);
        let p = part_at(fi, b, i, j);
        assert(part_valid(p));
        let rest = parts_of_row(fi, b, i + 1, j);
        assert forall|k: int| 0 <= k < parts_of_row(fi, b, i, j).len() implies part_valid(
            #[trigger] parts_of_row(fi, b, i, j)[k],
        ) by {
            if k > 0 {
                assert(parts_of_row(fi, b, i, j)[k] == rest[k - 1]);
            }
        }
    }
}

proof fn lemma_parts_valid(fi: SbFrameInfo, b: ReconBlock, j: int)
    requires
        b.valid(),
        b.huge(),
        0 <= j,
        b.bx <= 0x10_0000,
        b.by <= 0x10_0000,
        b.cbx <= 0x10_0000,
        b.cby <= 0x10_0000,
        parts_across(fi, b) <= 2,
        parts_down(fi, b) <= 2,
    ensures
        forall|k: int|
            0 <= k < parts_from(fi, b, j).len() ==> part_valid(#[trigger] parts_from(fi, b, j)[k]),
    decreases parts_down(fi, b) - j,
{
    if j < parts_down(fi, b) {
        lemma_parts_valid(fi, b, j + 1);
        lemma_row_valid(fi, b, 0, j);
        let row = parts_of_row(fi, b, 0, j);
        let rest = parts_from(fi, b, j + 1);
        assert forall|k: int| 0 <= k < parts_from(fi, b, j).len() implies part_valid(
            #[trigger] parts_from(fi, b, j)[k],
        ) by {
            if k < row.len() {
                assert(parts_from(fi, b, j)[k] == row[k]);
            } else {
                assert(parts_from(fi, b, j)[k] == rest[k - row.len()]);
            }
        }
    }
}

/// The unit lies in part `(i, j)` of a block.
pub open spec fn part_holds(b: ReconBlock, i: int, j: int, x: int, y: int) -> bool {
    let step = part_step(b);
    &&& b.bx + i * step <= x < b.bx + (i + 1) * step
    &&& b.by + j * step <= y < b.by + (j + 1) * step
}

/// Every unit of a large block that lies within the frame is in exactly one of
/// its parts.
pub proof fn law_parts_cover_the_block(fi: SbFrameInfo, b: ReconBlock, x: int, y: int) -> (r: (
    int,
    int,
))
    requires
        b.valid(),
        b.large(),
        b.bx <= x < b.bx + b.bs().w4(),
        b.by <= y < b.by + b.bs().h4(),
        x < fi.bw,
        y < fi.bh,
    ensures
        0 <= r.0 < parts_across(fi, b),
        0 <= r.1 < parts_down(fi, b),
        forall|i: int, j: int|
            #[trigger] part_holds(b, i, j, x, y) <==> i == r.0 && j == r.1,
{
    let (dx, dy) = (x - b.bx, y - b.by);
    if b.huge() {
        (dx / 32, dy / 32)
    } else {
        (dx / 16, dy / 16)
    }
}

/// Chroma of a block of 128 pixels is read along with its first part of luma
/// and reconstructed along with its last, where it is half as dense in both
/// directions.
pub proof fn law_chroma_is_read_first_and_built_last(
    fi: SbFrameInfo,
    b: ReconBlock,
    i: int,
    j: int,
)
    requires
        b.valid(),
        b.large(),
        !b.huge(),
        b.cbs != BlockSize::Invalid,
        fi.ss_hor == 1,
        fi.ss_ver == 1,
        0 <= i < parts_across(fi, b),
        0 <= j < parts_down(fi, b),
    ensures
        ({
            let phase = part_at(fi, b, i, j).phase;
            &&& (phase == ChromaPhase::Both || phase == ChromaPhase::ReadOnly) <==> (i == 0 && j
                == 0)
            &&& (phase == ChromaPhase::Both || phase == ChromaPhase::ReconOnly) <==> (i
                == parts_across(fi, b) - 1 && j == parts_down(fi, b) - 1)
        }),
{
    lemma_block_dimensions(b.bs());
}

/// The parts of a block larger than 64 pixels lie on a grid of 64 pixels, those
/// of one larger than 128 on a grid of 128, column `i` and row `j` from its
/// corner. Chroma parts lie on the grid that a 64x64 block of chroma covers.
pub proof fn law_parts_lie_on_their_grid(fi: SbFrameInfo, b: ReconBlock, i: int, j: int)
    requires
        b.valid(),
        0 <= i < 4,
        0 <= j < 4,
        0 <= fi.ss_hor <= 1,
        0 <= fi.ss_ver <= 1,
    ensures
        ({
            let p = part_at(fi, b, i, j).block;
            let side = if b.bs().w4() > 32 || b.bs().h4() > 32 { 32int } else { 16 };
            &&& p.bx == b.bx + side * i
            &&& p.by == b.by + side * j
            &&& side == 32 ==> p.cbx == b.cbx + 32 * i && p.cby == b.cby + 32 * j
            &&& side == 16 && fi.ss_hor == 0 ==> p.cbx == b.cbx + 16 * i
            &&& side == 16 && fi.ss_hor == 1 ==> p.cbx == b.cbx + 16 * (i - i % 2)
            &&& side == 16 && fi.ss_ver == 0 ==> p.cby == b.cby + 16 * j
            &&& side == 16 && fi.ss_ver == 1 ==> p.cby == b.cby + 16 * (j - j % 2)
            &&& b.lbs != BlockSize::Invalid && side == 16 ==> p.lbs == BlockSize::Bs64x64
            &&& b.lbs != BlockSize::Invalid && side == 32 ==> p.lbs == BlockSize::Bs128x128
        }),
{
    assert(i == 0 || i == 1 || i == 2 || i == 3);
    assert(j == 0 || j == 1 || j == 2 || j == 3);
    assert(part_step(b) * i == i * part_step(b)) by (nonlinear_arith);
    assert(part_step(b) == 32 || part_step(b) == 16);
}

/// Parts go on as far as the block lies in the frame.
pub proof fn law_parts_reach_the_end(start: int, len: int, frame: int, step: int)
    requires
        step == 16 || step == 32,
        0 <= start,
        1 <= len,
    ensures
        ({
            let n = part_count(start, len, frame, step);
            let end = if start + len < frame { start + len } else { frame };
            &&& end <= start ==> n == 0
            &&& end > start ==> start + step * (n - 1) < end <= start + step * n
        }),
{
}

} // verus!
