//! The order in which the transform blocks of a block are reconstructed.
use vstd::prelude::*;

use crate::intops::{imin, min};
use crate::levels::TxPartition;

verus! {

/// The size of a transform in units of four samples.
#[derive(Debug, Clone, Copy, PartialEq, Eq, Structural)]
pub struct TxSize {
    pub w: i32,
    pub h: i32,
}

impl TxSize {
    pub open spec fn valid(self) -> bool {
        1 <= self.w <= 16 && 1 <= self.h <= 16
    }
}

/// A transform block: its position in units, its size, and whether it is the
/// large one of a block that is divided into five.
#[derive(Debug, Clone, Copy, PartialEq, Eq, Structural)]
pub struct TxTile {
    pub x: i32,
    pub y: i32,
    pub size: TxSize,
    pub big: bool,
}

/// The transform block of size `t` at `(x, y)`.
pub open spec fn tile_at(x: int, y: int, t: TxSize) -> TxTile {
    TxTile { x: x as i32, y: y as i32, size: t, big: false }
}

/// The large transform block at `(x, y)`.
pub open spec fn big_at(x: int, y: int, t: TxSize) -> TxTile {
    TxTile { x: x as i32, y: y as i32, size: t, big: true }
}

/// All transform blocks of a block at `(bx, by)`, in order. `t` is the size of
/// the transform; `big` is that of the large one in the middle of five.
pub open spec fn all_tiles(part: TxPartition, t: TxSize, big: TxSize, bx: int, by: int) -> Seq<TxTile> {
    let (w, h) = (t.w as int, t.h as int);
    match part {
        TxPartition::Whole => seq![tile_at(bx, by, t)],
        TxPartition::Split => seq![
            tile_at(bx, by, t),
            tile_at(bx + w, by, t),
            tile_at(bx, by + h, t),
            tile_at(bx + w, by + h, t),
        ],
        TxPartition::H => seq![tile_at(bx, by, t), tile_at(bx, by + h, t)],
        TxPartition::V => seq![tile_at(bx, by, t), tile_at(bx + w, by, t)],
        TxPartition::H4 => seq![
            tile_at(bx, by, t),
            tile_at(bx, by + h, t),
            tile_at(bx, by + 2 * h, t),
            tile_at(bx, by + 3 * h, t),
        ],
        TxPartition::V4 => seq![
            tile_at(bx, by, t),
            tile_at(bx + w, by, t),
            tile_at(bx + 2 * w, by, t),
            tile_at(bx + 3 * w, by, t),
        ],
        TxPartition::H5 => seq![
            tile_at(bx, by, t),
            tile_at(bx + w, by, t),
            big_at(bx, by + h, big),
            tile_at(bx, by + h + big.h, t),
            tile_at(bx + w, by + h + big.h, t),
        ],
        TxPartition::V5 => seq![
            tile_at(bx, by, t),
            tile_at(bx, by + h, t),
            big_at(bx + w, by, big),
            tile_at(bx + w + big.w, by, t),
            tile_at(bx + w + big.w, by + h, t),
        ],
    }
}

/// A transform block starts within a frame of `fw` by `fh` units.
pub open spec fn starts_inside(t: TxTile, fw: int, fh: int) -> bool {
    t.x < fw && t.y < fh
}

/// Those of the first `n` transform blocks that start within the frame.
pub open spec fn kept(tiles: Seq<TxTile>, n: int, fw: int, fh: int) -> Seq<TxTile>
    decreases n,
{
    if n <= 0 {
        Seq::empty()
    } else {
        let before = kept(tiles, n - 1, fw, fh);
        if starts_inside(tiles[n - 1], fw, fh) {
            before.push(tiles[n - 1])
        } else {
            before
        }
    }
}

/// The transform blocks of a block that are reconstructed, in order.
pub open spec fn tx_walk(
    part: TxPartition,
    t: TxSize,
    big: TxSize,
    bx: int,
    by: int,
    fw: int,
    fh: int,
) -> Seq<TxTile> {
    let tiles = all_tiles(part, t, big, bx, by);
    kept(tiles, tiles.len() as int, fw, fh)
}

fn visit(v: &mut Vec<TxTile>, x: i32, y: i32, size: TxSize, big: bool, fw: i32, fh: i32)
    ensures
        final(v)@ == (if x < fw && y < fh {
            old(v)@.push(TxTile { x, y, size, big })
        } else {
            old(v)@
        }),
{
    if x < fw && y < fh {
        v.push(TxTile { x, y, size, big });
    }
}

/// Lists the transform blocks of a block in the order in which they are
/// decoded, leaving out those that start outside of the frame.
pub fn inter_luma_tx_walk(
    part: TxPartition,
    t: TxSize,
    big: TxSize,
    bx: i32,
    by: i32,
    fw: i32,
    fh: i32,
) -> (r: Vec<TxTile>)
    requires
        t.valid(),
        big.valid(),
        0 <= bx <= 0x10_0000,
        0 <= by <= 0x10_0000,
        bx < fw,
        by < fh,
    ensures
        r@ == tx_walk(part, t, big, bx as int, by as int, fw as int, fh as int),
{
    proof {
        reveal_with_fuel(kept, 6);
    }
    let mut v: Vec<TxTile> = Vec::new();
    let (w, h): (i32, i32) = (t.w, t.h);
    visit(&mut v, bx, by, t, false, fw, fh);
    match part {
        TxPartition::Whole => {},
        TxPartition::Split => {
            visit(&mut v, bx + w, by, t, false, fw, fh);
            visit(&mut v, bx, by + h, t, false, fw, fh);
            visit(&mut v, bx + w, by + h, t, false, fw, fh);
        },
        TxPartition::H => {
            visit(&mut v, bx, by + h, t, false, fw, fh);
        },
        TxPartition::V => {
            visit(&mut v, bx + w, by, t, false, fw, fh);
        },
        TxPartition::H4 => {
            visit(&mut v, bx, by + h, t, false, fw, fh);
            visit(&mut v, bx, by + 2 * h, t, false, fw, fh);
            visit(&mut v, bx, by + 3 * h, t, false, fw, fh);
        },
        TxPartition::V4 => {
            visit(&mut v, bx + w, by, t, false, fw, fh);
            visit(&mut v, bx + 2 * w, by, t, false, fw, fh);
            visit(&mut v, bx + 3 * w, by, t, false, fw, fh);
        },
        TxPartition::H5 => {
            visit(&mut v, bx + w, by, t, false, fw, fh);
            visit(&mut v, bx, by + h, big, true, fw, fh);
            visit(&mut v, bx, by + h + big.h, t, false, fw, fh);
            visit(&mut v, bx + w, by + h + big.h, t, false, fw, fh);
        },
        TxPartition::V5 => {
            visit(&mut v, bx, by + h, t, false, fw, fh);
            visit(&mut v, bx + w, by, big, true, fw, fh);
            visit(&mut v, bx + w + big.w, by, t, false, fw, fh);
            visit(&mut v, bx + w + big.w, by + h, t, false, fw, fh);
        },
    }
    v
}

/// The transform sizes divide a block of `w` by `h` units as the partition
/// says.
pub open spec fn sizes_divide(part: TxPartition, t: TxSize, big: TxSize, w: int, h: int) -> bool {
    match part {
        TxPartition::Whole => t.w == w && t.h == h,
        TxPartition::Split => 2 * t.w == w && 2 * t.h == h,
        TxPartition::H => t.w == w && 2 * t.h == h,
        TxPartition::V => 2 * t.w == w && t.h == h,
        TxPartition::H4 => t.w == w && 4 * t.h == h,
        TxPartition::V4 => 4 * t.w == w && t.h == h,
        TxPartition::H5 => 2 * t.w == w && 4 * t.h == h && big.w == w && 2 * big.h == h,
        TxPartition::V5 => 4 * t.w == w && 2 * t.h == h && 2 * big.w == w && big.h == h,
    }
}

/// The unit lies in the transform block.
pub open spec fn covers_unit(t: TxTile, x: int, y: int) -> bool {
    t.x <= x < t.x + t.size.w && t.y <= y < t.y + t.size.h
}

/// Every unit of a block lies in exactly one of its transform blocks.
pub proof fn law_tiles_divide_the_block(
    part: TxPartition,
    t: TxSize,
    big: TxSize,
    bx: int,
    by: int,
    w: int,
    h: int,
    x: int,
    y: int,
) -> (k: int)
    requires
        t.valid(),
        big.valid(),
        sizes_divide(part, t, big, w, h),
        0 <= bx <= 0x10_0000,
        0 <= by <= 0x10_0000,
        bx <= x < bx + w,
        by <= y < by + h,
    ensures
        0 <= k < all_tiles(part, t, big, bx, by).len(),
        forall|i: int|
            0 <= i < all_tiles(part, t, big, bx, by).len() ==> (i == k <==> #[trigger] covers_unit(
                all_tiles(part, t, big, bx, by)[i],
                x,
                y,
            )),
{
    let right = x >= bx + t.w;
    let low = y >= by + t.h;
    let k = match part {
        TxPartition::Whole => 0,
        TxPartition::Split => (if low { 2int } else { 0 }) + (if right { 1int } else { 0 }),
        TxPartition::H => if low { 1 } else { 0 },
        TxPartition::V => if right { 1 } else { 0 },
        TxPartition::H4 => if y < by + t.h {
            0
        } else if y < by + 2 * t.h {
            1
        } else if y < by + 3 * t.h {
            2
        } else {
            3
        },
        TxPartition::V4 => if x < bx + t.w {
            0
        } else if x < bx + 2 * t.w {
            1
        } else if x < bx + 3 * t.w {
            2
        } else {
            3
        },
        TxPartition::H5 => if !low {
            if right { 1 } else { 0 }
        } else if y < by + t.h + big.h {
            2
        } else {
            if right { 4 } else { 3 }
        },
        TxPartition::V5 => if !right {
            if low { 1 } else { 0 }
        } else if x < bx + t.w + big.w {
            2
        } else {
            if low { 4 } else { 3 }
        },
    };
    k
}

/// Whatever starts within the frame is kept.
proof fn lemma_kept_contains(tiles: Seq<TxTile>, n: int, fw: int, fh: int, k: int) -> (i: int)
    requires
        0 <= k < n <= tiles.len(),
        starts_inside(tiles[k], fw, fh),
    ensures
        0 <= i < kept(tiles, n, fw, fh).len(),
        kept(tiles, n, fw, fh)[i] == tiles[k],
    decreases n,
{
    if k == n - 1 {
        kept(tiles, n - 1, fw, fh).len() as int
    } else {
        lemma_kept_contains(tiles, n - 1, fw, fh, k)
    }
}

/// Every unit of a block that lies within the frame is reconstructed.
pub proof fn law_walk_covers_the_block(
    part: TxPartition,
    t: TxSize,
    big: TxSize,
    bx: int,
    by: int,
    w: int,
    h: int,
    fw: int,
    fh: int,
    x: int,
    y: int,
) -> (i: int)
    requires
        t.valid(),
        big.valid(),
        sizes_divide(part, t, big, w, h),
        0 <= bx <= 0x10_0000,
        0 <= by <= 0x10_0000,
        bx <= x < bx + w,
        by <= y < by + h,
        x < fw,
        y < fh,
    ensures
        0 <= i < tx_walk(part, t, big, bx, by, fw, fh).len(),
        covers_unit(tx_walk(part, t, big, bx, by, fw, fh)[i], x, y),
{
    let tiles = all_tiles(part, t, big, bx, by);
    let k = law_tiles_divide_the_block(part, t, big, bx, by, w, h, x, y);
    assert(covers_unit(tiles[k], x, y));
    lemma_kept_contains(tiles, tiles.len() as int, fw, fh, k)
}

/// The transform blocks of a lossless block: all of one size, line by line,
/// from line `y` and column `x` on.
pub open spec fn raster_from(
    t: TxSize,
    bx: int,
    by: int,
    w4: int,
    h4: int,
    x: int,
    y: int,
) -> Seq<TxTile>
    decreases max0(h4 - y), max0(w4 - x),
{
    if y >= h4 || t.h <= 0 || t.w <= 0 {
        Seq::empty()
    } else if x >= w4 {
        raster_from(t, bx, by, w4, h4, 0, y + t.h)
    } else {
        seq![tile_at(bx + x, by + y, t)] + raster_from(t, bx, by, w4, h4, x + t.w, y)
    }
}

pub open spec fn max0(v: int) -> int {
    if v < 0 { 0 } else { v }
}

/// Lists the transform blocks of a lossless block of `bw4` by `bh4` units.
pub fn raster_walk(
    t: TxSize,
    bx: i32,
    by: i32,
    bw4: i32,
    bh4: i32,
    fw: i32,
    fh: i32,
) -> (r: Vec<TxTile>)
    requires
        t.valid(),
        0 <= bx <= 0x10_0000,
        0 <= by <= 0x10_0000,
        0 <= fw <= 0x10_0000,
        0 <= fh <= 0x10_0000,
        0 <= bw4 <= 64,
        0 <= bh4 <= 64,
    ensures
        r@ == raster_from(
            t,
            bx as int,
            by as int,
            min(bw4 as int, fw - bx),
            min(bh4 as int, fh - by),
            0,
            0,
        ),
{
    let w4: i32 = imin(bw4, fw - bx);
    let h4: i32 = imin(bh4, fh - by);
    let ghost whole = raster_from(t, bx as int, by as int, w4 as int, h4 as int, 0, 0);
    let mut v: Vec<TxTile> = Vec::new();
    assert(v@ + whole =~= whole);
    let mut y: i32 = 0;
    while y < h4
        invariant
            t.valid(),
            0 <= bx <= 0x10_0000,
            0 <= by <= 0x10_0000,
            w4 <= 64,
            h4 <= 64,
            0 <= y <= 80,
            v@ + raster_from(t, bx as int, by as int, w4 as int, h4 as int, 0, y as int) == whole,
        decreases 80 - y,
    {
        let mut x: i32 = 0;
        while x < w4
            invariant
                t.valid(),
                0 <= bx <= 0x10_0000,
                0 <= by <= 0x10_0000,
                w4 <= 64,
                h4 <= 64,
                0 <= y < h4,
                0 <= x <= 80,
                v@ + raster_from(t, bx as int, by as int, w4 as int, h4 as int, x as int, y as int)
                    == whole,
            decreases 80 - x,
        {
            let ghost v0 = v@;
            let tile: TxTile = TxTile { x: bx + x, y: by + y, size: t, big: false };
            let ghost rest = raster_from(
                t,
                bx as int,
                by as int,
                w4 as int,
                h4 as int,
                x + t.w,
                y as int,
            );
            v.push(tile);
            assert(v0 + (seq![tile] + rest) =~= v@ + rest);
            x = x + t.w;
        }
        y = y + t.h;
    }
    assert(v@ + Seq::<TxTile>::empty() =~= v@);
    v
}

/// Every unit of a lossless block from line `y` and column `x` on lies in one
/// of the transform blocks from there on.
proof fn lemma_raster_covers(
    t: TxSize,
    bx: int,
    by: int,
    w4: int,
    h4: int,
    x: int,
    y: int,
    ux: int,
    uy: int,
) -> (k: int)
    requires
        t.valid(),
        0 <= bx <= 0x10_0000,
        0 <= by <= 0x10_0000,
        w4 <= 64,
        h4 <= 64,
        0 <= x,
        0 <= y,
        0 <= ux < w4,
        y <= uy < h4,
        uy < y + t.h ==> x <= ux,
    ensures
        0 <= k < raster_from(t, bx, by, w4, h4, x, y).len(),
        covers_unit(raster_from(t, bx, by, w4, h4, x, y)[k], bx + ux, by + uy),
    decreases max0(h4 - y), max0(w4 - x),
{
    let s = raster_from(t, bx, by, w4, h4, x, y);
    if x >= w4 {
        lemma_raster_covers(t, bx, by, w4, h4, 0, y + t.h, ux, uy)
    } else if uy < y + t.h && ux < x + t.w {
        assert(s[0] == tile_at(bx + x, by + y, t));
        0
    } else {
        let k = lemma_raster_covers(t, bx, by, w4, h4, x + t.w, y, ux, uy);
        assert(s[k + 1] == raster_from(t, bx, by, w4, h4, x + t.w, y)[k]);
        k + 1
    }
}

/// Every unit of a lossless block that lies within the frame is reconstructed.
pub proof fn law_raster_covers_the_block(
    t: TxSize,
    bx: int,
    by: int,
    w4: int,
    h4: int,
    x: int,
    y: int,
) -> (k: int)
    requires
        t.valid(),
        0 <= bx <= 0x10_0000,
        0 <= by <= 0x10_0000,
        w4 <= 64,
        h4 <= 64,
        bx <= x < bx + w4,
        by <= y < by + h4,
    ensures
        0 <= k < raster_from(t, bx, by, w4, h4, 0, 0).len(),
        covers_unit(raster_from(t, bx, by, w4, h4, 0, 0)[k], x, y),
{
    lemma_raster_covers(t, bx, by, w4, h4, 0, 0, x - bx, y - by)
}

/// How the transform blocks of a division lie: one; four quarters row by row;
/// two or four above each other; two or four beside each other; or a large one
/// between two pairs, with the pairs along its shorter sides.
pub proof fn law_divisions_lie_as_they_say(t: TxSize, big: TxSize, bx: int, by: int)
    requires
        t.valid(),
        big.valid(),
        0 <= bx <= 0x10_0000,
        0 <= by <= 0x10_0000,
    ensures
        ({
            let s = all_tiles(TxPartition::Split, t, big, bx, by);
            let h = all_tiles(TxPartition::H, t, big, bx, by);
            let v = all_tiles(TxPartition::V, t, big, bx, by);
            let h4 = all_tiles(TxPartition::H4, t, big, bx, by);
            let v4 = all_tiles(TxPartition::V4, t, big, bx, by);
            let h5 = all_tiles(TxPartition::H5, t, big, bx, by);
            let v5 = all_tiles(TxPartition::V5, t, big, bx, by);
            &&& all_tiles(TxPartition::Whole, t, big, bx, by).len() == 1
            &&& s.len() == 4 && h.len() == 2 && v.len() == 2 && h4.len() == 4 && v4.len() == 4
            &&& h5.len() == 5 && v5.len() == 5
            &&& s[0].x == bx && s[0].y == by && s[1].y == by && s[1].x == bx + t.w && s[2].x == bx
                && s[2].y == by + t.h && s[3].x == bx + t.w && s[3].y == by + t.h
            &&& h[0].x == bx && h[1].x == bx && h[0].y == by && h[1].y == by + t.h
            &&& v[0].y == by && v[1].y == by && v[0].x == bx && v[1].x == bx + t.w
            &&& h4[0].x == bx && h4[1].x == bx && h4[2].x == bx && h4[3].x == bx
            &&& h4[0].y == by && h4[1].y == by + t.h && h4[2].y == by + 2 * t.h && h4[3].y == by + 3
                * t.h
            &&& v4[0].y == by && v4[1].y == by && v4[2].y == by && v4[3].y == by
            &&& v4[0].x == bx && v4[1].x == bx + t.w && v4[2].x == bx + 2 * t.w && v4[3].x == bx + 3
                * t.w
            &&& h5[2].big && h5[2].size == big && h5[2].x == bx && h5[2].y == by + t.h
            &&& h5[0].y == h5[1].y && h5[1].x == h5[0].x + t.w && h5[3].y == h5[2].y + big.h
                && h5[4].y == h5[3].y && h5[4].x == h5[3].x + t.w
            &&& v5[2].big && v5[2].size == big && v5[2].y == by && v5[2].x == bx + t.w
            &&& v5[0].x == v5[1].x && v5[1].y == v5[0].y + t.h && v5[3].x == v5[2].x + big.w
                && v5[4].x == v5[3].x && v5[4].y == v5[3].y + t.h
        }),
{
}

/// The transform blocks of a lossless block go on to the right until the block
/// ends, and then a line down.
pub proof fn law_raster_goes_line_by_line(t: TxSize, bx: int, by: int, w4: int, h4: int)
    requires
        t.valid(),
        t.w < w4 <= 64,
        t.h < h4 <= 64,
        0 <= bx <= 0x10_0000,
        0 <= by <= 0x10_0000,
    ensures
        ({
            let r = raster_from(t, bx, by, w4, h4, 0, 0);
            &&& r.len() >= 2
            &&& r[0].x == bx && r[0].y == by
            &&& r[1].x == bx + t.w && r[1].y == by
        }),
{
    reveal_with_fuel(raster_from, 3);
}

proof fn lemma_kept_start_inside(tiles: Seq<TxTile>, n: int, fw: int, fh: int)
    requires
        n <= tiles.len(),
    ensures
        forall|k: int|
            0 <= k < kept(tiles, n, fw, fh).len() ==> (#[trigger] kept(tiles, n, fw, fh)[k]).x < fw
                && kept(tiles, n, fw, fh)[k].y < fh,
        (forall|k: int| 0 <= k < n ==> (#[trigger] tiles[k]).x < fw && tiles[k].y < fh) && 0 <= n
            ==> kept(tiles, n, fw, fh) =~= tiles.take(n),
    decreases n,
{
    if n > 0 {
        lemma_kept_start_inside(tiles, n - 1, fw, fh);
        let before = kept(tiles, n - 1, fw, fh);
        let after = kept(tiles, n, fw, fh);
        assert forall|k: int| 0 <= k < after.len() implies (#[trigger] after[k]).x < fw && after[k].y
            < fh by {
            if k < before.len() {
                assert(after[k] == before[k]);
            }
        }
        assert(tiles.take(n) =~= tiles.take(n - 1).push(tiles[n - 1]));
    }
}

/// Only transform blocks that start in the frame are walked, and all of them
/// where the whole block lies in the frame.
pub proof fn law_walk_stays_in_the_frame(
    part: TxPartition,
    t: TxSize,
    big: TxSize,
    bx: int,
    by: int,
    fw: int,
    fh: int,
    k: int,
)
    requires
        0 <= k < tx_walk(part, t, big, bx, by, fw, fh).len(),
    ensures
        tx_walk(part, t, big, bx, by, fw, fh)[k].x < fw,
        tx_walk(part, t, big, bx, by, fw, fh)[k].y < fh,
        (forall|i: int|
            0 <= i < all_tiles(part, t, big, bx, by).len() ==> (#[trigger] all_tiles(
                part,
                t,
                big,
                bx,
                by,
            )[i]).x < fw && all_tiles(part, t, big, bx, by)[i].y < fh) ==> tx_walk(
            part,
            t,
            big,
            bx,
            by,
            fw,
            fh,
        ) =~= all_tiles(part, t, big, bx, by),
{
    let tiles = all_tiles(part, t, big, bx, by);
    lemma_kept_start_inside(tiles, tiles.len() as int, fw, fh);
    assert(tiles.take(tiles.len() as int) =~= tiles);
}

} // verus!
