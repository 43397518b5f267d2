//! The tree of blocks of a superblock.
use vstd::prelude::*;

use crate::frameinfo::SbFrameInfo;
use crate::intops::{b2i, p2, POW2};
use crate::levels::{lemma_block_dimensions, BlockPartition, BlockSize};
use crate::msac::{Cdf, Request, Sym};
use crate::partition::{
    divisible, get_part, has_part, lemma_parts_exist, node_partition, part_of, partition_fits,
    DirState, SbNode,
};

verus! {

/// One part of a divided block: its offset, its sizes, and whether the chroma
/// anchor moves to it in either direction.
#[derive(Debug, Clone, Copy, PartialEq, Eq, Structural)]
pub struct Child {
    pub dx: i32,
    pub dy: i32,
    pub lbs: BlockSize,
    pub cbs: BlockSize,
    pub anchor_x: bool,
    pub anchor_y: bool,
}

pub open spec fn child(dx: int, dy: int, lbs: BlockSize, cbs: BlockSize) -> Child {
    Child { dx: dx as i32, dy: dy as i32, lbs, cbs, anchor_x: false, anchor_y: false }
}

/// A size for luma: none in a chroma-only block.
pub open spec fn luma_part(n: SbNode, bs: BlockSize) -> BlockSize {
    if n.chroma_only() { BlockSize::Invalid } else { bs }
}

/// `bs` where the condition holds, and `other` where it does not.
pub open spec fn pick(c: bool, bs: BlockSize, other: BlockSize) -> BlockSize {
    if c { bs } else { other }
}

/// A side of `v` units of four pixels is at least one unit of chroma.
pub open spec fn chroma_side(v: int, ss: int) -> bool {
    v / p2(ss) > 0
}

/// Whether the parts of the block are large enough to have chroma of their
/// own.
pub open spec fn parts_have_chroma(fi: SbFrameInfo, n: SbNode, cbs: BlockSize, bp: BlockPartition) -> bool {
    let (w, h) = (n.w4(), n.h4());
    n.bs() == cbs && match bp {
        BlockPartition::V => chroma_side(w / 2, fi.ss_hor as int),
        BlockPartition::H => chroma_side(h / 2, fi.ss_ver as int),
        BlockPartition::V3 => chroma_side(w / 4, fi.ss_hor as int) && chroma_side(
            h / 2,
            fi.ss_ver as int,
        ),
        BlockPartition::H3 => chroma_side(h / 4, fi.ss_ver as int) && chroma_side(
            w / 2,
            fi.ss_hor as int,
        ),
        BlockPartition::V4A | BlockPartition::V4B => chroma_side(w / 8, fi.ss_hor as int),
        BlockPartition::H4A | BlockPartition::H4B => chroma_side(h / 8, fi.ss_ver as int),
        _ => true,
    }
}

/// The left and the right half.
pub open spec fn children_v(fi: SbFrameInfo, n: SbNode, cbs: BlockSize, own: bool) -> Seq<Child> {
    let bs = n.bs();
    let w = n.w4();
    let none = BlockSize::Invalid;
    let p = part_of(bs, 1, 0);
    let first = child(0, 0, luma_part(n, p), pick(own, p, none));
    if n.bx + w / 2 >= fi.bw {
        seq![first]
    } else {
        seq![first, child(w / 2, 0, luma_part(n, p), pick(own, p, cbs))]
    }
}

/// The upper and the lower half.
pub open spec fn children_h(fi: SbFrameInfo, n: SbNode, cbs: BlockSize, own: bool) -> Seq<Child> {
    let bs = n.bs();
    let h = n.h4();
    let none = BlockSize::Invalid;
    let p = part_of(bs, 0, 0);
    let first = child(0, 0, luma_part(n, p), pick(own, p, none));
    if n.by + h / 2 >= fi.bh {
        seq![first]
    } else {
        seq![first, child(0, h / 2, luma_part(n, p), pick(own, p, cbs))]
    }
}

/// The four quarters.
pub open spec fn children_split(n: SbNode) -> Seq<Child> {
    let bs = n.bs();
    let (w, h) = (n.w4(), n.h4());
    let p = part_of(bs, 0, 3);
    seq![
        child(0, 0, p, p),
        child(w / 2, 0, p, p),
        child(0, h / 2, p, p),
        child(w / 2, h / 2, p, p),
    ]
}

/// A narrow part, two quarters above each other, a narrow part.
pub open spec fn children_v3(fi: SbFrameInfo, n: SbNode, cbs: BlockSize, own: bool) -> Seq<Child> {
    let bs = n.bs();
    let (w, h) = (n.w4(), n.h4());
    let none = BlockSize::Invalid;
    let outer = part_of(bs, 1, 1);
    let inner = part_of(bs, 1, 3);
    let last_only = cbs == none || (!own && bs != BlockSize::Bs32x8);
    let first = child(0, 0, luma_part(n, outer), pick(last_only, none, outer));
    if n.bx + w / 4 >= fi.bw {
        seq![first]
    } else {
        let mid = Child {
            anchor_x: !last_only,
            ..child(w / 4, 0, luma_part(n, inner), pick(own, inner, none))
        };
        let mid2 = child(
            w / 4,
            h / 2,
            luma_part(n, inner),
            pick(last_only, none, pick(own, inner, part_of(bs, 1, 0))),
        );
        let inner_parts = if n.by + h / 2 < fi.bh { seq![mid, mid2] } else { seq![mid] };
        let last = child(w / 4 * 3, 0, luma_part(n, outer), pick(last_only, cbs, outer));
        let outer_parts = if n.bx + w / 4 + w / 2 < fi.bw {
            seq![last]
        } else {
            Seq::<Child>::empty()
        };
        seq![first] + inner_parts + outer_parts
    }
}

/// A flat part, two quarters beside each other, a flat part.
pub open spec fn children_h3(fi: SbFrameInfo, n: SbNode, cbs: BlockSize, own: bool) -> Seq<Child> {
    let bs = n.bs();
    let (w, h) = (n.w4(), n.h4());
    let none = BlockSize::Invalid;
    let outer = part_of(bs, 0, 1);
    let inner = part_of(bs, 0, 3);
    let last_only = cbs == none || (!own && bs != BlockSize::Bs8x32);
    let first = child(0, 0, luma_part(n, outer), pick(last_only, none, outer));
    if n.by + h / 4 >= fi.bh {
        seq![first]
    } else {
        let mid = Child {
            anchor_y: !last_only,
            ..child(0, h / 4, luma_part(n, inner), pick(own, inner, none))
        };
        let mid2 = child(
            w / 2,
            h / 4,
            luma_part(n, inner),
            pick(last_only, none, pick(own, inner, part_of(bs, 0, 0))),
        );
        let inner_parts = if n.bx + w / 2 < fi.bw { seq![mid, mid2] } else { seq![mid] };
        let last = child(0, h / 4 * 3, luma_part(n, outer), pick(last_only, cbs, outer));
        let outer_parts = if n.by + h / 4 + h / 2 < fi.bh {
            seq![last]
        } else {
            Seq::<Child>::empty()
        };
        seq![first] + inner_parts + outer_parts
    }
}

/// Four columns: an eighth, a quarter and a half in either order, an eighth.
pub open spec fn children_v4(fi: SbFrameInfo, n: SbNode, cbs: BlockSize, own: bool, a: bool) -> Seq<Child> {
    let bs = n.bs();
    let w = n.w4();
    let none = BlockSize::Invalid;
    let edge = part_of(bs, 1, 2);
    let second = if a { part_of(bs, 1, 1) } else { part_of(bs, 1, 0) };
    let third = if a { part_of(bs, 1, 0) } else { part_of(bs, 1, 1) };
    let x1 = w / 8;
    let x2 = x1 + (if a { w / 4 } else { w / 2 });
    let x3 = x2 + (if a { w / 2 } else { w / 4 });
    let c0 = child(0, 0, luma_part(n, edge), pick(own, edge, none));
    let c1 = child(x1, 0, luma_part(n, second), pick(own, second, none));
    let c2 = child(x2, 0, luma_part(n, third), pick(own, third, none));
    let c3 = child(x3, 0, luma_part(n, edge), pick(own, edge, cbs));
    if n.bx + x1 >= fi.bw {
        seq![c0]
    } else if n.bx + x2 >= fi.bw {
        seq![c0, c1]
    } else if n.bx + x3 >= fi.bw {
        seq![c0, c1, c2]
    } else {
        seq![c0, c1, c2, c3]
    }
}

/// Four rows: an eighth, a quarter and a half in either order, an eighth.
pub open spec fn children_h4(fi: SbFrameInfo, n: SbNode, cbs: BlockSize, own: bool, a: bool) -> Seq<Child> {
    let bs = n.bs();
    let h = n.h4();
    let none = BlockSize::Invalid;
    let edge = part_of(bs, 0, 2);
    let second = if a { part_of(bs, 0, 1) } else { part_of(bs, 0, 0) };
    let third = if a { part_of(bs, 0, 0) } else { part_of(bs, 0, 1) };
    let y1 = h / 8;
    let y2 = y1 + (if a { h / 4 } else { h / 2 });
    let y3 = y2 + (if a { h / 2 } else { h / 4 });
    let c0 = child(0, 0, luma_part(n, edge), pick(own, edge, none));
    let c1 = child(0, y1, luma_part(n, second), pick(own, second, none));
    let c2 = child(0, y2, luma_part(n, third), pick(own, third, none));
    let c3 = child(0, y3, luma_part(n, edge), pick(own, edge, cbs));
    if n.by + y1 >= fi.bh {
        seq![c0]
    } else if n.by + y2 >= fi.bh {
        seq![c0, c1]
    } else if n.by + y3 >= fi.bh {
        seq![c0, c1, c2]
    } else {
        seq![c0, c1, c2, c3]
    }
}

/// The parts of a divided block; those that start beyond the frame are left
/// out. `cbs` is the chroma part that goes with the block: each part has its
/// own where the parts are large enough, and the last one has all of it
/// otherwise.
pub open spec fn children(
    fi: SbFrameInfo,
    n: SbNode,
    cbs: BlockSize,
    bp: BlockPartition,
) -> Seq<Child> {
    let own = parts_have_chroma(fi, n, cbs, bp);
    match bp {
        BlockPartition::V => children_v(fi, n, cbs, own),
        BlockPartition::H => children_h(fi, n, cbs, own),
        BlockPartition::Split => children_split(n),
        BlockPartition::V3 => children_v3(fi, n, cbs, own),
        BlockPartition::H3 => children_h3(fi, n, cbs, own),
        BlockPartition::V4A => children_v4(fi, n, cbs, own, true),
        BlockPartition::V4B => children_v4(fi, n, cbs, own, false),
        BlockPartition::H4A => children_h4(fi, n, cbs, own, true),
        BlockPartition::H4B => children_h4(fi, n, cbs, own, false),
        _ => Seq::<Child>::empty(),
    }
}

/// The sizes that the table gives the parts of a block.
pub proof fn lemma_part_sizes(bs: BlockSize)
    requires
        bs != BlockSize::Invalid,
    ensures
        ({
            let (w, h) = (bs.w4(), bs.h4());
            &&& has_part(bs, 1, 0) ==> part_is(part_of(bs, 1, 0), w / 2, h) && w >= 2
            &&& has_part(bs, 0, 0) ==> part_is(part_of(bs, 0, 0), w, h / 2) && h >= 2
            &&& has_part(bs, 1, 1) ==> part_is(part_of(bs, 1, 1), w / 4, h) && w >= 4
            &&& has_part(bs, 0, 1) ==> part_is(part_of(bs, 0, 1), w, h / 4) && h >= 4
            &&& has_part(bs, 1, 2) ==> part_is(part_of(bs, 1, 2), w / 8, h) && w >= 8
            &&& has_part(bs, 0, 2) ==> part_is(part_of(bs, 0, 2), w, h / 8) && h >= 8
            &&& has_part(bs, 1, 3) ==> part_is(part_of(bs, 1, 3), w / 2, h / 2) && w >= 2 && h >= 2
            &&& has_part(bs, 0, 3) ==> part_is(part_of(bs, 0, 3), w / 2, h / 2) && w >= 2 && h >= 2
        }),
{
    reveal(part_of);
    reveal(BlockSize::w4);
    reveal(BlockSize::h4);
}

/// `bs` is a block of the given sides.
pub open spec fn part_is(bs: BlockSize, w: int, h: int) -> bool {
    bs != BlockSize::Invalid && bs.w4() == w && bs.h4() == h
}

fn make_child(dx: i32, dy: i32, lbs: BlockSize, cbs: BlockSize) -> (r: Child)
    ensures
        r == child(dx as int, dy as int, lbs, cbs),
{
    Child { dx, dy, lbs, cbs, anchor_x: false, anchor_y: false }
}

fn own_chroma(fi: &SbFrameInfo, n: &SbNode, cbs: BlockSize, bp: BlockPartition) -> (r: bool)
    requires
        divisible(*fi),
        n.valid(*fi),
    ensures
        r == parts_have_chroma(*fi, *n, cbs, bp),
{
    let bs: BlockSize = n.size();
    if bs != cbs {
        return false;
    }
    let d: [u8; 4] = bs.dim();
    assert(p2(0) == 1 && p2(1) == 2);
    let w: i64 = d[0] as i64;
    let h: i64 = d[1] as i64;
    let sw: i64 = POW2[fi.ss_hor as usize];
    let sh: i64 = POW2[fi.ss_ver as usize];
    match bp {
        BlockPartition::V => w / 2 / sw > 0,
        BlockPartition::H => h / 2 / sh > 0,
        BlockPartition::V3 => w / 4 / sw > 0 && h / 2 / sh > 0,
        BlockPartition::H3 => h / 4 / sh > 0 && w / 2 / sw > 0,
        BlockPartition::V4A | BlockPartition::V4B => w / 8 / sw > 0,
        BlockPartition::H4A | BlockPartition::H4B => h / 8 / sh > 0,
        _ => true,
    }
}

fn choose_bs(c: bool, bs: BlockSize, other: BlockSize) -> (r: BlockSize)
    ensures
        r == pick(c, bs, other),
{
    if c { bs } else { other }
}

fn list_children_v(fi: &SbFrameInfo, n: &SbNode, cbs: BlockSize, own: bool) -> (v: Vec<Child>)
    requires
        divisible(*fi),
        n.valid(*fi),
    ensures
        v@ == children_v(*fi, *n, cbs, own),
{
    let bs: BlockSize = n.size();
    let d: [u8; 4] = bs.dim();
    let w: i32 = d[0] as i32;
    let none: BlockSize = BlockSize::Invalid;
    let luma: bool = n.lbs != BlockSize::Invalid;
    let mut v: Vec<Child> = Vec::new();
    let p: BlockSize = get_part(bs, 1, 0);
    let lp: BlockSize = choose_bs(luma, p, none);
    v.push(make_child(0, 0, lp, choose_bs(own, p, none)));
    if n.bx + w / 2 < fi.bw {
        v.push(make_child(w / 2, 0, lp, choose_bs(own, p, cbs)));
    }
    assert(v@ =~= children_v(*fi, *n, cbs, own));
    v
}

fn list_children_h(fi: &SbFrameInfo, n: &SbNode, cbs: BlockSize, own: bool) -> (v: Vec<Child>)
    requires
        divisible(*fi),
        n.valid(*fi),
    ensures
        v@ == children_h(*fi, *n, cbs, own),
{
    let bs: BlockSize = n.size();
    let d: [u8; 4] = bs.dim();
    let h: i32 = d[1] as i32;
    let none: BlockSize = BlockSize::Invalid;
    let luma: bool = n.lbs != BlockSize::Invalid;
    let mut v: Vec<Child> = Vec::new();
    let p: BlockSize = get_part(bs, 0, 0);
    let lp: BlockSize = choose_bs(luma, p, none);
    v.push(make_child(0, 0, lp, choose_bs(own, p, none)));
    if n.by + h / 2 < fi.bh {
        v.push(make_child(0, h / 2, lp, choose_bs(own, p, cbs)));
    }
    assert(v@ =~= children_h(*fi, *n, cbs, own));
    v
}

fn list_children_split(fi: &SbFrameInfo, n: &SbNode) -> (v: Vec<Child>)
    requires
        divisible(*fi),
        n.valid(*fi),
    ensures
        v@ == children_split(*n),
{
    let bs: BlockSize = n.size();
    let d: [u8; 4] = bs.dim();
    let w: i32 = d[0] as i32;
    let h: i32 = d[1] as i32;
    let mut v: Vec<Child> = Vec::new();
    let p: BlockSize = get_part(bs, 0, 3);
    v.push(make_child(0, 0, p, p));
    v.push(make_child(w / 2, 0, p, p));
    v.push(make_child(0, h / 2, p, p));
    v.push(make_child(w / 2, h / 2, p, p));
    assert(v@ =~= children_split(*n));
    v
}

#[verifier::rlimit(60)]
fn list_children_v3(fi: &SbFrameInfo, n: &SbNode, cbs: BlockSize, own: bool) -> (v: Vec<Child>)
    requires
        divisible(*fi),
        n.valid(*fi),
    ensures
        v@ == children_v3(*fi, *n, cbs, own),
{
    let bs: BlockSize = n.size();
    let d: [u8; 4] = bs.dim();
    let w: i32 = d[0] as i32;
    let h: i32 = d[1] as i32;
    let none: BlockSize = BlockSize::Invalid;
    let luma: bool = n.lbs != BlockSize::Invalid;
    let mut v: Vec<Child> = Vec::new();
    let outer: BlockSize = get_part(bs, 1, 1);
    let inner: BlockSize = get_part(bs, 1, 3);
    let half: BlockSize = get_part(bs, 1, 0);
    let last_only: bool = cbs == BlockSize::Invalid || (!own && bs != BlockSize::Bs32x8);
    let lo: BlockSize = choose_bs(luma, outer, none);
    let li: BlockSize = choose_bs(luma, inner, none);
    v.push(make_child(0, 0, lo, choose_bs(last_only, none, outer)));
    if n.bx + w / 4 < fi.bw {
        v.push(
            Child {
                dx: w / 4,
                dy: 0,
                lbs: li,
                cbs: choose_bs(own, inner, none),
                anchor_x: !last_only,
                anchor_y: false,
            },
        );
        if n.by + h / 2 < fi.bh {
            v.push(
                make_child(
                    w / 4,
                    h / 2,
                    li,
                    choose_bs(last_only, none, choose_bs(own, inner, half)),
                ),
            );
        }
        if n.bx + w / 4 + w / 2 < fi.bw {
            v.push(make_child(w / 4 * 3, 0, lo, choose_bs(last_only, cbs, outer)));
        }
    }
    assert(v@ =~= children_v3(*fi, *n, cbs, own));
    v
}

#[verifier::rlimit(60)]
fn list_children_h3(fi: &SbFrameInfo, n: &SbNode, cbs: BlockSize, own: bool) -> (v: Vec<Child>)
    requires
        divisible(*fi),
        n.valid(*fi),
    ensures
        v@ == children_h3(*fi, *n, cbs, own),
{
    let bs: BlockSize = n.size();
    let d: [u8; 4] = bs.dim();
    let w: i32 = d[0] as i32;
    let h: i32 = d[1] as i32;
    let none: BlockSize = BlockSize::Invalid;
    let luma: bool = n.lbs != BlockSize::Invalid;
    let mut v: Vec<Child> = Vec::new();
    let outer: BlockSize = get_part(bs, 0, 1);
    let inner: BlockSize = get_part(bs, 0, 3);
    let half: BlockSize = get_part(bs, 0, 0);
    let last_only: bool = cbs == BlockSize::Invalid || (!own && bs != BlockSize::Bs8x32);
    let lo: BlockSize = choose_bs(luma, outer, none);
    let li: BlockSize = choose_bs(luma, inner, none);
    v.push(make_child(0, 0, lo, choose_bs(last_only, none, outer)));
    if n.by + h / 4 < fi.bh {
        v.push(
            Child {
                dx: 0,
                dy: h / 4,
                lbs: li,
                cbs: choose_bs(own, inner, none),
                anchor_x: false,
                anchor_y: !last_only,
            },
        );
        if n.bx + w / 2 < fi.bw {
            v.push(
                make_child(
                    w / 2,
                    h / 4,
                    li,
                    choose_bs(last_only, none, choose_bs(own, inner, half)),
                ),
            );
        }
        if n.by + h / 4 + h / 2 < fi.bh {
            v.push(make_child(0, h / 4 * 3, lo, choose_bs(last_only, cbs, outer)));
        }
    }
    assert(v@ =~= children_h3(*fi, *n, cbs, own));
    v
}

#[verifier::rlimit(60)]
fn list_children_v4(fi: &SbFrameInfo, n: &SbNode, cbs: BlockSize, own: bool, a: bool) -> (v: Vec<Child>)
    requires
        divisible(*fi),
        n.valid(*fi),
    ensures
        v@ == children_v4(*fi, *n, cbs, own, a),
{
    let bs: BlockSize = n.size();
    let d: [u8; 4] = bs.dim();
    let w: i32 = d[0] as i32;
    let none: BlockSize = BlockSize::Invalid;
    let luma: bool = n.lbs != BlockSize::Invalid;
    let edge: BlockSize = get_part(bs, 1, 2);
    let quarter: BlockSize = get_part(bs, 1, 1);
    let half: BlockSize = get_part(bs, 1, 0);
    let second: BlockSize = choose_bs(a, quarter, half);
    let third: BlockSize = choose_bs(a, half, quarter);
    let x1: i32 = w / 8;
    let x2: i32 = x1 + (if a { w / 4 } else { w / 2 });
    let x3: i32 = x2 + (if a { w / 2 } else { w / 4 });
    let c0: Child = make_child(0, 0, choose_bs(luma, edge, none), choose_bs(own, edge, none));
    let c1: Child = make_child(x1, 0, choose_bs(luma, second, none), choose_bs(own, second, none));
    let c2: Child = make_child(x2, 0, choose_bs(luma, third, none), choose_bs(own, third, none));
    let c3: Child = make_child(x3, 0, choose_bs(luma, edge, none), choose_bs(own, edge, cbs));
    let mut v: Vec<Child> = Vec::new();
    v.push(c0);
    if n.bx + x1 >= fi.bw {
        assert(v@ =~= seq![c0]);
    } else {
        v.push(c1);
        if n.bx + x2 >= fi.bw {
            assert(v@ =~= seq![c0, c1]);
        } else {
            v.push(c2);
            if n.bx + x3 >= fi.bw {
                assert(v@ =~= seq![c0, c1, c2]);
            } else {
                v.push(c3);
                assert(v@ =~= seq![c0, c1, c2, c3]);
            }
        }
    }
    v
}

#[verifier::rlimit(60)]
fn list_children_h4(fi: &SbFrameInfo, n: &SbNode, cbs: BlockSize, own: bool, a: bool) -> (v: Vec<Child>)
    requires
        divisible(*fi),
        n.valid(*fi),
    ensures
        v@ == children_h4(*fi, *n, cbs, own, a),
{
    let bs: BlockSize = n.size();
    let d: [u8; 4] = bs.dim();
    let h: i32 = d[1] as i32;
    let none: BlockSize = BlockSize::Invalid;
    let luma: bool = n.lbs != BlockSize::Invalid;
    let edge: BlockSize = get_part(bs, 0, 2);
    let quarter: BlockSize = get_part(bs, 0, 1);
    let half: BlockSize = get_part(bs, 0, 0);
    let second: BlockSize = choose_bs(a, quarter, half);
    let third: BlockSize = choose_bs(a, half, quarter);
    let y1: i32 = h / 8;
    let y2: i32 = y1 + (if a { h / 4 } else { h / 2 });
    let y3: i32 = y2 + (if a { h / 2 } else { h / 4 });
    let c0: Child = make_child(0, 0, choose_bs(luma, edge, none), choose_bs(own, edge, none));
    let c1: Child = make_child(0, y1, choose_bs(luma, second, none), choose_bs(own, second, none));
    let c2: Child = make_child(0, y2, choose_bs(luma, third, none), choose_bs(own, third, none));
    let c3: Child = make_child(0, y3, choose_bs(luma, edge, none), choose_bs(own, edge, cbs));
    let mut v: Vec<Child> = Vec::new();
    v.push(c0);
    if n.by + y1 >= fi.bh {
        assert(v@ =~= seq![c0]);
    } else {
        v.push(c1);
        if n.by + y2 >= fi.bh {
            assert(v@ =~= seq![c0, c1]);
        } else {
            v.push(c2);
            if n.by + y3 >= fi.bh {
                assert(v@ =~= seq![c0, c1, c2]);
            } else {
                v.push(c3);
                assert(v@ =~= seq![c0, c1, c2, c3]);
            }
        }
    }
    v
}

/// The parts of a divided block, in the order in which they are coded.
pub fn partition_children(
    fi: &SbFrameInfo,
    n: &SbNode,
    cbs: BlockSize,
    bp: BlockPartition,
) -> (r: Vec<Child>)
    requires
        divisible(*fi),
        n.valid(*fi),
        partition_fits(n.bs(), bp),
    ensures
        r@ == children(*fi, *n, cbs, bp),
{
    let own: bool = own_chroma(fi, n, cbs, bp);
    match bp {
        BlockPartition::V => list_children_v(fi, n, cbs, own),
        BlockPartition::H => list_children_h(fi, n, cbs, own),
        BlockPartition::Split => list_children_split(fi, n),
        BlockPartition::V3 => list_children_v3(fi, n, cbs, own),
        BlockPartition::H3 => list_children_h3(fi, n, cbs, own),
        BlockPartition::V4A => list_children_v4(fi, n, cbs, own, true),
        BlockPartition::V4B => list_children_v4(fi, n, cbs, own, false),
        BlockPartition::H4A => list_children_h4(fi, n, cbs, own, true),
        BlockPartition::H4B => list_children_h4(fi, n, cbs, own, false),
        _ => Vec::new(),
    }
}

proof fn lemma_count_v(fi: SbFrameInfo, n: SbNode, cbs: BlockSize, own: bool)
    ensures
        children_v(fi, n, cbs, own).len() <= 4,
{
}

proof fn lemma_count_h(fi: SbFrameInfo, n: SbNode, cbs: BlockSize, own: bool)
    ensures
        children_h(fi, n, cbs, own).len() <= 4,
{
}

proof fn lemma_count_v3(fi: SbFrameInfo, n: SbNode, cbs: BlockSize, own: bool)
    ensures
        children_v3(fi, n, cbs, own).len() <= 4,
{
}

proof fn lemma_count_h3(fi: SbFrameInfo, n: SbNode, cbs: BlockSize, own: bool)
    ensures
        children_h3(fi, n, cbs, own).len() <= 4,
{
}

proof fn lemma_count_v4(fi: SbFrameInfo, n: SbNode, cbs: BlockSize, own: bool, a: bool)
    ensures
        children_v4(fi, n, cbs, own, a).len() <= 4,
{
}

proof fn lemma_count_h4(fi: SbFrameInfo, n: SbNode, cbs: BlockSize, own: bool, a: bool)
    ensures
        children_h4(fi, n, cbs, own, a).len() <= 4,
{
}

/// A block is divided in at most four parts.
pub proof fn lemma_children_count(fi: SbFrameInfo, n: SbNode, cbs: BlockSize, bp: BlockPartition)
    ensures
        children(fi, n, cbs, bp).len() <= 4,
{
    let own = parts_have_chroma(fi, n, cbs, bp);
    match bp {
        BlockPartition::V => lemma_count_v(fi, n, cbs, own),
        BlockPartition::H => lemma_count_h(fi, n, cbs, own),
        BlockPartition::V3 => lemma_count_v3(fi, n, cbs, own),
        BlockPartition::H3 => lemma_count_h3(fi, n, cbs, own),
        BlockPartition::V4A => lemma_count_v4(fi, n, cbs, own, true),
        BlockPartition::V4B => lemma_count_v4(fi, n, cbs, own, false),
        BlockPartition::H4A => lemma_count_h4(fi, n, cbs, own, true),
        BlockPartition::H4B => lemma_count_h4(fi, n, cbs, own, false),
        _ => {},
    }
}

proof fn lemma_no_chroma_v(fi: SbFrameInfo, n: SbNode, i: int)
    requires
        0 <= i < children_v(fi, n, BlockSize::Invalid, false).len(),
    ensures
        children_v(fi, n, BlockSize::Invalid, false)[i].cbs == BlockSize::Invalid,
{
}

proof fn lemma_no_chroma_h(fi: SbFrameInfo, n: SbNode, i: int)
    requires
        0 <= i < children_h(fi, n, BlockSize::Invalid, false).len(),
    ensures
        children_h(fi, n, BlockSize::Invalid, false)[i].cbs == BlockSize::Invalid,
{
}

proof fn lemma_no_chroma_v3(fi: SbFrameInfo, n: SbNode, i: int)
    requires
        0 <= i < children_v3(fi, n, BlockSize::Invalid, false).len(),
    ensures
        children_v3(fi, n, BlockSize::Invalid, false)[i].cbs == BlockSize::Invalid,
{
}

proof fn lemma_no_chroma_h3(fi: SbFrameInfo, n: SbNode, i: int)
    requires
        0 <= i < children_h3(fi, n, BlockSize::Invalid, false).len(),
    ensures
        children_h3(fi, n, BlockSize::Invalid, false)[i].cbs == BlockSize::Invalid,
{
}

proof fn lemma_no_chroma_v4(fi: SbFrameInfo, n: SbNode, a: bool, i: int)
    requires
        0 <= i < children_v4(fi, n, BlockSize::Invalid, false, a).len(),
    ensures
        children_v4(fi, n, BlockSize::Invalid, false, a)[i].cbs == BlockSize::Invalid,
{
}

proof fn lemma_no_chroma_h4(fi: SbFrameInfo, n: SbNode, a: bool, i: int)
    requires
        0 <= i < children_h4(fi, n, BlockSize::Invalid, false, a).len(),
    ensures
        children_h4(fi, n, BlockSize::Invalid, false, a)[i].cbs == BlockSize::Invalid,
{
}

/// The parts of a block without chroma have none, unless they are quarters.
pub proof fn lemma_no_chroma_parts(fi: SbFrameInfo, n: SbNode, bp: BlockPartition, i: int)
    requires
        n.bs() != BlockSize::Invalid,
        bp != BlockPartition::Split,
        0 <= i < children(fi, n, BlockSize::Invalid, bp).len(),
    ensures
        children(fi, n, BlockSize::Invalid, bp)[i].cbs == BlockSize::Invalid,
{
    match bp {
        BlockPartition::V => lemma_no_chroma_v(fi, n, i),
        BlockPartition::H => lemma_no_chroma_h(fi, n, i),
        BlockPartition::V3 => lemma_no_chroma_v3(fi, n, i),
        BlockPartition::H3 => lemma_no_chroma_h3(fi, n, i),
        BlockPartition::V4A => lemma_no_chroma_v4(fi, n, true, i),
        BlockPartition::V4B => lemma_no_chroma_v4(fi, n, false, i),
        BlockPartition::H4A => lemma_no_chroma_h4(fi, n, true, i),
        BlockPartition::H4B => lemma_no_chroma_h4(fi, n, false, i),
        _ => {},
    }
}

/// The size of a part: that of its luma, or of its chroma where there is no
/// luma.
pub open spec fn child_bs(c: Child) -> BlockSize {
    if c.lbs == BlockSize::Invalid { c.cbs } else { c.lbs }
}

/// The point lies within part `c` of a block.
pub open spec fn in_child(c: Child, x: int, y: int) -> bool {
    &&& c.dx <= x < c.dx + child_bs(c).w4()
    &&& c.dy <= y < c.dy + child_bs(c).h4()
}

/// The part is a rectangle at the given offset and of the given sides.
pub open spec fn rect_is(c: Child, dx: int, dy: int, w: int, h: int) -> bool {
    c.dx == dx && c.dy == dy && child_bs(c).w4() == w && child_bs(c).h4() == h
}

/// Exactly one of the parts holds the point.
pub open spec fn in_one_child(cs: Seq<Child>, x: int, y: int) -> bool {
    &&& exists|i: int| 0 <= i < cs.len() && #[trigger] in_child(cs[i], x, y)
    &&& forall|i: int, j: int|
        0 <= i < cs.len() && 0 <= j < cs.len() && #[trigger] in_child(cs[i], x, y)
            && #[trigger] in_child(cs[j], x, y) ==> i == j
}

proof fn lemma_children_v_tile(fi: SbFrameInfo, n: SbNode, cbs: BlockSize, own: bool, x: int, y: int)
    requires
        n.valid(fi),
        partition_fits(n.bs(), BlockPartition::V),
        n.chroma_only() ==> own,
        0 <= x < n.w4(),
        0 <= y < n.h4(),
        n.bx + x < fi.bw,
        n.by + y < fi.bh,
    ensures
        in_one_child(children_v(fi, n, cbs, own), x, y),
{
    lemma_part_sizes(n.bs());
    lemma_block_dimensions(n.bs());
    let cs = children_v(fi, n, cbs, own);
    let (w, h) = (n.w4(), n.h4());
    if x < w / 2 {
        assert(in_child(cs[0], x, y));
    } else {
        assert(in_child(cs[1], x, y));
    }
}

proof fn lemma_children_h_tile(fi: SbFrameInfo, n: SbNode, cbs: BlockSize, own: bool, x: int, y: int)
    requires
        n.valid(fi),
        partition_fits(n.bs(), BlockPartition::H),
        n.chroma_only() ==> own,
        0 <= x < n.w4(),
        0 <= y < n.h4(),
        n.bx + x < fi.bw,
        n.by + y < fi.bh,
    ensures
        in_one_child(children_h(fi, n, cbs, own), x, y),
{
    lemma_part_sizes(n.bs());
    lemma_block_dimensions(n.bs());
    let cs = children_h(fi, n, cbs, own);
    let (w, h) = (n.w4(), n.h4());
    if y < h / 2 {
        assert(in_child(cs[0], x, y));
    } else {
        assert(in_child(cs[1], x, y));
    }
}

proof fn lemma_children_split_tile(fi: SbFrameInfo, n: SbNode, x: int, y: int)
    requires
        n.valid(fi),
        partition_fits(n.bs(), BlockPartition::Split),
        n.have_h(fi),
        n.have_v(fi),
        0 <= x < n.w4(),
        0 <= y < n.h4(),
        n.bx + x < fi.bw,
        n.by + y < fi.bh,
    ensures
        in_one_child(children_split(n), x, y),
{
    lemma_part_sizes(n.bs());
    lemma_block_dimensions(n.bs());
    let cs = children_split(n);
    let (w, h) = (n.w4(), n.h4());
    let i: int = b2i(x >= w / 2) + 2 * b2i(y >= h / 2);
    assert(in_child(cs[i], x, y));
}

#[verifier::rlimit(40)]
proof fn lemma_children_v3_tile(fi: SbFrameInfo, n: SbNode, cbs: BlockSize, own: bool, x: int, y: int)
    requires
        n.valid(fi),
        partition_fits(n.bs(), BlockPartition::V3),
        n.chroma_only() ==> own && cbs == n.cbs,
        0 <= x < n.w4(),
        0 <= y < n.h4(),
        n.bx + x < fi.bw,
        n.by + y < fi.bh,
    ensures
        in_one_child(children_v3(fi, n, cbs, own), x, y),
{
    lemma_part_sizes(n.bs());
    lemma_block_dimensions(n.bs());
    let cs = children_v3(fi, n, cbs, own);
    let (w, h) = (n.w4(), n.h4());
    let q = w / 4;
    let m = h / 2;
    assert(w == 4 * q && h == 2 * m);
    assert(rect_is(cs[0], 0, 0, q, h));
    if n.bx + q < fi.bw {
        assert(rect_is(cs[1], q, 0, 2 * q, m));
        if n.by + m < fi.bh {
            assert(rect_is(cs[2], q, m, 2 * q, m));
        }
        if n.bx + 3 * q < fi.bw {
            assert(rect_is(cs[cs.len() - 1], 3 * q, 0, q, h));
        }
    }
    let i: int = if x < q { 0 } else if x < 3 * q { 1 + b2i(y >= m) } else { cs.len() - 1 };
    assert(in_child(cs[i], x, y));
}

#[verifier::rlimit(40)]
proof fn lemma_children_h3_tile(fi: SbFrameInfo, n: SbNode, cbs: BlockSize, own: bool, x: int, y: int)
    requires
        n.valid(fi),
        partition_fits(n.bs(), BlockPartition::H3),
        n.chroma_only() ==> own && cbs == n.cbs,
        0 <= x < n.w4(),
        0 <= y < n.h4(),
        n.bx + x < fi.bw,
        n.by + y < fi.bh,
    ensures
        in_one_child(children_h3(fi, n, cbs, own), x, y),
{
    lemma_part_sizes(n.bs());
    lemma_block_dimensions(n.bs());
    let cs = children_h3(fi, n, cbs, own);
    let (w, h) = (n.w4(), n.h4());
    let q = h / 4;
    let m = w / 2;
    assert(h == 4 * q && w == 2 * m);
    assert(rect_is(cs[0], 0, 0, w, q));
    if n.by + q < fi.bh {
        assert(rect_is(cs[1], 0, q, m, 2 * q));
        if n.bx + m < fi.bw {
            assert(rect_is(cs[2], m, q, m, 2 * q));
        }
        if n.by + 3 * q < fi.bh {
            assert(rect_is(cs[cs.len() - 1], 0, 3 * q, w, q));
        }
    }
    let i: int = if y < q { 0 } else if y < 3 * q { 1 + b2i(x >= m) } else { cs.len() - 1 };
    assert(in_child(cs[i], x, y));
}

#[verifier::rlimit(60)]
proof fn lemma_children_v4_tile(fi: SbFrameInfo, n: SbNode, cbs: BlockSize, own: bool, a: bool, x: int, y: int)
    requires
        n.valid(fi),
        partition_fits(n.bs(), BlockPartition::V4A),
        n.chroma_only() ==> own,
        0 <= x < n.w4(),
        0 <= y < n.h4(),
        n.bx + x < fi.bw,
        n.by + y < fi.bh,
    ensures
        in_one_child(children_v4(fi, n, cbs, own, a), x, y),
{
    lemma_part_sizes(n.bs());
    lemma_block_dimensions(n.bs());
    let cs = children_v4(fi, n, cbs, own, a);
    let (w, h) = (n.w4(), n.h4());
    let x1 = w / 8;
    let x2 = x1 + (if a { w / 4 } else { w / 2 });
    let x3 = x2 + (if a { w / 2 } else { w / 4 });
    let i: int = b2i(x >= x1) + b2i(x >= x2) + b2i(x >= x3);
    assert(in_child(cs[i], x, y));
}

#[verifier::rlimit(60)]
proof fn lemma_children_h4_tile(fi: SbFrameInfo, n: SbNode, cbs: BlockSize, own: bool, a: bool, x: int, y: int)
    requires
        n.valid(fi),
        partition_fits(n.bs(), BlockPartition::H4A),
        n.chroma_only() ==> own,
        0 <= x < n.w4(),
        0 <= y < n.h4(),
        n.bx + x < fi.bw,
        n.by + y < fi.bh,
    ensures
        in_one_child(children_h4(fi, n, cbs, own, a), x, y),
{
    lemma_part_sizes(n.bs());
    lemma_block_dimensions(n.bs());
    let cs = children_h4(fi, n, cbs, own, a);
    let (w, h) = (n.w4(), n.h4());
    let y1 = h / 8;
    let y2 = y1 + (if a { h / 4 } else { h / 2 });
    let y3 = y2 + (if a { h / 2 } else { h / 4 });
    let i: int = b2i(y >= y1) + b2i(y >= y2) + b2i(y >= y3);
    assert(in_child(cs[i], x, y));
}

/// The parts of a divided block cover it without overlap: every point of the
/// block that lies within the frame belongs to exactly one part.
pub proof fn law_children_tile(
    fi: SbFrameInfo,
    n: SbNode,
    bp: BlockPartition,
    x: int,
    y: int,
)
    requires
        n.valid(fi),
        partition_fits(n.bs(), bp),
        bp != BlockPartition::Whole,
        n.chroma_only() ==> parts_have_chroma(fi, n, n.cbs, bp),
        bp == BlockPartition::Split ==> n.have_h(fi) && n.have_v(fi),
        0 <= x < n.w4(),
        0 <= y < n.h4(),
        n.bx + x < fi.bw,
        n.by + y < fi.bh,
    ensures
        in_one_child(children(fi, n, n.cbs, bp), x, y),
{
    let own = parts_have_chroma(fi, n, n.cbs, bp);
    match bp {
        BlockPartition::V => lemma_children_v_tile(fi, n, n.cbs, own, x, y),
        BlockPartition::H => lemma_children_h_tile(fi, n, n.cbs, own, x, y),
        BlockPartition::Split => lemma_children_split_tile(fi, n, x, y),
        BlockPartition::V3 => lemma_children_v3_tile(fi, n, n.cbs, own, x, y),
        BlockPartition::H3 => lemma_children_h3_tile(fi, n, n.cbs, own, x, y),
        BlockPartition::V4A => lemma_children_v4_tile(fi, n, n.cbs, own, true, x, y),
        BlockPartition::V4B => lemma_children_v4_tile(fi, n, n.cbs, own, false, x, y),
        BlockPartition::H4A => lemma_children_h4_tile(fi, n, n.cbs, own, true, x, y),
        BlockPartition::H4B => lemma_children_h4_tile(fi, n, n.cbs, own, false, x, y),
        _ => {},
    }
}

/// A part at an offset, of the given sides.
pub open spec fn lies_at(c: Child, x: int, y: int, w: int, h: int) -> bool {
    let bs = if c.lbs == BlockSize::Invalid { c.cbs } else { c.lbs };
    &&& c.dx == x
    &&& c.dy == y
    &&& part_is(bs, w, h)
}

/// Where the parts of a block lie that is wholly within the frame: halves
/// beside or above each other; quarters; a quarter, two quarters of half the
/// height or width, and a quarter; or an eighth, a quarter and a half in either
/// order, and an eighth.
pub proof fn law_parts_lie_as_the_partition_says(fi: SbFrameInfo, n: SbNode, bp: BlockPartition)
    requires
        divisible(fi),
        n.valid(fi),
        partition_fits(n.bs(), bp),
        n.chroma_only() ==> parts_have_chroma(fi, n, n.cbs, bp),
        n.bx + n.w4() <= fi.bw,
        n.by + n.h4() <= fi.bh,
    ensures
        ({
            let (w, h) = (n.w4(), n.h4());
            let c = children(fi, n, n.cbs, bp);
            match bp {
                BlockPartition::Whole => c.len() == 0,
                BlockPartition::V => c.len() == 2 && lies_at(c[0], 0, 0, w / 2, h) && lies_at(
                    c[1],
                    w / 2,
                    0,
                    w / 2,
                    h,
                ),
                BlockPartition::H => c.len() == 2 && lies_at(c[0], 0, 0, w, h / 2) && lies_at(
                    c[1],
                    0,
                    h / 2,
                    w,
                    h / 2,
                ),
                BlockPartition::Split => c.len() == 4 && lies_at(c[0], 0, 0, w / 2, h / 2)
                    && lies_at(c[1], w / 2, 0, w / 2, h / 2) && lies_at(
                    c[2],
                    0,
                    h / 2,
                    w / 2,
                    h / 2,
                ) && lies_at(c[3], w / 2, h / 2, w / 2, h / 2),
                BlockPartition::V3 => c.len() == 4 && lies_at(c[0], 0, 0, w / 4, h) && lies_at(
                    c[1],
                    w / 4,
                    0,
                    w / 2,
                    h / 2,
                ) && lies_at(c[2], w / 4, h / 2, w / 2, h / 2) && lies_at(
                    c[3],
                    w / 4 * 3,
                    0,
                    w / 4,
                    h,
                ),
                BlockPartition::H3 => c.len() == 4 && lies_at(c[0], 0, 0, w, h / 4) && lies_at(
                    c[1],
                    0,
                    h / 4,
                    w / 2,
                    h / 2,
                ) && lies_at(c[2], w / 2, h / 4, w / 2, h / 2) && lies_at(
                    c[3],
                    0,
                    h / 4 * 3,
                    w,
                    h / 4,
                ),
                BlockPartition::V4A => c.len() == 4 && lies_at(c[0], 0, 0, w / 8, h) && lies_at(
                    c[1],
                    w / 8,
                    0,
                    w / 4,
                    h,
                ) && lies_at(c[2], w / 8 * 3, 0, w / 2, h) && lies_at(c[3], w / 8 * 7, 0, w / 8, h),
                BlockPartition::V4B => c.len() == 4 && lies_at(c[0], 0, 0, w / 8, h) && lies_at(
                    c[1],
                    w / 8,
                    0,
                    w / 2,
                    h,
                ) && lies_at(c[2], w / 8 * 5, 0, w / 4, h) && lies_at(c[3], w / 8 * 7, 0, w / 8, h),
                BlockPartition::H4A => c.len() == 4 && lies_at(c[0], 0, 0, w, h / 8) && lies_at(
                    c[1],
                    0,
                    h / 8,
                    w,
                    h / 4,
                ) && lies_at(c[2], 0, h / 8 * 3, w, h / 2) && lies_at(c[3], 0, h / 8 * 7, w, h / 8),
                BlockPartition::H4B => c.len() == 4 && lies_at(c[0], 0, 0, w, h / 8) && lies_at(
                    c[1],
                    0,
                    h / 8,
                    w,
                    h / 2,
                ) && lies_at(c[2], 0, h / 8 * 5, w, h / 4) && lies_at(c[3], 0, h / 8 * 7, w, h / 8),
                BlockPartition::Invalid => true,
            }
        }),
{
    lemma_part_sizes(n.bs());
    lemma_sides(n.bs());
}

/// Sides are powers of two.
proof fn lemma_sides(bs: BlockSize)
    requires
        bs != BlockSize::Invalid,
    ensures
        1 <= bs.w4() <= 64,
        1 <= bs.h4() <= 64,
        bs.w4() >= 8 ==> bs.w4() % 8 == 0,
        bs.h4() >= 8 ==> bs.h4() % 8 == 0,
        bs.w4() >= 4 ==> bs.w4() % 4 == 0,
        bs.h4() >= 4 ==> bs.h4() % 4 == 0,
        bs.w4() >= 2 ==> bs.w4() % 2 == 0,
        bs.h4() >= 2 ==> bs.h4() % 2 == 0,
{
    reveal(BlockSize::w4);
    reveal(BlockSize::h4);
}

/// A square block of 8 to 64 pixels within the frame that is divided (its split
/// flag is set), where only halves are allowed: the direction flag comes next.
/// Where it is set the halves lie side by side, each of full height; where it
/// is not they lie one above the other, each of full width.
pub proof fn law_direction_flag_divides_the_block(
    s: Sym,
    fi: SbFrameInfo,
    n: SbNode,
    intra_region: bool,
    d: DirState,
)
    requires
        divisible(fi),
        n.valid(fi),
        n.w4() == n.h4(),
        2 <= n.w4() <= 16,
        n.plane_w4(fi) >= 2,
        n.plane_h4(fi) >= 2,
        n.cbs != BlockSize::Bs64x64 || !n.chroma_only(),
        n.bx + n.w4() <= fi.bw,
        n.by + n.h4() <= fi.bh,
        !fi.ext_partitions,
        !fi.uneven_4way,
        s.asked.len() + 3 <= s.replies.len(),
        s.replies[s.asked.len() as int + 1] == 1,
        s.replies[s.asked.len() as int + 2] <= 1,
    ensures
        ({
            let k = s.asked.len() as int;
            let w = n.w4();
            let ((bp, dir), t) = node_partition(s, fi, n, intra_region, d);
            let c = children(fi, n, n.cbs, bp);
            &&& t.asked.len() == k + 3
            &&& t.asked[k + 2] matches Request::Bool(Cdf::PartDir(_, _))
            &&& dir == s.replies[k + 2]
            &&& c.len() == 2
            &&& s.replies[k + 2] == 1 ==> lies_at(c[0], 0, 0, w / 2, w) && lies_at(
                c[1],
                w / 2,
                0,
                w / 2,
                w,
            )
            &&& s.replies[k + 2] == 0 ==> lies_at(c[0], 0, 0, w, w / 2) && lies_at(
                c[1],
                0,
                w / 2,
                w,
                w / 2,
            )
        }),
{
    reveal(node_partition);
    let bs = n.bs();
    lemma_parts_exist(bs);
    lemma_block_dimensions(bs);
    lemma_square(bs);
    let aspect = p2(fi.max_pb_aspect_ratio_log2 as int);
    assert(aspect >= 2) by {
        assert(forall|k: int| 1 <= k <= 24 ==> 2 <= #[trigger] POW2[k]);
    }
    let w = n.w4();
    assert(w * aspect >= w * 2) by (nonlinear_arith)
        requires
            aspect >= 2,
            w >= 2,
    ;
    let ((bp, dir), t) = node_partition(s, fi, n, intra_region, d);
    let k = s.asked.len() as int;
    assert(p2(0) == 1 && p2(1) == 2);
    assert(s.replies[k + 1] == 1);
    if n.chroma_only() {
        assert(chroma_side(w / 2, fi.ss_hor as int) && chroma_side(w / 2, fi.ss_ver as int)) by {
            assert(fi.ss_hor == 0 || fi.ss_hor == 1);
            assert(fi.ss_ver == 0 || fi.ss_ver == 1);
        }
    }
    law_parts_lie_as_the_partition_says(fi, n, bp);
}

proof fn lemma_square(bs: BlockSize)
    requires
        bs != BlockSize::Invalid,
        bs.w4() == bs.h4(),
        2 <= bs.w4() <= 16,
    ensures
        has_part(bs, 0, 0),
        has_part(bs, 1, 0),
        bs != BlockSize::Bs128x128,
        bs != BlockSize::Bs256x256,
        bs.lw4() == bs.lh4(),
        bs.w4() % 2 == 0,
{
    reveal(part_of);
    reveal(BlockSize::w4);
    reveal(BlockSize::h4);
    reveal(BlockSize::lw4);
    reveal(BlockSize::lh4);
}

/// All parts start in the frame.
pub open spec fn start_inside(fi: SbFrameInfo, n: SbNode, cs: Seq<Child>) -> bool {
    forall|i: int|
        0 <= i < cs.len() ==> n.bx + (#[trigger] cs[i]).dx < fi.bw && n.by + cs[i].dy < fi.bh
}

proof fn lemma_halves_start_inside(fi: SbFrameInfo, n: SbNode, cbs: BlockSize, own: bool)
    requires
        n.valid(fi),
        n.bx < fi.bw,
        n.by < fi.bh,
    ensures
        start_inside(fi, n, children_v(fi, n, cbs, own)),
        start_inside(fi, n, children_h(fi, n, cbs, own)),
{
    crate::levels::lemma_block_dimensions(n.bs());
}

proof fn lemma_upright_start_inside(fi: SbFrameInfo, n: SbNode, cbs: BlockSize, own: bool)
    requires
        n.valid(fi),
        n.bx < fi.bw,
        n.by < fi.bh,
    ensures
        start_inside(fi, n, children_v3(fi, n, cbs, own)),
{
    crate::levels::lemma_block_dimensions(n.bs());
}

proof fn lemma_lying_start_inside(fi: SbFrameInfo, n: SbNode, cbs: BlockSize, own: bool)
    requires
        n.valid(fi),
        n.bx < fi.bw,
        n.by < fi.bh,
    ensures
        start_inside(fi, n, children_h3(fi, n, cbs, own)),
{
    crate::levels::lemma_block_dimensions(n.bs());
}

proof fn lemma_columns_start_inside(fi: SbFrameInfo, n: SbNode, cbs: BlockSize, own: bool, a: bool)
    requires
        n.valid(fi),
        n.bx < fi.bw,
        n.by < fi.bh,
    ensures
        start_inside(fi, n, children_v4(fi, n, cbs, own, a)),
{
    crate::levels::lemma_block_dimensions(n.bs());
}

proof fn lemma_rows_start_inside(fi: SbFrameInfo, n: SbNode, cbs: BlockSize, own: bool, a: bool)
    requires
        n.valid(fi),
        n.bx < fi.bw,
        n.by < fi.bh,
    ensures
        start_inside(fi, n, children_h4(fi, n, cbs, own, a)),
{
    crate::levels::lemma_block_dimensions(n.bs());
}

/// Every part of a block that starts in the frame starts in the frame.
pub proof fn law_parts_start_in_the_frame(
    fi: SbFrameInfo,
    n: SbNode,
    cbs: BlockSize,
    bp: BlockPartition,
)
    requires
        n.valid(fi),
        n.bx < fi.bw,
        n.by < fi.bh,
        bp == BlockPartition::Split ==> n.have_h(fi) && n.have_v(fi),
    ensures
        start_inside(fi, n, children(fi, n, cbs, bp)),
{
    crate::levels::lemma_block_dimensions(n.bs());
    let own = parts_have_chroma(fi, n, cbs, bp);
    lemma_halves_start_inside(fi, n, cbs, own);
    lemma_upright_start_inside(fi, n, cbs, own);
    lemma_lying_start_inside(fi, n, cbs, own);
    lemma_columns_start_inside(fi, n, cbs, own, true);
    lemma_columns_start_inside(fi, n, cbs, own, false);
    lemma_rows_start_inside(fi, n, cbs, own, true);
    lemma_rows_start_inside(fi, n, cbs, own, false);
}

} // verus!
