//! Every unit of luma is decoded exactly once.
use vstd::prelude::*;

use crate::blockdec::Leaf;
use crate::decodeb::TileInput;
use crate::frameinfo::SbFrameInfo;
use crate::headers::FrameHeader;
use crate::intops::b2i;
use crate::levels::{lemma_block_dimensions, BlockPartition, BlockSize};
use crate::partition::{node_read, partition_fits, DirState, SbNode};
use crate::sbdec::{
    at_part_limit, child_node, child_step, children_run, divided_apart, finish_step, no_dirs,
    frame_ok, node_area, node_entered, node_leaf, passes, region_chroma, sb_run, stops, walk_at,
    whole_step, SbState,
};
use crate::sbrow::{
    between_sbs, filter_at, input_at, law_row_covers_the_tile, law_row_starts_in_the_tile,
    planes_from, root_node, row_closed, row_done, row_overran, row_run, row_sb, sb_begun, sb_column, sb_count, within, RowInput,
    RowParams, RowState,
};
use crate::sbtree::{
    children, children_h, children_h3, children_h4, children_split, children_v, children_v3,
    children_v4, in_child, law_children_tile, lemma_part_sizes, parts_have_chroma, rect_is, Child,
};

verus! {

/// The unit lies in the luma of a leaf.
pub open spec fn leaf_has(f: Leaf, x: int, y: int) -> bool {
    &&& f.lbs != BlockSize::Invalid
    &&& f.bx <= x < f.bx + f.lbs.w4()
    &&& f.by <= y < f.by + f.lbs.h4()
}

/// The unit lies in the luma of a block of the tree.
pub open spec fn node_has(n: SbNode, x: int, y: int) -> bool {
    &&& n.lbs != BlockSize::Invalid
    &&& n.bx <= x < n.bx + n.lbs.w4()
    &&& n.by <= y < n.by + n.lbs.h4()
}

/// How many leaves hold the unit in their luma.
pub open spec fn luma_count(leaves: Seq<Leaf>, x: int, y: int) -> int
    decreases leaves.len(),
{
    if leaves.len() == 0 {
        0
    } else {
        luma_count(leaves.drop_last(), x, y) + b2i(leaf_has(leaves.last(), x, y))
    }
}

/// How many of the first `i` parts of a block hold the unit in their luma.
pub open spec fn part_count(n: SbNode, cs: Seq<Child>, i: int, x: int, y: int) -> int
    decreases i,
{
    if i <= 0 {
        0
    } else {
        part_count(n, cs, i - 1, x, y) + b2i(node_has(child_node(n, cs[i - 1]), x, y))
    }
}

/// The part lies in a block of `w` by `h` units.
pub open spec fn part_inside(c: Child, w: int, h: int) -> bool {
    &&& c.lbs != BlockSize::Invalid
    &&& 0 <= c.dx
    &&& c.dx + c.lbs.w4() <= w
    &&& 0 <= c.dy
    &&& c.dy + c.lbs.h4() <= h
}

#[verifier::rlimit(40)]
proof fn lemma_halves_inside(fi: SbFrameInfo, n: SbNode, cbs: BlockSize, own: bool, i: int)
    requires
        n.valid(fi),
        n.lbs != BlockSize::Invalid,
    ensures
        partition_fits(n.bs(), BlockPartition::V) && 0 <= i < children_v(fi, n, cbs, own).len()
            ==> part_inside(children_v(fi, n, cbs, own)[i], n.w4(), n.h4()),
        partition_fits(n.bs(), BlockPartition::H) && 0 <= i < children_h(fi, n, cbs, own).len()
            ==> part_inside(children_h(fi, n, cbs, own)[i], n.w4(), n.h4()),
        partition_fits(n.bs(), BlockPartition::Split) && 0 <= i < 4 ==> part_inside(
            children_split(n)[i],
            n.w4(),
            n.h4(),
        ),
{
    lemma_part_sizes(n.bs());
    lemma_block_dimensions(n.bs());
}

#[verifier::rlimit(60)]
proof fn lemma_v3_inside(fi: SbFrameInfo, n: SbNode, cbs: BlockSize, own: bool, i: int)
    requires
        n.valid(fi),
        n.lbs != BlockSize::Invalid,
        partition_fits(n.bs(), BlockPartition::V3),
        0 <= i < children_v3(fi, n, cbs, own).len(),
    ensures
        part_inside(children_v3(fi, n, cbs, own)[i], n.w4(), n.h4()),
{
    lemma_part_sizes(n.bs());
    lemma_block_dimensions(n.bs());
    let cs = children_v3(fi, n, cbs, own);
    let (q, m) = (n.w4() / 4, n.h4() / 2);
    assert(n.w4() == 4 * q && n.h4() == 2 * m);
    assert(cs[i].lbs != BlockSize::Invalid);
    assert(rect_is(cs[i], 0, 0, q, 2 * m) || rect_is(cs[i], q, 0, 2 * q, m) || rect_is(
        cs[i],
        q,
        m,
        2 * q,
        m,
    ) || rect_is(cs[i], 3 * q, 0, q, 2 * m));
}

#[verifier::rlimit(60)]
proof fn lemma_h3_inside(fi: SbFrameInfo, n: SbNode, cbs: BlockSize, own: bool, i: int)
    requires
        n.valid(fi),
        n.lbs != BlockSize::Invalid,
        partition_fits(n.bs(), BlockPartition::H3),
        0 <= i < children_h3(fi, n, cbs, own).len(),
    ensures
        part_inside(children_h3(fi, n, cbs, own)[i], n.w4(), n.h4()),
{
    lemma_part_sizes(n.bs());
    lemma_block_dimensions(n.bs());
    let cs = children_h3(fi, n, cbs, own);
    let (q, m) = (n.h4() / 4, n.w4() / 2);
    assert(n.h4() == 4 * q && n.w4() == 2 * m);
    assert(cs[i].lbs != BlockSize::Invalid);
    assert(rect_is(cs[i], 0, 0, 2 * m, q) || rect_is(cs[i], 0, q, m, 2 * q) || rect_is(
        cs[i],
        m,
        q,
        m,
        2 * q,
    ) || rect_is(cs[i], 0, 3 * q, 2 * m, q));
}

#[verifier::rlimit(60)]
proof fn lemma_v4_inside(fi: SbFrameInfo, n: SbNode, cbs: BlockSize, own: bool, a: bool, i: int)
    requires
        n.valid(fi),
        n.lbs != BlockSize::Invalid,
        partition_fits(n.bs(), BlockPartition::V4A),
        0 <= i < children_v4(fi, n, cbs, own, a).len(),
    ensures
        part_inside(children_v4(fi, n, cbs, own, a)[i], n.w4(), n.h4()),
{
    lemma_part_sizes(n.bs());
    lemma_block_dimensions(n.bs());
    assert(i == 0 || i == 1 || i == 2 || i == 3);
}

#[verifier::rlimit(60)]
proof fn lemma_h4_inside(fi: SbFrameInfo, n: SbNode, cbs: BlockSize, own: bool, a: bool, i: int)
    requires
        n.valid(fi),
        n.lbs != BlockSize::Invalid,
        partition_fits(n.bs(), BlockPartition::H4A),
        0 <= i < children_h4(fi, n, cbs, own, a).len(),
    ensures
        part_inside(children_h4(fi, n, cbs, own, a)[i], n.w4(), n.h4()),
{
    lemma_part_sizes(n.bs());
    lemma_block_dimensions(n.bs());
    assert(i == 0 || i == 1 || i == 2 || i == 3);
}

/// The parts of a block with luma have luma, and lie in it.
proof fn lemma_parts_inside(fi: SbFrameInfo, n: SbNode, cbs: BlockSize, bp: BlockPartition, i: int)
    requires
        n.valid(fi),
        n.lbs != BlockSize::Invalid,
        partition_fits(n.bs(), bp),
        0 <= i < children(fi, n, cbs, bp).len(),
    ensures
        part_inside(children(fi, n, cbs, bp)[i], n.w4(), n.h4()),
{
    let own = parts_have_chroma(fi, n, cbs, bp);
    lemma_halves_inside(fi, n, cbs, own, i);
    match bp {
        BlockPartition::V3 => lemma_v3_inside(fi, n, cbs, own, i),
        BlockPartition::H3 => lemma_h3_inside(fi, n, cbs, own, i),
        BlockPartition::V4A => lemma_v4_inside(fi, n, cbs, own, true, i),
        BlockPartition::V4B => lemma_v4_inside(fi, n, cbs, own, false, i),
        BlockPartition::H4A => lemma_h4_inside(fi, n, cbs, own, true, i),
        BlockPartition::H4B => lemma_h4_inside(fi, n, cbs, own, false, i),
        _ => {},
    }
}

proof fn lemma_v3_without_luma(fi: SbFrameInfo, n: SbNode, cbs: BlockSize, own: bool, i: int)
    requires
        n.lbs == BlockSize::Invalid,
        0 <= i < children_v3(fi, n, cbs, own).len(),
    ensures
        children_v3(fi, n, cbs, own)[i].lbs == BlockSize::Invalid,
{
    assert(i == 0 || i == 1 || i == 2 || i == 3);
}

proof fn lemma_h3_without_luma(fi: SbFrameInfo, n: SbNode, cbs: BlockSize, own: bool, i: int)
    requires
        n.lbs == BlockSize::Invalid,
        0 <= i < children_h3(fi, n, cbs, own).len(),
    ensures
        children_h3(fi, n, cbs, own)[i].lbs == BlockSize::Invalid,
{
    assert(i == 0 || i == 1 || i == 2 || i == 3);
}

proof fn lemma_v4_without_luma(fi: SbFrameInfo, n: SbNode, cbs: BlockSize, own: bool, a: bool, i: int)
    requires
        n.lbs == BlockSize::Invalid,
        0 <= i < children_v4(fi, n, cbs, own, a).len(),
    ensures
        children_v4(fi, n, cbs, own, a)[i].lbs == BlockSize::Invalid,
{
    assert(i == 0 || i == 1 || i == 2 || i == 3);
}

proof fn lemma_h4_without_luma(fi: SbFrameInfo, n: SbNode, cbs: BlockSize, own: bool, a: bool, i: int)
    requires
        n.lbs == BlockSize::Invalid,
        0 <= i < children_h4(fi, n, cbs, own, a).len(),
    ensures
        children_h4(fi, n, cbs, own, a)[i].lbs == BlockSize::Invalid,
{
    assert(i == 0 || i == 1 || i == 2 || i == 3);
}

/// The parts of a block without luma have none either, unless it is split into
/// quarters.
proof fn lemma_parts_without_luma(
    fi: SbFrameInfo,
    n: SbNode,
    cbs: BlockSize,
    bp: BlockPartition,
    i: int,
)
    requires
        n.lbs == BlockSize::Invalid,
        bp != BlockPartition::Split,
        0 <= i < children(fi, n, cbs, bp).len(),
    ensures
        children(fi, n, cbs, bp)[i].lbs == BlockSize::Invalid,
{
    let own = parts_have_chroma(fi, n, cbs, bp);
    match bp {
        BlockPartition::V3 => lemma_v3_without_luma(fi, n, cbs, own, i),
        BlockPartition::H3 => lemma_h3_without_luma(fi, n, cbs, own, i),
        BlockPartition::V4A => lemma_v4_without_luma(fi, n, cbs, own, true, i),
        BlockPartition::V4B => lemma_v4_without_luma(fi, n, cbs, own, false, i),
        BlockPartition::H4A => lemma_h4_without_luma(fi, n, cbs, own, true, i),
        BlockPartition::H4B => lemma_h4_without_luma(fi, n, cbs, own, false, i),
        BlockPartition::V => {
            assert(i == 0 || i == 1);
        },
        BlockPartition::H => {
            assert(i == 0 || i == 1);
        },
        _ => {},
    }
}

proof fn lemma_no_part_has(n: SbNode, cs: Seq<Child>, i: int, x: int, y: int)
    requires
        0 <= i <= cs.len(),
        forall|j: int| 0 <= j < i ==> !node_has(child_node(n, #[trigger] cs[j]), x, y),
    ensures
        part_count(n, cs, i, x, y) == 0,
    decreases i,
{
    if i > 0 {
        lemma_no_part_has(n, cs, i - 1, x, y);
        assert(!node_has(child_node(n, cs[i - 1]), x, y));
    }
}

proof fn lemma_one_part_has(n: SbNode, cs: Seq<Child>, i: int, k: int, x: int, y: int)
    requires
        0 <= k < i <= cs.len(),
        forall|j: int| 0 <= j < i ==> node_has(child_node(n, #[trigger] cs[j]), x, y) == (j == k),
    ensures
        part_count(n, cs, i, x, y) == 1,
    decreases i,
{
    assert(node_has(child_node(n, cs[i - 1]), x, y) == (i - 1 == k));
    if k == i - 1 {
        lemma_no_part_has(n, cs, i - 1, x, y);
    } else {
        lemma_one_part_has(n, cs, i - 1, k, x, y);
    }
}

/// The parts of a block hold each of its units once, and no other.
proof fn lemma_parts_count(
    fi: SbFrameInfo,
    n: SbNode,
    cbs: BlockSize,
    bp: BlockPartition,
    x: int,
    y: int,
)
    requires
        n.lbs != BlockSize::Invalid ==> n.valid(fi),
        partition_fits(n.bs(), bp),
        bp != BlockPartition::Whole,
        bp == BlockPartition::Split ==> n.lbs != BlockSize::Invalid && n.have_h(fi) && n.have_v(fi),
        0 <= x < fi.bw,
        0 <= y < fi.bh,
    ensures
        part_count(n, children(fi, n, cbs, bp), children(fi, n, cbs, bp).len() as int, x, y)
            == b2i(node_has(n, x, y)),
{
    let cs = children(fi, n, cbs, bp);
    if n.lbs == BlockSize::Invalid {
        assert forall|j: int| 0 <= j < cs.len() implies !node_has(
            child_node(n, #[trigger] cs[j]),
            x,
            y,
        ) by {
            lemma_parts_without_luma(fi, n, cbs, bp, j);
        }
        lemma_no_part_has(n, cs, cs.len() as int, x, y);
    } else {
        lemma_block_dimensions(n.bs());
        let (u, v) = (x - n.bx, y - n.by);
        assert forall|j: int| 0 <= j < cs.len() implies part_inside(
            #[trigger] cs[j],
            n.w4(),
            n.h4(),
        ) && node_has(child_node(n, cs[j]), x, y) == in_child(cs[j], u, v) by {
            lemma_parts_inside(fi, n, cbs, bp, j);
            lemma_block_dimensions(cs[j].lbs);
        }
        if node_has(n, x, y) {
            let m = SbNode { cbs, ..n };
            assert(children(fi, m, cbs, bp) == cs);
            law_children_tile(fi, m, bp, u, v);
            let k = choose|k: int| 0 <= k < cs.len() && #[trigger] in_child(cs[k], u, v);
            assert forall|j: int| 0 <= j < cs.len() implies node_has(
                child_node(n, #[trigger] cs[j]),
                x,
                y,
            ) == (j == k) by {
                assert(in_child(cs[k], u, v));
                if in_child(cs[j], u, v) {
                    assert(j == k);
                }
            }
            lemma_one_part_has(n, cs, cs.len() as int, k, x, y);
        } else {
            lemma_no_part_has(n, cs, cs.len() as int, x, y);
        }
    }
}

proof fn lemma_count_push(leaves: Seq<Leaf>, f: Leaf, x: int, y: int)
    ensures
        luma_count(leaves.push(f), x, y) == luma_count(leaves, x, y) + b2i(leaf_has(f, x, y)),
{
    assert(leaves.push(f).drop_last() =~= leaves);
}

/// What is left of a block after its parts has no luma.
proof fn lemma_finish_count(
    fi: SbFrameInfo,
    n: SbNode,
    input: TileInput,
    s0: SbState,
    s1: SbState,
    x: int,
    y: int,
)
    requires
        finish_step(fi, n, input, s0, s1, true),
    ensures
        luma_count(s1.leaves, x, y) == luma_count(s0.leaves, x, y),
{
    if s0.walk.intra_region && n.cbs != BlockSize::Invalid {
        lemma_count_push(s0.leaves, region_chroma(n, s0.walk), x, y);
    }
}

/// Decoding a block of the tree decodes every unit of its luma that lies
/// within the frame exactly once, and no other unit.
pub proof fn law_every_unit_is_decoded_once(
    fi: SbFrameInfo,
    n: SbNode,
    input: TileInput,
    d0: DirState,
    s0: SbState,
    d1: DirState,
    s1: SbState,
    x: int,
    y: int,
)
    requires
        n.bs() != BlockSize::Invalid,
        n.lbs != BlockSize::Invalid ==> n.valid(fi),
        sb_run(fi, n, input, d0, s0, d1, s1, true),
        0 <= x < fi.bw,
        0 <= y < fi.bh,
    ensures
        luma_count(s1.leaves, x, y) == luma_count(s0.leaves, x, y) + b2i(node_has(n, x, y)),
    decreases node_area(n), b2i(n.lbs == n.cbs), 10int,
{
    if divided_apart(fi, n) {
        let luma = SbNode { cbs: BlockSize::Invalid, ..n };
        let chroma = SbNode { lbs: BlockSize::Invalid, ..n };
        let (dm, sm, de) = choose|dm: DirState, sm: SbState, de: DirState| #[trigger]
            stops(0, dm, sm, de) && sb_run(
                fi,
                luma,
                input,
                no_dirs(false),
                s0,
                dm,
                sm,
                true,
            ) && sb_run(fi, chroma, input, dm, sm, de, s1, true);
        law_every_unit_is_decoded_once(fi, luma, input, no_dirs(false), s0, dm, sm, x, y);
        law_every_unit_is_decoded_once(fi, chroma, input, dm, sm, de, s1, x, y);
    } else {
        let (r, sym) = node_read(
            s0.sym,
            fi,
            n,
            s0.walk.intra_region,
            s0.walk.cfl_disallowed,
            d0,
        );
        let s = node_entered(fi, n, r, sym, s0);
        let cs = children(fi, n, r.cbs, r.bp);
        if r.bp == BlockPartition::Whole {
            let m = choose|m: SbState| #[trigger]
                whole_step(fi, n, r.cbs, input, s, m, true) && finish_step(
                    fi,
                    n,
                    input,
                    m,
                    s1,
                    true,
                );
            lemma_count_push(s.leaves, node_leaf(n, r.cbs, s.walk), x, y);
            lemma_finish_count(fi, n, input, m, s1, x, y);
        } else {
            let limit = no_dirs(at_part_limit(n, r.bp));
            let (dm, m) = choose|dm: DirState, m: SbState| #[trigger]
                passes(dm, m) && children_run(
                    fi,
                    n,
                    input,
                    cs,
                    cs.len() as int,
                    limit,
                    s,
                    dm,
                    m,
                ) && d1 == (DirState { child: r.dir.child | dm.dir, ..r.dir }) && finish_step(
                    fi,
                    n,
                    input,
                    m,
                    s1,
                    true,
                );
            lemma_children_count_units(fi, n, input, cs, cs.len() as int, limit, s, dm, m, x, y);
            lemma_finish_count(fi, n, input, m, s1, x, y);
            lemma_parts_count(fi, n, r.cbs, r.bp, x, y);
        }
    }
}

proof fn lemma_children_count_units(
    fi: SbFrameInfo,
    n: SbNode,
    input: TileInput,
    cs: Seq<Child>,
    i: int,
    d0: DirState,
    s0: SbState,
    d1: DirState,
    s1: SbState,
    x: int,
    y: int,
)
    requires
        0 <= i <= cs.len(),
        i < 9,
        children_run(fi, n, input, cs, i, d0, s0, d1, s1),
        0 <= x < fi.bw,
        0 <= y < fi.bh,
    ensures
        luma_count(s1.leaves, x, y) == luma_count(s0.leaves, x, y) + part_count(n, cs, i, x, y),
    decreases node_area(n), b2i(n.lbs == n.cbs), i,
{
    if i > 0 {
        let c = cs[i - 1];
        let (dm, sm) = choose|dm: DirState, sm: SbState| #[trigger]
            passes(dm, sm) && children_run(fi, n, input, cs, i - 1, d0, s0, dm, sm) && child_step(
                fi,
                n,
                input,
                c,
                dm,
                sm,
                d1,
                s1,
                true,
            );
        let m = SbState { walk: walk_at(n, c, sm.walk), ..sm };
        lemma_children_count_units(fi, n, input, cs, i - 1, d0, s0, dm, sm, x, y);
        law_every_unit_is_decoded_once(fi, child_node(n, c), input, dm, m, d1, s1, x, y);
    }
}

/// The first `n` superblocks of a row decode the units that they cover.
pub proof fn lemma_superblocks_count(
    fi: SbFrameInfo,
    p: RowParams,
    hdr: FrameHeader,
    input: RowInput,
    n: int,
    s0: RowState,
    s1: RowState,
    x: int,
    y: int,
)
    requires
        frame_ok(fi),
        p.valid(fi),
        p.root_bs.w4() == fi.sb_step,
        p.root_bs.h4() == fi.sb_step,
        0 <= n <= sb_count(fi, p),
        row_run(fi, p, hdr, input, n, s0, s1),
        0 <= x < fi.bw,
        0 <= y < fi.bh,
    ensures
        luma_count(s1.sb.leaves, x, y) == luma_count(s0.sb.leaves, x, y) + b2i(
            p.tile.col_start <= x < sb_column(fi, p, n) && p.by <= y < p.by + fi.sb_step,
        ),
    decreases n,
{
    if n > 0 {
        let bx = sb_column(fi, p, n - 1);
        let m = choose|m: RowState| #[trigger]
            between_sbs(m) && row_run(fi, p, hdr, input, n - 1, s0, m) && row_sb(
                fi,
                p,
                hdr,
                input,
                bx,
                m,
                s1,
            );
        lemma_superblocks_count(fi, p, hdr, input, n - 1, s0, m, x, y);
        let u = planes_from(m.sb.sym, m.banks, m.lr, fi, p, hdr, bx, 0);
        let (b, d) = choose|b: SbState, d: DirState| #[trigger]
            within(b, d, s1.sb) && sb_begun(fi, p, bx, m, u->Some_0.0, b) && sb_run(
                fi,
                root_node(p, bx),
                input_at(input, filter_at(p, bx)),
                no_dirs(false),
                b,
                d,
                s1.sb,
                true,
            );
        law_row_starts_in_the_tile(fi, p, n - 1);
        assert(sb_column(fi, p, n) == bx + fi.sb_step) by (nonlinear_arith)
            requires
                sb_column(fi, p, n) == p.tile.col_start + n * fi.sb_step,
                bx == p.tile.col_start + (n - 1) * fi.sb_step,
        ;
        law_every_unit_is_decoded_once(
            fi,
            root_node(p, bx),
            input_at(input, filter_at(p, bx)),
            no_dirs(false),
            b,
            d,
            s1.sb,
            x,
            y,
        );
    } else {
        assert(sb_column(fi, p, n) == p.tile.col_start) by (nonlinear_arith)
            requires
                n == 0,
                sb_column(fi, p, n) == p.tile.col_start + n * fi.sb_step,
        ;
    }
}

/// Decoding a row of superblocks decodes every unit of luma of the row that
/// lies in the tile and within the frame exactly once.
pub proof fn law_row_decodes_every_unit_once(
    fi: SbFrameInfo,
    p: RowParams,
    hdr: FrameHeader,
    input: RowInput,
    s0: RowState,
    s1: RowState,
    x: int,
    y: int,
)
    requires
        frame_ok(fi),
        p.valid(fi),
        p.root_bs.w4() == fi.sb_step,
        p.root_bs.h4() == fi.sb_step,
        row_done(fi, p, hdr, input, s0, s1),
        p.tile.col_start <= x < p.tile.col_end,
        p.by <= y < p.by + fi.sb_step,
        x < fi.bw,
        y < fi.bh,
    ensures
        luma_count(s1.sb.leaves, x, y) == luma_count(s0.sb.leaves, x, y) + 1,
{
    let count = sb_count(fi, p);
    law_row_covers_the_tile(fi, p, x);
    let n = (x - p.tile.col_start) / fi.sb_step as int;
    assert((n + 1) * fi.sb_step <= count * fi.sb_step) by (nonlinear_arith)
        requires
            n + 1 <= count,
            fi.sb_step > 0,
    ;
    let m = choose|m: RowState| #[trigger]
        row_run(fi, p, hdr, input, count, s0, m) && !row_overran(m) && s1 == row_closed(m);
    lemma_superblocks_count(fi, p, hdr, input, count, s0, m, x, y);
}

} // verus!
