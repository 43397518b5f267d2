//! Decoding of a superblock: the tree of blocks, and the leaves in order.
use vstd::prelude::*;

use crate::block::{fill_u8, filled_u8};
use crate::blockdec::{block_head, Leaf};
use crate::compound::refs_valid;
use crate::decodeb::{
    decode_b, leaf_built, leaf_left, leaf_smooth, leaf_syntax, recorded, sb_level_recorded,
    steps_covered, DecodedBlock, TileInput, TileState,
};
use crate::env::BlockContext;
use crate::error::{Rav2dError, Result};
use crate::frameinfo::SbFrameInfo;
use crate::intops::b2i;
use crate::intra::is_midx;
use crate::levels::{BlockPartition, BlockSize};
use crate::msac::{MsacContext, Sym};
use crate::partition::{
    divisible, find_inherited, get_part, has_part, inherited_partition, node_read, partition_fits,
    read_node, DirState, NodeRead, SbNode,
};
use crate::sbsyntax::{ccso_index, sb_level_valid};
use crate::sbtree::{children, lemma_children_count, partition_children, Child};
use crate::segid::{rect_fits, segmaps_valid};
use crate::tables::PARTITION_LIM;

verus! {

/// Where the walk through a superblock is: the anchor of the next chroma
/// block, whether all blocks are intra blocks, and whether chroma can be
/// predicted from luma.
#[derive(Debug, Clone, Copy, PartialEq, Eq, Structural)]
pub struct Walk {
    pub cbx: i32,
    pub cby: i32,
    pub intra_region: bool,
    pub cfl_disallowed: bool,
}

/// All that decoding a superblock changes.
pub struct SbState {
    pub sym: Sym,
    pub a: BlockContext,
    pub l: BlockContext,
    pub t: TileState,
    pub walk: Walk,
    /// The partitions, as they are kept for a later pass.
    pub parts: Seq<u8>,
    pub leaves: Seq<Leaf>,
    pub blocks: Seq<DecodedBlock>,
}

/// What every tile keeps true of its state.
pub open spec fn tile_ok(fi: SbFrameInfo, t: TileState, input: TileInput) -> bool {
    &&& segmaps_valid(fi, t.segmap@, input.prev_seq())
    &&& 0 <= fi.sb128 <= 2
    &&& fi.cdef_enabled ==> 1 <= fi.cdef_n_strengths <= 100
    &&& fi.delta_q_res_log2 <= 16
    &&& 0 <= t.qidx <= 0xffff
    &&& 0 <= fi.sb256w <= 0x1_0000
    &&& input.lf_idx < t.lf@.len()
    &&& forall|i: int, j: int|
        0 <= i < t.lf@.len() && 0 <= j < 16 ==> -1 <= #[trigger] t.lf@[i].cdef_idx[j] <= 100
    &&& forall|i: int| 0 <= i < 256 ==> is_midx(#[trigger] t.dir_map[i])
    &&& t.motion.wf()
    &&& input.motion.valid()
    &&& steps_covered(fi, *input.table)
}

/// No frame is wider or higher, in units.
pub const MAX_UNITS: i32 = 0x1_0000;

/// What every frame keeps true of its parameters.
pub open spec fn frame_ok(fi: SbFrameInfo) -> bool {
    &&& divisible(fi)
    &&& refs_valid(fi)
    &&& fi.bw <= MAX_UNITS
    &&& fi.bh <= MAX_UNITS
    &&& fi.sb_step == 16 || fi.sb_step == 32 || fi.sb_step == 64
    &&& 0 <= fi.tile_col_start
    &&& 0 <= fi.tile_row_start
    &&& fi.tile_col_end <= 0x1000_0000
    &&& fi.tile_row_end <= 0x1000_0000
}

/// A block fits the arrays of contexts that it is recorded in.
pub open spec fn fits_edges(x: int, y: int, bs: BlockSize) -> bool {
    x % 64 + bs.w4() <= 64 && y % 64 + bs.h4() <= 64
}

/// A leaf lies within the frame and the tile, and all that is recorded of it
/// has its place.
pub open spec fn leaf_fits(fi: SbFrameInfo, f: Leaf, t: TileState, input: TileInput) -> bool {
    f.valid(fi) && t.valid(fi, f, input) && (recorded(fi, f) ==> f.has_luma())
}

/// Whether a rectangle fits a map of the given stride.
fn check_rect(len: usize, by: i32, bx: i32, w: i32, h: i32, stride: i32) -> (r: bool)
    requires
        0 <= bx <= 0x1000_0000,
        0 <= by <= 0x1000_0000,
        1 <= w <= 64,
        1 <= h <= 64,
        0 <= stride,
    ensures
        r == rect_fits(len as int, by as int, bx as int, w as int, h as int, stride as int),
{
    proof {
        assert(0 <= (by + h) * stride <= 0x1000_0040 * 0x8000_0000) by (nonlinear_arith)
            requires
                0 <= by + h <= 0x1000_0040,
                0 <= stride <= 0x7fff_ffff,
        ;
    }
    bx + w <= stride && (by + h) as u64 * stride as u64 <= len as u64
}

fn check_edges(x: i32, y: i32, bs: BlockSize) -> (r: bool)
    requires
        0 <= x,
        0 <= y,
        bs != BlockSize::Invalid,
    ensures
        r == fits_edges(x as int, y as int, bs),
{
    let d: [u8; 4] = bs.dim();
    x % 64 + d[0] as i32 <= 64 && y % 64 + d[1] as i32 <= 64
}

/// Whether the neighbouring filters and the maps of the area exist.
fn check_area(fi: &SbFrameInfo, f: &Leaf, t: &TileState, input: &TileInput) -> (r: bool)
    requires
        frame_ok(*fi),
        tile_ok(*fi, *t, *input),
        f.valid(*fi),
    ensures
        r == sb_level_valid(
            *fi,
            f.pos(),
            input.ccso,
            t.lf@,
            input.lf_idx as int,
            t.ccso@,
            t.qidx as int,
        ),
{
    let before: bool = f.bx - 64 >= fi.tile_col_start || (f.bx % 64 < 16 && f.bx - 16
        >= fi.tile_col_start);
    if before && input.lf_idx < 1 {
        return false;
    }
    if f.by % 64 < 16 && (f.by - f.by % 16) % fi.sb_step != 0 && fi.sb256w as usize
        > input.lf_idx {
        return false;
    }
    proof {
        assert(0 <= f.by as int / 64 * fi.sb256w <= 0x1000_0000) by (nonlinear_arith)
            requires
                0 <= f.by as int / 64 <= 0x1000,
                0 <= fi.sb256w <= 0x1_0000,
        ;
    }
    let end: usize = 3 * ((f.bx / 64 + f.by / 64 * fi.sb256w) as usize) + 3;
    assert(end == ccso_index(*fi, f.pos()) + 3);
    if t.ccso.len() > 0 && end > t.ccso.len() {
        return false;
    }
    assert(input.ccso.prev(0) == input.ccso.prev0);
    assert(input.ccso.prev(1) == input.ccso.prev1);
    assert(input.ccso.prev(2) == input.ccso.prev2);
    if let Some(m) = input.ccso.prev0 {
        if end > m.len() {
            return false;
        }
    }
    if let Some(m) = input.ccso.prev1 {
        if end > m.len() {
            return false;
        }
    }
    if let Some(m) = input.ccso.prev2 {
        if end > m.len() {
            return false;
        }
    }
    true
}

fn check_leaf(fi: &SbFrameInfo, f: &Leaf, t: &TileState, input: &TileInput) -> (r: bool)
    requires
        frame_ok(*fi),
        tile_ok(*fi, *t, *input),
    ensures
        r == leaf_fits(*fi, *f, *t, *input),
{
    let has_luma: bool = f.lbs != BlockSize::Invalid;
    let bs: BlockSize = if has_luma { f.lbs } else { f.cbs };
    if bs == BlockSize::Invalid || f.bx < 0 || f.by < 0 || f.bx >= fi.bw || f.by >= fi.bh || f.cbx
        < 0 || f.cby < 0 {
        return false;
    }
    if !check_edges(f.bx, f.by, bs) || f.bx < fi.tile_col_start || f.by < fi.tile_row_start {
        return false;
    }
    if f.cbs != BlockSize::Invalid && !check_edges(f.cbx, f.cby, f.cbs) {
        return false;
    }
    if has_luma {
        let d: [u8; 4] = bs.dim();
        let w: i32 = d[0] as i32;
        let h: i32 = d[1] as i32;
        if fi.seg_enabled && !check_rect(t.segmap.len(), f.by, f.bx, w, h, fi.b4_stride) {
            return false;
        }
        if f.bx % 16 + (if w < 16 { w } else { 16 }) > 16 || f.by % 16 + (if h < 16 {
            h
        } else {
            16
        }) > 16 {
            return false;
        }
    } else if fi.sdp && fi.has_chroma_layout && f.cbs == BlockSize::Invalid {
        return false;
    }
    if f.bx > 0x1_0000 || f.by > 0x1_0000 || f.cbx > 0x1_0000 || f.cby > 0x1_0000 {
        return false;
    }
    check_area(fi, f, t, input)
}

/// Decoding the leaf `f` takes `s0` to `s1`. A leaf that does not fit, or that
/// cannot be built, is an error.
pub open spec fn leaf_step(
    fi: SbFrameInfo,
    f: Leaf,
    input: TileInput,
    s0: SbState,
    s1: SbState,
    ok: bool,
) -> bool {
    let (x, sym) = leaf_syntax(s0.sym, fi, f, s0.a, s0.l, s0.t, input);
    let (head, hs) = block_head(s0.sym, fi, f, s0.a, s0.l, s0.t.segmap@, input.prev_seq());
    &&& s1.walk == s0.walk
    &&& s1.parts == s0.parts
    &&& if !leaf_fits(fi, f, s0.t, input) {
        !ok && s1 == s0
    } else {
        &&& sb_level_recorded(hs, fi, f, head, input, s0.t, s1.t)
        &&& if ok {
            &&& s1.leaves == s0.leaves.push(f)
            &&& s1.blocks.len() == s0.blocks.len() + 1
            &&& s1.blocks.drop_last() == s0.blocks
        } else {
            &&& s1.leaves == s0.leaves
            &&& s1.blocks == s0.blocks
        }
        &&& match x {
            None => {
                &&& !ok
                &&& s1.sym == sym
                &&& s1.a == s0.a
                &&& s1.l == s0.l
                &&& s1.t.segmap@ == s0.t.segmap@
                &&& s1.t.dir_map == s0.t.dir_map
                &&& s1.t.fsc_map == s0.t.fsc_map
                &&& s1.t.motion == s0.t.motion
                &&& s1.t.warp == s0.t.warp
            },
            Some(x) => {
                &&& x.valid()
                &&& leaf_left(fi, f, x, s0.a, s1.a, s0.l, s1.l, s0.t, s1.t)
                &&& leaf_built(
                    fi,
                    f,
                    x,
                    leaf_smooth(f, x.head.from_edges(), s0.a, s0.l),
                    input,
                    s0.t,
                    s1.t,
                    sym,
                    s1.sym,
                    if ok {
                        Some(s1.blocks.last())
                    } else {
                        None
                    },
                )
            },
        }
    }
}

/// How finely a block was divided, as later blocks see it along one edge: the
/// `n` places from `off` on, of both plane types or of one.
pub open spec fn division_marked(
    before: BlockContext,
    after: BlockContext,
    both: bool,
    pl: int,
    off: int,
    n: int,
) -> bool {
    let v = (256 - n) as u8;
    &&& after == (BlockContext { partition: after.partition, ..before })
    &&& forall|p: int|
        0 <= p < 2 ==> if both || p == pl {
            filled_u8(#[trigger] before.partition[p], after.partition[p], off, n, v)
        } else {
            after.partition[p] == before.partition[p]
        }
}

/// The leaf of an undivided block.
pub open spec fn node_leaf(n: SbNode, cbs: BlockSize, w: Walk) -> Leaf {
    Leaf {
        bx: n.bx,
        by: n.by,
        cbx: w.cbx,
        cby: w.cby,
        lbs: n.lbs,
        cbs,
        intra_region: w.intra_region,
        cfl_disallowed: w.cfl_disallowed,
    }
}

/// Decoding an undivided block takes `s0` to `s1`.
pub open spec fn whole_step(
    fi: SbFrameInfo,
    n: SbNode,
    cbs: BlockSize,
    input: TileInput,
    s0: SbState,
    s1: SbState,
    ok: bool,
) -> bool {
    if ok {
        exists|m: SbState| #[trigger]
            leaf_step(fi, node_leaf(n, cbs, s0.walk), input, s0, m, true) && {
                let both = cbs != BlockSize::Invalid && n.lbs != BlockSize::Invalid;
                let pl = b2i(n.chroma_only());
                &&& division_marked(m.a, s1.a, both, pl, n.bx as int % 64, n.w4())
                &&& division_marked(m.l, s1.l, both, pl, n.by as int % 64, n.h4())
                &&& s1 == (SbState { a: s1.a, l: s1.l, ..m })
            }
    } else {
        leaf_step(fi, node_leaf(n, cbs, s0.walk), input, s0, s1, false)
    }
}

/// Luma and chroma of a 64x64 block of an intra frame are divided apart.
pub open spec fn divided_apart(fi: SbFrameInfo, n: SbNode) -> bool {
    n.lbs == BlockSize::Bs64x64 && n.cbs == BlockSize::Bs64x64 && fi.sdp && !fi.is_inter_or_switch
}

/// Nothing is remembered of directions yet.
pub open spec fn no_dirs(at_limit: bool) -> DirState {
    DirState { dir: 0, part: 0, child: 0, at_limit }
}

/// The area of a block.
pub open spec fn node_area(n: SbNode) -> int {
    n.w4() * n.h4()
}

/// The block of part `c`.
pub open spec fn child_node(n: SbNode, c: Child) -> SbNode {
    SbNode { bx: (n.bx + c.dx) as i32, by: (n.by + c.dy) as i32, lbs: c.lbs, cbs: c.cbs }
}

/// A part can be decoded on its own: it has a size, and it is smaller than
/// the block that it is a part of.
pub open spec fn child_fits(fi: SbFrameInfo, n: SbNode, c: Child) -> bool {
    let k = child_node(n, c);
    0 <= c.dx <= 64 && 0 <= c.dy <= 64 && k.valid(fi) && 0 <= node_area(k) < node_area(n)
}

/// The pair is one that decoding passes through.
pub open spec fn passes(d: DirState, s: SbState) -> bool {
    true
}

/// Decoding stops at part `i` with `d1` remembered.
pub open spec fn stops(i: int, d: DirState, s: SbState, d1: DirState) -> bool {
    true
}

/// The walk at part `c`: the chroma anchor moves where the part says so.
pub open spec fn walk_at(n: SbNode, c: Child, w: Walk) -> Walk {
    Walk {
        cbx: if c.anchor_x { child_node(n, c).bx } else { w.cbx },
        cby: if c.anchor_y { child_node(n, c).by } else { w.cby },
        ..w
    }
}

/// Whether the block is too small for its parts to choose a region type.
pub open spec fn at_part_limit(n: SbNode, bp: BlockPartition) -> bool {
    n.w4() <= PARTITION_LIM[bp as int][0] || n.h4() <= PARTITION_LIM[bp as int][1]
}

/// The partition that chroma takes over from luma, if any, exists for its
/// size.
pub open spec fn division_fits(n: SbNode, d: DirState) -> bool {
    inherited_partition(n, d) matches Some(p) ==> partition_fits(n.bs(), p.0)
}

/// Four quarters lie within the frame and have luma and chroma.
pub open spec fn split_fits(fi: SbFrameInfo, n: SbNode, cbs: BlockSize) -> bool {
    n.have_h(fi) && n.have_v(fi) && cbs == n.lbs
}

/// Decoding part `c` takes `s0` to `s1` and the memory of directions from
/// `d0` to `d1`.
pub open spec fn child_step(
    fi: SbFrameInfo,
    n: SbNode,
    input: TileInput,
    c: Child,
    d0: DirState,
    s0: SbState,
    d1: DirState,
    s1: SbState,
    ok: bool,
) -> bool
    decreases node_area(n), b2i(n.lbs == n.cbs), 0int,
{
    let m = SbState { walk: walk_at(n, c, s0.walk), ..s0 };
    if !child_fits(fi, n, c) {
        !ok && d1 == d0 && s1 == s0
    } else {
        sb_run(fi, child_node(n, c), input, d0, m, d1, s1, ok)
    }
}

/// Decoding the first `i` parts takes `s0` to `s1`.
pub open spec fn children_run(
    fi: SbFrameInfo,
    n: SbNode,
    input: TileInput,
    cs: Seq<Child>,
    i: int,
    d0: DirState,
    s0: SbState,
    d1: DirState,
    s1: SbState,
) -> bool
    decreases node_area(n), b2i(n.lbs == n.cbs), i,
{
    if i <= 0 {
        d1 == d0 && s1 == s0
    } else {
        exists|dm: DirState, sm: SbState| #[trigger]
            passes(dm, sm) && children_run(fi, n, input, cs, i - 1, d0, s0, dm, sm) && child_step(
                fi,
                n,
                input,
                cs[i - 1],
                dm,
                sm,
                d1,
                s1,
                true,
            )
    }
}

/// Decoding all parts fails at one of them.
pub open spec fn children_fail(
    fi: SbFrameInfo,
    n: SbNode,
    input: TileInput,
    cs: Seq<Child>,
    d0: DirState,
    s0: SbState,
    s1: SbState,
) -> bool
    decreases node_area(n), b2i(n.lbs == n.cbs), 9int,
{
    exists|i: int, dm: DirState, sm: SbState, d1: DirState|
        0 <= i < cs.len() && i < 9 && #[trigger] stops(i, dm, sm, d1) && children_run(
            fi,
            n,
            input,
            cs,
            i,
            d0,
            s0,
            dm,
            sm,
        ) && child_step(fi, n, input, cs[i], dm, sm, d1, s1, false)
}

/// The state once the partition of a block is known.
pub open spec fn node_entered(
    fi: SbFrameInfo,
    n: SbNode,
    r: NodeRead,
    sym: Sym,
    s: SbState,
) -> SbState {
    let anchored = n.bs() == r.cbs;
    SbState {
        sym,
        walk: Walk {
            cbx: if anchored { n.bx } else { s.walk.cbx },
            cby: if anchored { n.by } else { s.walk.cby },
            intra_region: r.intra_region,
            cfl_disallowed: r.sdp_cfl_disallowed,
        },
        parts: if fi.n_passes > 1 { s.parts.push(r.stored) } else { s.parts },
        ..s
    }
}

/// The chroma block that follows the intra blocks of a region.
pub open spec fn region_chroma(n: SbNode, w: Walk) -> Leaf {
    Leaf {
        bx: n.bx,
        by: n.by,
        cbx: n.bx,
        cby: n.by,
        lbs: BlockSize::Invalid,
        cbs: n.cbs,
        intra_region: true,
        cfl_disallowed: w.cfl_disallowed,
    }
}

/// Decoding what is left of a block after its parts takes `s0` to `s1`: the
/// chroma of a region of intra blocks.
pub open spec fn finish_step(
    fi: SbFrameInfo,
    n: SbNode,
    input: TileInput,
    s0: SbState,
    s1: SbState,
    ok: bool,
) -> bool {
    if s0.walk.intra_region && n.cbs != BlockSize::Invalid {
        let m = SbState { walk: Walk { cbx: n.bx, cby: n.by, ..s0.walk }, ..s0 };
        if ok {
            exists|e: SbState| #[trigger]
                leaf_step(fi, region_chroma(n, s0.walk), input, m, e, true) && s1 == (SbState {
                    walk: Walk { intra_region: false, ..e.walk },
                    ..e
                })
        } else {
            leaf_step(fi, region_chroma(n, s0.walk), input, m, s1, false)
        }
    } else {
        ok && s1 == s0
    }
}

/// Decoding the block `n` with all its parts takes `s0` to `s1` and the
/// memory of directions from `d0` to `d1`.
pub open spec fn sb_run(
    fi: SbFrameInfo,
    n: SbNode,
    input: TileInput,
    d0: DirState,
    s0: SbState,
    d1: DirState,
    s1: SbState,
    ok: bool,
) -> bool
    decreases node_area(n), b2i(n.lbs == n.cbs), 10int,
{
    if divided_apart(fi, n) {
        let luma = SbNode { cbs: BlockSize::Invalid, ..n };
        let chroma = SbNode { lbs: BlockSize::Invalid, ..n };
        &&& d1 == d0
        &&& {
            ||| !ok && exists|dm: DirState| #[trigger]
                passes(dm, s1) && sb_run(fi, luma, input, no_dirs(false), s0, dm, s1, false)
            ||| exists|dm: DirState, sm: SbState, de: DirState| #[trigger]
                stops(0, dm, sm, de) && sb_run(
                    fi,
                    luma,
                    input,
                    no_dirs(false),
                    s0,
                    dm,
                    sm,
                    true,
                ) && sb_run(
                    fi,
                    chroma,
                    input,
                    dm,
                    sm,
                    de,
                    s1,
                    ok,
                )
        }
    } else if !division_fits(n, d0) {
        !ok && d1 == d0 && s1 == s0
    } else {
        let (r, sym) = node_read(
            s0.sym,
            fi,
            n,
            s0.walk.intra_region,
            s0.walk.cfl_disallowed,
            d0,
        );
        let s = node_entered(fi, n, r, sym, s0);
        let cs = children(fi, n, r.cbs, r.bp);
        let limit = no_dirs(at_part_limit(n, r.bp));
        if !partition_fits(n.bs(), r.bp) || r.bp == BlockPartition::Split && !split_fits(
            fi,
            n,
            r.cbs,
        ) {
            !ok && d1 == r.dir && s1 == s
        } else if r.bp == BlockPartition::Whole {
            &&& d1 == r.dir
            &&& if ok {
                exists|m: SbState| #[trigger]
                    whole_step(fi, n, r.cbs, input, s, m, true) && finish_step(
                        fi,
                        n,
                        input,
                        m,
                        s1,
                        true,
                    )
            } else {
                ||| whole_step(fi, n, r.cbs, input, s, s1, false)
                ||| exists|m: SbState| #[trigger]
                    whole_step(fi, n, r.cbs, input, s, m, true) && finish_step(
                        fi,
                        n,
                        input,
                        m,
                        s1,
                        false,
                    )
            }
        } else if ok {
            cs.len() < 9 && exists|dm: DirState, m: SbState| #[trigger]
                passes(dm, m) && children_run(fi, n, input, cs, cs.len() as int, limit, s, dm, m) && d1 == (DirState {
                    child: r.dir.child | dm.dir,
                    ..r.dir
                }) && finish_step(fi, n, input, m, s1, true)
        } else {
            ||| d1 == r.dir && children_fail(fi, n, input, cs, limit, s, s1)
            ||| cs.len() < 9 && exists|dm: DirState, m: SbState| #[trigger]
                passes(dm, m) && children_run(fi, n, input, cs, cs.len() as int, limit, s, dm, m) && d1 == (DirState {
                    child: r.dir.child | dm.dir,
                    ..r.dir
                }) && finish_step(fi, n, input, m, s1, false)
        }
    }
}

/// A superblock that is being decoded.
pub struct SbContext {
    pub a: BlockContext,
    pub l: BlockContext,
    pub t: TileState,
    pub msac: MsacContext,
    pub walk: Walk,
    pub parts: Vec<u8>,
    pub leaves: Vec<Leaf>,
    pub blocks: Vec<DecodedBlock>,
}

impl View for SbContext {
    type V = SbState;

    open spec fn view(&self) -> SbState {
        SbState {
            sym: self.msac@,
            a: self.a,
            l: self.l,
            t: self.t,
            walk: self.walk,
            parts: self.parts@,
            leaves: self.leaves@,
            blocks: self.blocks@,
        }
    }
}

impl SbContext {
    pub open spec fn ok(self, fi: SbFrameInfo, input: TileInput) -> bool {
        self.a.wf() && self.l.wf() && tile_ok(fi, self.t, input)
    }
}

/// Strengths lie below their number.
proof fn lemma_cdef_index_range(s: Sym, n: int, left: int, top: int)
    requires
        1 <= n <= 100,
    ensures
        0 <= crate::sbsyntax::cdef_index(s, n, left, top).0 < n,
{
}

/// Decoding a leaf keeps what every tile keeps true.
proof fn lemma_leaf_keeps_tile(
    fi: SbFrameInfo,
    f: Leaf,
    input: TileInput,
    s0: SbState,
    s1: SbState,
    ok: bool,
)
    requires
        frame_ok(fi),
        tile_ok(fi, s0.t, input),
        leaf_step(fi, f, input, s0, s1, ok),
        s1.t.motion.wf(),
    ensures
        tile_ok(fi, s1.t, input),
{
    if leaf_fits(fi, f, s0.t, input) {
        let (head, hs) = block_head(s0.sym, fi, f, s0.a, s0.l, s0.t.segmap@, input.prev_seq());
        let b = crate::decodeb::sb_block(f, head);
        let lf = s0.t.lf@;
        let i = input.lf_idx as int;
        if fi.cdef_enabled {
            lemma_cdef_index_range(
                crate::sbsyntax::after_gdf(hs, fi, b),
                fi.cdef_n_strengths as int,
                crate::sbsyntax::cdef_left(fi, b.pos, lf, i),
                crate::sbsyntax::cdef_top(fi, b.pos, lf, i),
            );
        }
        assert forall|k: int, j: int| 0 <= k < s1.t.lf@.len() && 0 <= j < 16 implies -1
            <= #[trigger] s1.t.lf@[k].cdef_idx[j] <= 100 by {
            if k != i {
                assert(s1.t.lf@[k] == lf[k]);
            }
        }
        if let Some(x) = leaf_syntax(s0.sym, fi, f, s0.a, s0.l, s0.t, input).0 {
            if fi.seg_enabled && f.has_luma() {
                let off = f.by * fi.b4_stride + f.bx;
                let stride = fi.b4_stride as int;
                let (w, h) = (f.lbs.w4(), f.lbs.h4());
                assert forall|k: int| 0 <= k < s1.t.segmap@.len() implies s1.t.segmap@[k] < 16 by {
                    if exists|y: int, x: int|
                        0 <= y < h && 0 <= x < w && k == #[trigger] crate::segid::map_index(
                            off,
                            stride,
                            y,
                            x,
                        ) {
                        let (y, x) = choose|y: int, x: int|
                            0 <= y < h && 0 <= x < w && k == #[trigger] crate::segid::map_index(
                                off,
                                stride,
                                y,
                                x,
                            );
                        assert(s1.t.segmap@[crate::segid::map_index(off, stride, y, x)] < 16);
                    } else {
                        assert(s1.t.segmap@[k] == s0.t.segmap@[k]);
                    }
                }
            }
        }
    }
}

fn run_leaf(fi: &SbFrameInfo, f: &Leaf, input: &TileInput, c: &mut SbContext) -> (r: bool)
    requires
        frame_ok(*fi),
        old(c).ok(*fi, *input),
    ensures
        leaf_step(*fi, *f, *input, old(c)@, final(c)@, r),
        final(c).ok(*fi, *input),
{
    let ghost s0 = c@;
    if !check_leaf(fi, f, &c.t, input) {
        return false;
    }
    let res: Result<DecodedBlock> = decode_b(
        fi,
        f,
        &mut c.a,
        &mut c.l,
        &mut c.t,
        input,
        &mut c.msac,
    );
    match res {
        Ok(b) => {
            c.leaves.push(*f);
            c.blocks.push(b);
            proof {
                assert(c@.blocks.drop_last() =~= s0.blocks);
                lemma_leaf_keeps_tile(*fi, *f, *input, s0, c@, true);
            }
            true
        },
        Err(_) => {
            proof {
                lemma_leaf_keeps_tile(*fi, *f, *input, s0, c@, false);
            }
            false
        },
    }
}

/// Marks how finely a block was divided along one edge.
fn mark_division(ctx: &mut BlockContext, both: bool, pl: usize, off: usize, n: usize)
    requires
        pl < 2,
        1 <= n,
        off + n <= 64,
    ensures
        division_marked(*old(ctx), *final(ctx), both, pl as int, off as int, n as int),
        old(ctx).wf() ==> final(ctx).wf(),
{
    let v: u8 = (256 - n) as u8;
    if both || pl == 0 {
        fill_u8(&mut ctx.partition[0], off, n, v);
    }
    if both || pl == 1 {
        fill_u8(&mut ctx.partition[1], off, n, v);
    }
}

fn run_whole(fi: &SbFrameInfo, n: &SbNode, cbs: BlockSize, input: &TileInput, c: &mut SbContext) -> (r:
    bool)
    requires
        frame_ok(*fi),
        old(c).ok(*fi, *input),
        n.valid(*fi),
        cbs == n.cbs || cbs == BlockSize::Invalid,
    ensures
        whole_step(*fi, *n, cbs, *input, old(c)@, final(c)@, r),
        final(c).ok(*fi, *input),
{
    let f: Leaf = Leaf {
        bx: n.bx,
        by: n.by,
        cbx: c.walk.cbx,
        cby: c.walk.cby,
        lbs: n.lbs,
        cbs,
        intra_region: c.walk.intra_region,
        cfl_disallowed: c.walk.cfl_disallowed,
    };
    if !run_leaf(fi, &f, input, c) {
        return false;
    }
    let ghost m = c@;
    let d: [u8; 4] = n.size().dim();
    let both: bool = cbs != BlockSize::Invalid && n.lbs != BlockSize::Invalid;
    let pl: usize = if n.lbs == BlockSize::Invalid { 1 } else { 0 };
    proof {
        assert(leaf_step(*fi, node_leaf(*n, cbs, old(c)@.walk), *input, old(c)@, m, true));
    }
    let bx4: usize = (n.bx % 64) as usize;
    let by4: usize = (n.by % 64) as usize;
    mark_division(&mut c.a, both, pl, bx4, d[0] as usize);
    mark_division(&mut c.l, both, pl, by4, d[1] as usize);
    true
}

fn run_finish(fi: &SbFrameInfo, n: &SbNode, input: &TileInput, c: &mut SbContext) -> (r: bool)
    requires
        frame_ok(*fi),
        old(c).ok(*fi, *input),
    ensures
        finish_step(*fi, *n, *input, old(c)@, final(c)@, r),
        final(c).ok(*fi, *input),
{
    if !c.walk.intra_region || n.cbs == BlockSize::Invalid {
        return true;
    }
    c.walk.cbx = n.bx;
    c.walk.cby = n.by;
    let f: Leaf = Leaf {
        bx: n.bx,
        by: n.by,
        cbx: n.bx,
        cby: n.by,
        lbs: BlockSize::Invalid,
        cbs: n.cbs,
        intra_region: true,
        cfl_disallowed: c.walk.cfl_disallowed,
    };
    let ghost m = c@;
    if !run_leaf(fi, &f, input, c) {
        return false;
    }
    proof {
        assert(leaf_step(*fi, region_chroma(*n, old(c)@.walk), *input, m, c@, true));
    }
    c.walk.intra_region = false;
    true
}

/// Whether the part can be decoded on its own.
pub fn check_child(fi: &SbFrameInfo, n: &SbNode, c: &Child) -> (r: Option<SbNode>)
    requires
        frame_ok(*fi),
        n.valid(*fi),
    ensures
        r is Some == child_fits(*fi, *n, *c),
        r matches Some(k) ==> k == child_node(*n, *c),
{
    if c.dx < 0 || c.dx > 64 || c.dy < 0 || c.dy > 64 {
        return None;
    }
    let k: SbNode = SbNode { bx: n.bx + c.dx, by: n.by + c.dy, lbs: c.lbs, cbs: c.cbs };
    let bs: BlockSize = k.size();
    if bs == BlockSize::Invalid || k.bx > 0x1000_0000 || k.by > 0x1000_0000 {
        return None;
    }
    let d: [u8; 4] = bs.dim();
    assert(crate::intops::p2(0) == 1 && crate::intops::p2(1) == 2);
    if k.lbs == BlockSize::Invalid {
        if (fi.ss_hor == 1 && d[0] < 2) || (fi.ss_ver == 1 && d[1] < 2) {
            return None;
        }
    }
    if bs.area() < n.size().area() { Some(k) } else { None }
}

fn has_size(bs: BlockSize, d: usize, k: usize) -> (r: bool)
    requires
        bs != BlockSize::Invalid,
        d < 2,
        k < 4,
    ensures
        r == has_part(bs, d as int, k as int),
{
    get_part(bs, d, k) != BlockSize::Invalid
}

/// Whether the partition exists for the size of the block.
pub fn check_partition(bs: BlockSize, bp: BlockPartition) -> (r: bool)
    requires
        bs != BlockSize::Invalid,
    ensures
        r == partition_fits(bs, bp),
{
    match bp {
        BlockPartition::Whole => true,
        BlockPartition::H => has_size(bs, 0, 0),
        BlockPartition::V => has_size(bs, 1, 0),
        BlockPartition::H3 => has_size(bs, 0, 1) && has_size(bs, 0, 3),
        BlockPartition::V3 => has_size(bs, 1, 1) && has_size(bs, 1, 3),
        BlockPartition::H4A | BlockPartition::H4B => has_size(bs, 0, 0) && has_size(bs, 0, 1)
            && has_size(bs, 0, 2),
        BlockPartition::V4A | BlockPartition::V4B => has_size(bs, 1, 0) && has_size(bs, 1, 1)
            && has_size(bs, 1, 2),
        BlockPartition::Split => has_size(bs, 0, 3),
        BlockPartition::Invalid => false,
    }
}

fn check_division(n: &SbNode, d: &DirState) -> (r: bool)
    requires
        n.bs() != BlockSize::Invalid,
    ensures
        r == division_fits(*n, *d),
{
    match find_inherited(n, d) {
        Some(p) => check_partition(n.size(), p.bp),
        None => true,
    }
}

/// A context in which no direction is remembered yet.
fn new_dirs(at_limit: bool) -> (r: DirState)
    ensures
        r == no_dirs(at_limit),
{
    DirState { dir: 0, part: 0, child: 0, at_limit }
}

/// Decodes a part of a block.
fn run_child(
    fi: &SbFrameInfo,
    n: &SbNode,
    input: &TileInput,
    part: &Child,
    dir: &mut DirState,
    c: &mut SbContext,
) -> (r: bool)
    requires
        frame_ok(*fi),
        old(c).ok(*fi, *input),
        n.valid(*fi),
    ensures
        child_step(*fi, *n, *input, *part, *old(dir), old(c)@, *final(dir), final(c)@, r),
        final(c).ok(*fi, *input),
    decreases node_area(*n), b2i(n.lbs == n.cbs), 0int,
{
    let ghost s0 = c@;
    match check_child(fi, n, part) {
        None => false,
        Some(k) => {
            if part.anchor_x {
                c.walk.cbx = k.bx;
            }
            if part.anchor_y {
                c.walk.cby = k.by;
            }
            assert(c@ == (SbState { walk: walk_at(*n, *part, s0.walk), ..s0 }));
            run_sb(fi, &k, input, dir, c)
        },
    }
}

/// Decodes the parts of a block in order.
fn run_children(
    fi: &SbFrameInfo,
    n: &SbNode,
    input: &TileInput,
    cs: &Vec<Child>,
    dir: &mut DirState,
    c: &mut SbContext,
) -> (r: bool)
    requires
        frame_ok(*fi),
        old(c).ok(*fi, *input),
        n.valid(*fi),
        cs@.len() <= 4,
    ensures
        r ==> children_run(
            *fi,
            *n,
            *input,
            cs@,
            cs@.len() as int,
            *old(dir),
            old(c)@,
            *final(dir),
            final(c)@,
        ),
        !r ==> children_fail(*fi, *n, *input, cs@, *old(dir), old(c)@, final(c)@),
        final(c).ok(*fi, *input),
    decreases node_area(*n), b2i(n.lbs == n.cbs), 9int,
{
    let ghost s0 = c@;
    let ghost d0 = *dir;
    let mut i: usize = 0;
    while i < cs.len()
        invariant
            frame_ok(*fi),
            c.ok(*fi, *input),
            n.valid(*fi),
            cs@.len() <= 4,
            i <= cs@.len(),
            children_run(*fi, *n, *input, cs@, i as int, d0, s0, *dir, c@),
            s0 == old(c)@,
            d0 == *old(dir),
        decreases cs@.len() - i,
    {
        let ghost sm = c@;
        let ghost dm = *dir;
        let part: Child = cs[i];
        if !run_child(fi, n, input, &part, dir, c) {
            proof {
                assert(stops(i as int, dm, sm, *dir));
            }
            return false;
        }
        proof {
            assert(passes(dm, sm));
            assert(children_run(*fi, *n, *input, cs@, i + 1, d0, s0, *dir, c@));
        }
        i = i + 1;
    }
    true
}

/// Decodes a block with all its parts.
#[verifier::rlimit(40)]
fn run_sb(
    fi: &SbFrameInfo,
    n: &SbNode,
    input: &TileInput,
    dir: &mut DirState,
    c: &mut SbContext,
) -> (r: bool)
    requires
        frame_ok(*fi),
        old(c).ok(*fi, *input),
        n.valid(*fi),
    ensures
        sb_run(*fi, *n, *input, *old(dir), old(c)@, *final(dir), final(c)@, r),
        final(c).ok(*fi, *input),
    decreases node_area(*n), b2i(n.lbs == n.cbs), 10int,
{
    let ghost s0 = c@;
    let ghost d0 = *dir;
    if n.lbs == BlockSize::Bs64x64 && n.cbs == BlockSize::Bs64x64 && fi.sdp
        && !fi.is_inter_or_switch {
        let luma: SbNode = SbNode { bx: n.bx, by: n.by, lbs: n.lbs, cbs: BlockSize::Invalid };
        let chroma: SbNode = SbNode { bx: n.bx, by: n.by, lbs: BlockSize::Invalid, cbs: n.cbs };
        proof {
            lemma_chroma_64_valid(*fi, chroma);
        }
        let mut own: DirState = new_dirs(false);
        if !run_sb(fi, &luma, input, &mut own, c) {
            assert(passes(own, c@));
            return false;
        }
        let ghost dm = own;
        let ghost sm = c@;
        let done: bool = run_sb(fi, &chroma, input, &mut own, c);
        assert(stops(0, dm, sm, own));
        return done;
    }
    if !check_division(n, dir) {
        return false;
    }
    let node: NodeRead = read_node(
        fi,
        n,
        c.walk.intra_region,
        c.walk.cfl_disallowed,
        dir,
        &mut c.msac,
    );
    let ghost sym = c.msac@;
    c.walk.intra_region = node.intra_region;
    c.walk.cfl_disallowed = node.sdp_cfl_disallowed;
    if n.size() == node.cbs {
        c.walk.cbx = n.bx;
        c.walk.cby = n.by;
    }
    if fi.n_passes > 1 {
        c.parts.push(node.stored);
    }
    *dir = node.dir;
    let ghost s = c@;
    assert(s == node_entered(*fi, *n, node, sym, s0));
    let d: [u8; 4] = n.size().dim();
    if node.bp == BlockPartition::Split && !(fi.bw > n.bx + d[0] as i32 / 2 && fi.bh > n.by
        + d[1] as i32 / 2 && node.cbs == n.lbs) {
        return false;
    }
    if node.bp == BlockPartition::Whole {
        if !run_whole(fi, n, node.cbs, input, c) {
            return false;
        }
        let ghost m = c@;
        let done: bool = run_finish(fi, n, input, c);
        assert(whole_step(*fi, *n, node.cbs, *input, s, m, true));
        return done;
    }
    let lim: [u8; 2] = PARTITION_LIM[node.bp as usize];
    let at_limit: bool = d[0] <= lim[0] || d[1] <= lim[1];
    let mut own: DirState = new_dirs(at_limit);
    let cs: Vec<Child> = partition_children(fi, n, node.cbs, node.bp);
    proof {
        lemma_children_count(*fi, *n, node.cbs, node.bp);
    }
    if !run_children(fi, n, input, &cs, &mut own, c) {
        return false;
    }
    let ghost m = c@;
    dir.child = dir.child | own.dir;
    let done: bool = run_finish(fi, n, input, c);
    assert(passes(own, m));
    done
}

/// A 64x64 chroma block has at least one unit in either plane direction.
pub proof fn lemma_chroma_64_valid(fi: SbFrameInfo, n: SbNode)
    requires
        divisible(fi),
        n.cbs == BlockSize::Bs64x64,
        0 <= n.bx <= 0x1000_0000,
        0 <= n.by <= 0x1000_0000,
        n.chroma_only(),
    ensures
        n.valid(fi),
{
    reveal(BlockSize::w4);
    reveal(BlockSize::h4);
    assert(crate::intops::p2(0) == 1 && crate::intops::p2(1) == 2);
    assert(BlockSize::Bs64x64.w4() == 16 && BlockSize::Bs64x64.h4() == 16);
    assert(fi.ss_hor == 0 || fi.ss_hor == 1);
    assert(fi.ss_ver == 0 || fi.ss_ver == 1);
}

/// Decodes the superblock `n`, which lies within the frame at least in part:
/// its partitions, its leaves and all that they leave behind.
pub fn decode_sb(
    fi: &SbFrameInfo,
    n: &SbNode,
    input: &TileInput,
    dir: &mut DirState,
    c: &mut SbContext,
) -> (r: Result<()>)
    requires
        frame_ok(*fi),
        old(c).ok(*fi, *input),
        n.valid(*fi),
    ensures
        sb_run(*fi, *n, *input, *old(dir), old(c)@, *final(dir), final(c)@, r is Ok),
        r is Err ==> r == Err::<(), Rav2dError>(Rav2dError::InvalidData),
        final(c).ok(*fi, *input),
{
    if run_sb(fi, n, input, dir, c) { Ok(()) } else { Err(Rav2dError::InvalidData) }
}

/// A part lies at its offset from the block, and moves the chroma anchor there
/// where it says so.
pub proof fn law_parts_lie_at_their_offset(n: SbNode, c: Child, w: Walk)
    requires
        0 <= n.bx <= 0x1000_0000,
        0 <= n.by <= 0x1000_0000,
        0 <= c.dx <= 64,
        0 <= c.dy <= 64,
    ensures
        child_node(n, c).bx == n.bx + c.dx,
        child_node(n, c).by == n.by + c.dy,
        c.anchor_x ==> walk_at(n, c, w).cbx == n.bx + c.dx,
        c.anchor_y ==> walk_at(n, c, w).cby == n.by + c.dy,
        !c.anchor_x ==> walk_at(n, c, w).cbx == w.cbx,
        !c.anchor_y ==> walk_at(n, c, w).cby == w.cby,
{
}

/// An undivided block is decoded where it lies, with chroma at the anchor.
pub proof fn law_undivided_block_is_one_leaf(n: SbNode, cbs: BlockSize, w: Walk)
    ensures
        ({
            let f = node_leaf(n, cbs, w);
            let r = region_chroma(n, w);
            &&& f.bx == n.bx && f.by == n.by && f.cbx == w.cbx && f.cby == w.cby
            &&& f.lbs == n.lbs && f.cbs == cbs && f.intra_region == w.intra_region
            &&& r.cbx == n.bx && r.cby == n.by && r.cbs == n.cbs && !r.has_luma() && r.intra_region
        }),
{
}

/// Blocks that have been divided further leave larger marks: what a block of
/// `n` units marks has its upper bits set down to the one that stands for its
/// size.
pub proof fn law_division_marks_tell_the_size(
    before: BlockContext,
    after: BlockContext,
    both: bool,
    pl: int,
    off: int,
    n: int,
    p: int,
    i: int,
)
    requires
        division_marked(before, after, both, pl, off, n),
        0 <= p < 2,
        0 <= i < 64,
        1 <= n <= 64,
    ensures
        (both || p == pl) && off <= i < off + n ==> after.partition[p][i] + n == 256,
        !(both || p == pl) || !(off <= i < off + n) ==> after.partition[p][i]
            == before.partition[p][i],
        after.mode == before.mode && after.skip_txfm == before.skip_txfm,
{
    assert(filled_u8(before.partition[p], after.partition[p], off, n, (256 - n) as u8)
        || after.partition[p] == before.partition[p]);
    assert(after.partition[p]@[i] == after.partition[p][i]);
    assert(before.partition[p]@[i] == before.partition[p][i]);
}

} // verus!
