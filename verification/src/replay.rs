//! The second pass over a superblock: its leaves, from the partitions that the
//! first pass kept.
use vstd::prelude::*;

use crate::blockdec::Leaf;
use crate::decodeb::TileInput;
use crate::frameinfo::SbFrameInfo;
use crate::intops::b2i;
use crate::levels::{BlockPartition, BlockSize};
use crate::partition::{node_read, partition_fits, partition_of, DirState, SbNode};
use crate::sbdec::{
    check_child, check_partition, child_fits, child_node, child_step, children_run, divided_apart,
    finish_step, leaf_step, lemma_chroma_64_valid, no_dirs, node_area, node_entered, node_leaf, passes, region_chroma,
    sb_run, split_fits, stops, walk_at, whole_step, frame_ok, SbState, Walk,
};
use crate::sbtree::{
    children, lemma_children_count, lemma_no_chroma_parts, partition_children, Child,
};

verus! {

/// The walk once the kept partition of a block is known.
pub open spec fn walk_entered(n: SbNode, cbs: BlockSize, region: bool, w: Walk) -> Walk {
    let anchored = n.bs() == cbs;
    Walk {
        cbx: if anchored { n.bx } else { w.cbx },
        cby: if anchored { n.by } else { w.cby },
        intra_region: w.intra_region || region,
        ..w
    }
}

/// The leaves of a block in order, the walk after them, and how many
/// partitions were used up, given the kept partitions from place `k` on. There
/// is no result where the partitions run out or cannot be carried out.
pub open spec fn replay(fi: SbFrameInfo, n: SbNode, w: Walk, parts: Seq<u8>, k: int) -> Option<
    (Seq<Leaf>, Walk, int),
>
    decreases node_area(n), b2i(n.lbs == n.cbs), 10int,
{
    if divided_apart(fi, n) {
        match replay(fi, SbNode { cbs: BlockSize::Invalid, ..n }, w, parts, k) {
            None => None,
            Some((l1, w1, k1)) => match replay(
                fi,
                SbNode { lbs: BlockSize::Invalid, ..n },
                w1,
                parts,
                k1,
            ) {
                None => None,
                Some((l2, w2, k2)) => Some((l1 + l2, w2, k2)),
            },
        }
    } else if k < 0 || k >= parts.len() {
        None
    } else {
        let region = parts[k] >= 128;
        let bp = partition_of(parts[k] as int % 128);
        let cbs = if region { BlockSize::Invalid } else { n.cbs };
        let w1 = walk_entered(n, cbs, region, w);
        if !partition_fits(n.bs(), bp) || (bp == BlockPartition::Split && !split_fits(fi, n, cbs)) {
            None
        } else {
            let cs = children(fi, n, cbs, bp);
            let parted = if bp == BlockPartition::Whole {
                Some((seq![node_leaf(n, cbs, w1)], w1, k + 1))
            } else if cs.len() < 9 {
                replay_children(fi, n, cs, cs.len() as int, w1, parts, k + 1)
            } else {
                None
            };
            match parted {
                None => None,
                Some((l2, w2, k2)) => if w2.intra_region && n.cbs != BlockSize::Invalid {
                    Some(
                        (
                            l2.push(region_chroma(n, w2)),
                            Walk { cbx: n.bx, cby: n.by, intra_region: false, ..w2 },
                            k2,
                        ),
                    )
                } else {
                    Some((l2, w2, k2))
                },
            }
        }
    }
}

/// The leaves of the first `i` parts of a block.
pub open spec fn replay_children(
    fi: SbFrameInfo,
    n: SbNode,
    cs: Seq<Child>,
    i: int,
    w: Walk,
    parts: Seq<u8>,
    k: int,
) -> Option<(Seq<Leaf>, Walk, int)>
    decreases node_area(n), b2i(n.lbs == n.cbs), i,
{
    if i <= 0 {
        Some((Seq::empty(), w, k))
    } else {
        match replay_children(fi, n, cs, i - 1, w, parts, k) {
            None => None,
            Some((l1, w1, k1)) => if !child_fits(fi, n, cs[i - 1]) {
                None
            } else {
                match replay(
                    fi,
                    child_node(n, cs[i - 1]),
                    walk_at(n, cs[i - 1], w1),
                    parts,
                    k1,
                ) {
                    None => None,
                    Some((l2, w2, k2)) => Some((l1 + l2, w2, k2)),
                }
            },
        }
    }
}

/// Leaves without what a second pass does not know of them: whether chroma
/// can be predicted from luma.
pub open spec fn plain_leaves(l: Seq<Leaf>) -> Seq<Leaf> {
    Seq::new(l.len(), |i: int| Leaf { cfl_disallowed: false, ..l[i] })
}

/// The walk without what a second pass does not know of it.
pub open spec fn plain_walk(w: Walk) -> Walk {
    Walk { cfl_disallowed: false, ..w }
}

/// `s1` extends the partitions and leaves of `s0`, and `out` is what a second
/// pass makes of the new partitions.
pub open spec fn tracks(s0: SbState, s1: SbState, out: Option<(Seq<Leaf>, Walk, int)>) -> bool {
    let (k, m) = (s0.leaves.len() as int, s1.leaves.len() as int);
    &&& k <= m
    &&& s0.parts.len() <= s1.parts.len()
    &&& s1.leaves.subrange(0, k) == s0.leaves
    &&& s1.parts.subrange(0, s0.parts.len() as int) == s0.parts
    &&& out == Some(
        (
            plain_leaves(s1.leaves.subrange(k, m)),
            plain_walk(s1.walk),
            s1.parts.len() as int,
        ),
    )
}

/// `parts` begins with the partitions of `s`.
pub open spec fn begins(parts: Seq<u8>, s: SbState) -> bool {
    s.parts.len() <= parts.len() && parts.subrange(0, s.parts.len() as int) == s.parts
}

proof fn lemma_begins(parts: Seq<u8>, s0: SbState, s1: SbState)
    requires
        begins(parts, s1),
        s0.parts.len() <= s1.parts.len(),
        s1.parts.subrange(0, s0.parts.len() as int) == s0.parts,
    ensures
        begins(parts, s0),
{
    let n = s0.parts.len() as int;
    assert forall|i: int| 0 <= i < n implies parts[i] == s0.parts[i] by {
        assert(s1.parts.subrange(0, n)[i] == s1.parts[i]);
        assert(parts.subrange(0, s1.parts.len() as int)[i] == parts[i]);
    }
    assert(parts.subrange(0, n) =~= s0.parts);
}

/// Two stretches in a row.
proof fn lemma_tracks_join(
    s0: SbState,
    s1: SbState,
    s2: SbState,
    o1: Option<(Seq<Leaf>, Walk, int)>,
    o2: Option<(Seq<Leaf>, Walk, int)>,
)
    requires
        tracks(s0, s1, o1),
        tracks(s1, s2, o2),
    ensures
        tracks(s0, s2, Some((o1.unwrap().0 + o2.unwrap().0, o2.unwrap().1, o2.unwrap().2))),
{
    let (k, m, e) = (s0.leaves.len() as int, s1.leaves.len() as int, s2.leaves.len() as int);
    let (p, q) = (s0.parts.len() as int, s1.parts.len() as int);
    assert forall|i: int| 0 <= i < m implies s2.leaves[i] == s1.leaves[i] by {
        assert(s2.leaves.subrange(0, m)[i] == s2.leaves[i]);
    }
    assert forall|i: int| 0 <= i < q implies s2.parts[i] == s1.parts[i] by {
        assert(s2.parts.subrange(0, q)[i] == s2.parts[i]);
    }
    assert forall|i: int| 0 <= i < k implies s1.leaves[i] == s0.leaves[i] by {
        assert(s1.leaves.subrange(0, k)[i] == s1.leaves[i]);
    }
    assert forall|i: int| 0 <= i < p implies s1.parts[i] == s0.parts[i] by {
        assert(s1.parts.subrange(0, p)[i] == s1.parts[i]);
    }
    assert(s2.leaves.subrange(0, k) =~= s0.leaves);
    assert(s2.parts.subrange(0, p) =~= s0.parts);
    assert(plain_leaves(s2.leaves.subrange(k, e)) =~= plain_leaves(s1.leaves.subrange(k, m))
        + plain_leaves(s2.leaves.subrange(m, e)));
}

/// A stretch of one leaf.
proof fn lemma_tracks_leaf(s0: SbState, s1: SbState, f: Leaf)
    requires
        s1.leaves == s0.leaves.push(f),
        s1.parts == s0.parts,
    ensures
        tracks(
            s0,
            s1,
            Some(
                (
                    seq![Leaf { cfl_disallowed: false, ..f }],
                    plain_walk(s1.walk),
                    s0.parts.len() as int,
                ),
            ),
        ),
{
    let k = s0.leaves.len() as int;
    assert(s1.leaves.subrange(0, k) =~= s0.leaves);
    assert(s1.parts.subrange(0, s0.parts.len() as int) =~= s0.parts);
    assert(plain_leaves(s1.leaves.subrange(k, k + 1)) =~= seq![
        Leaf { cfl_disallowed: false, ..f },
    ]);
}

/// An empty stretch.
proof fn lemma_tracks_none(s: SbState)
    ensures
        tracks(
            s,
            s,
            Some((Seq::<Leaf>::empty(), plain_walk(s.walk), s.parts.len() as int)),
        ),
{
    let k = s.leaves.len() as int;
    assert(s.leaves.subrange(0, k) =~= s.leaves);
    assert(s.parts.subrange(0, s.parts.len() as int) =~= s.parts);
    assert(plain_leaves(s.leaves.subrange(k, k)) =~= Seq::<Leaf>::empty());
}

/// A partition is kept in a form that gives it back.
pub proof fn law_stored_partition_comes_back(
    s: crate::msac::Sym,
    fi: SbFrameInfo,
    n: SbNode,
    intra_region: bool,
    cfl_disallowed: bool,
    d: DirState,
)
    requires
        intra_region ==> n.cbs == BlockSize::Invalid,
    ensures
        ({
            let r = node_read(s, fi, n, intra_region, cfl_disallowed, d).0;
            &&& partition_of(r.stored as int % 128) == r.bp
            &&& r.intra_region == (intra_region || r.stored >= 128)
            &&& r.cbs == (if r.stored >= 128 { BlockSize::Invalid } else { n.cbs })
        }),
{
    let bp = node_read(s, fi, n, intra_region, cfl_disallowed, d).0.bp;
    lemma_partition_number(bp);
}

proof fn lemma_partition_number(bp: BlockPartition)
    ensures
        0 <= bp as int <= 10,
        partition_of(bp as int) == bp,
{
}

proof fn lemma_finish(fi: SbFrameInfo, n: SbNode, input: TileInput, s0: SbState, s1: SbState)
    requires
        finish_step(fi, n, input, s0, s1, true),
    ensures
        ({
            let last = s0.walk.intra_region && n.cbs != BlockSize::Invalid;
            tracks(
                s0,
                s1,
                Some(
                    (
                        if last {
                            seq![region_chroma(n, plain_walk(s0.walk))]
                        } else {
                            Seq::<Leaf>::empty()
                        },
                        if last {
                            Walk {
                                cbx: n.bx,
                                cby: n.by,
                                intra_region: false,
                                ..plain_walk(s0.walk)
                            }
                        } else {
                            plain_walk(s0.walk)
                        },
                        s0.parts.len() as int,
                    ),
                ),
            )
        }),
{
    if s0.walk.intra_region && n.cbs != BlockSize::Invalid {
        let m = SbState { walk: Walk { cbx: n.bx, cby: n.by, ..s0.walk }, ..s0 };
        let e = choose|e: SbState| #[trigger]
            leaf_step(fi, region_chroma(n, s0.walk), input, m, e, true) && s1 == (SbState {
                walk: Walk { intra_region: false, ..e.walk },
                ..e
            });
        lemma_tracks_leaf(s0, s1, region_chroma(n, s0.walk));
    } else {
        lemma_tracks_none(s0);
    }
}

proof fn lemma_whole(
    fi: SbFrameInfo,
    n: SbNode,
    cbs: BlockSize,
    input: TileInput,
    s0: SbState,
    s1: SbState,
)
    requires
        whole_step(fi, n, cbs, input, s0, s1, true),
    ensures
        tracks(
            s0,
            s1,
            Some(
                (
                    seq![node_leaf(n, cbs, plain_walk(s0.walk))],
                    plain_walk(s0.walk),
                    s0.parts.len() as int,
                ),
            ),
        ),
        s1.walk == s0.walk,
{
    let f = node_leaf(n, cbs, s0.walk);
    let m = choose|m: SbState| #[trigger]
        leaf_step(fi, f, input, s0, m, true) && s1 == (SbState { a: s1.a, l: s1.l, ..m });
    lemma_tracks_leaf(s0, s1, f);
}

/// What the first pass keeps is what the second pass needs: from the kept
/// partitions it comes to the same leaves in the same order, and uses up
/// exactly those partitions.
pub proof fn law_second_pass_agrees(
    fi: SbFrameInfo,
    n: SbNode,
    input: TileInput,
    d0: DirState,
    s0: SbState,
    d1: DirState,
    s1: SbState,
    parts: Seq<u8>,
)
    requires
        fi.n_passes > 1,
        n.bs() != BlockSize::Invalid,
        s0.walk.intra_region ==> n.cbs == BlockSize::Invalid,
        sb_run(fi, n, input, d0, s0, d1, s1, true),
        begins(parts, s1),
    ensures
        tracks(s0, s1, replay(fi, n, plain_walk(s0.walk), parts, s0.parts.len() as int)),
        s1.walk.intra_region == s0.walk.intra_region,
    decreases node_area(n), b2i(n.lbs == n.cbs), 10int,
{
    if divided_apart(fi, n) {
        let luma = SbNode { cbs: BlockSize::Invalid, ..n };
        let chroma = SbNode { lbs: BlockSize::Invalid, ..n };
        let (dm, sm, de) = choose|dm: DirState, sm: SbState, de: DirState| #[trigger]
            stops(0, dm, sm, de) && sb_run(
                fi,
                luma,
                input,
                no_dirs(false),
                s0,
                dm,
                sm,
                true,
            ) && sb_run(fi, chroma, input, dm, sm, de, s1, true);
        lemma_walk_kept(fi, luma, input, no_dirs(false), s0, dm, sm);
        law_second_pass_agrees(fi, chroma, input, dm, sm, de, s1, parts);
        lemma_begins(parts, sm, s1);
        law_second_pass_agrees(fi, luma, input, no_dirs(false), s0, dm, sm, parts);
        let o1 = replay(fi, luma, plain_walk(s0.walk), parts, s0.parts.len() as int);
        let o2 = replay(fi, chroma, plain_walk(sm.walk), parts, sm.parts.len() as int);
        lemma_tracks_join(s0, sm, s1, o1, o2);
    } else {
        let (r, sym) = node_read(
            s0.sym,
            fi,
            n,
            s0.walk.intra_region,
            s0.walk.cfl_disallowed,
            d0,
        );
        law_stored_partition_comes_back(
            s0.sym,
            fi,
            n,
            s0.walk.intra_region,
            s0.walk.cfl_disallowed,
            d0,
        );
        let s = node_entered(fi, n, r, sym, s0);
        let k = s0.parts.len() as int;
        let w1 = walk_entered(n, r.cbs, r.stored >= 128, plain_walk(s0.walk));
        assert(plain_walk(s.walk) == w1);
        let cs = children(fi, n, r.cbs, r.bp);
        let (o, m) = if r.bp == BlockPartition::Whole {
            let m = choose|m: SbState| #[trigger]
                whole_step(fi, n, r.cbs, input, s, m, true) && finish_step(
                    fi,
                    n,
                    input,
                    m,
                    s1,
                    true,
                );
            lemma_whole(fi, n, r.cbs, input, s, m);
            lemma_finish(fi, n, input, m, s1);
            (Some((seq![node_leaf(n, r.cbs, w1)], w1, k + 1)), m)
        } else {
            let limit = no_dirs(crate::sbdec::at_part_limit(n, r.bp));
            let (dm, m) = choose|dm: DirState, m: SbState| #[trigger]
                passes(dm, m) && children_run(
                    fi,
                    n,
                    input,
                    cs,
                    cs.len() as int,
                    limit,
                    s,
                    dm,
                    m,
                ) && d1 == (DirState { child: r.dir.child | dm.dir, ..r.dir }) && finish_step(
                    fi,
                    n,
                    input,
                    m,
                    s1,
                    true,
                );
            lemma_finish(fi, n, input, m, s1);
            lemma_begins(parts, m, s1);
            assert forall|i: int| 0 <= i < cs.len() && s.walk.intra_region implies (
            #[trigger] cs[i]).cbs == BlockSize::Invalid by {
                lemma_no_chroma_parts(fi, n, r.bp, i);
            }
            lemma_children_agree(
                fi,
                n,
                input,
                cs,
                cs.len() as int,
                limit,
                s,
                dm,
                m,
                parts,
            );
            (replay_children(fi, n, cs, cs.len() as int, w1, parts, k + 1), m)
        };
        lemma_finish(fi, n, input, m, s1);
        let last = m.walk.intra_region && n.cbs != BlockSize::Invalid;
        let o2 = Some(
            (
                if last {
                    seq![region_chroma(n, plain_walk(m.walk))]
                } else {
                    Seq::<Leaf>::empty()
                },
                if last {
                    Walk { cbx: n.bx, cby: n.by, intra_region: false, ..plain_walk(m.walk) }
                } else {
                    plain_walk(m.walk)
                },
                m.parts.len() as int,
            ),
        );
        lemma_tracks_join(s, m, s1, o, o2);
        lemma_begins(parts, m, s1);
        lemma_begins(parts, s, m);
        lemma_kept_partition(s0, s, s1, parts, r.stored);
        assert(o.unwrap().0 + Seq::<Leaf>::empty() =~= o.unwrap().0);
        assert(o.unwrap().0 + seq![region_chroma(n, plain_walk(m.walk))] =~= o.unwrap().0.push(
            region_chroma(n, plain_walk(m.walk)),
        ));
    }
}

/// The partition that a block keeps is the next one of the list.
proof fn lemma_kept_partition(s0: SbState, s: SbState, s1: SbState, parts: Seq<u8>, v: u8)
    requires
        s.parts == s0.parts.push(v),
        s.leaves == s0.leaves,
        s.parts.len() <= s1.parts.len(),
        s1.parts.subrange(0, s.parts.len() as int) == s.parts,
        begins(parts, s),
    ensures
        parts[s0.parts.len() as int] == v,
        s0.parts.len() < parts.len(),
        s1.parts.subrange(0, s0.parts.len() as int) == s0.parts,
{
    let k = s0.parts.len() as int;
    assert(parts.subrange(0, k + 1)[k] == parts[k]);
    assert forall|i: int| 0 <= i < k implies s1.parts[i] == s0.parts[i] by {
        assert(s1.parts.subrange(0, k + 1)[i] == s1.parts[i]);
    }
    assert(s1.parts.subrange(0, k) =~= s0.parts);
}

proof fn lemma_children_agree(
    fi: SbFrameInfo,
    n: SbNode,
    input: TileInput,
    cs: Seq<Child>,
    i: int,
    d0: DirState,
    s0: SbState,
    d1: DirState,
    s1: SbState,
    parts: Seq<u8>,
)
    requires
        fi.n_passes > 1,
        0 <= i <= cs.len(),
        i < 9,
        children_run(fi, n, input, cs, i, d0, s0, d1, s1),
        forall|j: int|
            0 <= j < cs.len() && s0.walk.intra_region ==> (#[trigger] cs[j]).cbs
                == BlockSize::Invalid,
        begins(parts, s1),
    ensures
        tracks(
            s0,
            s1,
            replay_children(
                fi,
                n,
                cs,
                i,
                plain_walk(s0.walk),
                parts,
                s0.parts.len() as int,
            ),
        ),
        s1.walk.intra_region == s0.walk.intra_region,
    decreases node_area(n), b2i(n.lbs == n.cbs), i,
{
    if i <= 0 {
        lemma_tracks_none(s0);
    } else {
        let c = cs[i - 1];
        let (dm, sm) = choose|dm: DirState, sm: SbState| #[trigger]
            passes(dm, sm) && children_run(fi, n, input, cs, i - 1, d0, s0, dm, sm) && child_step(
                fi,
                n,
                input,
                c,
                dm,
                sm,
                d1,
                s1,
                true,
            );
        let m = SbState { walk: walk_at(n, c, sm.walk), ..sm };
        lemma_children_walk_kept(fi, n, input, cs, i - 1, d0, s0, dm, sm);
        law_second_pass_agrees(fi, child_node(n, c), input, dm, m, d1, s1, parts);
        lemma_begins(parts, sm, s1);
        lemma_children_agree(fi, n, input, cs, i - 1, d0, s0, dm, sm, parts);
        let o1 = replay_children(
            fi,
            n,
            cs,
            i - 1,
            plain_walk(s0.walk),
            parts,
            s0.parts.len() as int,
        );
        let o2 = replay(
            fi,
            child_node(n, c),
            plain_walk(m.walk),
            parts,
            m.parts.len() as int,
        );
        assert(tracks(sm, s1, o2));
        assert(plain_walk(m.walk) == walk_at(n, c, plain_walk(sm.walk)));
        lemma_tracks_join(s0, sm, s1, o1, o2);
    }
}

/// A block leaves behind whether all blocks are intra blocks as it found it.
proof fn lemma_walk_kept(
    fi: SbFrameInfo,
    n: SbNode,
    input: TileInput,
    d0: DirState,
    s0: SbState,
    d1: DirState,
    s1: SbState,
)
    requires
        n.bs() != BlockSize::Invalid,
        s0.walk.intra_region ==> n.cbs == BlockSize::Invalid,
        sb_run(fi, n, input, d0, s0, d1, s1, true),
    ensures
        s1.walk.intra_region == s0.walk.intra_region,
    decreases node_area(n), b2i(n.lbs == n.cbs), 10int,
{
    if divided_apart(fi, n) {
        let luma = SbNode { cbs: BlockSize::Invalid, ..n };
        let chroma = SbNode { lbs: BlockSize::Invalid, ..n };
        let (dm, sm, de) = choose|dm: DirState, sm: SbState, de: DirState| #[trigger]
            stops(0, dm, sm, de) && sb_run(
                fi,
                luma,
                input,
                no_dirs(false),
                s0,
                dm,
                sm,
                true,
            ) && sb_run(fi, chroma, input, dm, sm, de, s1, true);
        lemma_walk_kept(fi, luma, input, no_dirs(false), s0, dm, sm);
        lemma_walk_kept(fi, chroma, input, dm, sm, de, s1);
    } else {
        let (r, sym) = node_read(
            s0.sym,
            fi,
            n,
            s0.walk.intra_region,
            s0.walk.cfl_disallowed,
            d0,
        );
        law_stored_partition_comes_back(
            s0.sym,
            fi,
            n,
            s0.walk.intra_region,
            s0.walk.cfl_disallowed,
            d0,
        );
        let s = node_entered(fi, n, r, sym, s0);
        let cs = children(fi, n, r.cbs, r.bp);
        if r.bp == BlockPartition::Whole {
            let m = choose|m: SbState| #[trigger]
                whole_step(fi, n, r.cbs, input, s, m, true) && finish_step(
                    fi,
                    n,
                    input,
                    m,
                    s1,
                    true,
                );
            lemma_whole(fi, n, r.cbs, input, s, m);
            lemma_finish(fi, n, input, m, s1);
        } else {
            let limit = no_dirs(crate::sbdec::at_part_limit(n, r.bp));
            let (dm, m) = choose|dm: DirState, m: SbState| #[trigger]
                passes(dm, m) && children_run(
                    fi,
                    n,
                    input,
                    cs,
                    cs.len() as int,
                    limit,
                    s,
                    dm,
                    m,
                ) && d1 == (DirState { child: r.dir.child | dm.dir, ..r.dir }) && finish_step(
                    fi,
                    n,
                    input,
                    m,
                    s1,
                    true,
                );
            assert forall|i: int| 0 <= i < cs.len() && s.walk.intra_region implies (
            #[trigger] cs[i]).cbs == BlockSize::Invalid by {
                lemma_no_chroma_parts(fi, n, r.bp, i);
            }
            lemma_children_walk_kept(
                fi,
                n,
                input,
                cs,
                cs.len() as int,
                limit,
                s,
                dm,
                m,
            );
            lemma_finish(fi, n, input, m, s1);
        }
    }
}

proof fn lemma_children_walk_kept(
    fi: SbFrameInfo,
    n: SbNode,
    input: TileInput,
    cs: Seq<Child>,
    i: int,
    d0: DirState,
    s0: SbState,
    d1: DirState,
    s1: SbState,
)
    requires
        0 <= i <= cs.len(),
        i < 9,
        children_run(fi, n, input, cs, i, d0, s0, d1, s1),
        forall|j: int|
            0 <= j < cs.len() && s0.walk.intra_region ==> (#[trigger] cs[j]).cbs
                == BlockSize::Invalid,
    ensures
        s1.walk.intra_region == s0.walk.intra_region,
    decreases node_area(n), b2i(n.lbs == n.cbs), i,
{
    if i > 0 {
        let c = cs[i - 1];
        let (dm, sm) = choose|dm: DirState, sm: SbState| #[trigger]
            passes(dm, sm) && children_run(fi, n, input, cs, i - 1, d0, s0, dm, sm) && child_step(
                fi,
                n,
                input,
                c,
                dm,
                sm,
                d1,
                s1,
                true,
            );
        let m = SbState { walk: walk_at(n, c, sm.walk), ..sm };
        lemma_children_walk_kept(fi, n, input, cs, i - 1, d0, s0, dm, sm);
        lemma_walk_kept(fi, child_node(n, c), input, dm, m, d1, s1);
    }
}

/// A superblock that is walked a second time: the kept partitions, how many
/// were used up, where the walk is, and the leaves so far.
pub struct Replay {
    pub parts: Vec<u8>,
    pub used: usize,
    pub walk: Walk,
    pub leaves: Vec<Leaf>,
}

/// `after` is where the walk is once it came from `before` to `out`.
pub open spec fn replayed(
    before: Replay,
    after: Replay,
    out: Option<(Seq<Leaf>, Walk, int)>,
) -> bool {
    &&& after.parts@ == before.parts@
    &&& out matches Some((l, w, k)) && after.leaves@ == before.leaves@ + l && after.walk == w
        && after.used == k
}

fn replay_parts(fi: &SbFrameInfo, n: &SbNode, cs: &Vec<Child>, c: &mut Replay) -> (r: bool)
    requires
        frame_ok(*fi),
        n.valid(*fi),
        cs@.len() < 9,
    ensures
        r == (replay_children(
            *fi,
            *n,
            cs@,
            cs@.len() as int,
            old(c).walk,
            old(c).parts@,
            old(c).used as int,
        ) is Some),
        r ==> replayed(
            *old(c),
            *final(c),
            replay_children(
                *fi,
                *n,
                cs@,
                cs@.len() as int,
                old(c).walk,
                old(c).parts@,
                old(c).used as int,
            ),
        ),
        final(c).parts@ == old(c).parts@,
    decreases node_area(*n), b2i(n.lbs == n.cbs), 9int,
{
    let ghost c0 = *c;
    assert(c.leaves@ =~= c0.leaves@ + Seq::<Leaf>::empty());
    let mut i: usize = 0;
    while i < cs.len()
        invariant
            frame_ok(*fi),
            n.valid(*fi),
            cs@.len() < 9,
            i <= cs@.len(),
            c0 == *old(c),
            replayed(
                c0,
                *c,
                replay_children(
                    *fi,
                    *n,
                    cs@,
                    i as int,
                    c0.walk,
                    c0.parts@,
                    c0.used as int,
                ),
            ),
        decreases cs@.len() - i,
    {
        let ghost c1 = *c;
        let part: Child = cs[i];
        let ghost o1 = replay_children(
            *fi,
            *n,
            cs@,
            i as int,
            c0.walk,
            c0.parts@,
            c0.used as int,
        );
        let ghost o2 = replay_children(
            *fi,
            *n,
            cs@,
            i + 1,
            c0.walk,
            c0.parts@,
            c0.used as int,
        );
        match check_child(fi, n, &part) {
            None => {
                proof {
                    assert(o2 is None);
                    lemma_replay_stuck(
                        *fi,
                        *n,
                        cs@,
                        i + 1,
                        cs@.len() as int,
                        c0.walk,
                        c0.parts@,
                        c0.used as int,
                    );
                }
                return false;
            },
            Some(k) => {
                if part.anchor_x {
                    c.walk.cbx = k.bx;
                }
                if part.anchor_y {
                    c.walk.cby = k.by;
                }
                assert(c.walk == walk_at(*n, part, c1.walk));
                if !replay_sb(fi, &k, c) {
                    proof {
                        assert(o2 is None);
                        lemma_replay_stuck(
                            *fi,
                            *n,
                            cs@,
                            i + 1,
                            cs@.len() as int,
                            c0.walk,
                            c0.parts@,
                            c0.used as int,
                        );
                    }
                    return false;
                }
                proof {
                    assert(o2 is Some);
                    assert(c.leaves@ =~= c0.leaves@ + o2.unwrap().0);
                }
            },
        }
        i = i + 1;
    }
    true
}

/// Once the walk is stuck it stays so.
proof fn lemma_replay_stuck(
    fi: SbFrameInfo,
    n: SbNode,
    cs: Seq<Child>,
    i: int,
    j: int,
    w: Walk,
    parts: Seq<u8>,
    k: int,
)
    requires
        0 < i <= j,
        replay_children(fi, n, cs, i, w, parts, k) is None,
    ensures
        replay_children(fi, n, cs, j, w, parts, k) is None,
    decreases j,
{
    if i < j {
        lemma_replay_stuck(fi, n, cs, i, j - 1, w, parts, k);
    }
}

/// Walks a block a second time. The result is false where the kept partitions
/// run out or cannot be carried out.
pub fn replay_sb(fi: &SbFrameInfo, n: &SbNode, c: &mut Replay) -> (r: bool)
    requires
        frame_ok(*fi),
        n.valid(*fi),
    ensures
        r == (replay(*fi, *n, old(c).walk, old(c).parts@, old(c).used as int) is Some),
        r ==> replayed(
            *old(c),
            *final(c),
            replay(*fi, *n, old(c).walk, old(c).parts@, old(c).used as int),
        ),
        final(c).parts@ == old(c).parts@,
    decreases node_area(*n), b2i(n.lbs == n.cbs), 10int,
{
    let ghost c0 = *c;
    if n.lbs == BlockSize::Bs64x64 && n.cbs == BlockSize::Bs64x64 && fi.sdp
        && !fi.is_inter_or_switch {
        let luma: SbNode = SbNode { bx: n.bx, by: n.by, lbs: n.lbs, cbs: BlockSize::Invalid };
        let chroma: SbNode = SbNode { bx: n.bx, by: n.by, lbs: BlockSize::Invalid, cbs: n.cbs };
        proof {
            lemma_chroma_64_valid(*fi, chroma);
        }
        if !replay_sb(fi, &luma, c) {
            return false;
        }
        if !replay_sb(fi, &chroma, c) {
            return false;
        }
        proof {
            let o = replay(*fi, *n, c0.walk, c0.parts@, c0.used as int);
            assert(c.leaves@ =~= c0.leaves@ + o.unwrap().0);
        }
        return true;
    }
    if c.used >= c.parts.len() {
        return false;
    }
    let v: u8 = c.parts[c.used];
    let region: bool = v >= 128;
    let bp: BlockPartition = BlockPartition::from_raw(v % 128);
    let cbs: BlockSize = if region { BlockSize::Invalid } else { n.cbs };
    let d: [u8; 4] = n.size().dim();
    if !check_partition(n.size(), bp) {
        return false;
    }
    if bp == BlockPartition::Split && !(fi.bw > n.bx + d[0] as i32 / 2 && fi.bh > n.by
        + d[1] as i32 / 2 && cbs == n.lbs) {
        return false;
    }
    c.used = c.used + 1;
    if region {
        c.walk.intra_region = true;
    }
    if n.size() == cbs {
        c.walk.cbx = n.bx;
        c.walk.cby = n.by;
    }
    let ghost w1 = walk_entered(*n, cbs, region, c0.walk);
    assert(c.walk == w1);
    if bp == BlockPartition::Whole {
        c.leaves.push(
            Leaf {
                bx: n.bx,
                by: n.by,
                cbx: c.walk.cbx,
                cby: c.walk.cby,
                lbs: n.lbs,
                cbs,
                intra_region: c.walk.intra_region,
                cfl_disallowed: c.walk.cfl_disallowed,
            },
        );
        assert(c.leaves@ =~= c0.leaves@ + seq![node_leaf(*n, cbs, w1)]);
    } else {
        let cs: Vec<Child> = partition_children(fi, n, cbs, bp);
        proof {
            lemma_children_count(*fi, *n, cbs, bp);
        }
        if !replay_parts(fi, n, &cs, c) {
            return false;
        }
    }
    let ghost c2 = *c;
    if c.walk.intra_region && n.cbs != BlockSize::Invalid {
        c.leaves.push(
            Leaf {
                bx: n.bx,
                by: n.by,
                cbx: n.bx,
                cby: n.by,
                lbs: BlockSize::Invalid,
                cbs: n.cbs,
                intra_region: true,
                cfl_disallowed: c.walk.cfl_disallowed,
            },
        );
        c.walk.cbx = n.bx;
        c.walk.cby = n.by;
        c.walk.intra_region = false;
    }
    proof {
        let o = replay(*fi, *n, c0.walk, c0.parts@, c0.used as int);
        assert(o is Some);
        assert(c.leaves@ =~= c0.leaves@ + o.unwrap().0);
    }
    true
}

} // verus!
