//! From coded differences to motion vectors.
use vstd::prelude::*;

use crate::compound::{
    first_is_new, mode_first_is_new, mode_second_is_new, second_is_new,
};
use crate::env::{fix_int_mv_precision, int_mv, mv_reduce_prec, reduced_mv};
use crate::intops::{b2i, clip};
use crate::levels::{
    MvXY, NEAR_MV_NEAR_MV, NEW_MV, OPFL_JOINT_NEW_MV, TIP_FRAME, WARP_MV, WARP_NEW_MV,
};
use crate::warp::{extended_from, MvBlock, MvTile};

verus! {

/// Both parts of a vector are small enough to be added to.
pub open spec fn small_mv(v: MvXY) -> bool {
    -0x1000_0000 <= v.y <= 0x1000_0000 && -0x1000_0000 <= v.x <= 0x1000_0000
}

/// The vector that a copy within the frame starts from: the candidate, or
/// where that is zero, one superblock up. In the first superblock row of a
/// tile it lies to the left instead, beyond the delay of 256 pixels.
pub open spec fn copy_base(cand: MvXY, sb128: int, first_row: bool) -> (int, int) {
    let sbsz = if sb128 == 0 {
        64int
    } else if sb128 == 1 {
        128
    } else {
        256
    };
    if cand.y == 0 && cand.x == 0 {
        if first_row {
            (0, -(8 * (sbsz + 256)))
        } else {
            (-(8 * sbsz), 0)
        }
    } else {
        (cand.y as int, cand.x as int)
    }
}

/// The vector of a copy within the frame.
pub open spec fn copy_vector(
    cand: MvXY,
    diff: MvXY,
    is_refmv: bool,
    is_qpel: bool,
    sb128: int,
    first_row: bool,
) -> (int, int) {
    let (y, x) = copy_base(cand, sb128, first_row);
    if is_refmv {
        (y, x)
    } else if is_qpel {
        (y + diff.y, x + diff.x)
    } else {
        (int_mv(y) + diff.y, int_mv(x) + diff.x)
    }
}

pub fn resolve_copy(
    cand: MvXY,
    diff: MvXY,
    is_refmv: bool,
    is_qpel: bool,
    sb128: i32,
    first_row: bool,
) -> (r: MvXY)
    requires
        small_mv(cand),
        small_mv(diff),
        0 <= sb128 <= 2,
    ensures
        (r.y as int, r.x as int) == copy_vector(
            cand,
            diff,
            is_refmv,
            is_qpel,
            sb128 as int,
            first_row,
        ),
{
    let mut mv: MvXY = cand;
    if mv.y == 0 && mv.x == 0 {
        let sbsz: i32 = if sb128 == 0 {
            64
        } else if sb128 == 1 {
            128
        } else {
            256
        };
        if first_row {
            mv.x = -(8 * (sbsz + 256));
        } else {
            mv.y = -(8 * sbsz);
        }
    }
    if !is_refmv {
        if !is_qpel {
            fix_int_mv_precision(&mut mv);
        }
        mv.x = mv.x + diff.x;
        mv.y = mv.y + diff.y;
    }
    mv
}

/// A copy within the frame never has a zero candidate to start from.
pub proof fn law_copy_base_is_not_zero(cand: MvXY, sb128: int, first_row: bool)
    ensures
        copy_base(cand, sb128, first_row) != (0int, 0int),
{
}

/// A candidate with the coded difference added. Unless the resolution adapts
/// to the difference, a coarse precision holds for the candidate too.
pub open spec fn moved(cand: MvXY, diff: MvXY, amvd: bool, prec: int) -> (int, int) {
    if !amvd && prec <= 3 {
        (reduced_mv(cand.y as int, prec) + diff.y, reduced_mv(cand.x as int, prec) + diff.x)
    } else {
        (cand.y + diff.y, cand.x + diff.x)
    }
}

fn add_diff(cand: MvXY, diff: MvXY, amvd: bool, prec: i32) -> (r: MvXY)
    requires
        small_mv(cand),
        small_mv(diff),
        0 <= prec <= 6,
    ensures
        (r.y as int, r.x as int) == moved(cand, diff, amvd, prec as int),
{
    let mut mv: MvXY = cand;
    if !amvd && prec <= 3 {
        proof {
            crate::env::law_reduced_mv(cand.y as int, prec as int);
            crate::env::law_reduced_mv(cand.x as int, prec as int);
            assert(forall|k: int| 0 <= k <= 6 ==> #[trigger] crate::intops::POW2[k] <= 64);
        }
        mv_reduce_prec(&mut mv, prec);
    }
    mv.x = mv.x + diff.x;
    mv.y = mv.y + diff.y;
    mv
}

/// Whether a mode codes a difference to its candidate.
pub open spec fn codes_difference(mode: int, with_mvd: bool) -> bool {
    mode == NEW_MV || mode == WARP_NEW_MV || (mode == WARP_MV && with_mvd)
}

/// The vector of a block with one reference.
pub open spec fn single_vector(
    mode: int,
    cand: MvXY,
    diff: MvXY,
    amvd: bool,
    prec: int,
    with_mvd: bool,
) -> (int, int) {
    if codes_difference(mode, with_mvd) {
        moved(cand, diff, amvd, prec)
    } else {
        (cand.y as int, cand.x as int)
    }
}

pub fn resolve_single(
    mode: u8,
    cand: MvXY,
    diff: MvXY,
    amvd: bool,
    prec: i32,
    with_mvd: bool,
) -> (r: MvXY)
    requires
        small_mv(cand),
        small_mv(diff),
        0 <= prec <= 6,
    ensures
        (r.y as int, r.x as int) == single_vector(
            mode as int,
            cand,
            diff,
            amvd,
            prec as int,
            with_mvd,
        ),
{
    if mode == NEW_MV || mode == WARP_NEW_MV || (mode == WARP_MV && with_mvd) {
        add_diff(cand, diff, amvd, prec)
    } else {
        cand
    }
}

/// The vectors of a block with two references.
pub open spec fn pair_vectors(
    mode: int,
    c0: MvXY,
    c1: MvXY,
    d0: MvXY,
    d1: MvXY,
    amvd: bool,
    prec: int,
) -> ((int, int), (int, int)) {
    (
        if first_is_new(mode) {
            moved(c0, d0, amvd, prec)
        } else {
            (c0.y as int, c0.x as int)
        },
        if second_is_new(mode) {
            moved(c1, d1, amvd, prec)
        } else {
            (c1.y as int, c1.x as int)
        },
    )
}

pub fn resolve_pair(
    mode: u8,
    c0: MvXY,
    c1: MvXY,
    d0: MvXY,
    d1: MvXY,
    amvd: bool,
    prec: i32,
) -> (r: (MvXY, MvXY))
    requires
        NEAR_MV_NEAR_MV <= mode <= OPFL_JOINT_NEW_MV,
        small_mv(c0),
        small_mv(c1),
        small_mv(d0),
        small_mv(d1),
        0 <= prec <= 6,
    ensures
        ((r.0.y as int, r.0.x as int), (r.1.y as int, r.1.x as int)) == pair_vectors(
            mode as int,
            c0,
            c1,
            d0,
            d1,
            amvd,
            prec as int,
        ),
{
    let a: MvXY = if mode_first_is_new(mode) {
        add_diff(c0, d0, amvd, prec)
    } else {
        c0
    };
    let b: MvXY = if mode_second_is_new(mode) {
        add_diff(c1, d1, amvd, prec)
    } else {
        c1
    };
    (a, b)
}

/// Where the coded part of a warp ends; only part of it may be coded.
pub open spec fn delta_count(d: [i8; 4]) -> int {
    if d[0] == -128 {
        0
    } else if d[1] == -128 {
        1
    } else if d[2] == -128 {
        2
    } else if d[3] == -128 {
        3
    } else {
        4
    }
}

/// Entry `n + 2` of a warp that differs from `base`.
pub open spec fn delta_entry(base: [i32; 6], d: [i8; 4], n: int) -> int {
    let mid = if n == 0 || n == 3 { 0x10000int } else { 0 };
    if d[n] != 0 {
        clip(base[n + 2] + d[n] * 1024, mid - 0x7fc0, mid + 0x7fc0)
    } else {
        base[n + 2] as int
    }
}

/// Entry `i` of the warp: the coded entries, and for a warp without shear the
/// two that mirror them.
pub open spec fn delta_matrix(m: [i32; 6], base: [i32; 6], d: [i8; 4], i: int) -> int {
    let k = delta_count(d);
    let own = if 2 <= i < 2 + k {
        delta_entry(base, d, i - 2)
    } else {
        m[i] as int
    };
    if d[2] == -128 && i == 5 {
        if k > 0 {
            delta_entry(base, d, 0)
        } else {
            m[2] as int
        }
    } else if d[2] == -128 && i == 4 {
        if k > 1 {
            -delta_entry(base, d, 1)
        } else {
            -m[3]
        }
    } else {
        own
    }
}

/// Applies the coded differences to a warp.
pub fn apply_warp_delta(m: &mut [i32; 6], base: &[i32; 6], d: &[i8; 4])
    requires
        forall|i: int| 0 <= i < 6 ==> #[trigger] base[i] > i32::MIN,
        old(m)[3] > i32::MIN,
    ensures
        forall|i: int| 0 <= i < 6 ==> #[trigger] final(m)[i] == delta_matrix(*old(m), *base, *d, i),
{
    let ghost m0 = *m;
    let mut n: usize = 0;
    while n < 4 && d[n] != -128
        invariant
            n <= 4,
            n <= delta_count(*d),
            forall|i: int| 0 <= i < 6 ==> #[trigger] base[i] > i32::MIN,
            m0[3] > i32::MIN,
            forall|i: int|
                0 <= i < 6 ==> #[trigger] m[i] == (if 2 <= i < 2 + n {
                    delta_entry(*base, *d, i - 2)
                } else {
                    m0[i] as int
                }),
        ensures
            n == delta_count(*d),
            forall|i: int|
                0 <= i < 6 ==> #[trigger] m[i] == (if 2 <= i < 2 + n {
                    delta_entry(*base, *d, i - 2)
                } else {
                    m0[i] as int
                }),
        decreases 4 - n,
    {
        let v: i32 = if d[n] != 0 {
            let mid: i64 = if n == 0 || n == 3 { 0x10000 } else { 0 };
            let t: i64 = base[n + 2] as i64 + d[n] as i64 * 1024;
            let c: i64 = if t < mid - 0x7fc0 {
                mid - 0x7fc0
            } else if t > mid + 0x7fc0 {
                mid + 0x7fc0
            } else {
                t
            };
            c as i32
        } else {
            base[n + 2]
        };
        m[2 + n] = v;
        n = n + 1;
    }
    if d[2] == -128 {
        let (a, b): (i32, i32) = (m[2], m[3]);
        assert(base[3] > i32::MIN);
        m[5] = a;
        m[4] = -b;
    }
}

/// The block refers to `ref0`.
pub open spec fn refers(b: MvBlock, ref0: i8) -> bool {
    b.refs[0] == ref0 || b.refs[1] == ref0
}

fn is_referring(b: &MvBlock, ref0: i8) -> (r: bool)
    ensures
        r == refers(*b, ref0),
{
    b.refs[0] == ref0 || b.refs[1] == ref0
}

/// The block whose warp extends a neighbour, and what is around it.
pub struct ExtendSite {
    pub bx: i32,
    pub by: i32,
    pub bw4: i32,
    pub bh4: i32,
    pub have_left: bool,
    pub have_top: bool,
    pub tile_row_end: i32,
    pub tile_col_end: i32,
    pub sb_step: i32,
}

impl ExtendSite {
    /// Whether the row above belongs to another superblock.
    pub open spec fn at_top(self) -> bool {
        self.by % self.sb_step == 0
    }

    pub open spec fn valid(self, t: MvTile) -> bool {
        &&& 0 <= self.bx <= 0x10000
        &&& 0 <= self.by <= 0x10000
        &&& 2 <= self.bw4 <= 64
        &&& 1 <= self.bh4 <= 64
        &&& 1 <= self.sb_step <= 64
        &&& self.have_left ==> self.bx >= 1
        &&& self.have_top ==> self.by >= 1
        &&& t.ra@.len() <= 0x1000_0000
        &&& self.have_top && self.at_top() ==> t.ra_off + self.reach() / 2 < t.ra@.len()
    }

    /// The last column of the row above the superblock row that is looked at:
    /// over the end of the block where that lies in the tile.
    pub open spec fn reach(self) -> int {
        self.bx - self.bx as int % 2 + (if self.bx + self.bw4 <= self.tile_col_end {
            self.bw4 - 2
        } else {
            0
        })
    }

    /// One column to the left, where the row above is kept at half width.
    pub open spec fn align(self) -> int {
        if self.at_top() { self.bx as int % 2 } else { 0 }
    }
}

/// The neighbour to extend from where the candidate does not name one: the
/// lowest to the left, the rightmost above, the topmost to the left, or the
/// leftmost above, whichever is the first with the same reference.
pub open spec fn nearest_site(t: MvTile, w: ExtendSite, ref0: i8) -> (int, int) {
    let (bx, by) = (w.bx as int, w.by as int);
    let even = bx - w.align();
    let above_left = if w.at_top() { t.above(even) } else { t.unit(bx, by - 1) };
    let above_right = if w.at_top() {
        t.above(even + w.bw4 - 2)
    } else {
        t.unit(bx + w.bw4 - 1, by - 1)
    };
    if w.have_left && by + w.bh4 <= w.tile_row_end && refers(
        t.unit(bx - 1, by + w.bh4 - 1),
        ref0,
    ) {
        (-1, w.bh4 - 1)
    } else if w.have_top && bx + w.bw4 <= w.tile_col_end && refers(above_right, ref0) {
        (-w.align() + w.bw4 - (1 + b2i(w.at_top())), -1)
    } else if w.have_left && refers(t.unit(bx - 1, by), ref0) {
        (-1, 0)
    } else if w.have_top && refers(above_left, ref0) {
        (-w.align(), -1)
    } else {
        (0, 0)
    }
}

/// Whether the candidate itself names the neighbour, and does not take its
/// motion from an interpolated frame.
pub open spec fn cand_names_site(t: MvTile, w: ExtendSite, cand_x: int, cand_y: int) -> bool {
    &&& cand_x == -1 || cand_y == -1
    &&& extended_from(
        t,
        w.bx as int,
        w.by as int,
        cand_x,
        cand_y,
        w.sb_step as int,
    ).refs[0] != TIP_FRAME
}

/// The neighbour to extend from; `(0, 0)` where there is none.
pub open spec fn extend_site(
    t: MvTile,
    w: ExtendSite,
    cand_x: int,
    cand_y: int,
    ref0: i8,
) -> (int, int) {
    if cand_names_site(t, w, cand_x, cand_y) {
        (cand_x, cand_y)
    } else {
        nearest_site(t, w, ref0)
    }
}

/// The candidate lies within what is kept.
pub open spec fn cand_valid(t: MvTile, w: ExtendSite, cand_x: int, cand_y: int) -> bool {
    &&& -1 <= cand_x <= 64
    &&& -1 <= cand_y <= 64
    &&& if cand_y == -1 && w.at_top() {
        (cand_x < 0 && w.bx % w.sb_step == 0) || (w.bx + cand_x >= 0 && t.ra_off + (w.bx + cand_x)
            / 2 < t.ra@.len())
    } else {
        w.bx + cand_x >= 0 && w.by + cand_y >= 0
    }
}

/// Finds the neighbour whose warp a block extends, as offsets from the corner
/// of the block.
pub fn find_extend_site(
    t: &MvTile,
    w: &ExtendSite,
    cand_x: i32,
    cand_y: i32,
    ref0: i8,
) -> (r: (i32, i32))
    requires
        t.wf(),
        w.valid(*t),
        cand_x == -1 || cand_y == -1 ==> cand_valid(*t, *w, cand_x as int, cand_y as int),
    ensures
        (r.0 as int, r.1 as int) == extend_site(*t, *w, cand_x as int, cand_y as int, ref0),
{
    let (bx, by): (i32, i32) = (w.bx, w.by);
    let at_top: bool = by % w.sb_step == 0;
    if cand_x == -1 || cand_y == -1 {
        let b: &MvBlock = if cand_y == -1 && at_top {
            if cand_x < 0 && bx % w.sb_step == 0 {
                &t.ra_tl
            } else {
                t.get_above(bx + cand_x)
            }
        } else {
            t.get_unit(bx + cand_x, by + cand_y)
        };
        if b.refs[0] != TIP_FRAME {
            return (cand_x, cand_y);
        }
    }
    let align: i32 = if at_top { bx % 2 } else { 0 };
    let top: i32 = if at_top { 1 } else { 0 };
    if w.have_left && by + w.bh4 <= w.tile_row_end && is_referring(
        t.get_unit(bx - 1, by + w.bh4 - 1),
        ref0,
    ) {
        return (-1, w.bh4 - 1);
    }
    if w.have_top && bx + w.bw4 <= w.tile_col_end {
        let b: &MvBlock = if at_top {
            t.get_above(bx - align + w.bw4 - 2)
        } else {
            t.get_unit(bx + w.bw4 - 1, by - 1)
        };
        if is_referring(b, ref0) {
            return (-align + w.bw4 - (1 + top), -1);
        }
    }
    if w.have_left && is_referring(t.get_unit(bx - 1, by), ref0) {
        return (-1, 0);
    }
    if w.have_top {
        let b: &MvBlock = if at_top {
            t.get_above(bx - align)
        } else {
            t.get_unit(bx, by - 1)
        };
        if is_referring(b, ref0) {
            return (-align, -1);
        }
    }
    (0, 0)
}

/// A copy without a candidate starts straight above by one superblock; in the
/// first superblock row of a tile it starts to the left instead, one superblock
/// and 256 pixels away. Vectors are eighths of a pixel.
pub proof fn law_copies_start_up_or_to_the_left(cand: MvXY, sb128: int)
    requires
        0 <= sb128 <= 2,
    ensures
        cand.y == 0 && cand.x == 0 ==> ({
            let up = copy_base(cand, sb128, false);
            let left = copy_base(cand, sb128, true);
            &&& up.1 == 0 && left.0 == 0
            &&& sb128 == 0 ==> up.0 == -512 && left.1 == -2560
            &&& sb128 == 1 ==> up.0 == -1024 && left.1 == -3072
            &&& sb128 == 2 ==> up.0 == -2048 && left.1 == -4096
        }),
        cand.y != 0 || cand.x != 0 ==> copy_base(cand, sb128, true) == (cand.y as int, cand.x as int)
            && copy_base(cand, sb128, false) == (cand.y as int, cand.x as int),
{
}

/// A difference is added to the vector that a copy starts from, component by
/// component; a copy of whole pixels is rounded first, and one without a
/// difference is taken as it is.
pub proof fn law_copy_adds_its_difference(cand: MvXY, d: MvXY, e: MvXY, sb128: int, first: bool)
    ensures
        copy_vector(cand, d, true, true, sb128, first) == copy_base(cand, sb128, first),
        copy_vector(cand, d, true, false, sb128, first) == copy_base(cand, sb128, first),
        copy_vector(cand, d, false, true, sb128, first).0 - copy_base(cand, sb128, first).0 == d.y,
        copy_vector(cand, d, false, true, sb128, first).1 - copy_base(cand, sb128, first).1 == d.x,
        copy_vector(cand, d, false, false, sb128, first).0 - copy_vector(
            cand,
            e,
            false,
            false,
            sb128,
            first,
        ).0 == d.y - e.y,
        copy_vector(cand, d, false, false, sb128, first).1 - copy_vector(
            cand,
            e,
            false,
            false,
            sb128,
            first,
        ).1 == d.x - e.x,
        d.y == 0 ==> copy_vector(cand, d, false, false, sb128, first).0 % 8 == 0,
        d.x == 0 ==> copy_vector(cand, d, false, false, sb128, first).1 % 8 == 0,
{
}

/// A coded difference moves the candidate by exactly that much, each component
/// by its own; modes without a difference keep the candidate.
pub proof fn law_difference_moves_the_candidate(
    mode: int,
    cand: MvXY,
    d: MvXY,
    amvd: bool,
    prec: int,
    with_mvd: bool,
)
    requires
        0 <= prec <= 6,
    ensures
        ({
            let (y, x) = single_vector(mode, cand, d, amvd, prec, with_mvd);
            let coded = mode == NEW_MV || mode == WARP_NEW_MV || (mode == WARP_MV && with_mvd);
            &&& !coded ==> y == cand.y && x == cand.x
            &&& coded && (amvd || prec > 3) ==> y - d.y == cand.y && x - d.x == cand.x
            &&& coded && !amvd && prec <= 3 ==> {
                let unit = crate::intops::p2(6 - prec);
                &&& (y - d.y) % unit == 0
                &&& (x - d.x) % unit == 0
                &&& -unit <= 2 * (y - d.y - cand.y) <= unit
                &&& -unit <= 2 * (x - d.x - cand.x) <= unit
            }
        }),
{
    crate::env::law_reduced_mv(cand.y as int, prec);
    crate::env::law_reduced_mv(cand.x as int, prec);
}

/// Of two vectors each is moved by its own difference, and only where the mode
/// codes one for it.
pub proof fn law_each_vector_of_a_pair_moves_by_its_own(
    mode: int,
    c0: MvXY,
    c1: MvXY,
    d0: MvXY,
    d1: MvXY,
    amvd: bool,
)
    ensures
        ({
            let (a, b) = pair_vectors(mode, c0, c1, d0, d1, amvd, 6);
            &&& first_is_new(mode) ==> a.0 - d0.y == c0.y && a.1 - d0.x == c0.x
            &&& !first_is_new(mode) ==> a.0 == c0.y && a.1 == c0.x
            &&& second_is_new(mode) ==> b.0 - d1.y == c1.y && b.1 - d1.x == c1.x
            &&& !second_is_new(mode) ==> b.0 == c1.y && b.1 == c1.x
        }),
{
}

/// Applied differences of a warp: a step of one is 1/64, entries stay within a
/// half of the identity, and those that are not coded follow from the others
/// so that the warp turns and scales without shear.
pub proof fn law_warp_differences_step_the_entries(m: [i32; 6], base: [i32; 6], d: [i8; 4], n: int)
    requires
        0 <= n < 4,
        forall|i: int| 0 <= i < 6 ==> #[trigger] base[i] > i32::MIN,
    ensures
        d[n] == 0 ==> delta_entry(base, d, n) == base[n + 2],
        d[n] != 0 ==> {
            let mid: int = if n == 0 || n == 3 { 0x10000 } else { 0 };
            let moved_to = base[n + 2] + 1024 * d[n];
            &&& mid - 0x7fc0 <= delta_entry(base, d, n) <= mid + 0x7fc0
            &&& mid - 0x7fc0 <= moved_to <= mid + 0x7fc0 ==> delta_entry(base, d, n) == moved_to
            &&& moved_to > mid + 0x7fc0 ==> delta_entry(base, d, n) == mid + 0x7fc0
            &&& moved_to < mid - 0x7fc0 ==> delta_entry(base, d, n) == mid - 0x7fc0
        },
        d[0] != -128 && d[1] != -128 && d[2] != -128 && d[3] != -128 ==> delta_matrix(
            m,
            base,
            d,
            n + 2,
        ) == delta_entry(base, d, n),
        d[2] == -128 ==> delta_matrix(m, base, d, 5) == delta_matrix(m, base, d, 2)
            && delta_matrix(m, base, d, 4) == -delta_matrix(m, base, d, 3),
        delta_matrix(m, base, d, 0) == m[0] && delta_matrix(m, base, d, 1) == m[1],
{
}

} // verus!
