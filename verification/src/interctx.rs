//! What inter prediction looks at in the neighbouring blocks.
use vstd::prelude::*;

use crate::block::{pick_i8, pick_u8, picked_i8, picked_u8};
use crate::block::{BlockPos, NbPos, SbNb, TileNb};
use crate::env::BlockContext;
use crate::frameinfo::SbFrameInfo;
use crate::intops::{b2i, clip, iclip};
use crate::levels::TIP_FRAME;

verus! {

/// What one neighbouring entry says of its inter prediction.
#[derive(Debug, Clone, Copy, PartialEq, Eq, Structural)]
pub struct NbInter {
    pub ref0: i8,
    pub ref1: i8,
    pub amvd: u8,
    pub comp_type: u8,
    pub intrabc: u8,
}

/// What the two neighbours across superblocks say, of which `n` count.
#[derive(Debug, Clone, Copy, PartialEq, Eq, Structural)]
pub struct NxInter {
    pub n: usize,
    pub p0: NbInter,
    pub p1: NbInter,
}

pub open spec fn nb_inter(a: BlockContext, l: BlockContext, p: NbPos) -> NbInter {
    NbInter {
        ref0: picked_i8(a.refs[0], l.refs[0], p),
        ref1: picked_i8(a.refs[1], l.refs[1], p),
        amvd: picked_u8(a.amvd, l.amvd, p),
        comp_type: picked_u8(a.comp_type, l.comp_type, p),
        intrabc: picked_u8(a.intrabc, l.intrabc, p),
    }
}

pub open spec fn nx_inter(a: BlockContext, l: BlockContext, nx: TileNb) -> NxInter {
    NxInter { n: nx.n, p0: nb_inter(a, l, nx.p0), p1: nb_inter(a, l, nx.p1) }
}

impl NbInter {
    pub open spec fn valid(self) -> bool {
        -1 <= self.ref0 <= 7 && -1 <= self.ref1 <= 7
    }
}

impl NxInter {
    pub open spec fn valid(self) -> bool {
        self.n <= 2 && self.p0.valid() && self.p1.valid()
    }
}

fn gather_one(a: &BlockContext, l: &BlockContext, p: &NbPos) -> (r: NbInter)
    requires
        a.wf(),
        l.wf(),
        p.off < 64,
    ensures
        r == nb_inter(*a, *l, *p),
        r.valid(),
{
    let ref0: i8 = pick_i8(&a.refs[0], &l.refs[0], p);
    let ref1: i8 = pick_i8(&a.refs[1], &l.refs[1], p);
    NbInter {
        ref0,
        ref1,
        amvd: pick_u8(&a.amvd, &l.amvd, p),
        comp_type: pick_u8(&a.comp_type, &l.comp_type, p),
        intrabc: pick_u8(&a.intrabc, &l.intrabc, p),
    }
}

pub fn gather_inter(a: &BlockContext, l: &BlockContext, nx: &TileNb) -> (r: NxInter)
    requires
        a.wf(),
        l.wf(),
        nx.p0.off < 64,
        nx.p1.off < 64,
        nx.n <= 2,
    ensures
        r == nx_inter(*a, *l, *nx),
        r.valid(),
{
    NxInter { n: nx.n, p0: gather_one(a, l, &nx.p0), p1: gather_one(a, l, &nx.p1) }
}

/// How many references of the neighbours are `r`.
pub open spec fn ref_count(nx: NxInter, r: int) -> int {
    b2i(nx.n >= 1 && nx.p0.ref0 == r) + b2i(nx.n >= 1 && nx.p0.ref1 == r) + b2i(
        nx.n >= 2 && nx.p1.ref0 == r,
    ) + b2i(nx.n >= 2 && nx.p1.ref1 == r)
}

pub fn count_ref(nx: &NxInter, r: i8) -> (c: i32)
    ensures
        c == ref_count(*nx, r as int),
        0 <= c <= 4,
{
    let mut c: i32 = 0;
    if nx.n >= 1 {
        if nx.p0.ref0 == r {
            c = c + 1;
        }
        if nx.p0.ref1 == r {
            c = c + 1;
        }
    }
    if nx.n >= 2 {
        if nx.p1.ref0 == r {
            c = c + 1;
        }
        if nx.p1.ref1 == r {
            c = c + 1;
        }
    }
    c
}

/// How many references of the neighbours are frames.
pub open spec fn frame_refs(nx: NxInter) -> int {
    2 * nx.n - ref_count(nx, -1) - ref_count(nx, TIP_FRAME as int)
}

pub fn count_frame_refs(nx: &NxInter) -> (c: i32)
    requires
        nx.valid(),
    ensures
        c == frame_refs(*nx),
        -4 <= c <= 4,
{
    2 * nx.n as i32 - count_ref(nx, -1) - count_ref(nx, TIP_FRAME)
}

/// The context of a reference that `cur` neighbours use, where `rem` use one
/// of those that come after it.
pub open spec fn ref_ctx(cur: int, rem: int) -> int {
    clip(cur - rem + 1, 0, 2)
}

pub fn find_ref_ctx(cur: i32, rem: i32) -> (r: usize)
    requires
        -100 <= cur <= 100,
        -100 <= rem <= 100,
    ensures
        r == ref_ctx(cur as int, rem as int),
{
    iclip(cur - rem + 1, 0, 2) as usize
}

/// Which neighbours are interpolated from two frames.
pub open spec fn tip_ctx(nx: NxInter) -> int {
    b2i(nx.n >= 1 && nx.p0.ref0 == TIP_FRAME) + b2i(nx.n >= 2 && nx.p1.ref0 == TIP_FRAME)
}

pub fn find_tip_ctx(nx: &NxInter) -> (r: usize)
    ensures
        r == tip_ctx(*nx),
{
    let c0: usize = if nx.n >= 1 && nx.p0.ref0 == TIP_FRAME { 1 } else { 0 };
    let c1: usize = if nx.n >= 2 && nx.p1.ref0 == TIP_FRAME { 1 } else { 0 };
    c0 + c1
}

/// The direction of a reference, -1 for none.
pub open spec fn ref_dir(fi: SbFrameInfo, r: int) -> int {
    if r < 0 { -1 } else { fi.refdir[r] as int }
}

fn find_ref_dir(fi: &SbFrameInfo, r: i8) -> (d: i32)
    requires
        r <= 7,
    ensures
        d == ref_dir(*fi, r as int),
{
    if r < 0 { -1 } else { fi.refdir[r as usize] as i32 }
}

/// Whether a neighbour with one reference looks to the future or has none.
pub open spec fn not_past(fi: SbFrameInfo, nb: NbInter) -> bool {
    nb.intrabc == 0 && ref_dir(fi, nb.ref0 as int) != 0
}

/// The context of the flag that a block has two references.
pub open spec fn comp_flag_ctx(fi: SbFrameInfo, nx: NxInter) -> int {
    let future0 = ref_dir(fi, nx.p0.ref0 as int) == 1;
    let future1 = ref_dir(fi, nx.p1.ref0 as int) == 1;
    if nx.n == 2 {
        if nx.p0.ref1 == -1 && nx.p1.ref1 == -1 {
            b2i(future0 != future1)
        } else if nx.p0.ref1 == -1 {
            2 + b2i(not_past(fi, nx.p0))
        } else if nx.p1.ref1 == -1 {
            2 + b2i(not_past(fi, nx.p1))
        } else {
            4
        }
    } else if nx.n == 1 {
        if nx.p0.ref1 == -1 { b2i(not_past(fi, nx.p0)) } else { 3 }
    } else {
        1
    }
}

fn is_not_past(fi: &SbFrameInfo, nb: &NbInter) -> (r: bool)
    requires
        nb.valid(),
    ensures
        r == not_past(*fi, *nb),
{
    nb.intrabc == 0 && find_ref_dir(fi, nb.ref0) != 0
}

pub fn find_comp_flag_ctx(fi: &SbFrameInfo, nx: &NxInter) -> (r: usize)
    requires
        nx.valid(),
    ensures
        r == comp_flag_ctx(*fi, *nx),
{
    if nx.n == 2 {
        if nx.p0.ref1 == -1 && nx.p1.ref1 == -1 {
            let future0: bool = find_ref_dir(fi, nx.p0.ref0) == 1;
            let future1: bool = find_ref_dir(fi, nx.p1.ref0) == 1;
            if future0 != future1 { 1 } else { 0 }
        } else if nx.p0.ref1 == -1 {
            if is_not_past(fi, &nx.p0) { 3 } else { 2 }
        } else if nx.p1.ref1 == -1 {
            if is_not_past(fi, &nx.p1) { 3 } else { 2 }
        } else {
            4
        }
    } else if nx.n == 1 {
        if nx.p0.ref1 == -1 {
            if is_not_past(fi, &nx.p0) { 1 } else { 0 }
        } else {
            3
        }
    } else {
        1
    }
}

/// How many neighbours use adaptive differences with the reference.
pub open spec fn amvd_ctx(nx: NxInter, ref0: int) -> int {
    b2i(nx.p0.ref0 == ref0 && nx.p0.amvd != 0) + b2i(
        nx.n > 1 && nx.p1.ref0 == ref0 && nx.p1.amvd != 0,
    )
}

pub fn find_amvd_ctx(nx: &NxInter, ref0: i8) -> (r: usize)
    ensures
        r == amvd_ctx(*nx, ref0 as int),
{
    let c0: usize = if nx.p0.ref0 == ref0 && nx.p0.amvd != 0 { 1 } else { 0 };
    let c1: usize = if nx.n > 1 && nx.p1.ref0 == ref0 && nx.p1.amvd != 0 { 1 } else { 0 };
    c0 + c1
}

/// What one neighbour adds to the context of a masked compound.
pub open spec fn mask_ctx_of(fi: SbFrameInfo, nb: NbInter) -> int {
    if nb.ref1 != -1 {
        b2i(nb.comp_type > 1)
    } else {
        2 * b2i(nb.ref0 == fi.furthest_future_refidx)
    }
}

/// The context of the flag that a compound is masked.
pub open spec fn mask_ctx(fi: SbFrameInfo, nx: NxInter, ref0: int, ref1: int) -> int {
    let c0: int = if nx.n >= 1 { mask_ctx_of(fi, nx.p0) } else { 0 };
    let c1: int = if nx.n >= 2 { mask_ctx_of(fi, nx.p1) } else { 0 };
    c0 + c1 + b2i(c0 != 0 && c1 != 0) + 6 * b2i(fi.absrefdist[ref0] == fi.absrefdist[ref1])
}

fn find_mask_ctx_of(fi: &SbFrameInfo, nb: &NbInter) -> (r: usize)
    ensures
        r == mask_ctx_of(*fi, *nb),
        r <= 2,
{
    if nb.ref1 != -1 {
        if nb.comp_type > 1 { 1 } else { 0 }
    } else if nb.ref0 == fi.furthest_future_refidx {
        2
    } else {
        0
    }
}

pub fn find_mask_ctx(fi: &SbFrameInfo, nx: &NxInter, ref0: i8, ref1: i8) -> (r: usize)
    requires
        0 <= ref0 <= 7,
        0 <= ref1 <= 7,
    ensures
        r == mask_ctx(*fi, *nx, ref0 as int, ref1 as int),
{
    let c0: usize = if nx.n >= 1 { find_mask_ctx_of(fi, &nx.p0) } else { 0 };
    let c1: usize = if nx.n >= 2 { find_mask_ctx_of(fi, &nx.p1) } else { 0 };
    let both: usize = if c0 != 0 && c1 != 0 { 1 } else { 0 };
    let near: usize = if fi.absrefdist[ref0 as usize] == fi.absrefdist[ref1 as usize] { 6 } else { 0 };
    c0 + c1 + both + near
}

/// Modes that code a new vector for their first reference.
pub open spec fn codes_first_mv(mode: int) -> bool {
    mode == 15 || mode == 20 || mode == 22 || mode == 23 || mode == 26 || mode == 27 || mode == 28
}

/// Modes that code a new vector for their second reference.
pub open spec fn codes_second_mv(mode: int) -> bool {
    mode == 19 || mode == 22 || mode == 25 || mode == 27
}

/// Whether the entry uses the reference.
pub open spec fn entry_has_ref(c: BlockContext, i: int, r: int) -> bool {
    c.refs[0][i] == r || c.refs[1][i] == r
}

/// Whether the entry codes a new vector for the reference that it uses.
pub open spec fn entry_has_new(c: BlockContext, i: int, r: int) -> bool {
    if c.refs[0][i] == r {
        codes_first_mv(c.mode[i] as int)
    } else {
        c.refs[1][i] == r && codes_second_mv(c.mode[i] as int)
    }
}

pub fn has_ref(c: &BlockContext, i: usize, r: i8) -> (b: bool)
    requires
        i < 64,
    ensures
        b == entry_has_ref(*c, i as int, r as int),
{
    c.refs[0][i] == r || c.refs[1][i] == r
}

fn has_new(c: &BlockContext, i: usize, r: i8) -> (b: bool)
    requires
        i < 64,
    ensures
        b == entry_has_new(*c, i as int, r as int),
{
    let m: u8 = c.mode[i];
    if c.refs[0][i] == r {
        m == 15 || m == 20 || m == 22 || m == 23 || m == 26 || m == 27 || m == 28
    } else {
        c.refs[1][i] == r && (m == 19 || m == 22 || m == 25 || m == 27)
    }
}

/// The context of a block with one reference: whether a block above and one to
/// the left use the same reference, and whether one of them codes a new vector
/// for it.
pub open spec fn snglref_ctx(
    fi: SbFrameInfo,
    b: BlockPos,
    a: BlockContext,
    l: BlockContext,
    r: int,
) -> int {
    let x0 = b.bx4();
    let x1 = b.bx4() + b.bs.w4() - 1;
    let y0 = b.by4();
    let y1 = b.by4() + b.bs.h4() - 1;
    let see_x1 = b.right_in_tile(fi);
    let see_y1 = b.bottom_in_tile(fi);
    let col = b.have_top(fi) && (entry_has_ref(a, x0, r) || see_x1 && entry_has_ref(a, x1, r));
    let row = b.have_left(fi) && (entry_has_ref(l, y0, r) || see_y1 && entry_has_ref(l, y1, r));
    let newmv = b.have_top(fi) && (entry_has_new(a, x0, r) || see_x1 && entry_has_new(a, x1, r))
        || b.have_left(fi) && (entry_has_new(l, y0, r) || see_y1 && entry_has_new(l, y1, r));
    b2i(row) + b2i(col) + 2 * b2i(newmv)
}

pub fn get_snglref_ctx(
    fi: &SbFrameInfo,
    b: &BlockPos,
    a: &BlockContext,
    l: &BlockContext,
    ref_idx: i8,
) -> (r: usize)
    requires
        b.valid(*fi),
    ensures
        r == snglref_ctx(*fi, *b, *a, *l, ref_idx as int),
        r <= 4,
{
    let d: [u8; 4] = b.bs.dim();
    let x0: usize = (b.bx % 64) as usize;
    let y0: usize = (b.by % 64) as usize;
    let x1: usize = x0 + d[0] as usize - 1;
    let y1: usize = y0 + d[1] as usize - 1;
    let mut row: usize = 0;
    let mut col: usize = 0;
    let mut newmv: usize = 0;
    if b.by > fi.tile_row_start {
        let right: bool = b.bx + d[0] as i32 <= fi.tile_col_end;
        if has_ref(a, x0, ref_idx) || (right && has_ref(a, x1, ref_idx)) {
            col = 1;
        }
        if has_new(a, x0, ref_idx) || (right && has_new(a, x1, ref_idx)) {
            newmv = 1;
        }
    }
    if b.bx > fi.tile_col_start {
        let low: bool = b.by + d[1] as i32 <= fi.tile_row_end;
        if has_ref(l, y0, ref_idx) || (low && has_ref(l, y1, ref_idx)) {
            row = 1;
        }
        if has_new(l, y0, ref_idx) || (low && has_new(l, y1, ref_idx)) {
            newmv = 1;
        }
    }
    row + col + 2 * newmv
}

/// Stands for a neighbour whose filter does not count.
pub const NO_FILTER: u8 = 3;

/// The filter of an entry that uses the reference.
pub open spec fn entry_filter(c: BlockContext, i: int, r: int) -> int {
    if entry_has_ref(c, i, r) { c.filter[i] as int } else { NO_FILTER as int }
}

/// The context of a filter, given those of two neighbours: the one that both
/// or only one of them has.
pub open spec fn filter_agreement(f0: int, f1: int) -> int {
    if f0 == f1 || f1 == NO_FILTER {
        f0
    } else if f0 == NO_FILTER {
        f1
    } else {
        NO_FILTER as int
    }
}

fn find_filter_agreement(f0: u8, f1: u8) -> (r: usize)
    ensures
        r == filter_agreement(f0 as int, f1 as int),
        r <= f0 || r <= f1 || r <= 3,
{
    if f0 == f1 || f1 == NO_FILTER {
        f0 as usize
    } else if f0 == NO_FILTER {
        f1 as usize
    } else {
        NO_FILTER as usize
    }
}

fn find_entry_filter(c: &BlockContext, i: usize, r: i8) -> (f: u8)
    requires
        i < 64,
        c.wf(),
    ensures
        f == entry_filter(*c, i as int, r as int),
        f <= 3,
{
    if has_ref(c, i, r) { c.filter[i] } else { NO_FILTER }
}

/// The filter context of a block with two references. The first neighbour is
/// looked up in the context to the left and the second in the one above,
/// whichever they came from.
pub open spec fn comp_filter_ctx(a: BlockContext, l: BlockContext, nb: SbNb, r: int) -> int {
    let f0: int = if nb.n >= 1 { entry_filter(l, nb.p0.off as int, r) } else { NO_FILTER as int };
    let f1: int = if nb.n >= 2 { entry_filter(a, nb.p1.off as int, r) } else { NO_FILTER as int };
    4 + filter_agreement(f0, f1)
}

pub fn get_filter_ctx(a: &BlockContext, l: &BlockContext, nb: &SbNb, ref0: i8) -> (r: usize)
    requires
        a.wf(),
        l.wf(),
        nb.p0.off < 64,
        nb.p1.off < 64,
    ensures
        r == comp_filter_ctx(*a, *l, *nb, ref0 as int),
{
    let f0: u8 = if nb.n >= 1 { find_entry_filter(l, nb.p0.off, ref0) } else { NO_FILTER };
    let f1: u8 = if nb.n >= 2 { find_entry_filter(a, nb.p1.off, ref0) } else { NO_FILTER };
    4 + find_filter_agreement(f0, f1)
}

/// The filter of the neighbour at `p` if it uses the reference.
pub open spec fn nb_filter(a: BlockContext, l: BlockContext, p: NbPos, r: int) -> int {
    if p.above { entry_filter(a, p.off as int, r) } else { entry_filter(l, p.off as int, r) }
}

/// The filter context of a block with one reference.
pub open spec fn single_filter_ctx(a: BlockContext, l: BlockContext, nb: SbNb, r: int) -> int {
    let f0: int = if nb.n >= 1 { nb_filter(a, l, nb.p0, r) } else { NO_FILTER as int };
    let f1: int = if nb.n >= 2 { nb_filter(a, l, nb.p1, r) } else { NO_FILTER as int };
    filter_agreement(f0, f1)
}

fn find_nb_filter(a: &BlockContext, l: &BlockContext, p: &NbPos, r: i8) -> (f: u8)
    requires
        a.wf(),
        l.wf(),
        p.off < 64,
    ensures
        f == nb_filter(*a, *l, *p, r as int),
        f <= 3,
{
    if p.above { find_entry_filter(a, p.off, r) } else { find_entry_filter(l, p.off, r) }
}

pub fn get_single_filter_ctx(a: &BlockContext, l: &BlockContext, nb: &SbNb, ref0: i8) -> (r: usize)
    requires
        a.wf(),
        l.wf(),
        nb.p0.off < 64,
        nb.p1.off < 64,
    ensures
        r == single_filter_ctx(*a, *l, *nb, ref0 as int),
{
    let f0: u8 = if nb.n >= 1 { find_nb_filter(a, l, &nb.p0, ref0) } else { NO_FILTER };
    let f1: u8 = if nb.n >= 2 { find_nb_filter(a, l, &nb.p1, ref0) } else { NO_FILTER };
    find_filter_agreement(f0, f1)
}

/// Whether a block above or to the left uses the reference, as warping looks
/// at it: at the top of a superblock only every other entry above counts.
pub open spec fn warp_neighbour(
    fi: SbFrameInfo,
    b: BlockPos,
    a: BlockContext,
    l: BlockContext,
    r: int,
) -> bool {
    let left = b.have_left(fi) && (entry_has_ref(l, b.by4(), r) || b.bottom_in_tile(fi)
        && entry_has_ref(l, b.by4() + b.bs.h4() - 1, r));
    let top = b.have_top(fi) && if b.top_in_sb(fi) {
        entry_has_ref(a, b.bx4(), r) || b.right_in_tile(fi) && entry_has_ref(
            a,
            b.bx4() + b.bs.w4() - 1,
            r,
        )
    } else {
        let last = b.bx + b.bs.w4() - 2;
        let o1 = b.bx4() + b.bs.w4() - 2;
        entry_has_ref(a, b.bx4() - b.bx4() % 2, r) || last - last % 2 < fi.tile_col_end
            && entry_has_ref(a, o1 - o1 % 2, r)
    };
    left || top
}

pub fn has_warp_neighbour(
    fi: &SbFrameInfo,
    b: &BlockPos,
    a: &BlockContext,
    l: &BlockContext,
    r: i8,
) -> (res: bool)
    requires
        b.valid(*fi),
        b.bs.w4() >= 2,
    ensures
        res == warp_neighbour(*fi, *b, *a, *l, r as int),
{
    let d: [u8; 4] = b.bs.dim();
    let x0: usize = (b.bx % 64) as usize;
    let y0: usize = (b.by % 64) as usize;
    let left: bool = b.bx > fi.tile_col_start && (has_ref(l, y0, r) || (b.by + d[1] as i32
        <= fi.tile_row_end && has_ref(l, y0 + d[1] as usize - 1, r)));
    if left {
        return true;
    }
    if b.by <= fi.tile_row_start {
        return false;
    }
    if b.by % fi.sb_step != 0 {
        has_ref(a, x0, r) || (b.bx + d[0] as i32 <= fi.tile_col_end && has_ref(
            a,
            x0 + d[0] as usize - 1,
            r,
        ))
    } else {
        let last: i32 = b.bx + d[0] as i32 - 2;
        let o1: usize = x0 + d[0] as usize - 2;
        has_ref(a, x0 - x0 % 2, r) || (last - last % 2 < fi.tile_col_end && has_ref(
            a,
            o1 - o1 % 2,
            r,
        ))
    }
}

/// The context of a reference weighs how many neighbours use it against how
/// many use a later one: zero for fewer, one for as many, and two for more.
pub proof fn law_reference_context_compares_counts(cur: int, rem: int)
    ensures
        cur < rem ==> ref_ctx(cur, rem) == 0,
        cur == rem ==> ref_ctx(cur, rem) == 1,
        cur > rem ==> ref_ctx(cur, rem) == 2,
{
}

/// Every use of a reference by a neighbour counts; frames are all but the
/// missing and the interpolated ones.
pub proof fn law_uses_of_references_add_up(nx: NxInter, r: int)
    requires
        nx.n <= 2,
    ensures
        nx.n == 0 ==> ref_count(nx, r) == 0 && frame_refs(nx) == 0,
        nx.n == 1 ==> ref_count(nx, r) == (if nx.p0.ref0 == r { 1int } else { 0 }) + (if nx.p0.ref1
            == r { 1int } else { 0 }),
        nx.n == 1 ==> frame_refs(nx) == (if nx.p0.ref0 != -1 && nx.p0.ref0 != 7 { 1int } else { 0 })
            + (if nx.p0.ref1 != -1 && nx.p0.ref1 != 7 { 1int } else { 0 }),
        nx.n == 2 ==> frame_refs(nx) <= 4,
        nx.n == 2 && nx.p0.ref0 == r && nx.p0.ref1 == r && nx.p1.ref0 == r && nx.p1.ref1 == r
            ==> ref_count(nx, r) == 4,
        nx.n == 2 && nx.p0.ref0 == r && nx.p0.ref1 != r && nx.p1.ref0 == r && nx.p1.ref1 != r
            ==> ref_count(nx, r) == 2,
        tip_ctx(nx) <= nx.n,
        nx.n == 2 && nx.p0.ref0 == 7 && nx.p1.ref0 == 7 ==> tip_ctx(nx) == 2,
{
}

/// The context of the compound flag. Two neighbours with one reference each
/// count whether just one of them looks ahead; two compounds give four; one of
/// either kind gives two, or three where the other one does not look back.
pub proof fn law_compound_context(fi: SbFrameInfo, nx: NxInter)
    requires
        nx.n == 2,
        0 <= nx.p0.ref0 <= 7,
        0 <= nx.p1.ref0 <= 7,
        fi.refdir[nx.p0.ref0 as int] <= 1,
        fi.refdir[nx.p1.ref0 as int] <= 1,
        nx.p0.intrabc == 0,
        nx.p1.intrabc == 0,
    ensures
        ({
            let c = comp_flag_ctx(fi, nx);
            let d0 = fi.refdir[nx.p0.ref0 as int];
            let d1 = fi.refdir[nx.p1.ref0 as int];
            &&& nx.p0.ref1 == -1 && nx.p1.ref1 == -1 ==> c == (if d0 == d1 { 0int } else { 1 })
            &&& nx.p0.ref1 != -1 && nx.p1.ref1 != -1 ==> c == 4
            &&& nx.p0.ref1 == -1 && nx.p1.ref1 != -1 ==> c == 2 + d0
            &&& nx.p0.ref1 != -1 && nx.p1.ref1 == -1 ==> c == 2 + d1
        }),
{
}

/// The same beside a single neighbour, and beside none.
pub proof fn law_compound_context_of_one(fi: SbFrameInfo, nx: NxInter)
    requires
        nx.n <= 1,
        0 <= nx.p0.ref0 <= 7,
        fi.refdir[nx.p0.ref0 as int] <= 1,
        nx.p0.intrabc == 0,
    ensures
        nx.n == 0 ==> comp_flag_ctx(fi, nx) == 1,
        nx.n == 1 && nx.p0.ref1 != -1 ==> comp_flag_ctx(fi, nx) == 3,
        nx.n == 1 && nx.p0.ref1 == -1 ==> comp_flag_ctx(fi, nx) == fi.refdir[nx.p0.ref0 as int],
{
}

/// The filter that two neighbours agree on: their common one, that of the only
/// one that has one, and none where they differ.
pub proof fn law_filters_agree_or_not(f: int, g: int)
    requires
        0 <= f < 3,
        0 <= g < 3,
    ensures
        filter_agreement(f, f) == f,
        filter_agreement(f, 3) == f,
        filter_agreement(3, f) == f,
        filter_agreement(3, 3) == 3,
        f != g ==> filter_agreement(f, g) == 3,
{
}

/// A masked compound counts neighbours: a masked one counts one, one that
/// refers to the furthest future frame alone counts two, and both counting adds
/// one more; references at the same distance add six.
pub proof fn law_mask_context(fi: SbFrameInfo, nx: NxInter, r0: int, r1: int)
    requires
        nx.n <= 2,
    ensures
        ({
            let c = mask_ctx(fi, nx, r0, r1);
            let same: int = if fi.absrefdist[r0] == fi.absrefdist[r1] { 6 } else { 0 };
            let p0: int = if nx.p0.ref1 != -1 {
                if nx.p0.comp_type >= 2 { 1 } else { 0 }
            } else if nx.p0.ref0 == fi.furthest_future_refidx {
                2
            } else {
                0
            };
            let p1: int = if nx.p1.ref1 != -1 {
                if nx.p1.comp_type >= 2 { 1 } else { 0 }
            } else if nx.p1.ref0 == fi.furthest_future_refidx {
                2
            } else {
                0
            };
            &&& nx.n == 0 ==> c == same
            &&& nx.n == 1 ==> c == same + p0
            &&& nx.n == 2 && (p0 == 0 || p1 == 0) ==> c == same + p0 + p1
            &&& nx.n == 2 && p0 > 0 && p1 > 0 ==> c == same + p0 + p1 + 1
        }),
{
}

/// How many of the neighbours are built from the interpolated frame.
pub proof fn law_interpolated_neighbours_are_counted(nx: NxInter)
    ensures
        0 <= tip_ctx(nx) <= 2,
        nx.n <= 0 ==> tip_ctx(nx) == 0,
        nx.n == 1 ==> (tip_ctx(nx) == 1 <==> nx.p0.ref0 == TIP_FRAME) && tip_ctx(nx) <= 1,
        nx.n >= 2 ==> (tip_ctx(nx) == 2 <==> nx.p0.ref0 == TIP_FRAME && nx.p1.ref0 == TIP_FRAME),
        nx.n >= 2 ==> (tip_ctx(nx) == 0 <==> nx.p0.ref0 != TIP_FRAME && nx.p1.ref0 != TIP_FRAME),
{
}

/// The context of a filter is the filter of the neighbours: none without
/// neighbours, that of a single one, and that of two where they agree.
pub proof fn law_filter_context_is_that_of_the_neighbours(
    a: BlockContext,
    l: BlockContext,
    nb: SbNb,
    r: int,
)
    ensures
        ({
            let (f, g) = (nb_filter(a, l, nb.p0, r), nb_filter(a, l, nb.p1, r));
            let c = single_filter_ctx(a, l, nb, r);
            &&& nb.n <= 0 ==> c == 3
            &&& nb.n == 1 && 0 <= f < 3 ==> c == f
            &&& nb.n >= 2 && 0 <= f < 3 && f == g ==> c == f
            &&& nb.n >= 2 && 0 <= f < 3 && 0 <= g < 3 && f != g ==> c == 3
            &&& nb.n >= 2 && 0 <= f < 3 && g == 3 ==> c == f
            &&& nb.n >= 2 && f == 3 && 0 <= g < 3 ==> c == g
        }),
{
}

} // verus!
