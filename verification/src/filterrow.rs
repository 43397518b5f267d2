//! The order of the loop filters over the superblock rows of a frame.
use vstd::prelude::*;

use crate::intops::{b2i, min, p2, POW2};
use crate::sbsyntax::SbFilter;

verus! {

/// What decides which filters run: those that the caller has switched on, and
/// those that the headers use.
#[derive(Debug, Clone, Copy, PartialEq, Eq, Structural)]
pub struct FilterParams {
    pub deblock: bool,
    pub cdef: bool,
    pub ccso: bool,
    pub wiener: bool,
    pub gdf: bool,
    pub level_y0: i32,
    pub level_y1: i32,
    pub seq_cdef: bool,
    pub restore_planes: i32,
    pub sbh: i32,
    pub sb_step: i32,
    pub sb256w: i32,
    pub sb128: i32,
    pub bh: i32,
}

impl FilterParams {
    pub open spec fn valid(self) -> bool {
        &&& 0 <= self.sb128 <= 2
        &&& self.sb_step == 16 * p2(self.sb128 as int)
        &&& 0 <= self.sb256w <= 0x1000
        &&& 0 <= self.sbh <= 0x4000
        &&& 0 <= self.bh <= 0x10_0000
    }
}

/// A run of block rows that is enhanced with the strengths of one row of
/// 256x256 areas.
#[derive(Debug, Clone, Copy, PartialEq, Eq, Structural)]
pub struct CdefRun {
    pub mask_row: usize,
    pub start: i32,
    pub end: i32,
}

/// The filters of a superblock row, in the order in which they run.
#[derive(Debug, Clone, Copy, PartialEq, Eq, Structural)]
pub struct FilterRow {
    pub sby: i32,
    pub deblock: bool,
    /// Whether deblocking knows that a tile row starts here.
    pub start_of_tile_row: bool,
    /// Whether deblocked lines are kept for restoration.
    pub copy_db: bool,
    /// The two block rows above the superblock row, which had to wait for it.
    pub seam: Option<CdefRun>,
    /// The block rows of the superblock row itself.
    pub cdef: Option<CdefRun>,
}

/// The first of the 256x256 areas of a superblock row.
pub open spec fn mask_row(p: FilterParams, sby: int) -> int {
    sby / p2(2 - p.sb128) * p.sb256w
}

/// Where the enhancement of a superblock row stops: its last two block rows
/// wait for the next one.
pub open spec fn cdef_end(p: FilterParams, sby: int) -> int {
    min(sby * p.sb_step + p.sb_step - 2 * b2i(sby + 1 < p.sbh), p.bh as int)
}

pub open spec fn filter_row(p: FilterParams, starts: Seq<u8>, sby: int) -> FilterRow {
    let enhance = p.seq_cdef && (p.cdef || p.ccso);
    let start = sby * p.sb_step;
    FilterRow {
        sby: sby as i32,
        deblock: p.deblock && (p.level_y0 != 0 || p.level_y1 != 0),
        start_of_tile_row: sby < starts.len() && starts[sby] % 2 == 1,
        copy_db: p.restore_planes != 0 && (p.wiener || p.gdf),
        seam: if enhance && sby > 0 {
            Some(
                CdefRun {
                    mask_row: mask_row(p, sby - 1) as usize,
                    start: (start - 2) as i32,
                    end: start as i32,
                },
            )
        } else {
            None
        },
        cdef: if enhance {
            Some(
                CdefRun {
                    mask_row: mask_row(p, sby) as usize,
                    start: start as i32,
                    end: cdef_end(p, sby) as i32,
                },
            )
        } else {
            None
        },
    }
}

fn row_of_masks(p: &FilterParams, sby: i32) -> (r: usize)
    requires
        p.valid(),
        0 <= sby <= 0x4000,
    ensures
        r == mask_row(*p, sby as int),
{
    assert(POW2[0] == 1 && POW2[1] == 2 && POW2[2] == 4);
    let q: i32 = if p.sb128 == 0 {
        sby / 4
    } else if p.sb128 == 1 {
        sby / 2
    } else {
        sby
    };
    let ghost d = p2(2 - p.sb128);
    assert(q == sby as int / d) by {
        if p.sb128 == 0 {
            assert(d == 4);
        } else if p.sb128 == 1 {
            assert(d == 2);
        } else {
            assert(d == 1);
        }
    }
    assert(0 <= q * p.sb256w <= 0x4000 * 0x1000) by (nonlinear_arith)
        requires
            0 <= q <= 0x4000,
            0 <= p.sb256w <= 0x1000,
    ;
    (q * p.sb256w) as usize
}

/// Decides which filters run over a superblock row, and how far.
pub fn filter_sbrow(p: &FilterParams, start_of_tile_row: &[u8], sby: i32) -> (r: FilterRow)
    requires
        p.valid(),
        0 <= sby < 0x4000,
    ensures
        r == filter_row(*p, start_of_tile_row@, sby as int),
{
    assert(POW2[0] == 1 && POW2[1] == 2 && POW2[2] == 4);
    let start: i32 = if p.sb128 == 0 {
        sby * 16
    } else if p.sb128 == 1 {
        sby * 32
    } else {
        sby * 64
    };
    assert(start == sby * p.sb_step) by {
        assert(sby * p.sb_step == sby * 16 || sby * p.sb_step == sby * 32 || sby * p.sb_step
            == sby * 64);
    }
    let at: usize = sby as usize;
    let tile_start: bool = at < start_of_tile_row.len() && start_of_tile_row[at] % 2 == 1;
    let enhance: bool = p.seq_cdef && (p.cdef || p.ccso);
    let n: i32 = p.sb_step - (if sby + 1 < p.sbh { 2 } else { 0 });
    let end: i32 = if start + n < p.bh { start + n } else { p.bh };
    FilterRow {
        sby,
        deblock: p.deblock && (p.level_y0 != 0 || p.level_y1 != 0),
        start_of_tile_row: tile_start,
        copy_db: p.restore_planes != 0 && (p.wiener || p.gdf),
        seam: if enhance && sby > 0 {
            Some(CdefRun { mask_row: row_of_masks(p, sby - 1), start: start - 2, end: start })
        } else {
            None
        },
        cdef: if enhance {
            Some(CdefRun { mask_row: row_of_masks(p, sby), start, end })
        } else {
            None
        },
    }
}

/// The runs of block rows of consecutive superblock rows join without gap or
/// overlap: each superblock row stops where the next one first looks back to.
pub proof fn law_enhanced_rows_join(p: FilterParams, starts: Seq<u8>, sby: int)
    requires
        p.valid(),
        p.seq_cdef,
        p.cdef || p.ccso,
        0 <= sby,
        sby + 1 < p.sbh,
        (sby + 1) * p.sb_step <= p.bh,
    ensures
        filter_row(p, starts, sby).cdef is Some,
        filter_row(p, starts, sby + 1).seam is Some,
        filter_row(p, starts, sby).cdef->Some_0.end == filter_row(
            p,
            starts,
            sby + 1,
        ).seam->Some_0.start,
        filter_row(p, starts, sby + 1).seam->Some_0.end == filter_row(
            p,
            starts,
            sby + 1,
        ).cdef->Some_0.start,
        filter_row(p, starts, sby + 1).seam->Some_0.mask_row == filter_row(
            p,
            starts,
            sby,
        ).cdef->Some_0.mask_row,
{
    assert((sby + 1) * p.sb_step == sby * p.sb_step + p.sb_step) by (nonlinear_arith);
}

/// The strengths of a row of 256x256 areas; areas that do not exist have none.
pub fn collect_cdef_idx(mask: &[SbFilter], row: usize, sb256w: i32) -> (r: Vec<[i8; 16]>)
    requires
        0 <= sb256w,
        row + sb256w <= usize::MAX,
    ensures
        r@.len() == sb256w,
        forall|i: int|
            #![trigger r@[i]]
            0 <= i < sb256w && row + i < mask@.len() ==> r@[i] == mask@[row + i].cdef_idx,
        forall|i: int, k: int|
            0 <= i < sb256w && row + i >= mask@.len() && 0 <= k < 16 ==> #[trigger] r@[i][k] == -1,
{
    let mut r: Vec<[i8; 16]> = Vec::new();
    let n: usize = sb256w as usize;
    let mut i: usize = 0;
    while i < n
        invariant
            i <= n,
            n == sb256w,
            row + n <= usize::MAX,
            r@.len() == i,
            forall|k: int|
                #![trigger r@[k]]
                0 <= k < i && row + k < mask@.len() ==> r@[k] == mask@[row + k].cdef_idx,
            forall|k: int, j: int|
                0 <= k < i && row + k >= mask@.len() && 0 <= j < 16 ==> #[trigger] r@[k][j] == -1,
        decreases n - i,
    {
        if row + i < mask.len() {
            r.push(mask[row + i].cdef_idx);
        } else {
            r.push([-1; 16]);
        }
        i = i + 1;
    }
    r
}

/// The coded blocks of a row of 256x256 areas, as bits for each block row;
/// areas that do not exist have none.
pub fn collect_noskip(mask: &[[[u16; 4]; 32]], row: usize, sb256w: i32) -> (r: Vec<[[u16; 4]; 32]>)
    requires
        0 <= sb256w,
        row + sb256w <= usize::MAX,
    ensures
        r@.len() == sb256w,
        forall|i: int|
            #![trigger r@[i]]
            0 <= i < sb256w && row + i < mask@.len() ==> r@[i] == mask@[row + i],
        forall|i: int, y: int, x: int|
            0 <= i < sb256w && row + i >= mask@.len() && 0 <= y < 32 && 0 <= x < 4
                ==> #[trigger] r@[i][y][x] == 0,
{
    let mut r: Vec<[[u16; 4]; 32]> = Vec::new();
    let n: usize = sb256w as usize;
    let mut i: usize = 0;
    while i < n
        invariant
            i <= n,
            n == sb256w,
            row + n <= usize::MAX,
            r@.len() == i,
            forall|k: int|
                #![trigger r@[k]]
                0 <= k < i && row + k < mask@.len() ==> r@[k] == mask@[row + k],
            forall|k: int, y: int, x: int|
                0 <= k < i && row + k >= mask@.len() && 0 <= y < 32 && 0 <= x < 4
                    ==> #[trigger] r@[k][y][x] == 0,
        decreases n - i,
    {
        if row + i < mask.len() {
            r.push(mask[row + i]);
        } else {
            let line: [u16; 4] = [0; 4];
            r.push([line; 32]);
        }
        i = i + 1;
    }
    r
}

/// What is filtered in a superblock row, and from where to where: enhancement
/// starts with the two block rows that the last row left, and leaves two to
/// the next one, if there is one.
pub proof fn law_filter_row_bounds(p: FilterParams, starts: Seq<u8>, sby: int)
    requires
        p.valid(),
        0 <= sby < p.sbh,
        sby * p.sb_step < p.bh,
    ensures
        ({
            let r = filter_row(p, starts, sby);
            let top = sby * p.sb_step;
            let on = p.seq_cdef && (p.cdef || p.ccso);
            &&& r.sby == sby
            &&& r.deblock <==> p.deblock && (p.level_y0 != 0 || p.level_y1 != 0)
            &&& r.copy_db <==> p.restore_planes != 0 && (p.wiener || p.gdf)
            &&& r.seam is Some <==> on && sby > 0
            &&& r.cdef is Some <==> on
            &&& r.seam matches Some(c) ==> c.start == top - 2 && c.end == top
            &&& r.cdef matches Some(c) ==> c.start == top && c.end <= p.bh
            &&& r.cdef matches Some(c) ==> (sby + 1 == p.sbh && top + p.sb_step >= p.bh ==> c.end
                == p.bh)
            &&& r.cdef matches Some(c) ==> (sby + 1 < p.sbh && top + p.sb_step - 2 <= p.bh ==> c.end
                == top + p.sb_step - 2)
            &&& r.start_of_tile_row <==> sby < starts.len() && starts[sby] % 2 == 1
        }),
{
    assert(p2(0) == 1 && p2(1) == 2 && p2(2) == 4);
    assert(0 <= sby * p.sb_step <= 0x10_0000) by (nonlinear_arith)
        requires
            0 <= sby,
            0 <= p.sb_step,
            sby * p.sb_step < p.bh,
            p.bh <= 0x10_0000,
    ;
}

/// Enhancement looks up the masks of the 256x256 areas that the rows lie in.
pub proof fn law_masks_are_those_of_the_area_row(p: FilterParams, starts: Seq<u8>, sby: int)
    requires
        p.valid(),
        0 <= sby < p.sbh,
    ensures
        mask_row(p, sby) == sby * p.sb_step / 64 * p.sb256w,
{
    assert(p2(0) == 1 && p2(1) == 2 && p2(2) == 4);
    assert(p.sb128 == 0 || p.sb128 == 1 || p.sb128 == 2);
    if p.sb128 == 0 {
        assert(sby * 16 / 64 == sby / 4);
    } else if p.sb128 == 1 {
        assert(sby * 32 / 64 == sby / 2);
    } else {
        assert(sby * 64 / 64 == sby);
        assert(sby / 1 == sby);
    }
}

} // verus!
