//! Decoding of a row of superblocks of a tile.
use vstd::prelude::*;

use crate::decodeb::TileInput;
use crate::env::BlockContext;
use crate::error::{Rav2dError, Result};
use crate::frame::{ns_coeffs, DqTable, NsWienerBank};
use crate::frameinfo::SbFrameInfo;
use crate::headers::{FrameHeader, NSWienerPlane, RestorationType};
use crate::intops::{b2i, imax, imin, max, min, p2, shr, POW2};
use crate::levels::BlockSize;
use crate::motion::MotionFrame;
use crate::msac::{MsacContext, Sym};
use crate::partition::{DirState, SbNode};
use crate::restoration::{
    bank_in_range, read_restoration_info, restoration_read, BankClass, NsTables,
};
use crate::restunit::{Av2Restoration, Av2RestorationUnit};
use crate::sbdec::{decode_sb, frame_ok, no_dirs, sb_run, tile_ok, SbContext, SbState, Walk};
use crate::sbsyntax::{area_of, in_areas, CcsoMaps, DequantChoice, SbFilter};
use crate::tile::{classes_fit, TileBounds};

verus! {

/// How a restoration unit is filtered.
#[verifier::ext_equal]
pub struct UnitView {
    pub kind: RestorationType,
    pub filters: Seq<Seq<i8>>,
}

pub open spec fn unit_view(u: Av2RestorationUnit) -> UnitView {
    UnitView { kind: u.restoration_type, filters: u.filters() }
}

/// The units of one plane of a 256x256 area.
pub open spec fn plane_view(m: Av2Restoration, p: int) -> Seq<UnitView> {
    Seq::new(16, |i: int| unit_view(m.lr[p][i]))
}

/// All units of a 256x256 area.
pub open spec fn units_view(m: Av2Restoration) -> Seq<Seq<UnitView>> {
    Seq::new(3, |p: int| plane_view(m, p))
}

/// All units of a frame.
pub open spec fn frame_units(v: Seq<Av2Restoration>) -> Seq<Seq<Seq<UnitView>>> {
    Seq::new(v.len(), |i: int| units_view(v[i]))
}

/// The superblocks of a row: their size, and the tile that they belong to.
pub struct RowParams<'a> {
    pub by: i32,
    pub sb256w: i32,
    pub root_bs: BlockSize,
    pub c_root_bs: BlockSize,
    pub tile: TileBounds,
    /// Binary logarithm of the side of a restoration unit, for luma and for
    /// chroma.
    pub unit_log2: [u8; 2],
    pub y: &'a NsTables,
    pub uv: &'a NsTables,
}

impl<'a> RowParams<'a> {
    pub open spec fn tables(self, pl: int) -> NsTables {
        if pl == 0 { *self.y } else { *self.uv }
    }

    pub open spec fn valid(self, fi: SbFrameInfo) -> bool {
        &&& 0 <= self.by <= 0x10_0000
        &&& 0 <= self.sb256w <= 0x1_0000
        &&& self.root_bs == BlockSize::Bs64x64 || self.root_bs == BlockSize::Bs128x128
            || self.root_bs == BlockSize::Bs256x256
        &&& 0 <= self.tile.row <= 64
        &&& 0 <= self.tile.col_start
        &&& 0 <= self.tile.col_end <= 0x10_0000
        &&& 0 <= self.tile.row_start <= self.by
        &&& 0 <= self.tile.row_end <= 0x10_0000
        &&& self.y.valid(false)
        &&& self.uv.valid(true)
        &&& 7 <= self.unit_log2[0] <= 12
        &&& 7 - min(fi.ss_ver as int, fi.ss_hor as int) <= self.unit_log2[1] <= 12
    }
}

/// The restoration units that a superblock starts: how many across and down,
/// the 256x256 area of the first, the steps between areas, and the place
/// within the area.
pub struct UnitGrid {
    pub w: int,
    pub h: int,
    pub slot: int,
    pub step_x: int,
    pub step_y: int,
    pub area: int,
}

/// The restoration units of plane `pl` that are coded with the superblock at
/// column `bx`: none where no unit starts there, or where what is left of the
/// tile is less than half a unit, which then belongs to the unit before.
pub open spec fn unit_grid(
    fi: SbFrameInfo,
    p: RowParams,
    hdr: FrameHeader,
    bx: int,
    pl: int,
) -> Option<UnitGrid> {
    let ver = p2(if pl == 0 { 0 } else { fi.ss_ver as int });
    let hor = p2(if pl == 0 { 0 } else { fi.ss_hor as int });
    let log2 = p.unit_log2[b2i(pl != 0)] as int;
    let unit = p2(log2);
    let tx = 4 * (bx - p.tile.col_start) / hor;
    let ty = 4 * (p.by - p.tile.row_start) / ver;
    let tw = p.tile.col_end * 4 / hor;
    let th = p.tile.row_end * 4 / ver;
    let fx = 4 * bx / hor;
    let fy = 4 * p.by / ver;
    let sbsz = fi.sb_step * 4;
    if hdr.restoration.p[pl].restoration_type == RestorationType::Off {
        None
    } else if tx % unit != 0 || ty % unit != 0 {
        None
    } else if (ty != 0 && fy + unit / 2 > th) || (tx != 0 && fx + unit / 2 > tw) {
        None
    } else {
        Some(
            UnitGrid {
                w: max(1, min(tw - fx + unit / 2, sbsz / hor) / unit),
                h: max(1, min(th - fy + unit / 2, sbsz / ver) / unit),
                slot: p.by as int / 64 * p.sb256w + bx / 64,
                step_x: p2(log2 - 7 + (if pl == 0 { 0 } else { fi.ss_hor as int })),
                step_y: p.sb256w * p2(log2 - 7 + (if pl == 0 { 0 } else { fi.ss_ver as int })),
                area: area_of(bx, p.by as int),
            },
        )
    }
}

/// The 256x256 area of unit number `k`.
pub open spec fn unit_slot(g: UnitGrid, k: int) -> int {
    g.slot + k / g.w * g.step_y + k % g.w * g.step_x
}

/// The units from number `k` on: the bank, the units and the state after
/// them. There is no answer where a unit lies outside the frame.
pub open spec fn units_from(
    s: Sym,
    classes: Seq<BankClass>,
    lr: Seq<Seq<Seq<UnitView>>>,
    g: UnitGrid,
    k: int,
    pl: int,
    kind: RestorationType,
    ns: NSWienerPlane,
    t: NsTables,
) -> Option<(Sym, Seq<BankClass>, Seq<Seq<Seq<UnitView>>>)>
    decreases g.w * g.h - k,
{
    if k >= g.w * g.h {
        Some((s, classes, lr))
    } else {
        let slot = unit_slot(g, k);
        if slot >= lr.len() {
            None
        } else {
            let u = lr[slot][pl][g.area];
            let (kind1, rows, classes, s) = restoration_read(
                s,
                u.filters,
                classes,
                kind,
                ns,
                t,
                pl != 0,
            );
            let lr = lr.update(
                slot,
                lr[slot].update(
                    pl,
                    lr[slot][pl].update(g.area, UnitView { kind: kind1, filters: rows }),
                ),
            );
            units_from(s, classes, lr, g, k + 1, pl, kind, ns, t)
        }
    }
}

/// The units of the planes from `pl` on.
pub open spec fn planes_from(
    s: Sym,
    banks: Seq<Seq<BankClass>>,
    lr: Seq<Seq<Seq<UnitView>>>,
    fi: SbFrameInfo,
    p: RowParams,
    hdr: FrameHeader,
    bx: int,
    pl: int,
) -> Option<(Sym, Seq<Seq<BankClass>>, Seq<Seq<Seq<UnitView>>>)>
    decreases 3 - pl,
{
    if pl >= 3 {
        Some((s, banks, lr))
    } else {
        match unit_grid(fi, p, hdr, bx, pl) {
            None => planes_from(s, banks, lr, fi, p, hdr, bx, pl + 1),
            Some(g) => match units_from(
                s,
                banks[pl],
                lr,
                g,
                0,
                pl,
                hdr.restoration.p[pl].restoration_type,
                hdr.restoration.p[pl].ns,
                p.tables(pl),
            ) {
                None => None,
                Some((s, classes, lr)) => planes_from(
                    s,
                    banks.update(pl, classes),
                    lr,
                    fi,
                    p,
                    hdr,
                    bx,
                    pl + 1,
                ),
            },
        }
    }
}

fn units_down(len: i32, sb: i32, log2: u32) -> (r: i32)
    requires
        log2 <= 12,
        0 <= sb <= 256,
        len <= 0x1000_0000,
    ensures
        r == max(1, min(len as int, sb as int) / p2(log2 as int)),
        1 <= r <= 256,
{
    imax(1, shr(imin(len, sb), log2))
}

/// A grid of units, in numbers that can be computed with.
struct Grid {
    w: i32,
    h: i32,
    slot: i64,
    step_x: i64,
    step_y: i64,
    area: usize,
}

impl Grid {
    spec fn is(self, g: UnitGrid) -> bool {
        &&& self.w == g.w
        &&& self.h == g.h
        &&& self.slot == g.slot
        &&& self.step_x == g.step_x
        &&& self.step_y == g.step_y
        &&& self.area == g.area
        &&& 1 <= self.w <= 256
        &&& 1 <= self.h <= 256
        &&& 0 <= self.slot <= 0x10_0000_0000
        &&& 0 <= self.step_x <= 64
        &&& 0 <= self.step_y <= 0x40_0000
        &&& self.area < 16
    }
}

fn find_grid(fi: &SbFrameInfo, p: &RowParams, hdr: &FrameHeader, bx: i32, pl: usize) -> (r: Option<
    Grid,
>)
    requires
        frame_ok(*fi),
        p.valid(*fi),
        p.tile.col_start <= bx <= 0x10_0000,
        pl < 3,
    ensures
        r is None <==> unit_grid(*fi, *p, *hdr, bx as int, pl as int) is None,
        r matches Some(g) ==> g.is(unit_grid(*fi, *p, *hdr, bx as int, pl as int)->Some_0),
{
    let ver: u32 = if pl == 0 { 0 } else { fi.ss_ver as u32 };
    let hor: u32 = if pl == 0 { 0 } else { fi.ss_hor as u32 };
    if hdr.restoration.p[pl].restoration_type == RestorationType::Off {
        return None;
    }
    assert(POW2[0] == 1 && POW2[1] == 2);
    assert(forall|k: int| 0 <= k <= 12 ==> 1 <= #[trigger] POW2[k] <= 0x1000);
    let chroma: usize = if pl == 0 { 0 } else { 1 };
    let log2: u32 = p.unit_log2[chroma] as u32;
    let unit: i32 = POW2[log2 as usize] as i32;
    let tx: i32 = shr(4 * (bx - p.tile.col_start), hor);
    let ty: i32 = shr(4 * (p.by - p.tile.row_start), ver);
    if tx % unit != 0 || ty % unit != 0 {
        return None;
    }
    let tw: i32 = shr(p.tile.col_end * 4, hor);
    let th: i32 = shr(p.tile.row_end * 4, ver);
    let fx: i32 = shr(4 * bx, hor);
    let fy: i32 = shr(4 * p.by, ver);
    if (ty != 0 && fy + unit / 2 > th) || (tx != 0 && fx + unit / 2 > tw) {
        return None;
    }
    let sbsz: i32 = fi.sb_step * 4;
    let row: i64 = (p.by / 64) as i64;
    assert(0 <= row * p.sb256w <= 0x4000 * 0x1_0000) by (nonlinear_arith)
        requires
            0 <= row <= 0x4000,
            0 <= p.sb256w <= 0x1_0000,
    ;
    assert(forall|k: int| 0 <= k <= 6 ==> 1 <= #[trigger] POW2[k] <= 64);
    let down: i64 = POW2[(log2 + ver - 7) as usize];
    assert(0 <= p.sb256w * down <= 0x1_0000 * 64) by (nonlinear_arith)
        requires
            0 <= p.sb256w <= 0x1_0000,
            1 <= down <= 64,
    ;
    Some(
        Grid {
            w: units_down(tw - fx + unit / 2, shr(sbsz, hor), log2),
            h: units_down(th - fy + unit / 2, shr(sbsz, ver), log2),
            slot: row * p.sb256w as i64 + (bx / 64) as i64,
            step_x: POW2[(log2 + hor - 7) as usize],
            step_y: p.sb256w as i64 * down,
            area: (p.by / 16 % 4 * 4 + bx / 16 % 4) as usize,
        },
    )
}

/// A tile row that is being decoded.
pub struct RowContext {
    /// The contexts above, by tile row and 256x256 column.
    pub a: Vec<BlockContext>,
    /// The superblock that is being decoded, and what runs through all of
    /// them.
    pub sb: SbContext,
    pub banks: [NsWienerBank; 3],
    pub lr: Vec<Av2Restoration>,
}

/// All that decoding a row of superblocks changes.
pub struct RowState {
    pub a: Seq<BlockContext>,
    pub sb: SbState,
    pub banks: Seq<Seq<BankClass>>,
    pub lr: Seq<Seq<Seq<UnitView>>>,
}

/// The banks of the planes.
pub open spec fn bank_classes(banks: [NsWienerBank; 3]) -> Seq<Seq<BankClass>> {
    Seq::new(3, |p: int| banks[p].classes())
}

impl View for RowContext {
    type V = RowState;

    open spec fn view(&self) -> RowState {
        RowState {
            a: self.a@,
            sb: self.sb@,
            banks: bank_classes(self.banks),
            lr: frame_units(self.lr@),
        }
    }
}

/// Every filter of the banks lies in range.
pub open spec fn banks_ok(banks: Seq<Seq<BankClass>>, p: RowParams) -> bool {
    &&& banks.len() == 3
    &&& forall|pl: int|
        0 <= pl < 3 ==> bank_in_range(#[trigger] banks[pl], p.tables(pl), ns_coeffs(pl))
}

fn read_units(
    msac: &mut MsacContext,
    bank: &mut NsWienerBank,
    lr: &mut Vec<Av2Restoration>,
    g: &Grid,
    Ghost(grid): Ghost<UnitGrid>,
    pl: usize,
    kind: RestorationType,
    ns: &NSWienerPlane,
    t: &NsTables,
) -> (r: bool)
    requires
        g.is(grid),
        pl < 3,
        ns.num_classes <= 16,
        t.valid(pl != 0),
        bank_in_range(old(bank).classes(), *t, ns_coeffs(pl as int)),
    ensures
        bank_in_range(final(bank).classes(), *t, ns_coeffs(pl as int)),
        final(lr)@.len() == old(lr)@.len(),
        ({
            let u = units_from(
                old(msac)@,
                old(bank).classes(),
                frame_units(old(lr)@),
                grid,
                0,
                pl as int,
                kind,
                *ns,
                *t,
            );
            &&& r == (u is Some)
            &&& r ==> u == Some((final(msac)@, final(bank).classes(), frame_units(final(lr)@)))
        }),
{
    let ghost (s0, c0, l0) = (msac@, bank.classes(), frame_units(lr@));
    assert(1 <= g.w * g.h <= 256 * 256) by (nonlinear_arith)
        requires
            1 <= g.w <= 256,
            1 <= g.h <= 256,
    ;
    let n: i32 = g.w * g.h;
    let mut k: i32 = 0;
    while k < n
        invariant
            0 <= k <= n,
            n == g.w * g.h,
            n <= 256 * 256,
            g.is(grid),
            pl < 3,
            ns.num_classes <= 16,
            t.valid(pl != 0),
            bank_in_range(bank.classes(), *t, ns_coeffs(pl as int)),
            lr@.len() == old(lr)@.len(),
            units_from(s0, c0, l0, grid, 0, pl as int, kind, *ns, *t) == units_from(
                msac@,
                bank.classes(),
                frame_units(lr@),
                grid,
                k as int,
                pl as int,
                kind,
                *ns,
                *t,
            ),
            s0 == old(msac)@,
            c0 == old(bank).classes(),
            l0 == frame_units(old(lr)@),
        decreases n - k,
    {
        let y: i32 = k / g.w;
        let x: i32 = k % g.w;
        assert(0 <= y <= k) by (nonlinear_arith)
            requires
                y == k / g.w,
                0 <= k,
                1 <= g.w,
        ;
        assert(0 <= y * g.step_y <= 0x1_0000 * 0x40_0000) by (nonlinear_arith)
            requires
                0 <= y <= 0x1_0000,
                0 <= g.step_y <= 0x40_0000,
        ;
        assert(0 <= x * g.step_x <= 256 * 64) by (nonlinear_arith)
            requires
                0 <= x <= 256,
                0 <= g.step_x <= 64,
        ;
        let at: i64 = g.slot + y as i64 * g.step_y + x as i64 * g.step_x;
        assert(at == unit_slot(grid, k as int));
        if at as u64 >= lr.len() as u64 {
            return false;
        }
        let slot: usize = at as usize;
        let ghost before = lr@;
        let ghost classes = bank.classes();
        let mut m: Av2Restoration = lr[slot];
        let mut row: [Av2RestorationUnit; 16] = m.lr[pl];
        let mut unit: Av2RestorationUnit = row[g.area];
        assert(frame_units(before)[slot as int][pl as int][g.area as int] == unit_view(unit));
        read_restoration_info(msac, bank, &mut unit, pl, kind, ns, t);
        row[g.area] = unit;
        m.lr[pl] = row;
        lr.set(slot, m);
        proof {
            let f = frame_units(before);
            let g1 = f.update(
                slot as int,
                f[slot as int].update(
                    pl as int,
                    f[slot as int][pl as int].update(g.area as int, unit_view(unit)),
                ),
            );
            assert(plane_view(m, pl as int) =~= f[slot as int][pl as int].update(
                g.area as int,
                unit_view(unit),
            ));
            assert forall|q: int| 0 <= q < 3 && q != pl implies #[trigger] plane_view(m, q)
                == f[slot as int][q] by {
                assert(plane_view(m, q) =~= plane_view(before[slot as int], q));
            }
            assert(units_view(m) =~= g1[slot as int]);
            assert(frame_units(lr@) =~= g1);
        }
        k = k + 1;
    }
    true
}

fn read_planes(
    fi: &SbFrameInfo,
    p: &RowParams,
    hdr: &FrameHeader,
    bx: i32,
    c: &mut RowContext,
) -> (r: bool)
    requires
        frame_ok(*fi),
        p.valid(*fi),
        classes_fit(*hdr),
        p.tile.col_start <= bx <= 0x10_0000,
        banks_ok(old(c)@.banks, *p),
    ensures
        ({
            let u = planes_from(
                old(c)@.sb.sym,
                old(c)@.banks,
                old(c)@.lr,
                *fi,
                *p,
                *hdr,
                bx as int,
                0,
            );
            &&& r == (u is Some)
            &&& r ==> u == Some((final(c)@.sb.sym, final(c)@.banks, final(c)@.lr))
        }),
        banks_ok(final(c)@.banks, *p),
        final(c).a == old(c).a,
        final(c)@.sb == (SbState { sym: final(c)@.sb.sym, ..old(c)@.sb }),
        final(c).sb.t == old(c).sb.t,
{
    let ghost c0 = *c;
    let mut pl: usize = 0;
    while pl < 3
        invariant
            pl <= 3,
            frame_ok(*fi),
            p.valid(*fi),
            classes_fit(*hdr),
            p.tile.col_start <= bx <= 0x10_0000,
            banks_ok(c@.banks, *p),
            c0 == *old(c),
            c.a == c0.a,
            c@.sb == (SbState { sym: c@.sb.sym, ..c0@.sb }),
            c.sb.t == c0.sb.t,
            planes_from(c0@.sb.sym, c0@.banks, c0@.lr, *fi, *p, *hdr, bx as int, 0) == planes_from(
                c@.sb.sym,
                c@.banks,
                c@.lr,
                *fi,
                *p,
                *hdr,
                bx as int,
                pl as int,
            ),
        decreases 3 - pl,
    {
        let ghost banks0 = c@.banks;
        assert(bank_in_range(banks0[pl as int], p.tables(pl as int), ns_coeffs(pl as int)));
        if let Some(g) = find_grid(fi, p, hdr, bx, pl) {
            let ghost grid = unit_grid(*fi, *p, *hdr, bx as int, pl as int)->Some_0;
            let mut bank: NsWienerBank = c.banks[pl];
            let kind: RestorationType = hdr.restoration.p[pl].restoration_type;
            let t: &NsTables = if pl == 0 { p.y } else { p.uv };
            let ok: bool = read_units(
                &mut c.sb.msac,
                &mut bank,
                &mut c.lr,
                &g,
                Ghost(grid),
                pl,
                kind,
                &hdr.restoration.p[pl].ns,
                t,
            );
            c.banks[pl] = bank;
            assert(c@.banks =~= banks0.update(pl as int, bank.classes()));
            if !ok {
                return false;
            }
        }
        pl = pl + 1;
    }
    true
}

/// How many 64x64 areas a superblock has along a side.
pub open spec fn areas_of(bs: BlockSize) -> int {
    if bs == BlockSize::Bs64x64 {
        1
    } else if bs == BlockSize::Bs128x128 {
        2
    } else {
        4
    }
}

/// The first 64x64 area of a superblock in its 256x256 area.
pub open spec fn first_area(bs: BlockSize, bx: int, by: int) -> int {
    if bs == BlockSize::Bs64x64 {
        area_of(bx, by)
    } else if bs == BlockSize::Bs128x128 {
        by / 32 % 2 * 8 + bx / 32 % 2 * 2
    } else {
        0
    }
}

/// No strength is known yet in the areas of a superblock.
pub open spec fn strengths_cleared(
    before: SbFilter,
    after: SbFilter,
    bs: BlockSize,
    bx: int,
    by: int,
) -> bool {
    &&& after.gdf == before.gdf
    &&& after.ccso == before.ccso
    &&& forall|i: int|
        0 <= i < 16 ==> #[trigger] after.cdef_idx[i] == (if in_areas(
            i,
            first_area(bs, bx, by),
            areas_of(bs),
            areas_of(bs),
        ) {
            -1
        } else {
            before.cdef_idx[i] as int
        })
}

fn clear_strengths(f: &mut SbFilter, bs: BlockSize, bx: i32, by: i32)
    requires
        0 <= bx,
        0 <= by,
        bs == BlockSize::Bs64x64 || bs == BlockSize::Bs128x128 || bs == BlockSize::Bs256x256,
    ensures
        strengths_cleared(*old(f), *final(f), bs, bx as int, by as int),
{
    let (idx, n): (usize, usize) = if bs == BlockSize::Bs64x64 {
        ((by / 16 % 4 * 4 + bx / 16 % 4) as usize, 1)
    } else if bs == BlockSize::Bs128x128 {
        ((by / 32 % 2 * 8 + bx / 32 % 2 * 2) as usize, 2)
    } else {
        (0, 4)
    };
    let ghost f0 = *f;
    let mut i: usize = 0;
    while i < 16
        invariant
            i <= 16,
            idx < 16,
            n <= 4,
            idx == first_area(bs, bx as int, by as int),
            n == areas_of(bs),
            f.gdf == f0.gdf,
            f.ccso == f0.ccso,
            forall|k: int|
                0 <= k < 16 ==> #[trigger] f.cdef_idx[k] == (if k < i && in_areas(
                    k,
                    idx as int,
                    n as int,
                    n as int,
                ) {
                    -1
                } else {
                    f0.cdef_idx[k] as int
                }),
        decreases 16 - i,
    {
        if idx % 4 <= i % 4 && i % 4 < idx % 4 + n && idx / 4 <= i / 4 && i / 4 < idx / 4 + n {
            f.cdef_idx[i] = -1;
        }
        i = i + 1;
    }
}

/// What a tile takes over from other frames.
pub struct RowInput<'a> {
    pub prev_segmap: Option<&'a [u8]>,
    pub ccso: CcsoMaps<'a>,
    pub table: &'a DqTable,
    pub motion: &'a MotionFrame,
}

/// The same, at a 256x256 area.
pub open spec fn input_at<'a>(input: RowInput<'a>, lf_idx: int) -> TileInput<'a> {
    TileInput {
        prev_segmap: input.prev_segmap,
        ccso: input.ccso,
        lf_idx: lf_idx as usize,
        table: input.table,
        motion: input.motion,
    }
}

/// The place of the contexts above a superblock.
pub open spec fn above_at(p: RowParams, bx: int) -> int {
    p.tile.row * p.sb256w + bx / 64
}

/// The 256x256 area of a superblock.
pub open spec fn filter_at(p: RowParams, bx: int) -> int {
    bx / 64 + p.by as int / 64 * p.sb256w
}

/// The superblock at column `bx`.
pub open spec fn root_node(p: RowParams, bx: int) -> SbNode {
    SbNode { bx: bx as i32, by: p.by, lbs: p.root_bs, cbs: p.c_root_bs }
}

/// What is ready where a superblock starts: the context above it, the walk,
/// and the quantizer; the strengths of its areas are not known.
pub open spec fn sb_begun(
    fi: SbFrameInfo,
    p: RowParams,
    bx: int,
    s0: RowState,
    sym: Sym,
    m: SbState,
) -> bool {
    let i = filter_at(p, bx);
    &&& m.sym == sym
    &&& m.a == s0.a[above_at(p, bx)]
    &&& m.l == s0.sb.l
    &&& m.walk == (Walk {
        cbx: bx as i32,
        cby: p.by,
        intra_region: false,
        cfl_disallowed: false,
    })
    &&& m.parts == s0.sb.parts
    &&& m.leaves == s0.sb.leaves
    &&& m.blocks == s0.sb.blocks
    &&& m.t.segmap == s0.sb.t.segmap
    &&& m.t.ccso == s0.sb.t.ccso
    &&& m.t.qidx == s0.sb.t.qidx
    &&& m.t.dir_map == s0.sb.t.dir_map
    &&& m.t.fsc_map == s0.sb.t.fsc_map
    &&& m.t.dq == s0.sb.t.dq
    &&& m.t.motion == s0.sb.t.motion
    &&& m.t.warp == s0.sb.t.warp
    &&& m.t.dequant == (if m.t.qidx == fi.quant_yac {
        DequantChoice::Frame
    } else {
        DequantChoice::Keep
    })
    &&& m.t.lf@.len() == s0.sb.t.lf@.len()
    &&& forall|k: int|
        0 <= k < m.t.lf@.len() ==> if k == i {
            strengths_cleared(s0.sb.t.lf@[k], #[trigger] m.t.lf@[k], p.root_bs, bx, p.by as int)
        } else {
            m.t.lf@[k] == s0.sb.t.lf@[k]
        }
}

/// Every superblock of the row has its place in what is kept.
pub open spec fn has_place(p: RowParams, s: RowState, bx: int) -> bool {
    above_at(p, bx) < s.a.len() && filter_at(p, bx) < s.sb.t.lf@.len()
}

/// Marks the state in which a superblock starts, and the one it ends in.
pub open spec fn within(m: SbState, d: DirState, e: SbState) -> bool {
    true
}

/// Decoding the superblock at column `bx` takes `s0` to `s1`: its restoration
/// units, then its blocks.
pub open spec fn row_sb(
    fi: SbFrameInfo,
    p: RowParams,
    hdr: FrameHeader,
    input: RowInput,
    bx: int,
    s0: RowState,
    s1: RowState,
) -> bool {
    let u = planes_from(s0.sb.sym, s0.banks, s0.lr, fi, p, hdr, bx, 0);
    &&& has_place(p, s0, bx)
    &&& u is Some
    &&& s1.banks == u->Some_0.1
    &&& s1.lr == u->Some_0.2
    &&& s1.a == s0.a.update(above_at(p, bx), s1.sb.a)
    &&& exists|m: SbState, d: DirState| #[trigger]
        within(m, d, s1.sb) && sb_begun(fi, p, bx, s0, u->Some_0.0, m) && sb_run(
            fi,
            root_node(p, bx),
            input_at(input, filter_at(p, bx)),
            no_dirs(false),
            m,
            d,
            s1.sb,
            true,
        )
}

/// The superblock at column `bx` cannot be decoded from `s0`.
pub open spec fn row_sb_fails(
    fi: SbFrameInfo,
    p: RowParams,
    hdr: FrameHeader,
    input: RowInput,
    bx: int,
    s0: RowState,
) -> bool {
    let u = planes_from(s0.sb.sym, s0.banks, s0.lr, fi, p, hdr, bx, 0);
    ||| !has_place(p, s0, bx)
    ||| u is None
    ||| exists|m: SbState, d: DirState, e: SbState| #[trigger]
        within(m, d, e) && sb_begun(fi, p, bx, s0, u->Some_0.0, m) && sb_run(
            fi,
            root_node(p, bx),
            input_at(input, filter_at(p, bx)),
            no_dirs(false),
            m,
            d,
            e,
            false,
        )
}

/// Marks the state between two superblocks.
pub open spec fn between_sbs(s: RowState) -> bool {
    true
}

/// Decoding the superblocks up to column `bx` takes `s0` to `s1`.
pub open spec fn row_run(
    fi: SbFrameInfo,
    p: RowParams,
    hdr: FrameHeader,
    input: RowInput,
    n: int,
    s0: RowState,
    s1: RowState,
) -> bool
    decreases n,
{
    if n <= 0 {
        s1 == s0
    } else {
        exists|m: RowState| #[trigger]
            between_sbs(m) && row_run(fi, p, hdr, input, n - 1, s0, m) && row_sb(
                fi,
                p,
                hdr,
                input,
                sb_column(fi, p, n - 1),
                m,
                s1,
            )
    }
}

/// The column of superblock number `n` of the row.
pub open spec fn sb_column(fi: SbFrameInfo, p: RowParams, n: int) -> int {
    p.tile.col_start + n * fi.sb_step
}

/// How many superblocks the row has.
pub open spec fn sb_count(fi: SbFrameInfo, p: RowParams) -> int {
    if p.tile.col_end <= p.tile.col_start {
        0
    } else {
        (p.tile.col_end - p.tile.col_start + fi.sb_step - 1) / fi.sb_step as int
    }
}

/// By how many bits at most reading can go beyond the data of a tile.
pub const MAX_OVERRUN: u32 = 14;

/// What is left of a row once its superblocks are decoded: the reader tells by
/// how much it went beyond its data.
pub open spec fn row_closed(s: RowState) -> RowState {
    RowState { sb: SbState { sym: s.sb.sym.overrun().1, ..s.sb }, ..s }
}

/// The reader went too far beyond its data.
pub open spec fn row_overran(s: RowState) -> bool {
    s.sb.sym.overrun().0 > MAX_OVERRUN
}

/// Decoding all superblocks of a row takes `s0` to `s1`, and the data of the
/// tile was enough for them.
pub open spec fn row_done(
    fi: SbFrameInfo,
    p: RowParams,
    hdr: FrameHeader,
    input: RowInput,
    s0: RowState,
    s1: RowState,
) -> bool {
    exists|m: RowState| #[trigger]
        row_run(fi, p, hdr, input, sb_count(fi, p), s0, m) && !row_overran(m) && s1 == row_closed(m)
}

/// A row cannot be decoded from `s0`: superblock number `n` fails after those
/// before it led to `m`, or all of them did and the data was not enough.
pub open spec fn row_fails(
    fi: SbFrameInfo,
    p: RowParams,
    hdr: FrameHeader,
    input: RowInput,
    s0: RowState,
    n: int,
    m: RowState,
) -> bool {
    &&& 0 <= n <= sb_count(fi, p)
    &&& row_run(fi, p, hdr, input, n, s0, m)
    &&& if n < sb_count(fi, p) {
        row_sb_fails(fi, p, hdr, input, sb_column(fi, p, n), m)
    } else {
        row_overran(m)
    }
}

/// What holds between the superblocks of a row.
pub open spec fn row_ok(fi: SbFrameInfo, p: RowParams, input: RowInput, s: RowState) -> bool {
    &&& forall|i: int| 0 <= i < s.a.len() ==> (#[trigger] s.a[i]).wf()
    &&& s.sb.l.wf()
    &&& banks_ok(s.banks, p)
    &&& 0 <= s.sb.t.qidx <= 0xffff
    &&& s.sb.t.lf@.len() > 0 ==> tile_ok(fi, s.sb.t, input_at(input, 0))
}

fn decode_row_sb(
    fi: &SbFrameInfo,
    p: &RowParams,
    hdr: &FrameHeader,
    input: &RowInput,
    bx: i32,
    c: &mut RowContext,
) -> (r: Result<()>)
    requires
        frame_ok(*fi),
        p.valid(*fi),
        classes_fit(*hdr),
        p.tile.col_start <= bx < p.tile.col_end,
        row_ok(*fi, *p, *input, old(c)@),
    ensures
        r is Ok ==> row_sb(*fi, *p, *hdr, *input, bx as int, old(c)@, final(c)@),
        r is Ok ==> row_ok(*fi, *p, *input, final(c)@),
        r is Err ==> row_sb_fails(*fi, *p, *hdr, *input, bx as int, old(c)@),
        r is Err ==> r->Err_0 == Rav2dError::InvalidData,
{
    let ghost s0 = c@;
    assert(0 <= p.tile.row * p.sb256w <= 64 * 0x1_0000) by (nonlinear_arith)
        requires
            0 <= p.tile.row <= 64,
            0 <= p.sb256w <= 0x1_0000,
    ;
    let row: i64 = (p.by / 64) as i64;
    assert(0 <= row * p.sb256w <= 0x4000 * 0x1_0000) by (nonlinear_arith)
        requires
            0 <= row <= 0x4000,
            0 <= p.sb256w <= 0x1_0000,
    ;
    let a_idx: i64 = p.tile.row as i64 * p.sb256w as i64 + (bx / 64) as i64;
    let lf_at: i64 = (bx / 64) as i64 + row * p.sb256w as i64;
    if a_idx as u64 >= c.a.len() as u64 || lf_at as u64 >= c.sb.t.lf.len() as u64 {
        return Err(Rav2dError::InvalidData);
    }
    let a_idx: usize = a_idx as usize;
    let lf_idx: usize = lf_at as usize;
    let at: TileInput = TileInput {
        prev_segmap: input.prev_segmap,
        ccso: CcsoMaps {
            prev0: input.ccso.prev0,
            prev1: input.ccso.prev1,
            prev2: input.ccso.prev2,
        },
        lf_idx,
        table: input.table,
        motion: input.motion,
    };
    if !read_planes(fi, p, hdr, bx, c) {
        return Err(Rav2dError::InvalidData);
    }
    let ghost s1 = c@;
    let mut f: SbFilter = c.sb.t.lf[lf_idx];
    clear_strengths(&mut f, p.root_bs, bx, p.by);
    c.sb.t.lf.set(lf_idx, f);
    c.sb.t.dequant = if c.sb.t.qidx == fi.quant_yac {
        DequantChoice::Frame
    } else {
        DequantChoice::Keep
    };
    c.sb.a = c.a[a_idx];
    c.sb.walk = Walk { cbx: bx, cby: p.by, intra_region: false, cfl_disallowed: false };
    let n: SbNode = SbNode { bx, by: p.by, lbs: p.root_bs, cbs: p.c_root_bs };
    proof {
        crate::levels::lemma_block_dimensions(p.root_bs);
        assert(tile_ok(*fi, s0.sb.t, input_at(*input, 0)));
        assert forall|i: int, j: int| 0 <= i < c.sb.t.lf@.len() && 0 <= j < 16 implies -1
            <= #[trigger] c.sb.t.lf@[i].cdef_idx[j] <= 100 by {
            assert(-1 <= s0.sb.t.lf@[i].cdef_idx[j] <= 100);
        }
        assert(tile_ok(*fi, c.sb.t, at));
    }
    let ghost m = c.sb@;
    assert(sb_begun(*fi, *p, bx as int, s0, s1.sb.sym, m));
    let mut dir: DirState = DirState { dir: 0, part: 0, child: 0, at_limit: false };
    let res: Result<()> = decode_sb(fi, &n, &at, &mut dir, &mut c.sb);
    assert(at == input_at(*input, filter_at(*p, bx as int)));
    assert(within(m, dir, c.sb@));
    match res {
        Ok(_) => {
            c.a.set(a_idx, c.sb.a);
            proof {
                assert(tile_ok(*fi, c.sb.t, at));
                assert(tile_ok(*fi, c.sb.t, input_at(*input, 0)));
            }
            Ok(())
        },
        Err(e) => Err(e),
    }
}

/// Decodes one row of superblocks of a tile. Fails where a superblock does,
/// where one lies outside of what is kept for the frame, or where reading went
/// too far beyond the data of the tile.
pub fn decode_tile_sbrow_entropy(
    fi: &SbFrameInfo,
    p: &RowParams,
    hdr: &FrameHeader,
    input: &RowInput,
    c: &mut RowContext,
) -> (r: Result<()>)
    requires
        frame_ok(*fi),
        p.valid(*fi),
        classes_fit(*hdr),
        row_ok(*fi, *p, *input, old(c)@),
    ensures
        r is Ok ==> row_done(*fi, *p, *hdr, *input, old(c)@, final(c)@),
        r is Ok ==> row_ok(*fi, *p, *input, final(c)@),
        r is Err ==> exists|n: int, m: RowState| #[trigger]
            row_fails(*fi, *p, *hdr, *input, old(c)@, n, m),
        r is Err ==> r->Err_0 == Rav2dError::InvalidData,
{
    let ghost s0 = c@;
    let mut bx: i32 = p.tile.col_start;
    let ghost mut n: int = 0;
    proof {
        lemma_sb_count(*fi, *p, 0);
    }
    while bx < p.tile.col_end
        invariant
            frame_ok(*fi),
            p.valid(*fi),
            classes_fit(*hdr),
            s0 == old(c)@,
            row_ok(*fi, *p, *input, c@),
            p.tile.col_start <= bx <= max(p.tile.col_start as int, p.tile.col_end + 64),
            bx == sb_column(*fi, *p, n),
            0 <= n <= sb_count(*fi, *p),
            bx < p.tile.col_end <==> n < sb_count(*fi, *p),
            row_run(*fi, *p, *hdr, *input, n, s0, c@),
        decreases max(p.tile.col_start as int, p.tile.col_end + 64) - bx,
    {
        let ghost m = c@;
        match decode_row_sb(fi, p, hdr, input, bx, c) {
            Ok(_) => {},
            Err(e) => {
                assert(row_fails(*fi, *p, *hdr, *input, s0, n, m));
                return Err(e);
            },
        }
        assert(between_sbs(m));
        proof {
            n = n + 1;
            lemma_sb_count(*fi, *p, n - 1);
            lemma_sb_count(*fi, *p, n);
        }
        bx = bx + fi.sb_step;
    }
    let ghost m = c@;
    let over: u32 = c.sb.msac.overrun();
    if over > MAX_OVERRUN {
        assert(row_fails(*fi, *p, *hdr, *input, s0, n, m));
        return Err(Rav2dError::InvalidData);
    }
    assert(row_run(*fi, *p, *hdr, *input, sb_count(*fi, *p), s0, m));
    assert(c@ == row_closed(m));
    Ok(())
}

proof fn lemma_sb_count(fi: SbFrameInfo, p: RowParams, n: int)
    requires
        frame_ok(fi),
        0 <= n,
    ensures
        sb_column(fi, p, n) < p.tile.col_end <==> n < sb_count(fi, p),
        0 <= sb_count(fi, p),
        sb_column(fi, p, n + 1) == sb_column(fi, p, n) + fi.sb_step,
{
    let step = fi.sb_step as int;
    assert((n + 1) * step == n * step + step) by (nonlinear_arith);
    let len = p.tile.col_end - p.tile.col_start;
    if len > 0 {
        if step == 16 {
            assert(n * step == n * 16 && (len + step - 1) / step == (len + 15) / 16)
                by (nonlinear_arith)
                requires
                    step == 16,
            ;
        } else if step == 32 {
            assert(n * step == n * 32 && (len + step - 1) / step == (len + 31) / 32)
                by (nonlinear_arith)
                requires
                    step == 32,
            ;
        } else {
            assert(n * step == n * 64 && (len + step - 1) / step == (len + 63) / 64)
                by (nonlinear_arith)
                requires
                    step == 64,
            ;
        }
    } else {
        assert(n * step >= 0) by (nonlinear_arith)
            requires
                n >= 0,
                step >= 0,
        ;
    }
}

/// Every superblock of the tile row starts within the tile, and no column of
/// the tile is left out.
pub proof fn law_row_covers_the_tile(fi: SbFrameInfo, p: RowParams, x: int)
    requires
        frame_ok(fi),
        p.tile.col_start <= x < p.tile.col_end,
    ensures
        ({
            let n = (x - p.tile.col_start) / fi.sb_step as int;
            &&& 0 <= n < sb_count(fi, p)
            &&& sb_column(fi, p, n) <= x < sb_column(fi, p, n + 1)
            &&& sb_column(fi, p, n) < p.tile.col_end
        }),
{
    let step = fi.sb_step as int;
    let n = (x - p.tile.col_start) / step;
    vstd::arithmetic::div_mod::lemma_fundamental_div_mod(x - p.tile.col_start, step);
    assert(step * n == n * step) by (nonlinear_arith);
    assert(n >= 0) by (nonlinear_arith)
        requires
            n == (x - p.tile.col_start) / step,
            x - p.tile.col_start >= 0,
            step > 0,
    ;
    lemma_sb_count(fi, p, n);
}

/// Every superblock of the row starts within the tile.
pub proof fn law_row_starts_in_the_tile(fi: SbFrameInfo, p: RowParams, n: int)
    requires
        frame_ok(fi),
        0 <= n < sb_count(fi, p),
    ensures
        p.tile.col_start <= sb_column(fi, p, n) < p.tile.col_end,
{
    lemma_sb_count(fi, p, n);
    assert(n * fi.sb_step >= 0) by (nonlinear_arith)
        requires
            n >= 0,
            fi.sb_step >= 0,
    ;
}

/// The units that are coded with a superblock are counted row by row: the next
/// one lies to the right, and after the last of a row the first of the next
/// row below.
pub proof fn law_units_go_row_by_row(g: UnitGrid, k: int)
    requires
        1 <= g.w,
        0 <= k,
    ensures
        unit_slot(g, 0) == g.slot,
        k % g.w + 1 < g.w ==> unit_slot(g, k + 1) == unit_slot(g, k) + g.step_x,
        unit_slot(g, k + g.w) == unit_slot(g, k) + g.step_y,
{
    vstd::arithmetic::div_mod::lemma_fundamental_div_mod(k, g.w);
    let (q, r) = (k / g.w, k % g.w);
    assert(g.w * (q + 1) == g.w * q + g.w && (q + 1) * g.w == q * g.w + g.w && q * g.w == g.w * q)
        by (nonlinear_arith);
    vstd::arithmetic::div_mod::lemma_fundamental_div_mod_converse(k + g.w, g.w, q + 1, r);
    if r + 1 < g.w {
        vstd::arithmetic::div_mod::lemma_fundamental_div_mod_converse(k + 1, g.w, q, r + 1);
        assert((r + 1) * g.step_x == r * g.step_x + g.step_x) by (nonlinear_arith);
    }
    assert((q + 1) * g.step_y == q * g.step_y + g.step_y) by (nonlinear_arith);
    assert(0int / g.w == 0 && 0int % g.w == 0) by (nonlinear_arith)
        requires
            g.w >= 1,
    ;
    assert(0 * g.step_y == 0 && 0 * g.step_x == 0);
}

/// Luma units are coded with the superblock that they start in, unless what is
/// left of the tile is less than half a unit.
pub proof fn law_units_are_coded_where_they_start(
    fi: SbFrameInfo,
    p: RowParams,
    hdr: FrameHeader,
    bx: int,
)
    requires
        p.valid(fi),
        p.tile.col_start <= bx <= 0x10_0000,
        16 <= fi.sb_step <= 64,
    ensures
        ({
            let unit = p2(p.unit_log2[0] as int);
            let (x, y) = (4 * (bx - p.tile.col_start), 4 * (p.by - p.tile.row_start));
            let (right, down) = (4 * (p.tile.col_end - bx), 4 * (p.tile.row_end - p.by));
            let g = unit_grid(fi, p, hdr, bx, 0);
            &&& g is Some ==> hdr.restoration.p[0].restoration_type != RestorationType::Off && x
                % unit == 0 && y % unit == 0
            &&& hdr.restoration.p[0].restoration_type != RestorationType::Off && x % unit == 0 && y
                % unit == 0 && right >= unit && down >= unit ==> g is Some
            &&& x != 0 && right < unit / 2 ==> g is None
            &&& y != 0 && down < unit / 2 ==> g is None
            &&& g matches Some(u) ==> u.w >= 1 && u.h >= 1 && u.slot == filter_at(p, bx)
        }),
{
    let unit = p2(p.unit_log2[0] as int);
    crate::mvread::lemma_pow2_steps();
    assert(unit >= 1);
    assert(p2(0) == 1);
    assert((4 * (bx - p.tile.col_start)) / 1 == 4 * (bx - p.tile.col_start));
    assert((4 * (p.by - p.tile.row_start)) / 1 == 4 * (p.by - p.tile.row_start));
    assert((p.tile.col_end * 4) / 1 == p.tile.col_end * 4);
    assert((p.tile.row_end * 4) / 1 == p.tile.row_end * 4);
    assert((4 * bx) / 1 == 4 * bx);
    assert((4 * p.by) / 1 == 4 * p.by);
    assert(0 <= unit / 2 <= unit) by (nonlinear_arith)
        requires
            unit >= 1,
    ;
}

/// A superblock finds its contexts above in its tile row and its column of
/// 256x256 areas, and its filters in the row and column of such an area; its
/// first 64x64 area is the one that its corner lies in.
pub proof fn law_superblocks_have_their_place(fi: SbFrameInfo, p: RowParams, bx: int)
    requires
        p.valid(fi),
        0 <= bx <= 0x10_0000,
        bx < 64 * p.sb256w,
    ensures
        filter_at(p, bx) / p.sb256w as int == p.by as int / 64,
        filter_at(p, bx) % p.sb256w as int == bx / 64,
        above_at(p, bx) / p.sb256w as int == p.tile.row,
        above_at(p, bx) % p.sb256w as int == bx / 64,
        root_node(p, bx).bx == bx && root_node(p, bx).by == p.by && root_node(p, bx).lbs
            == p.root_bs,
        p.root_bs == BlockSize::Bs64x64 ==> first_area(p.root_bs, bx, p.by as int) % 4 == bx / 16
            % 4 && first_area(p.root_bs, bx, p.by as int) / 4 == p.by as int / 16 % 4,
        p.root_bs == BlockSize::Bs128x128 && bx % 32 == 0 && p.by as int % 32 == 0 ==> first_area(
            p.root_bs,
            bx,
            p.by as int,
        ) % 4 == bx / 16 % 4 && first_area(p.root_bs, bx, p.by as int) / 4 == p.by as int / 16 % 4,
        p.root_bs == BlockSize::Bs256x256 ==> first_area(p.root_bs, bx, p.by as int) == 0,
        16 * areas_of(p.root_bs) == p.root_bs.w4(),
{
    reveal(BlockSize::w4);
    let w = p.sb256w as int;
    vstd::arithmetic::div_mod::lemma_fundamental_div_mod_converse(
        filter_at(p, bx),
        w,
        p.by as int / 64,
        bx / 64,
    );
    vstd::arithmetic::div_mod::lemma_fundamental_div_mod_converse(
        above_at(p, bx),
        w,
        p.tile.row as int,
        bx / 64,
    );
}

} // verus!
