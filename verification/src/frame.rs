//! What is set up once for a frame.
use vstd::prelude::*;

use crate::frameinfo::SbFrameInfo;
use crate::headers::{
    AdaptiveBoolean, FrameHeader, RestorationPlane, RestorationType, MAX_SEGMENTS,
};
use crate::intops::{b2i, max, min, p2, POW2};
use crate::restunit::Av2Restoration;
use crate::sbsyntax::SbFilter;

verus! {

/// The loop filters of a frame.
pub struct LoopFilterState {
    pub base_q: u32,
    pub wiener_idx: usize,
    pub ns_subclass_class_idx: Option<usize>,
    /// For each superblock row twice its tile row, plus one where it is the
    /// first of that tile row.
    pub start_of_tile_row: Vec<u8>,
    pub mask: Vec<SbFilter>,
    pub lr_mask: Vec<Av2Restoration>,
    pub restore_planes: i32,
    pub gdf_ref_dst_idx: i32,
    pub re_sz: i32,
}

impl Default for LoopFilterState {
    /// The loop filters before any frame.
    fn default() -> (r: Self)
        ensures
            r.base_q == 0,
            r.wiener_idx == 0,
            r.ns_subclass_class_idx is None,
            r.start_of_tile_row@.len() == 0,
            r.mask@.len() == 0,
            r.lr_mask@.len() == 0,
            r.restore_planes == 0,
            r.gdf_ref_dst_idx == 0,
            r.re_sz == 0,
    {
        LoopFilterState {
            base_q: 0,
            wiener_idx: 0,
            ns_subclass_class_idx: None,
            start_of_tile_row: Vec::new(),
            mask: Vec::new(),
            lr_mask: Vec::new(),
            restore_planes: 0,
            gdf_ref_dst_idx: 0,
            re_sz: 0,
        }
    }
}

/// The set of filters for a quantizer index.
pub open spec fn wiener_set(qidx: int) -> int {
    if qidx < 130 {
        0
    } else if qidx < 190 {
        1
    } else if qidx < 220 {
        2
    } else {
        3
    }
}

/// Whether a restoration type uses non-separable filters.
pub open spec fn uses_ns(t: RestorationType) -> bool {
    t == RestorationType::NsWiener || t == RestorationType::Switchable
}

/// The class table of luma, if it has more than one class.
pub open spec fn ns_class_idx(p: RestorationPlane) -> Option<usize> {
    if uses_ns(p.restoration_type) && p.ns.num_classes_idx > 0 {
        Some((p.ns.num_classes_idx - 1) as usize)
    } else {
        None
    }
}

/// Chooses the restoration filters of luma. `base_q` is the quantizer of the
/// frame. Nothing changes where luma is not restored.
pub fn init_wiener(frame_hdr: &FrameHeader, base_q: u32, lf: &mut LoopFilterState)
    ensures
        final(lf).start_of_tile_row == old(lf).start_of_tile_row,
        final(lf).mask == old(lf).mask,
        final(lf).lr_mask == old(lf).lr_mask,
        final(lf).restore_planes == old(lf).restore_planes,
        final(lf).gdf_ref_dst_idx == old(lf).gdf_ref_dst_idx,
        final(lf).re_sz == old(lf).re_sz,
        frame_hdr.restoration.p[0].restoration_type == RestorationType::Off ==> *final(lf) == *old(lf),
        frame_hdr.restoration.p[0].restoration_type != RestorationType::Off ==> final(lf).base_q
            == base_q && final(lf).wiener_idx == wiener_set(frame_hdr.quant.yac as int) && final(lf).ns_subclass_class_idx == ns_class_idx(frame_hdr.restoration.p[0]),
{
    let p: &RestorationPlane = &frame_hdr.restoration.p[0];
    let rtype: RestorationType = p.restoration_type;
    if rtype == RestorationType::Off {
        return ;
    }
    let qidx: u16 = frame_hdr.quant.yac;
    lf.base_q = base_q;
    lf.wiener_idx = if qidx < 130 {
        0
    } else if qidx < 190 {
        1
    } else if qidx < 220 {
        2
    } else {
        3
    };
    lf.ns_subclass_class_idx = if (rtype == RestorationType::NsWiener || rtype
        == RestorationType::Switchable) && p.ns.num_classes_idx > 0 {
        Some(p.ns.num_classes_idx as usize - 1)
    } else {
        None
    };
}

/// Whether luma goes through the restoration stage.
pub open spec fn restores_luma(hdr: FrameHeader) -> bool {
    hdr.restoration.p[0].restoration_type != RestorationType::Off || hdr.gdf.enabled
        != AdaptiveBoolean::Off
}

/// The planes that go through the restoration stage, one bit for each.
pub open spec fn restore_planes(hdr: FrameHeader) -> int {
    b2i(restores_luma(hdr)) + 2 * b2i(
        hdr.restoration.p[1].restoration_type != RestorationType::Off,
    ) + 4 * b2i(hdr.restoration.p[2].restoration_type != RestorationType::Off)
}

pub fn compute_restore_planes(frame_hdr: &FrameHeader) -> (r: i32)
    ensures
        r == restore_planes(*frame_hdr),
{
    let y: i32 = if frame_hdr.restoration.p[0].restoration_type != RestorationType::Off
        || frame_hdr.gdf.enabled != AdaptiveBoolean::Off {
        1
    } else {
        0
    };
    let u: i32 = if frame_hdr.restoration.p[1].restoration_type != RestorationType::Off {
        2
    } else {
        0
    };
    let v: i32 = if frame_hdr.restoration.p[2].restoration_type != RestorationType::Off {
        4
    } else {
        0
    };
    y + u + v
}

/// The class of a distance to the references.
pub const REF_DST_IDX_TBL: [i32; 12] = [5, 1, 2, 3, 3, 3, 4, 4, 4, 4, 4, 5];

/// The largest distance among the first two references.
pub open spec fn far_ref(hdr: FrameHeader, absrefdist: [u8; 7]) -> int {
    if hdr.n_ref_frames == 0 {
        0
    } else if hdr.n_ref_frames == 1 {
        absrefdist[0] as int
    } else {
        max(absrefdist[0] as int, absrefdist[1] as int)
    }
}

/// The distance class of guided filtering; zero in frames without references.
pub open spec fn gdf_ref_dst(hdr: FrameHeader, absrefdist: [u8; 7]) -> int {
    if hdr.gdf.enabled == AdaptiveBoolean::Off || !hdr.frame_type.inter_or_switch() {
        0
    } else {
        REF_DST_IDX_TBL[min(far_ref(hdr, absrefdist), 11)] as int
    }
}

pub fn compute_gdf_ref_dst_idx(frame_hdr: &FrameHeader, absrefdist: &[u8; 7]) -> (r: i32)
    ensures
        r == gdf_ref_dst(*frame_hdr, *absrefdist),
{
    if frame_hdr.gdf.enabled == AdaptiveBoolean::Off || !frame_hdr.frame_type.is_inter_or_switch() {
        return 0;
    }
    let n: u8 = frame_hdr.n_ref_frames;
    let d0: usize = if n >= 1 { absrefdist[0] as usize } else { 0 };
    let d1: usize = if n >= 2 { absrefdist[1] as usize } else { 0 };
    let far: usize = if d0 > d1 { d0 } else { d1 };
    REF_DST_IDX_TBL[if far < 11 { far } else { 11 }]
}

/// Filters of earlier units that later ones refer to, by class: how many
/// there are, which comes next, and the coefficients.
#[derive(Debug, Clone, Copy)]
pub struct NsWienerBank {
    pub bank_size: [u8; 16],
    pub bank_idx: [u8; 16],
    pub filter: [[[i8; 20]; 16]; 4],
}

impl NsWienerBank {
    /// A bank without filters.
    pub open spec fn empty(self) -> bool {
        &&& forall|i: int| 0 <= i < 16 ==> self.bank_size[i] == 0 && self.bank_idx[i] == 0
        &&& forall|k: int, n: int, m: int|
            0 <= k < 4 && 0 <= n < 16 && 0 <= m < 20 ==> #[trigger] self.filter[k][n][m] == 0
    }
}

impl Default for NsWienerBank {
    fn default() -> (r: Self)
        ensures
            r.empty(),
    {
        let row: [i8; 20] = [0; 20];
        let bank: [[i8; 20]; 16] = [row; 16];
        NsWienerBank { bank_size: [0; 16], bank_idx: [0; 16], filter: [bank; 4] }
    }
}

/// How many coefficients the filters of a plane have.
pub open spec fn ns_coeffs(pl: int) -> int {
    if pl > 0 { 18 } else { 16 }
}

/// The middle of the range of a coefficient, given as the number of its bits
/// and its least value.
pub open spec fn range_middle(range: [i8; 2]) -> int {
    range[1] + p2(range[0] as int) / 2
}

/// Every coefficient has a range with a middle.
pub open spec fn ranges_valid(ranges: Seq<[i8; 2]>, n: int) -> bool {
    &&& n <= ranges.len()
    &&& forall|m: int| 0 <= m < n ==> 0 <= (#[trigger] ranges[m])[0] <= 7
    &&& forall|m: int| 0 <= m < n ==> -128 <= range_middle(#[trigger] ranges[m]) <= 127
}

/// Empties a bank and sets the first filter of each class to the middle of
/// its ranges.
pub fn init_ns_wiener_bank(bank: &mut NsWienerBank, ranges: &[[i8; 2]], pl: usize, n_classes: usize)
    requires
        n_classes <= 16,
        ranges_valid(ranges@, ns_coeffs(pl as int)),
    ensures
        forall|i: int|
            0 <= i < 16 ==> final(bank).bank_size[i] == 0 && final(bank).bank_idx[i] == 0,
        forall|k: int, n: int, m: int|
            0 <= k < 4 && 0 <= n < 16 && 0 <= m < 20 ==> #[trigger] final(bank).filter[k][n][m] == (
            if k == 0 && n < n_classes && m < ns_coeffs(pl as int) {
                range_middle(ranges@[m])
            } else {
                old(bank).filter[k][n][m] as int
            }),
{
    bank.bank_size = [0; 16];
    bank.bank_idx = [0; 16];
    let n_coeffs: usize = if pl > 0 { 18 } else { 16 };
    let ghost b0 = *bank;
    assert(forall|k: int| 0 <= k <= 7 ==> 1 <= #[trigger] POW2[k] <= 128);
    let mut n: usize = 0;
    while n < n_classes
        invariant
            n <= n_classes <= 16,
            n_coeffs == ns_coeffs(pl as int),
            n_coeffs <= 18,
            ranges_valid(ranges@, n_coeffs as int),
            bank.bank_size == b0.bank_size,
            bank.bank_idx == b0.bank_idx,
            forall|k: int| 0 <= k <= 7 ==> 1 <= #[trigger] POW2[k] <= 128,
            forall|k: int, i: int, m: int|
                0 <= k < 4 && 0 <= i < 16 && 0 <= m < 20 ==> #[trigger] bank.filter[k][i][m] == (
                if k == 0 && i < n && m < n_coeffs {
                    range_middle(ranges@[m])
                } else {
                    b0.filter[k][i][m] as int
                }),
        decreases n_classes - n,
    {
        let mut row: [i8; 20] = bank.filter[0][n];
        let ghost row0 = row;
        let mut m: usize = 0;
        while m < n_coeffs
            invariant
                m <= n_coeffs <= 18,
                ranges_valid(ranges@, n_coeffs as int),
                forall|k: int| 0 <= k <= 7 ==> 1 <= #[trigger] POW2[k] <= 128,
                forall|j: int|
                    0 <= j < 20 ==> #[trigger] row[j] == (if j < m {
                        range_middle(ranges@[j])
                    } else {
                        row0[j] as int
                    }),
            decreases n_coeffs - m,
        {
            let range: [i8; 2] = ranges[m];
            assert(range_middle(ranges@[m as int]) >= -128);
            let half: i64 = POW2[range[0] as usize] / 2;
            row[m] = (range[1] as i64 + half) as i8;
            m = m + 1;
        }
        bank.filter[0][n] = row;
        n = n + 1;
    }
}

/// The first superblock row of tile row `r`: where the tile row starts, but
/// after at least one row of each tile row above it.
pub open spec fn tile_row_first(starts: Seq<u16>, r: int) -> int
    decreases r,
{
    if r <= 0 {
        0
    } else {
        max(tile_row_first(starts, r - 1) + 1, starts[r] as int)
    }
}

/// The tile starts increase from zero.
pub open spec fn starts_increase(starts: Seq<u16>, n: int) -> bool {
    &&& n < starts.len()
    &&& starts[0] == 0
    &&& forall|i: int, j: int| 0 <= i < j <= n ==> #[trigger] starts[i] < #[trigger] starts[j]
}

/// Tile rows whose starts increase begin exactly there.
pub proof fn law_tile_rows_begin_at_their_start(starts: Seq<u16>, n: int, r: int)
    requires
        starts_increase(starts, n),
        0 <= r <= n,
    ensures
        tile_row_first(starts, r) == starts[r],
    decreases r,
{
    if r > 0 {
        law_tile_rows_begin_at_their_start(starts, n, r - 1);
        assert(starts[r - 1] < starts[r]);
    }
}

proof fn lemma_tile_rows_ascend(starts: Seq<u16>, i: int, j: int)
    requires
        0 <= i <= j,
    ensures
        tile_row_first(starts, i) + (j - i) <= tile_row_first(starts, j),
        0 <= i <= tile_row_first(starts, i),
    decreases j,
{
    if i < j {
        lemma_tile_rows_ascend(starts, i, j - 1);
    } else if i > 0 {
        lemma_tile_rows_ascend(starts, i - 1, j - 1);
    }
}

/// Superblock row `y` belongs to tile row `r`.
pub open spec fn in_tile_row(starts: Seq<u16>, r: int, y: int) -> bool {
    tile_row_first(starts, r) <= y < tile_row_first(starts, r + 1)
}

/// The marks of superblock rows: twice the tile row, plus one for its first.
/// Rows after the last tile row keep what was there.
pub open spec fn rows_marked(before: Seq<u8>, after: Seq<u8>, starts: Seq<u16>, rows: int) -> bool {
    &&& forall|r: int, y: int|
        0 <= r < rows && #[trigger] in_tile_row(starts, r, y) ==> after[y] == 2 * r + b2i(
            y == tile_row_first(starts, r),
        )
    &&& forall|y: int|
        tile_row_first(starts, rows) <= y < after.len() ==> #[trigger] after[y] == (if y
            < before.len() {
            before[y]
        } else {
            0
        })
}

/// Marks for each superblock row which tile row it belongs to, and whether it
/// is the first one.
pub fn init_start_of_tile_row(buf: &mut Vec<u8>, sbh: i32, tile_rows: u8, row_start_sb: &[u16])
    requires
        tile_rows <= 64,
        tile_rows < row_start_sb@.len(),
        tile_row_first(row_start_sb@, tile_rows as int) <= sbh,
    ensures
        final(buf)@.len() == sbh,
        rows_marked(old(buf)@, final(buf)@, row_start_sb@, tile_rows as int),
{
    proof {
        lemma_tile_rows_ascend(row_start_sb@, 0, tile_rows as int);
    }
    buf.resize(sbh as usize, 0);
    let ghost b0 = buf@;
    let mut sby: usize = 0;
    let mut r: usize = 0;
    while r < tile_rows as usize
        invariant
            r <= tile_rows <= 64,
            tile_rows < row_start_sb@.len(),
            tile_row_first(row_start_sb@, tile_rows as int) <= sbh,
            buf@.len() == sbh,
            b0.len() == sbh,
            sby == tile_row_first(row_start_sb@, r as int),
            forall|q: int, y: int|
                0 <= q < r && #[trigger] in_tile_row(row_start_sb@, q, y) ==> buf@[y] == 2 * q
                    + b2i(y == tile_row_first(row_start_sb@, q)),
            forall|y: int| sby <= y < sbh ==> #[trigger] buf@[y] == b0[y],
        decreases tile_rows - r,
    {
        proof {
            lemma_tile_rows_ascend(row_start_sb@, r as int, tile_rows as int);
            lemma_tile_rows_ascend(row_start_sb@, r + 1, tile_rows as int);
        }
        let ghost b1 = buf@;
        let ghost first = sby as int;
        let ghost next = tile_row_first(row_start_sb@, r + 1);
        buf.set(sby, 2 * r as u8 + 1);
        sby = sby + 1;
        while sby < row_start_sb[r + 1] as usize
            invariant
                r < tile_rows <= 64,
                tile_rows < row_start_sb@.len(),
                0 <= first < sby <= next <= sbh,
                first == tile_row_first(row_start_sb@, r as int),
                next == tile_row_first(row_start_sb@, r + 1),
                next == max(first + 1, row_start_sb@[r + 1] as int),
                buf@.len() == sbh,
                b1.len() == sbh,
                forall|y: int|
                    0 <= y < sbh ==> #[trigger] buf@[y] == (if first <= y < sby {
                        2 * r + b2i(y == first)
                    } else {
                        b1[y] as int
                    }),
            decreases next - sby,
        {
            buf.set(sby, 2 * r as u8);
            sby = sby + 1;
        }
        assert forall|q: int, y: int|
            0 <= q < r + 1 && #[trigger] in_tile_row(row_start_sb@, q, y) implies buf@[y] == 2 * q
            + b2i(y == tile_row_first(row_start_sb@, q)) by {
            lemma_tile_rows_ascend(row_start_sb@, q, q);
            if q < r {
                lemma_tile_rows_ascend(row_start_sb@, q + 1, r as int);
                assert(buf@[y] == b1[y]);
            }
        }
        r = r + 1;
    }
}

/// Quantizer steps by index, from index `base` on.
pub struct DqTable {
    pub base: i32,
    pub steps: Vec<u32>,
}

impl DqTable {
    pub open spec fn covers(self, q: int) -> bool {
        self.base <= q < self.base + self.steps@.len()
    }

    /// The quantizer step of index `q`.
    pub open spec fn step(self, q: int) -> u32 {
        self.steps@[q - self.base]
    }

    pub fn lookup(&self, q: i32) -> (r: u32)
        requires
            self.covers(q as int),
        ensures
            r == self.step(q as int),
    {
        self.steps[(q as i64 - self.base as i64) as usize]
    }
}

/// The distances of the other quantizer indices from that of luma AC.
pub struct QuantDeltas {
    pub ydc: i32,
    pub uac: i32,
    pub udc: i32,
    pub vac: i32,
    pub vdc: i32,
}

impl QuantDeltas {
    /// The distance for a plane, of DC (`0`) or AC (`1`).
    pub open spec fn of(self, pl: int, ac: int) -> int {
        if pl == 0 {
            if ac == 0 { self.ydc as int } else { 0 }
        } else if pl == 1 {
            if ac == 0 { self.udc as int } else { self.uac as int }
        } else {
            if ac == 0 { self.vdc as int } else { self.vac as int }
        }
    }

    pub open spec fn small(self) -> bool {
        forall|pl: int, ac: int|
            0 <= pl < 3 && 0 <= ac < 2 ==> -0x10000 <= #[trigger] self.of(pl, ac) <= 0x10000
    }
}

/// The quantizer steps of one segment: by plane, for DC and AC.
pub open spec fn steps_of(t: DqTable, yac: int, d: QuantDeltas, row: [[u32; 2]; 3]) -> bool {
    forall|pl: int, ac: int|
        0 <= pl < 3 && 0 <= ac < 2 ==> #[trigger] row[pl][ac] == t.step(yac + d.of(pl, ac))
}

/// The table covers what the segments with luma index `yac` look up.
pub open spec fn covers_steps(t: DqTable, yac: int, d: QuantDeltas) -> bool {
    forall|pl: int, ac: int|
        0 <= pl < 3 && 0 <= ac < 2 ==> t.covers(yac + #[trigger] d.of(pl, ac))
}

fn segment_steps(t: &DqTable, yac: i32, d: &QuantDeltas) -> (row: [[u32; 2]; 3])
    requires
        d.small(),
        covers_steps(*t, yac as int, *d),
        -0x100000 <= yac <= 0x100000,
    ensures
        steps_of(*t, yac as int, *d, row),
{
    assert(d.of(0, 0) == d.ydc && d.of(0, 1) == 0 && d.of(1, 0) == d.udc && d.of(1, 1) == d.uac
        && d.of(2, 0) == d.vdc && d.of(2, 1) == d.vac);
    let y: [u32; 2] = [t.lookup(yac + d.ydc), t.lookup(yac)];
    let u: [u32; 2] = [t.lookup(yac + d.udc), t.lookup(yac + d.uac)];
    let v: [u32; 2] = [t.lookup(yac + d.vdc), t.lookup(yac + d.vac)];
    let row: [[u32; 2]; 3] = [y, u, v];
    assert forall|pl: int, ac: int| 0 <= pl < 3 && 0 <= ac < 2 implies #[trigger] row[pl][ac]
        == t.step(yac + d.of(pl, ac)) by {
        assert(row[0] == y && row[1] == u && row[2] == v);
    }
    row
}

/// How many segments have quantizer steps of their own.
pub open spec fn quant_segments(enabled: bool) -> int {
    if enabled { 8 } else { 1 }
}

/// The luma index of segment `i`.
pub open spec fn segment_qidx(enabled: bool, delta_q: [i16; 16], qidx: int, i: int) -> int {
    if enabled { qidx + delta_q[i] } else { qidx }
}

/// The table covers every segment.
pub open spec fn quant_valid(
    t: DqTable,
    enabled: bool,
    delta_q: [i16; 16],
    d: QuantDeltas,
    qidx: int,
) -> bool {
    &&& d.small()
    &&& -0x10000 <= qidx <= 0x10000
    &&& forall|i: int|
        0 <= i < quant_segments(enabled) ==> covers_steps(
            t,
            #[trigger] segment_qidx(enabled, delta_q, qidx, i),
            d,
        )
}

/// The steps of the segments in use are those of their indices; the others
/// stay as they are.
pub open spec fn quant_set(
    t: DqTable,
    enabled: bool,
    delta_q: [i16; 16],
    d: QuantDeltas,
    qidx: int,
    before: [[[u32; 2]; 3]; 16],
    after: [[[u32; 2]; 3]; 16],
) -> bool {
    forall|i: int|
        0 <= i < 16 ==> if i < quant_segments(enabled) {
            steps_of(t, segment_qidx(enabled, delta_q, qidx, i), d, #[trigger] after[i])
        } else {
            after[i] == before[i]
        }
}

fn set_quant_tables(
    t: &DqTable,
    enabled: bool,
    delta_q: &[i16; 16],
    d: &QuantDeltas,
    qidx: i32,
    dq: &mut [[[u32; 2]; 3]; MAX_SEGMENTS],
)
    requires
        quant_valid(*t, enabled, *delta_q, *d, qidx as int),
    ensures
        quant_set(*t, enabled, *delta_q, *d, qidx as int, *old(dq), *final(dq)),
{
    let n: usize = if enabled { 8 } else { 1 };
    let ghost dq0 = *dq;
    let mut i: usize = 0;
    while i < n
        invariant
            i <= n <= 8,
            n == quant_segments(enabled),
            quant_valid(*t, enabled, *delta_q, *d, qidx as int),
            forall|k: int|
                0 <= k < 16 ==> if k < i {
                    steps_of(*t, segment_qidx(enabled, *delta_q, qidx as int, k), *d, #[trigger] dq[k])
                } else {
                    dq[k] == dq0[k]
                },
        decreases n - i,
    {
        let yac: i32 = if enabled { qidx + delta_q[i] as i32 } else { qidx };
        assert(covers_steps(*t, segment_qidx(enabled, *delta_q, qidx as int, i as int), *d));
        let row: [[u32; 2]; 3] = segment_steps(t, yac, d);
        dq[i] = row;
        i = i + 1;
    }
}

/// The distances that a frame codes.
pub open spec fn frame_deltas(hdr: FrameHeader) -> QuantDeltas {
    QuantDeltas {
        ydc: hdr.quant.ydc_delta as i32,
        uac: hdr.quant.uac_delta as i32,
        udc: hdr.quant.udc_delta as i32,
        vac: hdr.quant.vac_delta as i32,
        vdc: hdr.quant.vdc_delta as i32,
    }
}

/// The quantizer steps of a frame for quantizer index `qidx`.
pub fn init_quant_tables(
    frame_hdr: &FrameHeader,
    table: &DqTable,
    qidx: i32,
    dq: &mut [[[u32; 2]; 3]; MAX_SEGMENTS],
)
    requires
        quant_valid(
            *table,
            frame_hdr.segmentation.enabled != 0,
            frame_hdr.segmentation.d.delta_q,
            frame_deltas(*frame_hdr),
            qidx as int,
        ),
    ensures
        quant_set(
            *table,
            frame_hdr.segmentation.enabled != 0,
            frame_hdr.segmentation.d.delta_q,
            frame_deltas(*frame_hdr),
            qidx as int,
            *old(dq),
            *final(dq),
        ),
{
    let d: QuantDeltas = QuantDeltas {
        ydc: frame_hdr.quant.ydc_delta as i32,
        uac: frame_hdr.quant.uac_delta as i32,
        udc: frame_hdr.quant.udc_delta as i32,
        vac: frame_hdr.quant.vac_delta as i32,
        vdc: frame_hdr.quant.vdc_delta as i32,
    };
    set_quant_tables(
        table,
        frame_hdr.segmentation.enabled != 0,
        &frame_hdr.segmentation.d.delta_q,
        &d,
        qidx,
        dq,
    );
}

/// The distances that the superblocks of a frame use.
pub open spec fn sb_deltas(fi: SbFrameInfo) -> QuantDeltas {
    QuantDeltas {
        ydc: fi.q_ydc_delta,
        uac: fi.q_uac_delta,
        udc: fi.q_udc_delta,
        vac: fi.q_vac_delta,
        vdc: fi.q_vdc_delta,
    }
}

/// The quantizer steps of a superblock for quantizer index `qidx`.
pub fn init_quant_tables_fi(
    fi: &SbFrameInfo,
    table: &DqTable,
    qidx: i32,
    dq: &mut [[[u32; 2]; 3]; MAX_SEGMENTS],
)
    requires
        quant_valid(*table, fi.seg_enabled, fi.seg_delta_q, sb_deltas(*fi), qidx as int),
    ensures
        quant_set(
            *table,
            fi.seg_enabled,
            fi.seg_delta_q,
            sb_deltas(*fi),
            qidx as int,
            *old(dq),
            *final(dq),
        ),
{
    let d: QuantDeltas = QuantDeltas {
        ydc: fi.q_ydc_delta,
        uac: fi.q_uac_delta,
        udc: fi.q_udc_delta,
        vac: fi.q_vac_delta,
        vdc: fi.q_vdc_delta,
    };
    set_quant_tables(table, fi.seg_enabled, &fi.seg_delta_q, &d, qidx, dq);
}

/// A superblock has, for every quantizer index that it codes, the quantizer
/// steps that a frame with that index has.
pub proof fn law_superblock_steps_agree(
    hdr: FrameHeader,
    fi: SbFrameInfo,
    t: DqTable,
    before: [[[u32; 2]; 3]; 16],
    frame: [[[u32; 2]; 3]; 16],
    sb: [[[u32; 2]; 3]; 16],
    qidx: int,
    i: int,
    pl: int,
    ac: int,
)
    requires
        fi.seg_enabled == (hdr.segmentation.enabled != 0),
        fi.seg_delta_q == hdr.segmentation.d.delta_q,
        sb_deltas(fi) == frame_deltas(hdr),
        quant_set(
            t,
            hdr.segmentation.enabled != 0,
            hdr.segmentation.d.delta_q,
            frame_deltas(hdr),
            qidx,
            before,
            frame,
        ),
        quant_set(
            t,
            fi.seg_enabled,
            fi.seg_delta_q,
            sb_deltas(fi),
            qidx,
            before,
            sb,
        ),
        0 <= i < 16,
        0 <= pl < 3,
        0 <= ac < 2,
    ensures
        frame[i][pl][ac] == sb[i][pl][ac],
{
    let (a, b) = (frame[i], sb[i]);
    assert(a[pl][ac] == b[pl][ac]);
}

/// The set of filters grows with the quantizer index.
pub proof fn law_wiener_sets_grow(q: int)
    ensures
        wiener_set(q) <= wiener_set(q + 1) <= wiener_set(q) + 1,
        wiener_set(129) == 0 && wiener_set(130) == 1,
        wiener_set(189) == 1 && wiener_set(190) == 2,
        wiener_set(219) == 2 && wiener_set(220) == 3,
{
}

/// Each plane has its own bit; guided filtering restores luma too.
pub proof fn law_restored_planes_have_their_bits(hdr: FrameHeader)
    ensures
        ({
            let r = restore_planes(hdr);
            &&& 0 <= r < 8
            &&& r % 2 == 1 <==> hdr.restoration.p[0].restoration_type != RestorationType::Off
                || hdr.gdf.enabled != AdaptiveBoolean::Off
            &&& r / 2 % 2 == 1 <==> hdr.restoration.p[1].restoration_type != RestorationType::Off
            &&& r / 4 == 1 <==> hdr.restoration.p[2].restoration_type != RestorationType::Off
        }),
{
}

/// Guided filtering looks at the further of the first two references.
pub proof fn law_far_reference_is_the_further(hdr: FrameHeader, d: [u8; 7])
    ensures
        hdr.n_ref_frames == 0 ==> far_ref(hdr, d) == 0,
        hdr.n_ref_frames == 1 ==> far_ref(hdr, d) == d[0],
        hdr.n_ref_frames >= 2 ==> far_ref(hdr, d) >= d[0] && far_ref(hdr, d) >= d[1] && (far_ref(
            hdr,
            d,
        ) == d[0] || far_ref(hdr, d) == d[1]),
        hdr.gdf.enabled == AdaptiveBoolean::Off ==> gdf_ref_dst(hdr, d) == 0,
        !hdr.frame_type.inter_or_switch() ==> gdf_ref_dst(hdr, d) == 0,
{
}

/// Quantizer steps: luma AC has the index of the segment itself, and every
/// other one that index plus its own distance. Segments add their own change.
pub proof fn law_steps_follow_their_distances(
    t: DqTable,
    enabled: bool,
    delta_q: [i16; 16],
    d: QuantDeltas,
    q: int,
    before: [[[u32; 2]; 3]; 16],
    after: [[[u32; 2]; 3]; 16],
    i: int,
)
    requires
        quant_set(t, enabled, delta_q, d, q, before, after),
        0 <= i < 16,
    ensures
        enabled && i < 8 ==> {
            let s = q + delta_q[i];
            &&& after[i][0][1] == t.steps@[s - t.base]
            &&& after[i][0][0] == t.steps@[s + d.ydc - t.base]
            &&& after[i][1][0] == t.steps@[s + d.udc - t.base]
            &&& after[i][1][1] == t.steps@[s + d.uac - t.base]
            &&& after[i][2][0] == t.steps@[s + d.vdc - t.base]
            &&& after[i][2][1] == t.steps@[s + d.vac - t.base]
        },
        !enabled ==> {
            &&& after[0][0][1] == t.steps@[q - t.base]
            &&& after[0][0][0] == t.steps@[q + d.ydc - t.base]
            &&& after[0][1][0] == t.steps@[q + d.udc - t.base]
            &&& after[0][1][1] == t.steps@[q + d.uac - t.base]
            &&& after[0][2][0] == t.steps@[q + d.vdc - t.base]
            &&& after[0][2][1] == t.steps@[q + d.vac - t.base]
        },
        enabled && i >= 8 || !enabled && i >= 1 ==> after[i] == before[i],
{
    let k = if enabled { i } else { 0 };
    if k < quant_segments(enabled) {
        let row = after[k];
        assert(steps_of(t, segment_qidx(enabled, delta_q, q, k), d, row));
        assert(d.of(0, 0) == d.ydc && d.of(0, 1) == 0 && d.of(1, 0) == d.udc && d.of(1, 1) == d.uac
            && d.of(2, 0) == d.vdc && d.of(2, 1) == d.vac);
        assert(row[0][0] == row[0][0] && row[0][1] == row[0][1] && row[1][0] == row[1][0]
            && row[1][1] == row[1][1] && row[2][0] == row[2][0] && row[2][1] == row[2][1]);
    }
    assert(after[i] == after[i]);
}

/// The distances of a frame are those of its header, plane by plane.
pub proof fn law_frame_distances(hdr: FrameHeader)
    ensures
        frame_deltas(hdr).ydc == hdr.quant.ydc_delta,
        frame_deltas(hdr).udc == hdr.quant.udc_delta,
        frame_deltas(hdr).uac == hdr.quant.uac_delta,
        frame_deltas(hdr).vdc == hdr.quant.vdc_delta,
        frame_deltas(hdr).vac == hdr.quant.vac_delta,
{
}

/// The middle of a range of coefficients: as many lie below it as from it on.
pub proof fn law_middle_of_a_range(range: [i8; 2])
    requires
        1 <= range[0] <= 7,
    ensures
        range_middle(range) - range[1] == range[1] + p2(range[0] as int) - range_middle(range),
{
    assert(forall|k: int| 1 <= k <= 7 ==> #[trigger] POW2[k] % 2 == 0);
}

} // verus!
