//! The tiles of a frame: where they lie, and which bytes they are coded with.
use vstd::prelude::*;

use crate::error::{Rav2dError, Result};
use crate::frame::{
    init_ns_wiener_bank, ns_coeffs, range_middle, ranges_valid, starts_increase, uses_ns,
    NsWienerBank,
};
use crate::headers::{FrameHeader, RestorationType, TileGrid};
use crate::intops::{imin, max, min, p2, POW2};

verus! {

/// The position of a tile, and its edges in units of four pixels.
#[derive(Debug, Clone, Copy, PartialEq, Eq, Structural)]
pub struct TileBounds {
    pub row: i32,
    pub col: i32,
    pub col_start: i32,
    pub col_end: i32,
    pub row_start: i32,
    pub row_end: i32,
}

/// The distributions that a tile starts with: those for a quantizer class, or
/// those kept under a number.
#[derive(Debug, Clone, Copy, PartialEq, Eq, Structural)]
pub enum CdfSource {
    Defaults(usize),
    Kept(u64),
}

/// What is known of a tile before its blocks are decoded.
pub struct TileSlot {
    pub tiling: TileBounds,
    /// The superblock row that each stage has reached.
    pub progress: [i32; 3],
    pub cdf: CdfSource,
    pub last_qidx: i32,
    pub msac_buf: Vec<u8>,
    pub tile_start_off: u32,
    pub ns_wiener_bank: [NsWienerBank; 3],
}

impl TileSlot {
    /// A slot that no tile has been put in.
    pub open spec fn unused(self) -> bool {
        &&& self.tiling == (TileBounds {
            row: 0,
            col: 0,
            col_start: 0,
            col_end: 0,
            row_start: 0,
            row_end: 0,
        })
        &&& forall|i: int| 0 <= i < 3 ==> self.progress[i] == 0
        &&& self.cdf == CdfSource::Defaults(0)
        &&& self.last_qidx == 0
        &&& self.msac_buf@.len() == 0
        &&& self.tile_start_off == 0
        &&& forall|i: int| 0 <= i < 3 ==> (#[trigger] self.ns_wiener_bank[i]).empty()
    }
}

impl Default for TileSlot {
    fn default() -> (r: Self)
        ensures
            r.unused(),
    {
        let bank: NsWienerBank = NsWienerBank::default();
        TileSlot {
            tiling: TileBounds {
                row: 0,
                col: 0,
                col_start: 0,
                col_end: 0,
                row_start: 0,
                row_end: 0,
            },
            progress: [0; 3],
            cdf: CdfSource::Defaults(0),
            last_qidx: 0,
            msac_buf: Vec::new(),
            tile_start_off: 0,
            ns_wiener_bank: [bank; 3],
        }
    }
}

/// The tile lies on the grid, and its edges fit in the number type.
pub open spec fn on_grid(
    cols: Seq<u16>,
    rows: Seq<u16>,
    tile_row: int,
    tile_col: int,
    sb_shift: int,
) -> bool {
    &&& 0 <= tile_row
    &&& tile_row + 1 < rows.len()
    &&& 0 <= tile_col
    &&& tile_col + 1 < cols.len()
    &&& 0 <= sb_shift <= 14
}

/// The bounds of a tile in a frame of `bw` by `bh` units.
pub open spec fn bounds_of(
    cols: Seq<u16>,
    rows: Seq<u16>,
    tile_row: int,
    tile_col: int,
    sb_shift: int,
    bw: int,
    bh: int,
) -> TileBounds {
    TileBounds {
        row: tile_row as i32,
        col: tile_col as i32,
        col_start: (cols[tile_col] * p2(sb_shift)) as i32,
        col_end: min(cols[tile_col + 1] * p2(sb_shift), bw) as i32,
        row_start: (rows[tile_row] * p2(sb_shift)) as i32,
        row_end: min(rows[tile_row + 1] * p2(sb_shift), bh) as i32,
    }
}

fn to_units(sb: u16, sb_shift: i32) -> (r: i32)
    requires
        0 <= sb_shift <= 14,
    ensures
        r == sb * p2(sb_shift as int),
{
    assert(forall|k: int| 0 <= k <= 14 ==> 1 <= #[trigger] POW2[k] <= 0x4000);
    let p: i64 = POW2[sb_shift as usize];
    assert(0 <= sb * p <= 0xffff * 0x4000) by (nonlinear_arith)
        requires
            0 <= sb <= 0xffff,
            1 <= p <= 0x4000,
    ;
    (sb as i64 * p) as i32
}

/// Sets where a tile lies. With several threads every stage of the tile
/// starts at its first superblock row.
pub fn setup_tile_bounds(
    ts: &mut TileSlot,
    tile_row: i32,
    tile_col: i32,
    col_start_sb: &[u16],
    row_start_sb: &[u16],
    sb_shift: i32,
    bw: i32,
    bh: i32,
    n_tc: i32,
)
    requires
        on_grid(col_start_sb@, row_start_sb@, tile_row as int, tile_col as int, sb_shift as int),
    ensures
        final(ts).tiling == bounds_of(
            col_start_sb@,
            row_start_sb@,
            tile_row as int,
            tile_col as int,
            sb_shift as int,
            bw as int,
            bh as int,
        ),
        forall|i: int|
            0 <= i < 3 ==> #[trigger] final(ts).progress[i] == (if n_tc > 1 {
                row_start_sb@[tile_row as int] as i32
            } else {
                old(ts).progress[i]
            }),
        final(ts).cdf == old(ts).cdf,
        final(ts).last_qidx == old(ts).last_qidx,
        final(ts).msac_buf == old(ts).msac_buf,
        final(ts).tile_start_off == old(ts).tile_start_off,
        final(ts).ns_wiener_bank == old(ts).ns_wiener_bank,
{
    let col: usize = tile_col as usize;
    let row: usize = tile_row as usize;
    ts.tiling = TileBounds {
        row: tile_row,
        col: tile_col,
        col_start: to_units(col_start_sb[col], sb_shift),
        col_end: imin(to_units(col_start_sb[col + 1], sb_shift), bw),
        row_start: to_units(row_start_sb[row], sb_shift),
        row_end: imin(to_units(row_start_sb[row + 1], sb_shift), bh),
    };
    if n_tc > 1 {
        ts.progress = [row_start_sb[row] as i32; 3];
    }
}

/// The ranges of filter coefficients, each as its number of bits and its
/// least value.
pub struct WienerRanges {
    pub y: [[i8; 2]; 16],
    pub uv: [[i8; 2]; 18],
}

impl WienerRanges {
    pub open spec fn of(self, pl: int) -> Seq<[i8; 2]> {
        if pl > 0 { self.uv@ } else { self.y@ }
    }

    pub open spec fn valid(self) -> bool {
        ranges_valid(self.y@, 16) && ranges_valid(self.uv@, 18)
    }
}

/// A bank after its start: empty, with the middle of the ranges as the first
/// filter of each class.
pub open spec fn bank_started(
    before: NsWienerBank,
    after: NsWienerBank,
    ranges: Seq<[i8; 2]>,
    pl: int,
    n_classes: int,
) -> bool {
    &&& forall|i: int| 0 <= i < 16 ==> after.bank_size[i] == 0 && after.bank_idx[i] == 0
    &&& forall|k: int, n: int, m: int|
        0 <= k < 4 && 0 <= n < 16 && 0 <= m < 20 ==> #[trigger] after.filter[k][n][m] == (if k == 0
            && n < n_classes && m < ns_coeffs(pl) {
            range_middle(ranges[m])
        } else {
            before.filter[k][n][m] as int
        })
}

/// No plane has more classes than a bank has room for.
pub open spec fn classes_fit(hdr: FrameHeader) -> bool {
    forall|pl: int| 0 <= pl < 3 ==> (#[trigger] hdr.restoration.p[pl]).ns.num_classes <= 16
}

/// The banks of the planes with non-separable filters are started; the others
/// stay as they are.
pub open spec fn banks_started(
    before: [NsWienerBank; 3],
    after: [NsWienerBank; 3],
    hdr: FrameHeader,
    ranges: WienerRanges,
) -> bool {
    forall|pl: int|
        0 <= pl < 3 ==> if uses_ns(hdr.restoration.p[pl].restoration_type) {
            bank_started(
                before[pl],
                #[trigger] after[pl],
                ranges.of(pl),
                pl,
                hdr.restoration.p[pl].ns.num_classes as int,
            )
        } else {
            after[pl] == before[pl]
        }
}

pub fn setup_tile_wiener_banks(ts: &mut TileSlot, frame_hdr: &FrameHeader, ranges: &WienerRanges)
    requires
        classes_fit(*frame_hdr),
        ranges.valid(),
    ensures
        banks_started(old(ts).ns_wiener_bank, final(ts).ns_wiener_bank, *frame_hdr, *ranges),
        final(ts).tiling == old(ts).tiling,
        final(ts).progress == old(ts).progress,
        final(ts).cdf == old(ts).cdf,
        final(ts).last_qidx == old(ts).last_qidx,
        final(ts).msac_buf == old(ts).msac_buf,
        final(ts).tile_start_off == old(ts).tile_start_off,
{
    let ghost t0 = *ts;
    let mut pl: usize = 0;
    while pl < 3
        invariant
            pl <= 3,
            classes_fit(*frame_hdr),
            ranges.valid(),
            ts.tiling == t0.tiling,
            ts.progress == t0.progress,
            ts.cdf == t0.cdf,
            ts.last_qidx == t0.last_qidx,
            ts.msac_buf == t0.msac_buf,
            ts.tile_start_off == t0.tile_start_off,
            forall|q: int|
                0 <= q < 3 ==> if q < pl && uses_ns(frame_hdr.restoration.p[q].restoration_type) {
                    bank_started(
                        t0.ns_wiener_bank[q],
                        #[trigger] ts.ns_wiener_bank[q],
                        ranges.of(q),
                        q,
                        frame_hdr.restoration.p[q].ns.num_classes as int,
                    )
                } else {
                    ts.ns_wiener_bank[q] == t0.ns_wiener_bank[q]
                },
        decreases 3 - pl,
    {
        let rtype: RestorationType = frame_hdr.restoration.p[pl].restoration_type;
        if rtype == RestorationType::NsWiener || rtype == RestorationType::Switchable {
            let n_classes: usize = frame_hdr.restoration.p[pl].ns.num_classes as usize;
            let mut bank: NsWienerBank = ts.ns_wiener_bank[pl];
            if pl > 0 {
                init_ns_wiener_bank(&mut bank, &ranges.uv, pl, n_classes);
            } else {
                init_ns_wiener_bank(&mut bank, &ranges.y, pl, n_classes);
            }
            ts.ns_wiener_bank[pl] = bank;
        }
        pl = pl + 1;
    }
}

/// A slot after tile `(row, col)` coded with `data` was put in it.
pub open spec fn tile_set(
    before: TileSlot,
    after: TileSlot,
    data: Seq<u8>,
    hdr: FrameHeader,
    ranges: WienerRanges,
    cdf: CdfSource,
    bounds: TileBounds,
    first_row: i32,
    n_tc: int,
    tile_start_off: u32,
) -> bool {
    &&& after.cdf == cdf
    &&& after.last_qidx == hdr.quant.yac
    &&& after.msac_buf@ == data
    &&& after.tile_start_off == tile_start_off
    &&& after.tiling == bounds
    &&& forall|i: int|
        0 <= i < 3 ==> #[trigger] after.progress[i] == (if n_tc > 1 {
            first_row
        } else {
            before.progress[i]
        })
    &&& banks_started(before.ns_wiener_bank, after.ns_wiener_bank, hdr, ranges)
}

/// The distributions kept from an earlier frame, or else the defaults.
pub open spec fn cdf_source(in_cdf: Option<u64>, qcat: usize) -> CdfSource {
    match in_cdf {
        Some(k) => CdfSource::Kept(k),
        None => CdfSource::Defaults(qcat),
    }
}

fn copy_bytes(data: &[u8], from: usize, len: usize) -> (r: Vec<u8>)
    requires
        from + len <= data@.len(),
    ensures
        r@ == data@.subrange(from as int, from + len),
{
    let total: usize = data.len();
    let mut r: Vec<u8> = Vec::new();
    let mut i: usize = 0;
    while i < len
        invariant
            i <= len,
            from + len <= data@.len() == total,
            r@ == data@.subrange(from as int, from + i),
        decreases len - i,
    {
        r.push(data[from + i]);
        i = i + 1;
    }
    r
}

/// Puts a tile in its slot.
pub fn setup_tile(
    ts: &mut TileSlot,
    data: &[u8],
    frame_hdr: &FrameHeader,
    ranges: &WienerRanges,
    in_cdf: Option<u64>,
    qcat: usize,
    tile_row: i32,
    tile_col: i32,
    col_start_sb: &[u16],
    row_start_sb: &[u16],
    sb_shift: i32,
    bw: i32,
    bh: i32,
    n_tc: i32,
    tile_start_off: u32,
)
    requires
        classes_fit(*frame_hdr),
        ranges.valid(),
        on_grid(col_start_sb@, row_start_sb@, tile_row as int, tile_col as int, sb_shift as int),
    ensures
        tile_set(
            *old(ts),
            *final(ts),
            data@,
            *frame_hdr,
            *ranges,
            cdf_source(in_cdf, qcat),
            bounds_of(
                col_start_sb@,
                row_start_sb@,
                tile_row as int,
                tile_col as int,
                sb_shift as int,
                bw as int,
                bh as int,
            ),
            row_start_sb@[tile_row as int] as i32,
            n_tc as int,
            tile_start_off,
        ),
{
    ts.cdf = match in_cdf {
        Some(k) => CdfSource::Kept(k),
        None => CdfSource::Defaults(qcat),
    };
    ts.last_qidx = frame_hdr.quant.yac as i32;
    assert(data@.subrange(0, data@.len() as int) == data@);
    ts.msac_buf = copy_bytes(data, 0, data.len());
    ts.tile_start_off = tile_start_off;
    setup_tile_bounds(
        ts,
        tile_row,
        tile_col,
        col_start_sb,
        row_start_sb,
        sb_shift,
        bw,
        bh,
        n_tc,
    );
    setup_tile_wiener_banks(ts, frame_hdr, ranges);
}

/// A run of tiles, and the bytes that they are coded with.
pub struct TileGroup {
    pub data: Vec<u8>,
    pub start: i32,
    pub end: i32,
}

impl TileGroup {
    /// How many tiles the group holds.
    pub open spec fn count(self) -> int {
        max(self.end - self.start + 1, 0)
    }
}

/// The bytes of one tile.
#[derive(Debug, Clone, Copy, PartialEq, Eq, Structural)]
pub struct TileSpan {
    pub off: usize,
    pub len: usize,
}

/// The little-endian number in `n` bytes from `off` on.
pub open spec fn le_number(data: Seq<u8>, off: int, n: int) -> int
    decreases n,
{
    if n <= 0 {
        0
    } else {
        data[off] + 256 * le_number(data, off + 1, n - 1)
    }
}

/// `pre` in front of the spans, if there are any.
pub open spec fn prepend(pre: Seq<TileSpan>, rest: Option<Seq<TileSpan>>) -> Option<Seq<TileSpan>> {
    match rest {
        Some(s) => Some(pre + s),
        None => None,
    }
}

/// The bytes of `n` tiles from `off` on. Each tile but the last is preceded by
/// its size less one in `n_bytes` bytes; the last takes what is left. There is
/// no answer where a size, or the tile after it, runs over the end.
pub open spec fn split_tiles(data: Seq<u8>, n_bytes: int, off: int, n: int) -> Option<Seq<TileSpan>>
    decreases n,
{
    if n <= 0 {
        Some(Seq::empty())
    } else if n == 1 {
        Some(seq![TileSpan { off: off as usize, len: (data.len() - off) as usize }])
    } else if off + n_bytes > data.len() {
        None
    } else {
        let start = off + n_bytes;
        let size = le_number(data, off, n_bytes) + 1;
        if start + size > data.len() {
            None
        } else {
            prepend(
                seq![TileSpan { off: start as usize, len: size as usize }],
                split_tiles(data, n_bytes, start + size, n - 1),
            )
        }
    }
}

/// The tiles of a group use up its bytes: the first follows its size, each
/// other one follows the tile before it and its own size, only the last has
/// no size, and it ends with the data.
pub proof fn law_tiles_use_up_the_data(data: Seq<u8>, n_bytes: int, off: int, n: int)
    requires
        0 <= off <= data.len() <= usize::MAX,
        0 <= n_bytes,
        1 <= n,
        split_tiles(data, n_bytes, off, n) is Some,
    ensures
        ({
            let s = split_tiles(data, n_bytes, off, n)->Some_0;
            &&& s.len() == n
            &&& s[0].off == off + (if n > 1 { n_bytes } else { 0 })
            &&& forall|i: int| 0 <= i < n - 1 ==> (#[trigger] s[i]).len >= 1
            &&& forall|i: int, j: int|
                0 <= i && j == i + 1 && j < n ==> (#[trigger] s[j]).off == (#[trigger] s[i]).off
                    + s[i].len + (if j < n - 1 { n_bytes } else { 0 })
            &&& s[n - 1].off + s[n - 1].len == data.len()
        }),
    decreases n,
{
    if n > 1 {
        let start = off + n_bytes;
        lemma_le_number_nonneg(data, off, n_bytes);
        let size = le_number(data, off, n_bytes) + 1;
        law_tiles_use_up_the_data(data, n_bytes, start + size, n - 1);
        let rest = split_tiles(data, n_bytes, start + size, n - 1)->Some_0;
        let s = split_tiles(data, n_bytes, off, n)->Some_0;
        assert(s[0] == (TileSpan { off: start as usize, len: size as usize }));
        assert forall|i: int| 0 <= i < n - 1 implies (#[trigger] s[i]).len >= 1 by {
            if i > 0 {
                assert(s[i] == rest[i - 1]);
            }
        }
        assert forall|i: int, j: int| 0 <= i && j == i + 1 && j < n implies (#[trigger] s[j]).off
            == (#[trigger] s[i]).off + s[i].len + (if j < n - 1 { n_bytes } else { 0 }) by {
            assert(s[j] == rest[j - 1]);
            if i > 0 {
                assert(s[i] == rest[i - 1]);
            }
        }
        assert(s[n - 1] == rest[n - 2]);
    }
}

proof fn lemma_le_number_nonneg(data: Seq<u8>, off: int, n: int)
    ensures
        le_number(data, off, n) >= 0,
    decreases n,
{
    if n > 0 {
        lemma_le_number_nonneg(data, off + 1, n - 1);
    }
}

fn read_le(data: &[u8], off: usize, n: usize) -> (r: u64)
    requires
        n <= 7,
        off + n <= data@.len(),
    ensures
        r == le_number(data@, off as int, n as int),
        r < 0x100_0000_0000_0000,
{
    let total: usize = data.len();
    let mut r: u64 = 0;
    let mut i: usize = n;
    let mut bound: u64 = 1;
    while i > 0
        invariant
            i <= n <= 7,
            off + n <= data@.len() == total,
            r == le_number(data@, off + i, n - i),
            r < bound,
            n - i == 0 ==> bound == 1,
            n - i == 1 ==> bound == 0x100,
            n - i == 2 ==> bound == 0x1_0000,
            n - i == 3 ==> bound == 0x100_0000,
            n - i == 4 ==> bound == 0x1_0000_0000,
            n - i == 5 ==> bound == 0x100_0000_0000,
            n - i == 6 ==> bound == 0x1_0000_0000_0000,
            n - i == 7 ==> bound == 0x100_0000_0000_0000,
        decreases i,
    {
        i = i - 1;
        r = data[off + i] as u64 + 256 * r;
        bound = 256 * bound;
    }
    r
}

/// Finds the bytes of the `n` tiles of a group.
pub fn split_tile_group(data: &[u8], n_bytes: u8, n: usize) -> (r: Result<Vec<TileSpan>>)
    requires
        n_bytes <= 7,
    ensures
        r is Err <==> split_tiles(data@, n_bytes as int, 0, n as int) is None,
        r is Err ==> r->Err_0 == Rav2dError::InvalidData,
        r matches Ok(v) ==> split_tiles(data@, n_bytes as int, 0, n as int) == Some(v@),
        r matches Ok(v) ==> v@.len() == n && forall|i: int|
            0 <= i < n ==> (#[trigger] v@[i]).off + v@[i].len <= data@.len(),
{
    let total: usize = data.len();
    let nb: usize = n_bytes as usize;
    let mut spans: Vec<TileSpan> = Vec::new();
    let mut off: usize = 0;
    let mut i: usize = 0;
    assert(Seq::<TileSpan>::empty() + Seq::<TileSpan>::empty() == Seq::<TileSpan>::empty());
    proof {
        let whole = split_tiles(data@, nb as int, 0, n as int);
        if whole is Some {
            assert(Seq::<TileSpan>::empty() + whole->Some_0 == whole->Some_0);
        }
    }
    while i < n
        invariant
            i <= n,
            nb == n_bytes <= 7,
            total == data@.len(),
            off <= total,
            spans@.len() == i,
            i == n ==> split_tiles(data@, nb as int, 0, n as int) == Some(spans@),
            i < n ==> split_tiles(data@, nb as int, 0, n as int) == prepend(
                spans@,
                split_tiles(data@, nb as int, off as int, n - i),
            ),
            forall|k: int| 0 <= k < i ==> (#[trigger] spans@[k]).off + spans@[k].len <= total,
        decreases n - i,
    {
        let ghost pre = spans@;
        if i + 1 == n {
            let span: TileSpan = TileSpan { off, len: total - off };
            spans.push(span);
            assert(pre + seq![span] == spans@);
        } else {
            if nb > total - off {
                return Err(Rav2dError::InvalidData);
            }
            let size: u64 = read_le(data, off, nb) + 1;
            off = off + nb;
            if size > (total - off) as u64 {
                return Err(Rav2dError::InvalidData);
            }
            let span: TileSpan = TileSpan { off, len: size as usize };
            spans.push(span);
            off = off + size as usize;
            proof {
                let rest = split_tiles(data@, nb as int, off as int, n - i - 1);
                if rest is Some {
                    assert(pre + (seq![span] + rest->Some_0) == spans@ + rest->Some_0);
                }
            }
        }
        i = i + 1;
    }
    Ok(spans)
}

/// What the tiles of a frame have in common.
pub struct TileParams {
    pub in_cdf: Option<u64>,
    pub qcat: usize,
    pub sb_shift: i32,
    pub bw: i32,
    pub bh: i32,
    pub n_tc: i32,
    pub n_passes: i32,
}

/// The grid has room for its tiles.
pub open spec fn grid_valid(t: TileGrid) -> bool {
    t.cols <= 64 && t.rows <= 64
}

/// Tile number `k` of the frame, counted row by row, is put in its slot.
pub open spec fn nth_tile_set(
    before: TileSlot,
    after: TileSlot,
    data: Seq<u8>,
    k: int,
    hdr: FrameHeader,
    ranges: WienerRanges,
    p: TileParams,
    start_off: u32,
) -> bool {
    let t = hdr.tiling.t;
    tile_set(
        before,
        after,
        data,
        hdr,
        ranges,
        cdf_source(p.in_cdf, p.qcat),
        bounds_of(
            t.col_start_sb@,
            t.row_start_sb@,
            k / t.cols as int,
            k % t.cols as int,
            p.sb_shift as int,
            p.bw as int,
            p.bh as int,
        ),
        t.row_start_sb[k / t.cols as int] as i32,
        p.n_tc as int,
        start_off,
    )
}

/// Where the coefficients of a tile start; only frames with several passes
/// keep that.
pub open spec fn start_off_of(p: TileParams, offs: Seq<u32>, j: int) -> u32 {
    if p.n_passes > 1 { offs[j] } else { 0 }
}

/// The slots after the tiles of a group were put in them; `first` tiles of the
/// frame came before. Other slots stay as they are.
pub open spec fn group_set(
    before: Seq<TileSlot>,
    after: Seq<TileSlot>,
    g: TileGroup,
    first: int,
    hdr: FrameHeader,
    ranges: WienerRanges,
    p: TileParams,
    offs: Seq<u32>,
) -> bool {
    let spans = split_tiles(g.data@, hdr.tiling.n_bytes as int, 0, g.count());
    &&& spans is Some
    &&& after.len() == before.len()
    &&& forall|j: int|
        0 <= j < before.len() ==> if g.start <= j < g.start + g.count() {
            nth_tile_set(
                before[j],
                #[trigger] after[j],
                span_bytes(g.data@, spans->Some_0[j - g.start]),
                first + (j - g.start),
                hdr,
                ranges,
                p,
                start_off_of(p, offs, j),
            )
        } else {
            after[j] == before[j]
        }
}

pub open spec fn span_bytes(data: Seq<u8>, s: TileSpan) -> Seq<u8> {
    data.subrange(s.off as int, s.off + s.len)
}

/// How many tiles the first `n` groups hold.
pub open spec fn tiles_before(groups: Seq<TileGroup>, n: int) -> int
    decreases n,
{
    if n <= 0 { 0 } else { tiles_before(groups, n - 1) + groups[n - 1].count() }
}

/// The slots after the first `n` groups.
pub open spec fn groups_set(
    before: Seq<TileSlot>,
    after: Seq<TileSlot>,
    groups: Seq<TileGroup>,
    n: int,
    hdr: FrameHeader,
    ranges: WienerRanges,
    p: TileParams,
    offs: Seq<u32>,
) -> bool
    decreases n,
{
    if n <= 0 {
        after == before
    } else {
        exists|mid: Seq<TileSlot>|
            #[trigger] between(mid) && groups_set(
                before,
                mid,
                groups,
                n - 1,
                hdr,
                ranges,
                p,
                offs,
            ) && group_set(
                mid,
                after,
                groups[n - 1],
                tiles_before(groups, n - 1),
                hdr,
                ranges,
                p,
                offs,
            )
    }
}

/// Marks the slots between two groups.
pub open spec fn between(ts: Seq<TileSlot>) -> bool {
    true
}

/// The group lies within the slots.
pub open spec fn group_fits(g: TileGroup, n_slots: int, p: TileParams, offs: Seq<u32>) -> bool {
    &&& 0 <= g.start
    &&& g.end < n_slots
    &&& p.n_passes > 1 ==> g.end < offs.len()
}

fn setup_tile_group(
    ts: &mut Vec<TileSlot>,
    g: &TileGroup,
    first: usize,
    frame_hdr: &FrameHeader,
    ranges: &WienerRanges,
    p: &TileParams,
    offs: &[u32],
) -> (r: Result<()>)
    requires
        classes_fit(*frame_hdr),
        ranges.valid(),
        frame_hdr.tiling.n_bytes <= 7,
        grid_valid(frame_hdr.tiling.t),
        0 <= p.sb_shift <= 14,
        group_fits(*g, old(ts)@.len() as int, *p, offs@),
        first + g.count() <= frame_hdr.tiling.t.cols * frame_hdr.tiling.t.rows,
    ensures
        final(ts)@.len() == old(ts)@.len(),
        r is Err <==> split_tiles(g.data@, frame_hdr.tiling.n_bytes as int, 0, g.count()) is None,
        r is Err ==> r->Err_0 == Rav2dError::InvalidData,
        r is Ok ==> group_set(
            old(ts)@,
            final(ts)@,
            *g,
            first as int,
            *frame_hdr,
            *ranges,
            *p,
            offs@,
        ),
{
    let n: usize = if g.end < g.start { 0 } else { (g.end - g.start) as usize + 1 };
    let spans: Vec<TileSpan> = match split_tile_group(
        g.data.as_slice(),
        frame_hdr.tiling.n_bytes,
        n,
    ) {
        Ok(v) => v,
        Err(e) => {
            return Err(e);
        },
    };
    let cols: usize = frame_hdr.tiling.t.cols as usize;
    let rows: usize = frame_hdr.tiling.t.rows as usize;
    let start: usize = g.start as usize;
    let ghost ts0 = ts@;
    let mut i: usize = 0;
    while i < n
        invariant
            i <= n,
            n == g.count(),
            start == g.start,
            classes_fit(*frame_hdr),
            ranges.valid(),
            grid_valid(frame_hdr.tiling.t),
            0 <= p.sb_shift <= 14,
            group_fits(*g, ts0.len() as int, *p, offs@),
            first + n <= cols * rows,
            cols == frame_hdr.tiling.t.cols,
            rows == frame_hdr.tiling.t.rows,
            spans@.len() == n,
            forall|k: int| 0 <= k < n ==> (#[trigger] spans@[k]).off + spans@[k].len <= g.data@.len(),
            ts@.len() == ts0.len(),
            forall|j: int|
                0 <= j < ts0.len() ==> if start <= j < start + i {
                    nth_tile_set(
                        ts0[j],
                        #[trigger] ts@[j],
                        span_bytes(g.data@, spans@[j - start]),
                        first + (j - start),
                        *frame_hdr,
                        *ranges,
                        *p,
                        start_off_of(*p, offs@, j),
                    )
                } else {
                    ts@[j] == ts0[j]
                },
        decreases n - i,
    {
        assert(cols * rows <= 64 * 64 && cols > 0) by (nonlinear_arith)
            requires
                cols <= 64,
                rows <= 64,
                0 < cols * rows,
        ;
        let k: usize = first + i;
        let row: usize = k / cols;
        let col: usize = k % cols;
        assert(row < rows) by (nonlinear_arith)
            requires
                row == k / cols,
                k < cols * rows,
                cols > 0,
        ;
        let span: TileSpan = spans[i];
        let bytes: Vec<u8> = copy_bytes(g.data.as_slice(), span.off, span.len);
        let off: u32 = if p.n_passes > 1 { offs[start + i] } else { 0 };
        let j: usize = start + i;
        setup_tile(
            &mut ts[j],
            bytes.as_slice(),
            frame_hdr,
            ranges,
            p.in_cdf,
            p.qcat,
            row as i32,
            col as i32,
            &frame_hdr.tiling.t.col_start_sb,
            &frame_hdr.tiling.t.row_start_sb,
            p.sb_shift,
            p.bw,
            p.bh,
            p.n_tc,
            off,
        );
        i = i + 1;
    }
    Ok(())
}

/// Puts every tile of a frame in its slot. Fails where the bytes of a group
/// end too early.
pub fn decode_frame_init_cdf(
    ts: &mut Vec<TileSlot>,
    tile_groups: &[TileGroup],
    frame_hdr: &FrameHeader,
    ranges: &WienerRanges,
    p: &TileParams,
    tile_start_off: &[u32],
) -> (r: Result<()>)
    requires
        classes_fit(*frame_hdr),
        ranges.valid(),
        frame_hdr.tiling.n_bytes <= 7,
        grid_valid(frame_hdr.tiling.t),
        0 <= p.sb_shift <= 14,
        forall|i: int|
            0 <= i < tile_groups@.len() ==> group_fits(
                #[trigger] tile_groups@[i],
                old(ts)@.len() as int,
                *p,
                tile_start_off@,
            ),
        tiles_before(tile_groups@, tile_groups@.len() as int) <= frame_hdr.tiling.t.cols
            * frame_hdr.tiling.t.rows,
    ensures
        final(ts)@.len() == old(ts)@.len(),
        r is Ok <==> forall|i: int|
            0 <= i < tile_groups@.len() ==> split_tiles(
                (#[trigger] tile_groups@[i]).data@,
                frame_hdr.tiling.n_bytes as int,
                0,
                tile_groups@[i].count(),
            ) is Some,
        r is Err ==> r->Err_0 == Rav2dError::InvalidData,
        r is Ok ==> groups_set(
            old(ts)@,
            final(ts)@,
            tile_groups@,
            tile_groups@.len() as int,
            *frame_hdr,
            *ranges,
            *p,
            tile_start_off@,
        ),
{
    let ghost ts0 = ts@;
    let mut first: usize = 0;
    let mut i: usize = 0;
    let n: usize = tile_groups.len();
    while i < n
        invariant
            i <= n,
            n == tile_groups@.len(),
            ts0 == old(ts)@,
            classes_fit(*frame_hdr),
            ranges.valid(),
            frame_hdr.tiling.n_bytes <= 7,
            grid_valid(frame_hdr.tiling.t),
            0 <= p.sb_shift <= 14,
            ts@.len() == ts0.len(),
            forall|k: int|
                0 <= k < n ==> group_fits(
                    #[trigger] tile_groups@[k],
                    ts0.len() as int,
                    *p,
                    tile_start_off@,
                ),
            first == tiles_before(tile_groups@, i as int),
            tiles_before(tile_groups@, n as int) <= frame_hdr.tiling.t.cols
                * frame_hdr.tiling.t.rows,
            forall|k: int|
                0 <= k < i ==> split_tiles(
                    (#[trigger] tile_groups@[k]).data@,
                    frame_hdr.tiling.n_bytes as int,
                    0,
                    tile_groups@[k].count(),
                ) is Some,
            groups_set(
                ts0,
                ts@,
                tile_groups@,
                i as int,
                *frame_hdr,
                *ranges,
                *p,
                tile_start_off@,
            ),
        decreases n - i,
    {
        proof {
            lemma_tiles_ascend(tile_groups@, i + 1, n as int);
        }
        let ghost mid = ts@;
        let g: &TileGroup = &tile_groups[i];
        match setup_tile_group(ts, g, first, frame_hdr, ranges, p, tile_start_off) {
            Ok(_) => {},
            Err(e) => {
                return Err(e);
            },
        }
        assert(between(mid));
        let count: usize = if g.end < g.start { 0 } else { (g.end - g.start) as usize + 1 };
        let ghost (cols, rows) = (frame_hdr.tiling.t.cols, frame_hdr.tiling.t.rows);
        assert(cols * rows <= 64 * 64) by (nonlinear_arith)
            requires
                cols <= 64,
                rows <= 64,
        ;
        first = first + count;
        i = i + 1;
    }
    Ok(())
}

proof fn lemma_tiles_ascend(groups: Seq<TileGroup>, i: int, n: int)
    requires
        0 <= i <= n,
    ensures
        0 <= tiles_before(groups, i) <= tiles_before(groups, n),
    decreases n,
{
    if i < n {
        lemma_tiles_ascend(groups, i, n - 1);
    } else if i > 0 {
        lemma_tiles_ascend(groups, i - 1, n - 1);
    }
}

/// Sets where each tile of a frame lies, row by row. Used for frames that are
/// interpolated as a whole.
pub fn decode_tip_frame_init(
    ts: &mut Vec<TileSlot>,
    frame_hdr: &FrameHeader,
    sb_shift: i32,
    bw: i32,
    bh: i32,
    n_tc: i32,
)
    requires
        grid_valid(frame_hdr.tiling.t),
        0 <= sb_shift <= 14,
        frame_hdr.tiling.t.cols * frame_hdr.tiling.t.rows <= old(ts)@.len(),
    ensures
        final(ts)@.len() == old(ts)@.len(),
        forall|k: int|
            0 <= k < final(ts)@.len() ==> if k < frame_hdr.tiling.t.cols * frame_hdr.tiling.t.rows {
                tile_placed(
                    old(ts)@[k],
                    #[trigger] final(ts)@[k],
                    frame_hdr.tiling.t,
                    k,
                    sb_shift as int,
                    bw as int,
                    bh as int,
                    n_tc as int,
                )
            } else {
                final(ts)@[k] == old(ts)@[k]
            },
{
    let cols: usize = frame_hdr.tiling.t.cols as usize;
    let rows: usize = frame_hdr.tiling.t.rows as usize;
    assert(cols * rows <= 64 * 64) by (nonlinear_arith)
        requires
            cols <= 64,
            rows <= 64,
    ;
    let n: usize = cols * rows;
    let ghost ts0 = ts@;
    let mut k: usize = 0;
    while k < n
        invariant
            k <= n,
            n == cols * rows,
            cols == frame_hdr.tiling.t.cols,
            rows == frame_hdr.tiling.t.rows,
            grid_valid(frame_hdr.tiling.t),
            0 <= sb_shift <= 14,
            n <= ts0.len(),
            ts@.len() == ts0.len(),
            forall|j: int|
                0 <= j < ts0.len() ==> if j < k {
                    tile_placed(
                        ts0[j],
                        #[trigger] ts@[j],
                        frame_hdr.tiling.t,
                        j,
                        sb_shift as int,
                        bw as int,
                        bh as int,
                        n_tc as int,
                    )
                } else {
                    ts@[j] == ts0[j]
                },
        decreases n - k,
    {
        assert(cols > 0) by (nonlinear_arith)
            requires
                0 <= k < cols * rows,
        ;
        let row: usize = k / cols;
        let col: usize = k % cols;
        assert(row < rows) by (nonlinear_arith)
            requires
                row == k / cols,
                k < cols * rows,
                cols > 0,
        ;
        setup_tile_bounds(
            &mut ts[k],
            row as i32,
            col as i32,
            &frame_hdr.tiling.t.col_start_sb,
            &frame_hdr.tiling.t.row_start_sb,
            sb_shift,
            bw,
            bh,
            n_tc,
        );
        k = k + 1;
    }
}

/// Tile number `k` of the grid has its place; nothing else of the slot has
/// changed.
pub open spec fn tile_placed(
    before: TileSlot,
    after: TileSlot,
    t: TileGrid,
    k: int,
    sb_shift: int,
    bw: int,
    bh: int,
    n_tc: int,
) -> bool {
    &&& after.tiling == bounds_of(
        t.col_start_sb@,
        t.row_start_sb@,
        k / t.cols as int,
        k % t.cols as int,
        sb_shift,
        bw,
        bh,
    )
    &&& forall|i: int|
        0 <= i < 3 ==> #[trigger] after.progress[i] == (if n_tc > 1 {
            t.row_start_sb[k / t.cols as int] as i32
        } else {
            before.progress[i]
        })
    &&& after.cdf == before.cdf
    &&& after.last_qidx == before.last_qidx
    &&& after.msac_buf == before.msac_buf
    &&& after.tile_start_off == before.tile_start_off
    &&& after.ns_wiener_bank == before.ns_wiener_bank
}

/// Unit `x` lies between the edges of tile `c` in one direction.
pub open spec fn between_edges(starts: Seq<u16>, c: int, sb_shift: int, size: int, x: int) -> bool {
    starts[c] * p2(sb_shift) <= x < min(starts[c + 1] * p2(sb_shift), size)
}

pub proof fn lemma_some_tile(starts: Seq<u16>, n: int, sb_shift: int, size: int, x: int) -> (c: int)
    requires
        starts_increase(starts, n),
        n >= 1,
        0 <= sb_shift <= 14,
        0 <= x < size,
        x < starts[n] * p2(sb_shift),
    ensures
        0 <= c < n,
        between_edges(starts, c, sb_shift, size, x),
    decreases n,
{
    if x >= starts[n - 1] * p2(sb_shift) {
        n - 1
    } else {
        if n == 1 {
            assert(starts[0] * p2(sb_shift) == 0);
        }
        lemma_some_tile(starts, n - 1, sb_shift, size, x)
    }
}

/// Every unit of a frame lies in exactly one tile, where the tile starts
/// increase and the last tiles reach the edges of the frame.
pub proof fn law_tiles_partition_the_frame(
    t: TileGrid,
    sb_shift: int,
    bw: int,
    bh: int,
    x: int,
    y: int,
) -> (k: int)
    requires
        grid_valid(t),
        1 <= t.cols,
        1 <= t.rows,
        starts_increase(t.col_start_sb@, t.cols as int),
        starts_increase(t.row_start_sb@, t.rows as int),
        0 <= sb_shift <= 14,
        0 <= x < bw <= t.col_start_sb[t.cols as int] * p2(sb_shift) <= i32::MAX,
        0 <= y < bh <= t.row_start_sb[t.rows as int] * p2(sb_shift) <= i32::MAX,
    ensures
        0 <= k < t.cols * t.rows,
        forall|q: int|
            0 <= q < t.cols * t.rows ==> (q == k <==> #[trigger] holds_unit(
                t,
                q,
                sb_shift,
                bw,
                bh,
                x,
                y,
            )),
{
    let cols = t.cols as int;
    let rows = t.rows as int;
    let cs = t.col_start_sb@;
    let rs = t.row_start_sb@;
    let c = lemma_some_tile(cs, cols, sb_shift, bw, x);
    let r = lemma_some_tile(rs, rows, sb_shift, bh, y);
    let k = r * cols + c;
    assert(0 <= k < cols * rows && k / cols == r && k % cols == c) by {
        vstd::arithmetic::div_mod::lemma_fundamental_div_mod_converse(k, cols, r, c);
        assert(r * cols + c < cols * rows) by (nonlinear_arith)
            requires
                0 <= r < rows,
                0 <= c < cols,
        ;
        assert(0 <= r * cols) by (nonlinear_arith)
            requires
                0 <= r,
                0 <= cols,
        ;
    }
    assert forall|q: int| 0 <= q < cols * rows implies (q == k <==> #[trigger] holds_unit(
        t,
        q,
        sb_shift,
        bw,
        bh,
        x,
        y,
    )) by {
        let (qr, qc) = (q / cols, q % cols);
        vstd::arithmetic::div_mod::lemma_fundamental_div_mod(q, cols);
        assert(cols * qr == qr * cols) by (nonlinear_arith);
        assert(0 <= qr < rows) by (nonlinear_arith)
            requires
                0 <= q < cols * rows,
                q == cols * qr + qc,
                0 <= qc < cols,
        ;
        lemma_edges(cs, cols, sb_shift, bw, qc, c, x);
        lemma_edges(rs, rows, sb_shift, bh, qr, r, y);
        lemma_scaled(cs, cols, sb_shift, qc);
        lemma_scaled(rs, rows, sb_shift, qr);
        lemma_scaled(cs, cols, sb_shift, qc + 1);
        lemma_scaled(rs, rows, sb_shift, qr + 1);
    }
    k
}

/// Unit `(x, y)` lies in tile number `k`.
pub open spec fn holds_unit(t: TileGrid, k: int, sb_shift: int, bw: int, bh: int, x: int, y: int) -> bool {
    let b = bounds_of(
        t.col_start_sb@,
        t.row_start_sb@,
        k / t.cols as int,
        k % t.cols as int,
        sb_shift,
        bw,
        bh,
    );
    b.col_start <= x < b.col_end && b.row_start <= y < b.row_end
}

pub proof fn lemma_scaled(starts: Seq<u16>, n: int, sb_shift: int, c: int)
    requires
        starts_increase(starts, n),
        0 <= c <= n,
        0 <= sb_shift <= 14,
    ensures
        0 <= starts[c] * p2(sb_shift) <= 0xffff * 0x4000,
{
    assert(forall|k: int| 0 <= k <= 14 ==> 1 <= #[trigger] POW2[k] <= 0x4000);
    let (s, p) = (starts[c] as int, p2(sb_shift));
    assert(0 <= s * p <= 0xffff * 0x4000) by (nonlinear_arith)
        requires
            0 <= s <= 0xffff,
            1 <= p <= 0x4000,
    ;
}

pub proof fn lemma_edges(starts: Seq<u16>, n: int, sb_shift: int, size: int, c: int, d: int, x: int)
    requires
        starts_increase(starts, n),
        0 <= c < n,
        0 <= d < n,
        0 <= sb_shift <= 14,
        between_edges(starts, d, sb_shift, size, x),
    ensures
        between_edges(starts, c, sb_shift, size, x) <==> c == d,
{
    assert(forall|k: int| 0 <= k <= 14 ==> 1 <= #[trigger] POW2[k] <= 0x4000);
    let p = p2(sb_shift);
    if c < d {
        if c + 1 < d {
            assert(starts[c + 1] < starts[d]);
        }
        let (s, e) = (starts[c + 1] as int, starts[d] as int);
        assert(s * p <= e * p) by (nonlinear_arith)
            requires
                s <= e,
                1 <= p,
        ;
    } else if d < c {
        if d + 1 < c {
            assert(starts[d + 1] < starts[c]);
        }
        let (s, e) = (starts[d + 1] as int, starts[c] as int);
        assert(s * p <= e * p) by (nonlinear_arith)
            requires
                s <= e,
                1 <= p,
        ;
    }
}

/// Sizes are little-endian: byte `i` weighs 256 to the power of `i`.
pub proof fn law_first_byte_is_the_lowest(data: Seq<u8>, off: int)
    ensures
        le_number(data, off, 1) == data[off],
        le_number(data, off, 2) == data[off] + 256 * data[off + 1],
        le_number(data, off, 3) == data[off] + 256 * data[off + 1] + 65536 * data[off + 2],
        le_number(data, off, 4) == data[off] + 256 * data[off + 1] + 65536 * data[off + 2]
            + 16777216 * data[off + 3],
        le_number(data, off, 0) == 0,
{
    reveal_with_fuel(le_number, 5);
}

/// Two tiles in a group: a size, the first tile, and the second one from its
/// end to that of the data. The size counts one less than there are bytes.
pub proof fn law_tiles_lie_one_after_the_other(data: Seq<u8>, n_bytes: int)
    requires
        0 <= n_bytes <= 4,
        data.len() <= usize::MAX,
        n_bytes <= data.len(),
        0 <= le_number(data, 0, n_bytes),
    ensures
        ({
            let size = le_number(data, 0, n_bytes) + 1;
            let r = split_tiles(data, n_bytes, 0, 2);
            &&& r is Some <==> n_bytes + size <= data.len()
            &&& r matches Some(s) ==> {
                &&& s.len() == 2
                &&& s[0].off == n_bytes && s[0].len == size
                &&& s[1].off == n_bytes + size && s[1].off + s[1].len == data.len()
            }
        }),
        split_tiles(data, n_bytes, 0, 1) matches Some(s) ==> s.len() == 1 && s[0].off == 0
            && s[0].len == data.len(),
{
    reveal_with_fuel(split_tiles, 3);
}

/// A tile reaches from its start to that of the next one, or to the end of the
/// frame, in both directions; starts are given in superblocks.
pub proof fn law_tile_bounds(
    cols: Seq<u16>,
    rows: Seq<u16>,
    r: int,
    c: int,
    sb_shift: int,
    bw: int,
    bh: int,
)
    requires
        on_grid(cols, rows, r, c, sb_shift),
        rows.len() <= 0x1000,
        cols.len() <= 0x1000,
        0 <= bw <= 0x1000_0000,
        0 <= bh <= 0x1000_0000,
    ensures
        ({
            let b = bounds_of(cols, rows, r, c, sb_shift, bw, bh);
            let sb = p2(sb_shift);
            &&& b.row == r && b.col == c
            &&& b.col_start == cols[c] * sb
            &&& b.row_start == rows[r] * sb
            &&& cols[c + 1] * sb <= bw ==> b.col_end == cols[c + 1] * sb
            &&& cols[c + 1] * sb > bw ==> b.col_end == bw
            &&& rows[r + 1] * sb <= bh ==> b.row_end == rows[r + 1] * sb
            &&& rows[r + 1] * sb > bh ==> b.row_end == bh
        }),
{
    let sb = p2(sb_shift);
    assert(forall|k: int| 0 <= k <= 14 ==> 1 <= #[trigger] POW2[k] <= 0x4000);
    assert(0 <= cols[c] * sb <= 0xffff * 0x4000 && 0 <= rows[r] * sb <= 0xffff * 0x4000 && 0
        <= cols[c + 1] * sb <= 0xffff * 0x4000 && 0 <= rows[r + 1] * sb <= 0xffff * 0x4000)
        by (nonlinear_arith)
        requires
            1 <= sb <= 0x4000,
            0 <= cols[c] <= 0xffff,
            0 <= rows[r] <= 0xffff,
            0 <= cols[c + 1] <= 0xffff,
            0 <= rows[r + 1] <= 0xffff,
    ;
}

/// A tile that is put in its slot starts from the quantizer index of the frame
/// and from the kept distributions, or from the defaults where there are none.
pub proof fn law_tiles_start_from_the_frame(
    before: TileSlot,
    after: TileSlot,
    data: Seq<u8>,
    hdr: FrameHeader,
    ranges: WienerRanges,
    in_cdf: Option<u64>,
    qcat: usize,
    b: TileBounds,
    first: i32,
    n_tc: int,
    off: u32,
)
    requires
        tile_set(before, after, data, hdr, ranges, cdf_source(in_cdf, qcat), b, first, n_tc, off),
    ensures
        after.last_qidx == hdr.quant.yac,
        after.msac_buf@ == data,
        after.tiling == b,
        in_cdf matches Some(k) ==> after.cdf == CdfSource::Kept(k),
        in_cdf is None ==> after.cdf == CdfSource::Defaults(qcat),
        n_tc > 1 ==> after.progress[0] == first && after.progress[1] == first && after.progress[2]
            == first,
        after.tile_start_off == off,
{
    assert(after.progress[0] == after.progress[0] && after.progress[1] == after.progress[1]
        && after.progress[2] == after.progress[2]);
}

} // verus!
