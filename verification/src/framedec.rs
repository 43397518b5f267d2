//! Decoding of a frame: its tiles, row by row.
use vstd::prelude::*;

use crate::block::{context_reset, reset_context};
use crate::decodeb::{steps_covered, TileState};
use crate::error::{Rav2dError, Result};
use crate::filterrow::{filter_row, filter_sbrow, FilterParams, FilterRow};
use crate::frame::{quant_valid, sb_deltas, NsWienerBank};
use crate::frameinfo::SbFrameInfo;
use crate::headers::{FrameHeader, MAX_SEGMENTS};
use crate::intops::{max, min};
use crate::levels::BlockSize;
use crate::msac::{MsacContext, Sym};
use crate::restoration::{BankClass, NsTables};
use crate::sbdec::{frame_ok, tile_ok, SbContext, SbState};
use crate::sbrow::{
    bank_classes, banks_ok, decode_tile_sbrow_entropy, input_at, row_done, row_fails, row_ok,
    RowContext, RowInput, RowParams, RowState,
};
use crate::tile::{classes_fit, TileBounds};

verus! {

/// What a tile carries from one row of superblocks to the next.
pub struct TileRun {
    pub msac: MsacContext,
    pub banks: [NsWienerBank; 3],
    pub qidx: i32,
    pub dq: [[[u32; 2]; 3]; MAX_SEGMENTS],
    pub parts: Vec<u8>,
}

/// The same, as it is reasoned about.
pub struct RunState {
    pub sym: Sym,
    pub banks: Seq<Seq<BankClass>>,
    pub qidx: i32,
    pub dq: [[[u32; 2]; 3]; MAX_SEGMENTS],
    pub parts: Seq<u8>,
}

impl View for TileRun {
    type V = RunState;

    open spec fn view(&self) -> RunState {
        RunState {
            sym: self.msac@,
            banks: bank_classes(self.banks),
            qidx: self.qidx,
            dq: self.dq,
            parts: self.parts@,
        }
    }
}

/// A frame that is being decoded. `row` holds what the tiles share; its
/// reader, banks, quantizers and partitions belong to no tile.
pub struct MainContext {
    pub row: RowContext,
    pub runs: Vec<TileRun>,
    /// The filters that are due, in order.
    pub filtered: Vec<FilterRow>,
}

pub struct MainState {
    pub row: RowState,
    pub runs: Seq<RunState>,
    pub filtered: Seq<FilterRow>,
}

impl View for MainContext {
    type V = MainState;

    open spec fn view(&self) -> MainState {
        MainState {
            row: self.row@,
            runs: Seq::new(self.runs@.len(), |i: int| self.runs@[i]@),
            filtered: self.filtered@,
        }
    }
}

/// What stays the same over a frame.
pub struct FrameParams<'a> {
    pub hdr: &'a FrameHeader,
    /// What the blocks of every tile know of the frame.
    pub info: SbFrameInfo,
    pub tiles: Vec<TileBounds>,
    pub sb256w: i32,
    pub root_bs: BlockSize,
    pub c_root_bs: BlockSize,
    pub unit_log2: [u8; 2],
    pub y: &'a NsTables,
    pub uv: &'a NsTables,
    pub filter: FilterParams,
    pub start_of_tile_row: Vec<u8>,
}

impl<'a> FrameParams<'a> {
    /// What the blocks of tile `t` know of the frame.
    pub open spec fn info_of(self, t: int) -> SbFrameInfo {
        SbFrameInfo {
            tile_col_start: self.tiles@[t].col_start,
            tile_col_end: self.tiles@[t].col_end,
            tile_row_start: self.tiles@[t].row_start,
            tile_row_end: self.tiles@[t].row_end,
            ..self.info
        }
    }

    /// The row of superblocks of tile `t` at `by`.
    pub open spec fn row_of(self, t: int, by: int) -> RowParams<'a> {
        RowParams {
            by: by as i32,
            sb256w: self.sb256w,
            root_bs: self.root_bs,
            c_root_bs: self.c_root_bs,
            tile: self.tiles@[t],
            unit_log2: self.unit_log2,
            y: self.y,
            uv: self.uv,
        }
    }

    pub open spec fn cols(self) -> int {
        self.hdr.tiling.t.cols as int
    }

    pub open spec fn rows(self) -> int {
        self.hdr.tiling.t.rows as int
    }

    pub open spec fn step(self) -> int {
        self.info.sb_step as int
    }

    pub open spec fn valid(self) -> bool {
        &&& self.cols() <= 64
        &&& self.rows() <= 64
        &&& self.tiles@.len() == self.cols() * self.rows()
        &&& classes_fit(*self.hdr)
        &&& frame_ok(self.info)
        &&& self.filter.valid()
        &&& self.filter.sb_step == self.info.sb_step
        &&& forall|t: int|
            0 <= t < self.tiles@.len() ==> {
                let b = #[trigger] self.tiles@[t];
                &&& 0 <= b.row <= 64
                &&& 0 <= b.col_start
                &&& 0 <= b.col_end <= 0x10_0000
                &&& 0 <= b.row_start
                &&& 0 <= b.row_end <= 0x3_fff0
            }
        &&& 0 <= self.sb256w <= 0x1_0000
        &&& self.root_bs == BlockSize::Bs64x64 || self.root_bs == BlockSize::Bs128x128
            || self.root_bs == BlockSize::Bs256x256
        &&& self.y.valid(false)
        &&& self.uv.valid(true)
        &&& 7 <= self.unit_log2[0] <= 12
        &&& 7 - min(self.info.ss_ver as int, self.info.ss_hor as int)
            <= self.unit_log2[1] <= 12
    }
}

/// One piece of work: a row of superblocks of a tile to decode, or a
/// superblock row of the frame to filter.
#[derive(Debug, Clone, Copy, PartialEq, Eq, Structural)]
pub enum Work {
    Decode(usize, i32),
    Filter(i32),
}

/// The tiles of a tile row at `by`, from column `c` on; `base` is the first
/// tile of the row.
pub open spec fn decodes_at(p: FrameParams, base: int, by: int, c: int) -> Seq<Work>
    decreases p.cols() - c,
{
    if c >= p.cols() {
        Seq::empty()
    } else {
        let b = p.tiles@[base + c];
        let rest = decodes_at(p, base, by, c + 1);
        if b.row_start <= by < b.row_end {
            seq![Work::Decode((base + c) as usize, by as i32)] + rest
        } else {
            rest
        }
    }
}

/// The rows of superblocks of a tile row from `by` to `end`, across all tiles
/// before the next row starts.
pub open spec fn decodes_from(p: FrameParams, base: int, by: int, end: int) -> Seq<Work>
    decreases max(end - by, 0),
{
    if by >= end || p.step() <= 0 {
        Seq::empty()
    } else {
        decodes_at(p, base, by, 0) + decodes_from(p, base, by + p.step(), end)
    }
}

/// The superblock rows of a tile row to filter, from `by` to `end`.
pub open spec fn filters_from(p: FrameParams, by: int, end: int) -> Seq<Work>
    decreases max(end - by, 0),
{
    if by >= end || p.step() <= 0 {
        Seq::empty()
    } else {
        seq![Work::Filter((by / p.step()) as i32)] + filters_from(p, by + p.step(), end)
    }
}

/// A tile row: all of it is decoded before any of it is filtered, since blocks
/// copy from unfiltered parts of their tile row.
pub open spec fn tile_row_work(p: FrameParams, r: int) -> Seq<Work> {
    let base = r * p.cols();
    let b = p.tiles@[base];
    decodes_from(p, base, b.row_start as int, b.row_end as int) + filters_from(
        p,
        b.row_start as int,
        b.row_end as int,
    )
}

/// The tile rows from the `r`-th on.
pub open spec fn work_from(p: FrameParams, r: int) -> Seq<Work>
    decreases p.rows() - r,
{
    if r >= p.rows() || p.cols() <= 0 {
        Seq::empty()
    } else {
        tile_row_work(p, r) + work_from(p, r + 1)
    }
}

/// What a tile finds where a row of its superblocks starts: its own reader,
/// banks, quantizers and partitions, and a fresh context to the left.
pub open spec fn tile_entered(p: FrameParams, s: MainState, t: int, m: RowState) -> bool {
    let run = s.runs[t];
    &&& m.a == s.row.a
    &&& m.lr == s.row.lr
    &&& m.banks == run.banks
    &&& context_reset(
        s.row.sb.l,
        m.sb.l,
        !p.hdr.frame_type.inter_or_switch(),
        p.hdr.tip.frame_mode == 2,
    )
    &&& m.sb == (SbState {
        sym: run.sym,
        l: m.sb.l,
        t: TileState { qidx: run.qidx, dq: run.dq, ..s.row.sb.t },
        parts: run.parts,
        ..s.row.sb
    })
}

/// What a tile leaves where a row of its superblocks ends.
pub open spec fn tile_left(s: MainState, t: int, e: RowState, s1: MainState) -> bool {
    &&& s1.filtered == s.filtered
    &&& s1.runs == s.runs.update(
        t,
        RunState {
            sym: e.sb.sym,
            banks: e.banks,
            qidx: e.sb.t.qidx,
            dq: e.sb.t.dq,
            parts: e.sb.parts,
        },
    )
    &&& s1.row == (RowState {
        a: e.a,
        lr: e.lr,
        banks: s.row.banks,
        sb: SbState {
            sym: s.row.sb.sym,
            t: TileState { qidx: s.row.sb.t.qidx, dq: s.row.sb.t.dq, ..e.sb.t },
            parts: s.row.sb.parts,
            ..e.sb
        },
    })
}

/// Marks the states at both ends of a row.
pub open spec fn row_ends(m: RowState, e: RowState) -> bool {
    true
}

/// Decoding the row of superblocks of tile `t` at `by` takes `s0` to `s1`.
pub open spec fn decode_step(
    p: FrameParams,
    input: RowInput,
    t: int,
    by: int,
    s0: MainState,
    s1: MainState,
) -> bool {
    exists|m: RowState, e: RowState| #[trigger]
        row_ends(m, e) && tile_entered(p, s0, t, m) && row_done(
            p.info_of(t),
            p.row_of(t, by),
            *p.hdr,
            input,
            m,
            e,
        ) && tile_left(s0, t, e, s1)
}

/// The row of superblocks of tile `t` at `by` cannot be decoded from `s0`.
pub open spec fn decode_fails(
    p: FrameParams,
    input: RowInput,
    t: int,
    by: int,
    s0: MainState,
) -> bool {
    exists|m: RowState, n: int, e: RowState| #[trigger]
        row_fails(p.info_of(t), p.row_of(t, by), *p.hdr, input, m, n, e) && tile_entered(
            p,
            s0,
            t,
            m,
        )
}

/// One piece of work takes `s0` to `s1`.
pub open spec fn work_step(
    p: FrameParams,
    input: RowInput,
    w: Work,
    s0: MainState,
    s1: MainState,
) -> bool {
    match w {
        Work::Decode(t, by) => decode_step(p, input, t as int, by as int, s0, s1),
        Work::Filter(sby) => s1 == (MainState {
            filtered: s0.filtered.push(filter_row(p.filter, p.start_of_tile_row@, sby as int)),
            ..s0
        }),
    }
}

/// Marks the state between two pieces of work.
pub open spec fn between_work(s: MainState) -> bool {
    true
}

/// The first `n` pieces of work take `s0` to `s1`.
pub open spec fn work_run(
    p: FrameParams,
    input: RowInput,
    works: Seq<Work>,
    n: int,
    s0: MainState,
    s1: MainState,
) -> bool
    decreases n,
{
    if n <= 0 {
        s1 == s0
    } else {
        exists|m: MainState| #[trigger]
            between_work(m) && work_run(p, input, works, n - 1, s0, m) && work_step(
                p,
                input,
                works[n - 1],
                m,
                s1,
            )
    }
}

/// The frame fails at the piece of work number `n`.
pub open spec fn work_fails(
    p: FrameParams,
    input: RowInput,
    works: Seq<Work>,
    n: int,
    s0: MainState,
    m: MainState,
) -> bool {
    &&& 0 <= n < works.len()
    &&& work_run(p, input, works, n, s0, m)
    &&& works[n] matches Work::Decode(t, by) && decode_fails(p, input, t as int, by as int, m)
}

/// What holds between pieces of work.
pub open spec fn main_ok(p: FrameParams, input: RowInput, s: MainState) -> bool {
    &&& s.runs.len() == p.tiles@.len()
    &&& forall|i: int| 0 <= i < s.row.a.len() ==> (#[trigger] s.row.a[i]).wf()
    &&& s.row.sb.l.wf()
    &&& 0 <= s.row.sb.t.qidx <= 0xffff
    &&& s.row.sb.t.lf@.len() > 0 ==> tile_ok(p.info, s.row.sb.t, input_at(input, 0))
    &&& forall|t: int|
        0 <= t < s.runs.len() ==> banks_ok((#[trigger] s.runs[t]).banks, p.row_of(t, 0)) && 0
            <= s.runs[t].qidx <= 0xffff
}

/// A frame is begun: the contexts above all tile rows are fresh, and no unit
/// has a segment yet.
pub open spec fn frame_begun(p: FrameParams, s0: MainState, s1: MainState) -> bool {
    let n = min(p.sb256w * p.rows(), s0.row.a.len() as int);
    &&& s1.row.a.len() == s0.row.a.len()
    &&& forall|i: int|
        0 <= i < s0.row.a.len() ==> if i < n {
            context_reset(
                #[trigger] s0.row.a[i],
                s1.row.a[i],
                !p.hdr.frame_type.inter_or_switch(),
                p.hdr.tip.frame_mode == 2,
            )
        } else {
            s1.row.a[i] == s0.row.a[i]
        }
    &&& s1.row.sb.t.segmap@.len() == s0.row.sb.t.segmap@.len()
    &&& forall|i: int|
        0 <= i < s0.row.sb.t.segmap@.len() ==> #[trigger] s1.row.sb.t.segmap@[i] == (
        if p.info.seg_enabled {
            0
        } else {
            s0.row.sb.t.segmap@[i]
        })
    &&& s1 == (MainState {
        row: RowState {
            a: s1.row.a,
            sb: SbState {
                t: TileState { segmap: s1.row.sb.t.segmap, ..s0.row.sb.t },
                ..s0.row.sb
            },
            ..s0.row
        },
        ..s0
    })
}

/// Begins a frame.
fn begin_frame(p: &FrameParams, input: &RowInput, c: &mut MainContext)
    requires
        p.valid(),
        main_ok(*p, *input, old(c)@),
    ensures
        frame_begun(*p, old(c)@, final(c)@),
        main_ok(*p, *input, final(c)@),
{
    let ghost c0 = *c;
    let ghost s0 = c@;
    let key: bool = p.hdr.is_key_or_intra();
    let tip: bool = p.hdr.tip.frame_mode == 2;
    let len: usize = c.row.a.len();
    assert(0 <= p.sb256w * p.rows() <= 0x40_0000) by (nonlinear_arith)
        requires
            0 <= p.sb256w <= 0x1_0000,
            0 <= p.rows() <= 64,
    ;
    let all: usize = p.sb256w as usize * p.hdr.tiling.t.rows as usize;
    let n: usize = if all < len { all } else { len };
    let mut i: usize = 0;
    assert forall|k: int| 0 <= k < len implies (#[trigger] c.row.a@[k]).wf() by {
        assert(s0.row.a[k].wf());
    }
    while i < n
        invariant
            n <= len,
            len == s0.row.a.len(),
            i <= n,
            s0 == c0@,
            key == !p.hdr.frame_type.inter_or_switch(),
            tip == (p.hdr.tip.frame_mode == 2),
            c.row.a@.len() == len,
            *c == (MainContext { row: RowContext { a: c.row.a, ..c0.row }, ..c0 }),
            forall|k: int| 0 <= k < len ==> (#[trigger] s0.row.a[k]).wf(),
            forall|k: int|
                0 <= k < len ==> if k < i {
                    context_reset(#[trigger] s0.row.a[k], c.row.a@[k], key, tip)
                } else {
                    c.row.a@[k] == s0.row.a[k]
                },
            forall|k: int| 0 <= k < len ==> (#[trigger] c.row.a@[k]).wf(),
        decreases n - i,
    {
        reset_context(&mut c.row.a[i], key, tip);
        i = i + 1;
    }
    let ghost c1 = *c;
    if p.info.seg_enabled {
        let m: usize = c.row.sb.t.segmap.len();
        let mut j: usize = 0;
        while j < m
            invariant
                j <= m,
                c.row.sb.t.segmap@.len() == m,
                c1.row.sb.t.segmap@.len() == m,
                *c == (MainContext {
                    row: RowContext {
                        sb: SbContext {
                            t: TileState { segmap: c.row.sb.t.segmap, ..c1.row.sb.t },
                            ..c1.row.sb
                        },
                        ..c1.row
                    },
                    ..c1
                }),
                forall|k: int| 0 <= k < j ==> #[trigger] c.row.sb.t.segmap@[k] == 0,
            decreases m - j,
        {
            c.row.sb.t.segmap[j] = 0;
            j = j + 1;
        }
    }
    assert(c@.runs =~= s0.runs);
}

fn swap_run(row: &mut RowContext, run: &mut TileRun)
    ensures
        final(row)@ == (RowState {
            banks: old(run)@.banks,
            sb: SbState {
                sym: old(run)@.sym,
                t: TileState { qidx: old(run)@.qidx, dq: old(run)@.dq, ..old(row)@.sb.t },
                parts: old(run)@.parts,
                ..old(row)@.sb
            },
            ..old(row)@
        }),
        final(run)@ == (RunState {
            sym: old(row)@.sb.sym,
            banks: old(row)@.banks,
            qidx: old(row)@.sb.t.qidx,
            dq: old(row)@.sb.t.dq,
            parts: old(row)@.sb.parts,
        }),
{
    core::mem::swap(&mut row.sb.msac, &mut run.msac);
    core::mem::swap(&mut row.sb.parts, &mut run.parts);
    let banks: [NsWienerBank; 3] = row.banks;
    row.banks = run.banks;
    run.banks = banks;
    let qidx: i32 = row.sb.t.qidx;
    row.sb.t.qidx = run.qidx;
    run.qidx = qidx;
    let dq: [[[u32; 2]; 3]; MAX_SEGMENTS] = row.sb.t.dq;
    row.sb.t.dq = run.dq;
    run.dq = dq;
}

fn run_decode(
    p: &FrameParams,
    input: &RowInput,
    t: usize,
    by: i32,
    c: &mut MainContext,
) -> (r: Result<()>)
    requires
        p.valid(),
        t < p.tiles@.len(),
        p.tiles@[t as int].row_start <= by < p.tiles@[t as int].row_end,
        main_ok(*p, *input, old(c)@),
    ensures
        r is Ok ==> decode_step(*p, *input, t as int, by as int, old(c)@, final(c)@),
        r is Ok ==> main_ok(*p, *input, final(c)@),
        r is Err ==> decode_fails(*p, *input, t as int, by as int, old(c)@),
        r is Err ==> r->Err_0 == Rav2dError::InvalidData,
{
    let ghost s0 = c@;
    let b: TileBounds = p.tiles[t];
    let fi: SbFrameInfo = SbFrameInfo {
        tile_col_start: b.col_start,
        tile_col_end: b.col_end,
        tile_row_start: b.row_start,
        tile_row_end: b.row_end,
        ..p.info
    };
    let row: RowParams = RowParams {
        by,
        sb256w: p.sb256w,
        root_bs: p.root_bs,
        c_root_bs: p.c_root_bs,
        tile: b,
        unit_log2: p.unit_log2,
        y: p.y,
        uv: p.uv,
    };
    assert(fi == p.info_of(t as int));
    assert(row == p.row_of(t as int, by as int));
    swap_run(&mut c.row, &mut c.runs[t]);
    let ghost c1 = *c;
    reset_context(&mut c.row.sb.l, p.hdr.is_key_or_intra(), p.hdr.tip.frame_mode == 2);
    let ghost m = c.row@;
    assert(s0.runs[t as int] == old(c).runs@[t as int]@);
    assert(tile_entered(*p, s0, t as int, m));
    assert(banks_ok(s0.runs[t as int].banks, p.row_of(t as int, 0)));
    assert(sb_deltas(fi) == sb_deltas(p.info));
    assert(row_ok(fi, row, *input, m));
    match decode_tile_sbrow_entropy(&fi, &row, p.hdr, input, &mut c.row) {
        Ok(_) => {},
        Err(e) => {
            return Err(e);
        },
    }
    let ghost e = c.row@;
    swap_run(&mut c.row, &mut c.runs[t]);
    proof {
        assert(row_ends(m, e));
        assert(c@.runs =~= s0.runs.update(
            t as int,
            RunState {
            sym: e.sb.sym,
            banks: e.banks,
            qidx: e.sb.t.qidx,
            dq: e.sb.t.dq,
            parts: e.sb.parts,
        },
        ));
        assert(tile_left(s0, t as int, e, c@));
        assert(banks_ok(e.banks, row));
        if e.sb.t.lf@.len() > 0 {
            assert(tile_ok(fi, e.sb.t, input_at(*input, 0)));
            assert(steps_covered(p.info, *input.table)) by {
                assert(steps_covered(fi, *input.table));
                if p.info.delta_q_present {
                    assert forall|q: int| 1 <= q <= 255 implies #[trigger] quant_valid(
                        *input.table,
                        p.info.seg_enabled,
                        p.info.seg_delta_q,
                        sb_deltas(p.info),
                        q,
                    ) by {
                        assert(quant_valid(
                            *input.table,
                            fi.seg_enabled,
                            fi.seg_delta_q,
                            sb_deltas(fi),
                            q,
                        ));
                    }
                }
            }
        }
        assert forall|k: int| 0 <= k < c@.runs.len() implies banks_ok(
            (#[trigger] c@.runs[k]).banks,
            p.row_of(k, 0),
        ) && 0 <= c@.runs[k].qidx <= 0xffff by {
            if k == t {
                assert(banks_ok(c@.runs[k].banks, p.row_of(k, 0)));
            } else {
                assert(c@.runs[k] == s0.runs[k]);
            }
        }
    }
    Ok(())
}

/// What is left of the work after its first piece.
proof fn lemma_next_work(works: Seq<Work>, n: int, w: Work, rest: Seq<Work>)
    requires
        0 <= n <= works.len(),
        works.subrange(n, works.len() as int) == seq![w] + rest,
    ensures
        n < works.len(),
        works[n] == w,
        works.subrange(n + 1, works.len() as int) == rest,
{
    let left = works.subrange(n, works.len() as int);
    assert(left.len() == 1 + rest.len());
    assert(left[0] == w);
    assert forall|i: int| 0 <= i < rest.len() implies works.subrange(
        n + 1,
        works.len() as int,
    )[i] == rest[i] by {
        assert(left[i + 1] == rest[i]);
    }
    assert(works.subrange(n + 1, works.len() as int) =~= rest);
}

/// Decodes the tile row whose first tile is `base`.
fn decode_tile_row(
    p: &FrameParams,
    input: &RowInput,
    base: usize,
    c: &mut MainContext,
    Ghost(works): Ghost<Seq<Work>>,
    Ghost(n0): Ghost<int>,
    Ghost(s0): Ghost<MainState>,
    Ghost(after): Ghost<Seq<Work>>,
) -> (r: (Result<()>, Ghost<int>))
    requires
        p.valid(),
        base + p.cols() <= p.tiles@.len(),
        1 <= p.cols(),
        main_ok(*p, *input, old(c)@),
        0 <= n0 <= works.len(),
        work_run(*p, *input, works, n0, s0, old(c)@),
        works.subrange(n0, works.len() as int) == decodes_from(
            *p,
            base as int,
            p.tiles@[base as int].row_start as int,
            p.tiles@[base as int].row_end as int,
        ) + after,
    ensures
        r.0 is Ok ==> main_ok(*p, *input, final(c)@),
        r.0 is Ok ==> 0 <= r.1@ <= works.len(),
        r.0 is Ok ==> work_run(*p, *input, works, r.1@, s0, final(c)@),
        r.0 is Ok ==> works.subrange(r.1@, works.len() as int) == after,
        r.0 is Err ==> r.0->Err_0 == Rav2dError::InvalidData,
        r.0 is Err ==> exists|n: int, m: MainState| #[trigger]
            work_fails(*p, *input, works, n, s0, m),
{
    let cols: usize = p.hdr.tiling.t.cols as usize;
    let step: i32 = p.info.sb_step;
    let end: i32 = p.tiles[base].row_end;
    let mut by: i32 = p.tiles[base].row_start;
    let ghost mut n: int = n0;
    let len: usize = p.tiles.len();
    while by < end
        invariant
            p.valid(),
            base + cols <= len,
            len == p.tiles@.len(),
            1 <= cols,
            cols == p.cols(),
            step == p.step(),
            16 <= step <= 64,
            0 <= by,
            end <= 0x3_fff0,
            main_ok(*p, *input, c@),
            0 <= n <= works.len(),
            work_run(*p, *input, works, n, s0, c@),
            works.subrange(n, works.len() as int) == decodes_from(
                *p,
                base as int,
                by as int,
                end as int,
            ) + after,
        decreases 0x4_0100 - by,
    {
        let ghost later = decodes_from(*p, base as int, by + step, end as int) + after;
        assert(decodes_from(*p, base as int, by as int, end as int) + after =~= decodes_at(
            *p,
            base as int,
            by as int,
            0,
        ) + later);
        let mut k: usize = 0;
        while k < cols
            invariant
                p.valid(),
                base + cols <= len,
                len == p.tiles@.len(),
                k <= cols,
                cols == p.cols(),
                0 <= by,
                main_ok(*p, *input, c@),
                0 <= n <= works.len(),
                work_run(*p, *input, works, n, s0, c@),
                works.subrange(n, works.len() as int) == decodes_at(
                    *p,
                    base as int,
                    by as int,
                    k as int,
                ) + later,
            decreases cols - k,
        {
            let t: usize = base + k;
            let b: TileBounds = p.tiles[t];
            let ghost rest = decodes_at(*p, base as int, by as int, k + 1);
            if b.row_start <= by && by < b.row_end {
                let ghost w = Work::Decode(t, by);
                let ghost m = c@;
                proof {
                    assert((seq![w] + rest) + later =~= seq![w] + (rest + later));
                    lemma_next_work(works, n, w, rest + later);
                }
                match run_decode(p, input, t, by, c) {
                    Ok(_) => {},
                    Err(e) => {
                        assert(work_fails(*p, *input, works, n, s0, m));
                        return (Err(e), Ghost(n));
                    },
                }
                proof {
                    assert(between_work(m));
                    assert(work_step(*p, *input, works[n], m, c@));
                    n = n + 1;
                }
            }
            k = k + 1;
        }
        assert(decodes_at(*p, base as int, by as int, cols as int) + later =~= later);
        by = by + step;
    }
    assert(decodes_from(*p, base as int, by as int, end as int) + after =~= after);
    (Ok(()), Ghost(n))
}

/// Decides the filters of the tile row whose first tile is `base`.
fn filter_tile_row(
    p: &FrameParams,
    input: &RowInput,
    base: usize,
    c: &mut MainContext,
    Ghost(works): Ghost<Seq<Work>>,
    Ghost(n0): Ghost<int>,
    Ghost(s0): Ghost<MainState>,
    Ghost(after): Ghost<Seq<Work>>,
) -> (r: Ghost<int>)
    requires
        p.valid(),
        base < p.tiles@.len(),
        main_ok(*p, *input, old(c)@),
        0 <= n0 <= works.len(),
        work_run(*p, *input, works, n0, s0, old(c)@),
        works.subrange(n0, works.len() as int) == filters_from(
            *p,
            p.tiles@[base as int].row_start as int,
            p.tiles@[base as int].row_end as int,
        ) + after,
    ensures
        main_ok(*p, *input, final(c)@),
        0 <= r@ <= works.len(),
        work_run(*p, *input, works, r@, s0, final(c)@),
        works.subrange(r@, works.len() as int) == after,
{
    let step: i32 = p.info.sb_step;
    let end: i32 = p.tiles[base].row_end;
    let mut by: i32 = p.tiles[base].row_start;
    let ghost mut n: int = n0;
    while by < end
        invariant
            p.valid(),
            step == p.step(),
            16 <= step <= 64,
            0 <= by,
            end <= 0x3_fff0,
            main_ok(*p, *input, c@),
            0 <= n <= works.len(),
            work_run(*p, *input, works, n, s0, c@),
            works.subrange(n, works.len() as int) == filters_from(*p, by as int, end as int)
                + after,
        decreases 0x4_0100 - by,
    {
        let sby: i32 = by / step;
        assert(0 <= sby < 0x4000) by (nonlinear_arith)
            requires
                sby == by as int / step as int,
                0 <= by < 0x4_0000,
                16 <= step,
        ;
        let ghost rest = filters_from(*p, by + step, end as int) + after;
        let ghost w = Work::Filter(sby);
        let ghost m = c@;
        proof {
            assert(filters_from(*p, by as int, end as int) + after =~= seq![w] + rest);
            lemma_next_work(works, n, w, rest);
        }
        c.filtered.push(filter_sbrow(&p.filter, p.start_of_tile_row.as_slice(), sby));
        proof {
            assert(c@.runs =~= m.runs);
            assert(between_work(m));
            assert(work_step(*p, *input, works[n], m, c@));
            n = n + 1;
        }
        by = by + step;
    }
    assert(filters_from(*p, by as int, end as int) + after =~= after);
    Ghost(n)
}

/// Decodes the tiles of a frame. The contexts above and the segments are
/// forgotten first. Each tile row has all its superblock rows across all tiles
/// decoded, and then the filters of its superblock rows decided. Fails at the
/// first row of superblocks that cannot be decoded.
pub fn decode_frame_main(p: &FrameParams, input: &RowInput, c: &mut MainContext) -> (r: Result<()>)
    requires
        p.valid(),
        main_ok(*p, *input, old(c)@),
    ensures
        r is Ok ==> exists|b: MainState| #[trigger]
            frame_begun(*p, old(c)@, b) && work_run(
                *p,
                *input,
                work_from(*p, 0),
                work_from(*p, 0).len() as int,
                b,
                final(c)@,
            ),
        r is Ok ==> main_ok(*p, *input, final(c)@),
        r is Err ==> r->Err_0 == Rav2dError::InvalidData,
        r is Err ==> exists|b: MainState, n: int, m: MainState|
            #![trigger frame_begun(*p, old(c)@, b), work_fails(
                *p,
                *input,
                work_from(*p, 0),
                n,
                b,
                m,
            )]
            frame_begun(*p, old(c)@, b) && work_fails(*p, *input, work_from(*p, 0), n, b, m),
{
    begin_frame(p, input, c);
    let ghost s0 = c@;
    assert(frame_begun(*p, old(c)@, s0));
    let ghost works = work_from(*p, 0);
    let ghost mut n: int = 0;
    let cols: usize = p.hdr.tiling.t.cols as usize;
    let rows: usize = p.hdr.tiling.t.rows as usize;
    assert(works.subrange(0, works.len() as int) =~= works);
    if cols == 0 {
        return Ok(());
    }
    let mut r: usize = 0;
    while r < rows
        invariant
            p.valid(),
            cols == p.cols(),
            rows == p.rows(),
            1 <= cols,
            r <= rows,
            works == work_from(*p, 0),
            frame_begun(*p, old(c)@, s0),
            main_ok(*p, *input, c@),
            0 <= n <= works.len(),
            work_run(*p, *input, works, n, s0, c@),
            works.subrange(n, works.len() as int) == work_from(*p, r as int),
        decreases rows - r,
    {
        assert(r * cols + cols <= cols * rows && r * cols <= 64 * 64) by (nonlinear_arith)
            requires
                0 <= r < rows,
                rows <= 64,
                1 <= cols <= 64,
        ;
        let base: usize = r * cols;
        let ghost later = work_from(*p, r + 1);
        let ghost b = p.tiles@[base as int];
        let ghost after = filters_from(*p, b.row_start as int, b.row_end as int) + later;
        assert(work_from(*p, r as int) =~= decodes_from(
            *p,
            base as int,
            b.row_start as int,
            b.row_end as int,
        ) + after);
        let (res, k) = decode_tile_row(
            p,
            input,
            base,
            c,
            Ghost(works),
            Ghost(n),
            Ghost(s0),
            Ghost(after),
        );
        match res {
            Ok(_) => {},
            Err(e) => {
                return Err(e);
            },
        }
        let k2: Ghost<int> = filter_tile_row(
            p,
            input,
            base,
            c,
            Ghost(works),
            Ghost(k@),
            Ghost(s0),
            Ghost(later),
        );
        proof {
            n = k2@;
        }
        r = r + 1;
    }
    proof {
        assert(work_from(*p, r as int).len() == 0);
        assert(n == works.len());
    }
    Ok(())
}

} // verus!
