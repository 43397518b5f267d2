//! Every unit of luma of a frame is decoded exactly once.
use vstd::prelude::*;

use crate::coverage::{lemma_superblocks_count, luma_count};
use crate::frame::starts_increase;
use crate::framedec::{
    between_work, decodes_at, decodes_from, filters_from, row_ends, tile_entered,
    tile_left, tile_row_work, work_from, work_run, work_step, FrameParams, MainState, Work,
};
use crate::intops::{b2i, max, min, p2};
use crate::sbdec::frame_ok;
use crate::sbrow::{
    law_row_covers_the_tile, row_closed, row_done, row_overran, row_run, sb_column, sb_count, RowInput,
    RowState,
};
use crate::tile::{between_edges, bounds_of, lemma_edges, lemma_scaled, lemma_some_tile};

verus! {

/// The tiles of a frame lie where its tile grid puts them, the starts increase,
/// the last tiles reach the edges of the frame, and superblocks are as large as
/// the steps of the grid.
pub open spec fn tiles_placed(p: FrameParams, sb_shift: int) -> bool {
    let t = p.hdr.tiling.t;
    &&& 4 <= sb_shift <= 6
    &&& p2(sb_shift) == p.step()
    &&& p.root_bs.w4() == p.step()
    &&& p.root_bs.h4() == p.step()
    &&& 1 <= t.cols
    &&& 1 <= t.rows
    &&& starts_increase(t.col_start_sb@, t.cols as int)
    &&& starts_increase(t.row_start_sb@, t.rows as int)
    &&& p.info.bw <= t.col_start_sb[t.cols as int] * p2(sb_shift)
    &&& p.info.bh <= t.row_start_sb[t.rows as int] * p2(sb_shift)
    &&& forall|k: int|
        0 <= k < p.tiles@.len() ==> #[trigger] p.tiles@[k] == bounds_of(
            t.col_start_sb@,
            t.row_start_sb@,
            k / p.cols(),
            k % p.cols(),
            sb_shift,
            p.info.bw as int,
            p.info.bh as int,
        )
}

/// The piece of work decodes the unit.
pub open spec fn work_has(p: FrameParams, w: Work, x: int, y: int) -> bool {
    match w {
        Work::Decode(t, by) => {
            let (fi, row) = (p.info_of(t as int), p.row_of(t as int, by as int));
            &&& row.tile.col_start <= x < sb_column(fi, row, sb_count(fi, row))
            &&& by <= y < by + p.step()
        },
        Work::Filter(_) => false,
    }
}

/// The piece of work is one of the frame.
pub open spec fn work_fits(p: FrameParams, w: Work) -> bool {
    w matches Work::Decode(t, by) ==> t < p.tiles@.len() && p.tiles@[t as int].row_start <= by
        < p.tiles@[t as int].row_end
}

/// How many pieces of work decode the unit.
pub open spec fn work_count(p: FrameParams, ws: Seq<Work>, x: int, y: int) -> int
    decreases ws.len(),
{
    if ws.len() == 0 {
        0
    } else {
        work_count(p, ws.drop_last(), x, y) + b2i(work_has(p, ws.last(), x, y))
    }
}

proof fn lemma_work_count_sum(p: FrameParams, a: Seq<Work>, b: Seq<Work>, x: int, y: int)
    ensures
        work_count(p, a + b, x, y) == work_count(p, a, x, y) + work_count(p, b, x, y),
    decreases b.len(),
{
    if b.len() == 0 {
        assert(a + b =~= a);
    } else {
        assert((a + b).drop_last() =~= a + b.drop_last());
        lemma_work_count_sum(p, a, b.drop_last(), x, y);
    }
}

/// A row of superblocks of a tile is one that can be decoded.
proof fn lemma_row_valid(p: FrameParams, t: int, by: int)
    requires
        p.valid(),
        0 <= t < p.tiles@.len(),
        p.tiles@[t].row_start <= by < p.tiles@[t].row_end,
    ensures
        p.row_of(t, by).valid(p.info_of(t)),
        frame_ok(p.info_of(t)),
{
    let b = p.tiles@[t];
    assert(0 <= b.row_start <= b.row_end <= 0x3_fff0);
}

/// The first `n` pieces of work decode the units that they have.
proof fn lemma_work_run_count(
    p: FrameParams,
    input: RowInput,
    ws: Seq<Work>,
    n: int,
    s0: MainState,
    s1: MainState,
    x: int,
    y: int,
)
    requires
        p.valid(),
        p.root_bs.w4() == p.step(),
        p.root_bs.h4() == p.step(),
        0 <= n <= ws.len(),
        forall|i: int| 0 <= i < ws.len() ==> work_fits(p, #[trigger] ws[i]),
        work_run(p, input, ws, n, s0, s1),
        0 <= x < p.info.bw,
        0 <= y < p.info.bh,
    ensures
        luma_count(s1.row.sb.leaves, x, y) == luma_count(s0.row.sb.leaves, x, y) + work_count(
            p,
            ws.subrange(0, n),
            x,
            y,
        ),
    decreases n,
{
    if n > 0 {
        let m = choose|m: MainState| #[trigger]
            between_work(m) && work_run(p, input, ws, n - 1, s0, m) && work_step(
                p,
                input,
                ws[n - 1],
                m,
                s1,
            );
        lemma_work_run_count(p, input, ws, n - 1, s0, m, x, y);
        assert(ws.subrange(0, n).drop_last() =~= ws.subrange(0, n - 1));
        assert(ws.subrange(0, n).last() == ws[n - 1]);
        assert(work_fits(p, ws[n - 1]));
        match ws[n - 1] {
            Work::Decode(t, by) => {
                let (fi, row) = (p.info_of(t as int), p.row_of(t as int, by as int));
                let (u, e) = choose|u: RowState, e: RowState| #[trigger]
                    row_ends(u, e) && tile_entered(p, m, t as int, u) && row_done(
                        fi,
                        row,
                        *p.hdr,
                        input,
                        u,
                        e,
                    ) && tile_left(m, t as int, e, s1);
                let last = choose|last: RowState| #[trigger]
                    row_run(fi, row, *p.hdr, input, sb_count(fi, row), u, last) && !row_overran(
                        last,
                    ) && e == row_closed(last);
                lemma_row_valid(p, t as int, by as int);
                lemma_count_positive(p, t as int, by as int);
                lemma_superblocks_count(fi, row, *p.hdr, input, sb_count(fi, row), u, last, x, y);
            },
            Work::Filter(_) => {},
        }
    }
}

/// A row has no negative number of superblocks.
proof fn lemma_count_positive(p: FrameParams, t: int, by: int)
    requires
        p.valid(),
    ensures
        0 <= sb_count(p.info_of(t), p.row_of(t, by)),
{
    let row = p.row_of(t, by);
    let len = row.tile.col_end - row.tile.col_start;
    let step = p.step();
    if len > 0 {
        assert((len + step - 1) / step >= 0) by (nonlinear_arith)
            requires
                len > 0,
                step >= 16,
        ;
    }
}

/// All pieces of work are of the frame.
pub open spec fn works_fit(p: FrameParams, ws: Seq<Work>) -> bool {
    forall|i: int| 0 <= i < ws.len() ==> work_fits(p, #[trigger] ws[i])
}

proof fn lemma_fit_sum(p: FrameParams, a: Seq<Work>, b: Seq<Work>)
    requires
        works_fit(p, a),
        works_fit(p, b),
    ensures
        works_fit(p, a + b),
{
    assert forall|i: int| 0 <= i < (a + b).len() implies work_fits(p, #[trigger] (a + b)[i]) by {
        if i < a.len() {
            assert((a + b)[i] == a[i]);
        } else {
            assert((a + b)[i] == b[i - a.len()]);
        }
    }
}

/// The superblocks of a row reach a unit of the frame exactly where the tile
/// does.
proof fn lemma_row_edges(p: FrameParams, sb_shift: int, r: int, c: int, by: int, x: int)
    requires
        p.valid(),
        tiles_placed(p, sb_shift),
        0 <= r < p.rows(),
        0 <= c < p.cols(),
        0 <= x < p.info.bw,
    ensures
        ({
            let t = r * p.cols() + c;
            let (fi, row) = (p.info_of(t), p.row_of(t, by));
            &&& 0 <= t < p.tiles@.len()
            &&& (row.tile.col_start <= x < sb_column(fi, row, sb_count(fi, row))) == between_edges(
                p.hdr.tiling.t.col_start_sb@,
                c,
                sb_shift,
                p.info.bw as int,
                x,
            )
            &&& row.tile.row_start == p.hdr.tiling.t.row_start_sb[r] * p.step()
            &&& row.tile.row_end == min(
                p.hdr.tiling.t.row_start_sb[r + 1] * p.step(),
                p.info.bh as int,
            )
        }),
{
    let (cols, rows, step) = (p.cols(), p.rows(), p.step());
    let t = r * cols + c;
    lemma_tile_number(cols, rows, r, c);
    assert(p.tiles@[t] == p.tiles@[t]);
    let cs = p.hdr.tiling.t.col_start_sb@;
    let rs = p.hdr.tiling.t.row_start_sb@;
    let (fi, row) = (p.info_of(t), p.row_of(t, by));
    lemma_scaled(cs, cols, sb_shift, c);
    lemma_scaled(cs, cols, sb_shift, c + 1);
    lemma_scaled(rs, rows, sb_shift, r);
    lemma_scaled(rs, rows, sb_shift, r + 1);
    let (s, e) = (cs[c] * step, cs[c + 1] * step);
    let end = min(e, p.info.bw as int);
    assert(row.tile.col_start == s && row.tile.col_end == end);
    let count = sb_count(fi, row);
    if end <= s {
        assert(sb_column(fi, row, count) == s) by (nonlinear_arith)
            requires
                count == 0,
                sb_column(fi, row, count) == s + count * step,
        ;
    } else if e <= p.info.bw {
        let d = cs[c + 1] - cs[c];
        assert(e - s == d * step) by (nonlinear_arith)
            requires
                s == cs[c] * step,
                e == cs[c + 1] * step,
                d == cs[c + 1] - cs[c],
        ;
        vstd::arithmetic::div_mod::lemma_fundamental_div_mod_converse(
            d * step + (step - 1),
            step,
            d,
            step - 1,
        );
        assert(count == d);
        assert(sb_column(fi, row, count) == e);
    } else if s <= x {
        law_row_covers_the_tile(fi, row, x);
        let n = (x - s) / step;
        assert((n + 1) * step <= count * step) by (nonlinear_arith)
            requires
                n + 1 <= count,
                step > 0,
        ;
    }
}

/// Tile `c` of tile row `r`.
proof fn lemma_tile_number(cols: int, rows: int, r: int, c: int)
    requires
        0 <= r < rows,
        0 <= c < cols,
    ensures
        0 <= r * cols + c < cols * rows,
        (r * cols + c) / cols == r,
        (r * cols + c) % cols == c,
{
    vstd::arithmetic::div_mod::lemma_fundamental_div_mod_converse(r * cols + c, cols, r, c);
    assert(r * cols + c < cols * rows && 0 <= r * cols) by (nonlinear_arith)
        requires
            0 <= r < rows,
            0 <= c < cols,
    ;
}

/// Among the tiles of a tile row at `by`, only that which holds the column
/// decodes the unit.
proof fn lemma_at_count(
    p: FrameParams,
    sb_shift: int,
    r: int,
    by: int,
    k: int,
    at: int,
    x: int,
    y: int,
)
    requires
        p.valid(),
        tiles_placed(p, sb_shift),
        0 <= r < p.rows(),
        0 <= k <= p.cols(),
        0 <= at < p.cols(),
        0 <= x < p.info.bw,
        between_edges(p.hdr.tiling.t.col_start_sb@, at, sb_shift, p.info.bw as int, x),
        p.hdr.tiling.t.row_start_sb[r] * p.step() <= by < min(
            p.hdr.tiling.t.row_start_sb[r + 1] * p.step(),
            p.info.bh as int,
        ),
    ensures
        works_fit(p, decodes_at(p, r * p.cols(), by, k)),
        work_count(p, decodes_at(p, r * p.cols(), by, k), x, y) == b2i(
            k <= at && by <= y < by + p.step(),
        ),
    decreases p.cols() - k,
{
    let base = r * p.cols();
    if k < p.cols() {
        lemma_at_count(p, sb_shift, r, by, k + 1, at, x, y);
        lemma_row_edges(p, sb_shift, r, k, by, x);
        lemma_edges(
            p.hdr.tiling.t.col_start_sb@,
            p.cols(),
            sb_shift,
            p.info.bw as int,
            k,
            at,
            x,
        );
        assert(p.tiles@[base + k].row_end <= 0x3_fff0);
        assert(p.cols() * p.rows() <= 64 * 64) by (nonlinear_arith)
            requires
                0 <= p.cols() <= 64,
                0 <= p.rows() <= 64,
        ;
        lemma_scaled(p.hdr.tiling.t.row_start_sb@, p.rows(), sb_shift, r);
        let rest = decodes_at(p, base, by, k + 1);
        let w = Work::Decode((base + k) as usize, by as i32);
        let one = seq![w];
        assert(work_has(p, w, x, y) == (k == at && by <= y < by + p.step()));
        assert(one.drop_last() =~= Seq::<Work>::empty());
        assert(work_count(p, one.drop_last(), x, y) == 0);
        assert(work_count(p, one, x, y) == b2i(k == at && by <= y < by + p.step()));
        lemma_work_count_sum(p, one, rest, x, y);
        lemma_fit_sum(p, one, rest);
    }
}

/// The first of the steps from `by` on that is not before `end`.
pub open spec fn step_past(by: int, end: int, step: int) -> int
    decreases max(end - by, 0),
{
    if by >= end || step <= 0 {
        by
    } else {
        step_past(by + step, end, step)
    }
}

proof fn lemma_step_past(by: int, end: int, step: int)
    requires
        step > 0,
        by <= end,
    ensures
        step_past(by, end, step) >= end,
        (end - by) % step == 0 ==> step_past(by, end, step) == end,
    decreases end - by,
{
    if by < end {
        let d = end - by;
        if d % step == 0 {
            assert(d >= step && (d - step) % step == 0) by {
                if d < step {
                    vstd::arithmetic::div_mod::lemma_small_mod(d as nat, step as nat);
                }
                vstd::arithmetic::div_mod::lemma_mod_sub_multiples_vanish(d, step);
            }
        }
        if by + step <= end {
            lemma_step_past(by + step, end, step);
        } else {
            assert(step_past(by + step, end, step) == by + step);
        }
    }
}

/// The rows of superblocks of a tile row from `by` on decode the unit where one
/// of them holds it.
proof fn lemma_from_count(
    p: FrameParams,
    sb_shift: int,
    r: int,
    by: int,
    at: int,
    x: int,
    y: int,
)
    requires
        p.valid(),
        tiles_placed(p, sb_shift),
        0 <= r < p.rows(),
        0 <= at < p.cols(),
        0 <= x < p.info.bw,
        between_edges(p.hdr.tiling.t.col_start_sb@, at, sb_shift, p.info.bw as int, x),
        p.hdr.tiling.t.row_start_sb[r] * p.step() <= by,
    ensures
        ({
            let end = min(
                p.hdr.tiling.t.row_start_sb[r + 1] * p.step(),
                p.info.bh as int,
            );
            let ws = decodes_from(p, r * p.cols(), by, end);
            &&& works_fit(p, ws)
            &&& work_count(p, ws, x, y) == b2i(by <= y < step_past(by, end, p.step()))
        }),
    decreases
            max(
                min(p.hdr.tiling.t.row_start_sb[r + 1] * p.step(), p.info.bh as int) - by,
                0,
            ),
{
    let end = min(p.hdr.tiling.t.row_start_sb[r + 1] * p.step(), p.info.bh as int);
    let step = p.step();
    if by < end {
        let base = r * p.cols();
        lemma_at_count(p, sb_shift, r, by, 0, at, x, y);
        lemma_from_count(p, sb_shift, r, by + step, at, x, y);
        let (here, rest) = (decodes_at(p, base, by, 0), decodes_from(p, base, by + step, end));
        lemma_work_count_sum(p, here, rest, x, y);
        lemma_fit_sum(p, here, rest);
        lemma_past_grows(by + step, end, step);
    }
}

proof fn lemma_past_grows(by: int, end: int, step: int)
    requires
        step > 0,
    ensures
        step_past(by, end, step) >= by,
    decreases max(end - by, 0),
{
    if by < end {
        lemma_past_grows(by + step, end, step);
    }
}

proof fn lemma_filters_count(p: FrameParams, by: int, end: int, x: int, y: int)
    ensures
        works_fit(p, filters_from(p, by, end)),
        work_count(p, filters_from(p, by, end), x, y) == 0,
    decreases max(end - by, 0),
{
    if by < end && p.step() > 0 {
        lemma_filters_count(p, by + p.step(), end, x, y);
        let one = seq![Work::Filter((by / p.step()) as i32)];
        let rest = filters_from(p, by + p.step(), end);
        assert(one.drop_last() =~= Seq::<Work>::empty());
        assert(work_count(p, one.drop_last(), x, y) == 0);
        assert(work_count(p, one, x, y) == 0);
        lemma_work_count_sum(p, one, rest, x, y);
        lemma_fit_sum(p, one, rest);
    }
}

/// A tile row decodes the unit where it holds its line.
proof fn lemma_tile_row_count(
    p: FrameParams,
    sb_shift: int,
    r: int,
    at: int,
    x: int,
    y: int,
)
    requires
        p.valid(),
        tiles_placed(p, sb_shift),
        0 <= r < p.rows(),
        0 <= at < p.cols(),
        0 <= x < p.info.bw,
        0 <= y < p.info.bh,
        between_edges(p.hdr.tiling.t.col_start_sb@, at, sb_shift, p.info.bw as int, x),
    ensures
        works_fit(p, tile_row_work(p, r)),
        work_count(p, tile_row_work(p, r), x, y) == b2i(
            between_edges(p.hdr.tiling.t.row_start_sb@, r, sb_shift, p.info.bh as int, y),
        ),
{
    let step = p.step();
    let rs = p.hdr.tiling.t.row_start_sb@;
    let (s, e) = (rs[r] * step, rs[r + 1] * step);
    let end = min(e, p.info.bh as int);
    lemma_row_edges(p, sb_shift, r, 0, 0, x);
    lemma_from_count(p, sb_shift, r, s, at, x, y);
    lemma_filters_count(p, s, end, x, y);
    lemma_work_count_sum(
        p,
        decodes_from(p, r * p.cols(), s, end),
        filters_from(p, s, end),
        x,
        y,
    );
    lemma_fit_sum(p, decodes_from(p, r * p.cols(), s, end), filters_from(p, s, end));
    if s <= end {
        lemma_step_past(s, end, step);
        if e <= p.info.bh {
            let d = rs[r + 1] - rs[r];
            assert(e - s == d * step) by (nonlinear_arith)
                requires
                    s == rs[r] * step,
                    e == rs[r + 1] * step,
                    d == rs[r + 1] - rs[r],
            ;
            vstd::arithmetic::div_mod::lemma_mod_multiples_basic(d, step);
        }
    }
}

/// The tile rows from the `r`-th on decode the unit where one of them holds its
/// line.
proof fn lemma_frame_count(
    p: FrameParams,
    sb_shift: int,
    r: int,
    line: int,
    at: int,
    x: int,
    y: int,
)
    requires
        p.valid(),
        tiles_placed(p, sb_shift),
        0 <= r <= p.rows(),
        0 <= line < p.rows(),
        0 <= at < p.cols(),
        0 <= x < p.info.bw,
        0 <= y < p.info.bh,
        between_edges(p.hdr.tiling.t.col_start_sb@, at, sb_shift, p.info.bw as int, x),
        between_edges(p.hdr.tiling.t.row_start_sb@, line, sb_shift, p.info.bh as int, y),
    ensures
        works_fit(p, work_from(p, r)),
        work_count(p, work_from(p, r), x, y) == b2i(r <= line),
    decreases p.rows() - r,
{
    if r < p.rows() {
        lemma_frame_count(p, sb_shift, r + 1, line, at, x, y);
        lemma_tile_row_count(p, sb_shift, r, at, x, y);
        lemma_edges(
            p.hdr.tiling.t.row_start_sb@,
            p.rows(),
            sb_shift,
            p.info.bh as int,
            r,
            line,
            y,
        );
        lemma_work_count_sum(p, tile_row_work(p, r), work_from(p, r + 1), x, y);
        lemma_fit_sum(p, tile_row_work(p, r), work_from(p, r + 1));
    }
}

/// Decoding a frame decodes every unit of its luma exactly once, where its
/// tiles lie where the tile grid puts them.
pub proof fn law_frame_decodes_every_unit_once(
    p: FrameParams,
    sb_shift: int,
    input: RowInput,
    s0: MainState,
    s1: MainState,
    x: int,
    y: int,
)
    requires
        p.valid(),
        tiles_placed(p, sb_shift),
        work_run(p, input, work_from(p, 0), work_from(p, 0).len() as int, s0, s1),
        0 <= x < p.info.bw,
        0 <= y < p.info.bh,
    ensures
        luma_count(s1.row.sb.leaves, x, y) == luma_count(s0.row.sb.leaves, x, y) + 1,
{
    let ws = work_from(p, 0);
    let t = p.hdr.tiling.t;
    let at = lemma_some_tile(t.col_start_sb@, p.cols(), sb_shift, p.info.bw as int, x);
    let line = lemma_some_tile(t.row_start_sb@, p.rows(), sb_shift, p.info.bh as int, y);
    lemma_frame_count(p, sb_shift, 0, line, at, x, y);
    lemma_work_run_count(p, input, ws, ws.len() as int, s0, s1, x, y);
    assert(ws.subrange(0, ws.len() as int) =~= ws);
}

} // verus!
