//! Palette indices.
use vstd::prelude::*;

use crate::intops::{b2i, imax};
use crate::msac::{Cdf, MsacContext, Request, Sym};

verus! {

/// The index that symbol `v` stands for after index `c`: symbol zero repeats
/// `c`, the others count through the remaining indices in order.
pub open spec fn after_one(v: int, c: int) -> int {
    if v == 0 {
        c
    } else {
        v - b2i(v <= c)
    }
}

/// The index that symbol `v` stands for where `c` and `d` come first.
pub open spec fn after_two(v: int, c: int, d: int) -> int {
    if v == 0 {
        c
    } else if v == 1 {
        d
    } else {
        let s = b2i(c < d);
        v - b2i(v <= c + s) - b2i(v <= d + 1 - s)
    }
}

/// The index that symbol `v` stands for where `c`, `d` and `e` come first.
pub open spec fn after_three(v: int, c: int, d: int, e: int) -> int {
    if v == 0 {
        c
    } else if v == 1 {
        d
    } else if v == 2 {
        e
    } else {
        let s1 = b2i(c < d);
        let s2 = b2i(c < e);
        let s3 = b2i(d < e);
        v - b2i(v <= c + s1 + s2) - b2i(v <= d + s3 + 1 - s1) - b2i(v <= e + 1 - s2 + 1 - s3)
    }
}

/// How the neighbours agree: the one before in the line (`l`), the one above
/// it (`t`), and the one above the one before (`tl`).
pub open spec fn pal_ctx(l: int, t: int, tl: int) -> int {
    if t == l {
        3 + b2i(tl == l)
    } else {
        1 + b2i(t == tl || l == tl)
    }
}

/// The index that symbol `v` stands for, given its neighbours. The more often
/// an index occurs among the neighbours, the smaller its symbol.
pub open spec fn pal_index(v: int, l: int, t: int, tl: int, dir: bool) -> int {
    let ctx = pal_ctx(l, t, tl);
    if ctx == 1 {
        if dir {
            after_three(v, t, l, tl)
        } else {
            after_three(v, l, t, tl)
        }
    } else if ctx == 2 {
        after_two(v, tl, l + t - tl)
    } else if ctx == 3 {
        after_two(v, l, tl)
    } else {
        after_one(v, l)
    }
}

/// With given neighbours every symbol stands for an index of the palette, and
/// different symbols stand for different indices.
pub proof fn law_palette_symbols_are_distinct(
    v: int,
    w: int,
    l: int,
    t: int,
    tl: int,
    dir: bool,
    n: int,
)
    requires
        0 <= v < n,
        0 <= w < n,
        0 <= l < n,
        0 <= t < n,
        0 <= tl < n,
    ensures
        0 <= pal_index(v, l, t, tl, dir) < n,
        pal_index(v, l, t, tl, dir) == pal_index(w, l, t, tl, dir) ==> v == w,
{
}

/// A first line from its beginning `line` on.
pub open spec fn first_line(s: Sym, n: int, line: Seq<u8>, len: int) -> (Seq<u8>, Sym)
    decreases len - line.len(),
{
    if line.len() >= len {
        (line, s)
    } else {
        let (v, s) = s.symbol(Cdf::PalIdx((n - 2) as usize, 0), n - 1);
        first_line(s, n, line.push(after_one(v, line.last() as int) as u8), len)
    }
}

/// A line below `above`, from its beginning `line` on.
pub open spec fn next_line(
    s: Sym,
    n: int,
    dir: bool,
    above: Seq<u8>,
    line: Seq<u8>,
    len: int,
) -> (Seq<u8>, Sym)
    decreases len - line.len(),
{
    if line.len() >= len {
        (line, s)
    } else {
        let m = line.len() as int;
        let l = line.last() as int;
        let t = above[m] as int;
        let tl = above[m - 1] as int;
        let (v, s) = s.symbol(
            Cdf::PalIdx((n - 2) as usize, pal_ctx(l, t, tl) as usize),
            n - 1,
        );
        next_line(s, n, dir, above, line.push(pal_index(v, l, t, tl, dir) as u8), len)
    }
}

/// `len` times the same index.
pub open spec fn flat_line(v: u8, len: int) -> Seq<u8> {
    Seq::new(len as nat, |i: int| v)
}

/// One more line: how it was coded, the line, and the state after it. It
/// repeats the line above (`2`), repeats its first index (`1`), or is coded
/// index by index (`0`).
pub open spec fn more_line(
    s: Sym,
    n: int,
    dir: bool,
    copy: int,
    above: Seq<u8>,
    len: int,
) -> (int, Seq<u8>, Sym) {
    let (c, s) = s.symbol(Cdf::PalIdxIdentity(copy as usize), 2);
    if c == 2 {
        (c, above, s)
    } else {
        let (v, s) = s.symbol(Cdf::PalIdx((n - 2) as usize, 0), n - 1);
        let first = after_one(v, above[0] as int) as u8;
        if c == 1 {
            (c, flat_line(first, len), s)
        } else {
            let (line, s) = next_line(s, n, dir, above, seq![first], len);
            (c, line, s)
        }
    }
}

/// All lines from the given ones on.
pub open spec fn more_lines(
    s: Sym,
    n: int,
    dir: bool,
    copy: int,
    lines: Seq<Seq<u8>>,
    count: int,
    len: int,
) -> (Seq<Seq<u8>>, Sym)
    decreases count - lines.len(),
{
    if lines.len() >= count {
        (lines, s)
    } else {
        let (c, line, s) = more_line(s, n, dir, copy, lines.last(), len);
        more_lines(s, n, dir, c, lines.push(line), count, len)
    }
}

/// The indices of a block, if it is coded with them: whether lines are
/// columns, and the lines.
pub open spec fn pal_read(s: Sym, n: int, sz: [i32; 4]) -> (Option<(bool, Seq<Seq<u8>>)>, Sym) {
    let (d, s) = s.bit();
    let dir = sz[2] < 64 && sz[3] < 64 && d == 1;
    let count = if dir { sz[0] as int } else { sz[1] as int };
    let len = if dir { sz[1] as int } else { sz[0] as int };
    let (c, s) = s.symbol(Cdf::PalIdxIdentity(3), 2);
    if c == 2 {
        (None, s)
    } else {
        let (v, s) = s.uniform(n);
        let (line, s) = if c == 1 {
            (flat_line(v as u8, len), s)
        } else {
            first_line(s, n, seq![v as u8], len)
        };
        let (lines, s) = more_lines(s, n, dir, c, seq![line], count, len);
        (Some((dir, lines)), s)
    }
}

/// Every index of a line is below `n`, and the line has length `len`.
pub open spec fn line_valid(line: Seq<u8>, n: int, len: int) -> bool {
    &&& line.len() == len
    &&& forall|i: int| 0 <= i < line.len() ==> #[trigger] line[i] < n
}

/// The indices of a block: by line, where lines are the rows of the block, or
/// its columns.
pub struct PalGrid {
    pub dir: bool,
    pub lines: Vec<Vec<u8>>,
}

impl PalGrid {
    pub open spec fn grid(self) -> Seq<Seq<u8>> {
        self.lines@.map_values(|v: Vec<u8>| v@)
    }

    /// The index at a position of the block.
    pub open spec fn index(self, x: int, y: int) -> u8 {
        if self.dir { self.lines@[x]@[y] } else { self.lines@[y]@[x] }
    }

    /// The grid covers `w` by `h` positions, with indices below `n`.
    pub open spec fn wf(self, n: int, w: int, h: int) -> bool {
        let (count, len) = if self.dir { (w, h) } else { (h, w) };
        &&& self.lines@.len() == count
        &&& forall|i: int| 0 <= i < count ==> line_valid((#[trigger] self.lines@[i])@, n, len)
    }

    /// The index at a position of the block.
    pub fn at(&self, x: usize, y: usize) -> (r: u8)
        requires
            exists|n: int, w: int, h: int| #[trigger] self.wf(n, w, h) && x < w && y < h,
        ensures
            r == self.index(x as int, y as int),
    {
        proof {
            let (n, w, h) = choose|n: int, w: int, h: int|
                #[trigger] self.wf(n, w, h) && x < w && y < h;
            assert(self.wf(n, w, h));
            let k = if self.dir { x as int } else { y as int };
            assert(line_valid(self.lines@[k]@, n, if self.dir { h } else { w }));
        }
        if self.dir {
            self.lines[x][y]
        } else {
            self.lines[y][x]
        }
    }
}

fn copy_line(line: &Vec<u8>) -> (r: Vec<u8>)
    ensures
        r@ == line@,
{
    let mut r: Vec<u8> = Vec::new();
    let mut i: usize = 0;
    while i < line.len()
        invariant
            i <= line@.len(),
            r@ == line@.subrange(0, i as int),
        decreases line@.len() - i,
    {
        r.push(line[i]);
        i = i + 1;
    }
    assert(line@.subrange(0, line@.len() as int) == line@);
    r
}

fn repeat_index(v: u8, len: usize) -> (r: Vec<u8>)
    ensures
        r@ == flat_line(v, len as int),
{
    let mut r: Vec<u8> = Vec::new();
    while r.len() < len
        invariant
            r@.len() <= len,
            forall|i: int| 0 <= i < r@.len() ==> r@[i] == v,
        decreases len - r@.len(),
    {
        r.push(v);
    }
    r
}

fn read_first_line(msac: &mut MsacContext, n: u32, first: u8, len: usize) -> (r: Vec<u8>)
    requires
        2 <= n <= 8,
        first < n,
        len >= 1,
    ensures
        (r@, final(msac)@) == first_line(old(msac)@, n as int, seq![first], len as int),
        line_valid(r@, n as int, len as int),
{
    let mut r: Vec<u8> = Vec::new();
    r.push(first);
    assert(r@ == seq![first]);
    let ghost s0 = msac@;
    while r.len() < len
        invariant
            2 <= n <= 8,
            1 <= r@.len() <= len,
            line_valid(r@, n as int, r@.len() as int),
            first_line(msac@, n as int, r@, len as int) == first_line(
                s0,
                n as int,
                seq![first],
                len as int,
            ),
        decreases len - r@.len(),
    {
        let prev: u32 = r[r.len() - 1] as u32;
        let v: u32 = msac.decode_symbol_adapt(Cdf::PalIdx(n as usize - 2, 0), n - 1);
        let p: u32 = if v == 0 {
            prev
        } else if v <= prev {
            v - 1
        } else {
            v
        };
        r.push(p as u8);
    }
    r
}

fn bit(b: bool) -> (r: i32)
    ensures
        r == b2i(b),
{
    if b { 1 } else { 0 }
}

fn pick_two(v: i32, c: i32, d: i32) -> (r: i32)
    requires
        0 <= v < 256,
        0 <= c < 256,
        0 <= d < 256,
    ensures
        r == after_two(v as int, c as int, d as int),
{
    if v == 0 {
        c
    } else if v == 1 {
        d
    } else {
        let s: i32 = bit(c < d);
        v - bit(v <= c + s) - bit(v <= d + 1 - s)
    }
}

fn pick_three(v: i32, c: i32, d: i32, e: i32) -> (r: i32)
    requires
        0 <= v < 256,
        0 <= c < 256,
        0 <= d < 256,
        0 <= e < 256,
    ensures
        r == after_three(v as int, c as int, d as int, e as int),
{
    if v == 0 {
        c
    } else if v == 1 {
        d
    } else if v == 2 {
        e
    } else {
        let s1: i32 = bit(c < d);
        let s2: i32 = bit(c < e);
        let s3: i32 = bit(d < e);
        v - bit(v <= c + s1 + s2) - bit(v <= d + s3 + 1 - s1) - bit(v <= e + 1 - s2 + 1 - s3)
    }
}

fn read_next_line(
    msac: &mut MsacContext,
    n: u32,
    dir: bool,
    above: &Vec<u8>,
    first: u8,
    len: usize,
) -> (r: Vec<u8>)
    requires
        2 <= n <= 8,
        first < n,
        len >= 1,
        line_valid(above@, n as int, len as int),
    ensures
        (r@, final(msac)@) == next_line(
            old(msac)@,
            n as int,
            dir,
            above@,
            seq![first],
            len as int,
        ),
        line_valid(r@, n as int, len as int),
{
    let mut r: Vec<u8> = Vec::new();
    r.push(first);
    assert(r@ == seq![first]);
    let ghost s0 = msac@;
    while r.len() < len
        invariant
            2 <= n <= 8,
            1 <= r@.len() <= len,
            line_valid(above@, n as int, len as int),
            line_valid(r@, n as int, r@.len() as int),
            next_line(msac@, n as int, dir, above@, r@, len as int) == next_line(
                s0,
                n as int,
                dir,
                above@,
                seq![first],
                len as int,
            ),
        decreases len - r@.len(),
    {
        let m: usize = r.len();
        let l: i32 = r[m - 1] as i32;
        let t: i32 = above[m] as i32;
        let tl: i32 = above[m - 1] as i32;
        let ctx: usize = if t == l {
            if tl == l { 4 } else { 3 }
        } else {
            if t == tl || l == tl { 2 } else { 1 }
        };
        let v: i32 = msac.decode_symbol_adapt(Cdf::PalIdx(n as usize - 2, ctx), n - 1) as i32;
        let p: i32 = if ctx == 1 {
            if dir {
                pick_three(v, t, l, tl)
            } else {
                pick_three(v, l, t, tl)
            }
        } else if ctx == 2 {
            pick_two(v, tl, l + t - tl)
        } else if ctx == 3 {
            pick_two(v, l, tl)
        } else {
            if v == 0 {
                l
            } else {
                v - bit(v <= l)
            }
        };
        proof {
            law_palette_symbols_are_distinct(
                v as int,
                v as int,
                l as int,
                t as int,
                tl as int,
                dir,
                n as int,
            );
        }
        r.push(p as u8);
    }
    r
}

/// Reads one more line; the result tells how it was coded.
fn read_more_line(
    msac: &mut MsacContext,
    n: u32,
    dir: bool,
    copy: usize,
    above: &Vec<u8>,
    len: usize,
) -> (r: (usize, Vec<u8>))
    requires
        2 <= n <= 8,
        len >= 1,
        line_valid(above@, n as int, len as int),
    ensures
        (r.0 as int, r.1@, final(msac)@) == more_line(
            old(msac)@,
            n as int,
            dir,
            copy as int,
            above@,
            len as int,
        ),
        line_valid(r.1@, n as int, len as int),
        r.0 <= 2,
{
    let c: usize = msac.decode_symbol_adapt(Cdf::PalIdxIdentity(copy), 2) as usize;
    if c == 2 {
        return (c, copy_line(above));
    }
    let prev: u32 = above[0] as u32;
    let v: u32 = msac.decode_symbol_adapt(Cdf::PalIdx(n as usize - 2, 0), n - 1);
    let first: u32 = if v == 0 {
        prev
    } else if v <= prev {
        v - 1
    } else {
        v
    };
    let line: Vec<u8> = if c == 1 {
        repeat_index(first as u8, len)
    } else {
        read_next_line(msac, n, dir, above, first as u8, len)
    };
    (c, line)
}

/// Reads the palette indices of a block. `sz` holds the width and height of
/// its part within the frame, then its full width and height. There is no
/// result for a block that is not coded with indices of its own.
pub fn read_pal_indices(msac: &mut MsacContext, pal_sz: i32, sz: &[i32; 4]) -> (r: Option<PalGrid>)
    requires
        2 <= pal_sz <= 8,
        1 <= sz[0],
        1 <= sz[1],
    ensures
        final(msac)@ == pal_read(old(msac)@, pal_sz as int, *sz).1,
        r is None <==> pal_read(old(msac)@, pal_sz as int, *sz).0 is None,
        r matches Some(g) ==> pal_read(old(msac)@, pal_sz as int, *sz).0 == Some((g.dir, g.grid())),
        r matches Some(g) ==> g.wf(pal_sz as int, sz[0] as int, sz[1] as int),
{
    let n: u32 = pal_sz as u32;
    let d: u32 = msac.decode_bool_bypass();
    let dir: bool = imax(sz[2], sz[3]) < 64 && d == 1;
    let count: usize = if dir { sz[0] as usize } else { sz[1] as usize };
    let len: usize = if dir { sz[1] as usize } else { sz[0] as usize };
    let mut copy: usize = msac.decode_symbol_adapt(Cdf::PalIdxIdentity(3), 2) as usize;
    if copy == 2 {
        return None;
    }
    let v: u32 = msac.decode_uniform(n);
    let line: Vec<u8> = if copy == 1 {
        repeat_index(v as u8, len)
    } else {
        read_first_line(msac, n, v as u8, len)
    };
    let mut g: PalGrid = PalGrid { dir, lines: Vec::new() };
    g.lines.push(line);
    let ghost s0 = msac@;
    let ghost c0 = copy as int;
    let ghost lines0 = seq![line@];
    assert(g.grid() == lines0);
    while g.lines.len() < count
        invariant
            2 <= n <= 8,
            len >= 1,
            g.dir == dir,
            1 <= g.lines@.len() <= count,
            copy <= 2,
            forall|i: int|
                0 <= i < g.lines@.len() ==> line_valid((#[trigger] g.lines@[i])@, n as int, len as int),
            more_lines(msac@, n as int, dir, copy as int, g.grid(), count as int, len as int)
                == more_lines(s0, n as int, dir, c0, lines0, count as int, len as int),
        decreases count - g.lines@.len(),
    {
        let ghost before = g.grid();
        let above: &Vec<u8> = &g.lines[g.lines.len() - 1];
        assert(before.last() == above@);
        let (c, line) = read_more_line(msac, n, dir, copy, above, len);
        copy = c;
        g.lines.push(line);
        assert(g.grid() == before.push(line@));
    }
    Some(g)
}

/// Symbol zero stands for an index that occurs most often among the
/// neighbours: where two of them are equal it stands for their index. Where
/// only two are equal, symbol one stands for that of the third. Where all
/// differ, the first two symbols stand for the two that touch the position,
/// that in the same row first, and symbol two for the diagonal one.
pub proof fn law_small_symbols_are_the_neighbours(l: int, t: int, tl: int, dir: bool)
    ensures
        l == t ==> pal_index(0, l, t, tl, dir) == l,
        l == tl ==> pal_index(0, l, t, tl, dir) == l,
        t == tl ==> pal_index(0, l, t, tl, dir) == t,
        l == t && tl != l ==> pal_index(1, l, t, tl, dir) == tl,
        l == tl && t != l ==> pal_index(1, l, t, tl, dir) == t,
        t == tl && l != t ==> pal_index(1, l, t, tl, dir) == l,
        l != t && l != tl && t != tl ==> {
            &&& pal_index(0, l, t, tl, dir) == (if dir { t } else { l })
            &&& pal_index(1, l, t, tl, dir) == (if dir { l } else { t })
            &&& pal_index(2, l, t, tl, dir) == tl
        },
{
}

/// The symbols after those of the neighbours stand for the other indices of
/// the palette in increasing order.
pub proof fn law_other_symbols_count_up(
    v: int,
    w: int,
    l: int,
    t: int,
    tl: int,
    dir: bool,
    n: int,
)
    requires
        0 <= l < n,
        0 <= t < n,
        0 <= tl < n,
        v < w < n,
        1 + b2i(l != t) + b2i(tl != l && tl != t) <= v,
    ensures
        pal_index(v, l, t, tl, dir) < pal_index(w, l, t, tl, dir),
        pal_index(v, l, t, tl, dir) != l,
        pal_index(v, l, t, tl, dir) != t,
        pal_index(v, l, t, tl, dir) != tl,
{
}

/// The same beside a single neighbour, in the first line and the first column:
/// symbol zero repeats it and the others count through the rest.
pub proof fn law_symbols_beside_one_neighbour(v: int, w: int, c: int, n: int)
    requires
        0 <= c < n,
        1 <= v < w < n,
    ensures
        after_one(0, c) == c,
        after_one(v, c) != c,
        0 <= after_one(v, c) < after_one(w, c) < n,
{
}

/// The context tells how the neighbours agree: all three, the two that touch
/// the position, one of them and the diagonal one, or none.
pub proof fn law_palette_context(l: int, t: int, tl: int)
    ensures
        pal_ctx(l, t, tl) == 4 <==> l == t && t == tl,
        pal_ctx(l, t, tl) == 3 <==> l == t && t != tl,
        pal_ctx(l, t, tl) == 1 <==> l != t && l != tl && t != tl,
        1 <= pal_ctx(l, t, tl) <= 4,
{
}

/// What holds of a position of a line that is coded index by index: it was
/// asked for under the context of its neighbours, and where two of these agree
/// a zero repeats them.
pub open spec fn entry_follows(
    t: Sym,
    k: int,
    n: int,
    dir: bool,
    above: Seq<u8>,
    line: Seq<u8>,
    m: int,
) -> bool {
    let (a, b, c) = (line[m - 1], above[m], above[m - 1]);
    let v = t.got(k + m);
    &&& exists|x: usize|
        t.asked[k + m] == #[trigger] palette_request(n, x) && (x == 4 <==> a == b && b == c) && (x == 3
            <==> a == b && b != c) && (x == 1 <==> a != b && a != c && b != c) && 1 <= x <= 4
    &&& v == 0 && (a == b || a == c) ==> line[m] == a
    &&& v == 0 && b == c ==> line[m] == b
    &&& v == 1 && a == b && c != a ==> line[m] == c
    &&& v == 1 && a == c && b != a ==> line[m] == b
    &&& v == 1 && b == c && a != b ==> line[m] == a
    &&& a != b && a != c && b != c ==> (v == 0 ==> line[m] == (if dir { b } else { a })) && (v == 1
        ==> line[m] == (if dir { a } else { b })) && (v == 2 ==> line[m] == c)
    &&& v >= 1 + b2i(a != b) + b2i(c != a && c != b) ==> line[m] != a && line[m] != b && line[m]
        != c
}

/// The request for a palette index under context `x`.
pub open spec fn palette_request(n: int, x: usize) -> Request {
    Request::Symbol(Cdf::PalIdx((n - 2) as usize, x), (n - 1) as u32)
}

/// Every index of a coded line below another follows from its three neighbours
/// and one symbol; the symbols come in the order of the line.
pub proof fn law_coded_line_follows_its_neighbours(
    s: Sym,
    n: int,
    dir: bool,
    above: Seq<u8>,
    line: Seq<u8>,
    len: int,
)
    requires
        2 <= n <= 8,
        1 <= line.len() <= len,
        line_valid(above, n, len),
        line_valid(line, n, line.len() as int),
    ensures
        ({
            let (r, t) = next_line(s, n, dir, above, line, len);
            let k = s.asked.len() - line.len();
            &&& line_valid(r, n, len)
            &&& t.replies == s.replies
            &&& t.asked.len() == k + len
            &&& forall|j: int| 0 <= j < s.asked.len() ==> #[trigger] t.asked[j] == s.asked[j]
            &&& forall|j: int| 0 <= j < line.len() ==> #[trigger] r[j] == line[j]
            &&& forall|m: int|
                line.len() <= m < len ==> #[trigger] entry_follows(t, k, n, dir, above, r, m)
        }),
    decreases len - line.len(),
{
    if line.len() < len {
        let m = line.len() as int;
        let a = line.last() as int;
        let b = above[m] as int;
        let c = above[m - 1] as int;
        let x = pal_ctx(a, b, c) as usize;
        let (v, s1) = s.symbol(Cdf::PalIdx((n - 2) as usize, x), n - 1);
        law_palette_symbols_are_distinct(v, v, a, b, c, dir, n);
        law_small_symbols_are_the_neighbours(a, b, c, dir);
        let more = line.push(pal_index(v, a, b, c, dir) as u8);
        law_coded_line_follows_its_neighbours(s1, n, dir, above, more, len);
        let (r, t) = next_line(s1, n, dir, above, more, len);
        let k = s.asked.len() - line.len();
        assert(k == s1.asked.len() - more.len());
        assert(t.asked[k + m] == s1.asked[k + m]);
        assert(t.asked[k + m] == palette_request(n, x));
        assert(r[m] == more[m]);
        assert(r[m - 1] == more[m - 1]);
        assert forall|j: int| 0 <= j < s.asked.len() implies #[trigger] t.asked[j] == s.asked[j] by {
            assert(s1.asked[j] == s.asked[j]);
        }
        assert forall|j: int| 0 <= j < line.len() implies #[trigger] r[j] == line[j] by {
            assert(more[j] == line[j]);
        }
        assert(entry_follows(t, k, n, dir, above, r, m));
    }
}

proof fn lemma_lines_are_counted(
    s: Sym,
    n: int,
    dir: bool,
    copy: int,
    lines: Seq<Seq<u8>>,
    count: int,
    len: int,
)
    requires
        lines.len() <= count,
    ensures
        more_lines(s, n, dir, copy, lines, count, len).0.len() == count,
    decreases count - lines.len(),
{
    if lines.len() < count {
        let (c, line, s1) = more_line(s, n, dir, copy, lines.last(), len);
        lemma_lines_are_counted(s1, n, dir, c, lines.push(line), count, len);
    }
}

/// A first bit tells, for blocks of less than 64 pixels each way, that indices
/// are coded by columns; there are as many lines as the block has columns, or
/// rows.
pub proof fn law_lines_go_along_the_flagged_direction(s: Sym, n: int, sz: [i32; 4])
    requires
        1 <= sz[0],
        1 <= sz[1],
    ensures
        ({
            let (r, t) = pal_read(s, n, sz);
            let k = s.asked.len() as int;
            &&& s.ask(Request::Bit).1.got(k) == s.ask(Request::Bit).0
            &&& r matches Some(p) ==> {
                &&& p.0 <==> sz[2] < 64 && sz[3] < 64 && s.ask(Request::Bit).0 == 1
                &&& p.0 ==> p.1.len() == sz[0]
                &&& !p.0 ==> p.1.len() == sz[1]
            }
        }),
{
    let (d, s1) = s.bit();
    let dir = sz[2] < 64 && sz[3] < 64 && d == 1;
    let count = if dir { sz[0] as int } else { sz[1] as int };
    let len = if dir { sz[1] as int } else { sz[0] as int };
    let (c, s2) = s1.symbol(Cdf::PalIdxIdentity(3), 2);
    if c != 2 {
        let (v, s3) = s2.uniform(n);
        let (line, s4) = if c == 1 {
            (flat_line(v as u8, len), s3)
        } else {
            first_line(s3, n, seq![v as u8], len)
        };
        lemma_lines_are_counted(s4, n, dir, c, seq![line], count, len);
    }
}

/// How a further line is coded: a first symbol of two repeats the line above,
/// one repeats a single index over the line, which is that above its start
/// where it is coded as zero.
pub proof fn law_lines_repeat_as_coded(
    s: Sym,
    n: int,
    dir: bool,
    copy: int,
    above: Seq<u8>,
    len: int,
)
    requires
        1 <= len,
        0 < above.len(),
        2 <= n <= 8,
        0 <= copy <= 3,
    ensures
        ({
            let (c, line, t) = more_line(s, n, dir, copy, above, len);
            let k = s.asked.len() as int;
            &&& c == s.ask(Request::Symbol(Cdf::PalIdxIdentity(copy as usize), 2)).0
            &&& c == 2 ==> line == above && t.asked.len() == k + 1 && t.got(k) == 2
            &&& c == 1 ==> {
                &&& t.asked.len() == k + 2
                &&& t.asked[k + 1] == Request::Symbol(Cdf::PalIdx((n - 2) as usize, 0), (n - 1) as u32)
                &&& line.len() == len
                &&& forall|i: int| 0 <= i < len ==> #[trigger] line[i] == line[0]
                &&& t.got(k + 1) == 0 ==> line[0] == above[0]
                &&& 0 < t.got(k + 1) <= above[0] ==> line[0] == t.got(k + 1) - 1
                &&& t.got(k + 1) > above[0] ==> line[0] == t.got(k + 1)
            }
        }),
{
}

} // verus!
