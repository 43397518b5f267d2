//! Where warped prediction reads.
use vstd::prelude::*;

use crate::intops::{clip, floor_div, iclip, imin, max, min};
use crate::mcgeom::{samples, PadRegion};

verus! {

/// A block of one plane to predict by a warp: its position and size in luma
/// units, how the plane is subsampled, the size of the frame in luma units,
/// and the model.
#[derive(Debug, Clone, Copy)]
pub struct WarpParams {
    pub bx: i32,
    pub by: i32,
    pub bw4: i32,
    pub bh4: i32,
    pub ss_hor: i32,
    pub ss_ver: i32,
    pub fw: i32,
    pub fh: i32,
    pub matrix: [i32; 6],
    pub abcd: [i16; 4],
}

impl WarpParams {
    pub open spec fn valid(self) -> bool {
        &&& 0 <= self.bx <= 0x10000
        &&& 0 <= self.by <= 0x10000
        &&& 1 <= self.bw4 <= 64
        &&& 1 <= self.bh4 <= 64
        &&& 0 <= self.ss_hor <= 1
        &&& 0 <= self.ss_ver <= 1
        &&& 1 <= self.fw <= 0x10000
        &&& 1 <= self.fh <= 0x10000
        &&& forall|i: int|
            2 <= i < 6 ==> -0x100_0000 <= #[trigger] self.matrix[i] <= 0x100_0000
    }

    /// The size of the block in samples of the plane.
    pub open spec fn w(self) -> int {
        self.bw4 * samples(self.ss_hor as int)
    }

    pub open spec fn h(self) -> int {
        self.bh4 * samples(self.ss_ver as int)
    }

    /// The size of the plane in samples.
    pub open spec fn plane_w(self) -> int {
        self.fw * samples(self.ss_hor as int)
    }

    pub open spec fn plane_h(self) -> int {
        self.fh * samples(self.ss_ver as int)
    }
}

/// Luma samples per sample of a plane.
pub open spec fn spread(ss: int) -> int {
    if ss == 1 { 2 } else { 1 }
}

/// Where the model takes the sample at `(x, y)` of a block, in steps of
/// 1/65536.
pub open spec fn warped_x(p: WarpParams, x: int, y: int) -> int {
    let sx = p.bx * 4 + x * spread(p.ss_hor as int);
    let sy = p.by * 4 + y * spread(p.ss_ver as int);
    (p.matrix[2] * sx + (p.matrix[3] * sy + p.matrix[0])) / spread(p.ss_hor as int)
}

pub open spec fn warped_y(p: WarpParams, x: int, y: int) -> int {
    let sx = p.bx * 4 + x * spread(p.ss_hor as int);
    let sy = p.by * 4 + y * spread(p.ss_ver as int);
    (p.matrix[4] * sx + (p.matrix[5] * sy + p.matrix[1])) / spread(p.ss_ver as int)
}

/// A part of a block that is predicted at once: its position in the block, the
/// sample of the reference that it starts at, the fractions, and the region
/// to copy first where the filter would read outside of what it may read. The
/// region is given relative to `origin`.
#[derive(Debug, Clone, Copy, PartialEq, Eq, Structural)]
pub struct WarpTile {
    pub x: i32,
    pub y: i32,
    pub dx: i32,
    pub dy: i32,
    pub mx: i32,
    pub my: i32,
    pub origin_x: i32,
    pub origin_y: i32,
    pub padded: Option<PadRegion>,
}

/// `v` without its low six bits.
pub open spec fn whole_steps(v: int) -> int {
    v / 64 * 64
}

/// The part of eight by eight samples at `(x, y)` under an affine model.
pub open spec fn affine_tile(p: WarpParams, x: int, y: int) -> WarpTile {
    let wx = warped_x(p, x + 4, y + 4);
    let wy = warped_y(p, x + 4, y + 4);
    let dx = wx / 65536 - 4;
    let dy = wy / 65536 - 4;
    WarpTile {
        x: x as i32,
        y: y as i32,
        dx: dx as i32,
        dy: dy as i32,
        mx: whole_steps(wx % 65536 - p.abcd[0] * 4 - p.abcd[1] * 7) as i32,
        my: whole_steps(wy % 65536 - p.abcd[2] * 4 - p.abcd[3] * 4) as i32,
        origin_x: 0,
        origin_y: 0,
        padded: if dx < 3 || dx + 12 > p.plane_w() || dy < 3 || dy + 12 > p.plane_h() {
            Some(
                PadRegion {
                    x: (dx - 3) as i32,
                    y: (dy - 3) as i32,
                    w: 15,
                    h: 15,
                    plane_w: p.plane_w() as i32,
                    plane_h: p.plane_h() as i32,
                },
            )
        } else {
            None
        },
    }
}

/// The parts from `(x, y)` on, row by row.
pub open spec fn affine_tiles_from(p: WarpParams, x: int, y: int) -> Seq<WarpTile>
    decreases max(p.h() - y, 0), max(p.w() - x, 0),
{
    if y >= p.h() {
        Seq::empty()
    } else if x >= p.w() {
        affine_tiles_from(p, 0, y + 8)
    } else {
        seq![affine_tile(p, x, y)] + affine_tiles_from(p, x + 8, y)
    }
}

proof fn lemma_position_bounds(a: int, b: int, c: int, sx: int, sy: int)
    requires
        -0x100_0000 <= a <= 0x100_0000,
        -0x100_0000 <= b <= 0x100_0000,
        -0x8000_0000 <= c <= 0x7fff_ffff,
        0 <= sx <= 0x50000,
        0 <= sy <= 0x50000,
    ensures
        -0x500_0000_0000 <= a * sx <= 0x500_0000_0000,
        -0x500_0000_0000 <= b * sy <= 0x500_0000_0000,
        -0xb00_0000_0000 <= a * sx + (b * sy + c) <= 0xb00_0000_0000,
{
    assert(-0x500_0000_0000 <= a * sx <= 0x500_0000_0000) by (nonlinear_arith)
        requires
            -0x100_0000 <= a <= 0x100_0000,
            0 <= sx <= 0x50000,
    ;
    assert(-0x500_0000_0000 <= b * sy <= 0x500_0000_0000) by (nonlinear_arith)
        requires
            -0x100_0000 <= b <= 0x100_0000,
            0 <= sy <= 0x50000,
    ;
}

fn find_position(a: i32, b: i32, c: i32, sx: i32, sy: i32, ss: i32) -> (r: i64)
    requires
        -0x100_0000 <= a <= 0x100_0000,
        -0x100_0000 <= b <= 0x100_0000,
        0 <= sx <= 0x50000,
        0 <= sy <= 0x50000,
        0 <= ss <= 1,
    ensures
        r == (a * sx + (b * sy + c)) / spread(ss as int),
        -0xb00_0000_0000 <= r <= 0xb00_0000_0000,
{
    proof {
        lemma_position_bounds(a as int, b as int, c as int, sx as int, sy as int);
    }
    let v: i64 = a as i64 * sx as i64 + (b as i64 * sy as i64 + c as i64);
    if ss == 1 {
        floor_div(v, 2)
    } else {
        v
    }
}

fn find_warped(p: &WarpParams, x: i32, y: i32) -> (r: (i64, i64))
    requires
        p.valid(),
        0 <= x <= 300,
        0 <= y <= 300,
    ensures
        r.0 == warped_x(*p, x as int, y as int),
        r.1 == warped_y(*p, x as int, y as int),
        -0xb00_0000_0000 <= r.0 <= 0xb00_0000_0000,
        -0xb00_0000_0000 <= r.1 <= 0xb00_0000_0000,
{
    let sx: i32 = if p.ss_hor == 1 { p.bx * 4 + x * 2 } else { p.bx * 4 + x };
    let sy: i32 = if p.ss_ver == 1 { p.by * 4 + y * 2 } else { p.by * 4 + y };
    assert(-0x100_0000 <= p.matrix[2] <= 0x100_0000);
    assert(-0x100_0000 <= p.matrix[3] <= 0x100_0000);
    assert(-0x100_0000 <= p.matrix[4] <= 0x100_0000);
    assert(-0x100_0000 <= p.matrix[5] <= 0x100_0000);
    (
        find_position(p.matrix[2], p.matrix[3], p.matrix[0], sx, sy, p.ss_hor),
        find_position(p.matrix[4], p.matrix[5], p.matrix[1], sx, sy, p.ss_ver),
    )
}

/// The whole samples and the rest of a position.
fn split_position(v: i64) -> (r: (i32, i32))
    requires
        -0xc00_0000_0000 <= v <= 0xc00_0000_0000,
    ensures
        r.0 == v as int / 65536,
        r.1 == v as int % 65536,
        -0xc00_0000 <= r.0 <= 0xc00_0000,
        0 <= r.1 < 65536,
{
    let q: i64 = floor_div(v, 65536);
    (q as i32, (v - q * 65536) as i32)
}

fn drop_low(v: i32) -> (r: i32)
    requires
        -0x1000_0000 <= v <= 0x1000_0000,
    ensures
        r == whole_steps(v as int),
{
    let q: i64 = floor_div(v as i64, 64);
    (q * 64) as i32
}

fn sample_count(n4: i32, ss: i32) -> (r: i32)
    requires
        0 <= n4 <= 0x10000,
        0 <= ss <= 1,
    ensures
        r == n4 * samples(ss as int),
        r == n4 * 2 || r == n4 * 4,
{
    if ss == 1 {
        n4 * 2
    } else {
        n4 * 4
    }
}

fn plan_affine_tile(p: &WarpParams, x: i32, y: i32) -> (r: WarpTile)
    requires
        p.valid(),
        0 <= x < 256,
        0 <= y < 256,
    ensures
        r == affine_tile(*p, x as int, y as int),
{
    let pw: i32 = sample_count(p.fw, p.ss_hor);
    let ph: i32 = sample_count(p.fh, p.ss_ver);
    let (wx, wy): (i64, i64) = find_warped(p, x + 4, y + 4);
    let (qx, fx): (i32, i32) = split_position(wx);
    let (qy, fy): (i32, i32) = split_position(wy);
    let (dx, dy): (i32, i32) = (qx - 4, qy - 4);
    WarpTile {
        x,
        y,
        dx,
        dy,
        mx: drop_low(fx - p.abcd[0] as i32 * 4 - p.abcd[1] as i32 * 7),
        my: drop_low(fy - p.abcd[2] as i32 * 4 - p.abcd[3] as i32 * 4),
        origin_x: 0,
        origin_y: 0,
        padded: if dx < 3 || dx + 12 > pw || dy < 3 || dy + 12 > ph {
            Some(PadRegion { x: dx - 3, y: dy - 3, w: 15, h: 15, plane_w: pw, plane_h: ph })
        } else {
            None
        },
    }
}

/// Plans the prediction of a block under an affine model.
pub fn warp_affine_plane(p: &WarpParams) -> (r: Vec<WarpTile>)
    requires
        p.valid(),
    ensures
        r@ == affine_tiles_from(*p, 0, 0),
{
    let w: i32 = sample_count(p.bw4, p.ss_hor);
    let h: i32 = sample_count(p.bh4, p.ss_ver);
    let mut r: Vec<WarpTile> = Vec::new();
    let mut y: i32 = 0;
    let mut x: i32 = 0;
    while y < h
        invariant
            p.valid(),
            w == p.w(),
            h == p.h(),
            1 <= w <= 256,
            1 <= h <= 256,
            0 <= x <= w + 7,
            0 <= y <= h + 7,
            r@ + affine_tiles_from(*p, x as int, y as int) == affine_tiles_from(*p, 0, 0),
        decreases h - y + 8, w - x + 8,
    {
        if x >= w {
            x = 0;
            y = y + 8;
        } else {
            let ghost r0 = r@;
            r.push(plan_affine_tile(p, x, y));
            assert(r@ + affine_tiles_from(*p, x + 8, y as int) =~= r0 + affine_tiles_from(
                *p,
                x as int,
                y as int,
            ));
            x = x + 8;
        }
    }
    assert(r@ =~= r@ + affine_tiles_from(*p, x as int, y as int));
    r
}

/// Every part of a block at a multiple of eight samples is predicted.
pub proof fn law_affine_tiles_cover_the_block(p: WarpParams, x: int, y: int)
    requires
        p.valid(),
        0 <= x < p.w(),
        0 <= y < p.h(),
        x % 8 == 0,
        y % 8 == 0,
    ensures
        affine_tiles_from(p, 0, 0).contains(affine_tile(p, x, y)),
{
    lemma_affine_reaches(p, x, y, 0, 0);
}

proof fn lemma_affine_reaches(p: WarpParams, x: int, y: int, i: int, j: int)
    requires
        p.valid(),
        0 <= x < p.w(),
        0 <= y < p.h(),
        x % 8 == 0,
        y % 8 == 0,
        0 <= i,
        0 <= j,
        i % 8 == 0,
        j % 8 == 0,
        j < y || (j == y && i <= x),
    ensures
        affine_tiles_from(p, i, j).contains(affine_tile(p, x, y)),
    decreases max(p.h() - j, 0), max(p.w() - i, 0),
{
    let s = affine_tiles_from(p, i, j);
    if i >= p.w() {
        lemma_affine_reaches(p, x, y, 0, j + 8);
    } else {
        let rest = affine_tiles_from(p, i + 8, j);
        assert(s =~= seq![affine_tile(p, i, j)] + rest);
        if i == x && j == y {
            assert(s[0] == affine_tile(p, x, y));
        } else {
            lemma_affine_reaches(p, x, y, i + 8, j);
            let k = choose|k: int| 0 <= k < rest.len() && rest[k] == affine_tile(p, x, y);
            assert(s[k + 1] == affine_tile(p, x, y));
        }
    }
}

/// The size of the windows that a block is divided into under a general
/// model.
pub open spec fn window_w(p: WarpParams) -> int {
    min(p.w(), 8)
}

pub open spec fn window_h(p: WarpParams) -> int {
    min(p.h(), 8)
}

/// The part of the plane that a window may read.
#[derive(Debug, Clone, Copy, PartialEq, Eq, Structural)]
pub struct WarpWindow {
    pub left: i32,
    pub right: i32,
    pub top: i32,
    pub bottom: i32,
}

pub open spec fn warp_window(p: WarpParams, x: int, y: int) -> WarpWindow {
    let (sw, sh) = (window_w(p), window_h(p));
    let l = warped_x(p, x + sw / 2, y + sh / 2) / 65536 - sw / 2 - 3;
    let t = warped_y(p, x + sw / 2, y + sh / 2) / 65536 - sh / 2 - 3;
    WarpWindow {
        left: clip(l, 0, p.plane_w() - 1) as i32,
        right: clip(l + sw + 7, 1, p.plane_w()) as i32,
        top: clip(t, 0, p.plane_h() - 1) as i32,
        bottom: clip(t + sh + 7, 1, p.plane_h()) as i32,
    }
}

/// The part of four by four samples at `(x, y)` under a general model, in the
/// window at `(wx, wy)`.
pub open spec fn general_tile(p: WarpParams, wx: int, wy: int, x: int, y: int) -> WarpTile {
    let v = warp_window(p, wx, wy);
    let px = warped_x(p, x + 2, y + 2) + 0x200;
    let py = warped_y(p, x + 2, y + 2) + 0x200;
    let dx = px / 65536 - 2;
    let dy = py / 65536 - 2;
    WarpTile {
        x: x as i32,
        y: y as i32,
        dx: dx as i32,
        dy: dy as i32,
        mx: (px % 65536 / 1024) as i32,
        my: (py % 65536 / 1024) as i32,
        origin_x: v.left,
        origin_y: v.top,
        padded: if dx - 3 < v.left || dx + 8 > v.right || dy - 3 < v.top || dy + 8 > v.bottom {
            Some(
                PadRegion {
                    x: (dx - 3 - v.left) as i32,
                    y: (dy - 3 - v.top) as i32,
                    w: 11,
                    h: 11,
                    plane_w: (v.right - v.left) as i32,
                    plane_h: (v.bottom - v.top) as i32,
                },
            )
        } else {
            None
        },
    }
}

/// The parts from `(x, y)` of the window at `(wx, wy)` on: row by row in a
/// window, and windows row by row.
pub open spec fn general_tiles_from(p: WarpParams, wx: int, wy: int, x: int, y: int) -> Seq<
    WarpTile,
>
    decreases
            max(p.h() - wy, 0),
            max(p.w() - wx, 0),
            max(wy + window_h(p) - y, 0),
            max(wx + window_w(p) - x, 0),
    when p.bw4 > 0 && p.bh4 > 0
{
    if wy >= p.h() {
        Seq::empty()
    } else if wx >= p.w() {
        general_tiles_from(p, 0, wy + window_h(p), 0, wy + window_h(p))
    } else if y >= wy + window_h(p) {
        general_tiles_from(p, wx + window_w(p), wy, wx + window_w(p), wy)
    } else if x >= wx + window_w(p) {
        general_tiles_from(p, wx, wy, wx, y + 4)
    } else {
        seq![general_tile(p, wx, wy, x, y)] + general_tiles_from(p, wx, wy, x + 4, y)
    }
}

fn find_window(p: &WarpParams, x: i32, y: i32, sw: i32, sh: i32) -> (r: WarpWindow)
    requires
        p.valid(),
        sw == window_w(*p),
        sh == window_h(*p),
        0 <= x < 256,
        0 <= y < 256,
    ensures
        r == warp_window(*p, x as int, y as int),
        0 <= r.left <= 0x40000,
        0 <= r.top <= 0x40000,
        0 <= r.right <= 0x40000,
        0 <= r.bottom <= 0x40000,
{
    let pw: i32 = sample_count(p.fw, p.ss_hor);
    let ph: i32 = sample_count(p.fh, p.ss_ver);
    let (hw, hh): (i32, i32) = (sw / 2, sh / 2);
    let (wx, wy): (i64, i64) = find_warped(p, x + hw, y + hh);
    let (qx, _fx): (i32, i32) = split_position(wx);
    let (qy, _fy): (i32, i32) = split_position(wy);
    let l: i32 = qx - hw - 3;
    let t: i32 = qy - hh - 3;
    WarpWindow {
        left: iclip(l, 0, pw - 1),
        right: iclip(l + sw + 7, 1, pw),
        top: iclip(t, 0, ph - 1),
        bottom: iclip(t + sh + 7, 1, ph),
    }
}

fn plan_general_tile(p: &WarpParams, v: &WarpWindow, x: i32, y: i32, Ghost(wx): Ghost<int>, Ghost(
    wy,
): Ghost<int>) -> (r: WarpTile)
    requires
        p.valid(),
        *v == warp_window(*p, wx, wy),
        0 <= v.left <= 0x40000,
        0 <= v.top <= 0x40000,
        0 <= v.right <= 0x40000,
        0 <= v.bottom <= 0x40000,
        0 <= x <= 264,
        0 <= y <= 264,
    ensures
        r == general_tile(*p, wx, wy, x as int, y as int),
{
    let (px, py): (i64, i64) = find_warped(p, x + 2, y + 2);
    let (qx, fx): (i32, i32) = split_position(px + 0x200);
    let (qy, fy): (i32, i32) = split_position(py + 0x200);
    let (dx, dy): (i32, i32) = (qx - 2, qy - 2);
    WarpTile {
        x,
        y,
        dx,
        dy,
        mx: fx / 1024,
        my: fy / 1024,
        origin_x: v.left,
        origin_y: v.top,
        padded: if dx - 3 < v.left || dx + 8 > v.right || dy - 3 < v.top || dy + 8 > v.bottom {
            Some(
                PadRegion {
                    x: dx - 3 - v.left,
                    y: dy - 3 - v.top,
                    w: 11,
                    h: 11,
                    plane_w: v.right - v.left,
                    plane_h: v.bottom - v.top,
                },
            )
        } else {
            None
        },
    }
}

/// Plans the prediction of a block under a general model.
pub fn ext_warp_plane(p: &WarpParams) -> (r: Vec<WarpTile>)
    requires
        p.valid(),
    ensures
        r@ == general_tiles_from(*p, 0, 0, 0, 0),
{
    let w: i32 = sample_count(p.bw4, p.ss_hor);
    let h: i32 = sample_count(p.bh4, p.ss_ver);
    let sw: i32 = imin(w, 8);
    let sh: i32 = imin(h, 8);
    let mut r: Vec<WarpTile> = Vec::new();
    let (mut wx, mut wy, mut x, mut y): (i32, i32, i32, i32) = (0, 0, 0, 0);
    let mut v: WarpWindow = find_window(p, 0, 0, sw, sh);
    while wy < h
        invariant
            p.valid(),
            w == p.w(),
            h == p.h(),
            sw == window_w(*p),
            sh == window_h(*p),
            2 <= w <= 256,
            2 <= h <= 256,
            0 <= wx <= w + 7,
            0 <= wy <= h + 7,
            wx <= x <= wx + sw + 3,
            wy <= y <= wy + sh + 3,
            wx < w && wy < h ==> v == warp_window(*p, wx as int, wy as int),
            0 <= v.left <= 0x40000,
            0 <= v.top <= 0x40000,
            0 <= v.right <= 0x40000,
            0 <= v.bottom <= 0x40000,
            r@ + general_tiles_from(*p, wx as int, wy as int, x as int, y as int)
                == general_tiles_from(*p, 0, 0, 0, 0),
        decreases h - wy + 8, w - wx + 8, wy + sh - y + 4, wx + sw - x + 4,
    {
        if wx >= w {
            wx = 0;
            wy = wy + sh;
            x = 0;
            y = wy;
            if wy < h {
                v = find_window(p, wx, wy, sw, sh);
            }
        } else if y >= wy + sh {
            wx = wx + sw;
            x = wx;
            y = wy;
            if wx < w {
                v = find_window(p, wx, wy, sw, sh);
            }
        } else if x >= wx + sw {
            x = wx;
            y = y + 4;
        } else {
            let ghost r0 = r@;
            r.push(plan_general_tile(p, &v, x, y, Ghost(wx as int), Ghost(wy as int)));
            assert(r@ + general_tiles_from(*p, wx as int, wy as int, x + 4, y as int) =~= r0
                + general_tiles_from(*p, wx as int, wy as int, x as int, y as int));
            x = x + 4;
        }
    }
    assert(r@ =~= r@ + general_tiles_from(*p, wx as int, wy as int, x as int, y as int));
    r
}

/// A part that is not padded reads only what its window allows.
pub proof fn law_unpadded_tiles_stay_in_their_window(
    p: WarpParams,
    wx: int,
    wy: int,
    x: int,
    y: int,
)
    requires
        p.valid(),
        0 <= x < 256,
        0 <= y < 256,
        general_tile(p, wx, wy, x, y).padded is None,
    ensures
        ({
            let px = (warped_x(p, x + 2, y + 2) + 0x200) / 65536 - 2;
            let v = warp_window(p, wx, wy);
            0 <= v.left <= px - 3 && px + 8 <= v.right <= p.plane_w()
        }),
{
    assert(p.plane_w() == p.fw * 2 || p.plane_w() == p.fw * 4);
}

/// A model moves samples as its entries say: one luma sample to the right moves
/// what is read by one pair of entries, one sample down by the other pair, and
/// the first two entries shift it all.
pub proof fn law_model_moves_as_its_entries_say(p: WarpParams, x: int, y: int)
    requires
        p.ss_hor == 0,
        p.ss_ver == 0,
    ensures
        warped_x(p, x + 1, y) - warped_x(p, x, y) == p.matrix[2],
        warped_x(p, x, y + 1) - warped_x(p, x, y) == p.matrix[3],
        warped_y(p, x + 1, y) - warped_y(p, x, y) == p.matrix[4],
        warped_y(p, x, y + 1) - warped_y(p, x, y) == p.matrix[5],
        p.bx == 0 && p.by == 0 ==> warped_x(p, 0, 0) == p.matrix[0] && warped_y(p, 0, 0)
            == p.matrix[1],
{
    let (sx, sy) = (p.bx * 4 + x, p.by * 4 + y);
    let m = p.matrix;
    assert(m[2] * (sx + 1) == m[2] * sx + m[2]) by (nonlinear_arith);
    assert(m[3] * (sy + 1) == m[3] * sy + m[3]) by (nonlinear_arith);
    assert(m[4] * (sx + 1) == m[4] * sx + m[4]) by (nonlinear_arith);
    assert(m[5] * (sy + 1) == m[5] * sy + m[5]) by (nonlinear_arith);
    assert(m[2] * 0 == 0 && m[3] * 0 == 0 && m[4] * 0 == 0 && m[5] * 0 == 0) by (nonlinear_arith);
}

/// A model that only shifts by whole pixels reads every part at its own place
/// plus the shift, in luma and in subsampled chroma; without a phase.
pub proof fn law_shift_model_reads_in_place(p: WarpParams, x: int, y: int, h: int, v: int)
    requires
        p.valid(),
        p.matrix[2] == 0x10000,
        p.matrix[3] == 0,
        p.matrix[4] == 0,
        p.matrix[5] == 0x10000,
        p.matrix[0] == 0x20000 * h,
        p.matrix[1] == 0x20000 * v,
        forall|i: int| 0 <= i < 4 ==> #[trigger] p.abcd[i] == 0,
        0 <= x <= 256,
        0 <= y <= 256,
    ensures
        ({
            let a = affine_tile(p, x, y);
            &&& a.x == x && a.y == y
            &&& p.ss_hor == 0 ==> a.dx == 4 * p.bx + x + 2 * h
            &&& p.ss_hor == 1 ==> a.dx == 2 * p.bx + x + h
            &&& p.ss_ver == 0 ==> a.dy == 4 * p.by + y + 2 * v
            &&& p.ss_ver == 1 ==> a.dy == 2 * p.by + y + v
            &&& a.mx == 0 && a.my == 0
        }),
{
    let m = p.matrix;
    let kx = p.bx * 4 + (x + 4) * spread(p.ss_hor as int);
    let ky = p.by * 4 + (y + 4) * spread(p.ss_ver as int);
    assert(m[2] * kx == 0x10000 * kx && m[3] * ky == 0 && m[4] * kx == 0 && m[5] * ky == 0x10000
        * ky) by (nonlinear_arith)
        requires
            m[2] == 0x10000,
            m[3] == 0,
            m[4] == 0,
            m[5] == 0x10000,
    ;
    assert(p.abcd[0] == 0 && p.abcd[1] == 0 && p.abcd[2] == 0 && p.abcd[3] == 0);
}

/// A part under an affine model is read around where the model takes its
/// centre, four samples in: the whole position is that of the first sample and
/// the phase starts four columns and seven rows before the fraction.
pub proof fn law_affine_part_is_read_around_its_centre(p: WarpParams, x: int, y: int)
    requires
        p.valid(),
        -0x7000_0000 <= warped_x(p, x + 4, y + 4) / 65536 <= 0x7000_0000,
        -0x7000_0000 <= warped_y(p, x + 4, y + 4) / 65536 <= 0x7000_0000,
    ensures
        ({
            let t = affine_tile(p, x, y);
            let fx = warped_x(p, x + 4, y + 4) - 65536 * (t.dx + 4);
            let fy = warped_y(p, x + 4, y + 4) - 65536 * (t.dy + 4);
            &&& 0 <= fx < 65536
            &&& 0 <= fy < 65536
            &&& t.mx % 64 == 0 && t.my % 64 == 0
            &&& 0 <= fx - 4 * p.abcd[0] - 7 * p.abcd[1] - t.mx < 64
            &&& 0 <= fy - 4 * p.abcd[2] - 4 * p.abcd[3] - t.my < 64
            &&& t.padded is None <==> 3 <= t.dx && t.dx + 12 <= p.plane_w() && 3 <= t.dy && t.dy + 12
                <= p.plane_h()
            &&& t.padded matches Some(r) ==> r.x == t.dx - 3 && r.y == t.dy - 3 && r.w == 15 && r.h
                == 15
        }),
{
}

/// A part under a general model is read around where the model takes its
/// centre, two samples in, in sixty-fourths of a sample to the nearest.
pub proof fn law_general_part_is_read_around_its_centre(
    p: WarpParams,
    wx: int,
    wy: int,
    x: int,
    y: int,
)
    requires
        p.valid(),
        0 <= x <= 256,
        0 <= y <= 256,
        -0x7000_0000 <= warped_x(p, x + 2, y + 2) / 65536 <= 0x7000_0000,
        -0x7000_0000 <= warped_y(p, x + 2, y + 2) / 65536 <= 0x7000_0000,
    ensures
        ({
            let t = general_tile(p, wx, wy, x, y);
            let ex = warped_x(p, x + 2, y + 2) - 65536 * (t.dx + 2) - 1024 * t.mx;
            let ey = warped_y(p, x + 2, y + 2) - 65536 * (t.dy + 2) - 1024 * t.my;
            &&& -512 <= ex < 512
            &&& -512 <= ey < 512
            &&& 0 <= t.mx < 64
            &&& 0 <= t.my < 64
            &&& t.x == x && t.y == y
        }),
{
}

} // verus!
