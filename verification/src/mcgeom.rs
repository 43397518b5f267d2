//! Where motion compensation reads.
use vstd::prelude::*;

use crate::intops::{b2i, clip, iclip, low_bits, shr, POW2};

verus! {

/// A block of one plane to predict: its position and size in luma units, its
/// vector, how the plane is subsampled, and the size of the frame in luma
/// units.
#[derive(Debug, Clone, Copy, PartialEq, Eq, Structural)]
pub struct McSite {
    pub bx: i32,
    pub by: i32,
    pub bw4: i32,
    pub bh4: i32,
    pub mvx: i32,
    pub mvy: i32,
    pub ss_hor: i32,
    pub ss_ver: i32,
    pub fw: i32,
    pub fh: i32,
}

impl McSite {
    pub open spec fn valid(self) -> bool {
        &&& 0 <= self.bx <= 0x10_0000
        &&& 0 <= self.by <= 0x10_0000
        &&& 1 <= self.bw4 <= 64
        &&& 1 <= self.bh4 <= 64
        &&& -0x1000_0000 <= self.mvx <= 0x1000_0000
        &&& -0x1000_0000 <= self.mvy <= 0x1000_0000
        &&& 0 <= self.ss_hor <= 1
        &&& 0 <= self.ss_ver <= 1
        &&& 0 <= self.fw <= 0x10_0000
        &&& 0 <= self.fh <= 0x10_0000
    }
}

/// One direction of a prediction: the first sample, the number of samples, and
/// the fraction in sixteenths.
#[derive(Debug, Clone, Copy, PartialEq, Eq, Structural)]
pub struct McSpan {
    pub start: i32,
    pub len: i32,
    pub frac: i32,
}

/// Samples per unit.
pub open spec fn samples(ss: int) -> int {
    if ss == 1 { 2 } else { 4 }
}

/// One direction of the prediction of a block.
pub open spec fn mc_span(b: int, n4: int, mv: int, ss: int) -> McSpan {
    let sub = if ss == 1 { 16int } else { 8 };
    McSpan {
        start: (b * samples(ss) + mv / sub) as i32,
        len: (n4 * samples(ss)) as i32,
        frac: (mv % sub * (if ss == 1 { 1int } else { 2 })) as i32,
    }
}

fn find_span(b: i32, n4: i32, mv: i32, ss: i32) -> (r: McSpan)
    requires
        0 <= b <= 0x10_0000,
        1 <= n4 <= 64,
        -0x1000_0000 <= mv <= 0x1000_0000,
        0 <= ss <= 1,
    ensures
        r == mc_span(b as int, n4 as int, mv as int, ss as int),
        -0x1000_0000 <= r.start <= 0x1000_0000,
        1 <= r.len <= 256,
        0 <= r.frac < 16,
{
    assert(POW2[3] == 8 && POW2[4] == 16);
    if ss == 1 {
        McSpan { start: b * 2 + shr(mv, 4), len: n4 * 2, frac: low_bits(mv, 4) }
    } else {
        McSpan { start: b * 4 + shr(mv, 3), len: n4 * 4, frac: low_bits(mv, 3) * 2 }
    }
}

/// The samples of a direction that the filter reads: three before and four
/// after those that are predicted, unless the position is whole.
pub open spec fn reads_from(s: McSpan) -> int {
    s.start - 3 * b2i(s.frac != 0)
}

pub open spec fn reads_to(s: McSpan) -> int {
    s.start + s.len + 4 * b2i(s.frac != 0)
}

/// How a block is predicted: both directions, and the part of the reference to
/// copy first where the filter would read outside of it.
#[derive(Debug, Clone, Copy, PartialEq, Eq, Structural)]
pub struct McPlan {
    pub hor: McSpan,
    pub ver: McSpan,
    pub padded: Option<PadRegion>,
    pub bilinear: bool,
}

/// A part of a plane that may reach beyond its edges, and the size of the
/// plane.
#[derive(Debug, Clone, Copy, PartialEq, Eq, Structural)]
pub struct PadRegion {
    pub x: i32,
    pub y: i32,
    pub w: i32,
    pub h: i32,
    pub plane_w: i32,
    pub plane_h: i32,
}

/// The filter code of bilinear interpolation.
pub const FILTER_BILINEAR: u8 = 3;

pub open spec fn mc_plan(s: McSite, filter: u8) -> McPlan {
    let hor = mc_span(s.bx as int, s.bw4 as int, s.mvx as int, s.ss_hor as int);
    let ver = mc_span(s.by as int, s.bh4 as int, s.mvy as int, s.ss_ver as int);
    let pw = s.fw * samples(s.ss_hor as int);
    let ph = s.fh * samples(s.ss_ver as int);
    let outside = reads_from(hor) < 0 || reads_from(ver) < 0 || reads_to(hor) > pw || reads_to(ver)
        > ph;
    McPlan {
        hor,
        ver,
        padded: if outside {
            Some(
                PadRegion {
                    x: reads_from(hor) as i32,
                    y: reads_from(ver) as i32,
                    w: (reads_to(hor) - reads_from(hor)) as i32,
                    h: (reads_to(ver) - reads_from(ver)) as i32,
                    plane_w: pw as i32,
                    plane_h: ph as i32,
                },
            )
        } else {
            None
        },
        bilinear: filter == FILTER_BILINEAR,
    }
}

/// Plans the prediction of a block of one plane.
pub fn plan_mc(s: &McSite, filter: u8) -> (r: McPlan)
    requires
        s.valid(),
    ensures
        r == mc_plan(*s, filter),
{
    let hor: McSpan = find_span(s.bx, s.bw4, s.mvx, s.ss_hor);
    let ver: McSpan = find_span(s.by, s.bh4, s.mvy, s.ss_ver);
    let pw: i32 = if s.ss_hor == 1 { s.fw * 2 } else { s.fw * 4 };
    let ph: i32 = if s.ss_ver == 1 { s.fh * 2 } else { s.fh * 4 };
    let (x0, x1): (i32, i32) = if hor.frac != 0 {
        (hor.start - 3, hor.start + hor.len + 4)
    } else {
        (hor.start, hor.start + hor.len)
    };
    let (y0, y1): (i32, i32) = if ver.frac != 0 {
        (ver.start - 3, ver.start + ver.len + 4)
    } else {
        (ver.start, ver.start + ver.len)
    };
    McPlan {
        hor,
        ver,
        padded: if x0 < 0 || y0 < 0 || x1 > pw || y1 > ph {
            Some(PadRegion { x: x0, y: y0, w: x1 - x0, h: y1 - y0, plane_w: pw, plane_h: ph })
        } else {
            None
        },
        bilinear: filter == FILTER_BILINEAR,
    }
}

/// A prediction that is not padded reads nothing outside of the plane.
pub proof fn law_unpadded_reads_stay_inside(s: McSite, filter: u8)
    requires
        s.valid(),
        mc_plan(s, filter).padded is None,
    ensures
        0 <= reads_from(mc_plan(s, filter).hor),
        0 <= reads_from(mc_plan(s, filter).ver),
        reads_to(mc_plan(s, filter).hor) <= s.fw * samples(s.ss_hor as int),
        reads_to(mc_plan(s, filter).ver) <= s.fh * samples(s.ss_ver as int),
{
}

/// The sample of a plane of `w` by `h` samples that is nearest to `(x, y)`;
/// zero where the data of the plane ends before it.
pub open spec fn nearest_sample(src: Seq<u8>, stride: int, w: int, h: int, x: int, y: int) -> u8 {
    let i = clip(y, 0, if h > 0 { h - 1 } else { 0 }) * stride + clip(x, 0, if w > 0 { w - 1 } else { 0 });
    if i < src.len() { src[i] } else { 0 }
}

fn fetch(src: &[u8], stride: usize, w: i32, h: i32, x: i32, y: i32) -> (r: u8)
    requires
        stride <= 0x100_0000,
        0 <= w <= 0x100_0000,
        0 <= h <= 0x100_0000,
    ensures
        r == nearest_sample(src@, stride as int, w as int, h as int, x as int, y as int),
{
    let ax: i32 = iclip(x, 0, if w > 0 { w - 1 } else { 0 });
    let ay: i32 = iclip(y, 0, if h > 0 { h - 1 } else { 0 });
    assert(0 <= ay * stride <= 0x100_0000 * 0x100_0000) by (nonlinear_arith)
        requires
            0 <= ay <= 0x100_0000,
            0 <= stride <= 0x100_0000,
    ;
    let i: u64 = ay as u64 * stride as u64 + ax as u64;
    if i < src.len() as u64 {
        src[i as usize]
    } else {
        0
    }
}

/// Copies a region of a plane, repeating the samples at the edges where it
/// reaches beyond them. The copy is dense.
pub fn inter_emu_edge(src: &[u8], stride: usize, p: &PadRegion) -> (r: Vec<u8>)
    requires
        stride <= 0x100_0000,
        0 <= p.plane_w <= 0x100_0000,
        0 <= p.plane_h <= 0x100_0000,
        -0x1000_0000 <= p.x <= 0x1000_0000,
        -0x1000_0000 <= p.y <= 0x1000_0000,
        0 <= p.w <= 0x1000,
        0 <= p.h <= 0x1000,
    ensures
        r@.len() == p.w * p.h,
        forall|x: int, y: int|
            #![trigger r@[y * p.w + x]]
            0 <= x < p.w && 0 <= y < p.h ==> r@[y * p.w + x] == nearest_sample(
                src@,
                stride as int,
                p.plane_w as int,
                p.plane_h as int,
                p.x + x,
                p.y + y,
            ),
{
    let mut r: Vec<u8> = Vec::new();
    let mut y: i32 = 0;
    assert(0 * p.w == 0) by (nonlinear_arith);
    while y < p.h
        invariant
            0 <= y <= p.h <= 0x1000,
            0 <= p.w <= 0x1000,
            stride <= 0x100_0000,
            0 <= p.plane_w <= 0x100_0000,
            0 <= p.plane_h <= 0x100_0000,
            -0x1000_0000 <= p.x <= 0x1000_0000,
            -0x1000_0000 <= p.y <= 0x1000_0000,
            r@.len() == y * p.w,
            forall|i: int, j: int|
                #![trigger r@[j * p.w + i]]
                0 <= i < p.w && 0 <= j < y ==> r@[j * p.w + i] == nearest_sample(
                    src@,
                    stride as int,
                    p.plane_w as int,
                    p.plane_h as int,
                    p.x + i,
                    p.y + j,
                ),
        decreases p.h - y,
    {
        let ghost r0 = r@;
        let mut x: i32 = 0;
        while x < p.w
            invariant
                0 <= x <= p.w <= 0x1000,
                0 <= y < p.h <= 0x1000,
                stride <= 0x100_0000,
                0 <= p.plane_w <= 0x100_0000,
                0 <= p.plane_h <= 0x100_0000,
                -0x1000_0000 <= p.x <= 0x1000_0000,
                -0x1000_0000 <= p.y <= 0x1000_0000,
                r0.len() == y * p.w,
                r@.len() == r0.len() + x,
                forall|k: int| 0 <= k < r0.len() ==> #[trigger] r@[k] == r0[k],
                forall|i: int|
                    0 <= i < x ==> #[trigger] r@[r0.len() + i] == nearest_sample(
                        src@,
                        stride as int,
                        p.plane_w as int,
                        p.plane_h as int,
                        p.x + i,
                        p.y + y,
                    ),
            decreases p.w - x,
        {
            r.push(fetch(src, stride, p.plane_w, p.plane_h, p.x + x, p.y + y));
            x = x + 1;
        }
        assert((y + 1) * p.w == y * p.w + p.w) by (nonlinear_arith);
        assert forall|i: int, j: int|
            #![trigger r@[j * p.w + i]]
            0 <= i < p.w && 0 <= j < y + 1 implies r@[j * p.w + i] == nearest_sample(
            src@,
            stride as int,
            p.plane_w as int,
            p.plane_h as int,
            p.x + i,
            p.y + j,
        ) by {
            if j < y {
                assert(j * p.w + i < y * p.w) by (nonlinear_arith)
                    requires
                        0 <= i < p.w,
                        0 <= j < y,
                ;
                assert(0 <= j * p.w) by (nonlinear_arith)
                    requires
                        0 <= j,
                        0 <= p.w,
                ;
                assert(r@[j * p.w + i] == r0[j * p.w + i]);
            } else {
                assert(j == y);
                assert(r@[r0.len() + i] == r@[j * p.w + i]);
            }
        }
        y = y + 1;
    }
    assert(p.h * p.w == p.w * p.h) by (nonlinear_arith);
    r
}

/// A block is read at its own position plus its vector, in both directions:
/// in luma vectors are eighths of a sample, in subsampled chroma sixteenths.
/// It is as long as the block.
pub proof fn law_prediction_is_read_at_the_vector(s: McSite, filter: u8)
    requires
        s.valid(),
    ensures
        ({
            let p = mc_plan(s, filter);
            &&& 0 <= p.hor.frac < 16
            &&& 0 <= p.ver.frac < 16
            &&& s.ss_hor == 0 ==> 16 * (p.hor.start - 4 * s.bx) + p.hor.frac == 2 * s.mvx
            &&& s.ss_hor == 1 ==> 16 * (p.hor.start - 2 * s.bx) + p.hor.frac == s.mvx
            &&& s.ss_ver == 0 ==> 16 * (p.ver.start - 4 * s.by) + p.ver.frac == 2 * s.mvy
            &&& s.ss_ver == 1 ==> 16 * (p.ver.start - 2 * s.by) + p.ver.frac == s.mvy
            &&& p.hor.len == (if s.ss_hor == 0 { 4 * s.bw4 } else { 2 * s.bw4 })
            &&& p.ver.len == (if s.ss_ver == 0 { 4 * s.bh4 } else { 2 * s.bh4 })
            &&& p.bilinear <==> filter == 3
        }),
{
}

/// A whole position reads only the samples that are predicted; the filter of a
/// fraction reads three before and four after them. What it reads is padded
/// exactly where some of it lies outside of the plane, and the padded region
/// is just what it reads.
pub proof fn law_padding_is_what_the_filter_reads(s: McSite, filter: u8)
    requires
        s.valid(),
    ensures
        ({
            let p = mc_plan(s, filter);
            let x0 = if p.hor.frac == 0 { p.hor.start as int } else { p.hor.start - 3 };
            let x1 = p.hor.start + p.hor.len - 1 + (if p.hor.frac == 0 { 0int } else { 4 });
            let y0 = if p.ver.frac == 0 { p.ver.start as int } else { p.ver.start - 3 };
            let y1 = p.ver.start + p.ver.len - 1 + (if p.ver.frac == 0 { 0int } else { 4 });
            let w = if s.ss_hor == 0 { 4 * s.fw } else { 2 * s.fw };
            let h = if s.ss_ver == 0 { 4 * s.fh } else { 2 * s.fh };
            &&& p.padded is None <==> 0 <= x0 && x1 < w && 0 <= y0 && y1 < h
            &&& p.padded matches Some(r) ==> r.x == x0 && r.y == y0 && r.x + r.w == x1 + 1 && r.y
                + r.h == y1 + 1 && r.plane_w == w && r.plane_h == h
        }),
{
    let (a, b) = (samples(s.ss_hor as int), samples(s.ss_ver as int));
    assert(s.fw * a == (if s.ss_hor == 0 { 4 * s.fw } else { 2 * s.fw }));
    assert(s.fh * b == (if s.ss_ver == 0 { 4 * s.fh } else { 2 * s.fh }));
    assert(s.bx * a == (if s.ss_hor == 0 { 4 * s.bx } else { 2 * s.bx }));
    assert(s.by * b == (if s.ss_ver == 0 { 4 * s.by } else { 2 * s.by }));
    assert(s.bw4 * a == (if s.ss_hor == 0 { 4 * s.bw4 } else { 2 * s.bw4 }));
    assert(s.bh4 * b == (if s.ss_ver == 0 { 4 * s.bh4 } else { 2 * s.bh4 }));
}

/// Within a plane a copied sample is the one at its place; beyond an edge it is
/// that of the edge.
pub proof fn law_edges_repeat(src: Seq<u8>, stride: int, w: int, h: int, x: int, y: int)
    requires
        1 <= w <= stride,
        1 <= h,
        src.len() >= stride * h,
    ensures
        0 <= x < w && 0 <= y < h ==> nearest_sample(src, stride, w, h, x, y) == src[y * stride + x],
        x < 0 ==> nearest_sample(src, stride, w, h, x, y) == nearest_sample(
            src,
            stride,
            w,
            h,
            0,
            y,
        ),
        x >= w ==> nearest_sample(src, stride, w, h, x, y) == nearest_sample(
            src,
            stride,
            w,
            h,
            w - 1,
            y,
        ),
        y < 0 ==> nearest_sample(src, stride, w, h, x, y) == nearest_sample(
            src,
            stride,
            w,
            h,
            x,
            0,
        ),
        y >= h ==> nearest_sample(src, stride, w, h, x, y) == nearest_sample(
            src,
            stride,
            w,
            h,
            x,
            h - 1,
        ),
{
    if 0 <= x < w && 0 <= y < h {
        assert(y * stride + x < stride * h) by (nonlinear_arith)
            requires
                0 <= x < w,
                w <= stride,
                0 <= y < h,
        ;
    }
}

} // verus!
