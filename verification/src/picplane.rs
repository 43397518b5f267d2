//! The planes of a picture.
use vstd::prelude::*;

use crate::headers::PixelLayout;

verus! {

/// The part of a plane that holds the picture: bytes in a row, and rows.
#[derive(Debug, Clone, Copy, PartialEq, Eq, Structural)]
pub struct PlaneSize {
    pub row_bytes: usize,
    pub rows: usize,
}

/// How many planes a picture has.
pub open spec fn plane_count(layout: PixelLayout) -> int {
    if layout == PixelLayout::I400 { 1 } else { 3 }
}

/// `n` samples of luma in samples of a plane, rounded up.
pub open spec fn plane_len(n: int, halved: bool) -> int {
    if halved { (n + 1) / 2 } else { n }
}

pub open spec fn plane_size(w: int, h: int, layout: PixelLayout, bpc: int, pl: int) -> PlaneSize {
    let hor = pl > 0 && (layout == PixelLayout::I420 || layout == PixelLayout::I422);
    let ver = pl > 0 && layout == PixelLayout::I420;
    PlaneSize {
        row_bytes: (plane_len(w, hor) * ((bpc + 7) / 8)) as usize,
        rows: plane_len(h, ver) as usize,
    }
}

/// The size of plane `pl` of a picture of `w` by `h` samples of `bpc` bits;
/// there is none beyond the planes of the layout.
pub fn find_plane_size(w: i32, h: i32, layout: PixelLayout, bpc: i32, pl: usize) -> (r: Option<
    PlaneSize,
>)
    requires
        0 <= w <= 0x10000,
        0 <= h <= 0x10000,
        1 <= bpc <= 16,
    ensures
        r is Some <==> pl < plane_count(layout),
        r matches Some(s) ==> s == plane_size(w as int, h as int, layout, bpc as int, pl as int),
{
    if pl >= 3 || (pl >= 1 && layout == PixelLayout::I400) {
        return None;
    }
    let hor: bool = pl > 0 && (layout == PixelLayout::I420 || layout == PixelLayout::I422);
    let ver: bool = pl > 0 && layout == PixelLayout::I420;
    let pw: i32 = if hor { (w + 1) / 2 } else { w };
    let ph: i32 = if ver { (h + 1) / 2 } else { h };
    let bytes: i32 = (bpc + 7) / 8;
    assert(bytes == 1 || bytes == 2);
    assert(pw * bytes == (if bytes == 1 { pw as int } else { 2 * pw })) by (nonlinear_arith)
        requires
            bytes == 1 || bytes == 2,
    ;
    Some(PlaneSize { row_bytes: (pw * bytes) as usize, rows: ph as usize })
}

/// The rows of a plane lie in its data.
pub open spec fn plane_fits(s: PlaneSize, stride: int, len: int) -> bool {
    s.rows > 0 ==> (s.rows - 1) * stride + s.row_bytes <= len
}

/// Copies the picture of a plane into rows of `d_stride` bytes; what lies
/// beyond it is zero.
pub fn clone_plane(src: &[u8], s_stride: usize, d_stride: usize, s: PlaneSize) -> (r: Vec<u8>)
    requires
        plane_fits(s, s_stride as int, src@.len() as int),
        s.row_bytes <= d_stride,
        s.rows * d_stride <= usize::MAX,
        s.rows * s_stride <= usize::MAX,
    ensures
        r@.len() == s.rows * d_stride,
        forall|x: int, y: int|
            #![trigger r@[y * d_stride + x]]
            0 <= x < d_stride && 0 <= y < s.rows ==> r@[y * d_stride + x] == if x < s.row_bytes {
                src@[y * s_stride + x]
            } else {
                0
            },
{
    let total: usize = src.len();
    let mut r: Vec<u8> = Vec::new();
    let mut y: usize = 0;
    assert(0 * d_stride == 0) by (nonlinear_arith);
    while y < s.rows
        invariant
            total == src@.len(),
            plane_fits(s, s_stride as int, src@.len() as int),
            s.row_bytes <= d_stride,
            s.rows * s_stride <= usize::MAX,
            y <= s.rows,
            r@.len() == y * d_stride,
            forall|i: int, j: int|
                #![trigger r@[j * d_stride + i]]
                0 <= i < d_stride && 0 <= j < y ==> r@[j * d_stride + i] == if i < s.row_bytes {
                    src@[j * s_stride + i]
                } else {
                    0
                },
        decreases s.rows - y,
    {
        let ghost r0 = r@;
        assert(0 <= y * s_stride <= (s.rows - 1) * s_stride <= s.rows * s_stride) by (nonlinear_arith)
            requires
                0 <= y <= s.rows - 1,
                0 <= s_stride,
        ;
        let from: usize = y * s_stride;
        let mut x: usize = 0;
        while x < d_stride
            invariant
                total == src@.len(),
                x <= d_stride,
                from == y * s_stride,
                from + s.row_bytes <= total,
                r@.len() == r0.len() + x,
                forall|k: int| 0 <= k < r0.len() ==> #[trigger] r@[k] == r0[k],
                forall|i: int|
                    0 <= i < x ==> #[trigger] r@[r0.len() + i] == if i < s.row_bytes {
                        src@[from + i]
                    } else {
                        0
                    },
            decreases d_stride - x,
        {
            r.push(if x < s.row_bytes { src[from + x] } else { 0 });
            x = x + 1;
        }
        assert((y + 1) * d_stride == y * d_stride + d_stride) by (nonlinear_arith);
        assert forall|i: int, j: int|
            #![trigger r@[j * d_stride + i]]
            0 <= i < d_stride && 0 <= j < y + 1 implies r@[j * d_stride + i] == if i < s.row_bytes {
            src@[j * s_stride + i]
        } else {
            0
        } by {
            if j < y {
                assert(0 <= j * d_stride && j * d_stride + i < y * d_stride) by (nonlinear_arith)
                    requires
                        0 <= i < d_stride,
                        0 <= j < y,
                ;
                assert(r@[j * d_stride + i] == r0[j * d_stride + i]);
            } else {
                assert(j == y);
                assert(r@[r0.len() + i] == r@[j * d_stride + i]);
            }
        }
        y = y + 1;
    }
    r
}

/// Chroma planes of 4:2:0 have half the columns and half the rows of luma,
/// rounded up, those of 4:2:2 only half the columns; a sample of more than
/// eight bits takes two bytes.
pub proof fn law_planes_have_their_size(w: int, h: int, bpc: int, pl: int)
    requires
        1 <= w <= 0x10_0000,
        1 <= h <= 0x10_0000,
        bpc == 8 || bpc == 10 || bpc == 12,
        0 <= pl < 3,
    ensures
        ({
            let bytes = if bpc == 8 { 1int } else { 2 };
            let a = plane_size(w, h, PixelLayout::I420, bpc, pl);
            let b = plane_size(w, h, PixelLayout::I422, bpc, pl);
            let c = plane_size(w, h, PixelLayout::I444, bpc, pl);
            &&& c.row_bytes == w * bytes && c.rows == h
            &&& pl == 0 ==> a == c && b == c
            &&& pl > 0 ==> h <= 2 * a.rows <= h + 1 && b.rows == h && a.row_bytes == b.row_bytes
                && w * bytes <= 2 * a.row_bytes <= (w + 1) * bytes
            &&& plane_count(PixelLayout::I400) == 1 && plane_count(PixelLayout::I420) == 3
                && plane_count(PixelLayout::I422) == 3 && plane_count(PixelLayout::I444) == 3
        }),
{
    let half = (w + 1) / 2;
    assert(half * 1 == half && half * 2 == 2 * half && w * 1 == w);
    assert((bpc + 7) / 8 == (if bpc == 8 { 1int } else { 2 }));
}

} // verus!
