//! The references of a frame, and what a decoded frame leaves in them.
use vstd::prelude::*;

use crate::env::{get_poc_diff, poc_diff};
use crate::error::{Rav2dError, Result};
use crate::framegeom::{units_of, MAX_FRAME_SIZE};
use crate::headers::{PixelLayout, WarpedMotionType};
use crate::intops::{abs, b2i, bit_of, bit_set, p2};
use crate::levels::RefPair;
use crate::mvscale::ScalableMotionParams;

verus! {

/// What is known of a picture that can be referred to.
#[derive(Debug, Clone, Copy, PartialEq, Eq, Structural)]
pub struct RefPicture {
    pub w: i32,
    pub h: i32,
    pub layout: PixelLayout,
    pub bpc: i32,
    /// The width that was coded.
    pub coded_w: i32,
    /// Its place in output order.
    pub frame_offset: i32,
    pub n_ref_frames: u8,
}

/// The frame that refers.
#[derive(Debug, Clone, Copy, PartialEq, Eq, Structural)]
pub struct RefFrame {
    pub width: i32,
    pub height: i32,
    pub layout: PixelLayout,
    pub bpc: i32,
}

impl RefFrame {
    pub open spec fn valid(self) -> bool {
        1 <= self.width <= MAX_FRAME_SIZE && 1 <= self.height <= MAX_FRAME_SIZE
    }
}

/// A picture can be referred to where it is of the same format, at most twice
/// as large and at most sixteen times smaller.
pub open spec fn ref_usable(f: RefFrame, p: RefPicture) -> bool {
    &&& f.width * 2 >= p.w
    &&& f.height * 2 >= p.h
    &&& f.width <= p.w * 16
    &&& f.height <= p.h * 16
    &&& f.layout == p.layout
    &&& f.bpc == p.bpc
}

pub fn is_ref_usable(f: &RefFrame, p: &RefPicture) -> (r: bool)
    requires
        f.valid(),
    ensures
        r == ref_usable(*f, *p),
{
    f.width as i64 * 2 >= p.w as i64 && f.height as i64 * 2 >= p.h as i64 && f.width as i64
        <= p.w as i64 * 16 && f.height as i64 <= p.h as i64 * 16 && f.layout == p.layout && f.bpc
        == p.bpc
}

/// The ratio of two sizes in 16384ths, rounded to the nearest.
pub open spec fn size_ratio(ref_sz: int, this_sz: int) -> int {
    (ref_sz * 0x4000 + this_sz / 2) / this_sz
}

/// How a reference is scaled in one direction; frames of the same size are
/// not.
pub open spec fn ref_scale(same: bool, ref_sz: int, this_sz: int) -> ScalableMotionParams {
    if same {
        ScalableMotionParams { scale: 0, step: 0 }
    } else {
        let scale = size_ratio(ref_sz, this_sz);
        ScalableMotionParams { scale: scale as i32, step: ((scale + 8) / 16) as i32 }
    }
}

fn find_scale(same: bool, ref_sz: i32, this_sz: i32) -> (r: ScalableMotionParams)
    requires
        1 <= this_sz <= MAX_FRAME_SIZE,
        1 <= ref_sz <= this_sz * 2,
    ensures
        r == ref_scale(same, ref_sz as int, this_sz as int),
        0 <= r.scale <= 0x10000,
{
    if same {
        return ScalableMotionParams { scale: 0, step: 0 };
    }
    let num: i64 = ref_sz as i64 * 0x4000 + this_sz as i64 / 2;
    let scale: i64 = num / this_sz as i64;
    assert(0 <= scale <= 0x9000) by (nonlinear_arith)
        requires
            scale == num as int / this_sz as int,
            0 <= num <= this_sz * 0x8001,
            1 <= this_sz,
    ;
    ScalableMotionParams { scale: scale as i32, step: ((scale + 8) / 16) as i32 }
}

/// How a usable reference is scaled horizontally and vertically.
pub open spec fn ref_scales(f: RefFrame, p: RefPicture) -> (
    ScalableMotionParams,
    ScalableMotionParams,
) {
    let same = f.width == p.w && f.height == p.h;
    (ref_scale(same, p.w as int, f.width as int), ref_scale(same, p.h as int, f.height as int))
}

pub fn scale_reference(f: &RefFrame, p: &RefPicture) -> (r: (
    ScalableMotionParams,
    ScalableMotionParams,
))
    requires
        f.valid(),
        ref_usable(*f, *p),
    ensures
        r == ref_scales(*f, *p),
        0 <= r.0.scale <= 0x10000,
        0 <= r.1.scale <= 0x10000,
{
    let same: bool = f.width == p.w && f.height == p.h;
    (find_scale(same, p.w, f.width), find_scale(same, p.h, f.height))
}

/// A reference is scaled exactly where its size differs.
pub proof fn law_scaled_iff_resized(f: RefFrame, p: RefPicture)
    requires
        f.valid(),
        ref_usable(f, p),
    ensures
        (ref_scales(f, p).0.scale == 0 && ref_scales(f, p).1.scale == 0) <==> (f.width == p.w
            && f.height == p.h),
{
    if !(f.width == p.w && f.height == p.h) {
        let (a, b) = (p.w as int, f.width as int);
        assert(1 <= size_ratio(a, b) <= 0x9000) by (nonlinear_arith)
            requires
                size_ratio(a, b) == (a * 0x4000 + b / 2) / b,
                1 <= b,
                b <= a * 16,
                a <= b * 2,
        ;
    }
}

/// A reference in use: the picture, and how it is scaled.
#[derive(Debug, Clone, Copy, PartialEq, Eq, Structural)]
pub struct RefUse {
    pub pic: RefPicture,
    pub hor: ScalableMotionParams,
    pub ver: ScalableMotionParams,
}

/// How the frame uses a picture.
pub open spec fn ref_use(f: RefFrame, p: RefPicture) -> RefUse {
    RefUse { pic: p, hor: ref_scales(f, p).0, ver: ref_scales(f, p).1 }
}

/// The slot holds a picture that can be referred to.
pub open spec fn slot_usable(f: RefFrame, slot: Option<RefPicture>) -> bool {
    slot matches Some(p) && ref_usable(f, p)
}

/// Looks up the references of an inter frame. Fails where one of them is
/// missing or cannot be used.
pub fn setup_refs(f: &RefFrame, slots: &[Option<RefPicture>; 8], refidx: &[u8; 7]) -> (r: Result<
    Vec<RefUse>,
>)
    requires
        f.valid(),
        forall|i: int| 0 <= i < 7 ==> #[trigger] refidx[i] < 8,
    ensures
        r is Ok <==> forall|i: int|
            0 <= i < 7 ==> slot_usable(*f, slots[#[trigger] refidx[i] as int]),
        r matches Ok(v) ==> v@.len() == 7 && forall|i: int|
            0 <= i < 7 ==> #[trigger] v@[i] == ref_use(*f, slots[refidx[i] as int]->Some_0),
        r is Err ==> r->Err_0 == Rav2dError::InvalidData,
{
    let mut v: Vec<RefUse> = Vec::new();
    let mut i: usize = 0;
    while i < 7
        invariant
            i <= 7,
            f.valid(),
            forall|k: int| 0 <= k < 7 ==> #[trigger] refidx[k] < 8,
            v@.len() == i,
            forall|k: int| 0 <= k < i ==> slot_usable(*f, slots[#[trigger] refidx[k] as int]),
            forall|k: int|
                0 <= k < i ==> #[trigger] v@[k] == ref_use(*f, slots[refidx[k] as int]->Some_0),
        decreases 7 - i,
    {
        let k: usize = refidx[i] as usize;
        assert(k < 8);
        match slots[k] {
            None => {
                assert(!slot_usable(*f, slots[refidx[i as int] as int]));
                return Err(Rav2dError::InvalidData);
            },
            Some(p) => {
                if !is_ref_usable(f, &p) {
                    assert(!slot_usable(*f, slots[refidx[i as int] as int]));
                    return Err(Rav2dError::InvalidData);
                }
                let (hor, ver) = scale_reference(f, &p);
                v.push(RefUse { pic: p, hor, ver });
            },
        }
        i = i + 1;
    }
    Ok(v)
}

/// Whether the global motion of a reference may warp blocks: it must be more
/// than a shift, vectors must not be whole, the warp must split into shears,
/// and the reference must have the same width.
pub open spec fn global_warp_allowed(
    kind: WarpedMotionType,
    force_integer_mv: bool,
    shears: bool,
    scale: int,
) -> bool {
    &&& kind == WarpedMotionType::RotZoom || kind == WarpedMotionType::Affine
    &&& !force_integer_mv
    &&& shears
    &&& scale == 0
}

pub fn is_global_warp_allowed(
    kind: WarpedMotionType,
    force_integer_mv: bool,
    shears: bool,
    scale: i32,
) -> (r: bool)
    ensures
        r == global_warp_allowed(kind, force_integer_mv, shears, scale as int),
{
    (kind == WarpedMotionType::RotZoom || kind == WarpedMotionType::Affine) && !force_integer_mv
        && shears && scale == 0
}

/// The distances of the references in output order.
#[derive(Debug, Clone, Copy)]
pub struct RefDistances {
    pub refdist: [i8; 7],
    pub absrefdist: [u8; 7],
    pub refdir: [u8; 7],
    /// The latest reference after the frame; -2 where there is none.
    pub furthest_future_refidx: i8,
}

/// The distance of a reference from a frame at `poc`.
pub open spec fn ref_distance(n_bits: int, poc: int, ref_poc: int) -> int {
    poc_diff(n_bits, ref_poc, poc)
}

/// The latest of the first `n` references after the frame, and of equally
/// late ones the first.
pub open spec fn furthest(n_bits: int, poc: int, refs: Seq<i32>, n: int) -> int
    decreases n,
{
    if n <= 0 {
        -2
    } else {
        let best = furthest(n_bits, poc, refs, n - 1);
        let d = ref_distance(n_bits, poc, refs[n - 1] as int);
        if d > 0 && (best < 0 || ref_distance(n_bits, poc, refs[best] as int) < d) {
            n - 1
        } else {
            best
        }
    }
}

/// Every distance fits in eight bits.
pub open spec fn distances_valid(n_bits: int, poc: int, refs: [i32; 7]) -> bool {
    &&& 0 <= n_bits <= 8
    &&& 0 <= poc <= 0xff
    &&& forall|i: int| 0 <= i < 7 ==> 0 <= #[trigger] refs[i] <= 0xff
    &&& forall|i: int|
        0 <= i < 7 ==> -128 <= ref_distance(n_bits, poc, #[trigger] refs[i] as int) <= 127
}

pub open spec fn distances(n_bits: int, poc: int, refs: [i32; 7], r: RefDistances) -> bool {
    &&& forall|i: int|
        0 <= i < 7 ==> #[trigger] r.refdist[i] == ref_distance(n_bits, poc, refs[i] as int)
    &&& forall|i: int|
        0 <= i < 7 ==> #[trigger] r.absrefdist[i] == abs(ref_distance(n_bits, poc, refs[i] as int))
    &&& forall|i: int|
        0 <= i < 7 ==> #[trigger] r.refdir[i] == b2i(
            ref_distance(n_bits, poc, refs[i] as int) > 0,
        )
    &&& r.furthest_future_refidx == furthest(n_bits, poc, refs@, 7)
}

/// Finds how far each reference is from the frame, and in which direction.
pub fn find_distances(order_hint_n_bits: i32, poc: i32, refs: &[i32; 7]) -> (r: RefDistances)
    requires
        distances_valid(order_hint_n_bits as int, poc as int, *refs),
    ensures
        distances(order_hint_n_bits as int, poc as int, *refs, r),
{
    let mut r: RefDistances = RefDistances {
        refdist: [0; 7],
        absrefdist: [0; 7],
        refdir: [0; 7],
        furthest_future_refidx: -2,
    };
    let mut i: usize = 0;
    while i < 7
        invariant
            i <= 7,
            distances_valid(order_hint_n_bits as int, poc as int, *refs),
            forall|k: int|
                0 <= k < i ==> #[trigger] r.refdist[k] == ref_distance(
                    order_hint_n_bits as int,
                    poc as int,
                    refs[k] as int,
                ),
            forall|k: int|
                0 <= k < i ==> #[trigger] r.absrefdist[k] == abs(
                    ref_distance(order_hint_n_bits as int, poc as int, refs[k] as int),
                ),
            forall|k: int|
                0 <= k < i ==> #[trigger] r.refdir[k] == b2i(
                    ref_distance(order_hint_n_bits as int, poc as int, refs[k] as int) > 0,
                ),
            r.furthest_future_refidx == furthest(
                order_hint_n_bits as int,
                poc as int,
                refs@,
                i as int,
            ),
            r.furthest_future_refidx < i,
        decreases 7 - i,
    {
        let d: i32 = get_poc_diff(order_hint_n_bits, refs[i], poc);
        assert(d == ref_distance(order_hint_n_bits as int, poc as int, refs[i as int] as int));
        let best: i8 = r.furthest_future_refidx;
        let later: bool = d > 0 && (best < 0 || (r.refdist[best as usize] as i32) < d);
        r.refdist[i] = d as i8;
        r.absrefdist[i] = (if d < 0 { -d } else { d }) as u8;
        r.refdir[i] = if d > 0 { 1 } else { 0 };
        if later {
            r.furthest_future_refidx = i as i8;
        }
        i = i + 1;
    }
    r
}

/// The furthest reference lies after the frame, and no reference lies later.
pub proof fn law_furthest_is_latest(n_bits: int, poc: int, refs: Seq<i32>, n: int, i: int)
    requires
        0 <= i < n,
    ensures
        ({
            let f = furthest(n_bits, poc, refs, n);
            let d = ref_distance(n_bits, poc, refs[i] as int);
            &&& f == -2 || 0 <= f < n
            &&& f == -2 ==> d <= 0
            &&& f >= 0 ==> ref_distance(n_bits, poc, refs[f] as int) > 0 && d <= ref_distance(
                n_bits,
                poc,
                refs[f] as int,
            )
        }),
    decreases n,
{
    reveal_with_fuel(furthest, 2);
    if n > 1 {
        if i < n - 1 {
            law_furthest_is_latest(n_bits, poc, refs, n - 1, i);
        } else {
            law_furthest_is_latest(n_bits, poc, refs, n - 1, 0);
        }
    }
}

/// What is kept of a reference for each unit can be used by a frame with as
/// many units.
pub open spec fn same_units(f: RefFrame, coded_w: int, h: int) -> bool {
    units_of(coded_w) == units_of(f.width as int) && units_of(h) == units_of(f.height as int)
}

pub fn has_same_units(f: &RefFrame, coded_w: i32, h: i32) -> (r: bool)
    requires
        f.valid(),
        0 <= coded_w <= 0x100_0000,
        0 <= h <= 0x100_0000,
    ensures
        r == same_units(*f, coded_w as int, h as int),
{
    (coded_w + 7) / 8 == (f.width + 7) / 8 && (h + 7) / 8 == (f.height + 7) / 8
}

/// The second reference of blocks that skip all syntax: the second one only
/// where it is about as near as the first.
pub open spec fn skip_mode_second(enabled: bool, n_refs: int, absrefdist: [u8; 7]) -> int {
    b2i(enabled && n_refs > 1 && abs(absrefdist[0] - absrefdist[1]) <= 1)
}

pub fn find_skip_mode_refs(enabled: bool, n_ref_frames: u8, absrefdist: &[u8; 7]) -> (r: RefPair)
    ensures
        r.r[0] == 0,
        r.r[1] == skip_mode_second(enabled, n_ref_frames as int, *absrefdist),
{
    let d: i32 = absrefdist[0] as i32 - absrefdist[1] as i32;
    let second: i8 = if enabled && n_ref_frames > 1 && -1 <= d && d <= 1 { 1 } else { 0 };
    RefPair { r: [0, second] }
}

/// Where a frame takes its segment map from an earlier one.
pub open spec fn takes_segmap(enabled: bool, temporal: bool, update_map: bool) -> bool {
    enabled && (temporal || !update_map)
}

/// Whether a frame takes over the segment map of its primary reference: it
/// must use it, and the reference must have as many units.
pub fn is_segmap_taken(
    enabled: bool,
    temporal: bool,
    update_map: bool,
    f: &RefFrame,
    coded_w: i32,
    h: i32,
) -> (r: bool)
    requires
        f.valid(),
        0 <= coded_w <= 0x100_0000,
        0 <= h <= 0x100_0000,
    ensures
        r == (takes_segmap(enabled, temporal, update_map) && same_units(
            *f,
            coded_w as int,
            h as int,
        )),
{
    enabled && (temporal || !update_map) && has_same_units(f, coded_w, h)
}

/// What later frames can refer to: what is known of a picture, and the numbers
/// under which the picture, its distributions, its segment map, its motion and
/// its cross-component map are kept; and the places of its own references in
/// output order.
#[derive(Debug, Clone, Copy, PartialEq, Eq)]
pub struct RefSlot {
    pub pic: Option<RefPicture>,
    pub picture: Option<u64>,
    pub showable: bool,
    pub cdf: Option<u64>,
    pub segmap: Option<u64>,
    pub refmvs: Option<u64>,
    pub ccsomap: Option<u64>,
    pub refpoc: [u8; 7],
}

impl RefSlot {
    /// Nothing is left that a frame could refer to.
    pub open spec fn is_empty(self) -> bool {
        &&& self.pic is None
        &&& self.picture is None
        &&& !self.showable
        &&& self.cdf is None
        &&& self.segmap is None
        &&& self.refmvs is None
        &&& self.ccsomap is None
        &&& forall|i: int| 0 <= i < 7 ==> #[trigger] self.refpoc[i] == 0
    }

    /// A slot that nothing was put into.
    pub fn new() -> (r: Self)
        ensures
            r.is_empty(),
    {
        RefSlot {
            pic: None,
            picture: None,
            showable: false,
            cdf: None,
            segmap: None,
            refmvs: None,
            ccsomap: None,
            refpoc: [0; 7],
        }
    }
}

/// What a decoded frame has to leave.
pub struct FrameResult {
    pub pic: RefPicture,
    pub picture: u64,
    pub show_immediate: bool,
    /// The distributions that the frame started with, and those it ended with.
    pub in_cdf: Option<u64>,
    pub out_cdf: Option<u64>,
    pub disable_cdf_update: bool,
    pub cur_segmap: Option<u64>,
    pub prev_segmap: Option<u64>,
    pub update_map: bool,
    pub is_inter_or_switch: bool,
    pub refmvs: Option<u64>,
    pub ccsomap: Option<u64>,
    pub refpoc: [u8; 7],
}

/// A slot after the frame was put in it. A frame without motion leaves the
/// motion of the slot as it is.
pub open spec fn refreshed(before: RefSlot, f: FrameResult) -> RefSlot {
    RefSlot {
        pic: Some(f.pic),
        picture: Some(f.picture),
        showable: !f.show_immediate,
        cdf: if f.disable_cdf_update { f.in_cdf } else { f.out_cdf },
        segmap: if f.update_map { f.cur_segmap } else { f.prev_segmap },
        refmvs: if f.is_inter_or_switch { f.refmvs } else { before.refmvs },
        ccsomap: f.ccsomap,
        refpoc: f.refpoc,
    }
}

/// Puts a decoded frame in the slots that its flags name.
pub fn refresh_refs(refs: &mut [RefSlot; 8], flags: u8, f: &FrameResult)
    ensures
        forall|i: int|
            0 <= i < 8 ==> #[trigger] final(refs)[i] == (if bit_of(flags as int, i) {
                refreshed(old(refs)[i], *f)
            } else {
                old(refs)[i]
            }),
{
    let ghost r0 = *refs;
    let mut i: usize = 0;
    while i < 8
        invariant
            i <= 8,
            forall|k: int|
                0 <= k < 8 ==> #[trigger] refs[k] == (if k < i && bit_of(flags as int, k) {
                    refreshed(r0[k], *f)
                } else {
                    r0[k]
                }),
        decreases 8 - i,
    {
        if bit_set(flags as u32, i as u32) {
            let before: RefSlot = refs[i];
            refs[i] = RefSlot {
                pic: Some(f.pic),
                picture: Some(f.picture),
                showable: !f.show_immediate,
                cdf: if f.disable_cdf_update { f.in_cdf } else { f.out_cdf },
                segmap: if f.update_map { f.cur_segmap } else { f.prev_segmap },
                refmvs: if f.is_inter_or_switch { f.refmvs } else { before.refmvs },
                ccsomap: f.ccsomap,
                refpoc: f.refpoc,
            };
        }
        i = i + 1;
    }
}

/// A ratio of sizes in 16384ths is the nearest one; the step between lines is
/// a sixteenth of it, to the nearest.
pub proof fn law_scale_is_the_nearest_ratio(ref_sz: int, this_sz: int)
    requires
        1 <= ref_sz <= 0x1_0000,
        1 <= this_sz <= 0x1_0000,
        ref_sz <= 2 * this_sz,
    ensures
        ({
            let r = ref_scale(false, ref_sz, this_sz);
            &&& -this_sz <= 2 * (r.scale * this_sz - 0x4000 * ref_sz) <= this_sz
            &&& -8 <= 16 * r.step - r.scale <= 8
        }),
        ref_scale(true, ref_sz, this_sz).scale == 0,
        size_ratio(this_sz, this_sz) == 0x4000,
{
    let n = ref_sz * 0x4000 + this_sz / 2;
    let q = n / this_sz;
    vstd::arithmetic::div_mod::lemma_fundamental_div_mod(n, this_sz);
    assert(this_sz * q == q * this_sz) by (nonlinear_arith);
    assert(0 <= q <= 0x1_0000) by (nonlinear_arith)
        requires
            n == this_sz * q + n % this_sz,
            0 <= n % this_sz < this_sz,
            0 <= n,
            n <= this_sz * 0x8001,
            this_sz >= 1,
    ;
    vstd::arithmetic::div_mod::lemma_fundamental_div_mod_converse(
        this_sz * 0x4000 + this_sz / 2,
        this_sz,
        0x4000,
        this_sz / 2,
    );
}

/// The distance of a reference is positive where it comes after the frame in
/// output order and negative where it comes before.
pub proof fn law_later_references_are_ahead(n_bits: int, poc: int, ref_poc: int)
    requires
        1 <= n_bits <= 8,
        -p2(n_bits - 1) <= ref_poc - poc < p2(n_bits - 1),
    ensures
        ref_distance(n_bits, poc, ref_poc) == ref_poc - poc,
{
    crate::env::law_poc_diff_near(n_bits, ref_poc, poc);
}

/// Distances, their magnitudes and directions go together.
pub proof fn law_directions_are_the_signs(
    n_bits: int,
    poc: int,
    refs: [i32; 7],
    r: RefDistances,
    i: int,
)
    requires
        distances(n_bits, poc, refs, r),
        0 <= i < 7,
    ensures
        r.refdir[i] == 1 <==> r.refdist[i] > 0,
        r.refdir[i] == 0 <==> r.refdist[i] <= 0,
        r.refdist[i] >= 0 ==> r.absrefdist[i] == r.refdist[i],
        r.refdist[i] < 0 ==> r.absrefdist[i] == -r.refdist[i],
        r.refdist[i] == ref_distance(n_bits, poc, refs[i] as int),
{
    assert(r.refdir[i] == b2i(ref_distance(n_bits, poc, refs[i] as int) > 0));
    assert(r.absrefdist[i] == abs(ref_distance(n_bits, poc, refs[i] as int)));
    assert(r.refdist[i] == ref_distance(n_bits, poc, refs[i] as int));
}

/// A picture can be referred to exactly where it has the format of the frame
/// and neither side is more than twice or less than a sixteenth of the frame's.
pub proof fn law_usable_references_are_near_in_size(f: RefFrame, p: RefPicture)
    requires
        f.valid(),
    ensures
        ref_usable(f, p) ==> f.layout == p.layout && f.bpc == p.bpc,
        p.w == f.width && p.h == f.height && p.layout == f.layout && p.bpc == f.bpc ==> ref_usable(
            f,
            p,
        ),
        p.w > 2 * f.width || p.h > 2 * f.height ==> !ref_usable(f, p),
        16 * p.w < f.width || 16 * p.h < f.height ==> !ref_usable(f, p),
        p.w == 2 * f.width && p.h == f.height && p.layout == f.layout && p.bpc == f.bpc
            ==> ref_usable(f, p),
        16 * p.w == f.width && p.h == f.height && p.layout == f.layout && p.bpc == f.bpc
            ==> ref_usable(f, p),
{
}

/// Each direction is scaled by its own ratio.
pub proof fn law_directions_have_their_own_scale(f: RefFrame, p: RefPicture)
    requires
        f.valid(),
        p.w != f.width || p.h != f.height,
    ensures
        ref_use(f, p).pic == p,
        ref_use(f, p).hor == ref_scale(false, p.w as int, f.width as int),
        ref_use(f, p).ver == ref_scale(false, p.h as int, f.height as int),
{
}

/// The references of skip mode, where a segment map comes from, and where
/// global motion may warp.
pub proof fn law_frame_choices(
    enabled: bool,
    n: int,
    d: [u8; 7],
    temporal: bool,
    update: bool,
    k: WarpedMotionType,
    whole: bool,
    shears: bool,
    scale: int,
)
    ensures
        skip_mode_second(enabled, n, d) == 1 <==> enabled && n >= 2 && -1 <= d[0] - d[1] <= 1,
        skip_mode_second(enabled, n, d) == 0 <==> !(enabled && n >= 2 && -1 <= d[0] - d[1] <= 1),
        takes_segmap(false, temporal, update) == false,
        takes_segmap(true, temporal, update) <==> temporal || !update,
        global_warp_allowed(k, whole, shears, scale) ==> !whole && shears && scale == 0,
        global_warp_allowed(WarpedMotionType::RotZoom, false, true, 0),
        global_warp_allowed(WarpedMotionType::Affine, false, true, 0),
        !global_warp_allowed(WarpedMotionType::Translation, whole, shears, scale),
        !global_warp_allowed(WarpedMotionType::Identity, whole, shears, scale),
{
}

/// What a frame leaves in a slot.
pub proof fn law_refreshed_slots_hold_the_frame(before: RefSlot, f: FrameResult)
    ensures
        ({
            let r = refreshed(before, f);
            &&& r.pic == Some(f.pic) && r.picture == Some(f.picture)
            &&& r.showable == !f.show_immediate
            &&& f.disable_cdf_update ==> r.cdf == f.in_cdf
            &&& !f.disable_cdf_update ==> r.cdf == f.out_cdf
            &&& f.update_map ==> r.segmap == f.cur_segmap
            &&& !f.update_map ==> r.segmap == f.prev_segmap
            &&& f.is_inter_or_switch ==> r.refmvs == f.refmvs
            &&& !f.is_inter_or_switch ==> r.refmvs == before.refmvs
            &&& r.ccsomap == f.ccsomap && r.refpoc == f.refpoc
        }),
{
}

} // verus!
