//! What a frame takes from its headers and from earlier frames before its tiles
//! are decoded.
use vstd::prelude::*;

use crate::error::{Rav2dError, Result};
use crate::framegeom::{frame_geometry, geometry, FrameGeometry};
use crate::headers::{FrameHeader, SequenceHeader};
use crate::intops::b2i;
use crate::levels::RefPair;
use crate::refsetup::{
    distances, find_distances, find_skip_mode_refs, global_warp_allowed, has_same_units,
    is_global_warp_allowed, is_segmap_taken, ref_use, same_units, setup_refs, skip_mode_second,
    slot_usable, takes_segmap, RefDistances, RefFrame, RefPicture, RefSlot, RefUse,
};

verus! {

/// What is derived from the headers of a frame elsewhere.
#[derive(Debug, Clone, Copy)]
pub struct FrameDerived {
    /// Whether the global motions split into shears.
    pub shears: [bool; 7],
    /// The references that motion is interpolated between.
    pub tip: RefPair,
    /// The class of quantizers that default distributions are for.
    pub qcat: usize,
    /// The size in units of the area that vectors may point into.
    pub iw4: i32,
    pub ih4: i32,
}

/// A frame that is about to be decoded.
pub struct FrameRequest<'a> {
    pub seq: &'a SequenceHeader,
    pub hdr: &'a FrameHeader,
    pub derived: FrameDerived,
}

impl<'a> FrameRequest<'a> {
    pub open spec fn frame(self) -> RefFrame {
        RefFrame {
            width: self.hdr.width,
            height: self.hdr.height,
            layout: self.seq.layout,
            bpc: (8 + 2 * self.seq.hbd) as i32,
        }
    }

    pub open spec fn geometry(self) -> FrameGeometry {
        geometry(
            self.hdr.width as int,
            self.hdr.height as int,
            self.hdr.sb128 as int,
            self.seq.layout,
            self.seq.hbd as int,
        )
    }

    pub open spec fn inter(self) -> bool {
        self.hdr.frame_type.inter_or_switch()
    }

    /// The reference that state is carried over from.
    pub open spec fn primary(self) -> int {
        self.hdr.refidx[self.hdr.primary_ref_frame->Some_0 as int] as int
    }

    pub open spec fn takes_map(self) -> bool {
        takes_segmap(
            self.hdr.segmentation.enabled != 0,
            self.hdr.segmentation.temporal != 0,
            self.hdr.segmentation.update_map != 0,
        )
    }

    pub open spec fn valid(self, slots: Seq<Option<RefPicture>>) -> bool {
        &&& self.frame().valid()
        &&& self.hdr.sb128 <= 2
        &&& self.seq.hbd <= 2
        &&& forall|i: int| 0 <= i < 7 ==> #[trigger] self.hdr.refidx[i] < 8
        &&& self.hdr.primary_ref_frame matches Some(k) ==> k < 7
        &&& self.takes_map() ==> self.hdr.primary_ref_frame is Some
        &&& forall|i: int|
            0 <= i < 8 ==> ((#[trigger] slots[i]) matches Some(p) ==> 0 <= p.coded_w <= 0x100_0000
                && 0 <= p.h <= 0x100_0000 && 0 <= p.frame_offset <= 0xff)
        &&& self.inter() ==> self.seq.order_hint_n_bits <= 8 && 0 <= self.hdr.frame_offset <= 0xff
            && forall|i: int|
            0 <= i < 8 ==> ((#[trigger] slots[i]) matches Some(p) ==> -127
                <= crate::refsetup::ref_distance(
                self.seq.order_hint_n_bits as int,
                self.hdr.frame_offset as int,
                p.frame_offset as int,
            ) <= 127)
    }
}

/// What a frame needs before its tiles can be decoded. The state of earlier
/// frames is given by number.
pub struct FramePlan {
    pub geometry: FrameGeometry,
    /// The references of an inter frame, and where they lie in output order.
    pub refs: Vec<RefUse>,
    pub distances: Option<RefDistances>,
    /// Whether global motion may warp blocks.
    pub global_warp: [bool; 7],
    pub in_cdf: Option<u64>,
    pub ref_mvs: [Option<u64>; 7],
    pub prev_segmap: Option<u64>,
    pub skip_mode_refs: RefPair,
}

/// The references of a frame, all of which must be usable.
pub open spec fn refs_planned(
    q: FrameRequest,
    slots: Seq<Option<RefPicture>>,
    kept: [RefSlot; 8],
    r: FramePlan,
) -> bool {
    if q.inter() {
        &&& r.refs@.len() == 7
        &&& forall|i: int|
            0 <= i < 7 ==> #[trigger] r.refs@[i] == ref_use(
                q.frame(),
                slots[q.hdr.refidx[i] as int]->Some_0,
            )
        &&& forall|i: int|
            0 <= i < 7 ==> #[trigger] r.global_warp[i] == global_warp_allowed(
                q.hdr.gmv.m[i].wm_type,
                q.hdr.force_integer_mv != 0,
                q.derived.shears[i],
                r.refs@[i].hor.scale as int,
            )
        &&& r.distances matches Some(d) && exists|pocs: [i32; 7]|
            #[trigger] offsets_of(r.refs@, pocs) && distances(
                q.seq.order_hint_n_bits as int,
                q.hdr.frame_offset as int,
                pocs,
                d,
            )
        &&& forall|i: int|
            0 <= i < 7 ==> #[trigger] r.ref_mvs[i] == (if q.hdr.use_ref_frame_mvs != 0 && same_units(
                q.frame(),
                r.refs@[i].pic.coded_w as int,
                r.refs@[i].pic.h as int,
            ) {
                kept[q.hdr.refidx[i] as int].refmvs
            } else {
                None
            })
    } else {
        &&& r.refs@.len() == 0
        &&& r.distances is None
        &&& forall|i: int| 0 <= i < 7 ==> !(#[trigger] r.global_warp[i])
        &&& forall|i: int| 0 <= i < 7 ==> (#[trigger] r.ref_mvs[i]) is None
    }
}

/// The places of the references in output order.
pub open spec fn offsets_of(refs: Seq<RefUse>, pocs: [i32; 7]) -> bool {
    forall|i: int| 0 <= i < 7 ==> #[trigger] pocs[i] == refs[i].pic.frame_offset
}

/// What is carried over from the primary reference: its distributions, and its
/// segment map where the frame uses it and has as many units.
pub open spec fn state_planned(q: FrameRequest, kept: [RefSlot; 8], r: FramePlan) -> bool {
    &&& r.in_cdf == (match q.hdr.primary_ref_frame {
        None => None,
        Some(_) => kept[q.primary()].cdf,
    })
    &&& r.prev_segmap == (if q.takes_map() && q.inter() && same_units(
        q.frame(),
        r.refs@[q.hdr.primary_ref_frame->Some_0 as int].pic.coded_w as int,
        r.refs@[q.hdr.primary_ref_frame->Some_0 as int].pic.h as int,
    ) {
        kept[q.primary()].segmap
    } else {
        None
    })
}

/// The references of blocks that skip all syntax. Frames without references
/// take all of them to be equally near.
pub open spec fn skip_planned(q: FrameRequest, r: FramePlan) -> bool {
    let enabled = q.hdr.skip_mode_enabled != 0;
    &&& r.skip_mode_refs.r[0] == 0
    &&& r.skip_mode_refs.r[1] == (match r.distances {
        Some(d) => skip_mode_second(enabled, q.hdr.n_ref_frames as int, d.absrefdist),
        None => b2i(enabled && q.hdr.n_ref_frames > 1),
    })
}

fn plan_motion(
    q: &FrameRequest,
    kept: &[RefSlot; 8],
    refs: &Vec<RefUse>,
    Ghost(slots): Ghost<Seq<Option<RefPicture>>>,
) -> (r: [Option<u64>; 7])
    requires
        q.valid(slots),
        refs@.len() == 7,
        forall|i: int|
            0 <= i < 7 ==> slot_usable(q.frame(), slots[#[trigger] q.hdr.refidx[i] as int]),
        forall|i: int|
            0 <= i < 7 ==> #[trigger] refs@[i] == ref_use(
                q.frame(),
                slots[q.hdr.refidx[i] as int]->Some_0,
            ),
    ensures
        forall|i: int|
            0 <= i < 7 ==> #[trigger] r[i] == (if q.hdr.use_ref_frame_mvs != 0 && same_units(
                q.frame(),
                refs@[i].pic.coded_w as int,
                refs@[i].pic.h as int,
            ) {
                kept[q.hdr.refidx[i] as int].refmvs
            } else {
                None
            }),
{
    let f: RefFrame = RefFrame {
        width: q.hdr.width,
        height: q.hdr.height,
        layout: q.seq.layout,
        bpc: 8 + 2 * q.seq.hbd as i32,
    };
    let mut r: [Option<u64>; 7] = [None; 7];
    let mut i: usize = 0;
    while i < 7
        invariant
            i <= 7,
            f == q.frame(),
            q.valid(slots),
            refs@.len() == 7,
            forall|i: int|
                0 <= i < 7 ==> slot_usable(q.frame(), slots[#[trigger] q.hdr.refidx[i] as int]),
            forall|i: int|
                0 <= i < 7 ==> #[trigger] refs@[i] == ref_use(
                    q.frame(),
                    slots[q.hdr.refidx[i] as int]->Some_0,
                ),
            forall|k: int| i <= k < 7 ==> (#[trigger] r[k]) is None,
            forall|k: int|
                0 <= k < i ==> #[trigger] r[k] == (if q.hdr.use_ref_frame_mvs != 0 && same_units(
                    q.frame(),
                    refs@[k].pic.coded_w as int,
                    refs@[k].pic.h as int,
                ) {
                    kept[q.hdr.refidx[k] as int].refmvs
                } else {
                    None
                }),
        decreases 7 - i,
    {
        let p: RefPicture = refs[i].pic;
        let k: usize = q.hdr.refidx[i] as usize;
        assert(k < 8);
        assert(slot_usable(q.frame(), slots[q.hdr.refidx[i as int] as int]));
        assert(refs@[i as int] == ref_use(q.frame(), slots[k as int]->Some_0));
        assert(slots[k as int] == Some(p));
        if q.hdr.use_ref_frame_mvs != 0 && has_same_units(&f, p.coded_w, p.h) {
            r[i] = kept[k].refmvs;
        }
        i = i + 1;
    }
    r
}

fn plan_warps(q: &FrameRequest, refs: &Vec<RefUse>) -> (r: [bool; 7])
    requires
        refs@.len() == 7,
    ensures
        forall|i: int|
            0 <= i < 7 ==> #[trigger] r[i] == global_warp_allowed(
                q.hdr.gmv.m[i].wm_type,
                q.hdr.force_integer_mv != 0,
                q.derived.shears[i],
                refs@[i].hor.scale as int,
            ),
{
    let mut r: [bool; 7] = [false; 7];
    let mut i: usize = 0;
    while i < 7
        invariant
            i <= 7,
            refs@.len() == 7,
            forall|k: int|
                0 <= k < i ==> #[trigger] r[k] == global_warp_allowed(
                    q.hdr.gmv.m[k].wm_type,
                    q.hdr.force_integer_mv != 0,
                    q.derived.shears[k],
                    refs@[k].hor.scale as int,
                ),
        decreases 7 - i,
    {
        r[i] = is_global_warp_allowed(
            q.hdr.gmv.m[i].wm_type,
            q.hdr.force_integer_mv != 0,
            q.derived.shears[i],
            refs[i].hor.scale,
        );
        i = i + 1;
    }
    r
}

/// The pictures that the slots hold.
pub open spec fn pictures(refs: [RefSlot; 8]) -> Seq<Option<RefPicture>> {
    Seq::new(8, |i: int| refs[i].pic)
}

fn list_pictures(refs: &[RefSlot; 8]) -> (r: [Option<RefPicture>; 8])
    ensures
        r@ == pictures(*refs),
{
    let r: [Option<RefPicture>; 8] = [
        refs[0].pic,
        refs[1].pic,
        refs[2].pic,
        refs[3].pic,
        refs[4].pic,
        refs[5].pic,
        refs[6].pic,
        refs[7].pic,
    ];
    assert(r@ =~= pictures(*refs));
    r
}

/// Every reference of an inter frame has a picture of its format and of a
/// supported size.
pub open spec fn refs_usable(q: FrameRequest, kept: [RefSlot; 8]) -> bool {
    q.inter() ==> forall|i: int|
        0 <= i < 7 ==> slot_usable(q.frame(), pictures(kept)[#[trigger] q.hdr.refidx[i] as int])
}

/// `p` is the plan of the frame.
pub open spec fn frame_planned(q: FrameRequest, kept: [RefSlot; 8], p: FramePlan) -> bool {
    &&& refs_usable(q, kept)
    &&& p.geometry == q.geometry()
    &&& refs_planned(q, pictures(kept), kept, p)
    &&& state_planned(q, kept, p)
    &&& skip_planned(q, p)
}

/// Plans a frame: derives its geometry, looks up its references, and takes
/// what is carried over from earlier frames. Fails where a reference of an
/// inter frame cannot be used.
pub fn plan_frame(q: &FrameRequest, kept: &[RefSlot; 8]) -> (r: Result<FramePlan>)
    requires
        q.valid(pictures(*kept)),
    ensures
        r is Ok <==> refs_usable(*q, *kept),
        r is Err ==> r->Err_0 == Rav2dError::InvalidData,
        r matches Ok(p) ==> frame_planned(*q, *kept, p),
{
    let f: RefFrame = RefFrame {
        width: q.hdr.width,
        height: q.hdr.height,
        layout: q.seq.layout,
        bpc: 8 + 2 * q.seq.hbd as i32,
    };
    let g: FrameGeometry = frame_geometry(q.hdr, q.seq.layout, q.seq.hbd);
    let mut in_cdf: Option<u64> = None;
    if let Some(k) = q.hdr.primary_ref_frame {
        assert(q.hdr.refidx[k as int] < 8);
        in_cdf = kept[q.hdr.refidx[k as usize] as usize].cdf;
    }
    if !q.hdr.is_inter_or_switch() {
        let none: [u8; 7] = [0; 7];
        let skip: RefPair = find_skip_mode_refs(
            q.hdr.skip_mode_enabled != 0,
            q.hdr.n_ref_frames,
            &none,
        );
        return Ok(
            FramePlan {
                geometry: g,
                refs: Vec::new(),
                distances: None,
                global_warp: [false; 7],
                in_cdf,
                ref_mvs: [None; 7],
                prev_segmap: None,
                skip_mode_refs: skip,
            },
        );
    }
    let slots: [Option<RefPicture>; 8] = list_pictures(kept);
    let refs: Vec<RefUse> = match setup_refs(&f, &slots, &q.hdr.refidx) {
        Ok(v) => v,
        Err(e) => {
            return Err(e);
        },
    };
    let global_warp: [bool; 7] = plan_warps(q, &refs);
    let ref_mvs: [Option<u64>; 7] = plan_motion(q, kept, &refs, Ghost(slots@));
    proof {
        assert forall|i: int| 0 <= i < 7 implies slots[q.hdr.refidx[i] as int] == Some(
            (#[trigger] refs@[i]).pic,
        ) by {
            assert(slot_usable(q.frame(), slots[q.hdr.refidx[i] as int]));
        }
    }
    let pocs: [i32; 7] = [
        refs[0].pic.frame_offset,
        refs[1].pic.frame_offset,
        refs[2].pic.frame_offset,
        refs[3].pic.frame_offset,
        refs[4].pic.frame_offset,
        refs[5].pic.frame_offset,
        refs[6].pic.frame_offset,
    ];
    assert(offsets_of(refs@, pocs));
    proof {
        assert forall|i: int| 0 <= i < 7 implies 0 <= #[trigger] pocs[i] <= 0xff && -128
            <= crate::refsetup::ref_distance(
            q.seq.order_hint_n_bits as int,
            q.hdr.frame_offset as int,
            pocs[i] as int,
        ) <= 127 by {
            assert(slots[q.hdr.refidx[i] as int] == Some(refs@[i].pic));
        }
    }
    let d: RefDistances = find_distances(q.seq.order_hint_n_bits as i32, q.hdr.frame_offset, &pocs);
    let mut prev_segmap: Option<u64> = None;
    if let Some(k) = q.hdr.primary_ref_frame {
        let p: RefPicture = refs[k as usize].pic;
        assert(q.hdr.refidx[k as int] < 8);
        assert(slots[q.hdr.refidx[k as int] as int] == Some(p));
        if is_segmap_taken(
            q.hdr.segmentation.enabled != 0,
            q.hdr.segmentation.temporal != 0,
            q.hdr.segmentation.update_map != 0,
            &f,
            p.coded_w,
            p.h,
        ) {
            prev_segmap = kept[q.hdr.refidx[k as usize] as usize].segmap;
        }
    }
    let skip: RefPair = find_skip_mode_refs(
        q.hdr.skip_mode_enabled != 0,
        q.hdr.n_ref_frames,
        &d.absrefdist,
    );
    Ok(
        FramePlan {
            geometry: g,
            refs,
            distances: Some(d),
            global_warp,
            in_cdf,
            ref_mvs,
            prev_segmap,
            skip_mode_refs: skip,
        },
    )
}

/// A frame takes over distributions, and a segment map where it uses that of a
/// frame of as many units, from the slot of its primary reference; without one
/// it takes over nothing.
pub proof fn law_state_comes_from_the_primary_reference(
    q: FrameRequest,
    kept: [RefSlot; 8],
    p: FramePlan,
)
    requires
        frame_planned(q, kept, p),
    ensures
        q.hdr.primary_ref_frame is None ==> p.in_cdf is None,
        q.hdr.primary_ref_frame matches Some(k) ==> p.in_cdf == kept[q.hdr.refidx[k as int] as int].cdf,
        !q.inter() ==> p.prev_segmap is None,
        q.hdr.segmentation.enabled == 0 ==> p.prev_segmap is None,
        q.hdr.primary_ref_frame matches Some(k) ==> (p.prev_segmap is Some ==> p.prev_segmap
            == kept[q.hdr.refidx[k as int] as int].segmap),
        p.skip_mode_refs.r[0] == 0,
        q.hdr.skip_mode_enabled == 0 && !q.inter() ==> p.skip_mode_refs.r[1] == 0,
{
}

/// Each reference of an inter frame is the picture of the slot that the header
/// names for it, with its motion where the frame uses that of others; frames
/// of the same size are not scaled.
pub proof fn law_references_are_those_of_the_header(
    q: FrameRequest,
    kept: [RefSlot; 8],
    p: FramePlan,
    i: int,
)
    requires
        frame_planned(q, kept, p),
        0 <= i < 7,
        q.hdr.refidx[i] < 8,
    ensures
        q.inter() ==> kept[q.hdr.refidx[i] as int].pic == Some(p.refs@[i].pic),
        q.inter() ==> (p.ref_mvs[i] is Some ==> q.hdr.use_ref_frame_mvs != 0 && p.ref_mvs[i]
            == kept[q.hdr.refidx[i] as int].refmvs),
        !q.inter() ==> p.refs@.len() == 0 && p.ref_mvs[i] is None && !p.global_warp[i],
        q.hdr.force_integer_mv != 0 ==> !p.global_warp[i],
{
    if q.inter() {
        assert(p.refs@[i] == ref_use(q.frame(), pictures(kept)[q.hdr.refidx[i] as int]->Some_0));
        assert(slot_usable(q.frame(), pictures(kept)[q.hdr.refidx[i] as int]));
        assert(p.global_warp[i] == global_warp_allowed(
            q.hdr.gmv.m[i].wm_type,
            q.hdr.force_integer_mv != 0,
            q.derived.shears[i],
            p.refs@[i].hor.scale as int,
        ));
        assert(p.ref_mvs[i] == p.ref_mvs[i]);
    }
}

} // verus!
