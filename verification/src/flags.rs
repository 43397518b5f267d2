//! The flags at the head of a block: whether it is skipped, and whether it is
//! predicted from its own frame.
use vstd::prelude::*;

use crate::block::{nb_sum, pick_u8, picked_u8, sum_neighbours};
use crate::block::{NbPos, SbNb, TileNb};
use crate::env::BlockContext;
use crate::frameinfo::SbFrameInfo;
use crate::intops::{b2i, bit_of, bit_set, min};
use crate::levels::BlockSize;
use crate::msac::{Cdf, MsacContext, Request, Sym};

verus! {

/// Whether the segment fixes the motion of its blocks or skips them.
pub open spec fn seg_fixed(fi: SbFrameInfo, seg_id: int) -> bool {
    bit_of(fi.seg_globalmv_mask as int, seg_id) || bit_of(fi.seg_skip_mask as int, seg_id)
}

pub fn is_seg_fixed(fi: &SbFrameInfo, seg_id: u8) -> (r: bool)
    requires
        seg_id < 16,
    ensures
        r == seg_fixed(*fi, seg_id as int),
{
    bit_set(fi.seg_globalmv_mask as u32, seg_id as u32) || bit_set(
        fi.seg_skip_mask as u32,
        seg_id as u32,
    )
}

/// What both neighbours across superblocks hold, added up.
pub open spec fn nx_sum(a: [u8; 64], l: [u8; 64], nx: TileNb) -> int {
    picked_u8(a, l, nx.p0) + picked_u8(a, l, nx.p1)
}

pub fn sum_tile_neighbours(a: &[u8; 64], l: &[u8; 64], nx: &TileNb) -> (r: usize)
    requires
        nx.p0.off < 64,
        nx.p1.off < 64,
    ensures
        r == nx_sum(*a, *l, *nx),
{
    pick_u8(a, l, &nx.p0) as usize + pick_u8(a, l, &nx.p1) as usize
}

/// Whether a block is coded in skip mode.
pub open spec fn skip_mode_flag(
    s: Sym,
    fi: SbFrameInfo,
    bs: BlockSize,
    seg_id: int,
    intra_region: bool,
    a: BlockContext,
    l: BlockContext,
    nx: TileNb,
) -> (int, Sym) {
    if !seg_fixed(fi, seg_id) && fi.skip_mode_enabled && bs.w4() * bs.h4() > 2 && !intra_region {
        s.flag(Cdf::SkipMode(nx_sum(a.skip_mode, l.skip_mode, nx) as usize))
    } else {
        (0, s)
    }
}

pub fn read_skip_mode(
    fi: &SbFrameInfo,
    bs: BlockSize,
    seg_id: u8,
    intra_region: bool,
    a: &BlockContext,
    l: &BlockContext,
    nx: &TileNb,
    msac: &mut MsacContext,
) -> (r: u8)
    requires
        bs != BlockSize::Invalid,
        seg_id < 16,
        nx.p0.off < 64,
        nx.p1.off < 64,
    ensures
        (r as int, final(msac)@) == skip_mode_flag(
            old(msac)@,
            *fi,
            bs,
            seg_id as int,
            intra_region,
            *a,
            *l,
            *nx,
        ),
        r <= 1,
{
    if !is_seg_fixed(fi, seg_id) && fi.skip_mode_enabled && bs.area() > 2 && !intra_region {
        let ctx: usize = sum_tile_neighbours(&a.skip_mode, &l.skip_mode, nx);
        msac.decode_bool_adapt(Cdf::SkipMode(ctx)) as u8
    } else {
        0
    }
}

/// Whether the neighbour at `p` is predicted from its edges.
pub open spec fn from_edges(a: BlockContext, l: BlockContext, p: NbPos) -> int {
    b2i(picked_u8(a.intra, l.intra, p) != 0 && picked_u8(a.intrabc, l.intrabc, p) == 0)
}

fn is_from_edges(a: &BlockContext, l: &BlockContext, p: &NbPos) -> (r: usize)
    requires
        p.off < 64,
    ensures
        r == from_edges(*a, *l, *p),
{
    if pick_u8(&a.intra, &l.intra, p) != 0 && pick_u8(&a.intrabc, &l.intrabc, p) == 0 {
        1
    } else {
        0
    }
}

/// How many neighbours are predicted from their edges, with one more where all
/// of them are.
pub open spec fn intra_flag_ctx(a: BlockContext, l: BlockContext, nx: TileNb) -> int {
    if nx.n == 0 {
        0
    } else {
        let sum = from_edges(a, l, nx.p0) + from_edges(a, l, if nx.n >= 2 { nx.p1 } else { nx.p0 });
        sum + b2i(sum == nx.n)
    }
}

/// Whether a block is predicted from its own frame.
pub open spec fn intra_flag(
    s: Sym,
    fi: SbFrameInfo,
    lbs: BlockSize,
    cbs: BlockSize,
    skip_mode: bool,
    intra_region: bool,
    a: BlockContext,
    l: BlockContext,
    nx: TileNb,
) -> (int, Sym) {
    if skip_mode {
        (0, s)
    } else if !fi.is_inter_or_switch || intra_region {
        (1, s)
    } else if fi.has_chroma_layout && lbs != cbs {
        (0, s)
    } else {
        let (inter, s) = s.flag(Cdf::Intra(intra_flag_ctx(a, l, nx) as usize));
        (1 - inter, s)
    }
}

pub fn read_is_intra(
    fi: &SbFrameInfo,
    lbs: BlockSize,
    cbs: BlockSize,
    skip_mode: bool,
    intra_region: bool,
    a: &BlockContext,
    l: &BlockContext,
    nx: &TileNb,
    msac: &mut MsacContext,
) -> (r: u8)
    requires
        nx.p0.off < 64,
        nx.p1.off < 64,
        nx.n <= 2,
    ensures
        (r as int, final(msac)@) == intra_flag(
            old(msac)@,
            *fi,
            lbs,
            cbs,
            skip_mode,
            intra_region,
            *a,
            *l,
            *nx,
        ),
        r <= 1,
{
    if skip_mode {
        0
    } else if !fi.is_inter_or_switch || intra_region {
        1
    } else if fi.has_chroma_layout && lbs != cbs {
        0
    } else {
        let ctx: usize = if nx.n == 0 {
            0
        } else {
            let last: NbPos = if nx.n >= 2 { nx.p1 } else { nx.p0 };
            let sum: usize = is_from_edges(a, l, &nx.p0) + is_from_edges(a, l, &last);
            if sum == nx.n { sum + 1 } else { sum }
        };
        1 - msac.decode_bool_adapt(Cdf::Intra(ctx)) as u8
    }
}

/// Whether a block is copied from its own frame.
pub open spec fn intrabc_flag(
    s: Sym,
    fi: SbFrameInfo,
    bs: BlockSize,
    has_luma: bool,
    is_intra: bool,
    intra_region: bool,
    a: BlockContext,
    l: BlockContext,
    nb: SbNb,
) -> (int, Sym) {
    if has_luma && fi.allow_intrabc && min(bs.w4(), bs.h4()) < 16 && is_intra && !intra_region {
        s.flag(Cdf::IntraBc(nb_sum(a.intrabc, l.intrabc, nb) as usize))
    } else {
        (0, s)
    }
}

pub fn read_intrabc_flag(
    fi: &SbFrameInfo,
    bs: BlockSize,
    has_luma: bool,
    is_intra: bool,
    intra_region: bool,
    a: &BlockContext,
    l: &BlockContext,
    nb: &SbNb,
    msac: &mut MsacContext,
) -> (r: u8)
    requires
        bs != BlockSize::Invalid,
        nb.p0.off < 64,
        nb.p1.off < 64,
    ensures
        (r as int, final(msac)@) == intrabc_flag(
            old(msac)@,
            *fi,
            bs,
            has_luma,
            is_intra,
            intra_region,
            *a,
            *l,
            *nb,
        ),
        r <= 1,
{
    let d: [u8; 4] = bs.dim();
    if has_luma && fi.allow_intrabc && (d[0] < 16 || d[1] < 16) && is_intra && !intra_region {
        let ctx: usize = sum_neighbours(&a.intrabc, &l.intrabc, nb);
        msac.decode_bool_adapt(Cdf::IntraBc(ctx)) as u8
    } else {
        0
    }
}

/// Whether a block has no residual. A block that is predicted from its edges
/// says so plane by plane instead.
pub open spec fn skip_txfm_flag(
    s: Sym,
    fi: SbFrameInfo,
    seg_id: int,
    from_edges: bool,
    skip_mode: int,
    a: BlockContext,
    l: BlockContext,
    nx: TileNb,
) -> (int, Sym) {
    if bit_of(fi.seg_skip_mask as int, seg_id) {
        (1, s)
    } else if from_edges {
        (0, s)
    } else {
        let ctx = nx_sum(a.skip_txfm, l.skip_txfm, nx) + 3 * skip_mode;
        s.flag(Cdf::SkipTxfm(ctx as usize))
    }
}

pub fn read_skip_txfm(
    fi: &SbFrameInfo,
    seg_id: u8,
    from_edges: bool,
    skip_mode: u8,
    a: &BlockContext,
    l: &BlockContext,
    nx: &TileNb,
    msac: &mut MsacContext,
) -> (r: u8)
    requires
        seg_id < 16,
        nx.p0.off < 64,
        nx.p1.off < 64,
    ensures
        (r as int, final(msac)@) == skip_txfm_flag(
            old(msac)@,
            *fi,
            seg_id as int,
            from_edges,
            skip_mode as int,
            *a,
            *l,
            *nx,
        ),
        r <= 1,
{
    if bit_set(fi.seg_skip_mask as u32, seg_id as u32) {
        1
    } else if from_edges {
        0
    } else {
        let ctx: usize = sum_tile_neighbours(&a.skip_txfm, &l.skip_txfm, nx) + 3 * skip_mode as usize;
        msac.decode_bool_adapt(Cdf::SkipTxfm(ctx)) as u8
    }
}

/// An intra block of an inter frame is one whose flag is not set; in an intra
/// frame and an intra region every block is one, and a block in skip mode never
/// is.
pub proof fn law_intra_flag_is_inverted(
    s: Sym,
    fi: SbFrameInfo,
    lbs: BlockSize,
    cbs: BlockSize,
    skip_mode: bool,
    region: bool,
    a: BlockContext,
    l: BlockContext,
    nx: TileNb,
)
    ensures
        ({
            let (r, t) = intra_flag(s, fi, lbs, cbs, skip_mode, region, a, l, nx);
            let k = s.asked.len() as int;
            &&& skip_mode ==> r == 0 && t == s
            &&& !skip_mode && (!fi.is_inter_or_switch || region) ==> r == 1 && t == s
            &&& !skip_mode && fi.is_inter_or_switch && !region && fi.has_chroma_layout && lbs != cbs
                ==> r == 0 && t == s
            &&& !skip_mode && fi.is_inter_or_switch && !region && (!fi.has_chroma_layout || lbs
                == cbs) ==> (t.asked[k] matches Request::Bool(Cdf::Intra(_))) && (r == 1 <==> t.got(
                k,
            ) == 0) && (r == 0 <==> t.got(k) == 1)
        }),
{
}

/// A segment that skips leaves its blocks without residual and asks nothing;
/// neither do blocks that are predicted from their edges, which keep theirs.
pub proof fn law_residual_flags(
    s: Sym,
    fi: SbFrameInfo,
    seg_id: int,
    edges: bool,
    skip_mode: int,
    a: BlockContext,
    l: BlockContext,
    nx: TileNb,
)
    ensures
        ({
            let (r, t) = skip_txfm_flag(s, fi, seg_id, edges, skip_mode, a, l, nx);
            let k = s.asked.len() as int;
            let skips = bit_of(fi.seg_skip_mask as int, seg_id);
            &&& skips ==> r == 1 && t == s
            &&& !skips && edges ==> r == 0 && t == s
            &&& !skips && !edges ==> r == t.got(k) && t.asked.len() == k + 1
            &&& !skips && !edges ==> t.asked[k] == Request::Bool(
                Cdf::SkipTxfm(
                    (picked_u8(a.skip_txfm, l.skip_txfm, nx.p0) + picked_u8(
                        a.skip_txfm,
                        l.skip_txfm,
                        nx.p1,
                    ) + 3 * skip_mode) as usize,
                ),
            )
        }),
{
}

/// Skip mode and copies within the frame are what their flags say, where these
/// are coded, and are off otherwise.
pub proof fn law_coded_flags_hold(
    s: Sym,
    fi: SbFrameInfo,
    bs: BlockSize,
    seg_id: int,
    region: bool,
    luma: bool,
    intra: bool,
    a: BlockContext,
    l: BlockContext,
    nx: TileNb,
    nb: SbNb,
)
    ensures
        ({
            let (m, t) = skip_mode_flag(s, fi, bs, seg_id, region, a, l, nx);
            let (c, u) = intrabc_flag(s, fi, bs, luma, intra, region, a, l, nb);
            let k = s.asked.len() as int;
            let fixed = bit_of(fi.seg_globalmv_mask as int, seg_id) || bit_of(
                fi.seg_skip_mask as int,
                seg_id,
            );
            &&& fixed || !fi.skip_mode_enabled || region || bs.w4() * bs.h4() <= 2 ==> m == 0 && t
                == s
            &&& !fixed && fi.skip_mode_enabled && !region && bs.w4() * bs.h4() > 2 ==> m == t.got(k)
                && (t.asked[k] matches Request::Bool(Cdf::SkipMode(_)))
            &&& !luma || !fi.allow_intrabc || !intra || region || (bs.w4() >= 16 && bs.h4() >= 16)
                ==> c == 0 && u == s
            &&& luma && fi.allow_intrabc && intra && !region && (bs.w4() < 16 || bs.h4() < 16)
                ==> c == u.got(k) && (u.asked[k] matches Request::Bool(Cdf::IntraBc(_)))
        }),
{
}

/// The context of the intra flag: two neighbours that are both predicted from
/// their edges give three, one of two gives one, and none gives zero; a single
/// neighbour counts twice.
pub proof fn law_intra_context_counts_neighbours(a: BlockContext, l: BlockContext, nx: TileNb)
    requires
        nx.n <= 2,
    ensures
        ({
            let e0 = picked_u8(a.intra, l.intra, nx.p0) != 0 && picked_u8(
                a.intrabc,
                l.intrabc,
                nx.p0,
            ) == 0;
            let e1 = picked_u8(a.intra, l.intra, nx.p1) != 0 && picked_u8(
                a.intrabc,
                l.intrabc,
                nx.p1,
            ) == 0;
            let c = intra_flag_ctx(a, l, nx);
            &&& nx.n == 0 ==> c == 0
            &&& nx.n == 1 ==> c == (if e0 { 2int } else { 0 })
            &&& nx.n == 2 && e0 && e1 ==> c == 3
            &&& nx.n == 2 && e0 != e1 ==> c == 1
            &&& nx.n == 2 && !e0 && !e1 ==> c == 0
        }),
{
}

} // verus!
