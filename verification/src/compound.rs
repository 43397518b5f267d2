//! Syntax of a block that is predicted from two references.
use vstd::prelude::*;

use crate::block::{BlockPos, SbNb};
use crate::env::BlockContext;
use crate::frameinfo::SbFrameInfo;
use crate::interctx::{
    amvd_ctx, codes_first_mv, codes_second_mv, comp_filter_ctx, comp_flag_ctx, count_frame_refs,
    count_ref, find_amvd_ctx, find_comp_flag_ctx, find_mask_ctx, find_ref_ctx, find_tip_ctx,
    frame_refs, get_filter_ctx, mask_ctx, ref_count, ref_ctx, tip_ctx, NxInter,
};
use crate::intops::{abs, b2i, max, min, p2};
use crate::levels::{BlockSize, MvXY, GLOBAL_MV_GLOBAL_MV, JOINT_NEW_MV, NEAR_MV_NEAR_MV};
use crate::levels::{
    NEAR_MV_NEW_MV, NEW_MV_NEW_MV, OPFL_JOINT_NEW_MV, OPFL_NEAR_MV_NEAR_MV, OPFL_NEW_MV_NEW_MV,
};
use crate::msac::{Cdf, Derived, MsacContext, Pair, Request, Sym};
use crate::mvread::{mode_amvd, mv_residual, read_wedge_idx, wedge_idx};
use crate::mvsyntax::{
    drl_index, is_odd_steps, mv_difference, mv_precision, odd_steps, read_drl_index,
    read_mv_difference, read_mv_precision, read_signs, signed_pair, DrlKind, SignRule,
};
use crate::single::{
    blank_inter, inter_valid, new_inter, read_single, single_syntax, InterSyntax,
};
use crate::tables::{AMVD_MODE_CONTEXT, CWP_WEIGHTING_FACTOR};

verus! {

/// The limits of the frame-level values that compound syntax depends on.
pub open spec fn comp_valid(fi: SbFrameInfo) -> bool {
    &&& inter_valid(fi)
    &&& fi.n_ref_frames >= 1
    &&& forall|i: int| 0 <= i < 8 ==> #[trigger] fi.refdir[i] <= 1
    &&& forall|i: int| 0 <= i < 8 ==> #[trigger] fi.refdist[i] > -128
    &&& -1 <= fi.skip_mode_refs.r[0] <= 7
    &&& -1 <= fi.skip_mode_refs.r[1] <= 7
}

/// The same for frames of all types: one without references has no compound
/// blocks.
pub open spec fn refs_valid(fi: SbFrameInfo) -> bool {
    &&& inter_valid(fi)
    &&& fi.is_inter_or_switch || fi.skip_mode_enabled ==> comp_valid(fi)
}

/// The flag that reference `i` is the next one, with `n` already taken, the
/// last of them looking in direction `dir`.
pub open spec fn comp_ref_flag(
    s: Sym,
    fi: SbFrameInfo,
    i: int,
    n: int,
    ctx: int,
    dir: int,
) -> (int, Sym) {
    let refs = fi.n_ref_frames as int;
    if n == 0 && (i == 2 || (i >= refs - 2 && i + 1 >= fi.num_same_ref_comp)) {
        (1, s)
    } else if n == 0 {
        s.flag(Cdf::Comp0Ref(ctx as usize, i as usize))
    } else {
        s.flag(Cdf::Comp1Ref(ctx as usize, b2i(dir != fi.refdir[i]) as usize, i as usize))
    }
}

/// Two references: each in turn is taken or passed over. While `again` is set
/// a reference can be taken twice. `first` is the one taken already if `n` is
/// one, and `rem` counts the neighbours that use one not yet passed over.
pub open spec fn comp_refs(
    s: Sym,
    fi: SbFrameInfo,
    nx: NxInter,
    i: int,
    n: int,
    rem: int,
    dir: int,
    again: bool,
    first: int,
) -> ((int, int), Sym)
    decreases 2 - n, fi.n_ref_frames + 1 - i,
{
    let refs = fi.n_ref_frames as int;
    let same = fi.num_same_ref_comp as int;
    if n >= 2 || n < 0 || i >= refs + n - 2 + b2i(again) {
        ((if n == 0 { refs - 1 - b2i(same < refs) } else { first }, refs - 1), s)
    } else {
        let cur = ref_count(nx, i);
        let (taken, s) = comp_ref_flag(s, fi, i, n, ref_ctx(cur, rem - cur), dir);
        if taken != 0 && n == 1 {
            ((first, i), s)
        } else if taken != 0 {
            comp_refs(
                s,
                fi,
                nx,
                if again { i } else { i + 1 },
                1,
                if again { rem } else { rem - cur },
                fi.refdir[i] as int,
                false,
                i,
            )
        } else {
            comp_refs(s, fi, nx, i + 1, n, rem - cur, dir, again && i + 1 < same, first)
        }
    }
}

/// The two references of a block.
pub open spec fn comp_references(s: Sym, fi: SbFrameInfo, nx: NxInter) -> ((int, int), Sym) {
    if fi.n_ref_frames > 1 {
        comp_refs(s, fi, nx, 0, 0, frame_refs(nx), 0, fi.num_same_ref_comp > 0, 0)
    } else {
        ((0, 0), s)
    }
}

fn read_comp_refs(fi: &SbFrameInfo, nx: &NxInter, msac: &mut MsacContext) -> (r: (i8, i8))
    requires
        comp_valid(*fi),
        nx.valid(),
    ensures
        ((r.0 as int, r.1 as int), final(msac)@) == comp_references(old(msac)@, *fi, *nx),
        0 <= r.0 <= 6,
        0 <= r.1 <= 6,
{
    let refs: i8 = fi.n_ref_frames as i8;
    if refs <= 1 {
        return (0, 0);
    }
    let same: i8 = fi.num_same_ref_comp as i8;
    let ghost s0 = msac@;
    let mut i: i8 = 0;
    let mut n: i8 = 0;
    let mut rem: i32 = count_frame_refs(nx);
    let mut dir: u8 = 0;
    let mut again: bool = same > 0;
    let mut first: i8 = 0;
    while i + 2 < refs + n || (again && i + 1 < refs + n)
        invariant
            comp_valid(*fi),
            nx.valid(),
            s0 == old(msac)@,
            2 <= refs <= 7,
            refs == fi.n_ref_frames,
            same == fi.num_same_ref_comp,
            0 <= i <= refs,
            0 <= n <= 1,
            -4 - 4 * i <= rem <= 4,
            dir <= 1,
            0 <= first < refs,
            comp_references(s0, *fi, *nx) == comp_refs(
                msac@,
                *fi,
                *nx,
                i as int,
                n as int,
                rem as int,
                dir as int,
                again,
                first as int,
            ),
        decreases 2 - n, refs + 1 - i,
    {
        let cur: i32 = count_ref(nx, i);
        let after: i32 = rem - cur;
        let ctx: usize = find_ref_ctx(cur, after);
        let d: u8 = fi.refdir[i as usize];
        let taken: bool = if n == 0 && (i == 2 || (i >= refs - 2 && i + 1 >= same)) {
            true
        } else if n == 0 {
            msac.decode_bool_adapt(Cdf::Comp0Ref(ctx, i as usize)) != 0
        } else {
            let turn: usize = if dir != d { 1 } else { 0 };
            msac.decode_bool_adapt(Cdf::Comp1Ref(ctx, turn, i as usize)) != 0
        };
        if taken {
            if n == 1 {
                return (first, i);
            }
            n = 1;
            first = i;
            dir = d;
            if !again {
                i = i + 1;
                rem = after;
            }
            again = false;
        } else {
            again = again && i + 1 < same;
            i = i + 1;
            rem = after;
        }
    }
    if n == 0 {
        (refs - 1 - (if same < refs { 1i8 } else { 0i8 }), refs - 1)
    } else {
        (first, refs - 1)
    }
}

/// Both references of a compound are frames that exist.
pub proof fn law_compound_references_exist(
    s: Sym,
    fi: SbFrameInfo,
    nx: NxInter,
    i: int,
    n: int,
    rem: int,
    dir: int,
    again: bool,
    first: int,
)
    requires
        2 <= fi.n_ref_frames,
        0 <= i,
        0 <= n <= 1,
        0 <= first < fi.n_ref_frames,
    ensures
        0 <= comp_refs(s, fi, nx, i, n, rem, dir, again, first).0.0 < fi.n_ref_frames,
        0 <= comp_refs(s, fi, nx, i, n, rem, dir, again, first).0.1 < fi.n_ref_frames,
    decreases 2 - n, fi.n_ref_frames + 1 - i,
{
    let refs = fi.n_ref_frames as int;
    let same = fi.num_same_ref_comp as int;
    if i < refs + n - 2 + b2i(again) {
        let cur = ref_count(nx, i);
        let (taken, s2) = comp_ref_flag(s, fi, i, n, ref_ctx(cur, rem - cur), dir);
        if taken != 0 && n == 0 {
            law_compound_references_exist(
                s2,
                fi,
                nx,
                if again { i } else { i + 1 },
                1,
                if again { rem } else { rem - cur },
                fi.refdir[i] as int,
                false,
                i,
            );
        } else if taken == 0 {
            law_compound_references_exist(
                s2,
                fi,
                nx,
                i + 1,
                n,
                rem - cur,
                dir,
                again && i + 1 < same,
                first,
            );
        }
    }
}

/// The mode of a compound block and the context that it was coded with.
pub open spec fn comp_mode(s: Sym, fi: SbFrameInfo, b: BlockPos, r0: int, r1: int) -> (
    (int, int),
    Sym,
) {
    let (ctx, s) = s.context(
        Derived::CompRef(
            b.bs,
            b.by4() as usize,
            b.bx4() as usize,
            Pair { r0: r0 as i8, r1: r1 as i8 },
            b.neighbours(fi),
            Pair { r0: fi.tip.r[0], r1: fi.tip.r[1] },
        ),
        6,
    );
    let (mode, s) = if r0 == r1 {
        let (v, s) = s.symbol(Cdf::CompModeSameref(ctx as usize), 3);
        (NEAR_MV_NEAR_MV + v + b2i(v >= 2), s)
    } else {
        let (joint, s) = s.flag(
            Cdf::CompModeJoint(b2i(fi.refdist[r0] != -fi.refdist[r1]) as usize),
        );
        if joint != 0 {
            (JOINT_NEW_MV as int, s)
        } else {
            let (v, s) = s.symbol(Cdf::CompMode(ctx as usize), 4);
            (NEAR_MV_NEAR_MV + v, s)
        }
    };
    if fi.opfl_refine_type == 1 && mode != GLOBAL_MV_GLOBAL_MV && min(b.bs.w4(), b.bs.h4()) >= 2
        && fi.refdir[r0] != fi.refdir[r1] {
        let (on, s) = s.flag(Cdf::Opfl(b2i(mode > NEAR_MV_NEAR_MV) as usize));
        (
            (if on != 0 { mode + 6 - b2i(mode >= GLOBAL_MV_GLOBAL_MV) } else { mode }, ctx),
            s,
        )
    } else {
        ((mode, ctx), s)
    }
}

fn read_comp_mode(fi: &SbFrameInfo, b: &BlockPos, r0: i8, r1: i8, msac: &mut MsacContext) -> (r: (
    u8,
    usize,
))
    requires
        b.valid(*fi),
        comp_valid(*fi),
        0 <= r0 <= 6,
        0 <= r1 <= 6,
    ensures
        ((r.0 as int, r.1 as int), final(msac)@) == comp_mode(
            old(msac)@,
            *fi,
            *b,
            r0 as int,
            r1 as int,
        ),
        NEAR_MV_NEAR_MV <= r.0 <= OPFL_JOINT_NEW_MV,
        r.1 < 6,
{
    let d: [u8; 4] = b.bs.dim();
    let ctx: usize = msac.derive_context(
        Derived::CompRef(
            b.bs,
            (b.by % 64) as usize,
            (b.bx % 64) as usize,
            Pair { r0, r1 },
            b.find_neighbours(fi),
            Pair { r0: fi.tip.r[0], r1: fi.tip.r[1] },
        ),
        6,
    ) as usize;
    let mode: u8 = if r0 == r1 {
        let v: u8 = msac.decode_symbol_adapt(Cdf::CompModeSameref(ctx), 3) as u8;
        if v >= 2 { NEAR_MV_NEAR_MV + v + 1 } else { NEAR_MV_NEAR_MV + v }
    } else {
        assert(fi.refdist[r1 as int] > -128);
        let apart: usize = if fi.refdist[r0 as usize] != -fi.refdist[r1 as usize] { 1 } else { 0 };
        if msac.decode_bool_adapt(Cdf::CompModeJoint(apart)) != 0 {
            JOINT_NEW_MV
        } else {
            NEAR_MV_NEAR_MV + msac.decode_symbol_adapt(Cdf::CompMode(ctx), 4) as u8
        }
    };
    if fi.opfl_refine_type == 1 && mode != GLOBAL_MV_GLOBAL_MV && d[0] >= 2 && d[1] >= 2
        && fi.refdir[r0 as usize] != fi.refdir[r1 as usize] {
        let c: usize = if mode > NEAR_MV_NEAR_MV { 1 } else { 0 };
        if msac.decode_bool_adapt(Cdf::Opfl(c)) != 0 {
            return (if mode >= GLOBAL_MV_GLOBAL_MV { mode + 5 } else { mode + 6 }, ctx);
        }
    }
    (mode, ctx)
}

/// Modes that code a single difference for both references.
pub open spec fn is_joint(mode: int) -> bool {
    mode == JOINT_NEW_MV || mode == OPFL_JOINT_NEW_MV
}

/// Whether a compound mode names a new vector for its first reference.
pub open spec fn first_is_new(mode: int) -> bool {
    codes_first_mv(mode)
}

/// Whether a compound mode names a new vector for its second reference.
pub open spec fn second_is_new(mode: int) -> bool {
    codes_second_mv(mode) || is_joint(mode)
}

fn mode_is_joint(m: u8) -> (r: bool)
    ensures
        r == is_joint(m as int),
{
    m == JOINT_NEW_MV || m == OPFL_JOINT_NEW_MV
}

pub fn mode_first_is_new(m: u8) -> (r: bool)
    ensures
        r == first_is_new(m as int),
{
    m == 15 || m == 20 || m == 22 || m == 23 || m == 26 || m == 27 || m == 28
}

pub fn mode_second_is_new(m: u8) -> (r: bool)
    ensures
        r == second_is_new(m as int),
{
    m == 19 || m == 22 || m == 23 || m == 25 || m == 27 || m == 28
}

/// The candidate indices of both vectors.
pub open spec fn comp_drl(s: Sym, last: int, mode: int, same_ref: bool, ctx: int) -> (
    (int, int),
    Sym,
) {
    let kind = DrlKind::Plain(ctx as usize);
    if mode == GLOBAL_MV_GLOBAL_MV {
        ((0, 0), s)
    } else {
        let (d0, s) = drl_index(s, kind, 0, last);
        if mode <= NEAR_MV_NEW_MV {
            let from = if mode == NEAR_MV_NEAR_MV && same_ref { d0 + b2i(d0 < last) } else { 0 };
            let (d1, s) = drl_index(s, kind, from, last);
            ((d0, d1), s)
        } else {
            ((d0, d0), s)
        }
    }
}

fn read_comp_drl(last: u8, mode: u8, same_ref: bool, ctx: usize, msac: &mut MsacContext) -> (r: (
    u8,
    u8,
))
    ensures
        ((r.0 as int, r.1 as int), final(msac)@) == comp_drl(
            old(msac)@,
            last as int,
            mode as int,
            same_ref,
            ctx as int,
        ),
        r.0 <= last,
        r.1 <= last,
{
    let kind: DrlKind = DrlKind::Plain(ctx);
    if mode == GLOBAL_MV_GLOBAL_MV {
        return (0, 0);
    }
    let d0: u8 = read_drl_index(kind, 0, last, msac);
    if mode <= NEAR_MV_NEW_MV {
        let from: u8 = if mode == NEAR_MV_NEAR_MV && same_ref {
            if d0 < last { d0 + 1 } else { d0 }
        } else {
            0
        };
        (d0, read_drl_index(kind, from, last, msac))
    } else {
        (d0, d0)
    }
}

/// Two near vectors of one reference have different candidate indices, unless
/// the first index is the last one.
pub proof fn law_same_reference_candidates_differ(s: Sym, last: int, ctx: int)
    requires
        0 <= last,
    ensures
        ({
            let (d0, d1) = comp_drl(s, last, NEAR_MV_NEAR_MV as int, true, ctx).0;
            d0 < d1 <= last || d0 == d1 == last
        }),
{
    let kind = DrlKind::Plain(ctx as usize);
    crate::mvsyntax::law_drl_index_in_range(s, kind, 0, last);
    let (d0, s2) = drl_index(s, kind, 0, last);
    crate::mvsyntax::law_drl_index_in_range(s2, kind, d0 + b2i(d0 < last), last);
}

/// Which of the two differences are coded. A joint mode codes that of the
/// reference further away.
pub open spec fn mvds_coded(fi: SbFrameInfo, mode: int, r0: int, r1: int) -> (bool, bool) {
    let second = fi.absrefdist[r0] < fi.absrefdist[r1];
    (
        first_is_new(mode) && !(is_joint(mode) && second),
        second_is_new(mode) && !(is_joint(mode) && !second),
    )
}

/// How the signs of the differences are found. The last sign is derived where
/// both vectors are new and enough components differ from zero.
pub open spec fn comp_sign_rule(fi: SbFrameInfo, x: InterSyntax, nonzero: int, sum: int) -> SignRule {
    let mode = x.inter_mode as int;
    let prec = x.mv_prec as int;
    let both = mode == NEW_MV_NEW_MV || mode == OPFL_NEW_MV_NEW_MV || is_joint(mode);
    let least: int = if is_joint(mode) { 1 } else { 4 };
    let derive = x.amvd == 0 && fi.mvd_sign_derive && x.drl0 == 0 && x.drl1 == 0 && nonzero >= least
        && !fi.allow_screen_content_tools && fi.mv_precision != 3 && prec < 5 && both;
    SignRule {
        derived: if derive { nonzero as u8 } else { 5 },
        odd: x.amvd == 0 && odd_steps(sum, prec),
        seen: 0,
    }
}

/// The block with its vector differences.
#[verifier::opaque]
pub open spec fn with_comp_mvds(s: Sym, fi: SbFrameInfo, x: InterSyntax) -> (InterSyntax, Sym) {
    let (c0, c1) = mvds_coded(fi, x.inter_mode as int, x.ref0 as int, x.ref1 as int);
    let prec = x.mv_prec as int;
    let ((y0, x0), s) = if c0 { mv_difference(s, x.amvd != 0, prec) } else { ((0, 0), s) };
    let ((y1, x1), s) = if c1 { mv_difference(s, x.amvd != 0, prec) } else { ((0, 0), s) };
    let nonzero = b2i(y0 != 0) + b2i(x0 != 0) + b2i(y1 != 0) + b2i(x1 != 0);
    let rule = comp_sign_rule(fi, x, nonzero, y0 + x0 + y1 + x1);
    let ((y0, x0, rule), s) = signed_pair(s, y0, x0, rule);
    let ((y1, x1, rule), s) = signed_pair(s, y1, x1, rule);
    (
        InterSyntax {
            mvd0: MvXY { y: y0 as i32, x: x0 as i32 },
            mvd1: MvXY { y: y1 as i32, x: x1 as i32 },
            ..x
        },
        s,
    )
}

fn nonzero_parts(mv: &MvXY) -> (r: u8)
    ensures
        r == b2i(mv.y != 0) + b2i(mv.x != 0),
{
    let y: u8 = if mv.y != 0 { 1 } else { 0 };
    let x: u8 = if mv.x != 0 { 1 } else { 0 };
    y + x
}

#[verifier::rlimit(30)]
fn read_comp_mvds(fi: &SbFrameInfo, x: &mut InterSyntax, msac: &mut MsacContext)
    requires
        0 <= old(x).mv_prec <= 6,
        0 <= old(x).ref0 <= 6,
        0 <= old(x).ref1 <= 6,
    ensures
        (*final(x), final(msac)@) == with_comp_mvds(old(msac)@, *fi, *old(x)),
        *final(x) == (InterSyntax { mvd0: final(x).mvd0, mvd1: final(x).mvd1, ..*old(x) }),
{
    proof {
        reveal(with_comp_mvds);
    }
    let mode: u8 = x.inter_mode;
    let prec: i32 = x.mv_prec as i32;
    let adaptive: bool = x.amvd != 0;
    let joint: bool = mode_is_joint(mode);
    let second: bool = fi.absrefdist[x.ref0 as usize] < fi.absrefdist[x.ref1 as usize];
    let mv0: MvXY = if mode_first_is_new(mode) && !(joint && second) {
        read_mv_difference(adaptive, prec, msac)
    } else {
        MvXY { y: 0, x: 0 }
    };
    let mv1: MvXY = if mode_second_is_new(mode) && !(joint && !second) {
        read_mv_difference(adaptive, prec, msac)
    } else {
        MvXY { y: 0, x: 0 }
    };
    let nonzero: u8 = nonzero_parts(&mv0) + nonzero_parts(&mv1);
    let both: bool = mode == NEW_MV_NEW_MV || mode == OPFL_NEW_MV_NEW_MV || joint;
    let least: u8 = if joint { 1 } else { 4 };
    let derive: bool = !adaptive && fi.mvd_sign_derive && x.drl0 == 0 && x.drl1 == 0 && nonzero
        >= least && !fi.allow_screen_content_tools && fi.mv_precision != 3 && prec < 5 && both;
    let mut rule: SignRule = SignRule {
        derived: if derive { nonzero } else { 5 },
        odd: !adaptive && is_odd_steps(mv0.y + mv0.x + mv1.y + mv1.x, prec),
        seen: 0,
    };
    x.mvd0 = read_signs(mv0, &mut rule, msac);
    x.mvd1 = read_signs(mv1, &mut rule, msac);
}

/// Whether the vectors are refined by matching: 2 where that is implied.
#[verifier::opaque]
pub open spec fn refine_read(s: Sym, fi: SbFrameInfo, bs: BlockSize, x: InterSyntax) -> (int, Sym) {
    let mode = x.inter_mode as int;
    if fi.refine_mv_enabled && min(bs.w4(), bs.h4()) >= 2 && bs.w4() * bs.h4() > 4 && mode
        != GLOBAL_MV_GLOBAL_MV && fi.refdist[x.ref0 as int] == -fi.refdist[x.ref1 as int] {
        if mode == NEAR_MV_NEAR_MV || mode == OPFL_NEAR_MV_NEAR_MV || mode == OPFL_JOINT_NEW_MV {
            (2, s)
        } else if mode < OPFL_NEAR_MV_NEAR_MV || fi.opfl_refine_type != 1 {
            s.flag(Cdf::RefineMv((mode - NEAR_MV_NEAR_MV) as usize))
        } else {
            (0, s)
        }
    } else {
        (0, s)
    }
}

fn read_refine(fi: &SbFrameInfo, bs: BlockSize, x: &InterSyntax, msac: &mut MsacContext) -> (r: u8)
    requires
        bs != BlockSize::Invalid,
        comp_valid(*fi),
        0 <= x.ref0 <= 6,
        0 <= x.ref1 <= 6,
        NEAR_MV_NEAR_MV <= x.inter_mode,
    ensures
        (r as int, final(msac)@) == refine_read(old(msac)@, *fi, bs, *x),
        r <= 2,
{
    proof {
        reveal(refine_read);
        assert(fi.refdist[x.ref1 as int] > -128);
    }
    let d: [u8; 4] = bs.dim();
    let mode: u8 = x.inter_mode;
    if fi.refine_mv_enabled && d[0] >= 2 && d[1] >= 2 && bs.area() > 4 && mode
        != GLOBAL_MV_GLOBAL_MV && fi.refdist[x.ref0 as usize] == -fi.refdist[x.ref1 as usize] {
        if mode == NEAR_MV_NEAR_MV || mode == OPFL_NEAR_MV_NEAR_MV || mode == OPFL_JOINT_NEW_MV {
            2
        } else if mode < OPFL_NEAR_MV_NEAR_MV || fi.opfl_refine_type != 1 {
            msac.decode_bool_adapt(Cdf::RefineMv((mode - NEAR_MV_NEAR_MV) as usize)) as u8
        } else {
            0
        }
    } else {
        0
    }
}

/// An average of both predictions.
pub const COMP_AVG: u8 = 1;

/// Predictions on either side of a wedge.
pub const COMP_WEDGE: u8 = 2;

/// Predictions weighted by their difference.
pub const COMP_SEG: u8 = 3;

/// The block with how its two predictions are combined.
#[verifier::opaque]
pub open spec fn with_comp_type(s: Sym, fi: SbFrameInfo, bs: BlockSize, nx: NxInter, x: InterSyntax) -> (
    InterSyntax,
    Sym,
) {
    let mode = x.inter_mode as int;
    let avg = InterSyntax { comp_type: COMP_AVG, ..x };
    if mode <= JOINT_NEW_MV && x.refine_mv != 1 && !(mode == JOINT_NEW_MV && x.amvd != 0)
        && fi.masked_compound && min(bs.w4(), bs.h4()) >= 2 {
        let ctx = mask_ctx(fi, nx, x.ref0 as int, x.ref1 as int);
        let (masked, s) = s.flag(Cdf::CompTypeMasked(ctx as usize));
        if masked == 0 {
            (avg, s)
        } else {
            let (weighted, s) = if max(bs.w4(), bs.h4()) <= 16 {
                s.flag(Cdf::CompTypeWeighted)
            } else {
                (1, s)
            };
            if weighted == 0 {
                let (w, s) = wedge_idx(s);
                let (sign, s) = s.bit();
                (
                    InterSyntax {
                        comp_type: COMP_WEDGE,
                        wedge_idx: w as i8,
                        wedge_sign: sign as u8,
                        ..x
                    },
                    s,
                )
            } else {
                let (sign, s) = s.bit();
                (InterSyntax { comp_type: COMP_SEG, mask_sign: sign as u8, ..x }, s)
            }
        }
    } else {
        (avg, s)
    }
}

fn read_comp_type(
    fi: &SbFrameInfo,
    bs: BlockSize,
    nx: &NxInter,
    x: &mut InterSyntax,
    msac: &mut MsacContext,
)
    requires
        bs != BlockSize::Invalid,
        0 <= old(x).ref0 <= 6,
        0 <= old(x).ref1 <= 6,
        old(x).wedge_sign <= 1,
    ensures
        (*final(x), final(msac)@) == with_comp_type(old(msac)@, *fi, bs, *nx, *old(x)),
        1 <= final(x).comp_type <= 3,
        final(x).wedge_sign <= 1,
        *final(x) == (InterSyntax {
            comp_type: final(x).comp_type,
            wedge_idx: final(x).wedge_idx,
            wedge_sign: final(x).wedge_sign,
            mask_sign: final(x).mask_sign,
            ..*old(x)
        }),
{
    proof {
        reveal(with_comp_type);
    }
    let d: [u8; 4] = bs.dim();
    let mode: u8 = x.inter_mode;
    x.comp_type = COMP_AVG;
    if mode <= JOINT_NEW_MV && x.refine_mv != 1 && !(mode == JOINT_NEW_MV && x.amvd != 0)
        && fi.masked_compound && d[0] >= 2 && d[1] >= 2 {
        let ctx: usize = find_mask_ctx(fi, nx, x.ref0, x.ref1);
        if msac.decode_bool_adapt(Cdf::CompTypeMasked(ctx)) != 0 {
            if d[0] <= 16 && d[1] <= 16 && msac.decode_bool_adapt(Cdf::CompTypeWeighted) == 0 {
                x.comp_type = COMP_WEDGE;
                x.wedge_idx = read_wedge_idx(msac);
                x.wedge_sign = msac.decode_bool_bypass() as u8;
            } else {
                x.comp_type = COMP_SEG;
                x.mask_sign = msac.decode_bool_bypass() as u8;
            }
        }
    }
}

/// The index of a weight, at most 4.
pub open spec fn cwp_index(s: Sym, n: int) -> (int, Sym)
    decreases 4 - n,
{
    if n >= 4 {
        (n, s)
    } else {
        let (more, s) = s.flag(Cdf::CwpIdx(n as usize));
        if more == 0 {
            (n, s)
        } else {
            cwp_index(s, n + 1)
        }
    }
}

fn read_cwp_index(msac: &mut MsacContext) -> (r: usize)
    ensures
        (r as int, final(msac)@) == cwp_index(old(msac)@, 0),
        r <= 4,
{
    let ghost s0 = msac@;
    let mut n: usize = 0;
    while n < 4
        invariant
            n <= 4,
            s0 == old(msac)@,
            cwp_index(s0, 0) == cwp_index(msac@, n as int),
        decreases 4 - n,
    {
        if msac.decode_bool_adapt(Cdf::CwpIdx(n)) == 0 {
            return n;
        }
        n = n + 1;
    }
    n
}

/// The weight of the first prediction in sixteenths.
#[verifier::opaque]
pub open spec fn cwp_read(s: Sym, fi: SbFrameInfo, x: InterSyntax) -> (int, Sym) {
    let mode = x.inter_mode as int;
    if x.refine_mv == 0 && x.jmvd_scale == 0 && fi.cwp && x.comp_type == COMP_AVG && (mode
        == NEAR_MV_NEAR_MV || mode == JOINT_NEW_MV) {
        let (n, s) = cwp_index(s, 0);
        let apart = fi.refdir[x.ref0 as int] != fi.refdir[x.ref1 as int];
        (CWP_WEIGHTING_FACTOR[b2i(apart)][n] as int, s)
    } else {
        (8, s)
    }
}

fn read_cwp(fi: &SbFrameInfo, x: &InterSyntax, msac: &mut MsacContext) -> (r: i8)
    requires
        0 <= x.ref0 <= 6,
        0 <= x.ref1 <= 6,
    ensures
        (r as int, final(msac)@) == cwp_read(old(msac)@, *fi, *x),
{
    proof {
        reveal(cwp_read);
    }
    let mode: u8 = x.inter_mode;
    if x.refine_mv == 0 && x.jmvd_scale == 0 && fi.cwp && x.comp_type == COMP_AVG && (mode
        == NEAR_MV_NEAR_MV || mode == JOINT_NEW_MV) {
        let n: usize = read_cwp_index(msac);
        let apart: usize = if fi.refdir[x.ref0 as usize] != fi.refdir[x.ref1 as usize] { 1 } else { 0 };
        CWP_WEIGHTING_FACTOR[apart][n]
    } else {
        8
    }
}

/// The filter for positions between pixels.
#[verifier::opaque]
pub open spec fn comp_filter(
    s: Sym,
    fi: SbFrameInfo,
    bs: BlockSize,
    a: BlockContext,
    l: BlockContext,
    nb: SbNb,
    x: InterSyntax,
) -> (int, Sym) {
    let mode = x.inter_mode as int;
    if x.refine_mv != 0 || mode >= OPFL_NEAR_MV_NEAR_MV {
        (2, s)
    } else if fi.subpel_filter_mode != 4 {
        (fi.subpel_filter_mode as int, s)
    } else if mode != GLOBAL_MV_GLOBAL_MV || min(bs.w4(), bs.h4()) == 1 {
        s.symbol(Cdf::Filter(comp_filter_ctx(a, l, nb, x.ref0 as int) as usize), 2)
    } else {
        (0, s)
    }
}

fn read_comp_filter(
    fi: &SbFrameInfo,
    bs: BlockSize,
    a: &BlockContext,
    l: &BlockContext,
    nb: &SbNb,
    x: &InterSyntax,
    msac: &mut MsacContext,
) -> (r: u8)
    requires
        bs != BlockSize::Invalid,
        a.wf(),
        l.wf(),
        nb.p0.off < 64,
        nb.p1.off < 64,
        fi.subpel_filter_mode <= 4,
    ensures
        (r as int, final(msac)@) == comp_filter(old(msac)@, *fi, bs, *a, *l, *nb, *x),
        r <= 3,
{
    proof {
        reveal(comp_filter);
    }
    let d: [u8; 4] = bs.dim();
    let mode: u8 = x.inter_mode;
    if x.refine_mv != 0 || mode >= OPFL_NEAR_MV_NEAR_MV {
        2
    } else if fi.subpel_filter_mode != 4 {
        fi.subpel_filter_mode
    } else if mode != GLOBAL_MV_GLOBAL_MV || d[0] == 1 || d[1] == 1 {
        let ctx: usize = get_filter_ctx(a, l, nb, x.ref0);
        msac.decode_symbol_adapt(Cdf::Filter(ctx), 2) as u8
    } else {
        0
    }
}

/// Whether the differences are adaptive, and the scale of a joint one.
#[verifier::opaque]
pub open spec fn comp_amvd(s: Sym, fi: SbFrameInfo, nx: NxInter, mode: int, r0: int) -> (
    (int, int),
    Sym,
) {
    let (amvd, s) = if fi.adaptive_mvd && (first_is_new(mode) || second_is_new(mode)) {
        s.flag(Cdf::Amvd(AMVD_MODE_CONTEXT[mode - 19] as usize, amvd_ctx(nx, r0) as usize))
    } else {
        (0, s)
    };
    if !is_joint(mode) {
        ((amvd, 0), s)
    } else if amvd != 0 {
        let (v, s) = s.symbol(Cdf::JmvdAmvdScaleMode, 2);
        ((amvd, v), s)
    } else {
        let (v, s) = s.symbol(Cdf::JmvdScaleMode, 4);
        ((amvd, v), s)
    }
}

fn read_comp_amvd(fi: &SbFrameInfo, nx: &NxInter, mode: u8, r0: i8, msac: &mut MsacContext) -> (r: (
    u8,
    u8,
))
    requires
        NEAR_MV_NEAR_MV <= mode <= OPFL_JOINT_NEW_MV,
    ensures
        ((r.0 as int, r.1 as int), final(msac)@) == comp_amvd(
            old(msac)@,
            *fi,
            *nx,
            mode as int,
            r0 as int,
        ),
        r.0 <= 1,
        r.1 <= 4,
{
    proof {
        reveal(comp_amvd);
    }
    let mut amvd: u8 = 0;
    if fi.adaptive_mvd && (mode_first_is_new(mode) || mode_second_is_new(mode)) {
        let c: usize = AMVD_MODE_CONTEXT[(mode - 19) as usize] as usize;
        let ctx: usize = find_amvd_ctx(nx, r0);
        amvd = msac.decode_bool_adapt(Cdf::Amvd(c, ctx)) as u8;
    }
    if !mode_is_joint(mode) {
        (amvd, 0)
    } else if amvd != 0 {
        (amvd, msac.decode_symbol_adapt(Cdf::JmvdAmvdScaleMode, 2) as u8)
    } else {
        (amvd, msac.decode_symbol_adapt(Cdf::JmvdScaleMode, 4) as u8)
    }
}

/// All of a block that has two references.
pub open spec fn comp_syntax(
    s: Sym,
    fi: SbFrameInfo,
    b: BlockPos,
    a: BlockContext,
    l: BlockContext,
    nx: NxInter,
    nb: SbNb,
) -> (InterSyntax, Sym) {
    let ((r0, r1), s) = comp_references(s, fi, nx);
    let ((mode, ctx), s) = comp_mode(s, fi, b, r0, r1);
    let ((amvd, scale), s) = comp_amvd(s, fi, nx, mode, r0);
    let ((d0, d1), s) = comp_drl(s, fi.max_drl_bits as int, mode, r0 == r1, ctx);
    let flexible = amvd == 0 && (first_is_new(mode) || second_is_new(mode));
    let ((prec, def), s) = mv_precision(s, fi, flexible, a, l, nb);
    let x = InterSyntax {
        ref0: r0 as i8,
        ref1: r1 as i8,
        inter_mode: mode as u8,
        amvd: amvd as u8,
        jmvd_scale: scale as u8,
        drl0: d0 as u8,
        drl1: d1 as u8,
        mv_prec: prec as i8,
        mvprec_def: def as u8,
        ..blank_inter()
    };
    let (x, s) = with_comp_mvds(s, fi, x);
    let (refine, s) = refine_read(s, fi, b.bs, x);
    let x = InterSyntax { refine_mv: refine as u8, ..x };
    let (x, s) = with_comp_type(s, fi, b.bs, nx, x);
    let (cwp, s) = cwp_read(s, fi, x);
    let x = InterSyntax { cwp_idx: cwp as i8, ..x };
    let (filter, s) = comp_filter(s, fi, b.bs, a, l, nb, x);
    (InterSyntax { filter: filter as u8, ..x }, s)
}

#[verifier::rlimit(30)]
pub fn read_compound(
    fi: &SbFrameInfo,
    b: &BlockPos,
    a: &BlockContext,
    l: &BlockContext,
    nx: &NxInter,
    nb: &SbNb,
    msac: &mut MsacContext,
) -> (r: InterSyntax)
    requires
        b.valid(*fi),
        comp_valid(*fi),
        a.wf(),
        l.wf(),
        nx.valid(),
        nb.p0.off < 64,
        nb.p1.off < 64,
    ensures
        (r, final(msac)@) == comp_syntax(old(msac)@, *fi, *b, *a, *l, *nx, *nb),
        r.valid(),
{
    let mut x: InterSyntax = new_inter();
    let (r0, r1) = read_comp_refs(fi, nx, msac);
    x.ref0 = r0;
    x.ref1 = r1;
    let (mode, ctx) = read_comp_mode(fi, b, r0, r1, msac);
    x.inter_mode = mode;
    let (amvd, scale) = read_comp_amvd(fi, nx, mode, r0, msac);
    x.amvd = amvd;
    x.jmvd_scale = scale;
    let (d0, d1) = read_comp_drl(fi.max_drl_bits, mode, r0 == r1, ctx, msac);
    x.drl0 = d0;
    x.drl1 = d1;
    let flexible: bool = amvd == 0 && (mode_first_is_new(mode) || mode_second_is_new(mode));
    let (prec, def) = read_mv_precision(fi, flexible, a, l, nb, msac);
    x.mv_prec = prec as i8;
    x.mvprec_def = def;
    read_comp_mvds(fi, &mut x, msac);
    x.refine_mv = read_refine(fi, b.bs, &x, msac);
    read_comp_type(fi, b.bs, nx, &mut x, msac);
    x.cwp_idx = read_cwp(fi, &x, msac);
    x.filter = read_comp_filter(fi, b.bs, a, l, nb, &x, msac);
    x
}

/// Whether a block is interpolated from two frames.
pub open spec fn tip_flag(
    s: Sym,
    fi: SbFrameInfo,
    lbs: BlockSize,
    cbs: BlockSize,
    skip_mode: bool,
    nx: NxInter,
) -> (int, Sym) {
    if !skip_mode && fi.tip_frame_mode != 0 && cbs == lbs && max(lbs.w4(), lbs.h4()) >= 2 {
        s.flag(Cdf::Tip(tip_ctx(nx) as usize))
    } else {
        (0, s)
    }
}

/// Whether a block has two references.
pub open spec fn comp_flag(
    s: Sym,
    fi: SbFrameInfo,
    bs: BlockSize,
    fixed: bool,
    is_tip: bool,
    nx: NxInter,
) -> (int, Sym) {
    if !is_tip && !fixed && fi.switchable_comp_refs && bs.w4() * bs.h4() >= 4 {
        s.flag(Cdf::Comp(comp_flag_ctx(fi, nx) as usize))
    } else {
        (0, s)
    }
}

/// All that is coded for a block predicted from other frames.
pub open spec fn inter_syntax(
    s: Sym,
    fi: SbFrameInfo,
    b: BlockPos,
    lbs: BlockSize,
    cbs: BlockSize,
    skip_mode: bool,
    fixed: bool,
    a: BlockContext,
    l: BlockContext,
    nx: NxInter,
    nb: SbNb,
) -> (InterSyntax, Sym) {
    let (tip, s) = tip_flag(s, fi, lbs, cbs, skip_mode, nx);
    if skip_mode {
        let (drl, s) = drl_index(s, DrlKind::SkipMode, 0, fi.max_drl_bits as int);
        (
            InterSyntax {
                ref0: fi.skip_mode_refs.r[0],
                ref1: fi.skip_mode_refs.r[1],
                comp_type: COMP_AVG,
                drl0: drl as u8,
                ..blank_inter()
            },
            s,
        )
    } else {
        let (comp, s) = comp_flag(s, fi, b.bs, fixed, tip != 0, nx);
        if comp != 0 {
            comp_syntax(s, fi, b, a, l, nx, nb)
        } else {
            single_syntax(
                s,
                fi,
                b,
                cbs != BlockSize::Invalid,
                fixed,
                tip != 0,
                a,
                l,
                nx,
                nb,
            )
        }
    }
}

pub fn read_inter(
    fi: &SbFrameInfo,
    b: &BlockPos,
    lbs: BlockSize,
    cbs: BlockSize,
    skip_mode: bool,
    fixed: bool,
    a: &BlockContext,
    l: &BlockContext,
    nx: &NxInter,
    nb: &SbNb,
    msac: &mut MsacContext,
) -> (r: InterSyntax)
    requires
        b.valid(*fi),
        b.bs == (if lbs == BlockSize::Invalid { cbs } else { lbs }),
        comp_valid(*fi),
        a.wf(),
        l.wf(),
        nx.valid(),
        nb.p0.off < 64,
        nb.p1.off < 64,
    ensures
        (r, final(msac)@) == inter_syntax(
            old(msac)@,
            *fi,
            *b,
            lbs,
            cbs,
            skip_mode,
            fixed,
            *a,
            *l,
            *nx,
            *nb,
        ),
        r.valid(),
{
    let mut tip: bool = false;
    if !skip_mode && fi.tip_frame_mode != 0 && cbs == lbs {
        let d: [u8; 4] = b.bs.dim();
        if d[0] >= 2 || d[1] >= 2 {
            tip = msac.decode_bool_adapt(Cdf::Tip(find_tip_ctx(nx))) != 0;
        }
    }
    if skip_mode {
        let mut x: InterSyntax = new_inter();
        x.drl0 = read_drl_index(DrlKind::SkipMode, 0, fi.max_drl_bits, msac);
        x.ref0 = fi.skip_mode_refs.r[0];
        x.ref1 = fi.skip_mode_refs.r[1];
        x.comp_type = COMP_AVG;
        return x;
    }
    let mut comp: bool = false;
    if !tip && !fixed && fi.switchable_comp_refs && b.bs.area() >= 4 {
        comp = msac.decode_bool_adapt(Cdf::Comp(find_comp_flag_ctx(fi, nx))) != 0;
    }
    if comp {
        read_compound(fi, b, a, l, nx, nb, msac)
    } else {
        read_single(fi, b, cbs != BlockSize::Invalid, fixed, tip, a, l, nx, nb, msac)
    }
}

/// What the flags from number `k` on say of two references: each names the
/// reference that it is set for, and no other.
pub open spec fn refs_told(t: Sym, k: int, r0: int, r1: int) -> bool {
    forall|j: int|
        k <= j < t.asked.len() ==> match #[trigger] t.asked[j] {
            Request::Bool(Cdf::Comp0Ref(_, i)) => t.got(j) == 1 <==> r0 == i,
            Request::Bool(Cdf::Comp1Ref(_, _, i)) => t.got(j) == 1 <==> r1 == i,
            _ => false,
        }
}

proof fn lemma_refs_told(
    s: Sym,
    fi: SbFrameInfo,
    nx: NxInter,
    i: int,
    n: int,
    rem: int,
    dir: int,
    again: bool,
    first: int,
)
    requires
        2 <= fi.n_ref_frames <= 7,
        fi.num_same_ref_comp <= 7,
        0 <= n <= 1,
        0 <= i < fi.n_ref_frames,
        again ==> i < fi.num_same_ref_comp && n == 0,
        n == 0 && !again ==> i <= fi.n_ref_frames - 2,
        n == 1 ==> 0 <= first <= i,
        n == 1 && first == i ==> first < fi.num_same_ref_comp,
    ensures
        ({
            let ((r0, r1), t) = comp_refs(s, fi, nx, i, n, rem, dir, again, first);
            let k = s.asked.len() as int;
            &&& refs_told(t, k, r0, r1)
            &&& t.replies == s.replies
            &&& t.asked.len() >= k
            &&& forall|j: int| 0 <= j < k ==> #[trigger] t.asked[j] == s.asked[j]
            &&& n == 1 ==> r0 == first
            &&& n == 0 ==> r0 >= i
            &&& r1 >= i
            &&& 0 <= r0 <= r1 < fi.n_ref_frames
            &&& r0 == r1 ==> r0 < fi.num_same_ref_comp || r0 == fi.n_ref_frames - 1
            &&& n == 1 ==> forall|j: int|
                k <= j < t.asked.len() ==> !((#[trigger] t.asked[j]) matches Request::Bool(
                    Cdf::Comp0Ref(_, _),
                ))
        }),
    decreases 2 - n, fi.n_ref_frames + 1 - i,
{
    let refs = fi.n_ref_frames as int;
    let same = fi.num_same_ref_comp as int;
    let k = s.asked.len() as int;
    if i < refs + n - 2 + b2i(again) {
        let cur = ref_count(nx, i);
        let (taken, s1) = comp_ref_flag(s, fi, i, n, ref_ctx(cur, rem - cur), dir);
        let t = comp_refs(s, fi, nx, i, n, rem, dir, again, first).1;
        if taken != 0 && n == 0 {
            lemma_refs_told(
                s1,
                fi,
                nx,
                if again { i } else { i + 1 },
                1,
                if again { rem } else { rem - cur },
                fi.refdir[i] as int,
                false,
                i,
            );
        } else if taken == 0 {
            lemma_refs_told(s1, fi, nx, i + 1, n, rem - cur, dir, again && i + 1 < same, first);
        }
        assert forall|j: int| 0 <= j < k implies #[trigger] t.asked[j] == s.asked[j] by {
            assert(s1.asked[j] == s.asked[j]);
        }
        if s1.asked.len() > k {
            assert(t.asked[k] == s1.asked[k]);
        }
    }
}

/// The references of a compound are those whose flags are set, the first one
/// never after the second one. A reference is taken twice only where that is
/// allowed, or where it is the last one.
pub proof fn law_set_flags_name_the_references(s: Sym, fi: SbFrameInfo, nx: NxInter)
    requires
        comp_valid(fi),
    ensures
        ({
            let ((r0, r1), t) = comp_references(s, fi, nx);
            &&& t.replies == s.replies
            &&& refs_told(t, s.asked.len() as int, r0, r1)
            &&& 0 <= r0 <= r1 < fi.n_ref_frames
            &&& r0 == r1 && fi.n_ref_frames > 1 ==> r0 < fi.num_same_ref_comp || r0
                == fi.n_ref_frames - 1
        }),
{
    if fi.n_ref_frames > 1 {
        lemma_refs_told(s, fi, nx, 0, 0, frame_refs(nx), 0, fi.num_same_ref_comp > 0, 0);
    }
}

/// The mode of a compound. With one reference taken twice the symbol leaves
/// out the mode that is new for the first vector only. Otherwise a flag tells
/// the joint mode, and the symbol counts through the others. Refinement by
/// optical flow moves the mode to its refined form.
pub proof fn law_compound_mode_counts_up(s: Sym, fi: SbFrameInfo, b: BlockPos, r0: int, r1: int)
    ensures
        ({
            let ((mode, ctx), t) = comp_mode(s, fi, b, r0, r1);
            let k = s.asked.len() as int;
            let plain = if r0 == r1 {
                let v = t.got(k + 1);
                if v < 2 { NEAR_MV_NEAR_MV + v } else { GLOBAL_MV_GLOBAL_MV + v - 2 }
            } else if t.got(k + 1) == 1 {
                JOINT_NEW_MV as int
            } else {
                NEAR_MV_NEAR_MV + t.got(k + 2)
            };
            let e = t.asked.len() - 1;
            let refined = (t.asked[e] matches Request::Bool(Cdf::Opfl(_))) && t.got(e) == 1;
            &&& t.replies == s.replies
            &&& ctx == t.got(k)
            &&& !refined ==> mode == plain
            &&& refined ==> plain != GLOBAL_MV_GLOBAL_MV && fi.refdir[r0] != fi.refdir[r1]
            &&& refined && plain == NEAR_MV_NEAR_MV ==> mode == OPFL_NEAR_MV_NEAR_MV
            &&& refined && plain == NEW_MV_NEW_MV ==> mode == OPFL_NEW_MV_NEW_MV
            &&& refined && plain == JOINT_NEW_MV ==> mode == OPFL_JOINT_NEW_MV
            &&& refined ==> (first_is_new(mode) <==> first_is_new(plain)) && (second_is_new(mode)
                <==> second_is_new(plain))
        }),
{
}

/// Which vectors a compound mode codes: its name says so for the first and for
/// the second one.
pub proof fn law_new_modes_code_vectors()
    ensures
        !first_is_new(NEAR_MV_NEAR_MV as int) && !second_is_new(NEAR_MV_NEAR_MV as int),
        !first_is_new(NEAR_MV_NEW_MV as int) && second_is_new(NEAR_MV_NEW_MV as int),
        first_is_new(crate::levels::NEW_MV_NEAR_MV as int) && !second_is_new(
            crate::levels::NEW_MV_NEAR_MV as int,
        ),
        !first_is_new(GLOBAL_MV_GLOBAL_MV as int) && !second_is_new(GLOBAL_MV_GLOBAL_MV as int),
        first_is_new(NEW_MV_NEW_MV as int) && second_is_new(NEW_MV_NEW_MV as int),
        first_is_new(JOINT_NEW_MV as int) && second_is_new(JOINT_NEW_MV as int),
        !first_is_new(OPFL_NEAR_MV_NEAR_MV as int) && !second_is_new(OPFL_NEAR_MV_NEAR_MV as int),
        !first_is_new(crate::levels::OPFL_NEAR_MV_NEW_MV as int) && second_is_new(
            crate::levels::OPFL_NEAR_MV_NEW_MV as int,
        ),
        first_is_new(crate::levels::OPFL_NEW_MV_NEAR_MV as int) && !second_is_new(
            crate::levels::OPFL_NEW_MV_NEAR_MV as int,
        ),
        first_is_new(OPFL_NEW_MV_NEW_MV as int) && second_is_new(OPFL_NEW_MV_NEW_MV as int),
        first_is_new(OPFL_JOINT_NEW_MV as int) && second_is_new(OPFL_JOINT_NEW_MV as int),
{
}

/// A joint mode codes one difference, that of the reference further away, the
/// first one where both are as far. Other modes code one for each new vector.
pub proof fn law_joint_modes_code_the_further_reference(
    fi: SbFrameInfo,
    mode: int,
    r0: int,
    r1: int,
)
    ensures
        ({
            let (c0, c1) = mvds_coded(fi, mode, r0, r1);
            let joint = mode == JOINT_NEW_MV || mode == OPFL_JOINT_NEW_MV;
            &&& joint && fi.absrefdist[r0] >= fi.absrefdist[r1] ==> c0 && !c1
            &&& joint && fi.absrefdist[r0] < fi.absrefdist[r1] ==> !c0 && c1
            &&& !joint ==> c0 == first_is_new(mode) && c1 == second_is_new(mode)
        }),
{
}

/// The candidates of both vectors: none for global motion, two indices for the
/// modes that pair different candidates, and one for both otherwise.
pub proof fn law_candidates_of_both_vectors(s: Sym, last: int, mode: int, same: bool, ctx: int)
    requires
        0 <= last,
    ensures
        ({
            let ((d0, d1), t) = comp_drl(s, last, mode, same, ctx);
            let (i0, s1) = drl_index(s, DrlKind::Plain(ctx as usize), 0, last);
            &&& mode == GLOBAL_MV_GLOBAL_MV ==> d0 == 0 && d1 == 0 && t == s
            &&& mode != GLOBAL_MV_GLOBAL_MV ==> d0 == i0
            &&& mode > NEAR_MV_NEW_MV && mode != GLOBAL_MV_GLOBAL_MV ==> d1 == d0 && t == s1
            &&& mode == NEAR_MV_NEAR_MV && same && d0 < last ==> d1 > d0
            &&& mode == NEAR_MV_NEAR_MV && same && d0 == last ==> d1 == last
            &&& mode == NEAR_MV_NEW_MV || mode == NEAR_MV_NEAR_MV && !same ==> d1 == drl_index(
                s1,
                DrlKind::Plain(ctx as usize),
                0,
                last,
            ).0
        }),
{
    let (i0, s1) = drl_index(s, DrlKind::Plain(ctx as usize), 0, last);
    crate::mvsyntax::law_drl_index_in_range(s, DrlKind::Plain(ctx as usize), 0, last);
    crate::mvsyntax::law_drl_index_in_range(
        s1,
        DrlKind::Plain(ctx as usize),
        i0 + b2i(i0 < last),
        last,
    );
}

/// How two predictions are combined: by their mean, unless a flag says that
/// they are masked; a second flag tells a wedge from a mask by difference. The
/// sign of either follows.
pub proof fn law_masks_follow_their_flags(
    s: Sym,
    fi: SbFrameInfo,
    bs: BlockSize,
    nx: NxInter,
    x: InterSyntax,
)
    requires
        x.inter_mode <= JOINT_NEW_MV,
        x.refine_mv != 1,
        x.inter_mode != JOINT_NEW_MV || x.amvd == 0,
        fi.masked_compound,
        2 <= bs.w4() <= 16,
        2 <= bs.h4() <= 16,
    ensures
        ({
            let (y, t) = with_comp_type(s, fi, bs, nx, x);
            let k = s.asked.len() as int;
            let (w, u) = wedge_idx(s.push(t.asked[k]).push(t.asked[k + 1]));
            &&& t.asked[k] matches Request::Bool(Cdf::CompTypeMasked(_))
            &&& t.got(k) == 0 ==> y == (InterSyntax { comp_type: COMP_AVG, ..x })
            &&& t.got(k) == 1 ==> t.asked[k + 1] == Request::Bool(Cdf::CompTypeWeighted)
            &&& t.got(k) == 1 && t.got(k + 1) == 1 ==> y.comp_type == COMP_SEG && y.mask_sign
                == t.got(k + 2)
            &&& t.got(k) == 1 && t.got(k + 1) == 0 ==> y.comp_type == COMP_WEDGE && y.wedge_idx
                == w as i8 && y.wedge_sign == t.got(k + 5) && t.asked.len() == k + 6
        }),
{
    reveal(with_comp_type);
}

/// The weight of the first prediction in sixteenths: one half unless it is
/// coded. The coded ones are three quarters and one quarter, and then milder
/// ones for references on the same side and stronger ones on opposite sides.
pub proof fn law_weights_follow_their_index(s: Sym, fi: SbFrameInfo, x: InterSyntax)
    ensures
        ({
            let (w, t) = cwp_read(s, fi, x);
            let n = cwp_index(s, 0).0;
            let apart = fi.refdir[x.ref0 as int] != fi.refdir[x.ref1 as int];
            let coded = x.refine_mv == 0 && x.jmvd_scale == 0 && fi.cwp && x.comp_type == COMP_AVG
                && (x.inter_mode == NEAR_MV_NEAR_MV || x.inter_mode == JOINT_NEW_MV);
            &&& !coded ==> w == 8 && t == s
            &&& coded && n == 0 ==> w == 8
            &&& coded && n == 1 ==> w == 12
            &&& coded && n == 2 ==> w == 4
            &&& coded && n == 3 ==> w == (if apart { 20int } else { 10 })
            &&& coded && n == 4 ==> w == (if apart { -4int } else { 6 })
        }),
{
    reveal(cwp_read);
}

/// The index of a weight is the number of flags that were set, up to four.
pub proof fn law_weight_index_counts_flags(s: Sym, n: int)
    requires
        0 <= n <= 4,
    ensures
        ({
            let (r, t) = cwp_index(s, n);
            let k = s.asked.len() as int;
            &&& n <= r <= 4
            &&& t.replies == s.replies
            &&& forall|j: int| 0 <= j < k ==> #[trigger] t.asked[j] == s.asked[j]
            &&& forall|j: int| k <= j < k + r - n ==> #[trigger] t.got(j) == 1
            &&& r < 4 ==> t.got(k + r - n) == 0 && t.asked.len() == k + r - n + 1
            &&& r == 4 ==> t.asked.len() == k + r - n
        }),
    decreases 4 - n,
{
    if n < 4 {
        let (more, s1) = s.flag(Cdf::CwpIdx(n as usize));
        if more != 0 {
            law_weight_index_counts_flags(s1, n + 1);
            let t = cwp_index(s1, n + 1).1;
            let k = s.asked.len() as int;
            assert(t.asked[k] == s1.asked[k]);
            assert(t.got(k) == 1);
            assert forall|j: int| 0 <= j < k implies #[trigger] t.asked[j] == s.asked[j] by {
                assert(s1.asked[j] == s.asked[j]);
            }
        }
    }
}

/// Whether the vectors are refined by matching: implied for the modes that code
/// nothing new and for the refined joint one, flagged for others, and never
/// where the references do not lie at the same distance on opposite sides.
pub proof fn law_refinement_needs_a_symmetric_pair(
    s: Sym,
    fi: SbFrameInfo,
    bs: BlockSize,
    x: InterSyntax,
)
    ensures
        ({
            let (r, t) = refine_read(s, fi, bs, x);
            let k = s.asked.len() as int;
            let symmetric = fi.refdist[x.ref0 as int] + fi.refdist[x.ref1 as int] == 0;
            let large = bs.w4() >= 2 && bs.h4() >= 2 && bs.w4() * bs.h4() > 4;
            let mode = x.inter_mode;
            let implied = mode == NEAR_MV_NEAR_MV || mode == OPFL_NEAR_MV_NEAR_MV || mode
                == OPFL_JOINT_NEW_MV;
            &&& !symmetric || !large || !fi.refine_mv_enabled || mode == GLOBAL_MV_GLOBAL_MV ==> r
                == 0 && t == s
            &&& symmetric && large && fi.refine_mv_enabled && implied ==> r == 2 && t == s
            &&& t.asked.len() > k ==> (t.asked[k] matches Request::Bool(Cdf::RefineMv(_))) && r
                == t.got(k) && !implied
            &&& symmetric && large && fi.refine_mv_enabled && mode != GLOBAL_MV_GLOBAL_MV && !implied
                && mode < OPFL_NEAR_MV_NEAR_MV ==> t.asked.len() > k
        }),
{
    reveal(refine_read);
}

/// The interpolation filter: the smooth one for refined blocks, that of the
/// frame where it fixes one, and a coded one otherwise.
pub proof fn law_compound_filter(
    s: Sym,
    fi: SbFrameInfo,
    bs: BlockSize,
    a: BlockContext,
    l: BlockContext,
    nb: SbNb,
    x: InterSyntax,
)
    ensures
        ({
            let (f, t) = comp_filter(s, fi, bs, a, l, nb, x);
            let k = s.asked.len() as int;
            &&& x.refine_mv != 0 || x.inter_mode >= OPFL_NEAR_MV_NEAR_MV ==> f == 2 && t == s
            &&& x.refine_mv == 0 && x.inter_mode < OPFL_NEAR_MV_NEAR_MV && fi.subpel_filter_mode
                != 4 ==> f == fi.subpel_filter_mode && t == s
            &&& t.asked.len() > k ==> f == t.got(k) && fi.subpel_filter_mode == 4
            &&& x.refine_mv == 0 && x.inter_mode < OPFL_NEAR_MV_NEAR_MV && fi.subpel_filter_mode
                == 4 && x.inter_mode != GLOBAL_MV_GLOBAL_MV ==> t.asked.len() == k + 1
        }),
{
    reveal(comp_filter);
}

/// Whether differences are adaptive is a flag of the modes with a new vector;
/// a joint mode then names the scale of its other difference.
pub proof fn law_joint_modes_name_a_scale(s: Sym, fi: SbFrameInfo, nx: NxInter, mode: int, r0: int)
    ensures
        ({
            let ((amvd, scale), t) = comp_amvd(s, fi, nx, mode, r0);
            let k = s.asked.len() as int;
            let new = first_is_new(mode) || second_is_new(mode);
            let joint = mode == JOINT_NEW_MV || mode == OPFL_JOINT_NEW_MV;
            &&& !fi.adaptive_mvd || !new ==> amvd == 0
            &&& fi.adaptive_mvd && new ==> (t.asked[k] matches Request::Bool(Cdf::Amvd(_, _)))
                && amvd == t.got(k)
            &&& !joint ==> scale == 0
            &&& joint && fi.adaptive_mvd ==> scale == t.got(k + 1) && t.asked[k + 1] == (if amvd
                == 1 {
                Request::Symbol(Cdf::JmvdAmvdScaleMode, 2)
            } else {
                Request::Symbol(Cdf::JmvdScaleMode, 4)
            })
            &&& joint && !fi.adaptive_mvd ==> scale == t.got(k) && t.asked[k] == Request::Symbol(
                Cdf::JmvdScaleMode,
                4,
            )
        }),
{
    reveal(comp_amvd);
}

/// Interpolated blocks and compounds are flagged where they are allowed. A
/// block in skip mode has the two references of the frame for it and takes
/// their mean.
pub proof fn law_inter_blocks_are_flagged(
    s: Sym,
    fi: SbFrameInfo,
    b: BlockPos,
    lbs: BlockSize,
    cbs: BlockSize,
    fixed: bool,
    a: BlockContext,
    l: BlockContext,
    nx: NxInter,
    nb: SbNb,
)
    ensures
        ({
            let (x, t) = inter_syntax(s, fi, b, lbs, cbs, true, fixed, a, l, nx, nb);
            let (tip, u) = tip_flag(s, fi, lbs, cbs, false, nx);
            let (comp, v) = comp_flag(s, fi, b.bs, fixed, false, nx);
            let k = s.asked.len() as int;
            &&& x.ref0 == fi.skip_mode_refs.r[0]
            &&& x.ref1 == fi.skip_mode_refs.r[1]
            &&& x.comp_type == COMP_AVG
            &&& x.drl0 == drl_index(s, DrlKind::SkipMode, 0, fi.max_drl_bits as int).0 as u8
            &&& fi.tip_frame_mode == 0 || cbs != lbs ==> tip == 0 && u == s
            &&& u.asked.len() > k ==> tip == u.got(k) && (u.asked[k] matches Request::Bool(
                Cdf::Tip(_),
            ))
            &&& fixed || !fi.switchable_comp_refs || b.bs.w4() * b.bs.h4() < 4 ==> comp == 0 && v
                == s
            &&& !fixed && fi.switchable_comp_refs && b.bs.w4() * b.bs.h4() >= 4 ==> comp == v.got(k)
                && (v.asked[k] matches Request::Bool(Cdf::Comp(_)))
        }),
{
}

/// A block is flagged to be built from the interpolated frame where there is
/// one and it has more than one unit of luma and its own chroma.
pub proof fn law_interpolated_blocks_are_flagged(
    s: Sym,
    fi: SbFrameInfo,
    lbs: BlockSize,
    cbs: BlockSize,
    skip_mode: bool,
    nx: NxInter,
)
    requires
        lbs != BlockSize::Invalid,
    ensures
        ({
            let (v, t) = tip_flag(s, fi, lbs, cbs, skip_mode, nx);
            let n = s.asked.len() as int;
            &&& t.asked.len() == n ==> v == 0
            &&& skip_mode || fi.tip_frame_mode == 0 || cbs != lbs || lbs == BlockSize::Bs4x4
                ==> t == s
            &&& !skip_mode && fi.tip_frame_mode != 0 && cbs == lbs && lbs != BlockSize::Bs4x4
                ==> t.asked.len() == n + 1 && v == t.got(n) && (t.asked[n] matches Request::Bool(
                Cdf::Tip(c),
            ) && c == tip_ctx(nx))
        }),
{
    reveal(BlockSize::w4);
    reveal(BlockSize::h4);
    crate::levels::lemma_block_dimensions(lbs);
}

/// Two references are flagged for blocks of at least four units, unless the
/// references are fixed or the block is built from the interpolated frame.
pub proof fn law_second_reference_is_flagged(
    s: Sym,
    fi: SbFrameInfo,
    bs: BlockSize,
    fixed: bool,
    is_tip: bool,
    nx: NxInter,
)
    requires
        bs != BlockSize::Invalid,
    ensures
        ({
            let (v, t) = comp_flag(s, fi, bs, fixed, is_tip, nx);
            let n = s.asked.len() as int;
            &&& is_tip || !fi.switchable_comp_refs && !fixed ==> v == 0
            &&& !is_tip && !fixed && fi.switchable_comp_refs && bs.w4() >= 2 && bs.h4() >= 2
                ==> t.asked.len() == n + 1 && v == t.got(n) && (t.asked[n] matches Request::Bool(
                Cdf::Comp(_),
            ))
            &&& bs == BlockSize::Bs4x4 || bs == BlockSize::Bs8x4 || bs == BlockSize::Bs4x8 ==> t == s
        }),
{
    reveal(BlockSize::w4);
    reveal(BlockSize::h4);
    let (w, h) = (bs.w4(), bs.h4());
    assert(w >= 2 && h >= 2 ==> w * h >= 4) by (nonlinear_arith);
    assert(w == 1 ==> w * h == h) by (nonlinear_arith);
    assert(h == 1 ==> w * h == w) by (nonlinear_arith);
}

/// The differences of a block with two references: each that is coded has the
/// magnitudes that were read for it, the first before the second, at the
/// precision of the block or adaptively.
pub proof fn law_coded_differences_come_in_order(s: Sym, fi: SbFrameInfo, x: InterSyntax)
    requires
        0 <= x.mv_prec <= 6,
    ensures
        ({
            let (r, t) = with_comp_mvds(s, fi, x);
            let (c0, c1) = mvds_coded(fi, x.inter_mode as int, x.ref0 as int, x.ref1 as int);
            let (d0, s1) = if !c0 {
                ((0, 0), s)
            } else if x.amvd == 0 {
                mv_residual(s, x.mv_prec as int)
            } else {
                mode_amvd(s)
            };
            let (d1, s2) = if !c1 {
                ((0, 0), s1)
            } else if x.amvd == 0 {
                mv_residual(s1, x.mv_prec as int)
            } else {
                mode_amvd(s1)
            };
            &&& 0 <= d0.0 <= 0x8_0000 && 0 <= d0.1 <= 0x8_0000 ==> abs(r.mvd0.y as int) == d0.0 && abs(
                r.mvd0.x as int,
            ) == d0.1
            &&& 0 <= d1.0 <= 0x8_0000 && 0 <= d1.1 <= 0x8_0000 ==> abs(r.mvd1.y as int) == d1.0 && abs(
                r.mvd1.x as int,
            ) == d1.1
            &&& r.ref0 == x.ref0 && r.ref1 == x.ref1 && r.inter_mode == x.inter_mode && r.drl0
                == x.drl0 && r.drl1 == x.drl1
        }),
{
    reveal(with_comp_mvds);
}

/// Signs of a pair of differences can follow from their sum only where both
/// are coded without adaptation from the first candidate.
pub proof fn law_signs_of_pairs_are_derived(fi: SbFrameInfo, x: InterSyntax, n: int, sum: int)
    requires
        0 <= n <= 4,
        0 <= sum,
        x.mv_prec == 3,
    ensures
        ({
            let r = comp_sign_rule(fi, x, n, sum);
            let joint = x.inter_mode == JOINT_NEW_MV || x.inter_mode == OPFL_JOINT_NEW_MV;
            let both = x.inter_mode == NEW_MV_NEW_MV || x.inter_mode == OPFL_NEW_MV_NEW_MV;
            let open = x.amvd == 0 && fi.mvd_sign_derive && x.drl0 == 0 && x.drl1 == 0
                && !fi.allow_screen_content_tools && fi.mv_precision != 3;
            &&& r.seen == 0
            &&& open && joint && n >= 1 ==> r.derived == n
            &&& open && both && n == 4 ==> r.derived == 4
            &&& open && both && n < 4 ==> r.derived == 5
            &&& !open || !(joint || both) ==> r.derived == 5
            &&& x.amvd == 0 ==> (r.odd <==> sum / 8 % 2 == 1)
        }),
{
    assert(p2(3) == 8);
}

/// With global motion a filter is coded only for blocks that are a single unit
/// wide or high.
pub proof fn law_thin_blocks_code_a_filter(
    s: Sym,
    fi: SbFrameInfo,
    bs: BlockSize,
    a: BlockContext,
    l: BlockContext,
    nb: SbNb,
    x: InterSyntax,
)
    requires
        x.refine_mv == 0,
        x.inter_mode == GLOBAL_MV_GLOBAL_MV,
        fi.subpel_filter_mode == 4,
        bs != BlockSize::Invalid,
    ensures
        ({
            let (f, t) = comp_filter(s, fi, bs, a, l, nb, x);
            let k = s.asked.len() as int;
            &&& bs.w4() == 1 || bs.h4() == 1 ==> t.asked.len() == k + 1 && f == t.got(k)
            &&& bs.w4() > 1 && bs.h4() > 1 ==> t == s && f == 0
        }),
{
    reveal(comp_filter);
    crate::levels::lemma_block_dimensions(bs);
}

} // verus!
