//! How a block names its motion vectors: candidate index, precision, coded
//! difference and signs.
use vstd::prelude::*;

use crate::block::{nb_at, neighbour_at, SbNb};
use crate::env::BlockContext;
use crate::frameinfo::SbFrameInfo;
use crate::intops::{b2i, min, p2, shr};
use crate::levels::MvXY;
use crate::msac::{Cdf, MsacContext, Request, Sym};
use crate::mvread::{mode_amvd, mv_residual, read_amvd, read_mv_full};
use crate::tables::MV_PREC_TBL;

verus! {

/// The distributions that a candidate index is coded with.
#[derive(Debug, Clone, Copy, PartialEq, Eq, Structural)]
pub enum DrlKind {
    SkipMode,
    Tip,
    Plain(usize),
    /// Equiprobable bits.
    Copied,
}

/// The flag that the candidate index is larger than `n`.
pub open spec fn drl_flag(s: Sym, kind: DrlKind, n: int) -> (int, Sym) {
    let ctx = min(n, 2) as usize;
    match kind {
        DrlKind::SkipMode => s.flag(Cdf::SkipModeDrlIdx(ctx)),
        DrlKind::Tip => s.flag(Cdf::TipDrlIdx(ctx)),
        DrlKind::Plain(c) => s.flag(Cdf::DrlIdx(ctx, c)),
        DrlKind::Copied => s.bits(1),
    }
}

/// A candidate index, counted up from `n` and at most `last`.
pub open spec fn drl_index(s: Sym, kind: DrlKind, n: int, last: int) -> (int, Sym)
    decreases last - n,
{
    if n >= last {
        (n, s)
    } else {
        let (more, s) = drl_flag(s, kind, n);
        if more == 0 {
            (n, s)
        } else {
            drl_index(s, kind, n + 1, last)
        }
    }
}

pub fn read_drl_index(kind: DrlKind, from: u8, last: u8, msac: &mut MsacContext) -> (r: u8)
    requires
        from <= last,
    ensures
        (r as int, final(msac)@) == drl_index(old(msac)@, kind, from as int, last as int),
        from <= r <= last,
{
    let ghost s0 = msac@;
    let mut n: u8 = from;
    let mut more: bool = true;
    while more && n < last
        invariant
            from <= n <= last,
            more ==> drl_index(s0, kind, from as int, last as int) == drl_index(
                msac@,
                kind,
                n as int,
                last as int,
            ),
            !more ==> drl_index(s0, kind, from as int, last as int) == (n as int, msac@),
        decreases last - n, b2i(more),
    {
        let ctx: usize = if n < 2 { n as usize } else { 2 };
        let v: u32 = match kind {
            DrlKind::SkipMode => msac.decode_bool_adapt(Cdf::SkipModeDrlIdx(ctx)),
            DrlKind::Tip => msac.decode_bool_adapt(Cdf::TipDrlIdx(ctx)),
            DrlKind::Plain(c) => msac.decode_bool_adapt(Cdf::DrlIdx(ctx, c)),
            DrlKind::Copied => msac.decode_bools_bypass(1),
        };
        if v == 0 {
            more = false;
        } else {
            n = n + 1;
        }
    }
    n
}

/// A candidate index lies between where it is counted from and its limit.
pub proof fn law_drl_index_in_range(s: Sym, kind: DrlKind, n: int, last: int)
    requires
        n <= last,
    ensures
        n <= drl_index(s, kind, n, last).0 <= last,
    decreases last - n,
{
    if n < last {
        let (more, s2) = drl_flag(s, kind, n);
        if more != 0 {
            law_drl_index_in_range(s2, kind, n + 1, last);
        }
    }
}

/// The precision of coded differences, then what later blocks see of it: 1 for
/// that of the frame and 2 for another.
pub open spec fn mv_precision(
    s: Sym,
    fi: SbFrameInfo,
    flexible: bool,
    a: BlockContext,
    l: BlockContext,
    nb: SbNb,
) -> ((int, int), Sym) {
    let prec = 3 + fi.mv_precision;
    if prec > 3 && flexible && fi.flex_mvres {
        let m0 = nb_at(a.mvprec, l.mvprec, nb, 0);
        let m1 = nb_at(a.mvprec, l.mvprec, nb, 1);
        let (usual, s) = s.flag(Cdf::MvprecDef((m0 % 2 + m1 % 2) as usize));
        if usual != 0 {
            ((prec, 1), s)
        } else {
            let (i, s) = s.symbol(
                Cdf::MvprecRem(b2i(m0 >= 2 || m1 >= 2) as usize, (prec - 4) as usize),
                2,
            );
            ((MV_PREC_TBL[b2i(prec == 6)][i] as int, 2), s)
        }
    } else {
        ((prec, 1), s)
    }
}

pub fn read_mv_precision(
    fi: &SbFrameInfo,
    flexible: bool,
    a: &BlockContext,
    l: &BlockContext,
    nb: &SbNb,
    msac: &mut MsacContext,
) -> (r: (i32, u8))
    requires
        fi.mv_precision <= 3,
        a.wf(),
        l.wf(),
        nb.p0.off < 64,
        nb.p1.off < 64,
    ensures
        ((r.0 as int, r.1 as int), final(msac)@) == mv_precision(
            old(msac)@,
            *fi,
            flexible,
            *a,
            *l,
            *nb,
        ),
        0 <= r.0 <= 6,
        1 <= r.1 <= 2,
{
    let prec: i32 = 3 + fi.mv_precision as i32;
    if prec > 3 && flexible && fi.flex_mvres {
        let m0: u8 = neighbour_at(&a.mvprec, &l.mvprec, nb, 0);
        let m1: u8 = neighbour_at(&a.mvprec, &l.mvprec, nb, 1);
        if msac.decode_bool_adapt(Cdf::MvprecDef((m0 % 2 + m1 % 2) as usize)) == 0 {
            let ctx: usize = if m0 >= 2 || m1 >= 2 { 1 } else { 0 };
            let i: usize = msac.decode_symbol_adapt(
                Cdf::MvprecRem(ctx, (prec - 4) as usize),
                2,
            ) as usize;
            let row: usize = if prec == 6 { 1 } else { 0 };
            return (MV_PREC_TBL[row][i] as i32, 2);
        }
    }
    (prec, 1)
}

/// A difference before its signs, `(y, x)`.
pub open spec fn mv_difference(s: Sym, adaptive: bool, prec: int) -> ((int, int), Sym) {
    if adaptive { mode_amvd(s) } else { mv_residual(s, prec) }
}

pub fn read_mv_difference(adaptive: bool, prec: i32, msac: &mut MsacContext) -> (r: MvXY)
    requires
        0 <= prec <= 6,
    ensures
        ((r.y as int, r.x as int), final(msac)@) == mv_difference(
            old(msac)@,
            adaptive,
            prec as int,
        ),
        0 <= r.y <= 0x8_0000,
        0 <= r.x <= 0x8_0000,
{
    if adaptive {
        read_amvd(msac).c
    } else {
        read_mv_full(msac, prec).c
    }
}

/// How the signs of differences are found: one by one as bits, except that the
/// sign of the `derived`-th component other than zero is negative where
/// `odd` holds. `seen` counts such components.
#[derive(Debug, Clone, Copy, PartialEq, Eq, Structural)]
pub struct SignRule {
    pub derived: u8,
    pub odd: bool,
    pub seen: u8,
}

/// A component with its sign.
pub open spec fn signed(s: Sym, v: int, rule: SignRule) -> ((int, SignRule), Sym) {
    if v == 0 {
        ((v, rule), s)
    } else {
        let next = SignRule { seen: (rule.seen + 1) as u8, ..rule };
        let (neg, s) = if next.seen == rule.derived {
            (b2i(rule.odd), s)
        } else {
            s.bit()
        };
        ((if neg != 0 { -v } else { v }, next), s)
    }
}

fn read_sign(v: i32, rule: &mut SignRule, msac: &mut MsacContext) -> (r: i32)
    requires
        v > i32::MIN,
        old(rule).seen < 100,
    ensures
        ((r as int, *final(rule)), final(msac)@) == signed(old(msac)@, v as int, *old(rule)),
        r == v || r == -v,
        final(rule).seen <= old(rule).seen + 1,
{
    if v == 0 {
        return 0;
    }
    rule.seen = rule.seen + 1;
    let neg: bool = if rule.seen == rule.derived {
        rule.odd
    } else {
        msac.decode_bool_bypass() != 0
    };
    if neg { -v } else { v }
}

/// A difference with its signs: first the vertical component, then the
/// horizontal one.
pub open spec fn signed_pair(s: Sym, y: int, x: int, rule: SignRule) -> ((int, int, SignRule), Sym) {
    let ((y, rule), s) = signed(s, y, rule);
    let ((x, rule), s) = signed(s, x, rule);
    ((y, x, rule), s)
}

pub fn read_signs(mv: MvXY, rule: &mut SignRule, msac: &mut MsacContext) -> (r: MvXY)
    requires
        mv.y > i32::MIN,
        mv.x > i32::MIN,
        old(rule).seen < 90,
    ensures
        ((r.y as int, r.x as int, *final(rule)), final(msac)@) == signed_pair(
            old(msac)@,
            mv.y as int,
            mv.x as int,
            *old(rule),
        ),
        r.y == mv.y || r.y == -mv.y,
        r.x == mv.x || r.x == -mv.x,
        final(rule).seen <= old(rule).seen + 2,
{
    let y: i32 = read_sign(mv.y, rule, msac);
    let x: i32 = read_sign(mv.x, rule, msac);
    MvXY { y, x }
}

/// Signs change no magnitude.
pub proof fn law_signs_keep_magnitude(s: Sym, y: int, x: int, rule: SignRule)
    ensures
        crate::intops::abs(signed_pair(s, y, x, rule).0.0) == crate::intops::abs(y),
        crate::intops::abs(signed_pair(s, y, x, rule).0.1) == crate::intops::abs(x),
{
}

/// Whether `sum`, in steps of the precision, is odd.
pub open spec fn odd_steps(sum: int, prec: int) -> bool {
    sum / p2(6 - prec) % 2 == 1
}

pub fn is_odd_steps(sum: i32, prec: i32) -> (r: bool)
    requires
        0 <= sum,
        0 <= prec <= 6,
    ensures
        r == odd_steps(sum as int, prec as int),
{
    shr(sum, (6 - prec) as u32) % 2 == 1
}

/// A candidate index is the number of flags that were set before the first one
/// that was not, or the limit where all of them were.
pub proof fn law_candidate_index_counts_flags(s: Sym, kind: DrlKind, n: int, last: int)
    requires
        0 <= n <= last,
    ensures
        ({
            let (r, t) = drl_index(s, kind, n, last);
            let k = s.asked.len() as int;
            &&& n <= r <= last
            &&& t.replies == s.replies
            &&& t.asked.len() == k + r - n + (if r < last { 1int } else { 0 })
            &&& forall|j: int| 0 <= j < k ==> #[trigger] t.asked[j] == s.asked[j]
            &&& forall|j: int| k <= j < k + r - n ==> #[trigger] t.got(j) == 1
            &&& r < last ==> t.got(k + r - n) == 0
        }),
    decreases last - n,
{
    assert(p2(1) == 2);
    if n < last {
        let (more, s1) = drl_flag(s, kind, n);
        if more != 0 {
            law_candidate_index_counts_flags(s1, kind, n + 1, last);
            let t = drl_index(s1, kind, n + 1, last).1;
            let k = s.asked.len() as int;
            assert(t.asked[k] == s1.asked[k]);
            assert(t.got(k) == 1);
            assert forall|j: int| 0 <= j < k implies #[trigger] t.asked[j] == s.asked[j] by {
                assert(s1.asked[j] == s.asked[j]);
            }
        }
    }
}

/// The precision of a block is that of the frame where the flag says so or no
/// flag is coded, and otherwise a coarser one: later symbols are coarser.
pub proof fn law_coded_precision_is_coarser(
    s: Sym,
    fi: SbFrameInfo,
    flexible: bool,
    a: BlockContext,
    l: BlockContext,
    nb: SbNb,
)
    requires
        fi.mv_precision <= 3,
    ensures
        ({
            let ((p, seen), t) = mv_precision(s, fi, flexible, a, l, nb);
            let k = s.asked.len() as int;
            &&& t.asked.len() == k ==> p == 3 + fi.mv_precision && seen == 1
            &&& t.asked.len() > k && t.got(k) == 1 ==> p == 3 + fi.mv_precision && seen == 1
            &&& t.asked.len() > k && t.got(k) == 0 ==> {
                let i = t.got(k + 1);
                &&& seen == 2
                &&& p < 3 + fi.mv_precision
                &&& fi.mv_precision == 3 ==> p == (if i == 0 { 4int } else if i == 1 { 3 } else { 1 })
                &&& fi.mv_precision < 3 ==> p == (if i == 0 { 3int } else if i == 1 { 1 } else { 0 })
            }
            &&& t.asked.len() > k <==> fi.mv_precision > 0 && flexible && fi.flex_mvres
        }),
{
}

/// Signs are read for the components other than zero, the vertical one first.
/// A set bit makes the component negative. The sign of the derived component
/// is not read: it is negative where the rule says odd.
pub proof fn law_set_bits_make_negative(s: Sym, y: int, x: int, rule: SignRule)
    requires
        y >= 0,
        x >= 0,
        rule.seen < 90,
    ensures
        ({
            let ((v, h, after), t) = signed_pair(s, y, x, rule);
            let k = s.asked.len() as int;
            let n = rule.seen;
            &&& y > 0 && rule.derived != n + 1 ==> t.asked[k] is Bit && (v < 0 <==> t.got(k) == 1)
            &&& y > 0 && rule.derived == n + 1 ==> (v < 0 <==> rule.odd)
            &&& y == 0 && x > 0 && rule.derived != n + 1 ==> t.asked[k] is Bit && (h < 0
                <==> t.got(k) == 1)
            &&& y == 0 && x > 0 && rule.derived == n + 1 ==> (h < 0 <==> rule.odd)
            &&& y > 0 && x > 0 && rule.derived == n + 2 ==> (h < 0 <==> rule.odd)
            &&& y > 0 && x > 0 && rule.derived == n + 1 ==> (h < 0 <==> t.got(k) == 1)
            &&& y > 0 && x > 0 && rule.derived != n + 1 && rule.derived != n + 2 ==> (h < 0
                <==> t.got(k + 1) == 1)
            &&& v == y || v == -y
            &&& h == x || h == -x
            &&& after.seen == n + (if y > 0 { 1int } else { 0 }) + (if x > 0 { 1int } else { 0 })
        }),
{
}

/// Whether the precision of a block is the usual one is coded under the number
/// of neighbours that have it; how much coarser it is otherwise, under whether
/// a neighbour has a coarser one.
pub proof fn law_precision_goes_by_the_neighbours(
    s: Sym,
    fi: SbFrameInfo,
    a: BlockContext,
    l: BlockContext,
    nb: SbNb,
)
    requires
        fi.flex_mvres,
        1 <= fi.mv_precision <= 3,
    ensures
        ({
            let (r, t) = mv_precision(s, fi, true, a, l, nb);
            let k = s.asked.len() as int;
            let (m0, m1) = (nb_at(a.mvprec, l.mvprec, nb, 0), nb_at(a.mvprec, l.mvprec, nb, 1));
            &&& t.asked[k] matches Request::Bool(Cdf::MvprecDef(c)) && (m0 <= 2 && m1 <= 2 ==> c
                == b2i(m0 == 1) + b2i(m1 == 1))
            &&& t.asked.len() > k + 1 ==> (t.asked[k + 1] matches Request::Symbol(
                Cdf::MvprecRem(c, p),
                n,
            ) && n == 2 && p + 1 == fi.mv_precision && (c == 1 <==> m0 >= 2 || m1 >= 2))
        }),
{
}

} // verus!
