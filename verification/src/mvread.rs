//! Motion-vector differences and wedge indices.
use vstd::prelude::*;

use crate::intops::{imin, inv_recenter, min, p2, recentred, POW2};
use crate::levels::{Mv, MvXY};
use crate::msac::{Cdf, MsacContext, Request, Sym};
use crate::tables::WEDGE_ANGLE_DIST2IDX;

verus! {

/// Angles for which the wedge through the centre is not coded: it is that of
/// the opposite angle, or one of the two that split the block in halves.
pub open spec fn wedge_off_centre(angle: int) -> bool {
    angle == 0 || angle == 5 || angle >= 10
}

/// A wedge: quadrant, angle within the quadrant, distance from the centre.
pub open spec fn wedge_idx(s: Sym) -> (int, Sym) {
    let (quad, s) = s.symbol(Cdf::WedgeQuad, 3);
    let (a, s) = s.symbol(Cdf::WedgeAngle(quad as usize), 4);
    let angle = 5 * quad + a;
    if wedge_off_centre(angle) {
        let (d, s) = s.symbol(Cdf::WedgeDist2, 2);
        (WEDGE_ANGLE_DIST2IDX[angle][1 + d] as int, s)
    } else {
        let (d, s) = s.symbol(Cdf::WedgeDist, 3);
        (WEDGE_ANGLE_DIST2IDX[angle][d] as int, s)
    }
}

pub fn read_wedge_idx(msac: &mut MsacContext) -> (r: i8)
    ensures
        (r as int, final(msac)@) == wedge_idx(old(msac)@),
        0 <= r <= 67,
{
    let quad: usize = msac.decode_symbol_adapt(Cdf::WedgeQuad, 3) as usize;
    let angle: usize = 5 * quad + msac.decode_symbol_adapt(Cdf::WedgeAngle(quad), 4) as usize;
    proof {
        lemma_wedge_table(angle as int);
    }
    if angle == 0 || angle == 5 || angle >= 10 {
        let dist: usize = 1 + msac.decode_symbol_adapt(Cdf::WedgeDist2, 2) as usize;
        WEDGE_ANGLE_DIST2IDX[angle][dist]
    } else {
        let dist: usize = msac.decode_symbol_adapt(Cdf::WedgeDist, 3) as usize;
        WEDGE_ANGLE_DIST2IDX[angle][dist]
    }
}

proof fn lemma_wedge_table(angle: int)
    requires
        0 <= angle < 20,
    ensures
        forall|d: int| 1 <= d < 4 ==> 0 <= #[trigger] WEDGE_ANGLE_DIST2IDX[angle][d] <= 67,
        !wedge_off_centre(angle) ==> 0 <= WEDGE_ANGLE_DIST2IDX[angle][0] <= 67,
{
}

/// The index names the wedge: two wedges that can be coded and share their
/// index are the same wedge.
pub proof fn law_wedge_index_is_unique(a1: int, d1: int, a2: int, d2: int)
    requires
        0 <= a1 < 20,
        0 <= d1 < 4,
        wedge_off_centre(a1) ==> d1 > 0,
        0 <= a2 < 20,
        0 <= d2 < 4,
        wedge_off_centre(a2) ==> d2 > 0,
        WEDGE_ANGLE_DIST2IDX[a1][d1] == WEDGE_ANGLE_DIST2IDX[a2][d2],
    ensures
        a1 == a2,
        d1 == d2,
{
    lemma_wedge_formula(a1, d1);
    lemma_wedge_formula(a2, d2);
}

/// The angle that holds the wedge with index `i`.
pub open spec fn wedge_angle_of(i: int) -> int {
    if i < 3 {
        0
    } else if i < 19 {
        1 + (i - 3) / 4
    } else if i < 22 {
        5
    } else if i < 38 {
        6 + (i - 22) / 4
    } else {
        10 + (i - 38) / 3
    }
}

/// The distance of the wedge with index `i`.
pub open spec fn wedge_dist_of(i: int) -> int {
    if i < 3 {
        i + 1
    } else if i < 19 {
        (i - 3) % 4
    } else if i < 22 {
        i - 18
    } else if i < 38 {
        (i - 22) % 4
    } else {
        1 + (i - 38) % 3
    }
}

proof fn lemma_wedge_formula(a: int, d: int)
    requires
        0 <= a < 20,
        0 <= d < 4,
        wedge_off_centre(a) ==> d > 0,
    ensures
        wedge_angle_of(WEDGE_ANGLE_DIST2IDX[a][d] as int) == a,
        wedge_dist_of(WEDGE_ANGLE_DIST2IDX[a][d] as int) == d,
{
}

/// The offset coded by a four-way bin and the bits that follow it.
pub open spec fn four_way_offset(bin: int, rem: int, n_bits: int) -> int {
    (if bin == 0 { 0 } else { p2(n_bits + bin - 4) }) + rem
}

/// The number of bits that follow a four-way bin.
pub open spec fn four_way_bits(bin: int, n_bits: int) -> int {
    if bin == 0 { n_bits - 3 } else { n_bits + bin - 4 }
}

/// A number of `n_bits` bits coded relative to `r`.
pub open spec fn four_way_value(r: int, v: int, n_bits: int) -> int {
    let n = p2(n_bits);
    if r * 2 <= n { recentred(r, v) } else { n - 1 - recentred(n - 1 - r, v) }
}

pub open spec fn four_way(s: Sym, r: int, cdf: Cdf, n_bits: int) -> (int, Sym) {
    let (bin, s) = s.symbol(cdf, 3);
    let (rem, s) = s.bits(four_way_bits(bin, n_bits));
    (four_way_value(r, four_way_offset(bin, rem, n_bits), n_bits), s)
}

pub fn decode_4way(msac: &mut MsacContext, r: i32, cdf: Cdf, n_bits: i32) -> (res: i32)
    requires
        3 <= n_bits <= 29,
        0 <= r < p2(n_bits as int),
    ensures
        (res as int, final(msac)@) == four_way(old(msac)@, r as int, cdf, n_bits as int),
        0 <= res < p2(n_bits as int),
{
    let bin: i32 = msac.decode_symbol_adapt(cdf, 3) as i32;
    let extra: i32 = if bin == 0 { 1 } else { 0 };
    let rem: i32 = msac.decode_bools_bypass((n_bits + bin + extra - 4) as u32) as i32;
    proof {
        lemma_pow2_steps();
        law_four_way_offset_in_range(bin as int, rem as int, n_bits as int);
    }
    let base: i32 = if bin != 0 { POW2[(n_bits + bin - 4) as usize] as i32 } else { 0 };
    let v: i32 = base + rem;
    let n: i32 = POW2[n_bits as usize] as i32;
    proof {
        law_four_way_in_range(r as int, v as int, n_bits as int);
    }
    if r * 2 <= n {
        inv_recenter(r as u32, v as u32) as i32
    } else {
        n - 1 - inv_recenter((n - 1 - r) as u32, v as u32) as i32
    }
}

/// The table of powers doubles from entry to entry.
pub proof fn lemma_pow2_steps()
    ensures
        forall|k: int| 1 <= k <= 32 ==> #[trigger] POW2[k] == 2 * POW2[k - 1],
        forall|k: int| 0 <= k <= 32 ==> 1 <= #[trigger] POW2[k],
        forall|k: int| 0 <= k <= 30 ==> #[trigger] POW2[k] <= 0x4000_0000,
{
}

/// Every offset that a four-way bin can code lies below `2^n_bits`.
pub proof fn law_four_way_offset_in_range(bin: int, rem: int, n_bits: int)
    requires
        3 <= n_bits <= 29,
        0 <= bin <= 3,
        0 <= rem < p2(four_way_bits(bin, n_bits)),
    ensures
        0 <= four_way_offset(bin, rem, n_bits) < p2(n_bits),
{
    lemma_pow2_steps();
    assert(POW2[n_bits] == 2 * POW2[n_bits - 1]);
    assert(POW2[n_bits - 1] == 2 * POW2[n_bits - 2]);
    assert(POW2[n_bits - 2] == 2 * POW2[n_bits - 3]);
}

/// Coding relative to a reference permutes the numbers of `n_bits` bits: the
/// value is one of them, and different offsets give different values.
pub proof fn law_four_way_in_range(r: int, v: int, n_bits: int)
    requires
        3 <= n_bits <= 29,
        0 <= r < p2(n_bits),
        0 <= v < p2(n_bits),
    ensures
        0 <= four_way_value(r, v, n_bits) < p2(n_bits),
        forall|w: int|
            0 <= w < p2(n_bits) && #[trigger] four_way_value(r, w, n_bits) == four_way_value(
                r,
                v,
                n_bits,
            ) ==> w == v,
{
    lemma_pow2_steps();
    assert(p2(n_bits) % 2 == 0) by {
        assert(POW2[n_bits] == 2 * POW2[n_bits - 1]);
    }
}

/// The magnitude that an adaptive difference index stands for.
pub open spec fn amvd_magnitude(i: int) -> int {
    if i < 3 { 2 + 2 * i } else { p2(i) }
}

/// An adaptive motion-vector difference, `(y, x)`, before its signs.
pub open spec fn amvd(s: Sym, joint: Cdf, index_y: Cdf, index_x: Cdf) -> ((int, int), Sym) {
    let (j, s) = s.symbol(joint, 3);
    let (y, s) = if j >= 2 {
        let (i, s) = s.symbol(index_y, 7);
        (amvd_magnitude(i), s)
    } else {
        (0, s)
    };
    let (x, s) = if j % 2 == 1 {
        let (i, s) = s.symbol(index_x, 7);
        (amvd_magnitude(i), s)
    } else {
        (0, s)
    };
    ((y, x), s)
}

fn read_amvd_magnitude(msac: &mut MsacContext, cdf: Cdf) -> (r: i32)
    ensures
        (r as int, final(msac)@) == ({
            let (i, s) = old(msac)@.symbol(cdf, 7);
            (amvd_magnitude(i), s)
        }),
        2 <= r <= 128,
{
    let s: i32 = msac.decode_symbol_adapt(cdf, 7) as i32;
    assert(forall|k: int| 3 <= k <= 7 ==> 8 <= #[trigger] POW2[k] <= 128);
    if s < 3 { 2 + s * 2 } else { POW2[s as usize] as i32 }
}

/// Reads an adaptive difference under the given distributions.
pub fn read_amvd_raw(msac: &mut MsacContext, joint: Cdf, index_y: Cdf, index_x: Cdf) -> (r: Mv)
    ensures
        ((r.c.y as int, r.c.x as int), final(msac)@) == amvd(old(msac)@, joint, index_y, index_x),
        0 <= r.c.y <= 128,
        0 <= r.c.x <= 128,
{
    let j: i32 = msac.decode_symbol_adapt(joint, 3) as i32;
    let y: i32 = if j >= 2 { read_amvd_magnitude(msac, index_y) } else { 0 };
    let x: i32 = if j % 2 == 1 { read_amvd_magnitude(msac, index_x) } else { 0 };
    Mv { c: MvXY { y, x } }
}

/// The adaptive difference of the mode contexts.
pub open spec fn mode_amvd(s: Sym) -> ((int, int), Sym) {
    amvd(s, Cdf::AmvdJoint, Cdf::AmvdIndex(0), Cdf::AmvdIndex(1))
}

pub fn read_amvd(msac: &mut MsacContext) -> (r: Mv)
    ensures
        ((r.c.y as int, r.c.x as int), final(msac)@) == mode_amvd(old(msac)@),
        0 <= r.c.y <= 128,
        0 <= r.c.x <= 128,
{
    read_amvd_raw(msac, Cdf::AmvdJoint, Cdf::AmvdIndex(0), Cdf::AmvdIndex(1))
}

/// The class of the shell that holds a difference. Shells are counted
/// outwards; each class holds twice as many as the one before.
pub open spec fn shell_class(s: Sym, mv_prec: int) -> (int, Sym) {
    let n_syms = 9 + mv_prec;
    let lower = n_syms / 2;
    let (upper, s) = s.flag(Cdf::ShellSet);
    if upper != 0 {
        let (v, s) = s.symbol(Cdf::ShellUpper(mv_prec as usize), min(n_syms - lower, 7));
        let class = lower + 1 + v;
        if mv_prec + class == 21 {
            let (tip, s) = s.flag(Cdf::ShellTip);
            (class + tip, s)
        } else {
            (class, s)
        }
    } else {
        s.symbol(Cdf::ShellLower(mv_prec as usize), lower)
    }
}

fn read_shell_class(msac: &mut MsacContext, mv_prec: i32) -> (r: i32)
    requires
        0 <= mv_prec <= 6,
    ensures
        (r as int, final(msac)@) == shell_class(old(msac)@, mv_prec as int),
        0 <= r <= 16,
        mv_prec <= 5 ==> r <= 15,
        mv_prec <= 3 ==> r <= 10 + mv_prec,
{
    let n_syms: i32 = 9 + mv_prec;
    let h_syms: i32 = n_syms / 2;
    if msac.decode_bool_adapt(Cdf::ShellSet) != 0 {
        let h_syms2: i32 = n_syms - h_syms;
        let v: i32 = msac.decode_symbol_adapt(
            Cdf::ShellUpper(mv_prec as usize),
            imin(h_syms2, 7) as u32,
        ) as i32;
        let sh_class: i32 = h_syms + 1 + v;
        if mv_prec + sh_class == 21 {
            sh_class + msac.decode_bool_adapt(Cdf::ShellTip) as i32
        } else {
            sh_class
        }
    } else {
        msac.decode_symbol_adapt(Cdf::ShellLower(mv_prec as usize), h_syms as u32) as i32
    }
}

/// Bits `i..class` of the offset of a shell within its class, each under its
/// own distribution.
pub open spec fn shell_bits(s: Sym, i: int, class: int) -> (int, Sym)
    decreases class - i,
{
    if i >= class {
        (0, s)
    } else {
        let (b, s) = s.flag(Cdf::ShellOffsetHi(i as usize));
        let (rest, s) = shell_bits(s, i + 1, class);
        (b * p2(i) + rest, s)
    }
}

/// The offset of a shell within its class.
pub open spec fn shell_offset(s: Sym, class: int) -> (int, Sym) {
    if class < 2 {
        s.flag(Cdf::ShellOffsetLow(class as usize))
    } else if class == 2 {
        let (a, s) = s.flag(Cdf::ShellOffsetCl2);
        if a == 0 {
            (0, s)
        } else {
            let (b, s) = s.bit();
            if b == 0 {
                (1, s)
            } else {
                let (c, s) = s.bit();
                (2 + c, s)
            }
        }
    } else {
        shell_bits(s, 0, class)
    }
}

/// The index of the shell that holds a difference.
pub open spec fn shell_index(s: Sym, class: int) -> (int, Sym) {
    let (o, s) = shell_offset(s, class);
    (if class == 0 { o } else { o + p2(class) }, s)
}

/// Bits `i..class` read in a loop: the sum so far plus what is left.
proof fn lemma_shell_bits_range(s: Sym, i: int, class: int)
    requires
        0 <= i <= class <= 16,
    ensures
        0 <= shell_bits(s, i, class).0 <= p2(class) - p2(i),
    decreases class - i,
{
    lemma_pow2_steps();
    if i < class {
        let (b, s1) = s.flag(Cdf::ShellOffsetHi(i as usize));
        lemma_shell_bits_range(s1, i + 1, class);
        assert(POW2[i + 1] == 2 * POW2[i]);
        assert(0 <= b <= 1);
        assert(0 <= b * p2(i) <= p2(i)) by (nonlinear_arith)
            requires
                0 <= b <= 1,
                p2(i) >= 1,
        ;
    }
}

fn read_shell_bits(msac: &mut MsacContext, class: i32) -> (r: i32)
    requires
        3 <= class <= 16,
    ensures
        (r as int, final(msac)@) == shell_bits(old(msac)@, 0, class as int),
        0 <= r < p2(class as int),
{
    let ghost s0 = msac@;
    let mut acc: i32 = 0;
    let mut i: i32 = 0;
    proof {
        lemma_pow2_steps();
        lemma_shell_bits_range(s0, 0, class as int);
    }
    while i < class
        invariant
            0 <= i <= class <= 16,
            0 <= acc < p2(i as int),
            shell_bits(s0, 0, class as int).0 == acc + shell_bits(msac@, i as int, class as int).0,
            shell_bits(s0, 0, class as int).1 == shell_bits(msac@, i as int, class as int).1,
        decreases class - i,
    {
        proof {
            lemma_pow2_steps();
            assert(POW2[i + 1] == 2 * POW2[i as int]);
            assert(POW2[i as int] <= 0x4000_0000);
        }
        let b: u32 = msac.decode_bool_adapt(Cdf::ShellOffsetHi(i as usize));
        if b != 0 {
            assert(b == 1);
            assert(b * p2(i as int) == p2(i as int)) by (nonlinear_arith)
                requires
                    b == 1,
            ;
            acc = acc + POW2[i as usize] as i32;
        } else {
            assert(b * p2(i as int) == 0) by (nonlinear_arith)
                requires
                    b == 0,
            ;
        }
        i = i + 1;
    }
    acc
}

fn read_shell_index(msac: &mut MsacContext, class: i32) -> (r: i32)
    requires
        0 <= class <= 16,
    ensures
        (r as int, final(msac)@) == shell_index(old(msac)@, class as int),
        0 <= r < p2(class + 1),
{
    proof {
        lemma_pow2_steps();
        assert(POW2[class + 1] == 2 * POW2[class as int]);
        assert(POW2[class as int] <= 0x1_0000);
    }
    let offset: i32 = if class < 2 {
        msac.decode_bool_adapt(Cdf::ShellOffsetLow(class as usize)) as i32
    } else if class == 2 {
        let a: i32 = msac.decode_bool_adapt(Cdf::ShellOffsetCl2) as i32;
        if a == 0 {
            0
        } else {
            let b: i32 = msac.decode_bool_bypass() as i32;
            if b == 0 {
                1
            } else {
                2 + msac.decode_bool_bypass() as i32
            }
        }
    } else {
        read_shell_bits(msac, class)
    };
    if class != 0 { offset + POW2[class as usize] as i32 } else { offset }
}

/// The smaller component of a difference on shell `index`.
pub open spec fn shell_pair(s: Sym, index: int) -> (int, Sym) {
    if index < 2 {
        (0, s)
    } else {
        let (a, s) = s.flag(Cdf::ColComponent(0));
        if a == 0 || index < 4 {
            (a, s)
        } else {
            let (b, s) = s.flag(Cdf::ColComponent(1));
            if b == 0 || index < 6 {
                (1 + b, s)
            } else {
                let (c, s) = s.uniform(index / 2 - 1);
                (2 + c, s)
            }
        }
    }
}

fn read_shell_pair(msac: &mut MsacContext, index: i32) -> (r: i32)
    requires
        0 <= index < 0x10_0000,
    ensures
        (r as int, final(msac)@) == shell_pair(old(msac)@, index as int),
        0 <= 2 * r <= index,
{
    if index < 2 {
        return 0;
    }
    let a: i32 = msac.decode_bool_adapt(Cdf::ColComponent(0)) as i32;
    if a == 0 || index < 4 {
        return a;
    }
    let b: i32 = msac.decode_bool_adapt(Cdf::ColComponent(1)) as i32;
    if b == 0 || index < 6 {
        return 1 + b;
    }
    2 + msac.decode_uniform(index as u32 / 2 - 1) as i32
}

/// A motion-vector difference, `(y, x)`, before its signs. It lies on a shell
/// of constant sum; the smaller component comes first, then which of the two
/// it is.
pub open spec fn mv_residual(s: Sym, mv_prec: int) -> ((int, int), Sym) {
    let (class, s) = shell_class(s, mv_prec);
    let (index, s) = shell_index(s, class);
    let unit = p2(6 - mv_prec);
    if index == 0 {
        ((0, 0), s)
    } else {
        let (pair, s) = shell_pair(s, index);
        if 2 * pair == index {
            ((pair * unit, pair * unit), s)
        } else {
            let (b, s) = s.flag(Cdf::ColIndex(min(class, 3) as usize));
            if b != 0 {
                ((pair * unit, (index - pair) * unit), s)
            } else {
                (((index - pair) * unit, pair * unit), s)
            }
        }
    }
}

/// The shell index of a difference, as [`mv_residual`] reads it.
pub open spec fn mv_shell(s: Sym, mv_prec: int) -> int {
    let (class, s) = shell_class(s, mv_prec);
    shell_index(s, class).0
}

pub fn read_mv_residual(msac: &mut MsacContext, mv_prec: i32) -> (r: Mv)
    requires
        0 <= mv_prec <= 6,
    ensures
        ((r.c.y as int, r.c.x as int), final(msac)@) == mv_residual(old(msac)@, mv_prec as int),
        0 <= r.c.y <= 0x8_0000,
        0 <= r.c.x <= 0x8_0000,
        r.c.y + r.c.x == mv_shell(old(msac)@, mv_prec as int) * p2(6 - mv_prec),
{
    let sh_class: i32 = read_shell_class(msac, mv_prec);
    let sh_index: i32 = read_shell_index(msac, sh_class);
    proof {
        lemma_pow2_steps();
        lemma_residual_bound(sh_class as int, sh_index as int, mv_prec as int);
    }
    if sh_index == 0 {
        assert(sh_index * p2(6 - mv_prec) == 0) by (nonlinear_arith)
            requires
                sh_index == 0,
        ;
        return Mv { c: MvXY { y: 0, x: 0 } };
    }
    let pair_index: i32 = read_shell_pair(msac, sh_index);
    let unit: i32 = POW2[(6 - mv_prec) as usize] as i32;
    proof {
        assert(1 <= unit <= 64);
        let a = pair_index as int;
        let b = sh_index - pair_index;
        let u = unit as int;
        assert(0 <= a * u <= sh_index * u && 0 <= b * u <= sh_index * u && a * u + b * u
            == sh_index * u) by (nonlinear_arith)
            requires
                0 <= a,
                0 <= b,
                a + b == sh_index,
                1 <= u,
        ;
    }
    if pair_index * 2 == sh_index {
        Mv { c: MvXY { y: pair_index * unit, x: pair_index * unit } }
    } else {
        let b: u32 = msac.decode_bool_adapt(Cdf::ColIndex(imin(sh_class, 3) as usize));
        if b != 0 {
            Mv { c: MvXY { y: pair_index * unit, x: (sh_index - pair_index) * unit } }
        } else {
            Mv { c: MvXY { y: (sh_index - pair_index) * unit, x: pair_index * unit } }
        }
    }
}

proof fn lemma_residual_bound(class: int, index: int, mv_prec: int)
    requires
        0 <= mv_prec <= 6,
        0 <= class <= 16,
        mv_prec <= 5 ==> class <= 15,
        mv_prec <= 3 ==> class <= 10 + mv_prec,
        0 <= index < p2(class + 1),
    ensures
        index * p2(6 - mv_prec) <= 0x8_0000,
{
    let u = p2(6 - mv_prec);
    assert(class + 1 <= 17);
    assert(forall|k: int| 1 <= k <= 17 ==> #[trigger] POW2[k] <= 0x2_0000);
    if mv_prec == 0 {
        assert(forall|k: int| 1 <= k <= 11 ==> #[trigger] POW2[k] <= 0x800);
        assert(u == 64);
    } else if mv_prec == 1 {
        assert(forall|k: int| 1 <= k <= 12 ==> #[trigger] POW2[k] <= 0x1000);
        assert(u == 32);
    } else if mv_prec == 2 {
        assert(forall|k: int| 1 <= k <= 13 ==> #[trigger] POW2[k] <= 0x2000);
        assert(u == 16);
    } else if mv_prec == 3 {
        assert(forall|k: int| 1 <= k <= 14 ==> #[trigger] POW2[k] <= 0x4000);
        assert(u == 8);
    } else if mv_prec == 4 {
        assert(forall|k: int| 1 <= k <= 16 ==> #[trigger] POW2[k] <= 0x1_0000);
        assert(u == 4);
    } else if mv_prec == 5 {
        assert(forall|k: int| 1 <= k <= 16 ==> #[trigger] POW2[k] <= 0x1_0000);
        assert(u == 2);
    } else {
        assert(u == 1);
    }
}

/// Reads a motion-vector difference of the given precision.
pub fn read_mv_full(msac: &mut MsacContext, mv_prec: i32) -> (r: Mv)
    requires
        0 <= mv_prec <= 6,
    ensures
        ((r.c.y as int, r.c.x as int), final(msac)@) == mv_residual(old(msac)@, mv_prec as int),
        0 <= r.c.y <= 0x8_0000,
        0 <= r.c.x <= 0x8_0000,
{
    read_mv_residual(msac, mv_prec)
}

/// Where the two components of a difference are not equal, the last flag tells
/// which of them is the smaller one: the vertical one where it is set, and the
/// horizontal one where it is not.
pub proof fn law_last_flag_names_the_smaller_component(s: Sym, mv_prec: int)
    requires
        0 <= mv_prec <= 6,
    ensures
        ({
            let ((y, x), t) = mv_residual(s, mv_prec);
            y != x ==> {
                let k = t.asked.len() - 1;
                &&& k >= s.asked.len()
                &&& exists|c: usize| #[trigger] t.is_flag(k, Cdf::ColIndex(c))
                &&& t.got(k) == 1 ==> y < x
                &&& t.got(k) == 0 ==> x < y
            }
        }),
{
    let (class, s1) = shell_class(s, mv_prec);
    let (index, s2) = shell_index(s1, class);
    let (pair, s3) = shell_pair(s2, index);
    let unit = p2(6 - mv_prec);
    lemma_pow2_steps();
    lemma_shell_class(s, mv_prec);
    lemma_shell_index(s1, class);
    lemma_shell_pair(s2, index);
    if index != 0 && 2 * pair != index {
        let c = Cdf::ColIndex(min(class, 3) as usize);
        let t = s3.flag(c).1;
        assert(t.is_flag(t.asked.len() - 1, c));
        assert(pair * unit < (index - pair) * unit) by (nonlinear_arith)
            requires
                2 * pair < index,
                unit >= 1,
        ;
    }
}

/// Reading the class of a shell keeps the replies, asks something, and keeps
/// what was asked.
proof fn lemma_shell_class(s: Sym, mv_prec: int)
    requires
        0 <= mv_prec <= 6,
    ensures
        shell_class(s, mv_prec).1.replies == s.replies,
        shell_class(s, mv_prec).1.asked.len() > s.asked.len(),
        0 <= shell_class(s, mv_prec).0 <= 16,
{
}

proof fn lemma_shell_bits_asked(s: Sym, i: int, class: int)
    requires
        0 <= i <= class <= 16,
    ensures
        shell_bits(s, i, class).1.replies == s.replies,
        shell_bits(s, i, class).1.asked.len() == s.asked.len() + class - i,
        forall|j: int| 0 <= j < s.asked.len() ==> #[trigger] shell_bits(s, i, class).1.asked[j] == s.asked[j],
    decreases class - i,
{
    if i < class {
        let (b, s1) = s.flag(Cdf::ShellOffsetHi(i as usize));
        lemma_shell_bits_asked(s1, i + 1, class);
        let t = shell_bits(s1, i + 1, class).1;
        assert forall|j: int| 0 <= j < s.asked.len() implies #[trigger] t.asked[j] == s.asked[j] by {
            assert(s1.asked[j] == s.asked[j]);
        }
    }
}

proof fn lemma_shell_index(s: Sym, class: int)
    requires
        0 <= class <= 16,
    ensures
        shell_index(s, class).1.replies == s.replies,
        shell_index(s, class).1.asked.len() > s.asked.len(),
        0 <= shell_index(s, class).0 < 0x2_0000,
{
    lemma_pow2_steps();
    if class > 2 {
        lemma_shell_bits_asked(s, 0, class);
        lemma_shell_bits_range(s, 0, class);
    }
    assert(p2(0) == 1 && p2(16) == 0x1_0000);
    assert(forall|k: int| 0 <= k <= 16 ==> #[trigger] POW2[k] <= 0x1_0000);
}

proof fn lemma_shell_pair(s: Sym, index: int)
    requires
        0 <= index < 0x2_0000,
    ensures
        shell_pair(s, index).1.replies == s.replies,
        shell_pair(s, index).1.asked.len() >= s.asked.len(),
        0 <= 2 * shell_pair(s, index).0 <= index,
{
}

/// The bits of the offset of a shell come with the lowest first: bit `j` of the
/// offset is the flag of that number.
pub proof fn law_shell_offset_comes_bit_by_bit(s: Sym, class: int, j: int)
    requires
        3 <= class <= 16,
        0 <= j < class,
    ensures
        ({
            let (o, t) = shell_offset(s, class);
            let k = s.asked.len() as int;
            &&& t.asked.len() == k + class
            &&& t.is_flag(k + j, Cdf::ShellOffsetHi(j as usize))
            &&& o / p2(j) % 2 == t.got(k + j)
            &&& 0 <= o < p2(class)
        }),
{
    lemma_shell_bits_asked(s, 0, class);
    lemma_shell_bits_range(s, 0, class);
    lemma_shell_bit(s, 0, class, j);
    assert(p2(0) == 1);
}

/// What is left of the bits from `i` on, in units of bit `i`.
proof fn lemma_shell_bit(s: Sym, i: int, class: int, j: int)
    requires
        0 <= i <= j < class <= 16,
    ensures
        ({
            let (o, t) = shell_bits(s, i, class);
            let k = s.asked.len() - i;
            &&& o % p2(i) == 0
            &&& t.is_flag(k + j, Cdf::ShellOffsetHi(j as usize))
            &&& o / p2(j) % 2 == t.got(k + j)
        }),
    decreases class - i,
{
    lemma_pow2_steps();
    let (b, s1) = s.flag(Cdf::ShellOffsetHi(i as usize));
    let (rest, t) = shell_bits(s1, i + 1, class);
    lemma_shell_bits_asked(s1, i + 1, class);
    lemma_shell_bits_range(s1, i + 1, class);
    let u = p2(i);
    assert(p2(i + 1) == 2 * u);
    let o = b * u + rest;
    let k = s.asked.len() - i;
    assert(t.asked[k + i] == s1.asked[k + i]);
    assert(rest % (2 * u) == 0) by {
        if i + 1 < class {
            lemma_shell_bit(s1, i + 1, class, i + 1);
        } else {
            assert(rest == 0);
            vstd::arithmetic::div_mod::lemma_fundamental_div_mod_converse(0, 2 * u, 0, 0);
        }
    }
    vstd::arithmetic::div_mod::lemma_fundamental_div_mod(rest, 2 * u);
    let q = rest / (2 * u);
    assert(o == (b + 2 * q) * u + 0) by (nonlinear_arith)
        requires
            o == b * u + rest,
            rest == 2 * u * q,
    ;
    vstd::arithmetic::div_mod::lemma_fundamental_div_mod_converse(o, u, b + 2 * q, 0);
    if j > i {
        lemma_shell_bit(s1, i + 1, class, j);
        assert(0 <= b * u <= u) by (nonlinear_arith)
            requires
                0 <= b <= 1,
                u >= 1,
        ;
        lemma_pow2_divides(i + 1, j);
        lemma_same_high_part(b * u, rest, u, j - i, p2(j));
    }
}

/// A smaller power of two divides a larger one.
proof fn lemma_pow2_divides(i: int, j: int)
    requires
        0 <= i <= j <= 32,
    ensures
        p2(j) % p2(i) == 0,
        p2(j) >= p2(i),
    decreases j,
{
    lemma_pow2_steps();
    if i == j {
        vstd::arithmetic::div_mod::lemma_fundamental_div_mod_converse(p2(j), p2(i), 1, 0);
    } else {
        lemma_pow2_divides(i, j - 1);
        assert(POW2[j] == 2 * POW2[j - 1]);
        let q = p2(j - 1) / p2(i);
        vstd::arithmetic::div_mod::lemma_fundamental_div_mod(p2(j - 1), p2(i));
        assert(p2(j) == (2 * q) * p2(i) + 0) by (nonlinear_arith)
            requires
                p2(j) == 2 * p2(j - 1),
                p2(j - 1) == p2(i) * q,
        ;
        vstd::arithmetic::div_mod::lemma_fundamental_div_mod_converse(p2(j), p2(i), 2 * q, 0);
    }
}

/// A multiple of `2 * u` is not changed in its higher bits by adding `u`.
proof fn lemma_same_high_part(low: int, rest: int, u: int, n: int, d: int)
    requires
        1 <= u,
        0 <= low <= u,
        0 <= rest,
        rest % (2 * u) == 0,
        n >= 1,
        d >= 2 * u,
        d % (2 * u) == 0,
    ensures
        (low + rest) / d == rest / d,
{
    let w = 2 * u;
    vstd::arithmetic::div_mod::lemma_fundamental_div_mod(rest, d);
    vstd::arithmetic::div_mod::lemma_fundamental_div_mod(rest, w);
    vstd::arithmetic::div_mod::lemma_fundamental_div_mod(d, w);
    let r = rest % d;
    let q = rest / d;
    let a = rest / w;
    let c = d / w;
    assert(r == w * (a - c * q)) by (nonlinear_arith)
        requires
            rest == d * q + r,
            rest == w * a,
            d == w * c,
    ;
    assert(a - c * q < c) by (nonlinear_arith)
        requires
            r == w * (a - c * q),
            r < d,
            d == w * c,
            w > 0,
    ;
    assert(r + low < d) by (nonlinear_arith)
        requires
            r == w * (a - c * q),
            a - c * q <= c - 1,
            d == w * c,
            low < w,
            w > 0,
    ;
    assert(low + rest == q * d + (r + low)) by (nonlinear_arith)
        requires
            rest == d * q + r,
    ;
    vstd::arithmetic::div_mod::lemma_fundamental_div_mod_converse(low + rest, d, q, r + low);
}

/// The shells are numbered outwards without a gap: class zero holds the first
/// two, and every other class those from its power of two up to the next.
/// Within classes one and two the symbols count up.
pub proof fn law_classes_hold_twice_as_many_shells(s: Sym, class: int)
    requires
        0 <= class <= 16,
    ensures
        ({
            let (i, t) = shell_index(s, class);
            let k = s.asked.len() as int;
            &&& class == 0 ==> i == t.got(k) && t.is_flag(k, Cdf::ShellOffsetLow(0))
            &&& class == 1 ==> i == 2 + t.got(k) && t.is_flag(k, Cdf::ShellOffsetLow(1))
            &&& class == 2 ==> t.is_flag(k, Cdf::ShellOffsetCl2) && i == (if t.got(k) == 0 {
                4
            } else if t.got(k + 1) == 0 {
                5
            } else {
                6 + t.got(k + 2)
            })
            &&& class >= 1 ==> p2(class) <= i < p2(class + 1)
        }),
{
    lemma_pow2_steps();
    assert(p2(0) == 1 && p2(1) == 2 && p2(2) == 4 && p2(3) == 8);
    if class > 2 {
        lemma_shell_bits_range(s, 0, class);
        assert(p2(class + 1) == 2 * p2(class));
    }
}

/// The classes count up over the lower set and go on in the upper one.
pub proof fn law_upper_classes_follow_the_lower_ones(s: Sym, mv_prec: int)
    requires
        0 <= mv_prec <= 6,
    ensures
        ({
            let (c, t) = shell_class(s, mv_prec);
            let k = s.asked.len() as int;
            &&& t.is_flag(k, Cdf::ShellSet)
            &&& t.got(k) == 0 ==> c == t.got(k + 1) && c <= (9 + mv_prec) / 2
            &&& t.got(k) == 1 && t.asked.len() == k + 2 ==> c == (9 + mv_prec) / 2 + 1 + t.got(
                k + 1,
            )
            &&& t.got(k) == 1 && t.asked.len() == k + 3 ==> c == 15 + (6 - mv_prec) + t.got(k + 2)
            &&& t.asked.len() == k + 3 ==> t.is_flag(k + 2, Cdf::ShellTip)
        }),
{
}

/// The two components of a difference add up to its shell, and the smaller one
/// is at most half of it; both are multiples of the step of the precision.
pub proof fn law_components_lie_on_their_shell(s: Sym, mv_prec: int)
    requires
        0 <= mv_prec <= 6,
    ensures
        ({
            let ((y, x), t) = mv_residual(s, mv_prec);
            let (class, s1) = shell_class(s, mv_prec);
            let (index, s2) = shell_index(s1, class);
            let (low, s3) = shell_pair(s2, index);
            let unit = p2(6 - mv_prec);
            &&& y + x == index * unit
            &&& index > 0 ==> min(y, x) == low * unit
            &&& 2 * min(y, x) <= y + x
            &&& mv_prec == 6 ==> unit == 1
            &&& mv_prec == 3 ==> unit == 8
            &&& mv_prec == 0 ==> unit == 64
        }),
{
    let (class, s1) = shell_class(s, mv_prec);
    let (index, s2) = shell_index(s1, class);
    let (pair, s3) = shell_pair(s2, index);
    let unit = p2(6 - mv_prec);
    lemma_pow2_steps();
    assert(p2(6) == 64 && p2(3) == 8 && p2(0) == 1);
    lemma_shell_class(s, mv_prec);
    lemma_shell_index(s1, class);
    lemma_shell_pair(s2, index);
    assert(pair * unit <= (index - pair) * unit && pair * unit + (index - pair) * unit == index
        * unit) by (nonlinear_arith)
        requires
            2 * pair <= index,
            unit >= 1,
    ;
    assert(2 * pair == index ==> pair == index - pair);
    if index == 0 {
        assert(index * unit == 0) by (nonlinear_arith)
            requires
                index == 0,
        ;
    }
}

/// The smaller component counts up: a first flag tells zero from more, a second
/// one from more, and then it is coded as a number.
pub proof fn law_smaller_component_counts_up(s: Sym, index: int)
    requires
        0 <= index < 0x2_0000,
    ensures
        ({
            let (p, t) = shell_pair(s, index);
            let k = s.asked.len() as int;
            &&& index < 2 ==> p == 0 && t == s
            &&& index >= 2 ==> t.is_flag(k, Cdf::ColComponent(0)) && (p == 0 <==> t.got(k) == 0)
            &&& index >= 4 && p >= 1 ==> t.is_flag(k + 1, Cdf::ColComponent(1)) && (p == 1
                <==> t.got(k + 1) == 0)
            &&& index >= 6 && p >= 2 ==> t.asked[k + 2] == Request::Uniform((index / 2 - 1) as u32)
                && p == 2 + t.got(k + 2)
            &&& 2 * p <= index
        }),
{
}

/// Which components of an adaptive difference are coded is told by the joint
/// symbol: the vertical one by its upper bit and the horizontal one by its
/// lower bit.
pub proof fn law_joint_tells_the_coded_components(s: Sym, joint: Cdf, index_y: Cdf, index_x: Cdf)
    ensures
        ({
            let ((y, x), t) = amvd(s, joint, index_y, index_x);
            let k = s.asked.len() as int;
            let j = t.got(k);
            &&& t.asked[k] == Request::Symbol(joint, 3)
            &&& j == 0 ==> y == 0 && x == 0 && t.asked.len() == k + 1
            &&& j == 1 ==> y == 0 && x > 0 && t.asked[k + 1] == Request::Symbol(index_x, 7)
            &&& j == 2 ==> y > 0 && x == 0 && t.asked[k + 1] == Request::Symbol(index_y, 7)
            &&& j == 3 ==> y > 0 && x > 0 && t.asked[k + 1] == Request::Symbol(index_y, 7)
                && t.asked[k + 2] == Request::Symbol(index_x, 7)
            &&& j == 1 ==> x == amvd_magnitude(t.got(k + 1))
            &&& j >= 2 ==> y == amvd_magnitude(t.got(k + 1))
            &&& j == 3 ==> x == amvd_magnitude(t.got(k + 2))
        }),
{
    assert(forall|k: int| 3 <= k <= 7 ==> 8 <= #[trigger] POW2[k] <= 128);
}

/// Adaptive magnitudes grow by a quarter of a pixel up to one pixel, and double
/// from there on.
pub proof fn law_adaptive_magnitudes_grow(i: int)
    requires
        0 <= i < 7,
    ensures
        amvd_magnitude(0) == 2,
        i < 3 ==> amvd_magnitude(i + 1) == amvd_magnitude(i) + 2,
        i >= 3 ==> amvd_magnitude(i + 1) == 2 * amvd_magnitude(i),
        amvd_magnitude(7) == 128,
{
    lemma_pow2_steps();
    assert(p2(3) == 8 && p2(7) == 128);
    assert(POW2[i + 1] == 2 * POW2[i]);
}

/// A wedge is that of the angle and the distance that were read: the quadrant
/// counts five angles each. Distance zero is not coded where the wedge through
/// the centre is that of another angle.
pub proof fn law_wedge_has_its_angle_and_distance(s: Sym)
    ensures
        ({
            let (i, t) = wedge_idx(s);
            let k = s.asked.len() as int;
            let angle = 5 * t.got(k) + t.got(k + 1);
            let extra: int = if angle == 0 || angle == 5 || angle >= 10 { 1 } else { 0 };
            &&& t.asked[k] == Request::Symbol(Cdf::WedgeQuad, 3)
            &&& t.asked.len() == k + 3
            &&& wedge_angle_of(i) == angle
            &&& wedge_dist_of(i) == t.got(k + 2) + extra
        }),
{
    let (quad, s1) = s.symbol(Cdf::WedgeQuad, 3);
    let (a, s2) = s1.symbol(Cdf::WedgeAngle(quad as usize), 4);
    let angle = 5 * quad + a;
    let (d, s3) = s2.symbol(Cdf::WedgeDist2, 2);
    let (e, s4) = s2.symbol(Cdf::WedgeDist, 3);
    if wedge_off_centre(angle) {
        lemma_wedge_formula(angle, 1 + d);
    } else {
        lemma_wedge_formula(angle, e);
    }
}

/// A number coded relative to `r` is the nearer to it the smaller the code:
/// zero stands for `r` itself, and from code to code the distance does not
/// shrink.
pub proof fn law_small_codes_are_near(r: int, v: int, n_bits: int)
    requires
        3 <= n_bits <= 29,
        0 <= r < p2(n_bits),
        0 <= v,
        v + 1 < p2(n_bits),
    ensures
        four_way_value(r, 0, n_bits) == r,
        r > 0 && 2 * r <= p2(n_bits) ==> four_way_value(r, 1, n_bits) == r - 1,
        2 * r > p2(n_bits) && r < p2(n_bits) - 1 ==> four_way_value(r, 1, n_bits) == r + 1,
        ({
            let a = four_way_value(r, v, n_bits) - r;
            let b = four_way_value(r, v + 1, n_bits) - r;
            (if a < 0 { -a } else { a }) <= (if b < 0 { -b } else { b })
        }),
{
    lemma_pow2_steps();
    assert(p2(n_bits) == 2 * p2(n_bits - 1));
}

/// The bins split the codes without a gap: the first two hold an eighth each,
/// the third a quarter, and the last one half.
pub proof fn law_bins_double(bin: int, rem: int, n_bits: int)
    requires
        3 <= n_bits <= 29,
        0 <= bin <= 3,
        0 <= rem < p2(four_way_bits(bin, n_bits)),
    ensures
        ({
            let v = four_way_offset(bin, rem, n_bits);
            let e = p2(n_bits - 3);
            &&& bin == 0 ==> v == rem && v < e
            &&& bin == 1 ==> v == e + rem && v < 2 * e
            &&& bin == 2 ==> v == 2 * e + rem && v < 4 * e
            &&& bin == 3 ==> v == 4 * e + rem && v < 8 * e
        }),
{
    lemma_pow2_steps();
    assert(POW2[n_bits] == 2 * POW2[n_bits - 1]);
    assert(POW2[n_bits - 1] == 2 * POW2[n_bits - 2]);
    assert(POW2[n_bits - 2] == 2 * POW2[n_bits - 3]);
}

} // verus!
