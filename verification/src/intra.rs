//! Intra prediction modes.
use vstd::prelude::*;

use crate::block::{nb_at, nb_sum, neighbour_at, sum_neighbours, BlockPos, SbNb};
use crate::env::BlockContext;
use crate::frameinfo::SbFrameInfo;
use crate::intops::{abs, b2i, max, min, p2, POW2};
use crate::levels::{BlockSize, CFL_PRED};
use crate::msac::{Cdf, MsacContext, Request, Sym};
use crate::tables::{
    DEFAULT_MODE_LIST_UV, DEFAULT_MODE_LIST_Y, FSC_BSIZE_GROUPS, INTRA_DIR_MODE_Y_TO_UV_IDX,
    REORDERED_DIR_Y_MODE, REORDERED_NONDIR_Y_MODE, SIZE_GROUP,
};

verus! {

/// A number that stands for one of the 56 directions, or for none.
pub open spec fn is_midx(m: u8) -> bool {
    m < 56 || m == 0xff
}

/// `list` with `m` added unless it is there already.
pub open spec fn push_new(list: Seq<u8>, m: u8) -> Seq<u8> {
    if list.contains(m) { list } else { list.push(m) }
}

/// The directions of the neighbours, left first, without repetition; only
/// those beside the lowest row and over the rightmost column count, where
/// these lie within the frame.
pub open spec fn neighbour_dirs(
    fi: SbFrameInfo,
    b: BlockPos,
    a: BlockContext,
    l: BlockContext,
) -> Seq<u8> {
    let lm = l.midx[b.by4() + b.bs.h4() - 1];
    let am = a.midx[b.bx4() + b.bs.w4() - 1];
    let list = if b.vis_h4(fi) == b.bs.h4() && lm != 0xff { seq![lm] } else { Seq::empty() };
    if b.vis_w4(fi) == b.bs.w4() && am != 0xff { push_new(list, am) } else { list }
}

/// The direction `delta` steps away.
pub open spec fn turned(m: u8, delta: int) -> u8 {
    ((m + delta + 56) % 56) as u8
}

/// `list` with the directions at `i..5` steps on either side of `dirs`, the
/// nearer ones first, starting with entry `n`.
pub open spec fn with_near(list: Seq<u8>, dirs: Seq<u8>, i: int, n: int) -> Seq<u8>
    decreases 5 - i, dirs.len() - n,
{
    if i >= 5 {
        list
    } else if n >= dirs.len() {
        with_near(list, dirs, i + 1, 0)
    } else {
        with_near(
            push_new(push_new(list, turned(dirs[n], -i)), turned(dirs[n], i)),
            dirs,
            i,
            n + 1,
        )
    }
}

/// `list` with the directions of the default order from entry `k` on.
pub open spec fn with_defaults(list: Seq<u8>, k: int) -> Seq<u8>
    decreases 56 - k,
{
    if k >= 56 {
        list
    } else {
        with_defaults(push_new(list, DEFAULT_MODE_LIST_Y[k]), k + 1)
    }
}

/// The order in which directions are coded for a block: those of the
/// neighbours, those near them (for a block of more than four units), then
/// all others in the default order.
pub open spec fn direction_order(dirs: Seq<u8>, area: int) -> Seq<u8> {
    with_defaults(if area > 4 { with_near(dirs, dirs, 1, 0) } else { dirs }, 0)
}

/// The direction with index `idx` for a block. The smallest blocks, and those
/// without directional neighbours, use the default order.
pub open spec fn direction(dirs: Seq<u8>, area: int, idx: int) -> u8 {
    if area <= 2 || dirs.len() == 0 {
        DEFAULT_MODE_LIST_Y[idx]
    } else {
        direction_order(dirs, area)[idx]
    }
}

fn list_contains(list: &Vec<u8>, m: u8) -> (r: bool)
    ensures
        r == list@.contains(m),
{
    let mut i: usize = 0;
    while i < list.len()
        invariant
            i <= list@.len(),
            forall|j: int| 0 <= j < i ==> list@[j] != m,
        decreases list@.len() - i,
    {
        if list[i] == m {
            return true;
        }
        i = i + 1;
    }
    false
}

/// Every entry of `list` is a direction.
pub open spec fn all_dirs(list: Seq<u8>) -> bool {
    forall|i: int| 0 <= i < list.len() ==> #[trigger] list[i] < 56
}

fn add_new(list: &mut Vec<u8>, m: u8)
    requires
        all_dirs(old(list)@),
        m < 56,
    ensures
        final(list)@ == push_new(old(list)@, m),
        all_dirs(final(list)@),
{
    if !list_contains(list, m) {
        list.push(m);
    }
}

fn add_near(list: &mut Vec<u8>, dirs: &Vec<u8>)
    requires
        all_dirs(old(list)@),
        all_dirs(dirs@),
    ensures
        final(list)@ == with_near(old(list)@, dirs@, 1, 0),
        all_dirs(final(list)@),
{
    let ghost l0 = list@;
    let mut i: u8 = 1;
    while i < 5
        invariant
            1 <= i <= 5,
            all_dirs(list@),
            all_dirs(dirs@),
            with_near(l0, dirs@, 1, 0) == with_near(list@, dirs@, i as int, 0),
        decreases 5 - i,
    {
        let mut n: usize = 0;
        while n < dirs.len()
            invariant
                1 <= i < 5,
                n <= dirs@.len(),
                all_dirs(list@),
                all_dirs(dirs@),
                with_near(l0, dirs@, 1, 0) == with_near(list@, dirs@, i as int, n as int),
            decreases dirs@.len() - n,
        {
            let d: u8 = dirs[n];
            add_new(list, (d + 56 - i) % 56);
            add_new(list, (d + i + 56) % 56);
            n = n + 1;
        }
        i = i + 1;
    }
}

fn add_defaults(list: &mut Vec<u8>)
    requires
        all_dirs(old(list)@),
    ensures
        final(list)@ == with_defaults(old(list)@, 0),
        all_dirs(final(list)@),
{
    let ghost l0 = list@;
    assert(forall|k: int| 0 <= k < 56 ==> #[trigger] DEFAULT_MODE_LIST_Y[k] < 56);
    let mut k: usize = 0;
    while k < 56
        invariant
            k <= 56,
            all_dirs(list@),
            forall|k: int| 0 <= k < 56 ==> #[trigger] DEFAULT_MODE_LIST_Y[k] < 56,
            with_defaults(l0, 0) == with_defaults(list@, k as int),
        decreases 56 - k,
    {
        add_new(list, DEFAULT_MODE_LIST_Y[k]);
        k = k + 1;
    }
}

proof fn lemma_defaults_keep(list: Seq<u8>, k: int, m: u8)
    requires
        0 <= k <= 56,
        list.contains(m),
    ensures
        with_defaults(list, k).contains(m),
    decreases 56 - k,
{
    if k < 56 {
        let d = DEFAULT_MODE_LIST_Y[k];
        if !list.contains(d) {
            let i = choose|i: int| 0 <= i < list.len() && list[i] == m;
            assert(list.push(d)[i] == m);
        }
        assert(push_new(list, d).contains(m));
        lemma_defaults_keep(push_new(list, d), k + 1, m);
    }
}

proof fn lemma_defaults_contain(list: Seq<u8>, k: int, j: int)
    requires
        0 <= k <= j < 56,
    ensures
        with_defaults(list, k).contains(DEFAULT_MODE_LIST_Y[j]),
    decreases 56 - k,
{
    let d = DEFAULT_MODE_LIST_Y[k];
    if k == j {
        if !list.contains(d) {
            assert(list.push(d)[list.len() as int] == d);
        }
        assert(push_new(list, d).contains(d));
        lemma_defaults_keep(push_new(list, d), k + 1, d);
    } else {
        lemma_defaults_contain(push_new(list, d), k + 1, j);
    }
}

proof fn lemma_defaults_differ()
    ensures
        forall|i: int, j: int|
            0 <= i < 56 && 0 <= j < 56 && i != j ==> #[trigger] DEFAULT_MODE_LIST_Y[i]
                != #[trigger] DEFAULT_MODE_LIST_Y[j],
{
}

/// Every index that can be coded names a direction: the order holds at least
/// as many as there are.
pub proof fn law_direction_order_is_complete(dirs: Seq<u8>, area: int)
    ensures
        direction_order(dirs, area).len() >= 56,
        forall|j: int|
            0 <= j < 56 ==> direction_order(dirs, area).contains(
                #[trigger] DEFAULT_MODE_LIST_Y[j],
            ),
{
    let list = direction_order(dirs, area);
    let start = if area > 4 { with_near(dirs, dirs, 1, 0) } else { dirs };
    let table = Seq::new(56, |k: int| DEFAULT_MODE_LIST_Y[k]);
    lemma_defaults_differ();
    assert forall|j: int| 0 <= j < 56 implies list.contains(#[trigger] DEFAULT_MODE_LIST_Y[j]) by {
        lemma_defaults_contain(start, 0, j);
    }
    assert(table.no_duplicates());
    table.unique_seq_to_set();
    assert(table.to_set().subset_of(list.to_set())) by {
        assert forall|m: u8| table.to_set().contains(m) implies list.to_set().contains(m) by {
            let j = choose|j: int| 0 <= j < table.len() && table[j] == m;
            assert(list.contains(DEFAULT_MODE_LIST_Y[j]));
        }
    }
    vstd::set_lib::lemma_len_subset(table.to_set(), list.to_set());
    list.lemma_cardinality_of_set();
}

/// The intra mode of a luma block. `midx` is its direction, 255 for none.
#[derive(Debug, Clone, Copy, PartialEq, Eq, Structural)]
pub struct LumaMode {
    pub dpcm: bool,
    pub y_mode: u8,
    pub y_angle: i8,
    pub midx: u8,
}

/// The index of a luma mode: few have short codes.
pub open spec fn luma_mode_index(s: Sym, ctx: int) -> (int, Sym) {
    let (set, s) = s.symbol(Cdf::IntraYSet, 3);
    if set == 0 {
        let (i, s) = s.symbol(Cdf::IntraYIdx0(ctx as usize), 7);
        if i == 7 {
            let (j, s) = s.symbol(Cdf::IntraYIdx1(ctx as usize), 5);
            (7 + j, s)
        } else {
            (i, s)
        }
    } else {
        let (v, s) = s.bits(4);
        (set * 16 - 3 + v, s)
    }
}

fn read_luma_mode_index(ctx: usize, msac: &mut MsacContext) -> (r: usize)
    requires
        ctx <= 2,
    ensures
        (r as int, final(msac)@) == luma_mode_index(old(msac)@, ctx as int),
        r <= 60,
{
    assert(p2(4) == 16);
    let set: usize = msac.decode_symbol_adapt(Cdf::IntraYSet, 3) as usize;
    if set == 0 {
        let i: usize = msac.decode_symbol_adapt(Cdf::IntraYIdx0(ctx), 7) as usize;
        if i == 7 {
            7 + msac.decode_symbol_adapt(Cdf::IntraYIdx1(ctx), 5) as usize
        } else {
            i
        }
    } else {
        set * 16 - 3 + msac.decode_bools_bypass(4) as usize
    }
}

/// How many of the two neighbours that count are directional.
pub open spec fn luma_mode_ctx(
    fi: SbFrameInfo,
    b: BlockPos,
    a: BlockContext,
    l: BlockContext,
) -> int {
    b2i(b.vis_w4(fi) == b.bs.w4() && a.midx[b.bx4() + b.bs.w4() - 1] != 0xff) + b2i(
        b.vis_h4(fi) == b.bs.h4() && l.midx[b.by4() + b.bs.h4() - 1] != 0xff,
    )
}

/// The mode of a direction: one of eight, with seven angles each.
pub open spec fn directional(midx: u8) -> LumaMode {
    LumaMode {
        dpcm: false,
        y_mode: REORDERED_DIR_Y_MODE[midx as int / 7],
        y_angle: (midx as int % 7 - 3) as i8,
        midx,
    }
}

/// The luma mode of an intra block. A lossless block may be coded by
/// differences along a column or a row.
pub open spec fn luma_mode(
    s: Sym,
    fi: SbFrameInfo,
    b: BlockPos,
    lossless: bool,
    a: BlockContext,
    l: BlockContext,
) -> (LumaMode, Sym) {
    let (dpcm, s) = if lossless { s.flag(Cdf::Dpcm(0)) } else { (0, s) };
    if dpcm != 0 {
        let (hor, s) = s.flag(Cdf::DpcmDir(0));
        if hor != 0 {
            (LumaMode { dpcm: true, y_mode: 2, y_angle: 0, midx: 45 }, s)
        } else {
            (LumaMode { dpcm: true, y_mode: 1, y_angle: 0, midx: 17 }, s)
        }
    } else {
        let (i, s) = luma_mode_index(s, luma_mode_ctx(fi, b, a, l));
        if i < 5 {
            (
                LumaMode {
                    dpcm: false,
                    y_mode: REORDERED_NONDIR_Y_MODE[i],
                    y_angle: 0,
                    midx: 0xff,
                },
                s,
            )
        } else {
            (
                directional(
                    direction(neighbour_dirs(fi, b, a, l), b.bs.w4() * b.bs.h4(), i - 5),
                ),
                s,
            )
        }
    }
}

fn find_direction(
    fi: &SbFrameInfo,
    b: &BlockPos,
    a: &BlockContext,
    l: &BlockContext,
    idx: usize,
) -> (r: u8)
    requires
        b.valid(*fi),
        a.wf(),
        l.wf(),
        idx < 56,
    ensures
        r == direction(neighbour_dirs(*fi, *b, *a, *l), b.bs.w4() * b.bs.h4(), idx as int),
        r < 56,
{
    let d: [u8; 4] = b.bs.dim();
    assert(forall|k: int| 0 <= k < 56 ==> #[trigger] DEFAULT_MODE_LIST_Y[k] < 56);
    let lm: u8 = l.midx[(b.by % 64) as usize + d[1] as usize - 1];
    let am: u8 = a.midx[(b.bx % 64) as usize + d[0] as usize - 1];
    let mut dirs: Vec<u8> = Vec::new();
    if d[1] as i32 <= fi.bh - b.by && lm != 0xff {
        dirs.push(lm);
        assert(dirs@ =~= seq![lm]);
    }
    if d[0] as i32 <= fi.bw - b.bx && am != 0xff {
        add_new(&mut dirs, am);
    }
    proof {
        assert(1 <= b.bs.w4() * b.bs.h4() <= 4096) by (nonlinear_arith)
            requires
                1 <= b.bs.w4() <= 64,
                1 <= b.bs.h4() <= 64,
        ;
    }
    let area: u32 = d[0] as u32 * d[1] as u32;
    if area <= 2 || dirs.len() == 0 {
        return DEFAULT_MODE_LIST_Y[idx];
    }
    proof {
        law_direction_order_is_complete(dirs@, area as int);
    }
    let mut list: Vec<u8> = copy_list(&dirs);
    if area > 4 {
        add_near(&mut list, &dirs);
    }
    add_defaults(&mut list);
    list[idx]
}

fn copy_list(v: &Vec<u8>) -> (r: Vec<u8>)
    ensures
        r@ == v@,
{
    let mut r: Vec<u8> = Vec::new();
    let mut i: usize = 0;
    while i < v.len()
        invariant
            i <= v@.len(),
            r@ == v@.take(i as int),
        decreases v@.len() - i,
    {
        r.push(v[i]);
        i = i + 1;
        assert(v@.take(i as int) =~= v@.take(i - 1).push(v@[i - 1]));
    }
    assert(v@.take(v@.len() as int) =~= v@);
    r
}

pub fn read_luma_mode(
    fi: &SbFrameInfo,
    b: &BlockPos,
    lossless: bool,
    a: &BlockContext,
    l: &BlockContext,
    msac: &mut MsacContext,
) -> (r: LumaMode)
    requires
        b.valid(*fi),
        a.wf(),
        l.wf(),
    ensures
        (r, final(msac)@) == luma_mode(old(msac)@, *fi, *b, lossless, *a, *l),
        r.y_mode <= 12,
        -3 <= r.y_angle <= 3,
        is_midx(r.midx),
{
    let dpcm: bool = lossless && msac.decode_bool_adapt(Cdf::Dpcm(0)) != 0;
    if dpcm {
        if msac.decode_bool_adapt(Cdf::DpcmDir(0)) != 0 {
            return LumaMode { dpcm: true, y_mode: 2, y_angle: 0, midx: 45 };
        }
        return LumaMode { dpcm: true, y_mode: 1, y_angle: 0, midx: 17 };
    }
    let d: [u8; 4] = b.bs.dim();
    let top: bool = d[0] as i32 <= fi.bw - b.bx && a.midx[(b.bx % 64) as usize + d[0] as usize - 1]
        != 0xff;
    let left: bool = d[1] as i32 <= fi.bh - b.by && l.midx[(b.by % 64) as usize + d[1] as usize - 1]
        != 0xff;
    let ctx: usize = (if top { 1usize } else { 0usize }) + (if left { 1usize } else { 0usize });
    let i: usize = read_luma_mode_index(ctx, msac);
    assert(forall|k: int| 0 <= k < 5 ==> #[trigger] REORDERED_NONDIR_Y_MODE[k] <= 12);
    assert(forall|k: int| 0 <= k < 8 ==> #[trigger] REORDERED_DIR_Y_MODE[k] <= 12);
    if i < 5 {
        LumaMode { dpcm: false, y_mode: REORDERED_NONDIR_Y_MODE[i], y_angle: 0, midx: 0xff }
    } else {
        let m: u8 = find_direction(fi, b, a, l, i - 5);
        LumaMode {
            dpcm: false,
            y_mode: REORDERED_DIR_Y_MODE[(m / 7) as usize],
            y_angle: (m % 7) as i8 - 3,
            midx: m,
        }
    }
}

/// The flag of forward skip coding, for blocks of at most 32 pixels a side.
pub open spec fn fsc_flag(
    s: Sym,
    fi: SbFrameInfo,
    bs: BlockSize,
    intra_region: bool,
    nb: SbNb,
    a: BlockContext,
    l: BlockContext,
) -> (int, Sym) {
    if max(bs.w4(), bs.h4()) <= 8 && fi.idtx_intra {
        let ctx = if fi.is_inter_or_switch && !intra_region { 3 } else { nb_sum(a.fsc, l.fsc, nb) };
        s.flag(Cdf::Fsc(ctx as usize, FSC_BSIZE_GROUPS[bs as int] as usize))
    } else {
        (0, s)
    }
}

pub fn read_fsc(
    fi: &SbFrameInfo,
    bs: BlockSize,
    intra_region: bool,
    nb: &SbNb,
    a: &BlockContext,
    l: &BlockContext,
    msac: &mut MsacContext,
) -> (r: u8)
    requires
        bs != BlockSize::Invalid,
        nb.p0.off < 64,
        nb.p1.off < 64,
    ensures
        (r as int, final(msac)@) == fsc_flag(
            old(msac)@,
            *fi,
            bs,
            intra_region,
            *nb,
            *a,
            *l,
        ),
        r <= 1,
{
    let d: [u8; 4] = bs.dim();
    if d[0] <= 8 && d[1] <= 8 && fi.idtx_intra {
        let ctx: usize = if fi.is_inter_or_switch && !intra_region {
            3
        } else {
            sum_neighbours(&a.fsc, &l.fsc, nb)
        };
        msac.decode_bool_adapt(Cdf::Fsc(ctx, FSC_BSIZE_GROUPS[bs as usize] as usize)) as u8
    } else {
        0
    }
}

/// Which line of pixels a block is predicted from, and whether two are mixed.
pub open spec fn mrl_read(
    s: Sym,
    fi: SbFrameInfo,
    m: LumaMode,
    nb: SbNb,
    a: BlockContext,
    l: BlockContext,
) -> ((int, int), Sym) {
    if !m.dpcm && m.midx != 0xff && fi.mrls {
        let (i, s) = s.symbol(Cdf::MrlIndex(nb_sum(a.mrl, l.mrl, nb) as usize), 3);
        if i > 0 {
            let (multi, s) = s.flag(
                Cdf::MultiMrl(nb_sum(a.multi_mrl, l.multi_mrl, nb) as usize),
            );
            ((i, multi), s)
        } else {
            ((0, 0), s)
        }
    } else {
        ((0, 0), s)
    }
}

pub fn read_mrl(
    fi: &SbFrameInfo,
    m: &LumaMode,
    nb: &SbNb,
    a: &BlockContext,
    l: &BlockContext,
    msac: &mut MsacContext,
) -> (r: (u8, u8))
    requires
        nb.p0.off < 64,
        nb.p1.off < 64,
    ensures
        ((r.0 as int, r.1 as int), final(msac)@) == mrl_read(
            old(msac)@,
            *fi,
            *m,
            *nb,
            *a,
            *l,
        ),
        r.0 <= 3,
        r.1 <= 1,
{
    if !m.dpcm && m.midx != 0xff && fi.mrls {
        let ctx: usize = sum_neighbours(&a.mrl, &l.mrl, nb);
        let i: u8 = msac.decode_symbol_adapt(Cdf::MrlIndex(ctx), 3) as u8;
        if i > 0 {
            let mctx: usize = sum_neighbours(&a.multi_mrl, &l.multi_mrl, nb);
            (i, msac.decode_bool_adapt(Cdf::MultiMrl(mctx)) as u8)
        } else {
            (0, 0)
        }
    } else {
        (0, 0)
    }
}

/// The chroma mode of a block, with the parameters of prediction from luma.
#[derive(Debug, Clone, Copy, PartialEq, Eq, Structural)]
pub struct ChromaMode {
    pub dpcm: bool,
    pub uv_mode: u8,
    pub uv_angle: i8,
    pub cfl_type: i8,
    pub alpha_u: i8,
    pub alpha_v: i8,
    pub mh_dir: u8,
}

pub open spec fn plain_chroma(dpcm: bool, mode: u8, angle: int) -> ChromaMode {
    ChromaMode {
        dpcm,
        uv_mode: mode,
        uv_angle: angle as i8,
        cfl_type: 0,
        alpha_u: 0,
        alpha_v: 0,
        mh_dir: 0,
    }
}

/// The sides of a chroma block in units of four chroma samples.
pub open spec fn chroma_dims(fi: SbFrameInfo, cbs: BlockSize) -> (int, int) {
    (cbs.w4() / p2(fi.ss_hor as int), cbs.h4() / p2(fi.ss_ver as int))
}

/// Whether prediction from luma with several taps is allowed.
pub open spec fn mhccp_allowed(fi: SbFrameInfo, cbs: BlockSize, lossless: bool) -> bool {
    let (cw, ch) = chroma_dims(fi, cbs);
    &&& fi.mhccp
    &&& max(cw, ch) <= if lossless { 1int } else { 8 }
    &&& cw * ch >= if lossless { 1int } else { 2 }
}

/// Whether prediction from luma is allowed.
pub open spec fn cfl_allowed(
    fi: SbFrameInfo,
    bs: BlockSize,
    cbs: BlockSize,
    lossless: bool,
    disallowed: bool,
) -> bool {
    let (cw, ch) = chroma_dims(fi, cbs);
    &&& fi.cfl || mhccp_allowed(fi, cbs, lossless)
    &&& max(bs.w4(), bs.h4()) > 16 || !disallowed
    &&& max(cw, ch) <= if lossless { 1int } else { 16 }
}

/// The scale of one chroma plane: magnitude 1 to 8 with its sign.
pub open spec fn cfl_alpha(s: Sym, sign: int, other: int) -> (int, Sym) {
    if sign == 0 {
        (0, s)
    } else {
        let (v, s) = s.symbol(Cdf::CflAlpha((3 * b2i(sign == 2) + other) as usize), 7);
        (if sign == 1 { -(v + 1) } else { v + 1 }, s)
    }
}

/// The parameters of prediction from luma.
pub open spec fn cfl_mode(s: Sym, fi: SbFrameInfo, bs: BlockSize, mhccp: bool) -> (
    ChromaMode,
    Sym,
) {
    let base = plain_chroma(false, CFL_PRED, 0);
    let (multi, s) = if !mhccp {
        (0, s)
    } else if !fi.cfl {
        (1, s)
    } else {
        s.flag(Cdf::Mhccp)
    };
    if multi != 0 {
        let (dir, s) = s.symbol(Cdf::MhccpFilterDir(SIZE_GROUP[bs as int] as usize), 2);
        (ChromaMode { cfl_type: 2, mh_dir: dir as u8, ..base }, s)
    } else {
        let (implicit, s) = s.flag(Cdf::CflType);
        if implicit != 0 {
            (ChromaMode { cfl_type: 1, ..base }, s)
        } else {
            let (v, s) = s.symbol(Cdf::CflSign, 7);
            let sign_u = (v + 1) / 3;
            let sign_v = (v + 1) % 3;
            let (au, s) = cfl_alpha(s, sign_u, sign_v);
            let (av, s) = cfl_alpha(s, sign_v, sign_u);
            (ChromaMode { alpha_u: au as i8, alpha_v: av as i8, ..base }, s)
        }
    }
}

/// A chroma mode by index: the direction of luma first, if it has one, then
/// the modes without direction, then the other directions.
pub open spec fn chroma_by_index(i: int, midx: u8) -> ChromaMode {
    let ctx = b2i(midx != 0xff);
    if i < ctx {
        let m = directional(midx);
        plain_chroma(false, m.y_mode, m.y_angle as int)
    } else if i - ctx < 5 {
        plain_chroma(false, REORDERED_NONDIR_Y_MODE[i - ctx], 0)
    } else {
        let k = i - 5 - ctx;
        let k2 = if ctx != 0 && k >= INTRA_DIR_MODE_Y_TO_UV_IDX[midx as int / 7] { k + 1 } else { k };
        plain_chroma(false, DEFAULT_MODE_LIST_UV[k2], 0)
    }
}

/// The chroma mode of an intra block; an index beyond the last mode is an
/// error.
pub open spec fn chroma_mode(
    s: Sym,
    fi: SbFrameInfo,
    bs: BlockSize,
    cbs: BlockSize,
    cbx4: int,
    cby4: int,
    lossless: bool,
    disallowed: bool,
    midx: u8,
    a: BlockContext,
    l: BlockContext,
) -> (Option<ChromaMode>, Sym) {
    let (dpcm, s) = if lossless { s.flag(Cdf::Dpcm(1)) } else { (0, s) };
    if dpcm != 0 {
        let (hor, s) = s.flag(Cdf::DpcmDir(1));
        let mode = if hor != 0 { 2u8 } else { 1u8 };
        let centre: int = if hor != 0 { 45 } else { 17 };
        let angle = if abs(midx - centre) >= 4 { 0 } else { midx as int % 7 - 3 };
        (Some(plain_chroma(true, mode, angle)), s)
    } else {
        let (cfl, s) = if cfl_allowed(fi, bs, cbs, lossless, disallowed) {
            let ctx = b2i(a.uvmode[cbx4] == CFL_PRED) + b2i(l.uvmode[cby4] == CFL_PRED);
            s.flag(Cdf::Cfl(ctx as usize))
        } else {
            (0, s)
        };
        if cfl != 0 {
            let (m, s) = cfl_mode(s, fi, bs, mhccp_allowed(fi, cbs, lossless));
            (Some(m), s)
        } else {
            let (i, s) = s.symbol(Cdf::IntraUvMode(b2i(midx != 0xff) as usize), 7);
            let (i, s) = if i == 7 {
                let (v, s) = s.bits(3);
                (7 + v, s)
            } else {
                (i, s)
            };
            if i > 12 { (None, s) } else { (Some(chroma_by_index(i, midx)), s) }
        }
    }
}

fn read_cfl_alpha(sign: u32, other: u32, msac: &mut MsacContext) -> (r: i8)
    requires
        sign <= 2,
        other <= 2,
    ensures
        (r as int, final(msac)@) == cfl_alpha(old(msac)@, sign as int, other as int),
        -8 <= r <= 8,
{
    if sign == 0 {
        return 0;
    }
    let extra: u32 = if sign == 2 { 3 } else { 0 };
    let v: i8 = msac.decode_symbol_adapt(Cdf::CflAlpha((extra + other) as usize), 7) as i8 + 1;
    if sign == 1 { -v } else { v }
}

fn read_cfl_mode(fi: &SbFrameInfo, bs: BlockSize, mhccp: bool, msac: &mut MsacContext) -> (r:
    ChromaMode)
    requires
        bs != BlockSize::Invalid,
    ensures
        (r, final(msac)@) == cfl_mode(old(msac)@, *fi, bs, mhccp),
        r.uv_mode == CFL_PRED,
        r.uv_angle == 0,
{
    let base: ChromaMode = ChromaMode {
        dpcm: false,
        uv_mode: CFL_PRED,
        uv_angle: 0,
        cfl_type: 0,
        alpha_u: 0,
        alpha_v: 0,
        mh_dir: 0,
    };
    let multi: bool = mhccp && (!fi.cfl || msac.decode_bool_adapt(Cdf::Mhccp) != 0);
    if multi {
        let dir: u8 = msac.decode_symbol_adapt(
            Cdf::MhccpFilterDir(SIZE_GROUP[bs as usize] as usize),
            2,
        ) as u8;
        ChromaMode { cfl_type: 2, mh_dir: dir, ..base }
    } else {
        let implicit: u32 = msac.decode_bool_adapt(Cdf::CflType);
        if implicit != 0 {
            ChromaMode { cfl_type: 1, ..base }
        } else {
            let sign: u32 = msac.decode_symbol_adapt(Cdf::CflSign, 7) + 1;
            let sign_u: u32 = sign / 3;
            let sign_v: u32 = sign % 3;
            let alpha_u: i8 = read_cfl_alpha(sign_u, sign_v, msac);
            let alpha_v: i8 = read_cfl_alpha(sign_v, sign_u, msac);
            ChromaMode { alpha_u, alpha_v, ..base }
        }
    }
}

fn find_chroma_by_index(i: usize, midx: u8) -> (r: ChromaMode)
    requires
        i <= 12,
        is_midx(midx),
    ensures
        r == chroma_by_index(i as int, midx),
        r.uv_mode <= 12,
        -3 <= r.uv_angle <= 3,
{
    assert(forall|k: int| 0 <= k < 5 ==> #[trigger] REORDERED_NONDIR_Y_MODE[k] <= 12);
    assert(forall|k: int| 0 <= k < 8 ==> #[trigger] REORDERED_DIR_Y_MODE[k] <= 12);
    assert(forall|k: int| 0 <= k < 8 ==> #[trigger] DEFAULT_MODE_LIST_UV[k] <= 12);
    let ctx: usize = if midx != 0xff { 1 } else { 0 };
    let (mode, angle): (u8, i8) = if i < ctx {
        (REORDERED_DIR_Y_MODE[(midx / 7) as usize], (midx % 7) as i8 - 3)
    } else if i - ctx < 5 {
        (REORDERED_NONDIR_Y_MODE[i - ctx], 0)
    } else {
        let k: usize = i - 5 - ctx;
        let k2: usize = if ctx != 0 && k >= INTRA_DIR_MODE_Y_TO_UV_IDX[(midx / 7) as usize] as usize {
            k + 1
        } else {
            k
        };
        (DEFAULT_MODE_LIST_UV[k2], 0)
    };
    ChromaMode {
        dpcm: false,
        uv_mode: mode,
        uv_angle: angle,
        cfl_type: 0,
        alpha_u: 0,
        alpha_v: 0,
        mh_dir: 0,
    }
}

#[verifier::rlimit(60)]
pub fn read_chroma_mode(
    fi: &SbFrameInfo,
    bs: BlockSize,
    cbs: BlockSize,
    cbx4: usize,
    cby4: usize,
    lossless: bool,
    disallowed: bool,
    midx: u8,
    a: &BlockContext,
    l: &BlockContext,
    msac: &mut MsacContext,
) -> (r: Option<ChromaMode>)
    requires
        bs != BlockSize::Invalid,
        cbs != BlockSize::Invalid,
        cbx4 < 64,
        cby4 < 64,
        0 <= fi.ss_hor <= 1,
        0 <= fi.ss_ver <= 1,
        is_midx(midx),
    ensures
        (r, final(msac)@) == chroma_mode(
            old(msac)@,
            *fi,
            bs,
            cbs,
            cbx4 as int,
            cby4 as int,
            lossless,
            disallowed,
            midx,
            *a,
            *l,
        ),
        r matches Some(m) ==> m.uv_mode <= CFL_PRED && -3 <= m.uv_angle <= 3,
{
    let dpcm: bool = lossless && msac.decode_bool_adapt(Cdf::Dpcm(1)) != 0;
    if dpcm {
        let hor: bool = msac.decode_bool_adapt(Cdf::DpcmDir(1)) != 0;
        let mode: u8 = if hor { 2 } else { 1 };
        let centre: i32 = if hor { 45 } else { 17 };
        let away: i32 = midx as i32 - centre;
        let angle: i8 = if away >= 4 || away <= -4 { 0 } else { (midx % 7) as i8 - 3 };
        return Some(
            ChromaMode {
                dpcm: true,
                uv_mode: mode,
                uv_angle: angle,
                cfl_type: 0,
                alpha_u: 0,
                alpha_v: 0,
                mh_dir: 0,
            },
        );
    }
    let d: [u8; 4] = bs.dim();
    let cd: [u8; 4] = cbs.dim();
    assert(p2(0) == 1 && p2(1) == 2);
    let cw: i64 = cd[0] as i64 / POW2[fi.ss_hor as usize];
    let ch: i64 = cd[1] as i64 / POW2[fi.ss_ver as usize];
    let most: i64 = if cw > ch { cw } else { ch };
    proof {
        assert(0 <= cw * ch <= 4096) by (nonlinear_arith)
            requires
                0 <= cw <= 64,
                0 <= ch <= 64,
        ;
    }
    let mhccp: bool = fi.mhccp && most <= (if lossless { 1 } else { 8 }) && cw * ch >= (if lossless {
        1
    } else {
        2
    });
    let allowed: bool = (fi.cfl || mhccp) && (d[0] > 16 || d[1] > 16 || !disallowed) && most <= (
    if lossless {
        1
    } else {
        16
    });
    let cfl: bool = if allowed {
        let top: usize = if a.uvmode[cbx4] == CFL_PRED { 1 } else { 0 };
        let left: usize = if l.uvmode[cby4] == CFL_PRED { 1 } else { 0 };
        msac.decode_bool_adapt(Cdf::Cfl(top + left)) != 0
    } else {
        false
    };
    if cfl {
        return Some(read_cfl_mode(fi, bs, mhccp, msac));
    }
    assert(p2(3) == 8);
    let ctx: usize = if midx != 0xff { 1 } else { 0 };
    let mut i: usize = msac.decode_symbol_adapt(Cdf::IntraUvMode(ctx), 7) as usize;
    if i == 7 {
        i = 7 + msac.decode_bools_bypass(3) as usize;
    }
    if i > 12 {
        None
    } else {
        Some(find_chroma_by_index(i, midx))
    }
}

/// Every chroma mode can be coded in exactly one way: for a given luma
/// direction, different indices stand for different modes and angles.
pub proof fn law_chroma_index_is_unique(i: int, j: int, midx: u8)
    requires
        0 <= i <= 12,
        0 <= j <= 12,
        is_midx(midx),
        chroma_by_index(i, midx).uv_mode == chroma_by_index(j, midx).uv_mode,
        chroma_by_index(i, midx).uv_angle == chroma_by_index(j, midx).uv_angle,
    ensures
        i == j,
{
    let ctx = b2i(midx != 0xff);
    assert(midx != 0xff ==> DEFAULT_MODE_LIST_UV[INTRA_DIR_MODE_Y_TO_UV_IDX[midx as int / 7] as int]
        == REORDERED_DIR_Y_MODE[midx as int / 7]);
    assert(forall|p: int, q: int|
        0 <= p < 8 && 0 <= q < 8 && #[trigger] DEFAULT_MODE_LIST_UV[p]
            == #[trigger] DEFAULT_MODE_LIST_UV[q] ==> p == q);
    assert(forall|p: int, q: int|
        0 <= p < 5 && 0 <= q < 5 && #[trigger] REORDERED_NONDIR_Y_MODE[p]
            == #[trigger] REORDERED_NONDIR_Y_MODE[q] ==> p == q);
    assert(forall|p: int, q: int|
        0 <= p < 5 && 0 <= q < 8 ==> #[trigger] REORDERED_NONDIR_Y_MODE[p]
            != #[trigger] DEFAULT_MODE_LIST_UV[q]);
}

/// The number of colours of the palette of a block, zero for none. A palette
/// is for blocks of up to 64 pixels a side whose mode is the mean.
pub open spec fn palette_size(s: Sym, fi: SbFrameInfo, bs: BlockSize, y_mode: u8) -> (int, Sym) {
    if fi.allow_screen_content_tools && y_mode == 0 && max(bs.w4(), bs.h4()) <= 16 && bs.w4()
        + bs.h4() >= 4 {
        let (used, s) = s.flag(Cdf::PalY);
        if used != 0 {
            let (v, s) = s.symbol(Cdf::PalSz, 6);
            (v + 2, s)
        } else {
            (0, s)
        }
    } else {
        (0, s)
    }
}

pub fn read_palette_size(fi: &SbFrameInfo, bs: BlockSize, y_mode: u8, msac: &mut MsacContext) -> (r:
    u8)
    requires
        bs != BlockSize::Invalid,
    ensures
        (r as int, final(msac)@) == palette_size(old(msac)@, *fi, bs, y_mode),
        r == 0 || 2 <= r <= 8,
{
    let d: [u8; 4] = bs.dim();
    if fi.allow_screen_content_tools && y_mode == 0 && d[0] <= 16 && d[1] <= 16 && d[0] + d[1]
        >= 4 {
        if msac.decode_bool_adapt(Cdf::PalY) != 0 {
            return msac.decode_symbol_adapt(Cdf::PalSz, 6) as u8 + 2;
        }
    }
    0
}

/// The mode of data-driven intra prediction, zero for none: six modes, each
/// also transposed.
pub open spec fn dip_mode(
    s: Sym,
    fi: SbFrameInfo,
    bs: BlockSize,
    y_mode: u8,
    pal_sz: int,
    nb: SbNb,
    a: BlockContext,
    l: BlockContext,
) -> (int, Sym) {
    if y_mode == 0 && fi.intra_dip && pal_sz == 0 && min(bs.w4(), bs.h4()) >= 2 && bs.w4() * bs.h4()
        >= 8 {
        let ctx = nb_at(a.dip, l.dip, nb, 0) + nb_at(a.dip, l.dip, nb, 1);
        let (used, s) = s.flag(Cdf::Dip(ctx as usize));
        if used != 0 {
            let (t, s) = s.bits(1);
            let (m, s) = s.symbol(Cdf::DipMode, 5);
            (16 * t + m + 1, s)
        } else {
            (0, s)
        }
    } else {
        (0, s)
    }
}

pub fn read_dip(
    fi: &SbFrameInfo,
    bs: BlockSize,
    y_mode: u8,
    pal_sz: u8,
    nb: &SbNb,
    a: &BlockContext,
    l: &BlockContext,
    msac: &mut MsacContext,
) -> (r: u8)
    requires
        bs != BlockSize::Invalid,
        nb.p0.off < 64,
        nb.p1.off < 64,
    ensures
        (r as int, final(msac)@) == dip_mode(
            old(msac)@,
            *fi,
            bs,
            y_mode,
            pal_sz as int,
            *nb,
            *a,
            *l,
        ),
        r <= 22,
{
    let d: [u8; 4] = bs.dim();
    proof {
        assert(1 <= bs.w4() * bs.h4() <= 4096) by (nonlinear_arith)
            requires
                1 <= bs.w4() <= 64,
                1 <= bs.h4() <= 64,
        ;
        assert(p2(1) == 2);
    }
    if y_mode == 0 && fi.intra_dip && pal_sz == 0 && d[0] >= 2 && d[1] >= 2 && d[0] as u32
        * d[1] as u32 >= 8 {
        let ctx: usize = neighbour_at(&a.dip, &l.dip, nb, 0) as usize + neighbour_at(
            &a.dip,
            &l.dip,
            nb,
            1,
        ) as usize;
        if msac.decode_bool_adapt(Cdf::Dip(ctx)) != 0 {
            let t: u8 = msac.decode_bools_bypass(1) as u8;
            let m: u8 = msac.decode_symbol_adapt(Cdf::DipMode, 5) as u8;
            return 16 * t + m + 1;
        }
    }
    0
}

/// What comes first stays first when the other directions are added.
proof fn lemma_defaults_prefix(list: Seq<u8>, k: int, i: int)
    requires
        0 <= k <= 56,
        0 <= i < list.len(),
    ensures
        with_defaults(list, k).len() >= list.len(),
        with_defaults(list, k)[i] == list[i],
    decreases 56 - k,
{
    if k < 56 {
        lemma_defaults_prefix(push_new(list, DEFAULT_MODE_LIST_Y[k]), k + 1, i);
    }
}

/// Direction `d` and those fewer than `i` steps away, the nearest first.
spec fn nearest(d: u8, i: int) -> Seq<u8> {
    Seq::new((2 * i - 1) as nat, |j: int| wrapped(d, if j % 2 == 1 { -(j + 1) / 2 } else { j / 2 }))
}

/// The directions `d` and `e` and those fewer than `i` steps away from them.
spec fn nearest_two(d: u8, e: u8, i: int) -> Seq<u8> {
    Seq::new(
        (4 * i - 2) as nat,
        |j: int|
            if j == 0 {
                d
            } else if j == 1 {
                e
            } else {
                wrapped(
                    if (j - 2) % 4 < 2 { d } else { e },
                    if j % 2 == 0 { -((j - 2) / 4 + 1) } else { (j - 2) / 4 + 1 },
                )
            },
    )
}

/// A few steps from a direction, counted round.
spec fn wrapped(d: u8, x: int) -> u8 {
    (if d + x < 0 {
        d + x + 56
    } else if d + x >= 56 {
        d + x - 56
    } else {
        d + x
    }) as u8
}

proof fn lemma_turned(d: u8, x: int)
    requires
        d < 56,
        -4 <= x <= 4,
    ensures
        turned(d, x) == wrapped(d, x),
        turned(d, x) < 56,
        (wrapped(d, x) - x) % 56 == d,
        (d + x) % 56 == wrapped(d, x),
{
}

proof fn lemma_nearest_step(d: u8, i: int)
    requires
        d < 56,
        1 <= i <= 4,
    ensures
        push_new(push_new(nearest(d, i), turned(d, -i)), turned(d, i)) == nearest(d, i + 1),
{
    lemma_turned(d, -i);
    lemma_turned(d, i);
    let l = nearest(d, i);
    let (a, b) = (turned(d, -i), turned(d, i));
    assert forall|j: int| 0 <= j < l.len() implies l[j] != a && l[j] != b by {
        let x = if j % 2 == 1 { -(j + 1) / 2 } else { j / 2 };
        assert(-i < x < i);
        assert(l[j] == wrapped(d, x));
    }
    assert(!l.contains(a));
    assert(!l.push(a).contains(b)) by {
        assert(a != b);
        assert forall|j: int| 0 <= j < l.push(a).len() implies l.push(a)[j] != b by {}
    }
    assert((2 * i - 1) % 2 == 1 && (2 * i) % 2 == 0 && -((2 * i - 1) + 1) / 2 == -i);
    assert(l.push(a).push(b) =~= nearest(d, i + 1));
}

proof fn lemma_nearest(d: u8, i: int)
    requires
        d < 56,
        1 <= i <= 5,
    ensures
        with_near(nearest(d, i), seq![d], i, 0) == nearest(d, 5),
    decreases 5 - i,
{
    if i < 5 {
        lemma_nearest_step(d, i);
        lemma_nearest(d, i + 1);
        reveal_with_fuel(with_near, 3);
    }
}

/// For a block of more than four units with one directional neighbour the
/// directions come in the order of their distance from it: its own first, then
/// those one step before and after it, up to four steps.
pub proof fn law_nearest_directions_come_first(d: u8, area: int, i: int)
    requires
        d < 56,
        area > 4,
        1 <= i <= 4,
    ensures
        direction(seq![d], area, 0) == d,
        (direction(seq![d], area, 2 * i - 1) + i) % 56 == d,
        (d + i) % 56 == direction(seq![d], area, 2 * i),
        direction(seq![d], area, 2 * i - 1) < 56,
        direction(seq![d], area, 2 * i) < 56,
{
    let l = nearest(d, 5);
    assert(seq![d] =~= nearest(d, 1));
    lemma_nearest(d, 1);
    lemma_turned(d, -i);
    lemma_turned(d, i);
    assert((2 * i - 1) % 2 == 1 && (2 * i) % 2 == 0 && -((2 * i - 1) + 1) / 2 == -i);
    assert(l[0] == d && l[2 * i - 1] == wrapped(d, -i) && l[2 * i] == wrapped(d, i));
    lemma_defaults_prefix(l, 0, 0);
    lemma_defaults_prefix(l, 0, 2 * i - 1);
    lemma_defaults_prefix(l, 0, 2 * i);
}

/// The directions lie more than eight steps apart.
spec fn far_apart(d: u8, e: u8) -> bool {
    &&& d - e > 8 || e - d > 8
    &&& d - e < 48
    &&& e - d < 48
}

proof fn lemma_nearest_two_step(d: u8, e: u8, i: int)
    requires
        d < 56,
        e < 56,
        far_apart(d, e),
        1 <= i <= 4,
    ensures
        push_new(
            push_new(
                push_new(push_new(nearest_two(d, e, i), turned(d, -i)), turned(d, i)),
                turned(e, -i),
            ),
            turned(e, i),
        ) == nearest_two(d, e, i + 1),
{
    lemma_turned(d, -i);
    lemma_turned(d, i);
    lemma_turned(e, -i);
    lemma_turned(e, i);
    let l = nearest_two(d, e, i);
    let (a, b, x, y) = (turned(d, -i), turned(d, i), turned(e, -i), turned(e, i));
    assert forall|j: int| 0 <= j < l.len() implies l[j] != a && l[j] != b && l[j] != x && l[j]
        != y by {
        if j >= 2 {
            let q = (j - 2) / 4 + 1;
            assert(1 <= q < i);
            let st = if j % 2 == 0 { -q } else { q };
            assert(l[j] == wrapped(d, st) || l[j] == wrapped(e, st));
        }
    }
    assert(a != b && x != y && a != x && a != y && b != x && b != y);
    let l1 = l.push(a);
    let l2 = l1.push(b);
    let l3 = l2.push(x);
    assert(!l.contains(a));
    assert(!l1.contains(b)) by {
        assert forall|j: int| 0 <= j < l1.len() implies l1[j] != b by {}
    }
    assert(!l2.contains(x)) by {
        assert forall|j: int| 0 <= j < l2.len() implies l2[j] != x by {}
    }
    assert(!l3.contains(y)) by {
        assert forall|j: int| 0 <= j < l3.len() implies l3[j] != y by {}
    }
    let r = nearest_two(d, e, i + 1);
    let n = 4 * i - 2;
    assert((n - 2) / 4 + 1 == i && (n - 1) / 4 + 1 == i && n / 4 + 1 == i && (n + 1) / 4 + 1 == i);
    assert((n - 2) % 4 == 0 && (n - 1) % 4 == 1 && n % 4 == 2 && (n + 1) % 4 == 3);
    assert(n % 2 == 0 && (n + 1) % 2 == 1 && (n + 2) % 2 == 0 && (n + 3) % 2 == 1);
    assert(l3.push(y) =~= r);
}

proof fn lemma_nearest_two(d: u8, e: u8, i: int)
    requires
        d < 56,
        e < 56,
        far_apart(d, e),
        1 <= i <= 5,
    ensures
        with_near(nearest_two(d, e, i), seq![d, e], i, 0) == nearest_two(d, e, 5),
    decreases 5 - i,
{
    if i < 5 {
        lemma_nearest_two_step(d, e, i);
        lemma_nearest_two(d, e, i + 1);
        reveal_with_fuel(with_near, 4);
    }
}

/// With two directional neighbours that lie more than eight steps apart both
/// come first, the left one before the other; then, step by step outwards, the
/// directions on either side of the one and of the other.
pub proof fn law_near_directions_of_both_neighbours_alternate(d: u8, e: u8, area: int, i: int)
    requires
        d < 56,
        e < 56,
        8 < (d - e) % 56 < 48,
        area > 4,
        1 <= i <= 4,
    ensures
        direction(seq![d, e], area, 0) == d,
        direction(seq![d, e], area, 1) == e,
        (direction(seq![d, e], area, 4 * i - 2) + i) % 56 == d,
        (d + i) % 56 == direction(seq![d, e], area, 4 * i - 1),
        (direction(seq![d, e], area, 4 * i) + i) % 56 == e,
        (e + i) % 56 == direction(seq![d, e], area, 4 * i + 1),
{
    let l = nearest_two(d, e, 5);
    assert(seq![d, e] =~= nearest_two(d, e, 1));
    lemma_nearest_two(d, e, 1);
    lemma_turned(d, -i);
    lemma_turned(d, i);
    lemma_turned(e, -i);
    lemma_turned(e, i);
    let n = 4 * i - 2;
    assert((n - 2) / 4 + 1 == i && (n - 1) / 4 + 1 == i && n / 4 + 1 == i && (n + 1) / 4 + 1 == i);
    assert((n - 2) % 4 == 0 && (n - 1) % 4 == 1 && n % 4 == 2 && (n + 1) % 4 == 3);
    assert(n % 2 == 0 && (n + 1) % 2 == 1 && (n + 2) % 2 == 0 && (n + 3) % 2 == 1);
    assert(l[n] == wrapped(d, -i) && l[n + 1] == wrapped(d, i) && l[n + 2] == wrapped(e, -i) && l[n
        + 3] == wrapped(e, i));
    assert forall|j: int| 0 <= j < 18 implies #[trigger] with_defaults(l, 0)[j] == l[j] by {
        lemma_defaults_prefix(l, 0, j);
    }
}

/// The directions that are not near come in the default order: of two of them
/// the one with the smaller number there has the smaller index.
proof fn lemma_defaults_skip(d: u8, p: int, k: int)
    requires
        0 <= p < 56,
        DEFAULT_MODE_LIST_Y[p] == d,
        0 <= k <= 56,
    ensures
        with_defaults(defaults_so_far(d, p, k), k) == defaults_so_far(d, p, 56),
    decreases 56 - k,
{
    if k < 56 {
        lemma_defaults_differ();
        let a = defaults_so_far(d, p, k);
        let b = defaults_so_far(d, p, k + 1);
        let m = DEFAULT_MODE_LIST_Y[k];
        if k == p {
            assert(a[0] == m);
            assert(a =~= b);
        } else {
            assert(!a.contains(m));
            assert(a.push(m) =~= b);
        }
        lemma_defaults_skip(d, p, k + 1);
    }
}

spec fn defaults_so_far(d: u8, p: int, k: int) -> Seq<u8> {
    Seq::new(
        (if k <= p { k + 1 } else { k }) as nat,
        |i: int|
            if i == 0 {
                d
            } else if i <= p {
                DEFAULT_MODE_LIST_Y[i - 1]
            } else {
                DEFAULT_MODE_LIST_Y[i]
            },
    )
}

/// In a block of three or four units the direction of a single neighbour moves
/// to the front of the default order and the others keep their order. The
/// smallest blocks, and those without such a neighbour, use the default order
/// as it is.
pub proof fn law_neighbour_moves_to_the_front(d: u8, p: int, area: int, i: int)
    requires
        0 <= p < 56,
        DEFAULT_MODE_LIST_Y[p] == d,
        0 <= i < 56,
    ensures
        2 < area <= 4 ==> direction(seq![d], area, 0) == d,
        2 < area <= 4 && 1 <= i <= p ==> direction(seq![d], area, i) == DEFAULT_MODE_LIST_Y[i - 1],
        2 < area <= 4 && p < i ==> direction(seq![d], area, i) == DEFAULT_MODE_LIST_Y[i],
        area <= 2 ==> direction(seq![d], area, i) == DEFAULT_MODE_LIST_Y[i],
        direction(Seq::<u8>::empty(), area, i) == DEFAULT_MODE_LIST_Y[i],
{
    assert(seq![d] =~= defaults_so_far(d, p, 0));
    lemma_defaults_skip(d, p, 0);
}

/// The default order starts with the vertical and the horizontal direction,
/// and the centres of the six others; then come the angles two, one and three
/// steps away from the centres.
pub proof fn law_default_order_goes_by_angle(i: int)
    requires
        0 <= i < 56,
    ensures
        DEFAULT_MODE_LIST_Y[0] == 17,
        DEFAULT_MODE_LIST_Y[1] == 45,
        DEFAULT_MODE_LIST_Y[i] < 56,
        i < 8 ==> directional(DEFAULT_MODE_LIST_Y[i]).y_angle == 0,
        8 <= i < 24 ==> abs(directional(DEFAULT_MODE_LIST_Y[i]).y_angle as int) == 2,
        24 <= i < 40 ==> abs(directional(DEFAULT_MODE_LIST_Y[i]).y_angle as int) == 1,
        40 <= i ==> abs(directional(DEFAULT_MODE_LIST_Y[i]).y_angle as int) == 3,
        2 <= i < 7 ==> DEFAULT_MODE_LIST_Y[i] < DEFAULT_MODE_LIST_Y[i + 1],
{
}

/// The 56 directions turn step by step: seven angles, from three steps before
/// to three steps after the centre, then the next mode. The vertical mode is
/// centred at 17 and the horizontal one at 45.
pub proof fn law_directions_turn_step_by_step(m: u8)
    requires
        m < 56,
    ensures
        -3 <= directional(m).y_angle <= 3,
        directional(m).midx == m,
        directional(17).y_mode == 1 && directional(17).y_angle == 0,
        directional(45).y_mode == 2 && directional(45).y_angle == 0,
        m < 55 && directional(m).y_angle < 3 ==> directional((m + 1) as u8).y_mode == directional(
            m,
        ).y_mode && directional((m + 1) as u8).y_angle == directional(m).y_angle + 1,
        m < 55 && directional(m).y_angle == 3 ==> directional((m + 1) as u8).y_angle == -3
            && directional((m + 1) as u8).y_mode != directional(m).y_mode,
        1 <= directional(m).y_mode <= 8,
{
}

/// The directions that count: that of the left neighbour beside the lowest row
/// and that of the one over the rightmost column, where these lie within the
/// frame.
pub proof fn law_left_direction_counts_before_the_one_above(
    fi: SbFrameInfo,
    b: BlockPos,
    a: BlockContext,
    l: BlockContext,
)
    requires
        b.valid(fi),
    ensures
        ({
            let left = l.midx[b.by % 64 + b.bs.h4() - 1];
            let above = a.midx[b.bx % 64 + b.bs.w4() - 1];
            let has_left = b.by + b.bs.h4() <= fi.bh && left != 0xff;
            let has_above = b.bx + b.bs.w4() <= fi.bw && above != 0xff;
            let dirs = neighbour_dirs(fi, b, a, l);
            &&& has_left && has_above && left != above ==> dirs == seq![left, above]
            &&& has_left && has_above && left == above ==> dirs == seq![left]
            &&& has_left && !has_above ==> dirs == seq![left]
            &&& !has_left && has_above ==> dirs == seq![above]
            &&& !has_left && !has_above ==> dirs.len() == 0
            &&& luma_mode_ctx(fi, b, a, l) == b2i(has_left) + b2i(has_above)
        }),
{
    let left = l.midx[b.by % 64 + b.bs.h4() - 1];
    let above = a.midx[b.bx % 64 + b.bs.w4() - 1];
    assert(seq![left][0] == left);
    assert(seq![left].push(above) =~= seq![left, above]);
    assert(Seq::<u8>::empty().push(above) =~= seq![above]);
}

/// What the symbols of a luma mode mean. The first five modes have no
/// direction; the others name a direction in the order for the block. Codes
/// count up from zero: seven short ones, six longer ones, and then three sets
/// of sixteen.
pub proof fn law_luma_mode_counts_through_the_directions(
    s: Sym,
    fi: SbFrameInfo,
    b: BlockPos,
    a: BlockContext,
    l: BlockContext,
)
    ensures
        ({
            let (m, t) = luma_mode(s, fi, b, false, a, l);
            let k = s.asked.len() as int;
            let i = if t.got(k) != 0 {
                13 + 16 * (t.got(k) - 1) + t.got(k + 1)
            } else if t.got(k + 1) < 7 {
                t.got(k + 1)
            } else {
                7 + t.got(k + 2)
            };
            &&& t.replies == s.replies
            &&& t.asked[k] == Request::Symbol(Cdf::IntraYSet, 3)
            &&& !m.dpcm
            &&& i < 5 ==> m.midx == 0xff && m.y_angle == 0 && (m.y_mode == 0 <==> i == 0) && (i > 0
                ==> m.y_mode == 8 + i)
            &&& i >= 5 ==> m == directional(
                direction(neighbour_dirs(fi, b, a, l), b.bs.w4() * b.bs.h4(), i - 5),
            )
        }),
{
    assert(p2(4) == 16);
}

/// A lossless block that is coded by differences goes along the rows where the
/// flag is set and along the columns where it is not, in luma and in chroma.
pub proof fn law_differences_go_along_the_flagged_direction(
    s: Sym,
    fi: SbFrameInfo,
    b: BlockPos,
    a: BlockContext,
    l: BlockContext,
)
    ensures
        ({
            let (m, t) = luma_mode(s, fi, b, true, a, l);
            let k = s.asked.len() as int;
            &&& t.asked[k] == Request::Bool(Cdf::Dpcm(0))
            &&& m.dpcm <==> t.got(k) == 1
            &&& m.dpcm ==> {
                &&& t.asked[k + 1] == Request::Bool(Cdf::DpcmDir(0))
                &&& t.got(k + 1) == 1 ==> m == (LumaMode { dpcm: true, ..directional(45) })
                &&& t.got(k + 1) == 0 ==> m == (LumaMode { dpcm: true, ..directional(17) })
            }
        }),
{
}

/// The signs of the two scales of prediction from luma come as one symbol: it
/// counts through none, negative and positive, first for the second plane;
/// both zero is left out. Each scale that is not zero has its own magnitude.
pub proof fn law_luma_scales_have_their_signs(s: Sym, fi: SbFrameInfo, bs: BlockSize)
    ensures
        ({
            let (m, t) = cfl_mode(s, fi, bs, false);
            let k = s.asked.len() as int;
            let v = t.got(k + 1);
            &&& t.asked[k] == Request::Bool(Cdf::CflType)
            &&& t.got(k) == 1 ==> m.cfl_type == 1 && m.alpha_u == 0 && m.alpha_v == 0
            &&& t.got(k) == 0 ==> {
                &&& m.cfl_type == 0
                &&& m.alpha_u == 0 <==> v <= 1
                &&& m.alpha_u < 0 <==> 2 <= v <= 4
                &&& m.alpha_u > 0 <==> 5 <= v
                &&& m.alpha_v == 0 <==> v == 2 || v == 5
                &&& m.alpha_v < 0 <==> v == 0 || v == 3 || v == 6
                &&& m.alpha_v > 0 <==> v == 1 || v == 4 || v == 7
                &&& m.alpha_u != 0 ==> abs(m.alpha_u as int) == t.got(k + 2) + 1
                &&& m.alpha_u != 0 && m.alpha_v != 0 ==> abs(m.alpha_v as int) == t.got(k + 3) + 1
                &&& m.alpha_u == 0 ==> abs(m.alpha_v as int) == t.got(k + 2) + 1
            }
        }),
{
}

/// Prediction from luma with several taps is flagged, or goes without saying
/// where it is the only kind; its direction follows.
pub proof fn law_taps_have_a_direction(s: Sym, fi: SbFrameInfo, bs: BlockSize)
    ensures
        ({
            let (m, t) = cfl_mode(s, fi, bs, true);
            let k = s.asked.len() as int;
            &&& !fi.cfl ==> m.cfl_type == 2 && m.mh_dir == t.got(k)
            &&& fi.cfl ==> t.asked[k] == Request::Bool(Cdf::Mhccp) && (m.cfl_type == 2 <==> t.got(k)
                == 1)
            &&& fi.cfl && t.got(k) == 1 ==> m.mh_dir == t.got(k + 1)
            &&& m.cfl_type == 2 ==> m.alpha_u == 0 && m.alpha_v == 0
        }),
{
}

/// Chroma takes over the direction of luma, angle included, with its first
/// index; the modes without direction follow in the order of luma, and then
/// the centres of the directions that luma does not have.
pub proof fn law_chroma_modes_start_with_that_of_luma(i: int, midx: u8)
    requires
        0 <= i <= 12,
        is_midx(midx),
    ensures
        midx != 0xff ==> chroma_by_index(0, midx).uv_mode == directional(midx).y_mode
            && chroma_by_index(0, midx).uv_angle == directional(midx).y_angle,
        midx != 0xff && 1 <= i ==> chroma_by_index(i, midx).uv_angle == 0,
        midx != 0xff && 1 <= i <= 5 ==> chroma_by_index(i, midx) == chroma_by_index(i - 1, 0xff),
        midx != 0xff && 6 <= i ==> chroma_by_index(i, midx).uv_mode != directional(midx).y_mode
            && 1 <= chroma_by_index(i, midx).uv_mode <= 8,
        midx == 0xff ==> chroma_by_index(i, midx).uv_angle == 0,
        midx == 0xff && 1 <= i < 5 ==> chroma_by_index(i, midx).uv_mode == 8 + i,
        midx == 0xff && i == 0 ==> chroma_by_index(i, midx).uv_mode == 0,
        midx == 0xff && i == 5 ==> chroma_by_index(i, midx).uv_mode == 1,
        midx == 0xff && i == 6 ==> chroma_by_index(i, midx).uv_mode == 2,
{
    assert(midx != 0xff ==> DEFAULT_MODE_LIST_UV[INTRA_DIR_MODE_Y_TO_UV_IDX[midx as int / 7] as int]
        == REORDERED_DIR_Y_MODE[midx as int / 7]);
    assert(forall|p: int, q: int|
        0 <= p < 8 && 0 <= q < 8 && #[trigger] DEFAULT_MODE_LIST_UV[p]
            == #[trigger] DEFAULT_MODE_LIST_UV[q] ==> p == q);
}

/// A palette has two colours or more, as its symbol says; only blocks whose
/// mode is the mean have one.
pub proof fn law_palette_size_is_flagged(s: Sym, fi: SbFrameInfo, bs: BlockSize, y_mode: u8)
    ensures
        ({
            let (n, t) = palette_size(s, fi, bs, y_mode);
            let k = s.asked.len() as int;
            &&& y_mode != 0 || !fi.allow_screen_content_tools ==> n == 0 && t == s
            &&& bs.w4() > 16 || bs.h4() > 16 || bs.w4() + bs.h4() < 4 ==> n == 0 && t == s
            &&& t != s ==> t.asked[k] == Request::Bool(Cdf::PalY)
            &&& t != s && t.got(k) == 0 ==> n == 0
            &&& t != s && t.got(k) == 1 ==> n == 2 + t.got(k + 1)
            &&& y_mode == 0 && fi.allow_screen_content_tools && bs.w4() <= 16 && bs.h4() <= 16
                && bs.w4() + bs.h4() >= 4 ==> t != s
        }),
{
    assert(s.push(Request::Bool(Cdf::PalY)).asked.len() == s.asked.len() + 1);
}

/// The line that a block is predicted from is coded only for directions; only
/// a line that does not touch the block may be mixed with another.
pub proof fn law_lines_are_coded_for_directions(
    s: Sym,
    fi: SbFrameInfo,
    m: LumaMode,
    nb: SbNb,
    a: BlockContext,
    l: BlockContext,
)
    ensures
        ({
            let ((i, multi), t) = mrl_read(s, fi, m, nb, a, l);
            let k = s.asked.len() as int;
            &&& m.dpcm || m.midx == 0xff || !fi.mrls ==> i == 0 && multi == 0 && t == s
            &&& !m.dpcm && m.midx != 0xff && fi.mrls ==> {
                &&& i == t.got(k)
                &&& i == 0 ==> multi == 0 && t.asked.len() == k + 1
                &&& i > 0 ==> multi == t.got(k + 1) && t.asked.len() == k + 2
            }
        }),
{
}

/// Data-driven prediction is flagged: a bit tells whether it is transposed and
/// a symbol which of the six modes it is.
pub proof fn law_data_driven_modes(
    s: Sym,
    fi: SbFrameInfo,
    bs: BlockSize,
    y_mode: u8,
    pal_sz: int,
    nb: SbNb,
    a: BlockContext,
    l: BlockContext,
)
    ensures
        ({
            let (m, t) = dip_mode(s, fi, bs, y_mode, pal_sz, nb, a, l);
            let k = s.asked.len() as int;
            &&& y_mode != 0 || !fi.intra_dip || pal_sz != 0 || bs.w4() < 2 || bs.h4() < 2 ==> m == 0
                && t == s
            &&& t.asked.len() > k && t.got(k) == 0 ==> m == 0
            &&& t.asked.len() > k && t.got(k) == 1 ==> m % 16 == t.got(k + 2) + 1 && m / 16
                == t.got(k + 1)
        }),
{
    assert(p2(1) == 2);
}

/// Lossless chroma is first flagged to code differences, along the direction
/// of a second flag. Otherwise a flag tells that chroma follows luma, where that
/// is allowed; and without that an index, with an escape to three more bits,
/// names the mode.
pub proof fn law_chroma_mode_follows_its_flags(
    s: Sym,
    fi: SbFrameInfo,
    bs: BlockSize,
    cbs: BlockSize,
    x: int,
    y: int,
    disallowed: bool,
    midx: u8,
    a: BlockContext,
    l: BlockContext,
)
    ensures
        ({
            let k = s.asked.len() as int;
            let (r, t) = chroma_mode(s, fi, bs, cbs, x, y, false, disallowed, midx, a, l);
            let (q, u) = chroma_mode(s, fi, bs, cbs, x, y, true, disallowed, midx, a, l);
            let index = Request::Symbol(
                Cdf::IntraUvMode((if midx == 0xff { 0int } else { 1 }) as usize),
                7,
            );
            let ctx = b2i(a.uvmode[x] == CFL_PRED) + b2i(l.uvmode[y] == CFL_PRED);
            let follow = Request::Bool(Cdf::Cfl(ctx as usize));
            let d = s.ask(Request::Bool(Cdf::Dpcm(1))).0;
            &&& d != 0 ==> u.asked.len() == k + 2 && u.asked[k] == Request::Bool(Cdf::Dpcm(1))
                && u.asked[k + 1] == Request::Bool(Cdf::DpcmDir(1)) && (q matches Some(m) && m.dpcm && (
            m.uv_mode == 2 <==> u.got(k + 1) != 0) && (m.uv_mode == 1 <==> u.got(k + 1) == 0))
            &&& d == 0 ==> (q matches Some(m) ==> !m.dpcm)
            &&& r matches Some(m) ==> !m.dpcm
            &&& cfl_allowed(fi, bs, cbs, false, disallowed) && s.ask(follow).0 != 0 ==> (
            r matches Some(m) && m.uv_mode == CFL_PRED)
            &&& cfl_allowed(fi, bs, cbs, false, disallowed) && s.ask(follow).0 == 0
                ==> t.asked[k] == follow && t.asked[k + 1] == index && names_chroma(t, k + 1, midx, r)
            &&& !cfl_allowed(fi, bs, cbs, false, disallowed) ==> t.asked[k] == index && names_chroma(
                t,
                k,
                midx,
                r,
            )
        }),
{
}

/// Answer `k` names a chroma mode, or is an escape to three bits that do.
pub open spec fn names_chroma(t: Sym, k: int, midx: u8, r: Option<ChromaMode>) -> bool {
    let v = t.got(k);
    &&& v < 7 ==> t.asked.len() == k + 1 && r == Some(chroma_by_index(v, midx))
    &&& v >= 7 ==> t.asked.len() == k + 2 && t.asked[k + 1] == Request::Bits(3) && (if t.got(k + 1)
        <= 5 {
        r == Some(chroma_by_index(7 + t.got(k + 1), midx))
    } else {
        r is None
    })
}

/// Chroma of the size of luma can follow luma in blocks of at most 64 pixels
/// each way, lossless chroma only in single units; a region that forbids it
/// does so for blocks of at most 64 pixels.
pub proof fn law_chroma_follows_luma_in_small_blocks(
    fi: SbFrameInfo,
    bs: BlockSize,
    cbs: BlockSize,
    lossless: bool,
    disallowed: bool,
)
    requires
        bs != BlockSize::Invalid,
        cbs != BlockSize::Invalid,
        fi.ss_hor == 0,
        fi.ss_ver == 0,
    ensures
        cfl_allowed(fi, bs, cbs, lossless, disallowed) ==> (fi.cfl || fi.mhccp) && cbs.w4() <= 16
            && cbs.h4() <= 16 && (lossless ==> cbs == BlockSize::Bs4x4) && (disallowed ==> bs.w4()
            > 16 || bs.h4() > 16),
        fi.cfl && !lossless && !disallowed && cbs.w4() <= 16 && cbs.h4() <= 16 ==> cfl_allowed(
            fi,
            bs,
            cbs,
            lossless,
            disallowed,
        ),
        mhccp_allowed(fi, cbs, false) ==> fi.mhccp && cbs.w4() <= 8 && cbs.h4() <= 8 && cbs
            != BlockSize::Bs4x4,
        fi.mhccp && 2 <= cbs.w4() <= 8 && 2 <= cbs.h4() <= 8 ==> mhccp_allowed(fi, cbs, false),
{
    reveal(BlockSize::w4);
    reveal(BlockSize::h4);
    assert(p2(0) == 1);
    let (w, h) = (cbs.w4(), cbs.h4());
    assert(w / 1 == w && h / 1 == h);
    assert(w >= 2 && h >= 2 ==> w * h >= 4) by (nonlinear_arith);
    assert(w == 1 && h == 1 ==> w * h == 1) by (nonlinear_arith);
}

} // verus!
