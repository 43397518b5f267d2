//! The symbol reader.
//!
//! Parsing is driven by replies: the parser names the distribution that the
//! next symbol is coded with, and the symbol comes back as a plain number. A
//! context that the caller derives from neighbouring blocks is asked for in the
//! same way. A
//! [`MsacContext`] holds the replies known so far and the list of what has
//! been asked. Where the parser asks beyond the replies, the answer is zero
//! and [`MsacContext::pending`] tells which symbol has to be decoded next;
//! after [`MsacContext::answer`] the parse is run again from its start.
use vstd::prelude::*;

use crate::intops::{min, p2, POW2};
use crate::levels::BlockSize;

verus! {

/// The adaptive distributions, by syntax element and context.
#[derive(Debug, Clone, Copy, PartialEq, Eq, Structural)]
pub enum Cdf {
    WedgeQuad,
    WedgeAngle(usize),
    WedgeDist,
    WedgeDist2,
    AmvdJoint,
    AmvdIndex(usize),
    ShellSet,
    ShellUpper(usize),
    ShellLower(usize),
    ShellTip,
    ShellOffsetLow(usize),
    ShellOffsetCl2,
    ShellOffsetHi(usize),
    ColComponent(usize),
    ColIndex(usize),
    PalIdxIdentity(usize),
    PalIdx(usize, usize),
    TxszLossless(usize, usize),
    TxSplit(usize, usize, usize),
    TxPart2d(usize, usize, usize),
    TxPart1d(usize, usize, usize),
    RstSwitchable(usize),
    RstNsWiener,
    RstPcWiener,
    WienerNsLen(usize),
    WienerNsSym,
    WienerNsCf,
    PartSplit(usize, usize),
    PartSquare(usize),
    PartDir(usize, usize),
    PartExt(usize, usize),
    Part4way(usize, usize),
    RegionType(usize),
    SegPred(usize),
    SegIdExt(usize),
    SegId(usize, usize),
    Dpcm(usize),
    DpcmDir(usize),
    IntraYSet,
    IntraYIdx0(usize),
    IntraYIdx1(usize),
    Fsc(usize, usize),
    MrlIndex(usize),
    MultiMrl(usize),
    Cfl(usize),
    Mhccp,
    MhccpFilterDir(usize),
    CflType,
    CflSign,
    CflAlpha(usize),
    IntraUvMode(usize),
    PalY,
    PalSz,
    Dip(usize),
    DipMode,
    Gdf,
    CdefIdx0(usize),
    CdefIdx(usize),
    Ccso(usize, usize),
    DeltaQ,
    SkipMode(usize),
    Intra(usize),
    IntraBc(usize),
    SkipTxfm(usize),
    IntraBcMode,
    IntraBcPrecision,
    MorphPred(usize),
    Tip(usize),
    Comp(usize),
    SkipModeDrlIdx(usize),
    Comp0Ref(usize, usize),
    Comp1Ref(usize, usize, usize),
    CompModeSameref(usize),
    CompModeJoint(usize),
    CompMode(usize),
    Opfl(usize),
    Amvd(usize, usize),
    JmvdAmvdScaleMode,
    JmvdScaleMode,
    DrlIdx(usize, usize),
    TipDrlIdx(usize),
    MvprecDef(usize),
    MvprecRem(usize, usize),
    RefineMv(usize),
    CompTypeMasked(usize),
    CompTypeWeighted,
    CwpIdx(usize),
    Filter(usize),
    SingleRef(usize, usize),
    TipMode,
    Warp(usize),
    WarpNewMv,
    InterMode(usize),
    Bawp(usize),
    BawpExplicit(usize),
    BawpExplicitScale,
    Interintra(usize),
    InterintraMode(usize),
    InterintraWedge,
    WarpExtend(usize),
    WarpCausal(usize),
    WarpRefIdx(usize),
    WarpMvWithMvd,
    WarpDeltaPrec(usize),
    WarpDeltaParam(usize, usize),
    WarpDeltaSign,
    WarpInterintra(usize),
}

/// Two reference frames.
#[derive(Debug, Clone, Copy, PartialEq, Eq, Structural)]
pub struct Pair {
    pub r0: i8,
    pub r1: i8,
}

/// Which neighbours of a block lie in its tile.
#[derive(Debug, Clone, Copy, PartialEq, Eq, Structural)]
pub struct Neighbours {
    pub top: bool,
    pub left: bool,
    pub top_right: bool,
    pub bottom_left: bool,
}

/// What the caller derives from neighbouring blocks.
#[derive(Debug, Clone, Copy, PartialEq, Eq, Structural)]
pub enum Derived {
    /// How finely the neighbours of a block are divided, by plane type and
    /// position in the superblock.
    Partition(BlockSize, usize, usize, usize),
    /// The same along one direction.
    Partition2(BlockSize, usize, usize, usize, usize),
    /// How many neighbours share a pair of reference frames, by block size,
    /// position in the superblock, the pair, the neighbours that there are, and
    /// the pair that motion is interpolated between.
    CompRef(BlockSize, usize, usize, Pair, Neighbours, Pair),
    /// How many neighbours are warped from a reference frame, by block size,
    /// position in the superblock, reference, the neighbours that there are,
    /// and whether those above belong to another superblock.
    Warp(BlockSize, usize, usize, i8, Neighbours, bool),
}

/// The references that candidates for the motion of a block are searched for,
/// and whether the block skips all syntax.
#[derive(Debug, Clone, Copy, PartialEq, Eq, Structural)]
pub struct Search {
    pub ref0: i8,
    pub ref1: i8,
    pub skip: bool,
}

/// A number that belongs to a candidate: a part of one of its vectors, its
/// weight, where it lies from the block, or an entry of its warp.
#[derive(Debug, Clone, Copy, PartialEq, Eq, Structural)]
pub enum CandPart {
    Y(u8),
    X(u8),
    Weight,
    OffY,
    OffX,
    Warp(u8),
}

/// What fitting a warp to a block gives: whether there is one, an entry of it,
/// whether it splits into shears, and whether it is affine.
#[derive(Debug, Clone, Copy, PartialEq, Eq, Structural)]
pub enum FitPart {
    Found,
    Entry(u8),
    Shears,
    Affine,
}

/// The answer where coefficients cannot be decoded.
pub const NO_COEFS: u32 = 0xffff_ffff;

/// The signed number that an answer stands for: the answers alternate between
/// the two signs.
pub open spec fn unfolded(v: int) -> int {
    if v % 2 == 0 { v / 2 } else { -(v / 2) - 1 }
}

/// One question to the entropy decoder.
#[derive(Debug, Clone, Copy, PartialEq, Eq, Structural)]
pub enum Request {
    /// A symbol in `0..=n` under an adaptive distribution.
    Symbol(Cdf, u32),
    /// A flag under an adaptive distribution.
    Bool(Cdf),
    /// An equiprobable flag.
    Bit,
    /// A number of that many equiprobable bits.
    Bits(u32),
    /// An equiprobable number below `n`.
    Uniform(u32),
    /// A context with that many values.
    Context(Derived, u32),
    /// By how many bits reading went beyond the data.
    Overrun,
    /// A number of the candidate with an index.
    Candidate(Search, u8, CandPart),
    /// A number of the warp that is fitted to the block.
    Fit(FitPart),
    /// Whether a prediction of a part of a block lies outside of its reference.
    Outside(usize),
    /// How many coefficients are coded for a step of building a block;
    /// [`NO_COEFS`] where they cannot be decoded.
    Coefs(usize),
}

impl Request {
    /// How many different answers there are.
    pub open spec fn alternatives(self) -> int {
        match self {
            Request::Symbol(_, n) => n + 1,
            Request::Bool(_) => 2,
            Request::Bit => 2,
            Request::Bits(n) => p2(n as int),
            Request::Uniform(n) => n as int,
            Request::Context(_, n) => n as int,
            Request::Overrun => 0x1_0000_0000,
            Request::Candidate(_, _, _) => 0x1_0000_0000,
            Request::Fit(FitPart::Entry(_)) => 0x1_0000_0000,
            Request::Fit(_) => 2,
            Request::Outside(_) => 2,
            Request::Coefs(_) => 0x1_0000_0000,
        }
    }

    pub open spec fn valid(self) -> bool {
        match self {
            Request::Symbol(_, n) => n < 0x1000,
            Request::Bits(n) => n <= 31,
            Request::Uniform(n) => n >= 1,
            Request::Context(_, n) => n >= 1,
            _ => true,
        }
    }
}

/// The replies that a parse is run against and what it has asked so far.
#[verifier::ext_equal]
pub struct Sym {
    pub replies: Seq<u32>,
    pub asked: Seq<Request>,
}

impl Sym {
    /// The answer to `r`: the next reply, kept within the alternatives.
    pub open spec fn next(self, r: Request) -> int {
        let k = self.asked.len() as int;
        let v = if k < self.replies.len() { self.replies[k] as int } else { 0 };
        min(v, r.alternatives() - 1)
    }

    /// The answer that request `k` got: its reply, kept within the
    /// alternatives.
    pub open spec fn got(self, k: int) -> int {
        let last = self.asked[k].alternatives() - 1;
        if k >= self.replies.len() {
            min(0, last)
        } else if self.replies[k] < last {
            self.replies[k] as int
        } else {
            last
        }
    }

    /// The kind of request `k`.
    pub open spec fn is_flag(self, k: int, cdf: Cdf) -> bool {
        self.asked[k] == Request::Bool(cdf)
    }

    pub open spec fn push(self, r: Request) -> Sym {
        Sym { replies: self.replies, asked: self.asked.push(r) }
    }

    /// Asking `r`: the answer, and the state after it.
    pub open spec fn ask(self, r: Request) -> (int, Sym) {
        (self.next(r), self.push(r))
    }

    pub open spec fn symbol(self, cdf: Cdf, n: int) -> (int, Sym) {
        self.ask(Request::Symbol(cdf, n as u32))
    }

    pub open spec fn flag(self, cdf: Cdf) -> (int, Sym) {
        self.ask(Request::Bool(cdf))
    }

    pub open spec fn bit(self) -> (int, Sym) {
        self.ask(Request::Bit)
    }

    pub open spec fn bits(self, n: int) -> (int, Sym) {
        self.ask(Request::Bits(n as u32))
    }

    pub open spec fn uniform(self, n: int) -> (int, Sym) {
        self.ask(Request::Uniform(n as u32))
    }

    pub open spec fn context(self, d: Derived, n: int) -> (int, Sym) {
        self.ask(Request::Context(d, n as u32))
    }

    pub open spec fn overrun(self) -> (int, Sym) {
        self.ask(Request::Overrun)
    }

    pub open spec fn candidate(self, q: Search, i: u8, part: CandPart) -> (int, Sym) {
        let (v, s) = self.ask(Request::Candidate(q, i, part));
        (unfolded(v), s)
    }

    pub open spec fn fit_entry(self, k: u8) -> (int, Sym) {
        let (v, s) = self.ask(Request::Fit(FitPart::Entry(k)));
        (unfolded(v), s)
    }

    pub open spec fn fit_flag(self, part: FitPart) -> (bool, Sym) {
        let (v, s) = self.ask(Request::Fit(part));
        (v == 1, s)
    }

    pub open spec fn outside(self, n: int) -> (bool, Sym) {
        let (v, s) = self.ask(Request::Outside(n as usize));
        (v == 1, s)
    }

    pub open spec fn coefs(self, n: int) -> (bool, Sym) {
        let (v, s) = self.ask(Request::Coefs(n as usize));
        (v != NO_COEFS, s)
    }
}

/// Every answer is one of the alternatives.
pub proof fn law_answer_in_range(s: Sym, r: Request)
    requires
        r.valid(),
    ensures
        0 <= s.next(r) < r.alternatives(),
{
    assert(forall|k: int| 0 <= k <= 31 ==> 1 <= #[trigger] POW2[k]);
}

/// Asking adds one request and keeps what came before. The answer is the reply
/// of that number, where it is one of the alternatives; without a reply it is
/// zero.
pub proof fn law_asking_takes_the_next_reply(s: Sym, r: Request)
    requires
        r.valid(),
    ensures
        s.ask(r).1.asked == s.asked.push(r),
        s.ask(r).1.replies == s.replies,
        s.ask(r).0 == s.ask(r).1.got(s.asked.len() as int),
        s.asked.len() < s.replies.len() && s.replies[s.asked.len() as int] < r.alternatives()
            ==> s.ask(r).0 == s.replies[s.asked.len() as int],
        s.asked.len() >= s.replies.len() ==> s.ask(r).0 == 0,
{
    assert(forall|k: int| 0 <= k <= 31 ==> 1 <= #[trigger] POW2[k]);
}

/// The answers `0, 1, 2, 3, ..` stand for `0, -1, 1, -2, ..`: every signed
/// number is that of exactly one answer.
pub proof fn law_answers_alternate_in_sign(v: int)
    requires
        0 <= v,
    ensures
        unfolded(2 * v) == v,
        unfolded(2 * v + 1) == -1 - v,
{
}

fn unfold(v: u32) -> (r: i32)
    ensures
        r == unfolded(v as int),
{
    let half: i32 = (v / 2) as i32;
    if v % 2 == 0 { half } else { -half - 1 }
}

pub struct MsacContext {
    replies: Vec<u32>,
    asked: Vec<Request>,
}

impl View for MsacContext {
    type V = Sym;

    closed spec fn view(&self) -> Sym {
        Sym { replies: self.replies@, asked: self.asked@ }
    }
}

impl MsacContext {
    /// A reader at the start of a parse.
    pub fn new(replies: Vec<u32>) -> (r: Self)
        ensures
            r@ == (Sym { replies: replies@, asked: Seq::empty() }),
    {
        MsacContext { replies, asked: Vec::new() }
    }

    fn ask(&mut self, r: Request, last: u32) -> (v: u32)
        requires
            r.valid(),
            last == r.alternatives() - 1,
        ensures
            (v as int, final(self)@) == old(self)@.ask(r),
            0 <= v < r.alternatives(),
    {
        let k: usize = self.asked.len();
        let v: u32 = if k < self.replies.len() { self.replies[k] } else { 0 };
        self.asked.push(r);
        if v < last { v } else { last }
    }

    pub fn decode_symbol_adapt(&mut self, cdf: Cdf, n: u32) -> (v: u32)
        requires
            n < 0x1000,
        ensures
            (v as int, final(self)@) == old(self)@.symbol(cdf, n as int),
            v <= n,
    {
        self.ask(Request::Symbol(cdf, n), n)
    }

    pub fn decode_bool_adapt(&mut self, cdf: Cdf) -> (v: u32)
        ensures
            (v as int, final(self)@) == old(self)@.flag(cdf),
            v <= 1,
    {
        self.ask(Request::Bool(cdf), 1)
    }

    pub fn decode_bool_bypass(&mut self) -> (v: u32)
        ensures
            (v as int, final(self)@) == old(self)@.bit(),
            v <= 1,
    {
        self.ask(Request::Bit, 1)
    }

    pub fn decode_bools_bypass(&mut self, n: u32) -> (v: u32)
        requires
            n <= 31,
        ensures
            (v as int, final(self)@) == old(self)@.bits(n as int),
            v < p2(n as int),
    {
        assert(forall|k: int| 0 <= k <= 31 ==> 1 <= #[trigger] POW2[k] <= 0x8000_0000);
        self.ask(Request::Bits(n), (POW2[n as usize] - 1) as u32)
    }

    pub fn decode_uniform(&mut self, n: u32) -> (v: u32)
        requires
            n >= 1,
        ensures
            (v as int, final(self)@) == old(self)@.uniform(n as int),
            v < n,
    {
        self.ask(Request::Uniform(n), n - 1)
    }

    /// A context below `n` that the caller derives.
    pub fn derive_context(&mut self, d: Derived, n: u32) -> (v: u32)
        requires
            n >= 1,
        ensures
            (v as int, final(self)@) == old(self)@.context(d, n as int),
            v < n,
    {
        self.ask(Request::Context(d, n), n - 1)
    }

    /// By how many bits reading went beyond the data.
    pub fn overrun(&mut self) -> (v: u32)
        ensures
            (v as int, final(self)@) == old(self)@.overrun(),
    {
        self.ask(Request::Overrun, 0xffff_ffff)
    }

    /// A number of a candidate for the motion of a block.
    pub fn candidate(&mut self, q: Search, i: u8, part: CandPart) -> (v: i32)
        ensures
            (v as int, final(self)@) == old(self)@.candidate(q, i, part),
    {
        unfold(self.ask(Request::Candidate(q, i, part), 0xffff_ffff))
    }

    /// An entry of the warp that is fitted to a block.
    pub fn fit_entry(&mut self, k: u8) -> (v: i32)
        ensures
            (v as int, final(self)@) == old(self)@.fit_entry(k),
    {
        unfold(self.ask(Request::Fit(FitPart::Entry(k)), 0xffff_ffff))
    }

    /// A property of the warp that is fitted to a block.
    pub fn fit_flag(&mut self, part: FitPart) -> (v: bool)
        requires
            !(part is Entry),
        ensures
            (v, final(self)@) == old(self)@.fit_flag(part),
    {
        self.ask(Request::Fit(part), 1) == 1
    }

    /// Whether a prediction of part `n` of a block lies outside of its
    /// reference.
    pub fn outside(&mut self, n: usize) -> (v: bool)
        ensures
            (v, final(self)@) == old(self)@.outside(n as int),
    {
        self.ask(Request::Outside(n), 1) == 1
    }

    /// Whether the coefficients of step `n` of a block can be decoded.
    pub fn coefs(&mut self, n: usize) -> (v: bool)
        ensures
            (v, final(self)@) == old(self)@.coefs(n as int),
    {
        self.ask(Request::Coefs(n), 0xffff_ffff) != NO_COEFS
    }

    /// The first request that went beyond the replies, if there is one.
    pub fn pending(&self) -> (r: Option<Request>)
        ensures
            self@.asked.len() <= self@.replies.len() ==> r is None,
            self@.asked.len() > self@.replies.len() ==> r == Some(
                self@.asked[self@.replies.len() as int],
            ),
    {
        if self.asked.len() > self.replies.len() {
            Some(self.asked[self.replies.len()])
        } else {
            None
        }
    }

    /// Adds a reply and returns to the start of the parse.
    pub fn answer(&mut self, reply: u32)
        ensures
            final(self)@ == (Sym {
                replies: old(self)@.replies.push(reply),
                asked: Seq::empty(),
            }),
    {
        self.replies.push(reply);
        self.asked = Vec::new();
    }
}

} // verus!
