//! How the transform of a block is divided.
use vstd::prelude::*;

use crate::block::Av2Block;
use crate::intops::{b2i, max, min};
use crate::levels::{BlockSize, TxPartition};
use crate::msac::{Cdf, MsacContext, Request, Sym};
use crate::tables::{SIZE_GROUP, TX_PART_GROUP, TX_TYPE_GROUP_VH};

verus! {

/// Whether a block is predicted from pixels that were decoded before it, of
/// this or of another frame, rather than from its edges.
pub open spec fn copies_pixels(is_intra: u8, intrabc: u8) -> bool {
    is_intra == 0 || intrabc != 0
}

/// What the division of a transform depends on: whether the block copies
/// pixels and whether it has no residual, its coefficient coding, and the
/// size of a lossless transform so far.
#[derive(Debug, Clone, Copy, PartialEq, Eq, Structural)]
pub struct TxBlock {
    pub copies: bool,
    pub skip: bool,
    pub fsc: u8,
    pub size_ll: u8,
}

pub open spec fn tx_block(b: Av2Block) -> TxBlock {
    TxBlock {
        copies: copies_pixels(b.is_intra, b.intrabc),
        skip: b.skip_txfm != 0,
        fsc: b.fsc,
        size_ll: b.tx_size_ll,
    }
}

/// Whether the transform of a lossless block can be larger than 4x4.
pub open spec fn lossless_size_coded(b: TxBlock, bs: BlockSize) -> bool {
    bs != BlockSize::Bs4x4 && if b.copies { !b.skip } else { b.fsc != 0 }
}

/// The division of the transform of a block that is not lossless.
pub open spec fn tx_division(s: Sym, b: TxBlock, bs: BlockSize, switchable: bool) -> (int, Sym) {
    let (w, h) = (bs.w4(), bs.h4());
    let inter = b2i(b.copies) as usize;
    let fsc = b.fsc as usize;
    if b.skip || !switchable || bs == BlockSize::Bs4x4 || max(w, h) > 16 {
        (0, s)
    } else {
        let (split, s) = s.flag(Cdf::TxSplit(fsc, inter, TX_PART_GROUP[bs as int] as usize));
        if split == 0 {
            (0, s)
        } else if min(w, h) >= 2 {
            let (v, s) = s.symbol(
                Cdf::TxPart2d(fsc, inter, TX_TYPE_GROUP_VH[bs as int] as usize),
                6,
            );
            (1 + v, s)
        } else if max(w, h) >= 4 {
            let wide = b2i(w >= 4);
            let (four, s) = s.flag(Cdf::TxPart1d(fsc, inter, wide as usize));
            (2 + wide + 2 * four, s)
        } else {
            (if bs == BlockSize::Bs4x8 { 2 } else { 3 }, s)
        }
    }
}

/// The division of the transform, then the size of a lossless transform.
pub open spec fn tx_read(
    s: Sym,
    b: TxBlock,
    bs: BlockSize,
    lossless: bool,
    switchable: bool,
) -> ((int, int), Sym) {
    if lossless {
        if lossless_size_coded(b, bs) {
            let (v, s) = s.flag(
                Cdf::TxszLossless(SIZE_GROUP[bs as int] as usize, b2i(b.copies) as usize),
            );
            ((0, v), s)
        } else {
            ((0, 0), s)
        }
    } else {
        let (v, s) = tx_division(s, b, bs, switchable);
        ((v, b.size_ll as int), s)
    }
}

pub fn read_tx_part(
    msac: &mut MsacContext,
    b: &mut Av2Block,
    bs: BlockSize,
    lossless: bool,
    txfm_switchable: bool,
)
    requires
        bs != BlockSize::Invalid,
    ensures
        ((final(b).tx_part as int, final(b).tx_size_ll as int), final(msac)@) == tx_read(
            old(msac)@,
            tx_block(*old(b)),
            bs,
            lossless,
            txfm_switchable,
        ),
        *final(b) == (Av2Block {
            tx_part: final(b).tx_part,
            tx_size_ll: final(b).tx_size_ll,
            ..*old(b)
        }),
        final(b).tx_part <= TxPartition::V5 as u8,
        lossless ==> final(b).tx_size_ll <= 1,
{
    let d: [u8; 4] = bs.dim();
    let inter: usize = if b.is_intra == 0 || b.intrabc != 0 { 1 } else { 0 };
    b.tx_part = TxPartition::Whole as u8;
    if lossless {
        b.tx_size_ll = 0;
        let coded: bool = bs != BlockSize::Bs4x4 && (if inter == 0 {
            b.fsc != 0
        } else {
            b.skip_txfm == 0
        });
        if coded {
            b.tx_size_ll = msac.decode_bool_adapt(
                Cdf::TxszLossless(SIZE_GROUP[bs as usize] as usize, inter),
            ) as u8;
        }
    } else if b.skip_txfm == 0 && txfm_switchable && bs != BlockSize::Bs4x4 && d[0] <= 16 && d[1]
        <= 16 {
        let fsc: usize = b.fsc as usize;
        if msac.decode_bool_adapt(Cdf::TxSplit(fsc, inter, TX_PART_GROUP[bs as usize] as usize))
            != 0 {
            if d[0] >= 2 && d[1] >= 2 {
                b.tx_part = 1 + msac.decode_symbol_adapt(
                    Cdf::TxPart2d(fsc, inter, TX_TYPE_GROUP_VH[bs as usize] as usize),
                    6,
                ) as u8;
            } else if d[0] >= 4 || d[1] >= 4 {
                let wide: u8 = if d[0] >= 4 { 1 } else { 0 };
                let four: u8 = msac.decode_bool_adapt(
                    Cdf::TxPart1d(fsc, inter, wide as usize),
                ) as u8;
                b.tx_part = 2 + wide + four * 2;
            } else {
                b.tx_part = if bs == BlockSize::Bs4x8 { 2 } else { 3 };
            }
        }
    }
}

/// What is read of the division of a transform: a flag tells whether it is
/// divided at all. A block with both sides of at least eight pixels names one
/// of seven divisions; a strip is divided across its longer side, into two or,
/// where a second flag is set, into four.
pub proof fn law_transform_division_follows_its_flags(
    s: Sym,
    b: TxBlock,
    bs: BlockSize,
    switchable: bool,
)
    requires
        bs != BlockSize::Invalid,
    ensures
        ({
            let (v, t) = tx_division(s, b, bs, switchable);
            let k = s.asked.len() as int;
            let (w, h) = (bs.w4(), bs.h4());
            let coded = !b.skip && switchable && (w > 1 || h > 1) && w <= 16 && h <= 16;
            &&& !coded ==> v == TxPartition::Whole as int && t == s
            &&& coded ==> (t.asked[k] matches Request::Bool(Cdf::TxSplit(_, _, _)))
            &&& coded && t.got(k) == 0 ==> v == TxPartition::Whole as int
            &&& coded && t.got(k) == 1 && w >= 2 && h >= 2 ==> v == 1 + t.got(k + 1)
            &&& coded && t.got(k) == 1 && w == 1 && h == 2 ==> v == TxPartition::H as int
            &&& coded && t.got(k) == 1 && w == 2 && h == 1 ==> v == TxPartition::V as int
            &&& coded && t.got(k) == 1 && w == 1 && h >= 4 ==> v == (if t.got(k + 1) == 0 {
                TxPartition::H as int
            } else {
                TxPartition::H4 as int
            })
            &&& coded && t.got(k) == 1 && h == 1 && w >= 4 ==> v == (if t.got(k + 1) == 0 {
                TxPartition::V as int
            } else {
                TxPartition::V4 as int
            })
        }),
{
    reveal(BlockSize::w4);
    reveal(BlockSize::h4);
}

/// A lossless transform is of 4x4 pixels unless a flag says otherwise, which is
/// coded only for larger blocks that have a residual; it is never divided.
pub proof fn law_lossless_transforms_are_not_divided(
    s: Sym,
    b: TxBlock,
    bs: BlockSize,
    switchable: bool,
)
    ensures
        ({
            let ((v, size), t) = tx_read(s, b, bs, true, switchable);
            let k = s.asked.len() as int;
            &&& v == 0
            &&& bs == BlockSize::Bs4x4 ==> size == 0
            &&& b.copies && b.skip ==> size == 0
            &&& !b.copies && b.fsc == 0 ==> size == 0
            &&& t.asked.len() > k ==> size == t.got(k)
            &&& t.asked.len() == k ==> size == 0
            &&& bs != BlockSize::Bs4x4 && b.copies && !b.skip ==> t.asked.len() > k
            &&& bs != BlockSize::Bs4x4 && !b.copies && b.fsc != 0 ==> t.asked.len() > k
        }),
{
}

} // verus!
