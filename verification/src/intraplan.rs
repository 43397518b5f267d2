//! The steps by which a block is built within its frame, and the parts of
//! large blocks.
use vstd::prelude::*;

use crate::frameinfo::SbFrameInfo;
use crate::levels::{BlockSize, MvXY};
use crate::splitblock::{all_parts, near_part, split_block, ChromaPhase, ReconBlock, SubBlock};

verus! {

/// A copy from the frame itself: the plane, and the block in units of luma.
#[derive(Debug, Clone, Copy, PartialEq, Eq, Structural)]
pub struct CopyPart {
    pub plane: u8,
    pub bx: i32,
    pub by: i32,
    pub bs: BlockSize,
    pub mv: MvXY,
}

/// A step of building a block.
#[derive(Debug, Clone, Copy, PartialEq, Eq, Structural)]
pub enum IntraStep {
    Copy(CopyPart),
    /// The transform blocks of a luma block.
    Luma(i32, i32, BlockSize),
    /// Chroma, and whether it is coded apart from luma.
    Chroma(ChromaPhase, i32, i32, BlockSize, bool),
}

/// The steps of a part.
pub open spec fn part_steps(s: SubBlock) -> Seq<IntraStep> {
    let k = s.block;
    let luma = if k.lbs == BlockSize::Invalid {
        Seq::empty()
    } else {
        seq![IntraStep::Luma(k.bx, k.by, k.lbs)]
    };
    if s.phase == ChromaPhase::Nothing {
        luma
    } else {
        luma.push(IntraStep::Chroma(s.phase, k.cbx, k.cby, k.cbs, k.lbs == BlockSize::Invalid))
    }
}

/// The steps of the first `n` parts.
pub open spec fn steps_of_parts(parts: Seq<SubBlock>, n: int) -> Seq<IntraStep>
    decreases n,
{
    if n <= 0 {
        Seq::empty()
    } else {
        steps_of_parts(parts, n - 1) + part_steps(parts[n - 1])
    }
}

/// The steps of a block of at most 64 by 64 pixels. Where it is a copy, each
/// plane is copied before what was coded for it is added.
pub open spec fn leaf_steps(k: ReconBlock, copy: Option<MvXY>) -> Seq<IntraStep> {
    let luma = if k.lbs == BlockSize::Invalid {
        Seq::empty()
    } else {
        (match copy {
            Some(mv) => seq![
                IntraStep::Copy(CopyPart { plane: 0, bx: k.bx, by: k.by, bs: k.lbs, mv }),
            ],
            None => Seq::empty(),
        }).push(IntraStep::Luma(k.bx, k.by, k.lbs))
    };
    let chroma = if k.cbs == BlockSize::Invalid {
        Seq::empty()
    } else {
        (match copy {
            Some(mv) => seq![
                IntraStep::Copy(CopyPart { plane: 1, bx: k.cbx, by: k.cby, bs: k.cbs, mv }),
                IntraStep::Copy(CopyPart { plane: 2, bx: k.cbx, by: k.cby, bs: k.cbs, mv }),
            ],
            None => Seq::empty(),
        }).push(
            IntraStep::Chroma(
                ChromaPhase::Both,
                k.cbx,
                k.cby,
                k.cbs,
                k.lbs == BlockSize::Invalid,
            ),
        )
    };
    luma + chroma
}

pub open spec fn intra_steps(fi: SbFrameInfo, k: ReconBlock, copy: Option<MvXY>) -> Seq<IntraStep> {
    if k.large() {
        let parts = all_parts(fi, k);
        steps_of_parts(parts, parts.len() as int)
    } else {
        leaf_steps(k, copy)
    }
}

fn plan_leaf(k: &ReconBlock, copy: Option<MvXY>) -> (r: Vec<IntraStep>)
    ensures
        r@ == leaf_steps(*k, copy),
{
    let mut r: Vec<IntraStep> = Vec::new();
    if k.lbs != BlockSize::Invalid {
        if let Some(mv) = copy {
            r.push(IntraStep::Copy(CopyPart { plane: 0, bx: k.bx, by: k.by, bs: k.lbs, mv }));
        }
        r.push(IntraStep::Luma(k.bx, k.by, k.lbs));
    }
    if k.cbs != BlockSize::Invalid {
        if let Some(mv) = copy {
            r.push(IntraStep::Copy(CopyPart { plane: 1, bx: k.cbx, by: k.cby, bs: k.cbs, mv }));
            r.push(IntraStep::Copy(CopyPart { plane: 2, bx: k.cbx, by: k.cby, bs: k.cbs, mv }));
        }
        r.push(
            IntraStep::Chroma(
                ChromaPhase::Both,
                k.cbx,
                k.cby,
                k.cbs,
                k.lbs == BlockSize::Invalid,
            ),
        );
    }
    assert(r@ =~= leaf_steps(*k, copy));
    r
}

/// Plans a block that is predicted within its frame. `copy` is the vector of
/// a block that is copied.
pub fn recon_b_intra(fi: &SbFrameInfo, k: &ReconBlock, copy: Option<MvXY>) -> (r: Vec<IntraStep>)
    requires
        k.valid(),
        k.bx <= 0x10_0000,
        k.by <= 0x10_0000,
        k.cbx <= 0x10_0000,
        k.cby <= 0x10_0000,
        0 <= fi.ss_hor <= 1,
        0 <= fi.ss_ver <= 1,
    ensures
        r@ == intra_steps(*fi, *k, copy),
{
    let bs: BlockSize = if k.lbs == BlockSize::Invalid { k.cbs } else { k.lbs };
    let d: [u8; 4] = bs.dim();
    if d[0] <= 16 && d[1] <= 16 {
        return plan_leaf(k, copy);
    }
    let parts: Vec<SubBlock> = split_block(fi, k);
    let n: usize = parts.len();
    let mut r: Vec<IntraStep> = Vec::new();
    let mut i: usize = 0;
    assert(r@ =~= steps_of_parts(parts@, 0));
    while i < n
        invariant
            n == parts@.len(),
            i <= n,
            r@ == steps_of_parts(parts@, i as int),
        decreases n - i,
    {
        let ghost r0 = r@;
        let s: SubBlock = parts[i];
        if s.block.lbs != BlockSize::Invalid {
            r.push(IntraStep::Luma(s.block.bx, s.block.by, s.block.lbs));
        }
        if s.phase != ChromaPhase::Nothing {
            r.push(
                IntraStep::Chroma(
                    s.phase,
                    s.block.cbx,
                    s.block.cby,
                    s.block.cbs,
                    s.block.lbs == BlockSize::Invalid,
                ),
            );
        }
        assert(r@ =~= r0 + part_steps(s));
        i = i + 1;
    }
    r
}

/// A part of a motion-compensated block: all of chroma is built where its
/// coefficients are read.
pub open spec fn inter_part(s: SubBlock) -> ReconBlock {
    ReconBlock {
        cbs: if s.phase == ChromaPhase::Both || s.phase == ChromaPhase::ReadOnly {
            s.block.cbs
        } else {
            BlockSize::Invalid
        },
        ..s.block
    }
}

/// Lists the parts of a motion-compensated block.
pub fn recon_b_inter_split(fi: &SbFrameInfo, k: &ReconBlock) -> (r: Vec<ReconBlock>)
    requires
        k.valid(),
        k.bx <= 0x10_0000,
        k.by <= 0x10_0000,
        k.cbx <= 0x10_0000,
        k.cby <= 0x10_0000,
        0 <= fi.ss_hor <= 1,
        0 <= fi.ss_ver <= 1,
    ensures
        r@.len() == all_parts(*fi, *k).len(),
        forall|i: int|
            0 <= i < r@.len() ==> #[trigger] r@[i] == inter_part(all_parts(*fi, *k)[i]),
        forall|i: int|
            0 <= i < r@.len() ==> {
                let p = #[trigger] r@[i];
                &&& p.lbs == BlockSize::Invalid <==> k.lbs == BlockSize::Invalid
                &&& 0 <= p.cbx <= 0x20_0000
                &&& 0 <= p.cby <= 0x20_0000
            },
{
    let parts: Vec<SubBlock> = split_block(fi, k);
    let n: usize = parts.len();
    let mut r: Vec<ReconBlock> = Vec::new();
    let mut i: usize = 0;
    while i < n
        invariant
            n == parts@.len(),
            i <= n,
            r@.len() == i,
            forall|q: int| 0 <= q < i ==> #[trigger] r@[q] == inter_part(parts@[q]),
            forall|q: int| 0 <= q < n ==> near_part(*k, #[trigger] parts@[q]),
        decreases n - i,
    {
        let s: SubBlock = parts[i];
        let mut b: ReconBlock = s.block;
        if !(s.phase == ChromaPhase::Both || s.phase == ChromaPhase::ReadOnly) {
            b.cbs = BlockSize::Invalid;
        }
        r.push(b);
        i = i + 1;
    }
    r
}

/// A block without motion compensation is built luma first; a copy fetches each
/// plane by the vector of the block before what was coded for it is added.
pub proof fn law_copies_come_before_their_residual(k: ReconBlock, mv: MvXY)
    requires
        k.lbs != BlockSize::Invalid,
        k.cbs != BlockSize::Invalid,
    ensures
        ({
            let p = leaf_steps(k, None);
            let c = leaf_steps(k, Some(mv));
            &&& p.len() == 2
            &&& p[0] == IntraStep::Luma(k.bx, k.by, k.lbs)
            &&& p[1] == IntraStep::Chroma(ChromaPhase::Both, k.cbx, k.cby, k.cbs, false)
            &&& c.len() == 5
            &&& c[0] == IntraStep::Copy(
                CopyPart { plane: 0, bx: k.bx, by: k.by, bs: k.lbs, mv },
            )
            &&& c[1] == p[0]
            &&& c[2] == IntraStep::Copy(
                CopyPart { plane: 1, bx: k.cbx, by: k.cby, bs: k.cbs, mv },
            )
            &&& c[3] == IntraStep::Copy(
                CopyPart { plane: 2, bx: k.cbx, by: k.cby, bs: k.cbs, mv },
            )
            &&& c[4] == p[1]
        }),
{
}

/// A block that has only one of luma and chroma builds just that; chroma
/// without luma stands apart.
pub proof fn law_single_planes_stand_alone(k: ReconBlock)
    ensures
        k.lbs != BlockSize::Invalid && k.cbs == BlockSize::Invalid ==> leaf_steps(k, None)
            =~= seq![IntraStep::Luma(k.bx, k.by, k.lbs)],
        k.lbs == BlockSize::Invalid && k.cbs != BlockSize::Invalid ==> leaf_steps(k, None)
            =~= seq![IntraStep::Chroma(ChromaPhase::Both, k.cbx, k.cby, k.cbs, true)],
{
}

/// A part of a large block does its luma, and its chroma in the phase that it
/// has.
pub proof fn law_parts_do_their_phase(s: SubBlock)
    requires
        s.block.lbs != BlockSize::Invalid,
    ensures
        ({
            let k = s.block;
            let p = part_steps(s);
            &&& p[0] == IntraStep::Luma(k.bx, k.by, k.lbs)
            &&& s.phase == ChromaPhase::Nothing ==> p.len() == 1
            &&& s.phase != ChromaPhase::Nothing ==> p.len() == 2 && p[1] == IntraStep::Chroma(
                s.phase,
                k.cbx,
                k.cby,
                k.cbs,
                false,
            )
            &&& inter_part(s).cbs == (if s.phase == ChromaPhase::Both || s.phase
                == ChromaPhase::ReadOnly {
                k.cbs
            } else {
                BlockSize::Invalid
            })
            &&& inter_part(s).bx == k.bx && inter_part(s).by == k.by && inter_part(s).lbs == k.lbs
        }),
{
}

} // verus!
