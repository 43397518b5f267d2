//! The restoration units of a frame.
use vstd::prelude::*;

use crate::headers::RestorationType;

verus! {

/// How one restoration unit is filtered.
#[derive(Debug, Clone, Copy)]
pub struct Av2RestorationUnit {
    pub restoration_type: RestorationType,
    pub ns_filter: [[i8; 20]; 16],
}

impl Av2RestorationUnit {
    /// A unit that is left as it is.
    pub open spec fn idle(self) -> bool {
        &&& self.restoration_type == RestorationType::Off
        &&& forall|n: int, m: int|
            0 <= n < 16 && 0 <= m < 20 ==> #[trigger] self.ns_filter[n][m] == 0
    }
}

impl Default for Av2RestorationUnit {
    fn default() -> (r: Self)
        ensures
            r.idle(),
    {
        let row: [i8; 20] = [0; 20];
        Av2RestorationUnit { restoration_type: RestorationType::Off, ns_filter: [row; 16] }
    }
}

/// The restoration units of a 256x256 area: by plane, and by 64x64 area.
#[derive(Debug, Clone, Copy)]
pub struct Av2Restoration {
    pub lr: [[Av2RestorationUnit; 16]; 3],
}

impl Av2Restoration {
    pub open spec fn idle(self) -> bool {
        forall|p: int, i: int| 0 <= p < 3 && 0 <= i < 16 ==> (#[trigger] self.lr[p][i]).idle()
    }
}

impl Default for Av2Restoration {
    fn default() -> (r: Self)
        ensures
            r.idle(),
    {
        let unit: Av2RestorationUnit = Av2RestorationUnit::default();
        let row: [Av2RestorationUnit; 16] = [unit; 16];
        Av2Restoration { lr: [row; 3] }
    }
}

} // verus!
