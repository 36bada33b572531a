//! Three-band equalizer bands (low shelf, peak, high shelf).

use vstd::prelude::*;

verus! {

/// One band of the per-deck three-band EQ.
#[derive(Debug, Clone, Copy, PartialEq, Eq, Structural)]
pub enum EqBand {
    Low,
    Mid,
    High,
}

impl EqBand {
    /// Position of the band in per-band arrays.
    pub open spec fn spec_index(self) -> int {
        match self {
            EqBand::Low => 0,
            EqBand::Mid => 1,
            EqBand::High => 2,
        }
    }

    /// Position of the band in per-band arrays: `Low` → 0, `Mid` → 1,
    /// `High` → 2.
    pub fn index(self) -> (r: usize)
        ensures
            r == self.spec_index(),
            r < 3,
    {
        match self {
            EqBand::Low => 0,
            EqBand::Mid => 1,
            EqBand::High => 2,
        }
    }
}

/// Distinct bands occupy distinct slots of a per-band array.
pub proof fn lemma_band_index_injective(a: EqBand, b: EqBand)
    ensures
        a.spec_index() == b.spec_index() <==> a == b,
{
}

} // verus!
