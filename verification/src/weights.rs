//! The weight of a runtime operation: computation time and proof size.
use vstd::prelude::*;

verus! {

/// The weight of an operation, in reference computation time and proof size.
#[derive(Clone, Copy, Debug, PartialEq, Eq, Structural)]
pub struct Weight {
    pub ref_time: u64,
    pub proof_size: u64,
}

impl Weight {
    /// A weight from its two components.
    pub fn from_parts(ref_time: u64, proof_size: u64) -> (w: Weight)
        ensures
            w.ref_time == ref_time,
            w.proof_size == proof_size,
    {
        Weight { ref_time, proof_size }
    }

    /// The weight of nothing.
    pub fn zero() -> (w: Weight)
        ensures
            w.ref_time == 0,
            w.proof_size == 0,
    {
        Weight { ref_time: 0, proof_size: 0 }
    }

    /// Whether this weight orders before `other`: by reference time, then by proof size.
    pub open spec fn spec_lt(self, other: Weight) -> bool {
        self.ref_time < other.ref_time || (self.ref_time == other.ref_time && self.proof_size < other.proof_size)
    }

    /// Whether this weight orders before `other`: by reference time, then by proof size.
    pub fn lt(&self, other: &Weight) -> (r: bool)
        ensures
            r == self.spec_lt(*other),
    {
        self.ref_time < other.ref_time || (self.ref_time == other.ref_time && self.proof_size < other.proof_size)
    }

    /// Component-wise saturating sum.
    pub fn saturating_add(self, other: Weight) -> (w: Weight)
        ensures
            w.ref_time == if self.ref_time + other.ref_time > u64::MAX { u64::MAX as int } else { self.ref_time + other.ref_time },
            w.proof_size == if self.proof_size + other.proof_size > u64::MAX { u64::MAX as int } else { self.proof_size + other.proof_size },
    {
        Weight {
            ref_time: self.ref_time.saturating_add(other.ref_time),
            proof_size: self.proof_size.saturating_add(other.proof_size),
        }
    }
}

} // verus!
