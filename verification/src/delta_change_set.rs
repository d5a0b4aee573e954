use vstd::prelude::*;

use crate::bounded_math::SignedU128;
use crate::delta_math::DeltaHistory;

verus! {

/// A delta to be merged with the storage value at commit time, carried
/// together with the bound it was computed under and the history that lets
/// the commit layer re-validate it against the value it finally merges with.
#[derive(Clone, Copy, Debug, PartialEq, Eq)]
pub struct DeltaOp {
    pub delta: SignedU128,
    pub max_value: u128,
    pub history: DeltaHistory,
}

impl DeltaOp {
    pub fn new(delta: SignedU128, max_value: u128, history: DeltaHistory) -> (r: Self)
        ensures
            r == (DeltaOp { delta, max_value, history }),
    {
        DeltaOp { delta, max_value, history }
    }
}

} // verus!
