use vstd::prelude::*;

use crate::bounded_math::AggregatorError;
use crate::bounded_math::SignedU128;

verus! {

/// A compact record of the extremal deltas that succeeded and the nearest
/// deltas that are known to fail, kept while an aggregator runs
/// speculatively. It lets a whole sequence of `try_add`/`try_sub` outcomes be
/// re-checked in constant time against a base value revealed only later.
#[derive(Clone, Copy, Debug, PartialEq, Eq)]
pub struct DeltaHistory {
    /// The largest net positive delta that was ever reached by a successful
    /// operation.
    pub max_achieved_positive_delta: u128,
    /// The largest net negative magnitude that was ever reached by a
    /// successful operation.
    pub min_achieved_negative_delta: u128,
    /// The smallest positive delta that is known to overflow, if any failure
    /// in that direction was recorded.
    pub min_overflow_positive_delta: Option<u128>,
    /// The smallest negative-direction magnitude that is known to underflow,
    /// if any failure in that direction was recorded.
    pub max_underflow_negative_delta: Option<u128>,
}

/// The record of a history that has seen no success and no failure yet.
pub open spec fn spec_empty_history() -> DeltaHistory {
    DeltaHistory {
        max_achieved_positive_delta: 0,
        min_achieved_negative_delta: 0,
        min_overflow_positive_delta: None,
        max_underflow_negative_delta: None,
    }
}

/// How a history changes when the net delta `achieved` has just been reached
/// by a successful operation: the extreme in its direction widens to cover
/// it, and nothing else moves.
pub open spec fn spec_record_success(h: DeltaHistory, achieved: SignedU128) -> DeltaHistory {
    match achieved {
        SignedU128::Positive(v) => if v > h.max_achieved_positive_delta {
            DeltaHistory { max_achieved_positive_delta: v, ..h }
        } else {
            h
        },
        SignedU128::Negative(v) => if v > h.min_achieved_negative_delta {
            DeltaHistory { min_achieved_negative_delta: v, ..h }
        } else {
            h
        },
    }
}

/// How a history changes when the positive delta `delta` has just been seen
/// to overflow: the known-failing threshold tightens to the minimum.
pub open spec fn spec_record_overflow(h: DeltaHistory, delta: u128) -> DeltaHistory {
    match h.min_overflow_positive_delta {
        Some(o) => if delta < o {
            DeltaHistory { min_overflow_positive_delta: Some(delta), ..h }
        } else {
            h
        },
        None => DeltaHistory { min_overflow_positive_delta: Some(delta), ..h },
    }
}

/// How a history changes when the negative-direction magnitude `delta` has
/// just been seen to underflow: the known-failing threshold tightens to the
/// minimum.
pub open spec fn spec_record_underflow(h: DeltaHistory, delta: u128) -> DeltaHistory {
    match h.max_underflow_negative_delta {
        Some(u) => if delta < u {
            DeltaHistory { max_underflow_negative_delta: Some(delta), ..h }
        } else {
            h
        },
        None => DeltaHistory { max_underflow_negative_delta: Some(delta), ..h },
    }
}

impl DeltaHistory {
    /// A history is consistent with `base_value` under the bound `max_value`
    /// exactly when every recorded success would still succeed and every
    /// recorded failure would still fail if the deltas were replayed on
    /// `base_value`.
    pub open spec fn spec_validates_against(self, base_value: u128, max_value: u128) -> bool {
        &&& base_value + self.max_achieved_positive_delta <= max_value
        &&& self.min_achieved_negative_delta <= base_value
        &&& (self.min_overflow_positive_delta matches Some(o) ==> base_value + o > max_value)
        &&& (self.max_underflow_negative_delta matches Some(u) ==> base_value < u)
    }

    pub open spec fn spec_is_empty(self) -> bool {
        self == spec_empty_history()
    }

    pub fn new() -> (r: Self)
        ensures
            r == spec_empty_history(),
    {
        DeltaHistory {
            max_achieved_positive_delta: 0,
            min_achieved_negative_delta: 0,
            min_overflow_positive_delta: None,
            max_underflow_negative_delta: None,
        }
    }

    /// True when no success and no failure has ever been recorded.
    pub fn is_empty(&self) -> (r: bool)
        ensures
            r == self.spec_is_empty(),
    {
        let r = self.max_achieved_positive_delta == 0 && self.min_achieved_negative_delta == 0
            && self.min_overflow_positive_delta.is_none()
            && self.max_underflow_negative_delta.is_none();
        proof {
            if r {
                assert(*self =~= spec_empty_history());
            }
        }
        r
    }

    /// Widens the achieved extreme in the direction of `achieved` to cover
    /// it; never narrows, and never touches the failure thresholds.
    pub fn record_success(&mut self, achieved: SignedU128)
        ensures
            *final(self) == spec_record_success(*old(self), achieved),
    {
        match achieved {
            SignedU128::Positive(value) => {
                if value > self.max_achieved_positive_delta {
                    self.max_achieved_positive_delta = value;
                }
            },
            SignedU128::Negative(value) => {
                if value > self.min_achieved_negative_delta {
                    self.min_achieved_negative_delta = value;
                }
            },
        }
    }

    /// Tightens the smallest known-overflowing positive delta to cover
    /// `delta`; never loosens.
    pub fn record_overflow(&mut self, delta: u128)
        ensures
            *final(self) == spec_record_overflow(*old(self), delta),
    {
        match self.min_overflow_positive_delta {
            Some(o) => {
                if delta < o {
                    self.min_overflow_positive_delta = Some(delta);
                }
            },
            None => {
                self.min_overflow_positive_delta = Some(delta);
            },
        }
    }

    /// Tightens the smallest known-underflowing magnitude to cover `delta`;
    /// never loosens.
    pub fn record_underflow(&mut self, delta: u128)
        ensures
            *final(self) == spec_record_underflow(*old(self), delta),
    {
        match self.max_underflow_negative_delta {
            Some(u) => {
                if delta < u {
                    self.max_underflow_negative_delta = Some(delta);
                }
            },
            None => {
                self.max_underflow_negative_delta = Some(delta);
            },
        }
    }

    /// Succeeds exactly when this history is consistent with `base_value`
    /// under the bound `max_value`; an inconsistency means the speculative
    /// execution read a stale base and the attempt must be re-run.
    pub fn validate_against_base_value(&self, base_value: u128, max_value: u128) -> (r: Result<
        (),
        AggregatorError,
    >)
        ensures
            r is Ok <==> self.spec_validates_against(base_value, max_value),
            r is Err ==> r == Err::<(), AggregatorError>(AggregatorError::CodeInvariantViolation),
    {
        if self.max_achieved_positive_delta > max_value
            || base_value > max_value - self.max_achieved_positive_delta {
            return Err(AggregatorError::CodeInvariantViolation);
        }
        if base_value < self.min_achieved_negative_delta {
            return Err(AggregatorError::CodeInvariantViolation);
        }
        match self.min_overflow_positive_delta {
            Some(o) => {
                if o <= max_value && base_value <= max_value - o {
                    return Err(AggregatorError::CodeInvariantViolation);
                }
            },
            None => {},
        }
        match self.max_underflow_negative_delta {
            Some(u) => {
                if base_value >= u {
                    return Err(AggregatorError::CodeInvariantViolation);
                }
            },
            None => {},
        }
        Ok(())
    }
}

/// The achieved extremes of a history summarize exactly the net deltas
/// reached so far: `max_achieved_positive_delta` is the largest net-positive
/// value in `reached` (zero when none is positive), and
/// `min_achieved_negative_delta` the largest net-negative magnitude. The
/// summary does not depend on the order of `reached`.
pub open spec fn spec_tracks_achieved(h: DeltaHistory, reached: Seq<int>) -> bool {
    &&& h.max_achieved_positive_delta >= 0
    &&& h.min_achieved_negative_delta >= 0
    &&& (forall|i: int|
        0 <= i < reached.len() ==> -(h.min_achieved_negative_delta as int) <= #[trigger] reached[i]
            <= h.max_achieved_positive_delta as int)
    &&& (h.max_achieved_positive_delta > 0 ==> exists|i: int|
        0 <= i < reached.len() && #[trigger] reached[i] == h.max_achieved_positive_delta as int)
    &&& (h.min_achieved_negative_delta > 0 ==> exists|i: int|
        0 <= i < reached.len() && #[trigger] reached[i] == -(
        h.min_achieved_negative_delta as int))
}

/// Success bounds are monotonic and exact: an empty history tracks an empty
/// trace of reached net deltas, and recording one more reached net delta
/// keeps the achieved extremes equal to the extremes of the extended trace,
/// whatever the order in which the deltas were reached.
pub proof fn lemma_success_bounds_track_achieved(h: DeltaHistory, reached: Seq<int>, d: SignedU128)
    requires
        spec_tracks_achieved(h, reached),
    ensures
        spec_tracks_achieved(spec_record_success(h, d), reached.push(d.as_int())),
        spec_tracks_achieved(spec_empty_history(), Seq::<int>::empty()),
        spec_record_success(h, d).max_achieved_positive_delta >= h.max_achieved_positive_delta,
        spec_record_success(h, d).min_achieved_negative_delta >= h.min_achieved_negative_delta,
{
    let h2 = spec_record_success(h, d);
    let r2 = reached.push(d.as_int());
    assert(r2[r2.len() - 1] == d.as_int());
    assert(forall|i: int| 0 <= i < reached.len() ==> r2[i] == reached[i]);
    if h2.max_achieved_positive_delta > 0 {
        if d matches SignedU128::Positive(v) && v > h.max_achieved_positive_delta {
            assert(r2[r2.len() - 1] == h2.max_achieved_positive_delta as int);
        } else {
            let i = choose|i: int|
                0 <= i < reached.len() && #[trigger] reached[i]
                    == h.max_achieved_positive_delta as int;
            assert(r2[i] == h2.max_achieved_positive_delta as int);
        }
    }
    if h2.min_achieved_negative_delta > 0 {
        if d matches SignedU128::Negative(v) && v > h.min_achieved_negative_delta {
            assert(r2[r2.len() - 1] == -(h2.min_achieved_negative_delta as int));
        } else {
            let i = choose|i: int|
                0 <= i < reached.len() && #[trigger] reached[i] == -(
                h.min_achieved_negative_delta as int);
            assert(r2[i] == -(h2.min_achieved_negative_delta as int));
        }
    }
}

/// Failure thresholds only tighten: once `min_overflow_positive_delta` or
/// `max_underflow_negative_delta` is set it never increases and never goes
/// back to unset, whichever failures are recorded afterwards, and a recorded
/// success never touches it.
pub proof fn lemma_failure_thresholds_tighten(h: DeltaHistory, d: u128, s: SignedU128)
    ensures
        h.min_overflow_positive_delta matches Some(o) ==> (spec_record_overflow(
            h,
            d,
        ).min_overflow_positive_delta matches Some(o2) && o2 <= o),
        h.max_underflow_negative_delta matches Some(u) ==> (spec_record_underflow(
            h,
            d,
        ).max_underflow_negative_delta matches Some(u2) && u2 <= u),
        spec_record_underflow(h, d).min_overflow_positive_delta
            == h.min_overflow_positive_delta,
        spec_record_overflow(h, d).max_underflow_negative_delta
            == h.max_underflow_negative_delta,
        spec_record_success(h, s).min_overflow_positive_delta == h.min_overflow_positive_delta,
        spec_record_success(h, s).max_underflow_negative_delta
            == h.max_underflow_negative_delta,
{
}

} // verus!
