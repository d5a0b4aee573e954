use vstd::prelude::*;

use crate::bounded_math::code_invariant_error;
use crate::bounded_math::expect_ok;
use crate::bounded_math::ok_overflow;
use crate::bounded_math::spec_add_delta;
use crate::bounded_math::spec_signed_add;
use crate::bounded_math::AggregatorError;
use crate::bounded_math::BoundedMath;
use crate::bounded_math::BoundedMathError;
use crate::bounded_math::SignedU128;
use crate::delta_math::spec_empty_history;
use crate::delta_math::spec_record_overflow;
use crate::delta_math::spec_record_success;
use crate::delta_math::spec_record_underflow;
use crate::delta_math::spec_tracks_achieved;
use crate::delta_math::DeltaHistory;
use crate::resolver::AggregatorReadMode;
use crate::resolver::AggregatorResolver;

verus! {

/// Uniquely identifies an aggregator or an aggregator snapshot. A `Legacy`
/// id names a pre-existing storage cell by its storage key; an `Ephemeral`
/// id names a value created within the current execution context and is
/// unique only within the current block.
#[derive(Clone, Copy, Debug, Hash, PartialEq, Eq, Structural)]
pub enum AggregatorID {
    Legacy(u64),
    Ephemeral(u64),
}

impl AggregatorID {
    pub fn legacy(key: u64) -> (r: Self)
        ensures
            r == AggregatorID::Legacy(key),
    {
        AggregatorID::Legacy(key)
    }

    pub fn ephemeral(id: u64) -> (r: Self)
        ensures
            r == AggregatorID::Ephemeral(id),
    {
        AggregatorID::Ephemeral(id)
    }

    /// The storage key behind a legacy id; an ephemeral id has none.
    pub fn as_state_key(&self) -> (r: Option<u64>)
        ensures
            r == match *self {
                AggregatorID::Legacy(key) => Some(key),
                AggregatorID::Ephemeral(_) => None::<u64>,
            },
    {
        match self {
            AggregatorID::Legacy(key) => Some(*key),
            AggregatorID::Ephemeral(_) => None,
        }
    }

    /// As `as_state_key`, consuming the id.
    pub fn into_state_key(self) -> (r: Option<u64>)
        ensures
            r == match self {
                AggregatorID::Legacy(key) => Some(key),
                AggregatorID::Ephemeral(_) => None::<u64>,
            },
    {
        match self {
            AggregatorID::Legacy(key) => Some(key),
            AggregatorID::Ephemeral(_) => None,
        }
    }
}

/// How the speculative start value of a `Delta`-state aggregator was
/// obtained. The progression is monotonic: once set, a value is never reset
/// to `Unset`, and only the transitions `Unset -> LastCommittedValue` and
/// `Unset/LastCommittedValue -> AggregatedValue` ever happen.
#[derive(Clone, Copy, Debug, PartialEq, Eq, Structural)]
pub enum SpeculativeStartValue {
    /// No read has happened yet.
    Unset,
    /// Obtained by the cheap read: the last committed value, excluding
    /// in-flight deltas of other transactions. It may only feed arithmetic
    /// that is itself re-validated through the delta history, never a value
    /// returned to the caller directly.
    LastCommittedValue(u128),
    /// Obtained by the expensive read that folds concurrently applied deltas
    /// in; safe to surface through `read_most_recent_aggregator_value`.
    AggregatedValue(u128),
}

impl SpeculativeStartValue {
    /// The stored value whatever read produced it; an error while still
    /// unset. Any use of this value must stay under the protection of the
    /// delta history.
    pub fn get_any_value(&self) -> (r: Result<u128, AggregatorError>)
        ensures
            r == match *self {
                SpeculativeStartValue::Unset => Err::<u128, AggregatorError>(
                    AggregatorError::CodeInvariantViolation,
                ),
                SpeculativeStartValue::LastCommittedValue(v) => Ok::<u128, AggregatorError>(v),
                SpeculativeStartValue::AggregatedValue(v) => Ok::<u128, AggregatorError>(v),
            },
    {
        match self {
            SpeculativeStartValue::Unset => Err(code_invariant_error()),
            SpeculativeStartValue::LastCommittedValue(value) => Ok(*value),
            SpeculativeStartValue::AggregatedValue(value) => Ok(*value),
        }
    }

    /// The stored value when it is precise enough to be read back by the
    /// caller: only an aggregated read qualifies.
    pub fn get_value_for_read(&self) -> (r: Result<u128, AggregatorError>)
        ensures
            r == match *self {
                SpeculativeStartValue::Unset => Err::<u128, AggregatorError>(
                    AggregatorError::CodeInvariantViolation,
                ),
                SpeculativeStartValue::LastCommittedValue(_) => Err::<u128, AggregatorError>(
                    AggregatorError::CodeInvariantViolation,
                ),
                SpeculativeStartValue::AggregatedValue(v) => Ok::<u128, AggregatorError>(v),
            },
    {
        match self {
            SpeculativeStartValue::Unset => Err(code_invariant_error()),
            SpeculativeStartValue::LastCommittedValue(_) => Err(code_invariant_error()),
            SpeculativeStartValue::AggregatedValue(value) => Ok(*value),
        }
    }
}

/// The value a snapshot holds: a plain integer, or a byte string.
#[derive(Debug, Clone, PartialEq, Eq)]
pub enum SnapshotValue {
    Integer(u128),
    String(Vec<u8>),
}

/// The mathematical value of a `SnapshotValue`.
pub enum SnapshotValueV {
    Integer(u128),
    Bytes(Seq<u8>),
}

impl View for SnapshotValue {
    type V = SnapshotValueV;

    open spec fn view(&self) -> SnapshotValueV {
        match *self {
            SnapshotValue::Integer(v) => SnapshotValueV::Integer(v),
            SnapshotValue::String(b) => SnapshotValueV::Bytes(b@),
        }
    }
}

impl SnapshotValue {
    /// The integer behind this value; a byte string is an invariant
    /// violation here, never an expected outcome.
    pub fn into_aggregator_value(self) -> (r: Result<u128, AggregatorError>)
        ensures
            r == match self@ {
                SnapshotValueV::Integer(v) => Ok::<u128, AggregatorError>(v),
                SnapshotValueV::Bytes(_) => Err::<u128, AggregatorError>(
                    AggregatorError::CodeInvariantViolation,
                ),
            },
    {
        match self {
            SnapshotValue::Integer(value) => Ok(value),
            SnapshotValue::String(_) => Err(code_invariant_error()),
        }
    }

    /// An equal value in fresh storage.
    pub fn duplicate(&self) -> (r: SnapshotValue)
        ensures
            r@ == self@,
    {
        match self {
            SnapshotValue::Integer(value) => SnapshotValue::Integer(*value),
            SnapshotValue::String(bytes) => {
                let mut copy: Vec<u8> = Vec::new();
                copy.extend_from_slice(bytes.as_slice());
                proof {
                    assert(copy@ =~= bytes@);
                }
                SnapshotValue::String(copy)
            },
        }
    }
}

/// The decimal digits of `v`, most significant first, as ASCII bytes.
pub open spec fn spec_decimal_digits(v: nat) -> Seq<u8>
    decreases v,
{
    if v < 10 {
        seq![(48 + v) as u8]
    } else {
        spec_decimal_digits(v / 10).push((48 + v % 10) as u8)
    }
}

/// The bytes a snapshot value contributes to a string derivation: an integer
/// is written in decimal, a byte string is taken as it is.
pub open spec fn spec_value_bytes(v: SnapshotValueV) -> Seq<u8> {
    match v {
        SnapshotValueV::Integer(x) => spec_decimal_digits(x as nat),
        SnapshotValueV::Bytes(b) => b,
    }
}

/// Writes `v` in decimal ASCII, most significant digit first.
fn u128_to_decimal_bytes(v: u128) -> (r: Vec<u8>)
    ensures
        r@ == spec_decimal_digits(v as nat),
{
    let mut digits: Vec<u8> = Vec::new();
    if v == 0 {
        digits.push(48);
        assert(digits@ =~= spec_decimal_digits(0));
        return digits;
    }
    let mut n: u128 = v;
    proof {
        assert(spec_decimal_digits(v as nat) =~= spec_decimal_digits(n as nat) + digits@);
    }
    while n > 0
        invariant
            n > 0 ==> spec_decimal_digits(v as nat) == spec_decimal_digits(n as nat) + digits@,
            n == 0 ==> spec_decimal_digits(v as nat) == digits@,
        decreases n,
    {
        let ghost n0: nat = n as nat;
        let ghost digits0: Seq<u8> = digits@;
        let d: u8 = 48 + (n % 10) as u8;
        digits.insert(0, d);
        n = n / 10;
        proof {
            assert(n as nat == n0 / 10);
            assert(n0 / 10 < n0) by (nonlinear_arith)
                requires
                    n0 > 0,
            ;
            if n0 >= 10 {
                assert(spec_decimal_digits(n0) == spec_decimal_digits(n0 / 10).push(
                    (48 + n0 % 10) as u8,
                ));
                assert(spec_decimal_digits(n0) + digits0 =~= spec_decimal_digits(n0 / 10)
                    + digits@);
            } else {
                assert(n0 % 10 == n0 && n0 / 10 == 0) by (nonlinear_arith)
                    requires
                        0 < n0 < 10,
                ;
                assert(spec_decimal_digits(n0) =~= seq![(48 + n0 % 10) as u8]);
                assert(spec_decimal_digits(n0) + digits0 =~= digits@);
            }
        }
    }
    digits
}

/// A deferred derivation applied to a base snapshot value when the snapshot
/// chain is finally read.
#[derive(Clone, Debug, Eq, PartialEq)]
pub enum DerivedFormula {
    Concat { prefix: Vec<u8>, suffix: Vec<u8> },
}

/// The mathematical content of a `DerivedFormula`.
pub enum DerivedFormulaV {
    Concat { prefix: Seq<u8>, suffix: Seq<u8> },
}

impl View for DerivedFormula {
    type V = DerivedFormulaV;

    open spec fn view(&self) -> DerivedFormulaV {
        match self {
            DerivedFormula::Concat { prefix, suffix } => DerivedFormulaV::Concat {
                prefix: prefix@,
                suffix: suffix@,
            },
        }
    }
}

/// The byte string a formula derives from a base value.
pub open spec fn spec_apply_formula(f: DerivedFormulaV, base: SnapshotValueV) -> SnapshotValueV {
    match f {
        DerivedFormulaV::Concat { prefix, suffix } => SnapshotValueV::Bytes(
            prefix + spec_value_bytes(base) + suffix,
        ),
    }
}

impl DerivedFormula {
    /// Derives the value this formula stands for: the base, written in
    /// decimal if it is an integer, sandwiched between prefix and suffix.
    /// The result is always a byte string.
    pub fn apply(&self, base: &SnapshotValue) -> (r: SnapshotValue)
        ensures
            r@ == spec_apply_formula(self@, base@),
    {
        match self {
            DerivedFormula::Concat { prefix, suffix } => {
                let mut result: Vec<u8> = Vec::new();
                result.extend_from_slice(prefix.as_slice());
                match base {
                    SnapshotValue::Integer(value) => {
                        let rendered = u128_to_decimal_bytes(*value);
                        result.extend_from_slice(rendered.as_slice());
                    },
                    SnapshotValue::String(value) => {
                        result.extend_from_slice(value.as_slice());
                    },
                }
                result.extend_from_slice(suffix.as_slice());
                proof {
                    assert(result@ =~= match self@ {
                        DerivedFormulaV::Concat { prefix, suffix } => prefix + spec_value_bytes(
                            base@,
                        ) + suffix,
                    });
                }
                SnapshotValue::String(result)
            },
        }
    }

    /// An equal formula in fresh storage.
    pub fn duplicate(&self) -> (r: DerivedFormula)
        ensures
            r@ == self@,
    {
        match self {
            DerivedFormula::Concat { prefix, suffix } => {
                let mut p: Vec<u8> = Vec::new();
                p.extend_from_slice(prefix.as_slice());
                let mut s: Vec<u8> = Vec::new();
                s.extend_from_slice(suffix.as_slice());
                proof {
                    assert(p@ =~= prefix@);
                    assert(s@ =~= suffix@);
                }
                DerivedFormula::Concat { prefix: p, suffix: s }
            },
        }
    }
}

/// Returns the extension-level error used when the resolver fails or a value
/// is gone from storage.
pub fn extension_error() -> (r: AggregatorError)
    ensures
        r == AggregatorError::ExtensionFailure,
{
    AggregatorError::ExtensionFailure
}

/// The state of one aggregator instance: either its value is authoritatively
/// known (`Data`), or only a speculative delta against a start value still
/// to be resolved is tracked (`Delta`).
#[derive(Clone, Copy, Debug, PartialEq, Eq)]
pub enum AggregatorState {
    Data { value: u128 },
    Delta {
        speculative_start_value: SpeculativeStartValue,
        delta: SignedU128,
        history: DeltaHistory,
    },
}

/// One aggregator: its identity, the upper bound of its range (the lower
/// bound is fixed at zero), and its state.
#[derive(Clone, Copy, Debug, PartialEq, Eq)]
pub struct Aggregator {
    pub id: AggregatorID,
    pub max_value: u128,
    pub state: AggregatorState,
}

/// The state every lazily created aggregator starts in: fully speculative,
/// with nothing read, no delta and an empty history.
pub open spec fn spec_fresh_aggregator(id: AggregatorID, max_value: u128) -> Aggregator {
    Aggregator {
        id,
        max_value,
        state: AggregatorState::Delta {
            speculative_start_value: SpeculativeStartValue::Unset,
            delta: SignedU128::Positive(0),
            history: spec_empty_history(),
        },
    }
}

/// The integer a storage read of `id` under `mode` yields: legacy ids go
/// through the raw read, ephemeral ids through the typed read, whose value
/// must be an integer to count.
pub open spec fn spec_storage_read<R: AggregatorResolver>(
    resolver: &R,
    id: AggregatorID,
    mode: AggregatorReadMode,
) -> Option<u128> {
    match id {
        AggregatorID::Legacy(key) => resolver.spec_v1_value(key, mode),
        AggregatorID::Ephemeral(_) => match resolver.spec_v2_value(id, mode) {
            Some(SnapshotValueV::Integer(v)) => Some(v),
            _ => None,
        },
    }
}

/// Whether the cheap read would have to consult storage: only a `Delta`
/// aggregator whose start value is still unset needs it.
pub open spec fn spec_needs_committed_read(agg: Aggregator) -> bool {
    agg.state matches AggregatorState::Delta {
        speculative_start_value: SpeculativeStartValue::Unset,
        ..
    }
}

/// Whether the expensive read would have to consult storage: a `Delta`
/// aggregator that has no aggregated start value cached yet.
pub open spec fn spec_needs_aggregated_read(agg: Aggregator) -> bool {
    match agg.state {
        AggregatorState::Data { .. } => false,
        AggregatorState::Delta { speculative_start_value, .. } => !(speculative_start_value
            matches SpeculativeStartValue::AggregatedValue(_)),
    }
}

/// What the cheap read does, given the committed value storage would answer
/// (`None` when storage has no integer for the id): a no-op unless the start
/// value is unset; an invariant error when operations began before any read;
/// otherwise the committed value is stored, or its absence reported.
pub open spec fn spec_read_committed(agg: Aggregator, committed: Option<u128>) -> (
    Aggregator,
    Result<(), AggregatorError>,
) {
    match agg.state {
        AggregatorState::Data { .. } => (agg, Ok(())),
        AggregatorState::Delta { speculative_start_value, delta, history } => {
            match speculative_start_value {
                SpeculativeStartValue::Unset => {
                    if !(delta.spec_is_zero() && history.spec_is_empty()) {
                        (agg, Err(AggregatorError::CodeInvariantViolation))
                    } else {
                        match committed {
                            Some(v) => (
                                Aggregator {
                                    state: AggregatorState::Delta {
                                        speculative_start_value:
                                            SpeculativeStartValue::LastCommittedValue(v),
                                        delta,
                                        history,
                                    },
                                    ..agg
                                },
                                Ok(()),
                            ),
                            None => (agg, Err(AggregatorError::ExtensionFailure)),
                        }
                    }
                },
                _ => (agg, Ok(())),
            }
        },
    }
}

/// What `try_add` does once the start value is available. In `Data` state
/// the addition either commits or reports plain overflow. In `Delta` state
/// the current value is reconstructed from start and delta; on success the
/// delta moves and the history records the new net delta as achieved; on
/// overflow the delta-space threshold `input + delta` is recorded when it is
/// itself representable in `[0, max]`, and the state is otherwise untouched.
pub open spec fn spec_try_add_resolved(agg: Aggregator, input: u128) -> (
    Aggregator,
    Result<bool, AggregatorError>,
) {
    let max = agg.max_value;
    match agg.state {
        AggregatorState::Data { value } => {
            if value + input <= max {
                (
                    Aggregator { state: AggregatorState::Data { value: (value + input) as u128 }, ..agg },
                    Ok(true),
                )
            } else {
                (agg, Ok(false))
            }
        },
        AggregatorState::Delta { speculative_start_value, delta, history } => {
            match speculative_start_value {
                SpeculativeStartValue::Unset => (agg, Err(AggregatorError::CodeInvariantViolation)),
                SpeculativeStartValue::LastCommittedValue(s)
                | SpeculativeStartValue::AggregatedValue(s) => {
                    match spec_add_delta(max, s, delta) {
                        Err(_) => (agg, Err(AggregatorError::CodeInvariantViolation)),
                        Ok(cur) => {
                            if cur + input <= max {
                                match spec_signed_add(delta, SignedU128::Positive(input)) {
                                    Ok(new_delta) => (
                                        Aggregator {
                                            state: AggregatorState::Delta {
                                                speculative_start_value,
                                                delta: new_delta,
                                                history: spec_record_success(history, new_delta),
                                            },
                                            ..agg
                                        },
                                        Ok(true),
                                    ),
                                    Err(_) => (agg, Err(AggregatorError::CodeInvariantViolation)),
                                }
                            } else {
                                match spec_add_delta(max, input, delta) {
                                    Ok(od) => (
                                        Aggregator {
                                            state: AggregatorState::Delta {
                                                speculative_start_value,
                                                delta,
                                                history: spec_record_overflow(history, od),
                                            },
                                            ..agg
                                        },
                                        Ok(false),
                                    ),
                                    Err(BoundedMathError::Overflow) => (agg, Ok(false)),
                                    Err(BoundedMathError::Underflow) => (
                                        agg,
                                        Err(AggregatorError::CodeInvariantViolation),
                                    ),
                                }
                            }
                        },
                    }
                },
            }
        },
    }
}

/// What `try_sub` does once the start value is available, symmetric to
/// `spec_try_add_resolved` with underflow bookkeeping: on failure the
/// delta-space threshold `input - delta` is recorded when representable.
pub open spec fn spec_try_sub_resolved(agg: Aggregator, input: u128) -> (
    Aggregator,
    Result<bool, AggregatorError>,
) {
    let max = agg.max_value;
    match agg.state {
        AggregatorState::Data { value } => {
            if input <= value {
                (
                    Aggregator { state: AggregatorState::Data { value: (value - input) as u128 }, ..agg },
                    Ok(true),
                )
            } else {
                (agg, Ok(false))
            }
        },
        AggregatorState::Delta { speculative_start_value, delta, history } => {
            match speculative_start_value {
                SpeculativeStartValue::Unset => (agg, Err(AggregatorError::CodeInvariantViolation)),
                SpeculativeStartValue::LastCommittedValue(s)
                | SpeculativeStartValue::AggregatedValue(s) => {
                    match spec_add_delta(max, s, delta) {
                        Err(_) => (agg, Err(AggregatorError::CodeInvariantViolation)),
                        Ok(cur) => {
                            if cur < input {
                                match spec_add_delta(max, input, delta.spec_minus()) {
                                    Ok(ud) => (
                                        Aggregator {
                                            state: AggregatorState::Delta {
                                                speculative_start_value,
                                                delta,
                                                history: spec_record_underflow(history, ud),
                                            },
                                            ..agg
                                        },
                                        Ok(false),
                                    ),
                                    Err(BoundedMathError::Overflow) => (agg, Ok(false)),
                                    Err(BoundedMathError::Underflow) => (
                                        agg,
                                        Err(AggregatorError::CodeInvariantViolation),
                                    ),
                                }
                            } else {
                                match spec_signed_add(delta, SignedU128::Negative(input)) {
                                    Ok(new_delta) => (
                                        Aggregator {
                                            state: AggregatorState::Delta {
                                                speculative_start_value,
                                                delta: new_delta,
                                                history: spec_record_success(history, new_delta),
                                            },
                                            ..agg
                                        },
                                        Ok(true),
                                    ),
                                    Err(_) => (agg, Err(AggregatorError::CodeInvariantViolation)),
                                }
                            }
                        },
                    }
                },
            }
        },
    }
}

/// The whole of `try_add`: an input beyond the bound is a guaranteed
/// overflow needing no read; otherwise the cheap read runs first and any of
/// its failures is the overall outcome.
pub open spec fn spec_try_add(agg: Aggregator, committed: Option<u128>, input: u128) -> (
    Aggregator,
    Result<bool, AggregatorError>,
) {
    if input > agg.max_value {
        (agg, Ok(false))
    } else {
        let outcome = spec_read_committed(agg, committed);
        match outcome.1 {
            Err(e) => (outcome.0, Err(e)),
            Ok(_) => spec_try_add_resolved(outcome.0, input),
        }
    }
}

/// The whole of `try_sub`, symmetric to `spec_try_add`.
pub open spec fn spec_try_sub(agg: Aggregator, committed: Option<u128>, input: u128) -> (
    Aggregator,
    Result<bool, AggregatorError>,
) {
    if input > agg.max_value {
        (agg, Ok(false))
    } else {
        let outcome = spec_read_committed(agg, committed);
        match outcome.1 {
            Err(e) => (outcome.0, Err(e)),
            Ok(_) => spec_try_sub_resolved(outcome.0, input),
        }
    }
}

/// What the expensive read does, given the aggregated value storage would
/// answer. A known value is returned directly; a cached aggregated start is
/// reused without any read; otherwise the storage value is validated against
/// the history — an inconsistency is a stale-read conflict — and cached.
pub open spec fn spec_read_most_recent(agg: Aggregator, aggregated: Option<u128>) -> (
    Aggregator,
    Result<u128, AggregatorError>,
) {
    match agg.state {
        AggregatorState::Data { value } => (agg, Ok(value)),
        AggregatorState::Delta { speculative_start_value, delta, history } => {
            match speculative_start_value {
                SpeculativeStartValue::AggregatedValue(s) => {
                    match spec_add_delta(agg.max_value, s, delta) {
                        Ok(v) => (agg, Ok(v)),
                        Err(_) => (agg, Err(AggregatorError::CodeInvariantViolation)),
                    }
                },
                _ => {
                    match aggregated {
                        None => (agg, Err(AggregatorError::ExtensionFailure)),
                        Some(v) => {
                            if !history.spec_validates_against(v, agg.max_value) {
                                (agg, Err(AggregatorError::CodeInvariantViolation))
                            } else {
                                match spec_add_delta(agg.max_value, v, delta) {
                                    Err(_) => (agg, Err(AggregatorError::CodeInvariantViolation)),
                                    Ok(result) => (
                                        Aggregator {
                                            state: AggregatorState::Delta {
                                                speculative_start_value:
                                                    SpeculativeStartValue::AggregatedValue(v),
                                                delta,
                                                history,
                                            },
                                            ..agg
                                        },
                                        Ok(result),
                                    ),
                                }
                            }
                        },
                    }
                },
            }
        },
    }
}

impl Aggregator {
    /// The history of a speculative aggregator; a `Data` aggregator has
    /// none.
    pub fn get_history(&self) -> (r: Option<DeltaHistory>)
        ensures
            r == match self.state {
                AggregatorState::Data { .. } => None::<DeltaHistory>,
                AggregatorState::Delta { history, .. } => Some(history),
            },
    {
        match &self.state {
            AggregatorState::Data { .. } => None,
            AggregatorState::Delta { history, .. } => Some(*history),
        }
    }

    /// Performs the cheap read: a no-op once the start value is set; on the
    /// first call it stores the last committed value from storage, failing
    /// with an invariant error if delta or history show that operations
    /// already began, and with an extension error when the value cannot be
    /// read (a deleted aggregator, or a failing resolver).
    pub fn read_last_committed_aggregator_value<R: AggregatorResolver>(
        &mut self,
        resolver: &R,
    ) -> (r: Result<(), AggregatorError>)
        ensures
            ({
                let outcome = spec_read_committed(
                    *old(self),
                    spec_storage_read(resolver, old(self).id, AggregatorReadMode::LastCommitted),
                );
                &&& ((*final(self) == outcome.0 && r == outcome.1) || (r == Err::<
                    (),
                    AggregatorError,
                >(AggregatorError::ExtensionFailure) && *final(self) == *old(self)))
                &&& ((resolver.spec_reads_ok() || !spec_needs_committed_read(*old(self)))
                    ==> *final(self) == outcome.0 && r == outcome.1)
            }),
            final(self).id == old(self).id,
            final(self).max_value == old(self).max_value,
    {
        let state = self.state;
        if let AggregatorState::Delta { speculative_start_value, delta, history } = state {
            if let SpeculativeStartValue::Unset = speculative_start_value {
                if !delta.is_zero() || !history.is_empty() {
                    return Err(code_invariant_error());
                }
                let maybe_value_from_storage: Result<Option<u128>, AggregatorError> = match self.id {
                    AggregatorID::Legacy(key) => resolver.get_aggregator_v1_value(
                        key,
                        AggregatorReadMode::LastCommitted,
                    ),
                    id => match resolver.get_aggregator_v2_value(
                        &id,
                        AggregatorReadMode::LastCommitted,
                    ) {
                        Ok(v) => match v.into_aggregator_value() {
                            Ok(value) => Ok(Some(value)),
                            Err(_) => Err(extension_error()),
                        },
                        Err(_) => Err(extension_error()),
                    },
                };
                match maybe_value_from_storage {
                    Ok(Some(value_from_storage)) => {
                        self.state = AggregatorState::Delta {
                            speculative_start_value: SpeculativeStartValue::LastCommittedValue(
                                value_from_storage,
                            ),
                            delta,
                            history,
                        };
                    },
                    Ok(None) => {
                        return Err(extension_error());
                    },
                    Err(_) => {
                        return Err(extension_error());
                    },
                }
            }
        }
        Ok(())
    }

    /// Attempts to add `input`. `Ok(true)` commits the addition, `Ok(false)`
    /// reports that it would overflow — both expected outcomes that leave
    /// the attempt valid — while an error means this execution attempt is
    /// broken and must be re-run.
    pub fn try_add<R: AggregatorResolver>(&mut self, resolver: &R, input: u128) -> (r: Result<
        bool,
        AggregatorError,
    >)
        ensures
            ({
                let outcome = spec_try_add(
                    *old(self),
                    spec_storage_read(resolver, old(self).id, AggregatorReadMode::LastCommitted),
                    input,
                );
                &&& ((*final(self) == outcome.0 && r == outcome.1) || (r == Err::<
                    bool,
                    AggregatorError,
                >(AggregatorError::ExtensionFailure) && *final(self) == *old(self)))
                &&& ((resolver.spec_reads_ok() || !spec_needs_committed_read(*old(self)))
                    ==> *final(self) == outcome.0 && r == outcome.1)
            }),
            final(self).id == old(self).id,
            final(self).max_value == old(self).max_value,
    {
        if input > self.max_value {
            return Ok(false);
        }
        let math = BoundedMath::new(self.max_value);
        match self.read_last_committed_aggregator_value(resolver) {
            Ok(_) => {},
            Err(e) => {
                return Err(e);
            },
        }
        let state = self.state;
        match state {
            AggregatorState::Data { value } => {
                match math.unsigned_add(value, input) {
                    Ok(new_value) => {
                        self.state = AggregatorState::Data { value: new_value };
                        Ok(true)
                    },
                    Err(_) => Ok(false),
                }
            },
            AggregatorState::Delta { speculative_start_value, delta, history } => {
                let any = match speculative_start_value.get_any_value() {
                    Ok(v) => v,
                    Err(e) => {
                        return Err(e);
                    },
                };
                let cur_value = match expect_ok(math.unsigned_add_delta(any, &delta)) {
                    Ok(v) => v,
                    Err(e) => {
                        return Err(e);
                    },
                };
                if math.unsigned_add(cur_value, input).is_err() {
                    let overflow_delta = match expect_ok(
                        ok_overflow(math.unsigned_add_delta(input, &delta)),
                    ) {
                        Ok(v) => v,
                        Err(e) => {
                            return Err(e);
                        },
                    };
                    if let Some(od) = overflow_delta {
                        let mut new_history = history;
                        new_history.record_overflow(od);
                        self.state = AggregatorState::Delta {
                            speculative_start_value,
                            delta,
                            history: new_history,
                        };
                    }
                    Ok(false)
                } else {
                    let new_delta = match expect_ok(
                        math.signed_add(&delta, &SignedU128::Positive(input)),
                    ) {
                        Ok(v) => v,
                        Err(e) => {
                            return Err(e);
                        },
                    };
                    let mut new_history = history;
                    new_history.record_success(new_delta);
                    self.state = AggregatorState::Delta {
                        speculative_start_value,
                        delta: new_delta,
                        history: new_history,
                    };
                    Ok(true)
                }
            },
        }
    }

    /// Attempts to subtract `input`, symmetric to `try_add` with underflow
    /// bookkeeping.
    pub fn try_sub<R: AggregatorResolver>(&mut self, resolver: &R, input: u128) -> (r: Result<
        bool,
        AggregatorError,
    >)
        ensures
            ({
                let outcome = spec_try_sub(
                    *old(self),
                    spec_storage_read(resolver, old(self).id, AggregatorReadMode::LastCommitted),
                    input,
                );
                &&& ((*final(self) == outcome.0 && r == outcome.1) || (r == Err::<
                    bool,
                    AggregatorError,
                >(AggregatorError::ExtensionFailure) && *final(self) == *old(self)))
                &&& ((resolver.spec_reads_ok() || !spec_needs_committed_read(*old(self)))
                    ==> *final(self) == outcome.0 && r == outcome.1)
            }),
            final(self).id == old(self).id,
            final(self).max_value == old(self).max_value,
    {
        if input > self.max_value {
            return Ok(false);
        }
        let math = BoundedMath::new(self.max_value);
        match self.read_last_committed_aggregator_value(resolver) {
            Ok(_) => {},
            Err(e) => {
                return Err(e);
            },
        }
        let state = self.state;
        match state {
            AggregatorState::Data { value } => {
                match math.unsigned_subtract(value, input) {
                    Ok(new_value) => {
                        self.state = AggregatorState::Data { value: new_value };
                        Ok(true)
                    },
                    Err(_) => Ok(false),
                }
            },
            AggregatorState::Delta { speculative_start_value, delta, history } => {
                let any = match speculative_start_value.get_any_value() {
                    Ok(v) => v,
                    Err(e) => {
                        return Err(e);
                    },
                };
                let cur_value = match expect_ok(math.unsigned_add_delta(any, &delta)) {
                    Ok(v) => v,
                    Err(e) => {
                        return Err(e);
                    },
                };
                if cur_value < input {
                    let underflow_delta = match expect_ok(
                        ok_overflow(math.unsigned_add_delta(input, &delta.minus())),
                    ) {
                        Ok(v) => v,
                        Err(e) => {
                            return Err(e);
                        },
                    };
                    if let Some(ud) = underflow_delta {
                        let mut new_history = history;
                        new_history.record_underflow(ud);
                        self.state = AggregatorState::Delta {
                            speculative_start_value,
                            delta,
                            history: new_history,
                        };
                    }
                    Ok(false)
                } else {
                    let new_delta = match expect_ok(
                        math.signed_add(&delta, &SignedU128::Negative(input)),
                    ) {
                        Ok(v) => v,
                        Err(e) => {
                            return Err(e);
                        },
                    };
                    let mut new_history = history;
                    new_history.record_success(new_delta);
                    self.state = AggregatorState::Delta {
                        speculative_start_value,
                        delta: new_delta,
                        history: new_history,
                    };
                    Ok(true)
                }
            },
        }
    }

    /// Performs the expensive read: the authoritative value when known, the
    /// cached aggregated start plus delta when one was read before — with no
    /// further storage read — and otherwise a full aggregated read whose
    /// result is validated against the history and then cached.
    pub fn read_most_recent_aggregator_value<R: AggregatorResolver>(&mut self, resolver: &R) -> (r:
        Result<u128, AggregatorError>)
        ensures
            ({
                let outcome = spec_read_most_recent(
                    *old(self),
                    spec_storage_read(resolver, old(self).id, AggregatorReadMode::Aggregated),
                );
                &&& ((*final(self) == outcome.0 && r == outcome.1) || (r == Err::<
                    u128,
                    AggregatorError,
                >(AggregatorError::ExtensionFailure) && *final(self) == *old(self)))
                &&& ((resolver.spec_reads_ok() || !spec_needs_aggregated_read(*old(self)))
                    ==> *final(self) == outcome.0 && r == outcome.1)
            }),
            final(self).id == old(self).id,
            final(self).max_value == old(self).max_value,
    {
        let state = self.state;
        match state {
            AggregatorState::Data { value } => Ok(value),
            AggregatorState::Delta { speculative_start_value, delta, history } => {
                let math = BoundedMath::new(self.max_value);
                if let SpeculativeStartValue::AggregatedValue(start_value) =
                    speculative_start_value {
                    return match math.unsigned_add_delta(start_value, &delta) {
                        Ok(v) => Ok(v),
                        Err(_) => Err(code_invariant_error()),
                    };
                }
                let maybe_value_from_storage: Result<Option<u128>, AggregatorError> = match self.id {
                    AggregatorID::Legacy(key) => resolver.get_aggregator_v1_value(
                        key,
                        AggregatorReadMode::Aggregated,
                    ),
                    id => match resolver.get_aggregator_v2_value(
                        &id,
                        AggregatorReadMode::Aggregated,
                    ) {
                        Ok(v) => match v.into_aggregator_value() {
                            Ok(value) => Ok(Some(value)),
                            Err(_) => Err(extension_error()),
                        },
                        Err(_) => Err(extension_error()),
                    },
                };
                let value_from_storage = match maybe_value_from_storage {
                    Ok(Some(v)) => v,
                    Ok(None) => {
                        return Err(extension_error());
                    },
                    Err(_) => {
                        return Err(extension_error());
                    },
                };
                match history.validate_against_base_value(value_from_storage, self.max_value) {
                    Ok(_) => {},
                    Err(e) => {
                        return Err(e);
                    },
                }
                let result = match expect_ok(math.unsigned_add_delta(value_from_storage, &delta)) {
                    Ok(v) => v,
                    Err(e) => {
                        return Err(e);
                    },
                };
                self.state = AggregatorState::Delta {
                    speculative_start_value: SpeculativeStartValue::AggregatedValue(
                        value_from_storage,
                    ),
                    delta,
                    history,
                };
                Ok(result)
            },
        }
    }

    /// Unpacks the aggregator into its bound and its state.
    pub fn into(self) -> (r: (u128, AggregatorState))
        ensures
            r == (self.max_value, self.state),
    {
        (self.max_value, self.state)
    }
}

/// Two additions compose exactly on a known value: starting from `Data` with
/// value zero, `try_add(a)` followed by `try_add(b)` yields `Data { a + b }`
/// when `a + b` stays within the bound; and when `a` fits but `a + b` does
/// not, the second call reports plain overflow and leaves the state of the
/// first call untouched. The committed read plays no part in `Data` state,
/// so the lemma holds for any storage values `c1`, `c2`.
pub proof fn lemma_data_add_twice(
    agg: Aggregator,
    a: u128,
    b: u128,
    c1: Option<u128>,
    c2: Option<u128>,
)
    requires
        agg.state == (AggregatorState::Data { value: 0u128 }),
    ensures
        a + b <= agg.max_value ==> ({
            let first = spec_try_add(agg, c1, a);
            let second = spec_try_add(first.0, c2, b);
            &&& first.1 == Ok::<bool, AggregatorError>(true)
            &&& second.1 == Ok::<bool, AggregatorError>(true)
            &&& second.0.state == (AggregatorState::Data { value: (a + b) as u128 })
        }),
        a <= agg.max_value && a + b > agg.max_value ==> ({
            let first = spec_try_add(agg, c1, a);
            let second = spec_try_add(first.0, c2, b);
            &&& first.1 == Ok::<bool, AggregatorError>(true)
            &&& first.0.state == (AggregatorState::Data { value: a })
            &&& second.1 == Ok::<bool, AggregatorError>(false)
            &&& second.0 == first.0
        }),
{
}

/// A successful `try_add` extends the trace of net deltas this speculative
/// aggregator ever reached, and its history keeps summarizing that trace
/// exactly: the achieved extremes equal the extreme net deltas reached,
/// whatever the order they were reached in.
pub proof fn lemma_try_add_success_tracks(
    agg: Aggregator,
    committed: Option<u128>,
    input: u128,
    trace: Seq<int>,
)
    requires
        agg.state matches AggregatorState::Delta { history, .. } && spec_tracks_achieved(
            history,
            trace,
        ),
        spec_try_add(agg, committed, input).1 == Ok::<bool, AggregatorError>(true),
    ensures
        ({
            let post = spec_try_add(agg, committed, input).0;
            post.state matches AggregatorState::Delta { delta: d2, history: h2, .. }
                && spec_tracks_achieved(h2, trace.push(d2.as_int()))
        }),
{
    let h1 = agg.state->Delta_history;
    let post = spec_try_add(agg, committed, input).0;
    let d2 = post.state->Delta_delta;
    let h2 = post.state->Delta_history;
    assert(h2 == spec_record_success(h1, d2));
    crate::delta_math::lemma_success_bounds_track_achieved(h1, trace, d2);
}

/// A successful `try_sub` extends the trace of reached net deltas in the
/// same way.
pub proof fn lemma_try_sub_success_tracks(
    agg: Aggregator,
    committed: Option<u128>,
    input: u128,
    trace: Seq<int>,
)
    requires
        agg.state matches AggregatorState::Delta { history, .. } && spec_tracks_achieved(
            history,
            trace,
        ),
        spec_try_sub(agg, committed, input).1 == Ok::<bool, AggregatorError>(true),
    ensures
        ({
            let post = spec_try_sub(agg, committed, input).0;
            post.state matches AggregatorState::Delta { delta: d2, history: h2, .. }
                && spec_tracks_achieved(h2, trace.push(d2.as_int()))
        }),
{
    let h1 = agg.state->Delta_history;
    let post = spec_try_sub(agg, committed, input).0;
    let d2 = post.state->Delta_delta;
    let h2 = post.state->Delta_history;
    assert(h2 == spec_record_success(h1, d2));
    crate::delta_math::lemma_success_bounds_track_achieved(h1, trace, d2);
}

/// Across any outcome of `try_add` or `try_sub`, the failure thresholds
/// only tighten: once `min_overflow_positive_delta` or
/// `max_underflow_negative_delta` is set it stays set and never increases.
pub proof fn lemma_thresholds_only_tighten(
    agg: Aggregator,
    committed: Option<u128>,
    input: u128,
)
    requires
        agg.state matches AggregatorState::Delta { .. },
    ensures
        ({
            let post_add = spec_try_add(agg, committed, input).0;
            let post_sub = spec_try_sub(agg, committed, input).0;
            let h1 = agg.state->Delta_history;
            &&& post_add.state matches AggregatorState::Delta { .. }
            &&& post_sub.state matches AggregatorState::Delta { .. }
            &&& (h1.min_overflow_positive_delta matches Some(o)
                ==> post_add.state->Delta_history.min_overflow_positive_delta matches Some(o2)
                && o2 <= o)
            &&& (h1.max_underflow_negative_delta matches Some(u)
                ==> post_add.state->Delta_history.max_underflow_negative_delta matches Some(u2)
                && u2 <= u)
            &&& (h1.min_overflow_positive_delta matches Some(o)
                ==> post_sub.state->Delta_history.min_overflow_positive_delta matches Some(o2)
                && o2 <= o)
            &&& (h1.max_underflow_negative_delta matches Some(u)
                ==> post_sub.state->Delta_history.max_underflow_negative_delta matches Some(u2)
                && u2 <= u)
        }),
{
}

/// The state of one snapshot. A snapshot is immutable once created: a new
/// derived value always gets a new identifier.
#[derive(Debug, Clone, PartialEq, Eq)]
pub enum AggregatorSnapshotState {
    /// Created in this transaction with an explicit value.
    Data { value: SnapshotValue },
    /// Created in this transaction from an aggregator still in `Delta`
    /// state: the eventual value is the base aggregator's value plus the
    /// delta captured at snapshot time.
    Delta { base_aggregator: AggregatorID, delta: SignedU128 },
    /// Created in this transaction as a deferred string derivation over
    /// another snapshot.
    Concat { base_snapshot: AggregatorID, formula: DerivedFormula },
    /// Merely accessed in this transaction: the value read from the
    /// resolver, taken verbatim and never revalidated.
    Reference { speculative_value: SnapshotValue },
}

/// The mathematical content of an `AggregatorSnapshotState`.
#[verifier::ext_equal]
pub enum AggregatorSnapshotStateV {
    Data { value: SnapshotValueV },
    Delta { base_aggregator: AggregatorID, delta: SignedU128 },
    Concat { base_snapshot: AggregatorID, formula: DerivedFormulaV },
    Reference { speculative_value: SnapshotValueV },
}

impl View for AggregatorSnapshotState {
    type V = AggregatorSnapshotStateV;

    open spec fn view(&self) -> AggregatorSnapshotStateV {
        match self {
            AggregatorSnapshotState::Data { value } => AggregatorSnapshotStateV::Data {
                value: value@,
            },
            AggregatorSnapshotState::Delta { base_aggregator, delta } =>
                AggregatorSnapshotStateV::Delta {
                base_aggregator: *base_aggregator,
                delta: *delta,
            },
            AggregatorSnapshotState::Concat { base_snapshot, formula } =>
                AggregatorSnapshotStateV::Concat {
                base_snapshot: *base_snapshot,
                formula: formula@,
            },
            AggregatorSnapshotState::Reference { speculative_value } =>
                AggregatorSnapshotStateV::Reference {
                speculative_value: speculative_value@,
            },
        }
    }
}

/// One snapshot instance: its identifier and its immutable state.
#[derive(Debug, Clone, PartialEq, Eq)]
pub struct AggregatorSnapshot {
    pub id: AggregatorID,
    pub state: AggregatorSnapshotState,
}

/// The mathematical content of an `AggregatorSnapshot`.
#[verifier::ext_equal]
pub struct AggregatorSnapshotV {
    pub id: AggregatorID,
    pub state: AggregatorSnapshotStateV,
}

impl View for AggregatorSnapshot {
    type V = AggregatorSnapshotV;

    open spec fn view(&self) -> AggregatorSnapshotV {
        AggregatorSnapshotV { id: self.id, state: self.state@ }
    }
}

impl AggregatorSnapshotState {
    /// An equal state in fresh storage.
    pub fn duplicate(&self) -> (r: AggregatorSnapshotState)
        ensures
            r@ == self@,
    {
        match self {
            AggregatorSnapshotState::Data { value } => AggregatorSnapshotState::Data {
                value: value.duplicate(),
            },
            AggregatorSnapshotState::Delta { base_aggregator, delta } =>
                AggregatorSnapshotState::Delta {
                base_aggregator: *base_aggregator,
                delta: *delta,
            },
            AggregatorSnapshotState::Concat { base_snapshot, formula } =>
                AggregatorSnapshotState::Concat {
                base_snapshot: *base_snapshot,
                formula: formula.duplicate(),
            },
            AggregatorSnapshotState::Reference { speculative_value } =>
                AggregatorSnapshotState::Reference {
                speculative_value: speculative_value.duplicate(),
            },
        }
    }
}

impl AggregatorSnapshot {
    /// Unpacks the snapshot into its state.
    pub fn into(self) -> (r: AggregatorSnapshotState)
        ensures
            r@ == self@.state,
    {
        self.state
    }
}

/// The position of the first aggregator carrying `id`, if any.
pub open spec fn spec_find_aggregator(s: Seq<Aggregator>, id: AggregatorID) -> Option<int>
    decreases s.len(),
{
    if s.len() == 0 {
        None
    } else if s[0].id == id {
        Some(0int)
    } else {
        match spec_find_aggregator(s.drop_first(), id) {
            Some(i) => Some(i + 1),
            None => None,
        }
    }
}

/// The position of the first snapshot carrying `id`, if any.
pub open spec fn spec_find_snapshot(s: Seq<AggregatorSnapshotV>, id: AggregatorID) -> Option<int>
    decreases s.len(),
{
    if s.len() == 0 {
        None
    } else if s[0].id == id {
        Some(0int)
    } else {
        match spec_find_snapshot(s.drop_first(), id) {
            Some(i) => Some(i + 1),
            None => None,
        }
    }
}

/// Whether the id set `s` holds `id`.
pub open spec fn spec_contains_id(s: Seq<AggregatorID>, id: AggregatorID) -> bool {
    exists|i: int| 0 <= i < s.len() && s[i] == id
}

pub proof fn lemma_find_aggregator(s: Seq<Aggregator>, id: AggregatorID)
    ensures
        match spec_find_aggregator(s, id) {
            Some(i) => 0 <= i < s.len() && s[i].id == id && (forall|j: int|
                0 <= j < i ==> (#[trigger] s[j]).id != id),
            None => forall|j: int| 0 <= j < s.len() ==> (#[trigger] s[j]).id != id,
        },
    decreases s.len(),
{
    if s.len() > 0 && s[0].id != id {
        lemma_find_aggregator(s.drop_first(), id);
        match spec_find_aggregator(s.drop_first(), id) {
            Some(i) => {
                assert(s[i + 1] == s.drop_first()[i]);
                assert forall|j: int| 0 <= j < i + 1 implies (#[trigger] s[j]).id != id by {
                    if j > 0 {
                        assert(s[j] == s.drop_first()[j - 1]);
                    }
                }
            },
            None => {
                assert forall|j: int| 0 <= j < s.len() implies (#[trigger] s[j]).id != id by {
                    if j > 0 {
                        assert(s[j] == s.drop_first()[j - 1]);
                    }
                }
            },
        }
    }
}

pub proof fn lemma_find_aggregator_is(s: Seq<Aggregator>, id: AggregatorID, i: int)
    requires
        0 <= i < s.len(),
        s[i].id == id,
        forall|j: int| 0 <= j < i ==> (#[trigger] s[j]).id != id,
    ensures
        spec_find_aggregator(s, id) == Some(i),
    decreases i,
{
    if i > 0 {
        lemma_find_aggregator_is(s.drop_first(), id, i - 1);
    }
}

pub proof fn lemma_find_aggregator_absent(s: Seq<Aggregator>, id: AggregatorID)
    requires
        forall|j: int| 0 <= j < s.len() ==> (#[trigger] s[j]).id != id,
    ensures
        spec_find_aggregator(s, id) == None::<int>,
    decreases s.len(),
{
    if s.len() > 0 {
        lemma_find_aggregator_absent(s.drop_first(), id);
    }
}

pub proof fn lemma_find_snapshot(s: Seq<AggregatorSnapshotV>, id: AggregatorID)
    ensures
        match spec_find_snapshot(s, id) {
            Some(i) => 0 <= i < s.len() && s[i].id == id && (forall|j: int|
                0 <= j < i ==> (#[trigger] s[j]).id != id),
            None => forall|j: int| 0 <= j < s.len() ==> (#[trigger] s[j]).id != id,
        },
    decreases s.len(),
{
    if s.len() > 0 && s[0].id != id {
        lemma_find_snapshot(s.drop_first(), id);
        match spec_find_snapshot(s.drop_first(), id) {
            Some(i) => {
                assert(s[i + 1] == s.drop_first()[i]);
                assert forall|j: int| 0 <= j < i + 1 implies (#[trigger] s[j]).id != id by {
                    if j > 0 {
                        assert(s[j] == s.drop_first()[j - 1]);
                    }
                }
            },
            None => {
                assert forall|j: int| 0 <= j < s.len() implies (#[trigger] s[j]).id != id by {
                    if j > 0 {
                        assert(s[j] == s.drop_first()[j - 1]);
                    }
                }
            },
        }
    }
}

pub proof fn lemma_find_snapshot_is(s: Seq<AggregatorSnapshotV>, id: AggregatorID, i: int)
    requires
        0 <= i < s.len(),
        s[i].id == id,
        forall|j: int| 0 <= j < i ==> (#[trigger] s[j]).id != id,
    ensures
        spec_find_snapshot(s, id) == Some(i),
    decreases i,
{
    if i > 0 {
        lemma_find_snapshot_is(s.drop_first(), id, i - 1);
    }
}

pub proof fn lemma_find_snapshot_absent(s: Seq<AggregatorSnapshotV>, id: AggregatorID)
    requires
        forall|j: int| 0 <= j < s.len() ==> (#[trigger] s[j]).id != id,
    ensures
        spec_find_snapshot(s, id) == None::<int>,
    decreases s.len(),
{
    if s.len() > 0 {
        lemma_find_snapshot_absent(s.drop_first(), id);
    }
}

/// The aggregator sequence after `get_aggregator` made sure an instance for
/// `id` exists: unchanged when one was present, extended by a fresh
/// speculative instance with the bound `max_value` otherwise.
pub open spec fn spec_registry_after_touch(
    s: Seq<Aggregator>,
    id: AggregatorID,
    max_value: u128,
) -> Seq<Aggregator> {
    match spec_find_aggregator(s, id) {
        Some(_) => s,
        None => s.push(spec_fresh_aggregator(id, max_value)),
    }
}

/// Where the instance for `id` stands after `get_aggregator`.
pub open spec fn spec_touched_index(s: Seq<Aggregator>, id: AggregatorID) -> int {
    match spec_find_aggregator(s, id) {
        Some(i) => i,
        None => s.len() as int,
    }
}

/// The mathematical content of an `AggregatorData` registry.
#[verifier::ext_equal]
pub struct AggregatorDataV {
    pub new_aggregators: Seq<AggregatorID>,
    pub destroyed_aggregators: Seq<AggregatorID>,
    pub aggregators: Seq<Aggregator>,
    pub aggregator_snapshots: Seq<AggregatorSnapshotV>,
    pub id_counter: u64,
}

/// No aggregator id occurs twice.
pub open spec fn spec_unique_aggregator_ids(s: Seq<Aggregator>) -> bool {
    forall|i: int, j: int|
        0 <= i < j < s.len() ==> (#[trigger] s[i]).id != (#[trigger] s[j]).id
}

/// No snapshot id occurs twice.
pub open spec fn spec_unique_snapshot_ids(s: Seq<AggregatorSnapshotV>) -> bool {
    forall|i: int, j: int|
        0 <= i < j < s.len() ==> (#[trigger] s[i]).id != (#[trigger] s[j]).id
}

/// No id occurs twice.
pub open spec fn spec_unique_ids(s: Seq<AggregatorID>) -> bool {
    forall|i: int, j: int| 0 <= i < j < s.len() ==> #[trigger] s[i] != #[trigger] s[j]
}

impl AggregatorDataV {
    /// The registry encodes maps and sets as sequences: well-formed means no
    /// id occurs twice within any one of them.
    pub open spec fn wf(self) -> bool {
        &&& spec_unique_aggregator_ids(self.aggregators)
        &&& spec_unique_snapshot_ids(self.aggregator_snapshots)
        &&& spec_unique_ids(self.new_aggregators)
        &&& spec_unique_ids(self.destroyed_aggregators)
    }
}

/// Appending a snapshot whose id is fresh keeps snapshot ids unique.
pub proof fn lemma_unique_snapshot_push(s: Seq<AggregatorSnapshotV>, snap: AggregatorSnapshotV)
    requires
        spec_unique_snapshot_ids(s),
        forall|j: int| 0 <= j < s.len() ==> (#[trigger] s[j]).id != snap.id,
    ensures
        spec_unique_snapshot_ids(s.push(snap)),
{
    let s2 = s.push(snap);
    assert forall|i: int, j: int| 0 <= i < j < s2.len() implies (#[trigger] s2[i]).id != (
    #[trigger] s2[j]).id by {
        if j < s.len() {
            assert(s2[i] == s[i] && s2[j] == s[j]);
        } else {
            assert(s2[i] == s[i] && s2[j] == snap);
        }
    }
}

/// Replacing a snapshot by one carrying the same id keeps ids unique.
pub proof fn lemma_unique_snapshot_update(
    s: Seq<AggregatorSnapshotV>,
    k: int,
    snap: AggregatorSnapshotV,
)
    requires
        spec_unique_snapshot_ids(s),
        0 <= k < s.len(),
        snap.id == s[k].id,
    ensures
        spec_unique_snapshot_ids(s.update(k, snap)),
{
    let s2 = s.update(k, snap);
    assert forall|i: int, j: int| 0 <= i < j < s2.len() implies (#[trigger] s2[i]).id != (
    #[trigger] s2[j]).id by {
        assert(s[i].id != s[j].id);
        assert(s2[i].id == s[i].id && s2[j].id == s[j].id);
    }
}

/// Appending an aggregator whose id is fresh keeps ids unique.
pub proof fn lemma_unique_aggregator_push(s: Seq<Aggregator>, a: Aggregator)
    requires
        spec_unique_aggregator_ids(s),
        forall|j: int| 0 <= j < s.len() ==> (#[trigger] s[j]).id != a.id,
    ensures
        spec_unique_aggregator_ids(s.push(a)),
{
    let s2 = s.push(a);
    assert forall|i: int, j: int| 0 <= i < j < s2.len() implies (#[trigger] s2[i]).id != (
    #[trigger] s2[j]).id by {
        if j < s.len() {
            assert(s2[i] == s[i] && s2[j] == s[j]);
        } else {
            assert(s2[i] == s[i] && s2[j] == a);
        }
    }
}

/// Dropping an aggregator keeps the remaining ids unique.
pub proof fn lemma_unique_aggregator_remove(s: Seq<Aggregator>, k: int)
    requires
        spec_unique_aggregator_ids(s),
        0 <= k < s.len(),
    ensures
        spec_unique_aggregator_ids(s.remove(k)),
{
    let s2 = s.remove(k);
    assert forall|i: int, j: int| 0 <= i < j < s2.len() implies (#[trigger] s2[i]).id != (
    #[trigger] s2[j]).id by {
        let i0 = if i < k {
            i
        } else {
            i + 1
        };
        let j0 = if j < k {
            j
        } else {
            j + 1
        };
        assert(s2[i] == s[i0] && s2[j] == s[j0]);
        assert(s[i0].id != s[j0].id);
    }
}

/// Appending an id not yet in a set keeps the set free of repeats.
pub proof fn lemma_unique_ids_push(s: Seq<AggregatorID>, id: AggregatorID)
    requires
        spec_unique_ids(s),
        !spec_contains_id(s, id),
    ensures
        spec_unique_ids(s.push(id)),
{
    let s2 = s.push(id);
    assert forall|i: int, j: int| 0 <= i < j < s2.len() implies #[trigger] s2[i] != #[trigger] s2[j] by {
        if j < s.len() {
            assert(s2[i] == s[i] && s2[j] == s[j]);
        } else {
            assert(s2[i] == s[i] && s2[j] == id);
        }
    }
}

/// Dropping an id keeps the set free of repeats.
pub proof fn lemma_unique_ids_remove(s: Seq<AggregatorID>, k: int)
    requires
        spec_unique_ids(s),
        0 <= k < s.len(),
    ensures
        spec_unique_ids(s.remove(k)),
{
    let s2 = s.remove(k);
    assert forall|i: int, j: int| 0 <= i < j < s2.len() implies #[trigger] s2[i] != #[trigger] s2[j] by {
        let i0 = if i < k {
            i
        } else {
            i + 1
        };
        let j0 = if j < k {
            j
        } else {
            j + 1
        };
        assert(s2[i] == s[i0] && s2[j] == s[j0]);
        assert(s[i0] != s[j0]);
    }
}

/// The snapshot sequence after storing `snap` under its id: the first
/// instance with that id is replaced, or `snap` is appended.
pub open spec fn spec_snapshots_after_insert(
    s: Seq<AggregatorSnapshotV>,
    snap: AggregatorSnapshotV,
) -> Seq<AggregatorSnapshotV> {
    match spec_find_snapshot(s, snap.id) {
        Some(i) => s.update(i, snap),
        None => s.push(snap),
    }
}

/// `b` is `a` with at most the speculative start value changed: identity,
/// bound, delta and history all stand.
pub open spec fn spec_same_but_start(a: Aggregator, b: Aggregator) -> bool {
    &&& a.id == b.id
    &&& a.max_value == b.max_value
    &&& match (a.state, b.state) {
        (AggregatorState::Data { value: v1 }, AggregatorState::Data { value: v2 }) => v1 == v2,
        (
            AggregatorState::Delta { delta: d1, history: h1, .. },
            AggregatorState::Delta { delta: d2, history: h2, .. },
        ) => d1 == d2 && h1 == h2,
        _ => false,
    }
}

/// What any snapshot read leaves intact, whatever the resolver does: the
/// bookkeeping sets and the counter stand; aggregators change at most their
/// cached start value; snapshots already present stand untouched — they are
/// immutable — and anything appended is a verbatim `Reference`.
pub open spec fn spec_snapshot_frame(pre: AggregatorDataV, post: AggregatorDataV) -> bool {
    &&& post.new_aggregators == pre.new_aggregators
    &&& post.destroyed_aggregators == pre.destroyed_aggregators
    &&& post.id_counter == pre.id_counter
    &&& post.aggregators.len() == pre.aggregators.len()
    &&& (forall|i: int|
        0 <= i < pre.aggregators.len() ==> spec_same_but_start(
            #[trigger] pre.aggregators[i],
            post.aggregators[i],
        ))
    &&& pre.aggregator_snapshots.len() <= post.aggregator_snapshots.len()
    &&& (forall|i: int|
        0 <= i < pre.aggregator_snapshots.len() ==> #[trigger] post.aggregator_snapshots[i]
            == pre.aggregator_snapshots[i])
    &&& (forall|i: int|
        pre.aggregator_snapshots.len() <= i < post.aggregator_snapshots.len() ==> (
        #[trigger] post.aggregator_snapshots[i]).state matches
            AggregatorSnapshotStateV::Reference { .. })
}

/// The expensive read touches at most the cached start value.
pub proof fn lemma_read_most_recent_frame(agg: Aggregator, aggregated: Option<u128>)
    ensures
        spec_same_but_start(agg, spec_read_most_recent(agg, aggregated).0),
{
}

/// Replacing an aggregator by one carrying the same id keeps ids unique.
pub proof fn lemma_unique_aggregator_update(s: Seq<Aggregator>, j: int, a: Aggregator)
    requires
        spec_unique_aggregator_ids(s),
        0 <= j < s.len(),
        a.id == s[j].id,
    ensures
        spec_unique_aggregator_ids(s.update(j, a)),
{
    let s2 = s.update(j, a);
    assert forall|i: int, k: int| 0 <= i < k < s2.len() implies (#[trigger] s2[i]).id != (
    #[trigger] s2[k]).id by {
        assert(s[i].id != s[k].id);
        assert(s2[i].id == s[i].id && s2[k].id == s[k].id);
    }
}

/// What resolving the snapshot under `id` yields and leaves behind, given a
/// resolver whose reads answer. An untouched id is read and cached as a
/// `Reference`; a `Delta` snapshot reads its base aggregator — caching that
/// aggregator's aggregated start value — or falls back to a direct read
/// when the aggregator is not tracked; a `Concat` snapshot derives from its
/// base, with `fuel` bounding the chain depth.
pub open spec fn spec_read_snapshot<R: AggregatorResolver>(
    data: AggregatorDataV,
    resolver: &R,
    id: AggregatorID,
    fuel: nat,
) -> (AggregatorDataV, Result<SnapshotValueV, AggregatorError>)
    decreases fuel,
{
    match spec_find_snapshot(data.aggregator_snapshots, id) {
        None => {
            match resolver.spec_v2_value(id, AggregatorReadMode::Aggregated) {
                None => (data, Err(AggregatorError::ExtensionFailure)),
                Some(v) => (
                    AggregatorDataV {
                        aggregator_snapshots: data.aggregator_snapshots.push(
                            AggregatorSnapshotV {
                                id,
                                state: AggregatorSnapshotStateV::Reference {
                                    speculative_value: v,
                                },
                            },
                        ),
                        ..data
                    },
                    Ok(v),
                ),
            }
        },
        Some(i) => match data.aggregator_snapshots[i].state {
            AggregatorSnapshotStateV::Data { value } => (data, Ok(value)),
            AggregatorSnapshotStateV::Reference { speculative_value } => (
                data,
                Ok(speculative_value),
            ),
            AggregatorSnapshotStateV::Delta { base_aggregator, delta } => {
                match spec_find_aggregator(data.aggregators, base_aggregator) {
                    Some(j) => {
                        let agg = data.aggregators[j];
                        let outcome = spec_read_most_recent(
                            agg,
                            spec_storage_read(
                                resolver,
                                agg.id,
                                AggregatorReadMode::Aggregated,
                            ),
                        );
                        let data2 = AggregatorDataV {
                            aggregators: data.aggregators.update(j, outcome.0),
                            ..data
                        };
                        match outcome.1 {
                            Err(e) => (data2, Err(e)),
                            Ok(v) => match spec_add_delta(agg.max_value, v, delta) {
                                Err(_) => (data2, Err(AggregatorError::CodeInvariantViolation)),
                                Ok(x) => (data2, Ok(SnapshotValueV::Integer(x))),
                            },
                        }
                    },
                    None => {
                        match resolver.spec_v2_value(id, AggregatorReadMode::Aggregated) {
                            Some(v) => (data, Ok(v)),
                            None => (data, Err(AggregatorError::ExtensionFailure)),
                        }
                    },
                }
            },
            AggregatorSnapshotStateV::Concat { base_snapshot, formula } => {
                if fuel == 0 {
                    (data, Err(AggregatorError::CodeInvariantViolation))
                } else {
                    let inner = spec_read_snapshot(data, resolver, base_snapshot, (fuel - 1) as nat);
                    match inner.1 {
                        Err(e) => (inner.0, Err(e)),
                        Ok(v) => (inner.0, Ok(spec_apply_formula(formula, v))),
                    }
                }
            },
        },
    }
}

/// How far along the read progression a start value is.
pub open spec fn spec_start_rank(svs: SpeculativeStartValue) -> int {
    match svs {
        SpeculativeStartValue::Unset => 0,
        SpeculativeStartValue::LastCommittedValue(_) => 1,
        SpeculativeStartValue::AggregatedValue(_) => 2,
    }
}

/// The start value of a `Delta` aggregator after the operation, `Unset` for
/// a `Data` aggregator (whose value needs no read).
pub open spec fn spec_start_of(agg: Aggregator) -> SpeculativeStartValue {
    match agg.state {
        AggregatorState::Data { .. } => SpeculativeStartValue::Unset,
        AggregatorState::Delta { speculative_start_value, .. } => speculative_start_value,
    }
}

/// The speculative start value only moves forward: no operation ever resets
/// it toward `Unset`, and once an aggregated value is cached it never
/// changes again.
pub proof fn lemma_start_value_monotonic(
    agg: Aggregator,
    committed: Option<u128>,
    aggregated: Option<u128>,
    input: u128,
)
    requires
        agg.state matches AggregatorState::Delta { .. },
    ensures
        spec_start_rank(spec_start_of(spec_read_committed(agg, committed).0)) >= spec_start_rank(
            spec_start_of(agg),
        ),
        spec_start_rank(spec_start_of(spec_try_add(agg, committed, input).0)) >= spec_start_rank(
            spec_start_of(agg),
        ),
        spec_start_rank(spec_start_of(spec_try_sub(agg, committed, input).0)) >= spec_start_rank(
            spec_start_of(agg),
        ),
        spec_start_rank(spec_start_of(spec_read_most_recent(agg, aggregated).0))
            >= spec_start_rank(spec_start_of(agg)),
        spec_start_of(agg) matches SpeculativeStartValue::AggregatedValue(v) ==> {
            &&& spec_start_of(spec_try_add(agg, committed, input).0)
                == SpeculativeStartValue::AggregatedValue(v)
            &&& spec_start_of(spec_try_sub(agg, committed, input).0)
                == SpeculativeStartValue::AggregatedValue(v)
            &&& spec_start_of(spec_read_most_recent(agg, aggregated).0)
                == SpeculativeStartValue::AggregatedValue(v)
        },
{
}

/// A successful expensive read settles the aggregator: reading again yields
/// the same value and changes nothing, whatever storage would say by then —
/// the cached aggregated start value is used and no further read happens.
pub proof fn lemma_read_most_recent_idempotent(
    agg: Aggregator,
    aggregated: Option<u128>,
    later: Option<u128>,
)
    requires
        spec_read_most_recent(agg, aggregated).1 is Ok,
    ensures
        ({
            let outcome = spec_read_most_recent(agg, aggregated);
            spec_read_most_recent(outcome.0, later) == outcome
        }),
{
}

/// What any resolution under a well-behaved resolver leaves intact, stated
/// of the specification itself: the frame of `spec_read_snapshot` matches
/// the frame every executable snapshot read keeps.
pub proof fn lemma_spec_read_snapshot_frame<R: AggregatorResolver>(
    data: AggregatorDataV,
    resolver: &R,
    id: AggregatorID,
    fuel: nat,
)
    ensures
        spec_snapshot_frame(data, spec_read_snapshot(data, resolver, id, fuel).0),
    decreases fuel,
{
    let d2 = spec_read_snapshot(data, resolver, id, fuel).0;
    match spec_find_snapshot(data.aggregator_snapshots, id) {
        None => {},
        Some(i) => {
            match data.aggregator_snapshots[i].state {
                AggregatorSnapshotStateV::Delta { base_aggregator, delta } => {
                    match spec_find_aggregator(data.aggregators, base_aggregator) {
                        Some(j) => {
                            lemma_find_aggregator(data.aggregators, base_aggregator);
                            lemma_read_most_recent_frame(
                                data.aggregators[j],
                                spec_storage_read(
                                    resolver,
                                    data.aggregators[j].id,
                                    AggregatorReadMode::Aggregated,
                                ),
                            );
                        },
                        None => {},
                    }
                },
                AggregatorSnapshotStateV::Concat { base_snapshot, .. } => {
                    if fuel > 0 {
                        lemma_spec_read_snapshot_frame(
                            data,
                            resolver,
                            base_snapshot,
                            (fuel - 1) as nat,
                        );
                    }
                },
                _ => {},
            }
        },
    }
}

/// Snapshot reads are idempotent: once a resolution of `id` succeeded, the
/// same resolution on the state it left behind yields the same value and
/// changes nothing further. Together with the frame — snapshots already
/// present are never touched — this says a snapshot id read twice within
/// one transaction state answers with identical values.
pub proof fn lemma_read_snapshot_idempotent<R: AggregatorResolver>(
    data: AggregatorDataV,
    resolver: &R,
    id: AggregatorID,
    fuel: nat,
)
    requires
        spec_read_snapshot(data, resolver, id, fuel).1 is Ok,
    ensures
        ({
            let outcome = spec_read_snapshot(data, resolver, id, fuel);
            spec_read_snapshot(outcome.0, resolver, id, fuel) == outcome
        }),
    decreases fuel,
{
    let outcome = spec_read_snapshot(data, resolver, id, fuel);
    let d2 = outcome.0;
    lemma_find_snapshot(data.aggregator_snapshots, id);
    match spec_find_snapshot(data.aggregator_snapshots, id) {
        None => {
            // The value was cached as a fresh `Reference`; the second read
            // hits it directly.
            match resolver.spec_v2_value(id, AggregatorReadMode::Aggregated) {
                None => {},
                Some(v) => {
                    lemma_find_snapshot_is(
                        d2.aggregator_snapshots,
                        id,
                        data.aggregator_snapshots.len() as int,
                    );
                    assert(d2 =~= spec_read_snapshot(d2, resolver, id, fuel).0);
                },
            }
        },
        Some(i) => {
            match data.aggregator_snapshots[i].state {
                AggregatorSnapshotStateV::Data { .. } => {},
                AggregatorSnapshotStateV::Reference { .. } => {},
                AggregatorSnapshotStateV::Delta { base_aggregator, delta } => {
                    lemma_find_aggregator(data.aggregators, base_aggregator);
                    match spec_find_aggregator(data.aggregators, base_aggregator) {
                        None => {},
                        Some(j) => {
                            let agg = data.aggregators[j];
                            let read = spec_storage_read(
                                resolver,
                                agg.id,
                                AggregatorReadMode::Aggregated,
                            );
                            let inner = spec_read_most_recent(agg, read);
                            lemma_read_most_recent_frame(agg, read);
                            assert(d2.aggregator_snapshots == data.aggregator_snapshots);
                            lemma_find_snapshot_is(d2.aggregator_snapshots, id, i);
                            assert forall|k: int| 0 <= k < j implies (
                            #[trigger] d2.aggregators[k]).id != base_aggregator by {
                                assert(d2.aggregators[k] == data.aggregators[k]);
                            }
                            assert(d2.aggregators[j] == inner.0);
                            assert(inner.0.id == base_aggregator);
                            lemma_find_aggregator_is(d2.aggregators, base_aggregator, j);
                            lemma_read_most_recent_idempotent(agg, read, read);
                            assert(d2.aggregators.update(j, inner.0) =~= d2.aggregators);
                            assert(spec_read_snapshot(d2, resolver, id, fuel).0 =~= d2);
                        },
                    }
                },
                AggregatorSnapshotStateV::Concat { base_snapshot, formula } => {
                    if fuel > 0 {
                        let inner = spec_read_snapshot(
                            data,
                            resolver,
                            base_snapshot,
                            (fuel - 1) as nat,
                        );
                        lemma_spec_read_snapshot_frame(
                            data,
                            resolver,
                            base_snapshot,
                            (fuel - 1) as nat,
                        );
                        assert(d2.aggregator_snapshots[i] == data.aggregator_snapshots[i]);
                        assert forall|k: int| 0 <= k < i implies (
                        #[trigger] d2.aggregator_snapshots[k]).id != id by {
                            assert(d2.aggregator_snapshots[k] == data.aggregator_snapshots[k]);
                        }
                        lemma_find_snapshot_is(d2.aggregator_snapshots, id, i);
                        lemma_read_snapshot_idempotent(
                            data,
                            resolver,
                            base_snapshot,
                            (fuel - 1) as nat,
                        );
                    }
                },
            }
        },
    }
}

/// The per-transaction registry owning every aggregator and snapshot
/// instance the transaction touched, together with the bookkeeping of what
/// was created and destroyed and the counter minting ephemeral ids.
pub struct AggregatorData {
    /// Ids created in this transaction, used to filter out aggregators
    /// created and destroyed within one transaction.
    pub new_aggregators: Vec<AggregatorID>,
    /// Ids destroyed in this transaction.
    pub destroyed_aggregators: Vec<AggregatorID>,
    /// All aggregator instances of this transaction.
    pub aggregators: Vec<Aggregator>,
    /// All snapshot instances of this transaction.
    pub aggregator_snapshots: Vec<AggregatorSnapshot>,
    /// The counter behind every freshly minted ephemeral id.
    pub id_counter: u64,
}

impl View for AggregatorData {
    type V = AggregatorDataV;

    open spec fn view(&self) -> AggregatorDataV {
        AggregatorDataV {
            new_aggregators: self.new_aggregators@,
            destroyed_aggregators: self.destroyed_aggregators@,
            aggregators: self.aggregators@,
            aggregator_snapshots: self.aggregator_snapshots@.map_values(
                |s: AggregatorSnapshot| s@,
            ),
            id_counter: self.id_counter,
        }
    }
}

impl AggregatorData {
    pub fn new(id_counter: u64) -> (r: Self)
        ensures
            r@.new_aggregators == Seq::<AggregatorID>::empty(),
            r@.destroyed_aggregators == Seq::<AggregatorID>::empty(),
            r@.aggregators == Seq::<Aggregator>::empty(),
            r@.aggregator_snapshots == Seq::<AggregatorSnapshotV>::empty(),
            r@.id_counter == id_counter,
            r@.wf(),
    {
        let r = AggregatorData {
            new_aggregators: Vec::new(),
            destroyed_aggregators: Vec::new(),
            aggregators: Vec::new(),
            aggregator_snapshots: Vec::new(),
            id_counter,
        };
        proof {
            assert(r@.aggregator_snapshots =~= Seq::<AggregatorSnapshotV>::empty());
        }
        r
    }

    /// The position of the first aggregator instance carrying `id`, if any.
    fn find_aggregator_index(&self, id: &AggregatorID) -> (r: Option<usize>)
        ensures
            r matches Some(i) ==> spec_find_aggregator(self@.aggregators, *id) == Some(i as int),
            r is None ==> spec_find_aggregator(self@.aggregators, *id) == None::<int>,
    {
        let n = self.aggregators.len();
        let mut i: usize = 0;
        while i < n
            invariant
                n == self.aggregators@.len(),
                i <= n,
                forall|j: int| 0 <= j < i ==> (#[trigger] self.aggregators@[j]).id != *id,
            decreases n - i,
        {
            if self.aggregators[i].id == *id {
                proof {
                    lemma_find_aggregator_is(self@.aggregators, *id, i as int);
                }
                return Some(i);
            }
            i += 1;
        }
        proof {
            lemma_find_aggregator_absent(self@.aggregators, *id);
        }
        None
    }

    /// The position of the first snapshot instance carrying `id`, if any.
    fn find_snapshot_index(&self, id: &AggregatorID) -> (r: Option<usize>)
        ensures
            r matches Some(i) ==> spec_find_snapshot(self@.aggregator_snapshots, *id) == Some(
                i as int,
            ),
            r is None ==> spec_find_snapshot(self@.aggregator_snapshots, *id) == None::<int>,
    {
        let n = self.aggregator_snapshots.len();
        let mut i: usize = 0;
        while i < n
            invariant
                n == self.aggregator_snapshots@.len(),
                i <= n,
                forall|j: int|
                    0 <= j < i ==> (#[trigger] self@.aggregator_snapshots[j]).id != *id,
            decreases n - i,
        {
            proof {
                assert(self@.aggregator_snapshots[i as int] == self.aggregator_snapshots@[i as int]@);
            }
            if self.aggregator_snapshots[i].id == *id {
                proof {
                    lemma_find_snapshot_is(self@.aggregator_snapshots, *id, i as int);
                }
                return Some(i);
            }
            i += 1;
        }
        proof {
            lemma_find_snapshot_absent(self@.aggregator_snapshots, *id);
        }
        None
    }

    /// Hands out the aggregator instance under `id`, lazily creating a fresh
    /// fully-speculative instance with the bound `max_value` when this
    /// transaction has not touched `id` yet.
    pub fn get_aggregator(&mut self, id: AggregatorID, max_value: u128) -> (r: Result<
        &mut Aggregator,
        AggregatorError,
    >)
        ensures
            r is Ok,
            r matches Ok(agg) ==> ({
                let s0 = old(self)@.aggregators;
                let s1 = final(self)@.aggregators;
                let base = spec_registry_after_touch(s0, id, max_value);
                let i = spec_touched_index(s0, id);
                &&& *agg == base[i]
                &&& base[i].id == id
                &&& s1 == base.update(i, *final(agg))
            }),
            final(self)@.new_aggregators == old(self)@.new_aggregators,
            final(self)@.destroyed_aggregators == old(self)@.destroyed_aggregators,
            final(self)@.aggregator_snapshots == old(self)@.aggregator_snapshots,
            final(self)@.id_counter == old(self)@.id_counter,
    {
        proof {
            lemma_find_aggregator(self@.aggregators, id);
        }
        match self.find_aggregator_index(&id) {
            Some(i) => Ok(&mut self.aggregators[i]),
            None => {
                let fresh = Aggregator {
                    id,
                    max_value,
                    state: AggregatorState::Delta {
                        speculative_start_value: SpeculativeStartValue::Unset,
                        delta: SignedU128::Positive(0),
                        history: DeltaHistory::new(),
                    },
                };
                self.aggregators.push(fresh);
                let n = self.aggregators.len() - 1;
                Ok(&mut self.aggregators[n])
            },
        }
    }

    /// The number of aggregator instances this transaction touched.
    pub fn num_aggregators(&self) -> (r: u128)
        ensures
            r == self@.aggregators.len(),
    {
        self.aggregators.len() as u128
    }

    /// Creates the aggregator under `id` in `Data` state with value zero: a
    /// value created inside this transaction is authoritatively known from
    /// the start. The id is recorded as newly created.
    pub fn create_new_aggregator(&mut self, id: AggregatorID, max_value: u128)
        ensures
            ({
                let s0 = old(self)@.aggregators;
                let created = Aggregator { id, max_value, state: AggregatorState::Data { value: 0 } };
                match spec_find_aggregator(s0, id) {
                    Some(i) => final(self)@.aggregators == s0.update(i, created),
                    None => final(self)@.aggregators == s0.push(created),
                }
            }),
            final(self)@.new_aggregators == if spec_contains_id(old(self)@.new_aggregators, id) {
                old(self)@.new_aggregators
            } else {
                old(self)@.new_aggregators.push(id)
            },
            final(self)@.destroyed_aggregators == old(self)@.destroyed_aggregators,
            final(self)@.aggregator_snapshots == old(self)@.aggregator_snapshots,
            final(self)@.id_counter == old(self)@.id_counter,
            old(self)@.wf() ==> final(self)@.wf(),
    {
        proof {
            lemma_find_aggregator(self@.aggregators, id);
        }
        let created = Aggregator { id, max_value, state: AggregatorState::Data { value: 0 } };
        match self.find_aggregator_index(&id) {
            Some(i) => {
                let slot = &mut self.aggregators[i];
                *slot = created;
                proof {
                    if old(self)@.wf() {
                        lemma_unique_aggregator_update(
                            old(self)@.aggregators,
                            i as int,
                            self@.aggregators[i as int],
                        );
                    }
                }
            },
            None => {
                self.aggregators.push(created);
                proof {
                    if old(self)@.wf() {
                        lemma_unique_aggregator_push(
                            old(self)@.aggregators,
                            self@.aggregators.last(),
                        );
                    }
                }
            },
        }
        if !contains_id(&self.new_aggregators, &id) {
            self.new_aggregators.push(id);
            proof {
                if old(self)@.wf() {
                    lemma_unique_ids_push(old(self)@.new_aggregators, id);
                }
            }
        }
    }

    /// Removes the aggregator under `id` from this transaction. An id
    /// created in this same transaction disappears without a trace;
    /// removing any other id is an externally visible deletion, recorded in
    /// the destroyed set.
    pub fn remove_aggregator(&mut self, id: AggregatorID)
        ensures
            final(self)@.aggregators == match spec_find_aggregator(old(self)@.aggregators, id) {
                Some(i) => old(self)@.aggregators.remove(i),
                None => old(self)@.aggregators,
            },
            spec_contains_id(old(self)@.new_aggregators, id) ==> (exists|i: int|
                0 <= i < old(self)@.new_aggregators.len() && old(self)@.new_aggregators[i] == id
                    && (forall|j: int| 0 <= j < i ==> old(self)@.new_aggregators[j] != id)
                    && final(self)@.new_aggregators == old(self)@.new_aggregators.remove(i))
                && final(self)@.destroyed_aggregators == old(self)@.destroyed_aggregators,
            !spec_contains_id(old(self)@.new_aggregators, id) ==> final(self)@.new_aggregators
                == old(self)@.new_aggregators && final(self)@.destroyed_aggregators == if spec_contains_id(
                old(self)@.destroyed_aggregators,
                id,
            ) {
                old(self)@.destroyed_aggregators
            } else {
                old(self)@.destroyed_aggregators.push(id)
            },
            final(self)@.aggregator_snapshots == old(self)@.aggregator_snapshots,
            final(self)@.id_counter == old(self)@.id_counter,
            old(self)@.wf() ==> final(self)@.wf(),
    {
        proof {
            lemma_find_aggregator(self@.aggregators, id);
        }
        match self.find_aggregator_index(&id) {
            Some(i) => {
                self.aggregators.remove(i);
                proof {
                    if old(self)@.wf() {
                        lemma_unique_aggregator_remove(old(self)@.aggregators, i as int);
                    }
                }
            },
            None => {},
        }
        match find_id_index(&self.new_aggregators, &id) {
            Some(i) => {
                self.new_aggregators.remove(i);
                proof {
                    if old(self)@.wf() {
                        lemma_unique_ids_remove(old(self)@.new_aggregators, i as int);
                    }
                }
            },
            None => {
                if !contains_id(&self.destroyed_aggregators, &id) {
                    self.destroyed_aggregators.push(id);
                    proof {
                        if old(self)@.wf() {
                            lemma_unique_ids_push(old(self)@.destroyed_aggregators, id);
                        }
                    }
                }
            },
        }
    }

    /// Mints the next ephemeral id. The counter is monotonically
    /// increasing; the id space must not be exhausted.
    pub fn generate_id(&mut self) -> (r: u64)
        requires
            old(self)@.id_counter < u64::MAX,
        ensures
            final(self)@.id_counter == old(self)@.id_counter + 1,
            r == final(self)@.id_counter,
            final(self)@.new_aggregators == old(self)@.new_aggregators,
            final(self)@.destroyed_aggregators == old(self)@.destroyed_aggregators,
            final(self)@.aggregators == old(self)@.aggregators,
            final(self)@.aggregator_snapshots == old(self)@.aggregator_snapshots,
    {
        self.id_counter = self.id_counter + 1;
        self.id_counter
    }

    /// Stores `snap` under its id, replacing any snapshot already there.
    fn insert_snapshot(&mut self, snap: AggregatorSnapshot)
        ensures
            final(self)@.aggregator_snapshots == spec_snapshots_after_insert(
                old(self)@.aggregator_snapshots,
                snap@,
            ),
            final(self)@.new_aggregators == old(self)@.new_aggregators,
            final(self)@.destroyed_aggregators == old(self)@.destroyed_aggregators,
            final(self)@.aggregators == old(self)@.aggregators,
            final(self)@.id_counter == old(self)@.id_counter,
            old(self)@.wf() ==> final(self)@.wf(),
    {
        proof {
            lemma_find_snapshot(self@.aggregator_snapshots, snap.id);
        }
        let ghost s0 = self@.aggregator_snapshots;
        match self.find_snapshot_index(&snap.id) {
            Some(i) => {
                let ghost snap_v = snap@;
                let slot = &mut self.aggregator_snapshots[i];
                *slot = snap;
                proof {
                    assert(self@.aggregator_snapshots =~= s0.update(i as int, snap_v));
                    if old(self)@.wf() {
                        lemma_unique_snapshot_update(s0, i as int, snap_v);
                    }
                }
            },
            None => {
                let ghost snap_v = snap@;
                self.aggregator_snapshots.push(snap);
                proof {
                    assert(self@.aggregator_snapshots =~= s0.push(snap_v));
                    if old(self)@.wf() {
                        lemma_unique_snapshot_push(s0, snap_v);
                    }
                }
            },
        }
    }

    /// Captures the current value of the aggregator under `id` in a freshly
    /// minted snapshot: directly when the aggregator's value is known, as a
    /// deferred delta over the aggregator otherwise. Returns the new
    /// ephemeral id.
    pub fn snapshot(&mut self, id: &AggregatorID, max_value: u128) -> (r: Result<
        u64,
        AggregatorError,
    >)
        requires
            old(self)@.id_counter < u64::MAX,
        ensures
            ({
                let d0 = old(self)@;
                let new_id = (d0.id_counter + 1) as u64;
                let base = spec_registry_after_touch(d0.aggregators, *id, max_value);
                let i = spec_touched_index(d0.aggregators, *id);
                let snap_state = match base[i].state {
                    AggregatorState::Data { value } => AggregatorSnapshotStateV::Data {
                        value: SnapshotValueV::Integer(value),
                    },
                    AggregatorState::Delta { delta, .. } => AggregatorSnapshotStateV::Delta {
                        base_aggregator: *id,
                        delta,
                    },
                };
                &&& r == Ok::<u64, AggregatorError>(new_id)
                &&& final(self)@.id_counter == new_id
                &&& final(self)@.aggregators == base
                &&& final(self)@.aggregator_snapshots == spec_snapshots_after_insert(
                    d0.aggregator_snapshots,
                    AggregatorSnapshotV {
                        id: AggregatorID::Ephemeral(new_id),
                        state: snap_state,
                    },
                )
                &&& final(self)@.new_aggregators == d0.new_aggregators
                &&& final(self)@.destroyed_aggregators == d0.destroyed_aggregators
            }),
            old(self)@.wf() ==> final(self)@.wf(),
    {
        let new_id = self.generate_id();
        let snapshot_id = AggregatorID::ephemeral(new_id);
        let ghost base = spec_registry_after_touch(self@.aggregators, *id, max_value);
        let ghost i = spec_touched_index(self@.aggregators, *id);
        proof {
            lemma_find_aggregator(self@.aggregators, *id);
            assert(0 <= i < base.len());
            if old(self)@.wf() && spec_find_aggregator(self@.aggregators, *id) is None {
                lemma_unique_aggregator_push(
                    self@.aggregators,
                    spec_fresh_aggregator(*id, max_value),
                );
            }
        }
        let aggregator = match self.get_aggregator(*id, max_value) {
            Ok(agg) => agg,
            Err(e) => {
                return Err(e);
            },
        };
        let state = aggregator.state;
        proof {
            assert(self@.aggregators =~= base.update(i, base[i]));
            assert(self@.aggregators =~= base);
        }
        let snapshot_state = match state {
            AggregatorState::Data { value } => AggregatorSnapshotState::Data {
                value: SnapshotValue::Integer(value),
            },
            AggregatorState::Delta { delta, .. } => AggregatorSnapshotState::Delta {
                base_aggregator: *id,
                delta,
            },
        };
        self.insert_snapshot(AggregatorSnapshot { id: snapshot_id, state: snapshot_state });
        Ok(new_id)
    }

    /// Creates a snapshot under `id` holding an explicit value.
    pub fn create_new_snapshot(&mut self, id: AggregatorID, value: SnapshotValue)
        ensures
            final(self)@.aggregator_snapshots == spec_snapshots_after_insert(
                old(self)@.aggregator_snapshots,
                AggregatorSnapshotV {
                    id,
                    state: AggregatorSnapshotStateV::Data { value: value@ },
                },
            ),
            final(self)@.new_aggregators == old(self)@.new_aggregators,
            final(self)@.destroyed_aggregators == old(self)@.destroyed_aggregators,
            final(self)@.aggregators == old(self)@.aggregators,
            final(self)@.id_counter == old(self)@.id_counter,
            old(self)@.wf() ==> final(self)@.wf(),
    {
        self.insert_snapshot(
            AggregatorSnapshot { id, state: AggregatorSnapshotState::Data { value } },
        );
    }

    /// Mints a new snapshot whose value is the snapshot under `id`,
    /// sandwiched between `prefix` and `suffix` once it is finally read.
    /// Returns the new ephemeral id.
    pub fn string_concat(&mut self, id: AggregatorID, prefix: Vec<u8>, suffix: Vec<u8>) -> (r: u64)
        requires
            old(self)@.id_counter < u64::MAX,
        ensures
            ({
                let d0 = old(self)@;
                let new_id = (d0.id_counter + 1) as u64;
                &&& r == new_id
                &&& final(self)@.id_counter == new_id
                &&& final(self)@.aggregator_snapshots == spec_snapshots_after_insert(
                    d0.aggregator_snapshots,
                    AggregatorSnapshotV {
                        id: AggregatorID::Ephemeral(new_id),
                        state: AggregatorSnapshotStateV::Concat {
                            base_snapshot: id,
                            formula: DerivedFormulaV::Concat {
                                prefix: prefix@,
                                suffix: suffix@,
                            },
                        },
                    },
                )
                &&& final(self)@.aggregators == d0.aggregators
                &&& final(self)@.new_aggregators == d0.new_aggregators
                &&& final(self)@.destroyed_aggregators == d0.destroyed_aggregators
            }),
            old(self)@.wf() ==> final(self)@.wf(),
    {
        let new_id = self.generate_id();
        let snapshot_id = AggregatorID::ephemeral(new_id);
        let snapshot_state = AggregatorSnapshotState::Concat {
            base_snapshot: id,
            formula: DerivedFormula::Concat { prefix, suffix },
        };
        self.insert_snapshot(AggregatorSnapshot { id: snapshot_id, state: snapshot_state });
        new_id
    }

    /// Hands out the snapshot under `id`. A snapshot this transaction never
    /// touched is read from the resolver in aggregated mode and cached as a
    /// verbatim `Reference`, never to be revalidated.
    pub fn get_snapshot<R: AggregatorResolver>(&mut self, id: AggregatorID, resolver: &R) -> (r:
        Result<&AggregatorSnapshot, AggregatorError>)
        ensures
            ({
                let s0 = old(self)@.aggregator_snapshots;
                match spec_find_snapshot(s0, id) {
                    Some(i) => r matches Ok(snap) && snap@ == s0[i] && final(self)@ == old(self)@,
                    None => {
                        let read = resolver.spec_v2_value(id, AggregatorReadMode::Aggregated);
                        &&& (r matches Ok(snap) ==> {
                            &&& snap@.id == id
                            &&& (snap@.state matches AggregatorSnapshotStateV::Reference {
                                speculative_value,
                            } && read == Some(speculative_value))
                            &&& final(self)@.aggregator_snapshots == s0.push(snap@)
                        })
                        &&& (r is Err ==> r == Err::<&AggregatorSnapshot, AggregatorError>(
                            AggregatorError::ExtensionFailure,
                        ) && final(self)@ == old(self)@)
                        &&& (resolver.spec_reads_ok() ==> (r is Ok <==> read is Some))
                    },
                }
            }),
            final(self)@.new_aggregators == old(self)@.new_aggregators,
            final(self)@.destroyed_aggregators == old(self)@.destroyed_aggregators,
            final(self)@.aggregators == old(self)@.aggregators,
            final(self)@.id_counter == old(self)@.id_counter,
            old(self)@.wf() ==> final(self)@.wf(),
    {
        proof {
            lemma_find_snapshot(self@.aggregator_snapshots, id);
        }
        let ghost s0 = self@.aggregator_snapshots;
        match self.find_snapshot_index(&id) {
            Some(i) => Ok(&self.aggregator_snapshots[i]),
            None => {
                match resolver.get_aggregator_v2_value(&id, AggregatorReadMode::Aggregated) {
                    Ok(value_from_storage) => {
                        self.aggregator_snapshots.push(
                            AggregatorSnapshot {
                                id,
                                state: AggregatorSnapshotState::Reference {
                                    speculative_value: value_from_storage,
                                },
                            },
                        );
                        proof {
                            assert(self@.aggregator_snapshots =~= s0.push(
                                self.aggregator_snapshots@.last()@,
                            ));
                            if old(self)@.wf() {
                                lemma_unique_snapshot_push(
                                    s0,
                                    self.aggregator_snapshots@.last()@,
                                );
                            }
                        }
                        let n = self.aggregator_snapshots.len() - 1;
                        Ok(&self.aggregator_snapshots[n])
                    },
                    Err(_) => Err(extension_error()),
                }
            },
        }
    }

    /// Resolves the snapshot under `id` to a concrete value, walking
    /// `Concat` chains with `fuel` bounding the depth; a chain deeper than
    /// any acyclic chain of the registry can be is an invariant error.
    fn resolve_snapshot<R: AggregatorResolver>(
        &mut self,
        id: AggregatorID,
        resolver: &R,
        fuel: u128,
    ) -> (r: Result<SnapshotValue, AggregatorError>)
        ensures
            spec_snapshot_frame(old(self)@, final(self)@),
            old(self)@.wf() ==> final(self)@.wf(),
            resolver.spec_reads_ok() ==> ({
                let outcome = spec_read_snapshot(old(self)@, resolver, id, fuel as nat);
                &&& final(self)@ == outcome.0
                &&& (match (r, outcome.1) {
                    (Ok(v), Ok(v2)) => v@ == v2,
                    (Err(e), Err(e2)) => e == e2,
                    _ => false,
                })
            }),
        decreases fuel,
    {
        let ghost d0 = self@;
        proof {
            lemma_find_snapshot(d0.aggregator_snapshots, id);
        }
        let state_copy: AggregatorSnapshotState = match self.find_snapshot_index(&id) {
            Some(i) => self.aggregator_snapshots[i].state.duplicate(),
            None => {
                match resolver.get_aggregator_v2_value(&id, AggregatorReadMode::Aggregated) {
                    Ok(value_from_storage) => {
                        let returned = value_from_storage.duplicate();
                        self.aggregator_snapshots.push(
                            AggregatorSnapshot {
                                id,
                                state: AggregatorSnapshotState::Reference {
                                    speculative_value: value_from_storage,
                                },
                            },
                        );
                        proof {
                            assert(self@.aggregator_snapshots =~= d0.aggregator_snapshots.push(
                                self.aggregator_snapshots@.last()@,
                            ));
                            if d0.wf() {
                                lemma_unique_snapshot_push(
                                    d0.aggregator_snapshots,
                                    self.aggregator_snapshots@.last()@,
                                );
                            }
                        }
                        return Ok(returned);
                    },
                    Err(_) => {
                        return Err(extension_error());
                    },
                }
            },
        };
        match state_copy {
            AggregatorSnapshotState::Data { value } => Ok(value),
            AggregatorSnapshotState::Reference { speculative_value } => Ok(speculative_value),
            AggregatorSnapshotState::Delta { base_aggregator, delta } => {
                proof {
                    lemma_find_aggregator(self@.aggregators, base_aggregator);
                }
                match self.find_aggregator_index(&base_aggregator) {
                    Some(j) => {
                        let ghost aggs0 = self@.aggregators;
                        let max_value = self.aggregators[j].max_value;
                        let agg_ref = &mut self.aggregators[j];
                        let read = agg_ref.read_most_recent_aggregator_value(resolver);
                        proof {
                            lemma_read_most_recent_frame(
                                aggs0[j as int],
                                spec_storage_read(
                                    resolver,
                                    aggs0[j as int].id,
                                    AggregatorReadMode::Aggregated,
                                ),
                            );
                            if d0.wf() {
                                lemma_unique_aggregator_update(
                                    aggs0,
                                    j as int,
                                    self@.aggregators[j as int],
                                );
                            }
                        }
                        match read {
                            Ok(value) => {
                                let math = BoundedMath::new(max_value);
                                match expect_ok(math.unsigned_add_delta(value, &delta)) {
                                    Ok(result) => Ok(SnapshotValue::Integer(result)),
                                    Err(e) => Err(e),
                                }
                            },
                            Err(e) => Err(e),
                        }
                    },
                    None => {
                        match resolver.get_aggregator_v2_value(
                            &id,
                            AggregatorReadMode::Aggregated,
                        ) {
                            Ok(v) => Ok(v),
                            Err(_) => Err(extension_error()),
                        }
                    },
                }
            },
            AggregatorSnapshotState::Concat { base_snapshot, formula } => {
                if fuel == 0 {
                    return Err(code_invariant_error());
                }
                let ghost d_mid = self@;
                match self.resolve_snapshot(base_snapshot, resolver, fuel - 1) {
                    Ok(base) => Ok(formula.apply(&base)),
                    Err(e) => Err(e),
                }
            },
        }
    }

    /// Resolves the snapshot under `id` recursively: a `Data` or `Reference`
    /// snapshot yields its value, a `Delta` snapshot applies its delta to
    /// the base aggregator's most recent value — falling back to a direct
    /// resolver read when the aggregator is not tracked here — and a
    /// `Concat` snapshot derives from its base snapshot.
    pub fn read_snapshot<R: AggregatorResolver>(&mut self, id: AggregatorID, resolver: &R) -> (r:
        Result<SnapshotValue, AggregatorError>)
        ensures
            spec_snapshot_frame(old(self)@, final(self)@),
            old(self)@.wf() ==> final(self)@.wf(),
            resolver.spec_reads_ok() ==> ({
                let outcome = spec_read_snapshot(
                    old(self)@,
                    resolver,
                    id,
                    old(self)@.aggregator_snapshots.len() + 1,
                );
                &&& final(self)@ == outcome.0
                &&& (match (r, outcome.1) {
                    (Ok(v), Ok(v2)) => v@ == v2,
                    (Err(e), Err(e2)) => e == e2,
                    _ => false,
                })
            }),
    {
        let fuel: u128 = (self.aggregator_snapshots.len() as u128) + 1;
        self.resolve_snapshot(id, resolver, fuel)
    }

    /// Unpacks the registry into the created set, the destroyed set, the
    /// aggregator map and the snapshot map.
    pub fn into(self) -> (r: (Vec<AggregatorID>, Vec<AggregatorID>, Vec<Aggregator>, Vec<
        AggregatorSnapshot,
    >))
        ensures
            r.0@ == self@.new_aggregators,
            r.1@ == self@.destroyed_aggregators,
            r.2@ == self@.aggregators,
            r.3@.map_values(|s: AggregatorSnapshot| s@) == self@.aggregator_snapshots,
    {
        (self.new_aggregators, self.destroyed_aggregators, self.aggregators, self.aggregator_snapshots)
    }
}

impl Default for AggregatorData {
    /// A registry with nothing touched yet and the id counter at zero.
    fn default() -> (r: Self)
        ensures
            r@.new_aggregators == Seq::<AggregatorID>::empty(),
            r@.destroyed_aggregators == Seq::<AggregatorID>::empty(),
            r@.aggregators == Seq::<Aggregator>::empty(),
            r@.aggregator_snapshots == Seq::<AggregatorSnapshotV>::empty(),
            r@.id_counter == 0,
            r@.wf(),
    {
        AggregatorData::new(0)
    }
}

/// Whether the id set `v` holds `id`.
fn contains_id(v: &Vec<AggregatorID>, id: &AggregatorID) -> (r: bool)
    ensures
        r == spec_contains_id(v@, *id),
{
    let n = v.len();
    let mut i: usize = 0;
    while i < n
        invariant
            n == v@.len(),
            i <= n,
            forall|j: int| 0 <= j < i ==> v@[j] != *id,
        decreases n - i,
    {
        if v[i] == *id {
            return true;
        }
        i += 1;
    }
    false
}

/// The position of the first occurrence of `id` in the id set `v`, if any.
fn find_id_index(v: &Vec<AggregatorID>, id: &AggregatorID) -> (r: Option<usize>)
    ensures
        r matches Some(i) ==> i < v@.len() && v@[i as int] == *id && (forall|j: int|
            0 <= j < i ==> v@[j] != *id),
        r is None ==> !spec_contains_id(v@, *id),
{
    let n = v.len();
    let mut i: usize = 0;
    while i < n
        invariant
            n == v@.len(),
            i <= n,
            forall|j: int| 0 <= j < i ==> v@[j] != *id,
        decreases n - i,
    {
        if v[i] == *id {
            return Some(i);
        }
        i += 1;
    }
    None
}

} // verus!
