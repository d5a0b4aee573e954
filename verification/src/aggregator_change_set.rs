use vstd::prelude::*;

use crate::aggregator_extension::lemma_find_aggregator_absent;
use crate::aggregator_extension::lemma_find_aggregator_is;
use crate::aggregator_extension::lemma_find_snapshot_absent;
use crate::aggregator_extension::lemma_find_snapshot_is;
use crate::aggregator_extension::spec_contains_id;
use crate::aggregator_extension::spec_find_aggregator;
use crate::aggregator_extension::spec_find_snapshot;
use crate::aggregator_extension::AggregatorSnapshotV;
use crate::aggregator_extension::Aggregator;
use crate::aggregator_extension::AggregatorData;
use crate::aggregator_extension::AggregatorDataV;
use crate::aggregator_extension::AggregatorID;
use crate::aggregator_extension::AggregatorSnapshotState;
use crate::aggregator_extension::AggregatorSnapshotStateV;
use crate::aggregator_extension::AggregatorState;
use crate::aggregator_extension::DerivedFormula;
use crate::aggregator_extension::DerivedFormulaV;
use crate::aggregator_extension::SnapshotValue;
use crate::aggregator_extension::SnapshotValueV;
use crate::bounded_math::SignedU128;
use crate::delta_change_set::DeltaOp;
use crate::delta_math::DeltaHistory;

verus! {

/// The committed representation of one ephemeral aggregator or snapshot.
#[derive(Clone, Debug, PartialEq, Eq)]
pub enum AggregatorChange {
    /// An integer value to write.
    Data { value: u128 },
    /// A byte string to write.
    StringData { value: Vec<u8> },
    /// A delta to merge with the stored value, revalidatable through the
    /// history it carries.
    AggregatorDelta { delta: SignedU128, max_value: u128, history: DeltaHistory },
    /// A snapshot whose value is a base aggregator's value plus a delta.
    SnapshotDelta { delta: SignedU128, base_aggregator: AggregatorID },
    /// A snapshot whose value derives from a base snapshot by a formula.
    SnapshotConcat { base_snapshot: AggregatorID, formula: DerivedFormula },
}

/// The mathematical content of an `AggregatorChange`.
#[verifier::ext_equal]
pub enum AggregatorChangeV {
    Data { value: u128 },
    StringData { value: Seq<u8> },
    AggregatorDelta { delta: SignedU128, max_value: u128, history: DeltaHistory },
    SnapshotDelta { delta: SignedU128, base_aggregator: AggregatorID },
    SnapshotConcat { base_snapshot: AggregatorID, formula: DerivedFormulaV },
}

impl View for AggregatorChange {
    type V = AggregatorChangeV;

    open spec fn view(&self) -> AggregatorChangeV {
        match self {
            AggregatorChange::Data { value } => AggregatorChangeV::Data { value: *value },
            AggregatorChange::StringData { value } => AggregatorChangeV::StringData {
                value: value@,
            },
            AggregatorChange::AggregatorDelta { delta, max_value, history } =>
                AggregatorChangeV::AggregatorDelta {
                delta: *delta,
                max_value: *max_value,
                history: *history,
            },
            AggregatorChange::SnapshotDelta { delta, base_aggregator } =>
                AggregatorChangeV::SnapshotDelta {
                delta: *delta,
                base_aggregator: *base_aggregator,
            },
            AggregatorChange::SnapshotConcat { base_snapshot, formula } =>
                AggregatorChangeV::SnapshotConcat {
                base_snapshot: *base_snapshot,
                formula: formula@,
            },
        }
    }
}

/// The committed representation of one legacy aggregator.
#[derive(Clone, Copy, Debug, PartialEq, Eq)]
pub enum AggregatorChangeV1 {
    /// A value to write to storage.
    Write(u128),
    /// A delta to merge with the value in storage.
    Merge(DeltaOp),
    /// The value is deleted from storage.
    Delete,
}

/// The mathematical content of the ephemeral change map.
pub open spec fn spec_v2_view(v: Seq<(AggregatorID, AggregatorChange)>) -> Seq<
    (AggregatorID, AggregatorChangeV),
> {
    v.map_values(|p: (AggregatorID, AggregatorChange)| (p.0, p.1@))
}

/// The change stored under the first entry carrying `id`, if any.
pub open spec fn spec_v1_lookup(
    s: Seq<(AggregatorID, AggregatorChangeV1)>,
    id: AggregatorID,
) -> Option<AggregatorChangeV1>
    decreases s.len(),
{
    if s.len() == 0 {
        None
    } else if s[0].0 == id {
        Some(s[0].1)
    } else {
        spec_v1_lookup(s.drop_first(), id)
    }
}

/// The change stored under the first entry carrying `id`, if any.
pub open spec fn spec_v2_lookup(
    s: Seq<(AggregatorID, AggregatorChangeV)>,
    id: AggregatorID,
) -> Option<AggregatorChangeV>
    decreases s.len(),
{
    if s.len() == 0 {
        None
    } else if s[0].0 == id {
        Some(s[0].1)
    } else {
        spec_v2_lookup(s.drop_first(), id)
    }
}

/// What a legacy aggregator contributes: its value when known, otherwise
/// its delta paired with bound and history for commit-time merging.
pub open spec fn spec_aggregator_v1_change(agg: Aggregator) -> AggregatorChangeV1 {
    match agg.state {
        AggregatorState::Data { value } => AggregatorChangeV1::Write(value),
        AggregatorState::Delta { delta, history, .. } => AggregatorChangeV1::Merge(
            DeltaOp { delta, max_value: agg.max_value, history },
        ),
    }
}

/// What an ephemeral aggregator contributes: its value when known; nothing
/// at all when it was touched but never net-changed — a zero delta with an
/// empty history leaves no trace — and its delta otherwise.
pub open spec fn spec_aggregator_v2_change(agg: Aggregator) -> Option<AggregatorChangeV> {
    match agg.state {
        AggregatorState::Data { value } => Some(AggregatorChangeV::Data { value }),
        AggregatorState::Delta { delta, history, .. } => {
            if delta.spec_is_zero() && history.spec_is_empty() {
                None
            } else {
                Some(
                    AggregatorChangeV::AggregatorDelta {
                        delta,
                        max_value: agg.max_value,
                        history,
                    },
                )
            }
        },
    }
}

/// What a snapshot contributes: its data, its deferred delta or derivation;
/// a `Reference` is a pure external read and contributes nothing.
pub open spec fn spec_snapshot_change(state: AggregatorSnapshotStateV) -> Option<
    AggregatorChangeV,
> {
    match state {
        AggregatorSnapshotStateV::Data { value: SnapshotValueV::Integer(v) } => Some(
            AggregatorChangeV::Data { value: v },
        ),
        AggregatorSnapshotStateV::Data { value: SnapshotValueV::Bytes(b) } => Some(
            AggregatorChangeV::StringData { value: b },
        ),
        AggregatorSnapshotStateV::Delta { base_aggregator, delta } => Some(
            AggregatorChangeV::SnapshotDelta { delta, base_aggregator },
        ),
        AggregatorSnapshotStateV::Concat { base_snapshot, formula } => Some(
            AggregatorChangeV::SnapshotConcat { base_snapshot, formula },
        ),
        AggregatorSnapshotStateV::Reference { .. } => None,
    }
}

/// The legacy contribution of the aggregator map alone.
pub open spec fn spec_v1_from_aggregators(s: Seq<Aggregator>, id: AggregatorID) -> Option<
    AggregatorChangeV1,
> {
    match (id, spec_find_aggregator(s, id)) {
        (AggregatorID::Legacy(_), Some(i)) => Some(spec_aggregator_v1_change(s[i])),
        _ => None,
    }
}

/// The ephemeral contribution of the aggregator map alone.
pub open spec fn spec_v2_from_aggregators(s: Seq<Aggregator>, id: AggregatorID) -> Option<
    AggregatorChangeV,
> {
    match (id, spec_find_aggregator(s, id)) {
        (AggregatorID::Ephemeral(_), Some(i)) => spec_aggregator_v2_change(s[i]),
        _ => None,
    }
}

/// The legacy change the registry materializes for `id`: deletion always
/// wins; otherwise whatever a legacy aggregator instance contributes.
pub open spec fn spec_v1_change_for(data: AggregatorDataV, id: AggregatorID) -> Option<
    AggregatorChangeV1,
> {
    if spec_contains_id(data.destroyed_aggregators, id) {
        Some(AggregatorChangeV1::Delete)
    } else {
        spec_v1_from_aggregators(data.aggregators, id)
    }
}

/// The ephemeral contribution of the snapshot map alone.
pub open spec fn spec_v2_from_snapshots(s: Seq<AggregatorSnapshotV>, id: AggregatorID) -> Option<
    AggregatorChangeV,
> {
    match spec_find_snapshot(s, id) {
        Some(i) => spec_snapshot_change(s[i].state),
        None => None,
    }
}

/// The ephemeral change the registry materializes for `id`: a snapshot's
/// contribution wins over an aggregator's; a contribution-free snapshot (a
/// `Reference`) leaves the aggregator's contribution standing.
pub open spec fn spec_v2_change_for(data: AggregatorDataV, id: AggregatorID) -> Option<
    AggregatorChangeV,
> {
    match spec_v2_from_snapshots(data.aggregator_snapshots, id) {
        Some(c) => Some(c),
        None => spec_v2_from_aggregators(data.aggregators, id),
    }
}

/// All changes a transaction's registry materializes into, as two maps: one
/// over legacy aggregators, one over ephemeral aggregators and snapshots.
pub struct AggregatorChangeSet {
    pub aggregator_v1_changes: Vec<(AggregatorID, AggregatorChangeV1)>,
    pub aggregator_v2_changes: Vec<(AggregatorID, AggregatorChange)>,
}

/// The mathematical content of an `AggregatorChangeSet`.
#[verifier::ext_equal]
pub struct AggregatorChangeSetV {
    pub aggregator_v1_changes: Seq<(AggregatorID, AggregatorChangeV1)>,
    pub aggregator_v2_changes: Seq<(AggregatorID, AggregatorChangeV)>,
}

impl View for AggregatorChangeSet {
    type V = AggregatorChangeSetV;

    open spec fn view(&self) -> AggregatorChangeSetV {
        AggregatorChangeSetV {
            aggregator_v1_changes: self.aggregator_v1_changes@,
            aggregator_v2_changes: self.aggregator_v2_changes@.map_values(
                |p: (AggregatorID, AggregatorChange)| (p.0, p.1@),
            ),
        }
    }
}

impl AggregatorChangeSet {
    /// The legacy change recorded for `id`, if any.
    pub fn get_v1_change(&self, id: &AggregatorID) -> (r: Option<AggregatorChangeV1>)
        ensures
            r == spec_v1_lookup(self@.aggregator_v1_changes, *id),
    {
        let n = self.aggregator_v1_changes.len();
        let mut i: usize = 0;
        while i < n
            invariant
                n == self.aggregator_v1_changes@.len(),
                i <= n,
                forall|j: int| 0 <= j < i ==> (#[trigger] self.aggregator_v1_changes@[j]).0 != *id,
            decreases n - i,
        {
            if self.aggregator_v1_changes[i].0 == *id {
                proof {
                    lemma_v1_lookup_first(self@.aggregator_v1_changes, *id, i as int);
                }
                return Some(self.aggregator_v1_changes[i].1);
            }
            i += 1;
        }
        proof {
            lemma_v1_lookup_absent(self@.aggregator_v1_changes, *id);
        }
        None
    }

    /// Whether a legacy change is recorded for `id`.
    pub fn contains_v1_change(&self, id: &AggregatorID) -> (r: bool)
        ensures
            r == (spec_v1_lookup(self@.aggregator_v1_changes, *id) is Some),
    {
        self.get_v1_change(id).is_some()
    }

    /// The ephemeral change recorded for `id`, if any.
    pub fn get_v2_change(&self, id: &AggregatorID) -> (r: Option<&AggregatorChange>)
        ensures
            r matches Some(c) ==> spec_v2_lookup(self@.aggregator_v2_changes, *id) == Some(c@),
            r is None ==> spec_v2_lookup(self@.aggregator_v2_changes, *id) is None,
    {
        let n = self.aggregator_v2_changes.len();
        let mut i: usize = 0;
        while i < n
            invariant
                n == self.aggregator_v2_changes@.len(),
                i <= n,
                forall|j: int| 0 <= j < i ==> (#[trigger] self@.aggregator_v2_changes[j]).0 != *id,
            decreases n - i,
        {
            proof {
                assert(self@.aggregator_v2_changes[i as int].0 == self.aggregator_v2_changes@[
                    i as int].0);
            }
            if self.aggregator_v2_changes[i].0 == *id {
                proof {
                    lemma_v2_lookup_first(self@.aggregator_v2_changes, *id, i as int);
                }
                return Some(&self.aggregator_v2_changes[i].1);
            }
            i += 1;
        }
        proof {
            lemma_v2_lookup_absent(self@.aggregator_v2_changes, *id);
        }
        None
    }

    /// Whether an ephemeral change is recorded for `id`.
    pub fn contains_v2_change(&self, id: &AggregatorID) -> (r: bool)
        ensures
            r == (spec_v2_lookup(self@.aggregator_v2_changes, *id) is Some),
    {
        self.get_v2_change(id).is_some()
    }
}

proof fn lemma_v1_lookup_first(
    s: Seq<(AggregatorID, AggregatorChangeV1)>,
    id: AggregatorID,
    i: int,
)
    requires
        0 <= i < s.len(),
        s[i].0 == id,
        forall|j: int| 0 <= j < i ==> (#[trigger] s[j]).0 != id,
    ensures
        spec_v1_lookup(s, id) == Some(s[i].1),
    decreases i,
{
    if i > 0 {
        lemma_v1_lookup_first(s.drop_first(), id, i - 1);
    }
}

proof fn lemma_v1_lookup_absent(s: Seq<(AggregatorID, AggregatorChangeV1)>, id: AggregatorID)
    requires
        forall|j: int| 0 <= j < s.len() ==> (#[trigger] s[j]).0 != id,
    ensures
        spec_v1_lookup(s, id) == None::<AggregatorChangeV1>,
    decreases s.len(),
{
    if s.len() > 0 {
        lemma_v1_lookup_absent(s.drop_first(), id);
    }
}

proof fn lemma_v2_lookup_first(s: Seq<(AggregatorID, AggregatorChangeV)>, id: AggregatorID, i: int)
    requires
        0 <= i < s.len(),
        s[i].0 == id,
        forall|j: int| 0 <= j < i ==> (#[trigger] s[j]).0 != id,
    ensures
        spec_v2_lookup(s, id) == Some(s[i].1),
    decreases i,
{
    if i > 0 {
        lemma_v2_lookup_first(s.drop_first(), id, i - 1);
    }
}

proof fn lemma_v2_lookup_absent(s: Seq<(AggregatorID, AggregatorChangeV)>, id: AggregatorID)
    requires
        forall|j: int| 0 <= j < s.len() ==> (#[trigger] s[j]).0 != id,
    ensures
        spec_v2_lookup(s, id) == None::<AggregatorChangeV>,
    decreases s.len(),
{
    if s.len() > 0 {
        lemma_v2_lookup_absent(s.drop_first(), id);
    }
}

proof fn lemma_v1_lookup_push(
    s: Seq<(AggregatorID, AggregatorChangeV1)>,
    p: (AggregatorID, AggregatorChangeV1),
    q: AggregatorID,
)
    ensures
        spec_v1_lookup(s.push(p), q) == match spec_v1_lookup(s, q) {
            Some(c) => Some(c),
            None => if p.0 == q {
                Some(p.1)
            } else {
                None
            },
        },
    decreases s.len(),
{
    let s2 = s.push(p);
    if s.len() == 0 {
        assert(s2[0] == p);
        if p.0 == q {
            assert(spec_v1_lookup(s2, q) == Some(p.1));
        } else {
            assert(s2.drop_first() =~= Seq::<(AggregatorID, AggregatorChangeV1)>::empty());
            assert(spec_v1_lookup(s2, q) == None::<AggregatorChangeV1>);
        }
    } else {
        assert(s2.len() == s.len() + 1);
        assert(s2[0] == s[0]);
        assert(s2.drop_first() =~= s.drop_first().push(p));
        lemma_v1_lookup_push(s.drop_first(), p, q);
        if s[0].0 == q {
            assert(spec_v1_lookup(s2, q) == Some(s[0].1));
            assert(spec_v1_lookup(s, q) == Some(s[0].1));
        } else {
            assert(spec_v1_lookup(s2, q) == spec_v1_lookup(s2.drop_first(), q));
            assert(spec_v1_lookup(s, q) == spec_v1_lookup(s.drop_first(), q));
        }
    }
}

proof fn lemma_v2_lookup_push(
    s: Seq<(AggregatorID, AggregatorChangeV)>,
    p: (AggregatorID, AggregatorChangeV),
    q: AggregatorID,
)
    ensures
        spec_v2_lookup(s.push(p), q) == match spec_v2_lookup(s, q) {
            Some(c) => Some(c),
            None => if p.0 == q {
                Some(p.1)
            } else {
                None
            },
        },
    decreases s.len(),
{
    let s2 = s.push(p);
    if s.len() == 0 {
        assert(s2[0] == p);
        if p.0 == q {
            assert(spec_v2_lookup(s2, q) == Some(p.1));
        } else {
            assert(s2.drop_first() =~= Seq::<(AggregatorID, AggregatorChangeV)>::empty());
            assert(spec_v2_lookup(s2, q) == None::<AggregatorChangeV>);
        }
    } else {
        assert(s2.len() == s.len() + 1);
        assert(s2[0] == s[0]);
        assert(s2.drop_first() =~= s.drop_first().push(p));
        lemma_v2_lookup_push(s.drop_first(), p, q);
        if s[0].0 == q {
            assert(spec_v2_lookup(s2, q) == Some(s[0].1));
            assert(spec_v2_lookup(s, q) == Some(s[0].1));
        } else {
            assert(spec_v2_lookup(s2, q) == spec_v2_lookup(s2.drop_first(), q));
            assert(spec_v2_lookup(s, q) == spec_v2_lookup(s.drop_first(), q));
        }
    }
}

proof fn lemma_v1_lookup_update(
    s: Seq<(AggregatorID, AggregatorChangeV1)>,
    i: int,
    p: (AggregatorID, AggregatorChangeV1),
    q: AggregatorID,
)
    requires
        0 <= i < s.len(),
        s[i].0 == p.0,
        forall|j: int| 0 <= j < i ==> (#[trigger] s[j]).0 != p.0,
    ensures
        spec_v1_lookup(s.update(i, p), q) == if q == p.0 {
            Some(p.1)
        } else {
            spec_v1_lookup(s, q)
        },
    decreases i,
{
    let s2 = s.update(i, p);
    if i == 0 {
        if q != p.0 {
            assert(s2.drop_first() =~= s.drop_first());
        }
    } else {
        assert(s2[0] == s[0]);
        if s[0].0 != q {
            assert(s.update(i, p).drop_first() =~= s.drop_first().update(i - 1, p));
            lemma_v1_lookup_update(s.drop_first(), i - 1, p, q);
        }
    }
}

/// The position of the first legacy entry carrying `id`, if any.
fn find_v1_index(v: &Vec<(AggregatorID, AggregatorChangeV1)>, id: &AggregatorID) -> (r: Option<
    usize,
>)
    ensures
        r matches Some(k) ==> k < v@.len() && v@[k as int].0 == *id && (forall|j: int|
            0 <= j < k ==> (#[trigger] v@[j]).0 != *id),
        r is None ==> forall|j: int| 0 <= j < v@.len() ==> (#[trigger] v@[j]).0 != *id,
{
    let n = v.len();
    let mut i: usize = 0;
    while i < n
        invariant
            n == v@.len(),
            i <= n,
            forall|j: int| 0 <= j < i ==> (#[trigger] v@[j]).0 != *id,
        decreases n - i,
    {
        if v[i].0 == *id {
            return Some(i);
        }
        i += 1;
    }
    None
}

/// Stores `change` under `id` in the legacy map, replacing any change
/// already there.
fn insert_v1_change(
    v: &mut Vec<(AggregatorID, AggregatorChangeV1)>,
    id: AggregatorID,
    change: AggregatorChangeV1,
)
    ensures
        forall|q: AggregatorID| #[trigger]
            spec_v1_lookup(final(v)@, q) == if q == id {
                Some(change)
            } else {
                spec_v1_lookup(old(v)@, q)
            },
{
    let ghost s0 = v@;
    match find_v1_index(v, &id) {
        Some(k) => {
            let slot = &mut v[k];
            *slot = (id, change);
            proof {
                assert(v@ =~= s0.update(k as int, (id, change)));
                assert forall|q: AggregatorID| #[trigger]
                    spec_v1_lookup(v@, q) == if q == id {
                        Some(change)
                    } else {
                        spec_v1_lookup(s0, q)
                    } by {
                    lemma_v1_lookup_update(s0, k as int, (id, change), q);
                }
            }
        },
        None => {
            v.push((id, change));
            proof {
                assert forall|q: AggregatorID| #[trigger]
                    spec_v1_lookup(v@, q) == if q == id {
                        Some(change)
                    } else {
                        spec_v1_lookup(s0, q)
                    } by {
                    lemma_v1_lookup_push(s0, (id, change), q);
                    lemma_v1_lookup_absent(s0, id);
                }
            }
        },
    }
}

proof fn lemma_v2_lookup_update(
    s: Seq<(AggregatorID, AggregatorChangeV)>,
    i: int,
    p: (AggregatorID, AggregatorChangeV),
    q: AggregatorID,
)
    requires
        0 <= i < s.len(),
        s[i].0 == p.0,
        forall|j: int| 0 <= j < i ==> (#[trigger] s[j]).0 != p.0,
    ensures
        spec_v2_lookup(s.update(i, p), q) == if q == p.0 {
            Some(p.1)
        } else {
            spec_v2_lookup(s, q)
        },
    decreases i,
{
    let s2 = s.update(i, p);
    if i == 0 {
        if q != p.0 {
            assert(s2.drop_first() =~= s.drop_first());
        }
    } else {
        assert(s2[0] == s[0]);
        if s[0].0 != q {
            assert(s.update(i, p).drop_first() =~= s.drop_first().update(i - 1, p));
            lemma_v2_lookup_update(s.drop_first(), i - 1, p, q);
        }
    }
}

/// The position of the first ephemeral entry carrying `id`, if any.
fn find_v2_index(v: &Vec<(AggregatorID, AggregatorChange)>, id: &AggregatorID) -> (r: Option<
    usize,
>)
    ensures
        r matches Some(k) ==> k < v@.len() && v@[k as int].0 == *id && (forall|j: int|
            0 <= j < k ==> (#[trigger] v@[j]).0 != *id),
        r is None ==> forall|j: int| 0 <= j < v@.len() ==> (#[trigger] v@[j]).0 != *id,
{
    let n = v.len();
    let mut i: usize = 0;
    while i < n
        invariant
            n == v@.len(),
            i <= n,
            forall|j: int| 0 <= j < i ==> (#[trigger] v@[j]).0 != *id,
        decreases n - i,
    {
        if v[i].0 == *id {
            return Some(i);
        }
        i += 1;
    }
    None
}

/// Stores `change` under `id` in the ephemeral map, replacing any change
/// already there.
fn insert_v2_change(
    v: &mut Vec<(AggregatorID, AggregatorChange)>,
    id: AggregatorID,
    change: AggregatorChange,
)
    ensures
        ({
            let m0 = spec_v2_view(old(v)@);
            let m1 = spec_v2_view(final(v)@);
            forall|q: AggregatorID| #[trigger]
                spec_v2_lookup(m1, q) == if q == id {
                    Some(change@)
                } else {
                    spec_v2_lookup(m0, q)
                }
        }),
{
    let ghost m0 = spec_v2_view(v@);
    let ghost pv = (id, change@);
    match find_v2_index(v, &id) {
        Some(k) => {
            proof {
                assert(m0[k as int].0 == v@[k as int].0);
                assert(forall|j: int| 0 <= j < k ==> (#[trigger] m0[j]).0 == v@[j].0);
            }
            let slot = &mut v[k];
            *slot = (id, change);
            proof {
                let m1 = spec_v2_view(v@);
                assert(m1 =~= m0.update(k as int, pv));
                assert forall|q: AggregatorID| #[trigger]
                    spec_v2_lookup(m1, q) == if q == id {
                        Some(change@)
                    } else {
                        spec_v2_lookup(m0, q)
                    } by {
                    lemma_v2_lookup_update(m0, k as int, pv, q);
                }
            }
        },
        None => {
            proof {
                assert(forall|j: int|
                    0 <= j < m0.len() ==> (#[trigger] m0[j]).0 == v@[j].0);
            }
            v.push((id, change));
            proof {
                let m1 = spec_v2_view(v@);
                assert(m1 =~= m0.push(pv));
                assert forall|q: AggregatorID| #[trigger]
                    spec_v2_lookup(m1, q) == if q == id {
                        Some(change@)
                    } else {
                        spec_v2_lookup(m0, q)
                    } by {
                    lemma_v2_lookup_push(m0, pv, q);
                    lemma_v2_lookup_absent(m0, id);
                }
            }
        },
    }
}

/// Appending an aggregator whose id is fresh changes only that id's
/// contribution.
proof fn lemma_from_aggregators_push(s: Seq<Aggregator>, a: Aggregator, q: AggregatorID)
    requires
        forall|j: int| 0 <= j < s.len() ==> (#[trigger] s[j]).id != a.id,
    ensures
        spec_v1_from_aggregators(s.push(a), q) == if q == a.id {
            match q {
                AggregatorID::Legacy(_) => Some(spec_aggregator_v1_change(a)),
                AggregatorID::Ephemeral(_) => None,
            }
        } else {
            spec_v1_from_aggregators(s, q)
        },
        spec_v2_from_aggregators(s.push(a), q) == if q == a.id {
            match q {
                AggregatorID::Ephemeral(_) => spec_aggregator_v2_change(a),
                AggregatorID::Legacy(_) => None,
            }
        } else {
            spec_v2_from_aggregators(s, q)
        },
{
    let s2 = s.push(a);
    assert(forall|j: int| 0 <= j < s.len() ==> #[trigger] s2[j] == s[j]);
    assert(s2[s.len() as int] == a);
    if q == a.id {
        lemma_find_aggregator_is(s2, q, s.len() as int);
    } else {
        crate::aggregator_extension::lemma_find_aggregator(s, q);
        match spec_find_aggregator(s, q) {
            Some(i) => {
                lemma_find_aggregator_is(s2, q, i);
            },
            None => {
                lemma_find_aggregator_absent(s2, q);
            },
        }
    }
}

/// Appending a snapshot whose id is fresh changes only that id's
/// contribution.
proof fn lemma_from_snapshots_push(
    s: Seq<AggregatorSnapshotV>,
    snap: AggregatorSnapshotV,
    q: AggregatorID,
)
    requires
        forall|j: int| 0 <= j < s.len() ==> (#[trigger] s[j]).id != snap.id,
    ensures
        spec_v2_from_snapshots(s.push(snap), q) == if q == snap.id {
            spec_snapshot_change(snap.state)
        } else {
            spec_v2_from_snapshots(s, q)
        },
{
    let s2 = s.push(snap);
    assert(forall|j: int| 0 <= j < s.len() ==> #[trigger] s2[j] == s[j]);
    assert(s2[s.len() as int] == snap);
    if q == snap.id {
        lemma_find_snapshot_is(s2, q, s.len() as int);
    } else {
        crate::aggregator_extension::lemma_find_snapshot(s, q);
        match spec_find_snapshot(s, q) {
            Some(i) => {
                lemma_find_snapshot_is(s2, q, i);
            },
            None => {
                lemma_find_snapshot_absent(s2, q);
            },
        }
    }
}

/// Appending an id to a set reaches exactly the old contents plus that id.
proof fn lemma_contains_push(s: Seq<AggregatorID>, a: AggregatorID, q: AggregatorID)
    ensures
        spec_contains_id(s.push(a), q) == (spec_contains_id(s, q) || a == q),
{
    let s2 = s.push(a);
    if spec_contains_id(s, q) {
        let i = choose|i: int| 0 <= i < s.len() && s[i] == q;
        assert(s2[i] == q);
    }
    if a == q {
        assert(s2[s.len() as int] == q);
    }
    if spec_contains_id(s2, q) && a != q {
        let i = choose|i: int| 0 <= i < s2.len() && s2[i] == q;
        if i < s.len() {
            assert(s[i] == q);
        } else {
            assert(s2[i] == a);
        }
    }
}

/// Materialization of no-ops: an ephemeral aggregator that was touched but
/// whose net delta is zero and whose history is empty — only balanced,
/// successful operations ever ran on it — contributes no entry to the
/// change set, so it can never cause a spurious write conflict.
pub proof fn lemma_noop_ephemeral_leaves_no_change(data: AggregatorDataV, id: AggregatorID)
    requires
        id matches AggregatorID::Ephemeral(_),
        spec_find_snapshot(data.aggregator_snapshots, id) is None,
        !spec_contains_id(data.destroyed_aggregators, id),
        ({
            match spec_find_aggregator(data.aggregators, id) {
                Some(i) => data.aggregators[i].state matches AggregatorState::Delta {
                    delta,
                    history,
                    ..
                } && delta.spec_is_zero() && history.spec_is_empty(),
                None => true,
            }
        }),
    ensures
        spec_v1_change_for(data, id) == None::<AggregatorChangeV1>,
        spec_v2_change_for(data, id) == None::<AggregatorChangeV>,
{
}

/// Removal semantics, first half: an id that was created and removed within
/// the same transaction is afterwards tracked nowhere — not among the
/// aggregators, not in the destroyed set, not as a snapshot — and such an
/// id produces no entry in either change map.
pub proof fn lemma_removed_after_create_leaves_no_change(
    data: AggregatorDataV,
    id: AggregatorID,
)
    requires
        spec_find_aggregator(data.aggregators, id) is None,
        spec_find_snapshot(data.aggregator_snapshots, id) is None,
        !spec_contains_id(data.destroyed_aggregators, id),
    ensures
        spec_v1_change_for(data, id) == None::<AggregatorChangeV1>,
        spec_v2_change_for(data, id) == None::<AggregatorChangeV>,
{
}

/// Removal semantics, second half: an id removed without having been
/// created in this transaction sits in the destroyed set, and every id in
/// the destroyed set materializes as a deletion, whatever else the registry
/// holds for it.
pub proof fn lemma_destroyed_materializes_as_delete(data: AggregatorDataV, id: AggregatorID)
    requires
        spec_contains_id(data.destroyed_aggregators, id),
    ensures
        spec_v1_change_for(data, id) == Some(AggregatorChangeV1::Delete),
{
}

impl AggregatorData {
    /// Materializes this registry into the change set the surrounding
    /// commit layer applies: writes, merges and deletions for the legacy
    /// aggregators — deletion always winning — and data, delta and snapshot
    /// changes for ephemeral ids, where a snapshot's contribution wins. An
    /// ephemeral aggregator that was touched but never net-changed, and a
    /// snapshot that is a mere `Reference` read, leave no entry at all.
    pub fn into_change_set(self) -> (r: AggregatorChangeSet)
        requires
            self@.wf(),
        ensures
            forall|id: AggregatorID| #[trigger]
                spec_v1_lookup(r@.aggregator_v1_changes, id) == spec_v1_change_for(self@, id),
            forall|id: AggregatorID| #[trigger]
                spec_v2_lookup(r@.aggregator_v2_changes, id) == spec_v2_change_for(self@, id),
    {
        let ghost d0 = self@;
        let mut v1: Vec<(AggregatorID, AggregatorChangeV1)> = Vec::new();
        let mut v2: Vec<(AggregatorID, AggregatorChange)> = Vec::new();
        proof {
            assert(d0.aggregators.take(0) =~= Seq::<Aggregator>::empty());
        }
        let n_a = self.aggregators.len();
        let mut k: usize = 0;
        while k < n_a
            invariant
                n_a == self.aggregators@.len(),
                k <= n_a,
                d0 == self@,
                d0.wf(),
                forall|q: AggregatorID| #[trigger]
                    spec_v1_lookup(v1@, q) == spec_v1_from_aggregators(
                        d0.aggregators.take(k as int),
                        q,
                    ),
                forall|q: AggregatorID| #[trigger]
                    spec_v2_lookup(spec_v2_view(v2@), q) == spec_v2_from_aggregators(d0.aggregators.take(k as int), q),
            decreases n_a - k,
        {
            let a = self.aggregators[k];
            let ghost pre_take = d0.aggregators.take(k as int);
            proof {
                assert(d0.aggregators.take(k as int + 1) =~= pre_take.push(a));
                assert forall|j: int| 0 <= j < pre_take.len() implies (#[trigger] pre_take[j]).id
                    != a.id by {
                    assert(pre_take[j] == d0.aggregators[j]);
                    assert(d0.aggregators[k as int] == a);
                }
                lemma_find_aggregator_absent(pre_take, a.id);
            }
            match a.id {
                AggregatorID::Legacy(_) => {
                    let change = match a.state {
                        AggregatorState::Data { value } => AggregatorChangeV1::Write(value),
                        AggregatorState::Delta { delta, history, .. } => AggregatorChangeV1::Merge(
                            DeltaOp::new(delta, a.max_value, history),
                        ),
                    };
                    insert_v1_change(&mut v1, a.id, change);
                },
                AggregatorID::Ephemeral(_) => {
                    let change: Option<AggregatorChange> = match a.state {
                        AggregatorState::Data { value } => Some(AggregatorChange::Data { value }),
                        AggregatorState::Delta { delta, history, .. } => {
                            if delta.is_zero() && history.is_empty() {
                                None
                            } else {
                                Some(
                                    AggregatorChange::AggregatorDelta {
                                        delta,
                                        max_value: a.max_value,
                                        history,
                                    },
                                )
                            }
                        },
                    };
                    match change {
                        Some(c) => {
                            insert_v2_change(&mut v2, a.id, c);
                        },
                        None => {},
                    }
                },
            }
            proof {
                assert forall|q: AggregatorID| #[trigger]
                    spec_v1_lookup(v1@, q) == spec_v1_from_aggregators(
                        d0.aggregators.take(k as int + 1),
                        q,
                    ) by {
                    lemma_from_aggregators_push(pre_take, a, q);
                }
                assert forall|q: AggregatorID| #[trigger]
                    spec_v2_lookup(spec_v2_view(v2@), q) == spec_v2_from_aggregators(d0.aggregators.take(k as int + 1), q) by {
                    lemma_from_aggregators_push(pre_take, a, q);
                }
            }
            k += 1;
        }
        proof {
            assert(d0.aggregators.take(n_a as int) =~= d0.aggregators);
            assert(d0.aggregator_snapshots.take(0) =~= Seq::<AggregatorSnapshotV>::empty());
        }
        let n_s = self.aggregator_snapshots.len();
        let mut m: usize = 0;
        while m < n_s
            invariant
                n_s == self.aggregator_snapshots@.len(),
                m <= n_s,
                d0 == self@,
                d0.wf(),
                forall|q: AggregatorID| #[trigger]
                    spec_v1_lookup(v1@, q) == spec_v1_from_aggregators(d0.aggregators, q),
                forall|q: AggregatorID| #[trigger]
                    spec_v2_lookup(spec_v2_view(v2@), q) == match spec_v2_from_snapshots(
                        d0.aggregator_snapshots.take(m as int),
                        q,
                    ) {
                        Some(c) => Some(c),
                        None => spec_v2_from_aggregators(d0.aggregators, q),
                    },
            decreases n_s - m,
        {
            let s_id = self.aggregator_snapshots[m].id;
            let st = self.aggregator_snapshots[m].state.duplicate();
            let ghost snap_v = d0.aggregator_snapshots[m as int];
            let ghost pre_take = d0.aggregator_snapshots.take(m as int);
            proof {
                assert(snap_v == self.aggregator_snapshots@[m as int]@);
                assert(d0.aggregator_snapshots.take(m as int + 1) =~= pre_take.push(snap_v));
                assert forall|j: int| 0 <= j < pre_take.len() implies (#[trigger] pre_take[j]).id
                    != snap_v.id by {
                    assert(pre_take[j] == d0.aggregator_snapshots[j]);
                }
                lemma_find_snapshot_absent(pre_take, snap_v.id);
            }
            let change: Option<AggregatorChange> = match st {
                AggregatorSnapshotState::Data { value } => match value {
                    SnapshotValue::Integer(v) => Some(AggregatorChange::Data { value: v }),
                    SnapshotValue::String(b) => Some(AggregatorChange::StringData { value: b }),
                },
                AggregatorSnapshotState::Delta { base_aggregator, delta } => Some(
                    AggregatorChange::SnapshotDelta { delta, base_aggregator },
                ),
                AggregatorSnapshotState::Concat { base_snapshot, formula } => Some(
                    AggregatorChange::SnapshotConcat { base_snapshot, formula },
                ),
                AggregatorSnapshotState::Reference { .. } => None,
            };
            match change {
                Some(c) => {
                    insert_v2_change(&mut v2, s_id, c);
                },
                None => {},
            }
            proof {
                assert forall|q: AggregatorID| #[trigger]
                    spec_v2_lookup(spec_v2_view(v2@), q) == match spec_v2_from_snapshots(
                        d0.aggregator_snapshots.take(m as int + 1),
                        q,
                    ) {
                        Some(c) => Some(c),
                        None => spec_v2_from_aggregators(d0.aggregators, q),
                    } by {
                    lemma_from_snapshots_push(pre_take, snap_v, q);
                }
            }
            m += 1;
        }
        proof {
            assert(d0.aggregator_snapshots.take(n_s as int) =~= d0.aggregator_snapshots);
            assert(d0.destroyed_aggregators.take(0) =~= Seq::<AggregatorID>::empty());
            assert forall|q: AggregatorID|
                !spec_contains_id(Seq::<AggregatorID>::empty(), q) by {}
        }
        let n_d = self.destroyed_aggregators.len();
        let mut t: usize = 0;
        while t < n_d
            invariant
                n_d == self.destroyed_aggregators@.len(),
                t <= n_d,
                d0 == self@,
                forall|q: AggregatorID| #[trigger]
                    spec_v1_lookup(v1@, q) == if spec_contains_id(
                        d0.destroyed_aggregators.take(t as int),
                        q,
                    ) {
                        Some(AggregatorChangeV1::Delete)
                    } else {
                        spec_v1_from_aggregators(d0.aggregators, q)
                    },
            decreases n_d - t,
        {
            let dest = self.destroyed_aggregators[t];
            let ghost pre_take = d0.destroyed_aggregators.take(t as int);
            proof {
                assert(d0.destroyed_aggregators.take(t as int + 1) =~= pre_take.push(dest));
            }
            insert_v1_change(&mut v1, dest, AggregatorChangeV1::Delete);
            proof {
                assert forall|q: AggregatorID| #[trigger]
                    spec_v1_lookup(v1@, q) == if spec_contains_id(
                        d0.destroyed_aggregators.take(t as int + 1),
                        q,
                    ) {
                        Some(AggregatorChangeV1::Delete)
                    } else {
                        spec_v1_from_aggregators(d0.aggregators, q)
                    } by {
                    lemma_contains_push(pre_take, dest, q);
                }
            }
            t += 1;
        }
        proof {
            assert(d0.destroyed_aggregators.take(n_d as int) =~= d0.destroyed_aggregators);
            assert forall|id: AggregatorID| #[trigger]
                spec_v2_lookup(spec_v2_view(v2@), id) == spec_v2_change_for(d0, id) by {
                assert(spec_v2_lookup(spec_v2_view(v2@), id) == match spec_v2_from_snapshots(
                    d0.aggregator_snapshots.take(n_s as int),
                    id,
                ) {
                    Some(c) => Some(c),
                    None => spec_v2_from_aggregators(d0.aggregators, id),
                });
            }
        }
        AggregatorChangeSet { aggregator_v1_changes: v1, aggregator_v2_changes: v2 }
    }
}

} // verus!
