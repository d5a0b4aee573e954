use vstd::prelude::*;

use crate::aggregator_extension::extension_error;
use crate::aggregator_extension::AggregatorID;
use crate::aggregator_extension::SnapshotValue;
use crate::aggregator_extension::SnapshotValueV;
use crate::bounded_math::AggregatorError;

verus! {

/// The two ways shared state can be read. `LastCommitted` is the cheap read
/// that excludes in-flight speculative deltas of other transactions;
/// `Aggregated` is the expensive read that folds them in.
#[derive(Clone, Copy, Debug, PartialEq, Eq, Structural)]
pub enum AggregatorReadMode {
    LastCommitted,
    Aggregated,
}

/// The external interface to globally shared state. For a given mode and
/// resolver state a read is deterministic, described by the two value
/// functions; `spec_reads_ok` describes a resolver whose reads never fail
/// outright (a missing value is not a failure for the legacy read, and is
/// the only failure for the typed read).
pub trait AggregatorResolver {
    /// The value the legacy (raw integer) read yields, `None` when storage
    /// holds no value for `key` (the cell was deleted).
    spec fn spec_v1_value(&self, key: u64, mode: AggregatorReadMode) -> Option<u128>;

    /// The value the typed read yields, `None` when storage holds no value
    /// for `id`.
    spec fn spec_v2_value(&self, id: AggregatorID, mode: AggregatorReadMode) -> Option<
        SnapshotValueV,
    >;

    /// True of a resolver whose reads always answer.
    spec fn spec_reads_ok(&self) -> bool;

    /// Reads the legacy aggregator at `key`; `Ok(None)` means deleted.
    fn get_aggregator_v1_value(&self, key: u64, mode: AggregatorReadMode) -> (r: Result<
        Option<u128>,
        AggregatorError,
    >)
        ensures
            r matches Ok(v) ==> v == self.spec_v1_value(key, mode),
            self.spec_reads_ok() ==> r is Ok,
    ;

    /// Reads the typed value at `id`; a missing value is an error.
    fn get_aggregator_v2_value(&self, id: &AggregatorID, mode: AggregatorReadMode) -> (r: Result<
        SnapshotValue,
        AggregatorError,
    >)
        ensures
            r matches Ok(v) ==> self.spec_v2_value(*id, mode) == Some(v@),
            self.spec_reads_ok() ==> (r is Ok <==> self.spec_v2_value(*id, mode) is Some),
    ;
}

/// The value stored under the first entry carrying `id`, if any.
pub open spec fn spec_store_lookup(s: Seq<(AggregatorID, u128)>, id: AggregatorID) -> Option<u128>
    decreases s.len(),
{
    if s.len() == 0 {
        None
    } else if s[0].0 == id {
        Some(s[0].1)
    } else {
        spec_store_lookup(s.drop_first(), id)
    }
}

proof fn lemma_store_lookup_first(s: Seq<(AggregatorID, u128)>, id: AggregatorID, i: int)
    requires
        0 <= i < s.len(),
        s[i].0 == id,
        forall|j: int| 0 <= j < i ==> (#[trigger] s[j]).0 != id,
    ensures
        spec_store_lookup(s, id) == Some(s[i].1),
    decreases i,
{
    if i > 0 {
        lemma_store_lookup_first(s.drop_first(), id, i - 1);
    }
}

proof fn lemma_store_lookup_absent(s: Seq<(AggregatorID, u128)>, id: AggregatorID)
    requires
        forall|j: int| 0 <= j < s.len() ==> (#[trigger] s[j]).0 != id,
    ensures
        spec_store_lookup(s, id) == None::<u128>,
    decreases s.len(),
{
    if s.len() > 0 {
        lemma_store_lookup_absent(s.drop_first(), id);
    }
}

proof fn lemma_store_lookup_update(
    s: Seq<(AggregatorID, u128)>,
    i: int,
    id: AggregatorID,
    value: u128,
    q: AggregatorID,
)
    requires
        0 <= i < s.len(),
        s[i].0 == id,
        forall|j: int| 0 <= j < i ==> (#[trigger] s[j]).0 != id,
    ensures
        spec_store_lookup(s.update(i, (id, value)), q) == if q == id {
            Some(value)
        } else {
            spec_store_lookup(s, q)
        },
    decreases i,
{
    let s2 = s.update(i, (id, value));
    if i == 0 {
        if q != id {
            assert(s2.drop_first() =~= s.drop_first());
        }
    } else {
        assert(s2[0] == s[0]);
        if s[0].0 == q {
        } else {
            assert(s.update(i, (id, value)).drop_first() =~= s.drop_first().update(
                i - 1,
                (id, value),
            ));
            lemma_store_lookup_update(s.drop_first(), i - 1, id, value, q);
        }
    }
}

proof fn lemma_store_lookup_push(
    s: Seq<(AggregatorID, u128)>,
    id: AggregatorID,
    value: u128,
    q: AggregatorID,
)
    requires
        forall|j: int| 0 <= j < s.len() ==> (#[trigger] s[j]).0 != id,
    ensures
        spec_store_lookup(s.push((id, value)), q) == if q == id {
            Some(value)
        } else {
            spec_store_lookup(s, q)
        },
    decreases s.len(),
{
    let s2 = s.push((id, value));
    if s.len() == 0 {
        assert(s2[0] == (id, value));
        if q == id {
            assert(spec_store_lookup(s2, q) == Some(value));
        } else {
            assert(s2.drop_first() =~= Seq::<(AggregatorID, u128)>::empty());
            assert(spec_store_lookup(s2, q) == None::<u128>);
        }
    } else {
        assert(s2.len() == s.len() + 1);
        assert(s2[0] == s[0]);
        assert(s2.drop_first() =~= s.drop_first().push((id, value)));
        lemma_store_lookup_push(s.drop_first(), id, value, q);
        if s[0].0 == q {
            assert(spec_store_lookup(s2, q) == Some(s[0].1));
            assert(spec_store_lookup(s, q) == Some(s[0].1));
        } else {
            assert(spec_store_lookup(s2, q) == spec_store_lookup(s2.drop_first(), q));
            assert(spec_store_lookup(s, q) == spec_store_lookup(s.drop_first(), q));
        }
    }
}

/// A flat in-memory resolver: a map from aggregator id to integer value,
/// answering both read modes with the stored value. It stands in for the
/// multi-version store when the core is exercised on its own.
pub struct AggregatorStore {
    entries: Vec<(AggregatorID, u128)>,
}

impl AggregatorStore {
    /// The value this store holds for `id`.
    pub closed spec fn spec_get(&self, id: AggregatorID) -> Option<u128> {
        spec_store_lookup(self.entries@, id)
    }

    /// The position of the first entry carrying `id`, if any.
    fn find_index(&self, id: &AggregatorID) -> (r: Option<usize>)
        ensures
            r matches Some(i) ==> i < self.entries@.len() && self.entries@[i as int].0 == *id
                && (forall|j: int| 0 <= j < i ==> (#[trigger] self.entries@[j]).0 != *id),
            r is None ==> forall|j: int|
                0 <= j < self.entries@.len() ==> (#[trigger] self.entries@[j]).0 != *id,
    {
        let n = self.entries.len();
        let mut i: usize = 0;
        while i < n
            invariant
                n == self.entries@.len(),
                i <= n,
                forall|j: int| 0 <= j < i ==> (#[trigger] self.entries@[j]).0 != *id,
            decreases n - i,
        {
            if self.entries[i].0 == *id {
                return Some(i);
            }
            i += 1;
        }
        None
    }

    /// Stores `value` under `id`, replacing any earlier value.
    pub fn set_from_id(&mut self, id: AggregatorID, value: u128)
        ensures
            forall|q: AggregatorID| #[trigger]
                final(self).spec_get(q) == if q == id {
                    Some(value)
                } else {
                    old(self).spec_get(q)
                },
    {
        let ghost s0 = self.entries@;
        match self.find_index(&id) {
            Some(i) => {
                let slot = &mut self.entries[i];
                *slot = (id, value);
                proof {
                    assert(self.entries@ =~= s0.update(i as int, (id, value)));
                    assert forall|q: AggregatorID| #[trigger]
                        self.spec_get(q) == if q == id {
                            Some(value)
                        } else {
                            spec_store_lookup(s0, q)
                        } by {
                        lemma_store_lookup_update(s0, i as int, id, value, q);
                    }
                }
            },
            None => {
                self.entries.push((id, value));
                proof {
                    assert forall|q: AggregatorID| #[trigger]
                        self.spec_get(q) == if q == id {
                            Some(value)
                        } else {
                            spec_store_lookup(s0, q)
                        } by {
                        lemma_store_lookup_push(s0, id, value, q);
                    }
                }
            },
        }
    }

    /// The stored value for `id`, if any.
    pub fn get_from_id(&self, id: &AggregatorID) -> (r: Option<u128>)
        ensures
            r == self.spec_get(*id),
    {
        match self.find_index(id) {
            Some(i) => {
                proof {
                    lemma_store_lookup_first(self.entries@, *id, i as int);
                }
                Some(self.entries[i].1)
            },
            None => {
                proof {
                    lemma_store_lookup_absent(self.entries@, *id);
                }
                None
            },
        }
    }
}

impl Default for AggregatorStore {
    /// An empty store: every read finds nothing.
    fn default() -> (r: Self)
        ensures
            forall|id: AggregatorID| #[trigger] r.spec_get(id) == None::<u128>,
    {
        AggregatorStore { entries: Vec::new() }
    }
}

impl AggregatorResolver for AggregatorStore {
    open spec fn spec_v1_value(&self, key: u64, mode: AggregatorReadMode) -> Option<u128> {
        self.spec_get(AggregatorID::Legacy(key))
    }

    open spec fn spec_v2_value(&self, id: AggregatorID, mode: AggregatorReadMode) -> Option<
        SnapshotValueV,
    > {
        match self.spec_get(id) {
            Some(v) => Some(SnapshotValueV::Integer(v)),
            None => None,
        }
    }

    open spec fn spec_reads_ok(&self) -> bool {
        true
    }

    fn get_aggregator_v1_value(&self, key: u64, mode: AggregatorReadMode) -> (r: Result<
        Option<u128>,
        AggregatorError,
    >) {
        Ok(self.get_from_id(&AggregatorID::Legacy(key)))
    }

    fn get_aggregator_v2_value(&self, id: &AggregatorID, mode: AggregatorReadMode) -> (r: Result<
        SnapshotValue,
        AggregatorError,
    >) {
        match self.get_from_id(id) {
            Some(value) => Ok(SnapshotValue::Integer(value)),
            None => Err(extension_error()),
        }
    }
}

/// The id used by the tests for a legacy aggregator keyed by a small
/// integer.
pub fn aggregator_v1_id_for_test(key: u64) -> (r: AggregatorID)
    ensures
        r == AggregatorID::Legacy(key),
{
    AggregatorID::Legacy(key)
}

} // verus!
