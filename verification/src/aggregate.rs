//! The aggregator: one row of statistics per identity.

use vstd::prelude::*;
use std::collections::HashMap;
use crate::identity::{identity_model, identity_of, RecordIdentity};
use crate::record::{normalize, CanonicalKey, KeyModel, RawRecord};
use crate::timestamp::Timestamp;

verus! {

broadcast use vstd::std_specs::hash::group_hash_axioms;

/// What an aggregate row holds, as mathematical values.
pub struct RowModel {
    pub identity: RecordIdentity,
    pub key: KeyModel,
    pub min_timestamp: Timestamp,
    pub max_timestamp: Timestamp,
    pub count: nat,
}

/// One observation: a shape, its identity and the time it was seen.
pub struct Observation {
    pub identity: RecordIdentity,
    pub key: KeyModel,
    pub timestamp: Timestamp,
}

/// The accumulated statistics of one route-event shape.
#[derive(Debug)]
pub struct AggregateRow {
    pub identity: RecordIdentity,
    pub key: CanonicalKey,
    pub min_timestamp: Timestamp,
    pub max_timestamp: Timestamp,
    pub count: u64,
}

impl View for AggregateRow {
    type V = RowModel;

    open spec fn view(&self) -> RowModel {
        RowModel {
            identity: self.identity,
            key: self.key@,
            min_timestamp: self.min_timestamp,
            max_timestamp: self.max_timestamp,
            count: self.count as nat,
        }
    }
}

/// Why an aggregation step was refused.
#[derive(Clone, Copy, Debug, PartialEq, Eq, Structural)]
pub enum AggregateError {
    /// The occurrence count of a row would pass the largest 64-bit number.
    CountOverflow,
}

/// The row made by the first observation of an identity.
pub open spec fn first_row(identity: RecordIdentity, key: KeyModel, timestamp: Timestamp)
    -> RowModel {
    RowModel { identity, key, min_timestamp: timestamp, max_timestamp: timestamp, count: 1 }
}

/// The row after one more observation of its identity.
pub open spec fn observed_row(row: RowModel, timestamp: Timestamp) -> RowModel {
    RowModel {
        identity: row.identity,
        key: row.key,
        min_timestamp: row.min_timestamp.earlier(timestamp),
        max_timestamp: row.max_timestamp.later(timestamp),
        count: row.count + 1,
    }
}

/// The mapping after one observation has been taken in.
pub open spec fn upsert_model(
    rows: Map<RecordIdentity, RowModel>,
    identity: RecordIdentity,
    key: KeyModel,
    timestamp: Timestamp,
) -> Map<RecordIdentity, RowModel> {
    if rows.contains_key(identity) {
        rows.insert(identity, observed_row(rows[identity], timestamp))
    } else {
        rows.insert(identity, first_row(identity, key, timestamp))
    }
}

/// A persisted row after a batch row of the same identity has been merged
/// into it: counts add up, bounds widen, and the persisted fields stay.
pub open spec fn merge_rows(persisted: RowModel, batch: RowModel) -> RowModel {
    RowModel {
        identity: persisted.identity,
        key: persisted.key,
        min_timestamp: persisted.min_timestamp.earlier(batch.min_timestamp),
        max_timestamp: persisted.max_timestamp.later(batch.max_timestamp),
        count: persisted.count + batch.count,
    }
}

/// The store after one batch row has been persisted.
pub open spec fn merge_row_into(store: Map<RecordIdentity, RowModel>, batch: RowModel) -> Map<
    RecordIdentity,
    RowModel,
> {
    if store.contains_key(batch.identity) {
        store.insert(batch.identity, merge_rows(store[batch.identity], batch))
    } else {
        store.insert(batch.identity, batch)
    }
}

/// The merged count of the row still fits 64 bits.
pub open spec fn fits(store: Map<RecordIdentity, RowModel>, batch: RowModel) -> bool {
    store.contains_key(batch.identity) ==> store[batch.identity].count + batch.count <= u64::MAX
}

/// The mapping after a sequence of observations, taken in order.
pub open spec fn run_model(obs: Seq<Observation>) -> Map<RecordIdentity, RowModel>
    decreases obs.len(),
{
    if obs.len() == 0 {
        Map::empty()
    } else {
        upsert_model(
            run_model(obs.drop_last()),
            obs.last().identity,
            obs.last().key,
            obs.last().timestamp,
        )
    }
}

/// Every row of the mapping stands under its own identity.
pub open spec fn keyed_by_identity(rows: Map<RecordIdentity, RowModel>) -> bool {
    forall|id: RecordIdentity| #[trigger] rows.contains_key(id) ==> rows[id].identity == id
}

/// The sequence lists every row of the mapping exactly once, in some order.
pub open spec fn lists_rows_of(out: Seq<AggregateRow>, rows: Map<RecordIdentity, RowModel>)
    -> bool {
    &&& forall|i: int|
        0 <= i < out.len() ==> rows.contains_key((#[trigger] out[i]).identity) && rows[out[i].identity]
            == out[i]@
    &&& forall|id: RecordIdentity| #[trigger]
        rows.contains_key(id) ==> exists|i: int| 0 <= i < out.len() && (#[trigger] out[i]).identity == id
    &&& forall|i: int, j: int|
        0 <= i < j < out.len() ==> (#[trigger] out[i]).identity != (#[trigger] out[j]).identity
}

impl RawRecord {
    /// The observation that the record stands for.
    pub open spec fn observation(&self) -> Observation {
        Observation {
            identity: identity_model(self.key_model()),
            key: self.key_model(),
            timestamp: self.timestamp,
        }
    }
}

/// The observations that a sequence of records stands for, in order.
pub open spec fn observations(records: Seq<RawRecord>) -> Seq<Observation> {
    Seq::new(records.len(), |i: int| records[i].observation())
}

/// The owned mapping from identity to accumulated row of one run.
pub struct Aggregator {
    index: HashMap<u128, usize>,
    rows: Vec<AggregateRow>,
}

impl View for Aggregator {
    type V = Map<RecordIdentity, RowModel>;

    closed spec fn view(&self) -> Map<RecordIdentity, RowModel> {
        Map::new(
            |id: RecordIdentity| self.index@.contains_key(id.value),
            |id: RecordIdentity| self.rows@[self.index@[id.value] as int]@,
        )
    }
}

impl Aggregator {
    /// The index and the rows agree: each row is found under its identity,
    /// and the index names nothing else.
    pub closed spec fn wf(&self) -> bool {
        &&& forall|i: int|
            0 <= i < self.rows@.len() ==> self.index@.contains_key(
                (#[trigger] self.rows@[i]).identity.value,
            ) && self.index@[self.rows@[i].identity.value] as int == i
        &&& forall|k: u128| #[trigger]
            self.index@.contains_key(k) ==> (self.index@[k] as int) < self.rows@.len()
                && self.rows@[self.index@[k] as int].identity.value == k
    }

    /// An aggregator without rows.
    pub fn new() -> (agg: Aggregator)
        ensures
            agg.wf(),
            agg@ == Map::<RecordIdentity, RowModel>::empty(),
    {
        let agg = Aggregator { index: HashMap::new(), rows: Vec::new() };
        assert(agg@ =~= Map::<RecordIdentity, RowModel>::empty());
        agg
    }

    /// Each row stands under its own identity.
    pub proof fn rows_are_keyed(&self)
        requires
            self.wf(),
        ensures
            keyed_by_identity(self@),
    {
    }

    /// The number of rows.
    pub fn len(&self) -> (n: usize)
        ensures
            n == self@.dom().len(),
            self@.dom().finite(),
    {
        proof {
            self.index_mirrors_view();
        }
        self.index.len()
    }

    proof fn index_mirrors_view(&self)
        ensures
            self@.dom().finite(),
            self@.dom().len() == self.index@.dom().len(),
    {
        let keys = self.index@.dom();
        let ids = keys.map(|k: u128| RecordIdentity { value: k });
        assert(ids =~= self@.dom()) by {
            assert forall|id: RecordIdentity| self@.dom().contains(id) implies ids.contains(id) by {
                assert(keys.contains(id.value));
                assert(RecordIdentity { value: id.value } == id);
            }
        }
        vstd::set_lib::lemma_map_size(keys, ids, |k: u128| RecordIdentity { value: k });
    }

    /// Tells whether a row stands under the identity.
    pub fn contains(&self, identity: RecordIdentity) -> (found: bool)
        ensures
            found == self@.contains_key(identity),
    {
        self.index.contains_key(&identity.value)
    }

    /// Looks up the row of an identity.
    pub fn row(&self, identity: RecordIdentity) -> (found: Option<&AggregateRow>)
        requires
            self.wf(),
        ensures
            match found {
                Some(row) => self@.contains_key(identity) && row@ == self@[identity],
                None => !self@.contains_key(identity),
            },
    {
        match self.index.get(&identity.value) {
            Some(at) => Some(&self.rows[*at]),
            None => None,
        }
    }

    /// Takes in one observation. A new identity gets a row with the given key,
    /// both bounds at the timestamp and a count of one; a known identity has
    /// its bounds widened and its count raised by one. Where the count cannot
    /// be raised, nothing changes and the error says so.
    pub fn upsert(&mut self, identity: RecordIdentity, key: &CanonicalKey, timestamp: Timestamp)
        -> (done: Result<(), AggregateError>)
        requires
            old(self).wf(),
        ensures
            final(self).wf(),
            done.is_err() <==> old(self)@.contains_key(identity) && old(self)@[identity].count
                == u64::MAX,
            done.is_ok() ==> final(self)@ == upsert_model(old(self)@, identity, key@, timestamp),
            done.is_err() ==> done == Err::<(), AggregateError>(AggregateError::CountOverflow)
                && final(self)@ == old(self)@,
    {
        let found = self.index.get(&identity.value);
        match found {
            Some(at) => {
                let i: usize = *at;
                if self.rows[i].count == u64::MAX {
                    return Err(AggregateError::CountOverflow);
                }
                let earliest = self.rows[i].min_timestamp.min(timestamp);
                let latest = self.rows[i].max_timestamp.max(timestamp);
                let count: u64 = self.rows[i].count + 1;
                self.rows[i].min_timestamp = earliest;
                self.rows[i].max_timestamp = latest;
                self.rows[i].count = count;
                assert(self@ =~= upsert_model(old(self)@, identity, key@, timestamp));
            },
            None => {
                let row = AggregateRow {
                    identity,
                    key: key.duplicate(),
                    min_timestamp: timestamp,
                    max_timestamp: timestamp,
                    count: 1,
                };
                self.index.insert(identity.value, self.rows.len());
                self.rows.push(row);
                assert(self@ =~= upsert_model(old(self)@, identity, key@, timestamp));
            },
        }
        Ok(())
    }

    /// Takes in one raw record: normalizes it, derives its identity, and
    /// takes the observation in as `upsert` does.
    pub fn observe(&mut self, raw: &RawRecord) -> (done: Result<(), AggregateError>)
        requires
            old(self).wf(),
        ensures
            final(self).wf(),
            done.is_err() <==> old(self)@.contains_key(raw.observation().identity) && old(
                self,
            )@[raw.observation().identity].count == u64::MAX,
            done.is_ok() ==> final(self)@ == upsert_model(
                old(self)@,
                raw.observation().identity,
                raw.key_model(),
                raw.timestamp,
            ),
            done.is_err() ==> done == Err::<(), AggregateError>(AggregateError::CountOverflow)
                && final(self)@ == old(self)@,
    {
        let key = normalize(raw);
        let identity = identity_of(&key);
        self.upsert(identity, &key, raw.timestamp)
    }

    /// Persists one batch row: a new identity is inserted as it is; on a
    /// known identity the counts add up and the bounds widen, the other
    /// fields staying as they were. Where the sum of the counts does not fit,
    /// nothing changes and the error says so.
    pub fn merge_row(&mut self, row: &AggregateRow) -> (done: Result<(), AggregateError>)
        requires
            old(self).wf(),
        ensures
            final(self).wf(),
            done.is_ok() <==> fits(old(self)@, row@),
            done.is_ok() ==> final(self)@ == merge_row_into(old(self)@, row@),
            done.is_err() ==> done == Err::<(), AggregateError>(AggregateError::CountOverflow)
                && final(self)@ == old(self)@,
    {
        let found = self.index.get(&row.identity.value);
        match found {
            Some(at) => {
                let i: usize = *at;
                if row.count > u64::MAX - self.rows[i].count {
                    return Err(AggregateError::CountOverflow);
                }
                let earliest = self.rows[i].min_timestamp.min(row.min_timestamp);
                let latest = self.rows[i].max_timestamp.max(row.max_timestamp);
                let count: u64 = self.rows[i].count + row.count;
                self.rows[i].min_timestamp = earliest;
                self.rows[i].max_timestamp = latest;
                self.rows[i].count = count;
                assert(self@ =~= merge_row_into(old(self)@, row@));
            },
            None => {
                let copy = AggregateRow {
                    identity: row.identity,
                    key: row.key.duplicate(),
                    min_timestamp: row.min_timestamp,
                    max_timestamp: row.max_timestamp,
                    count: row.count,
                };
                self.index.insert(row.identity.value, self.rows.len());
                self.rows.push(copy);
                assert(self@ =~= merge_row_into(old(self)@, row@));
            },
        }
        Ok(())
    }

    /// Hands out the rows, each identity once, and ends the run.
    pub fn drain(self) -> (out: Vec<AggregateRow>)
        requires
            self.wf(),
        ensures
            lists_rows_of(out@, self@),
            out@.len() == self@.dom().len(),
    {
        proof {
            self.index_mirrors_view();
            self.rows_cover_index();
        }
        self.rows
    }

    proof fn rows_cover_index(&self)
        requires
            self.wf(),
        ensures
            lists_rows_of(self.rows@, self@),
            self.rows@.len() == self.index@.dom().len(),
    {
        assert forall|id: RecordIdentity| #[trigger] self@.contains_key(id) implies exists|i: int|
            0 <= i < self.rows@.len() && (#[trigger] self.rows@[i]).identity == id by {
            let i = self.index@[id.value] as int;
            assert(self.rows@[i].identity == id);
        }
        let positions = Set::new(|i: int| 0 <= i < self.rows@.len());
        let keys = self.index@.dom();
        let key_at = |i: int| self.rows@[i].identity.value;
        assert(positions =~= vstd::set_lib::set_int_range(0, self.rows@.len() as int));
        vstd::set_lib::lemma_int_range(0, self.rows@.len() as int);
        assert(positions.map(key_at) =~= keys) by {
            assert forall|k: u128| keys.contains(k) implies positions.map(key_at).contains(k) by {
                let i = self.index@[k] as int;
                assert(positions.contains(i) && key_at(i) == k);
            }
        }
        assert(vstd::relations::injective_on(key_at, positions)) by {
            assert forall|i: int, j: int|
                positions.contains(i) && positions.contains(j) && #[trigger] key_at(i)
                    == #[trigger] key_at(j) implies i == j by {
                assert(self.rows@[i].identity.value == self.rows@[j].identity.value);
            }
        }
        vstd::set_lib::lemma_map_size(positions, keys, key_at);
    }
}

/// No row of a run counts more than the observations that were taken in.
pub proof fn counts_within_length(obs: Seq<Observation>)
    ensures
        forall|id: RecordIdentity| #[trigger]
            run_model(obs).contains_key(id) ==> 1 <= run_model(obs)[id].count <= obs.len(),
    decreases obs.len(),
{
    if obs.len() > 0 {
        let before = run_model(obs.drop_last());
        counts_within_length(obs.drop_last());
        assert forall|id: RecordIdentity| #[trigger]
            run_model(obs).contains_key(id) implies 1 <= run_model(obs)[id].count
            <= obs.len() by {
            if before.contains_key(id) {
                assert(before[id].count <= obs.len() - 1);
            }
        }
    }
}

/// Aggregates the records in the order given: each is normalized, gets its
/// identity, and is taken in. No count can pass its limit here, for no row
/// counts more than the records that were given.
pub fn aggregate(records: &Vec<RawRecord>) -> (agg: Aggregator)
    ensures
        agg.wf(),
        agg@ == run_model(observations(records@)),
{
    let mut agg = Aggregator::new();
    let mut i: usize = 0;
    while i < records.len()
        invariant
            i <= records.len(),
            agg.wf(),
            agg@ == run_model(observations(records@).take(i as int)),
        decreases records.len() - i,
    {
        proof {
            counts_within_length(observations(records@).take(i as int));
            let next = observations(records@).take(i + 1);
            assert(next.drop_last() =~= observations(records@).take(i as int));
            assert(next.last() == records@[i as int].observation());
        }
        let done = agg.observe(&records[i]);
        assert(done.is_ok());
        i += 1;
    }
    proof {
        assert(observations(records@).take(i as int) =~= observations(records@));
    }
    agg
}

/// The timestamps of the observations of one identity, in order.
pub open spec fn times_of(obs: Seq<Observation>, id: RecordIdentity) -> Seq<Timestamp>
    decreases obs.len(),
{
    if obs.len() == 0 {
        Seq::empty()
    } else if obs.last().identity == id {
        times_of(obs.drop_last(), id).push(obs.last().timestamp)
    } else {
        times_of(obs.drop_last(), id)
    }
}

/// The keys of the observations of one identity, in order.
pub open spec fn keys_of(obs: Seq<Observation>, id: RecordIdentity) -> Seq<KeyModel>
    decreases obs.len(),
{
    if obs.len() == 0 {
        Seq::empty()
    } else if obs.last().identity == id {
        keys_of(obs.drop_last(), id).push(obs.last().key)
    } else {
        keys_of(obs.drop_last(), id)
    }
}

/// `t` is one of `times`, none of them precedes it, and it is a number
/// unless none of them is.
pub open spec fn is_earliest_of(t: Timestamp, times: Seq<Timestamp>) -> bool {
    &&& exists|i: int| 0 <= i < times.len() && #[trigger] times[i] == t
    &&& forall|i: int| 0 <= i < times.len() ==> !(#[trigger] times[i]).precedes(t)
    &&& t.is_nan() ==> forall|i: int| 0 <= i < times.len() ==> (#[trigger] times[i]).is_nan()
}

/// `t` is one of `times`, it precedes none of them, and it is a number
/// unless none of them is.
pub open spec fn is_latest_of(t: Timestamp, times: Seq<Timestamp>) -> bool {
    &&& exists|i: int| 0 <= i < times.len() && #[trigger] times[i] == t
    &&& forall|i: int| 0 <= i < times.len() ==> !t.precedes(#[trigger] times[i])
    &&& t.is_nan() ==> forall|i: int| 0 <= i < times.len() ==> (#[trigger] times[i]).is_nan()
}

/// An identity has a row exactly when it was observed; the row then holds
/// the key of the first observation, counts the observations, and holds the
/// earliest and the latest of their times.
pub proof fn statistics_are_exact(obs: Seq<Observation>, id: RecordIdentity)
    ensures
        run_model(obs).contains_key(id) <==> times_of(obs, id).len() > 0,
        keys_of(obs, id).len() == times_of(obs, id).len(),
        run_model(obs).contains_key(id) ==> {
            let row = run_model(obs)[id];
            &&& row.identity == id
            &&& row.key == keys_of(obs, id).first()
            &&& row.count == times_of(obs, id).len()
            &&& is_earliest_of(row.min_timestamp, times_of(obs, id))
            &&& is_latest_of(row.max_timestamp, times_of(obs, id))
        },
    decreases obs.len(),
{
    if obs.len() > 0 {
        let before = obs.drop_last();
        statistics_are_exact(before, id);
        if obs.last().identity == id {
            let earlier_times = times_of(before, id);
            let times = times_of(obs, id);
            let row = run_model(obs)[id];
            let n = earlier_times.len() as int;
            assert(times[n] == obs.last().timestamp);
            assert(keys_of(obs, id)[n] == obs.last().key);
            if run_model(before).contains_key(id) {
                assert(keys_of(obs, id)[0] == keys_of(before, id)[0]);
                let old_row = run_model(before)[id];
                let a = choose|i: int| 0 <= i < n && #[trigger] earlier_times[i] == old_row.min_timestamp;
                let b = choose|i: int| 0 <= i < n && #[trigger] earlier_times[i] == old_row.max_timestamp;
                assert(times[a] == earlier_times[a]);
                assert(times[b] == earlier_times[b]);
                assert forall|i: int| 0 <= i < times.len() implies !(#[trigger] times[i]).precedes(
                    row.min_timestamp,
                ) && !row.max_timestamp.precedes(times[i]) && (row.min_timestamp.is_nan()
                    ==> times[i].is_nan()) && (row.max_timestamp.is_nan() ==> times[i].is_nan()) by {
                    if i < n {
                        assert(times[i] == earlier_times[i]);
                    }
                }
            }
        }
    }
}

/// Two records that differ at most in their timestamps have one identity and
/// end up in one row, which counts both.
pub proof fn same_shape_is_one_row(a: RawRecord, b: RawRecord)
    requires
        a.key_model() == b.key_model(),
    ensures
        a.observation().identity == b.observation().identity,
        run_model(observations(seq![a, b])).dom() =~= set![a.observation().identity],
        run_model(observations(seq![a, b]))[a.observation().identity] == (RowModel {
            identity: a.observation().identity,
            key: a.key_model(),
            min_timestamp: a.timestamp.earlier(b.timestamp),
            max_timestamp: a.timestamp.later(b.timestamp),
            count: 2,
        }),
{
    let both = observations(seq![a, b]);
    let first = both.drop_last();
    assert(first =~= seq![a.observation()]);
    assert(first.drop_last() =~= Seq::<Observation>::empty());
    assert(both.last() == b.observation());
    assert(first.last() == a.observation());
    reveal_with_fuel(run_model, 3);
}

} // verus!
