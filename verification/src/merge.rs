//! The merge contract: how a batch of rows is combined with rows that a store
//! already holds.

use vstd::prelude::*;
use crate::aggregate::{
    counts_within_length, fits, lists_rows_of, merge_row_into, merge_rows, run_model,
    AggregateRow, Aggregator, Observation, RowModel,
};
use crate::identity::RecordIdentity;

verus! {

/// The store after a whole batch, given as a mapping, has been persisted.
pub open spec fn merge_maps(
    store: Map<RecordIdentity, RowModel>,
    batch: Map<RecordIdentity, RowModel>,
) -> Map<RecordIdentity, RowModel> {
    Map::new(
        |id: RecordIdentity| store.contains_key(id) || batch.contains_key(id),
        |id: RecordIdentity|
            if store.contains_key(id) && batch.contains_key(id) {
                merge_rows(store[id], batch[id])
            } else if store.contains_key(id) {
                store[id]
            } else {
                batch[id]
            },
    )
}

/// The store after the rows of a batch have been persisted one by one, each
/// row that does not fit being passed over.
pub open spec fn persist_model(store: Map<RecordIdentity, RowModel>, batch: Seq<RowModel>) -> Map<
    RecordIdentity,
    RowModel,
>
    decreases batch.len(),
{
    if batch.len() == 0 {
        store
    } else {
        let before = persist_model(store, batch.drop_last());
        if fits(before, batch.last()) {
            merge_row_into(before, batch.last())
        } else {
            before
        }
    }
}

/// The identities of the rows that were passed over, in the batch's order.
pub open spec fn refused_model(store: Map<RecordIdentity, RowModel>, batch: Seq<RowModel>) -> Seq<
    RecordIdentity,
>
    decreases batch.len(),
{
    if batch.len() == 0 {
        Seq::empty()
    } else {
        let before = persist_model(store, batch.drop_last());
        if fits(before, batch.last()) {
            refused_model(store, batch.drop_last())
        } else {
            refused_model(store, batch.drop_last()).push(batch.last().identity)
        }
    }
}

/// The rows of a batch as mathematical values.
pub open spec fn row_models(rows: Seq<AggregateRow>) -> Seq<RowModel> {
    Seq::new(rows.len(), |i: int| rows[i]@)
}

impl Aggregator {
    /// Persists a batch row by row and returns the identities of the rows
    /// that could not be merged; the other rows are merged all the same.
    pub fn persist_batch(&mut self, rows: &Vec<AggregateRow>) -> (refused: Vec<RecordIdentity>)
        requires
            old(self).wf(),
        ensures
            final(self).wf(),
            final(self)@ == persist_model(old(self)@, row_models(rows@)),
            refused@ == refused_model(old(self)@, row_models(rows@)),
    {
        let mut refused: Vec<RecordIdentity> = Vec::new();
        let mut i: usize = 0;
        while i < rows.len()
            invariant
                i <= rows.len(),
                self.wf(),
                self@ == persist_model(old(self)@, row_models(rows@).take(i as int)),
                refused@ == refused_model(old(self)@, row_models(rows@).take(i as int)),
            decreases rows.len() - i,
        {
            proof {
                let next = row_models(rows@).take(i + 1);
                assert(next.drop_last() =~= row_models(rows@).take(i as int));
                assert(next.last() == rows@[i as int]@);
            }
            match self.merge_row(&rows[i]) {
                Ok(()) => {},
                Err(_) => {
                    refused.push(rows[i].identity);
                },
            }
            i += 1;
        }
        proof {
            assert(row_models(rows@).take(i as int) =~= row_models(rows@));
        }
        refused
    }
}

/// Aggregating a sequence in one pass gives the same rows as aggregating its
/// two parts apart and merging the second result into the first.
pub proof fn split_run_merges_to_whole(a: Seq<Observation>, b: Seq<Observation>)
    ensures
        run_model(a + b) == merge_maps(run_model(a), run_model(b)),
    decreases b.len(),
{
    if b.len() == 0 {
        assert(a + b =~= a);
        assert(run_model(a) =~= merge_maps(run_model(a), run_model(b)));
    } else {
        split_run_merges_to_whole(a, b.drop_last());
        assert((a + b).drop_last() =~= a + b.drop_last());
        assert((a + b).last() == b.last());
        assert(run_model(a + b) =~= merge_maps(run_model(a), run_model(b)));
    }
}

/// Persisting a batch a second time adds its counts once more and leaves
/// every bound as the first time left it.
pub proof fn second_persist_adds_counts_only(
    store: Map<RecordIdentity, RowModel>,
    batch: Map<RecordIdentity, RowModel>,
)
    ensures
        merge_maps(merge_maps(store, batch), batch).dom() == merge_maps(store, batch).dom(),
        forall|id: RecordIdentity| #[trigger]
            batch.contains_key(id) ==> {
                let once = merge_maps(store, batch)[id];
                let twice = merge_maps(merge_maps(store, batch), batch)[id];
                &&& twice.count == once.count + batch[id].count
                &&& twice.min_timestamp == once.min_timestamp
                &&& twice.max_timestamp == once.max_timestamp
                &&& twice.key == once.key
            },
        forall|id: RecordIdentity|
            merge_maps(store, batch).contains_key(id) && !batch.contains_key(id) ==> #[trigger] merge_maps(
                merge_maps(store, batch),
                batch,
            )[id] == merge_maps(store, batch)[id],
{
    assert(merge_maps(merge_maps(store, batch), batch).dom() =~= merge_maps(store, batch).dom());
}

/// Persisting the same batch twice into an empty store doubles every count
/// and leaves every bound as the batch has it.
pub proof fn rerun_doubles_counts(batch: Map<RecordIdentity, RowModel>)
    ensures
        merge_maps(Map::empty(), batch) == batch,
        merge_maps(batch, batch).dom() == batch.dom(),
        forall|id: RecordIdentity| #[trigger]
            batch.contains_key(id) ==> merge_maps(batch, batch)[id] == (RowModel {
                count: 2 * batch[id].count,
                ..batch[id]
            }),
{
    assert(merge_maps(Map::empty(), batch) =~= batch);
    assert(merge_maps(batch, batch).dom() =~= batch.dom());
}

/// A batch that lists the rows of a mapping, each once, is persisted row by
/// row to the same store as the mapping is merged to, with no row passed
/// over, provided that every merged count fits 64 bits.
pub proof fn listed_batch_persists_as_mapping(
    store: Map<RecordIdentity, RowModel>,
    batch: Seq<AggregateRow>,
    rows: Map<RecordIdentity, RowModel>,
)
    requires
        lists_rows_of(batch, rows),
        forall|id: RecordIdentity|
            store.contains_key(id) && #[trigger] rows.contains_key(id) ==> store[id].count
                + rows[id].count <= u64::MAX,
    ensures
        persist_model(store, row_models(batch)) == merge_maps(store, rows),
        refused_model(store, row_models(batch)) == Seq::<RecordIdentity>::empty(),
    decreases batch.len(),
{
    if batch.len() == 0 {
        assert forall|id: RecordIdentity| !rows.contains_key(id) by {
            if rows.contains_key(id) {
                let i = choose|i: int| 0 <= i < batch.len() && (#[trigger] batch[i]).identity == id;
            }
        }
        assert(merge_maps(store, rows) =~= store);
    } else {
        let last = batch.last();
        let rest = batch.drop_last();
        let others = rows.remove(last.identity);
        assert(lists_rows_of(rest, others)) by {
            assert forall|i: int| 0 <= i < rest.len() implies others.contains_key(
                (#[trigger] rest[i]).identity,
            ) && others[rest[i].identity] == rest[i]@ by {
                assert(rest[i] == batch[i]);
                assert(batch[i].identity != batch[batch.len() - 1].identity);
            }
            assert forall|id: RecordIdentity| #[trigger] others.contains_key(id) implies exists|
                i: int,
            |
                0 <= i < rest.len() && (#[trigger] rest[i]).identity == id by {
                assert(rows.contains_key(id));
                let i = choose|i: int| 0 <= i < batch.len() && (#[trigger] batch[i]).identity == id;
                assert(rest[i] == batch[i]);
            }
            assert forall|i: int, j: int| 0 <= i < j < rest.len() implies (#[trigger] rest[i]).identity
                != (#[trigger] rest[j]).identity by {
                assert(rest[i] == batch[i] && rest[j] == batch[j]);
            }
        }
        assert forall|id: RecordIdentity|
            store.contains_key(id) && #[trigger] others.contains_key(id) implies store[id].count
            + others[id].count <= u64::MAX by {
            assert(rows.contains_key(id));
        }
        listed_batch_persists_as_mapping(store, rest, others);
        assert(row_models(batch).drop_last() =~= row_models(rest));
        assert(row_models(batch).last() == last@);
        assert(rows.contains_key(last.identity) && rows[last.identity] == last@);
        let before = merge_maps(store, others);
        assert(fits(before, last@));
        assert(merge_row_into(before, last@) =~= merge_maps(store, rows));
    }
}

/// Aggregating the first part of a sequence and then persisting the rows of
/// the second part's own aggregation gives the rows of the whole sequence in
/// one pass, with no row passed over.
pub proof fn split_run_persists_to_whole(
    a: Seq<Observation>,
    b: Seq<Observation>,
    batch: Seq<AggregateRow>,
)
    requires
        lists_rows_of(batch, run_model(b)),
        a.len() + b.len() <= u64::MAX,
    ensures
        persist_model(run_model(a), row_models(batch)) == run_model(a + b),
        refused_model(run_model(a), row_models(batch)) == Seq::<RecordIdentity>::empty(),
{
    split_run_merges_to_whole(a, b);
    counts_within_length(a + b);
    assert forall|id: RecordIdentity|
        run_model(a).contains_key(id) && #[trigger] run_model(b).contains_key(id) implies run_model(
        a,
    )[id].count + run_model(b)[id].count <= u64::MAX by {
        assert(run_model(a + b).contains_key(id));
        assert(run_model(a + b)[id] == merge_rows(run_model(a)[id], run_model(b)[id]));
    }
    listed_batch_persists_as_mapping(run_model(a), batch, run_model(b));
}

/// Persisting the same batch twice into an empty store doubles every count
/// and leaves every other field as the batch has it.
pub proof fn persisting_twice_doubles_counts(
    batch: Seq<AggregateRow>,
    rows: Map<RecordIdentity, RowModel>,
)
    requires
        lists_rows_of(batch, rows),
        forall|id: RecordIdentity| #[trigger] rows.contains_key(id) ==> 2 * rows[id].count <= u64::MAX,
    ensures
        persist_model(Map::empty(), row_models(batch)) == rows,
        ({
            let twice = persist_model(rows, row_models(batch));
            &&& twice.dom() == rows.dom()
            &&& forall|id: RecordIdentity| #[trigger]
                rows.contains_key(id) ==> twice[id] == (RowModel {
                    count: 2 * rows[id].count,
                    ..rows[id]
                })
        }),
{
    rerun_doubles_counts(rows);
    listed_batch_persists_as_mapping(Map::empty(), batch, rows);
    listed_batch_persists_as_mapping(rows, batch, rows);
}

} // verus!
