//! The mathematical model of the job table, which the contracts of the
//! queue speak of: the rows as a sequence, the operations as functions on
//! it, and what it means for a batch to answer a selection.

use crate::job::JobView;
use vstd::prelude::*;

verus! {

/// The rows that survive a purge at `cutoff`.
pub open spec fn survives(cutoff: int) -> spec_fn(JobView) -> bool {
    |job: JobView| !job.expired(cutoff)
}

/// The rows whose identity is not `id`.
pub open spec fn other_than(id: int) -> spec_fn(JobView) -> bool {
    |job: JobView| job.id != id
}

/// The rows that survive a purge at `cutoff` and are due at `now`.
pub open spec fn is_ready(now: int, cutoff: int) -> spec_fn(JobView) -> bool {
    |job: JobView| job.ready(now, cutoff)
}

/// What a failure report does to each row: the one with identity `id` takes
/// the reported values, every other row stays.
pub open spec fn report_failure(
    id: int,
    attempts: int,
    next_retry_at: int,
    last_error: Option<Seq<char>>,
) -> spec_fn(JobView) -> JobView {
    |job: JobView|
        if job.id == id {
            job.failed(attempts, next_retry_at, last_error)
        } else {
            job
        }
}

/// Mathematical model of the job table: its rows in insertion order, and the
/// largest identity that it has ever handed out.
pub ghost struct TableView {
    pub rows: Seq<JobView>,
    pub last_id: int,
}

impl TableView {
    /// The table before anything was enqueued.
    pub open spec fn empty() -> TableView {
        TableView { rows: Seq::empty(), last_id: 0 }
    }

    /// Identities are positive, were handed out in the past, and grow along
    /// the rows; so no two rows share one.
    pub open spec fn wf(self) -> bool {
        &&& 0 <= self.last_id
        &&& forall|i: int|
            0 <= i < self.rows.len() ==> 1 <= (#[trigger] self.rows[i]).id <= self.last_id
        &&& forall|i: int, j: int|
            0 <= i < j < self.rows.len() ==> (#[trigger] self.rows[i]).id < (
            #[trigger] self.rows[j]).id
    }

    /// A row with identity `id` is stored.
    pub open spec fn holds(self, id: int) -> bool {
        exists|i: int| 0 <= i < self.rows.len() && (#[trigger] self.rows[i]).id == id
    }

    /// The stored row with identity `id`, where the table holds one.
    pub open spec fn row(self, id: int) -> JobView {
        let i = choose|i: int| 0 <= i < self.rows.len() && (#[trigger] self.rows[i]).id == id;
        self.rows[i]
    }

    /// The table after a new job was stored at time `now`.
    pub open spec fn enqueue(self, job_type: Seq<char>, payload_json: Seq<char>, now: int) -> TableView {
        TableView {
            rows: self.rows.push(JobView::fresh(self.last_id + 1, job_type, payload_json, now)),
            last_id: self.last_id + 1,
        }
    }

    /// The table after every row created before `cutoff` was deleted.
    pub open spec fn purge(self, cutoff: int) -> TableView {
        TableView { rows: self.rows.filter(survives(cutoff)), last_id: self.last_id }
    }

    /// The table after the row with identity `id` was deleted.
    pub open spec fn mark_success(self, id: int) -> TableView {
        TableView { rows: self.rows.filter(other_than(id)), last_id: self.last_id }
    }

    /// The table after a failure was reported for identity `id`.
    pub open spec fn mark_failure(
        self,
        id: int,
        attempts: int,
        next_retry_at: int,
        last_error: Option<Seq<char>>,
    ) -> TableView {
        TableView {
            rows: self.rows.map_values(report_failure(id, attempts, next_retry_at, last_error)),
            last_id: self.last_id,
        }
    }

}

/// `batch` is in dispatch order: each job is due before the next.
pub open spec fn in_due_order(batch: Seq<JobView>) -> bool {
    forall|k: int, m: int|
        0 <= k < m < batch.len() ==> (#[trigger] batch[k]).due_before(#[trigger] batch[m])
}

/// How many jobs a selection hands out where `ready` rows are ready: all of
/// them under a negative `limit`, which sets no bound, else at most `limit`.
pub open spec fn batch_len(ready: nat, limit: int) -> nat {
    if limit < 0 || ready <= limit {
        ready
    } else {
        limit as nat
    }
}

/// `batch` is what a selection with the given bounds hands out of `rows`:
/// ready rows only, in dispatch order, as many as the limit allows, and a
/// ready row is left out only of a full batch whose jobs are all due before
/// it.
pub open spec fn is_ready_batch(
    batch: Seq<JobView>,
    rows: Seq<JobView>,
    limit: int,
    now: int,
    cutoff: int,
) -> bool {
    &&& forall|k: int|
        0 <= k < batch.len() ==> rows.contains(#[trigger] batch[k]) && batch[k].ready(now, cutoff)
    &&& in_due_order(batch)
    &&& batch.len() == batch_len(rows.filter(is_ready(now, cutoff)).len(), limit)
    &&& forall|i: int|
        0 <= i < rows.len() && (#[trigger] rows[i]).ready(now, cutoff) && !batch.contains(rows[i])
            ==> batch.len() == limit && all_due_before(batch, rows[i])
}

/// Every job of `batch` is due before `job`.
pub open spec fn all_due_before(batch: Seq<JobView>, job: JobView) -> bool {
    forall|k: int| 0 <= k < batch.len() ==> (#[trigger] batch[k]).due_before(job)
}

/// In a well-formed table the row with a given identity is the one row that
/// carries it.
pub proof fn lemma_row_at(table: TableView, k: int)
    requires
        table.wf(),
        0 <= k < table.rows.len(),
    ensures
        table.holds(table.rows[k].id),
        table.row(table.rows[k].id) == table.rows[k],
{
    let id = table.rows[k].id;
    let i = choose|i: int| 0 <= i < table.rows.len() && (#[trigger] table.rows[i]).id == id;
    assert(i == k) by {
        if i < k {
            assert(table.rows[i].id < table.rows[k].id);
        }
        if k < i {
            assert(table.rows[k].id < table.rows[i].id);
        }
    }
}

/// A filter that every row passes deletes nothing.
pub proof fn lemma_filter_keeps_all(rows: Seq<JobView>, keep: spec_fn(JobView) -> bool)
    requires
        forall|i: int| 0 <= i < rows.len() ==> keep(#[trigger] rows[i]),
    ensures
        rows.filter(keep) == rows,
    decreases rows.len(),
{
    reveal(Seq::filter);
    if rows.len() > 0 {
        lemma_filter_keeps_all(rows.drop_last(), keep);
        assert(rows.drop_last().push(rows.last()) =~= rows);
    }
}

/// Deleting by identity removes exactly the row that carries it.
pub proof fn lemma_delete_is_remove(table: TableView, k: int)
    requires
        table.wf(),
        0 <= k < table.rows.len(),
    ensures
        table.rows.filter(other_than(table.rows[k].id)) == table.rows.remove(k),
{
    let rows = table.rows;
    let keep = other_than(rows[k].id);
    let head = rows.take(k);
    let tail = rows.skip(k + 1);
    let one = seq![rows[k]];
    assert(rows =~= head + one + tail);
    lemma_filter_keeps_all(head, keep);
    lemma_filter_keeps_all(tail, keep);
    assert(one.filter(keep) =~= Seq::<JobView>::empty()) by {
        reveal_with_fuel(Seq::filter, 2);
    }
    Seq::filter_distributes_over_add(head + one, tail, keep);
    Seq::filter_distributes_over_add(head, one, keep);
    assert(rows.remove(k) =~= head + tail);
}

/// Deleting rows, by whatever rule, keeps the table's invariant.
pub proof fn lemma_filter_keeps_wf(table: TableView, keep: spec_fn(JobView) -> bool)
    requires
        table.wf(),
    ensures
        (TableView { rows: table.rows.filter(keep), last_id: table.last_id }).wf(),
    decreases table.rows.len(),
{
    reveal(Seq::filter);
    if table.rows.len() > 0 {
        let shorter = TableView { rows: table.rows.drop_last(), last_id: table.last_id };
        lemma_filter_keeps_wf(shorter, keep);
        let kept = shorter.rows.filter(keep);
        assert forall|i: int| 0 <= i < kept.len() implies (#[trigger] kept[i]).id
            < table.rows.last().id by {
            shorter.rows.lemma_filter_contains_rev(keep, kept[i]);
            let k = choose|k: int| 0 <= k < shorter.rows.len() && shorter.rows[k] == kept[i];
            assert(table.rows[k] == kept[i]);
        }
    }
}


/// Among the rows seen so far, a batch stays the answer when the next row
/// is not ready, or is ready but due after every job of a full batch.
pub proof fn lemma_batch_passes_over(
    table: TableView,
    i: int,
    batch: Seq<JobView>,
    limit: int,
    now: int,
    cutoff: int,
)
    requires
        table.wf(),
        0 <= i < table.rows.len(),
        is_ready_batch(batch, table.rows.take(i), limit, now, cutoff),
        table.rows[i].ready(now, cutoff) ==> batch.len() == limit && all_due_before(
            batch,
            table.rows[i],
        ),
    ensures
        is_ready_batch(batch, table.rows.take(i + 1), limit, now, cutoff),
{
    let seen = table.rows.take(i);
    let next = table.rows.take(i + 1);
    let row = table.rows[i];
    assert(next =~= seen.push(row));
    seen.lemma_filter_push(row, is_ready(now, cutoff));
    assert forall|k: int| 0 <= k < batch.len() implies next.contains(#[trigger] batch[k]) by {
        let j = choose|j: int| 0 <= j < seen.len() && seen[j] == batch[k];
        assert(next[j] == batch[k]);
    }
    assert forall|j: int|
        0 <= j < next.len() && (#[trigger] next[j]).ready(now, cutoff) && !batch.contains(
            next[j],
        ) implies batch.len() == limit && all_due_before(batch, next[j]) by {
        if j < i {
            assert(seen[j] == next[j]);
        }
    }
}

/// Among the rows seen so far, a batch that is not full takes the next row,
/// if it is ready, at the place that keeps the dispatch order.
pub proof fn lemma_batch_takes(
    table: TableView,
    i: int,
    batch: Seq<JobView>,
    p: int,
    limit: int,
    now: int,
    cutoff: int,
)
    requires
        table.wf(),
        0 <= i < table.rows.len(),
        is_ready_batch(batch, table.rows.take(i), limit, now, cutoff),
        table.rows[i].ready(now, cutoff),
        batch.len() != limit,
        0 <= p <= batch.len(),
        forall|k: int| 0 <= k < p ==> (#[trigger] batch[k]).due_before(table.rows[i]),
        forall|k: int| p <= k < batch.len() ==> !(#[trigger] batch[k]).due_before(table.rows[i]),
    ensures
        is_ready_batch(batch.insert(p, table.rows[i]), table.rows.take(i + 1), limit, now, cutoff),
{
    let seen = table.rows.take(i);
    let next = table.rows.take(i + 1);
    let row = table.rows[i];
    let grown = batch.insert(p, row);
    assert(next =~= seen.push(row));
    seen.lemma_filter_push(row, is_ready(now, cutoff));
    assert(next[i] == row);
    assert(grown[p] == row);
    assert forall|k: int| 0 <= k < batch.len() implies (#[trigger] batch[k]).id != row.id
        && next.contains(batch[k]) && grown.contains(batch[k]) by {
        let j = choose|j: int| 0 <= j < seen.len() && seen[j] == batch[k];
        assert(table.rows[j] == batch[k]);
        assert(next[j] == batch[k]);
        if k < p {
            assert(grown[k] == batch[k]);
        } else {
            assert(grown[k + 1] == batch[k]);
        }
    }
    assert forall|k: int| 0 <= k < grown.len() implies next.contains(#[trigger] grown[k])
        && grown[k].ready(now, cutoff) by {
        if k < p {
            assert(grown[k] == batch[k]);
        } else if k > p {
            assert(grown[k] == batch[k - 1]);
        }
    }
    assert forall|k: int, m: int| 0 <= k < m < grown.len() implies (#[trigger] grown[k]).due_before(
        #[trigger] grown[m],
    ) by {
        let a = if k < p { batch[k] } else if k == p { row } else { batch[k - 1] };
        let b = if m < p { batch[m] } else if m == p { row } else { batch[m - 1] };
        assert(grown[k] == a && grown[m] == b);
    }
    assert forall|j: int|
        0 <= j < next.len() && (#[trigger] next[j]).ready(now, cutoff) implies grown.contains(
        next[j],
    ) by {
        if j < i {
            assert(seen[j] == next[j]);
            let k = choose|k: int| 0 <= k < batch.len() && batch[k] == seen[j];
            assert(grown.contains(batch[k]));
        }
    }
}

/// Among the rows seen so far, a full batch takes the next row, if it is
/// ready and due before one of its jobs, and drops its last job for it.
pub proof fn lemma_batch_takes_and_drops(
    table: TableView,
    i: int,
    batch: Seq<JobView>,
    p: int,
    limit: int,
    now: int,
    cutoff: int,
)
    requires
        table.wf(),
        0 <= i < table.rows.len(),
        is_ready_batch(batch, table.rows.take(i), limit, now, cutoff),
        table.rows[i].ready(now, cutoff),
        batch.len() == limit,
        0 <= p < batch.len(),
        forall|k: int| 0 <= k < p ==> (#[trigger] batch[k]).due_before(table.rows[i]),
        forall|k: int| p <= k < batch.len() ==> !(#[trigger] batch[k]).due_before(table.rows[i]),
    ensures
        is_ready_batch(
            batch.insert(p, table.rows[i]).drop_last(),
            table.rows.take(i + 1),
            limit,
            now,
            cutoff,
        ),
{
    let seen = table.rows.take(i);
    let next = table.rows.take(i + 1);
    let row = table.rows[i];
    let cut = batch.insert(p, row).drop_last();
    let out = batch.last();
    assert(next =~= seen.push(row));
    seen.lemma_filter_push(row, is_ready(now, cutoff));
    assert(next[i] == row);
    assert(cut[p] == row);
    assert forall|k: int| 0 <= k < batch.len() implies (#[trigger] batch[k]).id != row.id
        && next.contains(batch[k]) by {
        let j = choose|j: int| 0 <= j < seen.len() && seen[j] == batch[k];
        assert(table.rows[j] == batch[k]);
        assert(next[j] == batch[k]);
    }
    assert forall|k: int| 0 <= k < batch.len() - 1 implies cut.contains(#[trigger] batch[k]) by {
        if k < p {
            assert(cut[k] == batch[k]);
        } else {
            assert(cut[k + 1] == batch[k]);
        }
    }
    assert forall|k: int| 0 <= k < cut.len() implies next.contains(#[trigger] cut[k]) && cut[k].ready(
        now,
        cutoff,
    ) by {
        if k < p {
            assert(cut[k] == batch[k]);
        } else if k > p {
            assert(cut[k] == batch[k - 1]);
        }
    }
    assert forall|k: int, m: int| 0 <= k < m < cut.len() implies (#[trigger] cut[k]).due_before(
        #[trigger] cut[m],
    ) by {
        let a = if k < p { batch[k] } else if k == p { row } else { batch[k - 1] };
        let b = if m < p { batch[m] } else if m == p { row } else { batch[m - 1] };
        assert(cut[k] == a && cut[m] == b);
    }
    assert forall|k: int| 0 <= k < cut.len() implies (#[trigger] cut[k]).due_before(out) by {
        if k < p {
            assert(cut[k] == batch[k]);
        } else if k == p {
            assert(!batch[p].due_before(row));
        } else {
            assert(cut[k] == batch[k - 1]);
        }
    }
    assert forall|j: int|
        0 <= j < next.len() && (#[trigger] next[j]).ready(now, cutoff) && !cut.contains(
            next[j],
        ) implies all_due_before(cut, next[j]) by {
        assert(j < i);
        assert(seen[j] == next[j]);
        if batch.contains(seen[j]) {
            let k = choose|k: int| 0 <= k < batch.len() && batch[k] == seen[j];
            if k < batch.len() - 1 {
                assert(cut.contains(batch[k]));
            }
            assert(next[j] == out);
        } else {
            assert(all_due_before(batch, seen[j]));
            assert forall|k: int| 0 <= k < cut.len() implies (#[trigger] cut[k]).due_before(
                next[j],
            ) by {
                if k < p {
                    assert(cut[k] == batch[k]);
                } else if k == p {
                    assert(!batch[p].due_before(row));
                    assert(batch[p].due_before(seen[j]));
                } else {
                    assert(cut[k] == batch[k - 1]);
                }
            }
        }
    }
}

} // verus!
