//! What holds of the queue whatever its state: statements that relate the
//! operations to each other, proved over the model of the table.

use crate::job::JobView;
use crate::model::{
    all_due_before, other_than, is_ready_batch, lemma_filter_keeps_all, lemma_filter_keeps_wf,
    survives, TableView,
};
use vstd::prelude::*;

verus! {

/// A purge leaves no row that was created before the cutoff, keeps every
/// other row, and invents none.
pub proof fn purge_deletes_exactly_the_expired(table: TableView, cutoff: int)
    ensures
        forall|i: int|
            0 <= i < table.purge(cutoff).rows.len() ==> !(#[trigger] table.purge(cutoff).rows[i]).expired(
                cutoff,
            ),
        forall|job: JobView|
            table.purge(cutoff).rows.contains(job) <==> table.rows.contains(job) && !job.expired(cutoff),
{
    let kept = table.purge(cutoff).rows;
    assert forall|i: int| 0 <= i < kept.len() implies !(#[trigger] kept[i]).expired(cutoff) by {
        table.rows.lemma_filter_pred(survives(cutoff), i);
    }
    assert forall|job: JobView|
        kept.contains(job) <==> table.rows.contains(job) && !job.expired(cutoff) by {
        if kept.contains(job) {
            let i = choose|i: int| 0 <= i < kept.len() && kept[i] == job;
            table.rows.lemma_filter_pred(survives(cutoff), i);
            table.rows.lemma_filter_contains_rev(survives(cutoff), job);
        }
        if table.rows.contains(job) && !job.expired(cutoff) {
            let i = choose|i: int| 0 <= i < table.rows.len() && table.rows[i] == job;
            table.rows.lemma_filter_contains(survives(cutoff), i);
        }
    }
}

/// Reporting success twice is the same as reporting it once.
pub proof fn mark_success_is_idempotent(table: TableView, id: int)
    ensures
        table.mark_success(id).mark_success(id) == table.mark_success(id),
        !table.mark_success(id).holds(id),
{
    let once = table.mark_success(id).rows;
    assert forall|i: int| 0 <= i < once.len() implies other_than(id)(#[trigger] once[i]) by {
        table.rows.lemma_filter_pred(other_than(id), i);
    }
    lemma_filter_keeps_all(once, other_than(id));
}

/// Reporting success for an identity that is not stored changes nothing.
pub proof fn mark_success_of_absent_job_changes_nothing(table: TableView, id: int)
    requires
        !table.holds(id),
    ensures
        table.mark_success(id) == table,
{
    lemma_filter_keeps_all(table.rows, other_than(id));
}

/// Reporting a failure for an identity that is not stored changes nothing.
pub proof fn mark_failure_of_absent_job_changes_nothing(
    table: TableView,
    id: int,
    attempts: int,
    next_retry_at: int,
    last_error: Option<Seq<char>>,
)
    requires
        !table.holds(id),
    ensures
        table.mark_failure(id, attempts, next_retry_at, last_error) == table,
{
    assert(table.mark_failure(id, attempts, next_retry_at, last_error).rows =~= table.rows);
}

/// Two batches that answer the same selection agree on their first `n`
/// jobs.
proof fn lemma_batches_agree(
    table: TableView,
    first: Seq<JobView>,
    second: Seq<JobView>,
    limit: int,
    now: int,
    cutoff: int,
    n: int,
)
    requires
        table.wf(),
        is_ready_batch(first, table.rows, limit, now, cutoff),
        is_ready_batch(second, table.rows, limit, now, cutoff),
        0 <= n <= first.len(),
        n <= second.len(),
    ensures
        forall|j: int| 0 <= j < n ==> first[j] == second[j],
    decreases n,
{
    if n > 0 {
        lemma_batches_agree(table, first, second, limit, now, cutoff, n - 1);
        let i = n - 1;
        let a = first[i];
        let b = second[i];
        let ia = choose|r: int| 0 <= r < table.rows.len() && table.rows[r] == a;
        let ib = choose|r: int| 0 <= r < table.rows.len() && table.rows[r] == b;
        assert(table.rows.contains(a) && table.rows.contains(b));
        if a.due_before(b) {
            if second.contains(a) {
                let m = choose|m: int| 0 <= m < second.len() && second[m] == a;
                if m < i {
                    assert(first[m].due_before(first[i]));
                } else if m > i {
                    assert(second[i].due_before(second[m]));
                }
                assert(false);
            }
            assert(table.rows[ia].ready(now, cutoff));
            assert(all_due_before(second, a));
            assert(second[i].due_before(a));
            assert(false);
        }
        if b.due_before(a) {
            if first.contains(b) {
                let m = choose|m: int| 0 <= m < first.len() && first[m] == b;
                if m < i {
                    assert(second[m].due_before(second[i]));
                } else if m > i {
                    assert(first[i].due_before(first[m]));
                }
                assert(false);
            }
            assert(table.rows[ib].ready(now, cutoff));
            assert(all_due_before(first, b));
            assert(first[i].due_before(b));
            assert(false);
        }
        assert(a.id == b.id);
        if ia < ib {
            assert(table.rows[ia].id < table.rows[ib].id);
        }
        if ib < ia {
            assert(table.rows[ib].id < table.rows[ia].id);
        }
    }
}

/// A selection has one answer: two batches that both are what a selection
/// with the same bounds hands out of the same table are the same batch.
pub proof fn ready_batch_is_unique(
    table: TableView,
    first: Seq<JobView>,
    second: Seq<JobView>,
    limit: int,
    now: int,
    cutoff: int,
)
    requires
        table.wf(),
        is_ready_batch(first, table.rows, limit, now, cutoff),
        is_ready_batch(second, table.rows, limit, now, cutoff),
    ensures
        first == second,
{
    lemma_batches_agree(table, first, second, limit, now, cutoff, first.len() as int);
    assert(first =~= second);
}

/// No selected job was created before the cutoff or is due after `now`, and
/// every selected job is still stored.
pub proof fn ready_batch_holds_stored_ready_jobs(
    batch: Seq<JobView>,
    rows: Seq<JobView>,
    limit: int,
    now: int,
    cutoff: int,
)
    requires
        is_ready_batch(batch, rows, limit, now, cutoff),
    ensures
        forall|k: int|
            0 <= k < batch.len() ==> {
                &&& (#[trigger] batch[k]).created_at >= cutoff
                &&& batch[k].next_retry_at <= now
                &&& rows.contains(batch[k])
            },
        limit >= 0 ==> batch.len() <= limit,
{
}

/// A job that was just enqueued is the one job that a selection of one, at
/// the time of its creation and with that time as cutoff, hands out,
/// provided that no older row is ready at that same moment.
pub proof fn fresh_job_is_selected_at_once(
    table: TableView,
    job_type: Seq<char>,
    payload_json: Seq<char>,
    now: int,
    batch: Seq<JobView>,
)
    requires
        table.wf(),
        forall|i: int| 0 <= i < table.rows.len() ==> !(#[trigger] table.rows[i]).ready(now, now),
        is_ready_batch(
            batch,
            table.enqueue(job_type, payload_json, now).purge(now).rows,
            1,
            now,
            now,
        ),
    ensures
        batch == seq![JobView::fresh(table.last_id + 1, job_type, payload_json, now)],
{
    let job = JobView::fresh(table.last_id + 1, job_type, payload_json, now);
    let stored = table.enqueue(job_type, payload_json, now);
    let rows = stored.purge(now).rows;
    purge_deletes_exactly_the_expired(stored, now);
    assert(stored.rows[table.rows.len() as int] == job);
    assert(stored.rows.contains(job));
    assert(rows.contains(job));
    assert forall|k: int| 0 <= k < batch.len() implies #[trigger] batch[k] == job by {
        assert(rows.contains(batch[k]));
        assert(stored.rows.contains(batch[k]));
        let r = choose|r: int| 0 <= r < stored.rows.len() && stored.rows[r] == batch[k];
        if r < table.rows.len() {
            assert(table.rows[r] == batch[k]);
        }
    }
    if batch.len() >= 2 {
        assert(batch[0].due_before(batch[1]));
    }
    if batch.len() == 0 {
        let r = choose|r: int| 0 <= r < rows.len() && rows[r] == job;
        assert(rows[r].ready(now, now));
        assert(!batch.contains(rows[r]));
    }
    assert(batch =~= seq![job]);
}

/// Selecting claims nothing: after a selection the same selection, or one
/// at a later time, still finds every job that was handed out ready and
/// stored, so a job whose worker never reports is offered again.
pub proof fn selected_jobs_stay_ready(
    table: TableView,
    batch: Seq<JobView>,
    limit: int,
    now: int,
    later: int,
    cutoff: int,
)
    requires
        now <= later,
        is_ready_batch(batch, table.purge(cutoff).rows, limit, now, cutoff),
    ensures
        table.purge(cutoff).purge(cutoff) == table.purge(cutoff),
        forall|k: int|
            0 <= k < batch.len() ==> {
                &&& table.purge(cutoff).rows.contains(#[trigger] batch[k])
                &&& batch[k].ready(later, cutoff)
            },
{
    let once = table.purge(cutoff).rows;
    assert forall|i: int| 0 <= i < once.len() implies survives(cutoff)(#[trigger] once[i]) by {
        table.rows.lemma_filter_pred(survives(cutoff), i);
    }
    lemma_filter_keeps_all(once, survives(cutoff));
}

/// Selecting twice with the same bounds, with nothing else in between, hands
/// out the same batch twice: at least once, not at most once.
pub proof fn selection_is_repeatable(
    table: TableView,
    first: Seq<JobView>,
    second: Seq<JobView>,
    limit: int,
    now: int,
    cutoff: int,
)
    requires
        table.wf(),
        is_ready_batch(first, table.purge(cutoff).rows, limit, now, cutoff),
        is_ready_batch(second, table.purge(cutoff).purge(cutoff).rows, limit, now, cutoff),
    ensures
        first == second,
{
    selected_jobs_stay_ready(table, first, limit, now, now, cutoff);
    lemma_filter_keeps_wf(table, survives(cutoff));
    ready_batch_is_unique(table.purge(cutoff), first, second, limit, now, cutoff);
}

/// Every operation keeps the table's invariant.
pub proof fn operations_keep_the_invariant(table: TableView)
    requires
        table.wf(),
    ensures
        forall|job_type: Seq<char>, payload_json: Seq<char>, now: int|
            (#[trigger] table.enqueue(job_type, payload_json, now)).wf(),
        forall|cutoff: int| (#[trigger] table.purge(cutoff)).wf(),
        forall|id: int| (#[trigger] table.mark_success(id)).wf(),
        forall|id: int, attempts: int, next_retry_at: int, last_error: Option<Seq<char>>|
            (#[trigger] table.mark_failure(id, attempts, next_retry_at, last_error)).wf(),
{
    assert forall|cutoff: int| (#[trigger] table.purge(cutoff)).wf() by {
        lemma_filter_keeps_wf(table, survives(cutoff));
    }
    assert forall|id: int| (#[trigger] table.mark_success(id)).wf() by {
        lemma_filter_keeps_wf(table, other_than(id));
    }
}

} // verus!
