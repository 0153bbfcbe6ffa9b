//! Histories: sequences of operations applied to a table, and what holds of
//! a job over its whole life.

use crate::job::JobView;
use crate::model::{
    other_than, lemma_filter_keeps_wf, lemma_row_at, report_failure, survives, TableView,
};
use vstd::prelude::*;

verus! {

/// One call of a queue operation, with its arguments.
pub ghost enum QueueOp {
    Enqueue { job_type: Seq<char>, payload_json: Seq<char>, now: int },
    SelectReady { limit: int, now: int, cutoff: int },
    MarkSuccess { id: int },
    MarkFailure { id: int, attempts: int, next_retry_at: int, last_error: Option<Seq<char>> },
}

/// The table after one operation. An enqueue that finds no identity left
/// fails and changes nothing; a selection changes the table by its purge
/// alone.
pub open spec fn step(table: TableView, op: QueueOp) -> TableView {
    match op {
        QueueOp::Enqueue { job_type, payload_json, now } => if table.last_id < i64::MAX {
            table.enqueue(job_type, payload_json, now)
        } else {
            table
        },
        QueueOp::SelectReady { limit, now, cutoff } => table.purge(cutoff),
        QueueOp::MarkSuccess { id } => table.mark_success(id),
        QueueOp::MarkFailure { id, attempts, next_retry_at, last_error } => table.mark_failure(
            id,
            attempts,
            next_retry_at,
            last_error,
        ),
    }
}

/// The table after the operations of `ops`, applied in order to `start`.
pub open spec fn run(start: TableView, ops: Seq<QueueOp>) -> TableView
    decreases ops.len(),
{
    if ops.len() == 0 {
        start
    } else {
        step(run(start, ops.drop_last()), ops.last())
    }
}

/// `op` is a failure report for `id` that finds its row in `table`.
pub open spec fn records_failure(table: TableView, op: QueueOp, id: int) -> bool {
    op matches QueueOp::MarkFailure { id: target, .. } && target == id && table.holds(id)
}

/// The number of failure reports in `ops` that found the row of `id`
/// stored: the reports made for it between its enqueue and its deletion.
pub open spec fn failures_recorded(start: TableView, ops: Seq<QueueOp>, id: int) -> nat
    decreases ops.len(),
{
    if ops.len() == 0 {
        0
    } else {
        let before = run(start, ops.drop_last());
        failures_recorded(start, ops.drop_last(), id) + if records_failure(before, ops.last(), id) {
            1nat
        } else {
            0nat
        }
    }
}

/// `op`, if it is a failure report that finds its row in `table`, gives as
/// attempts one more than the row holds.
pub open spec fn counts_up(table: TableView, op: QueueOp) -> bool {
    op matches QueueOp::MarkFailure { id, attempts, .. } ==> (table.holds(id) ==> attempts
        == table.row(id).attempts + 1)
}

/// Every failure report of the history counts up the attempts of its row by
/// one, as a scheduler does that reports each failure once.
pub open spec fn reports_count_up(start: TableView, ops: Seq<QueueOp>) -> bool
    decreases ops.len(),
{
    ops.len() > 0 ==> {
        &&& reports_count_up(start, ops.drop_last())
        &&& counts_up(run(start, ops.drop_last()), ops.last())
    }
}

/// `op`, if it is a failure report that finds its row in `table`, gives a
/// retry time that is not before the row's creation.
pub open spec fn retries_after_creation(table: TableView, op: QueueOp) -> bool {
    op matches QueueOp::MarkFailure { id, next_retry_at, .. } ==> (table.holds(id)
        ==> next_retry_at >= table.row(id).created_at)
}

/// Every row's retry time is at or after its creation time.
pub open spec fn retry_times_in_order(table: TableView) -> bool {
    forall|i: int| 0 <= i < table.rows.len() ==> (#[trigger] table.rows[i]).retry_not_before_creation()
}

/// Deleting rows keeps every row that passes the filter as it is, and adds
/// none.
proof fn lemma_filtered_rows(table: TableView, keep: spec_fn(JobView) -> bool, id: int)
    requires
        table.wf(),
    ensures
        ({
            let kept = TableView { rows: table.rows.filter(keep), last_id: table.last_id };
            &&& kept.wf()
            &&& kept.holds(id) <==> table.holds(id) && keep(table.row(id))
            &&& kept.holds(id) ==> kept.row(id) == table.row(id)
        }),
{
    let kept = TableView { rows: table.rows.filter(keep), last_id: table.last_id };
    lemma_filter_keeps_wf(table, keep);
    if kept.holds(id) {
        let k = choose|k: int| 0 <= k < kept.rows.len() && (#[trigger] kept.rows[k]).id == id;
        table.rows.lemma_filter_pred(keep, k);
        table.rows.lemma_filter_contains_rev(keep, kept.rows[k]);
        let r = choose|r: int| 0 <= r < table.rows.len() && table.rows[r] == kept.rows[k];
        lemma_row_at(table, r);
        lemma_row_at(kept, k);
    }
    if table.holds(id) && keep(table.row(id)) {
        let r = choose|r: int| 0 <= r < table.rows.len() && (#[trigger] table.rows[r]).id == id;
        lemma_row_at(table, r);
        table.rows.lemma_filter_contains(keep, r);
        let k = choose|k: int| 0 <= k < kept.rows.len() && kept.rows[k] == table.rows[r];
        lemma_row_at(kept, k);
    }
}

/// One operation and the row of `id`: the table stays well formed, no
/// identity is handed out twice, a row appears only by an enqueue and then
/// with the next identity and no attempts, and a row that stays is changed
/// by a failure report for it and by nothing else; its identity, type,
/// payload and creation time never change.
pub proof fn step_changes_a_row_by_failure_reports_alone(table: TableView, op: QueueOp, id: int)
    requires
        table.wf(),
    ensures
        step(table, op).wf(),
        step(table, op).last_id >= table.last_id,
        step(table, op).holds(id) && !table.holds(id) ==> {
            &&& op is Enqueue
            &&& id == table.last_id + 1
            &&& step(table, op).row(id) == JobView::fresh(
                id,
                op->job_type,
                op->payload_json,
                op->Enqueue_now,
            )
        },
        step(table, op).holds(id) && table.holds(id) ==> step(table, op).row(id) == (match op {
            QueueOp::MarkFailure { id: target, attempts, next_retry_at, last_error } if target
                == id => table.row(id).failed(attempts, next_retry_at, last_error),
            _ => table.row(id),
        }),
        table.holds(id) && !step(table, op).holds(id) ==> (match op {
            QueueOp::MarkSuccess { id: target } => target == id,
            QueueOp::SelectReady { cutoff, .. } => table.row(id).expired(cutoff),
            _ => false,
        }),
{
    let after = step(table, op);
    match op {
        QueueOp::Enqueue { job_type, payload_json, now } => {
            if table.last_id < i64::MAX {
                let job = JobView::fresh(table.last_id + 1, job_type, payload_json, now);
                let n = table.rows.len() as int;
                assert(after.rows[n] == job);
                assert(after.wf());
                if table.holds(id) {
                    let r = choose|r: int|
                        0 <= r < table.rows.len() && (#[trigger] table.rows[r]).id == id;
                    lemma_row_at(table, r);
                    assert(after.rows[r] == table.rows[r]);
                    lemma_row_at(after, r);
                }
                if after.holds(id) && !table.holds(id) {
                    let k = choose|k: int|
                        0 <= k < after.rows.len() && (#[trigger] after.rows[k]).id == id;
                    if k < n {
                        assert(table.rows[k].id == id);
                    }
                    lemma_row_at(after, n);
                }
            }
        },
        QueueOp::SelectReady { limit, now, cutoff } => {
            lemma_filtered_rows(table, survives(cutoff), id);
        },
        QueueOp::MarkSuccess { id: target } => {
            lemma_filtered_rows(table, other_than(target), id);
            if table.holds(id) {
                let r = choose|r: int|
                    0 <= r < table.rows.len() && (#[trigger] table.rows[r]).id == id;
                lemma_row_at(table, r);
            }
        },
        QueueOp::MarkFailure { id: target, attempts, next_retry_at, last_error } => {
            let report = report_failure(target, attempts, next_retry_at, last_error);
            assert forall|i: int| 0 <= i < after.rows.len() implies (#[trigger] after.rows[i]).id
                == table.rows[i].id by {}
            assert(after.wf());
            if table.holds(id) {
                let r = choose|r: int|
                    0 <= r < table.rows.len() && (#[trigger] table.rows[r]).id == id;
                lemma_row_at(table, r);
                assert(after.rows[r].id == id);
                lemma_row_at(after, r);
            }
            if after.holds(id) {
                let k = choose|k: int|
                    0 <= k < after.rows.len() && (#[trigger] after.rows[k]).id == id;
                assert(table.rows[k].id == id);
            }
        },
    }
}

/// Along a history the table stays well formed and its last identity never
/// falls; an identity that was not handed out yet has no row and no
/// recorded failure.
proof fn lemma_run(start: TableView, ops: Seq<QueueOp>, id: int)
    requires
        start.wf(),
    ensures
        run(start, ops).wf(),
        run(start, ops).last_id >= start.last_id,
        id > run(start, ops).last_id ==> failures_recorded(start, ops, id) == 0,
        id > run(start, ops).last_id ==> !run(start, ops).holds(id),
    decreases ops.len(),
{
    if ops.len() > 0 {
        let before = run(start, ops.drop_last());
        lemma_run(start, ops.drop_last(), id);
        step_changes_a_row_by_failure_reports_alone(before, ops.last(), id);
    }
    let end = run(start, ops);
    if end.holds(id) {
        let k = choose|k: int| 0 <= k < end.rows.len() && (#[trigger] end.rows[k]).id == id;
        assert(end.rows[k].id <= end.last_id);
    }
    if ops.len() > 0 && id > end.last_id {
        let before = run(start, ops.drop_last());
        if before.holds(id) {
            let k = choose|k: int|
                0 <= k < before.rows.len() && (#[trigger] before.rows[k]).id == id;
            assert(before.rows[k].id <= before.last_id);
        }
    }
}

/// The attempts of a stored job are the number of failure reports made for
/// it since it was enqueued, in every history from the empty table in which
/// each report counts the attempts up by one.
pub proof fn attempts_count_the_failure_reports(ops: Seq<QueueOp>, id: int)
    requires
        reports_count_up(TableView::empty(), ops),
    ensures
        run(TableView::empty(), ops).wf(),
        run(TableView::empty(), ops).holds(id) ==> run(TableView::empty(), ops).row(id).attempts
            == failures_recorded(TableView::empty(), ops, id),
    decreases ops.len(),
{
    let start = TableView::empty();
    lemma_run(start, ops, id);
    if ops.len() > 0 {
        let before = run(start, ops.drop_last());
        attempts_count_the_failure_reports(ops.drop_last(), id);
        lemma_run(start, ops.drop_last(), id);
        step_changes_a_row_by_failure_reports_alone(before, ops.last(), id);
    } else {
        assert(!start.holds(id));
    }
}

/// Retry times stay at or after creation times, in every history in which
/// each failure report gives a retry time that is not before the creation
/// of its job.
pub proof fn step_keeps_retry_times_in_order(table: TableView, op: QueueOp)
    requires
        table.wf(),
        retry_times_in_order(table),
        retries_after_creation(table, op),
    ensures
        retry_times_in_order(step(table, op)),
{
    let after = step(table, op);
    assert forall|i: int| 0 <= i < after.rows.len() implies (#[trigger] after.rows[i]).retry_not_before_creation() by {
        let id = after.rows[i].id;
        step_changes_a_row_by_failure_reports_alone(table, op, id);
        lemma_row_at(after, i);
        if table.holds(id) {
            let r = choose|r: int| 0 <= r < table.rows.len() && (#[trigger] table.rows[r]).id == id;
            lemma_row_at(table, r);
        }
    }
}

} // verus!
