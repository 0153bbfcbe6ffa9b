//! The job table: the stored rows in insertion order, and the operations of
//! the queue on them.

use crate::error::StorageError;
use crate::job::{error_view, JobView, PublicHighlightRetryJob};
use crate::model::{
    in_due_order, other_than, is_ready_batch, lemma_batch_passes_over, lemma_batch_takes,
    lemma_batch_takes_and_drops, lemma_delete_is_remove, lemma_filter_keeps_all,
    lemma_filter_keeps_wf, lemma_row_at, report_failure, survives, TableView,
};
use vstd::prelude::*;

verus! {

/// The models of a sequence of job records.
pub open spec fn views(jobs: Seq<PublicHighlightRetryJob>) -> Seq<JobView> {
    jobs.map_values(|job: PublicHighlightRetryJob| job@)
}

/// The job table.
pub struct JobTable {
    rows: Vec<PublicHighlightRetryJob>,
    last_id: i64,
}

impl View for JobTable {
    type V = TableView;

    closed spec fn view(&self) -> TableView {
        TableView { rows: views(self.rows@), last_id: self.last_id as int }
    }
}

impl JobTable {
    /// The invariant of the table.
    pub open spec fn wf(&self) -> bool {
        self@.wf()
    }

    /// An empty table.
    pub fn new() -> (table: Self)
        ensures
            table.wf(),
            table@ == TableView::empty(),
    {
        let table = JobTable { rows: Vec::new(), last_id: 0 };
        assert(table@.rows =~= Seq::empty());
        table
    }

    /// The number of stored rows.
    pub fn len(&self) -> (n: usize)
        ensures
            n == self@.rows.len(),
    {
        self.rows.len()
    }

    /// The table that holds `rows`, in their order, after `last_id` was the
    /// largest identity handed out; nothing where the rows cannot be those
    /// of a table: an identity below 1 or above `last_id`, or identities
    /// that do not grow along the rows.
    pub fn from_rows(rows: Vec<PublicHighlightRetryJob>, last_id: i64) -> (table: Option<Self>)
        ensures
            match table {
                Some(t) => t.wf() && t@ == (TableView { rows: views(rows@), last_id: last_id as int }),
                None => !(TableView { rows: views(rows@), last_id: last_id as int }).wf(),
            },
    {
        let ghost model = TableView { rows: views(rows@), last_id: last_id as int };
        if last_id < 0 {
            return None;
        }
        let mut previous: i64 = 0;
        let mut i: usize = 0;
        while i < rows.len()
            invariant
                i <= rows@.len(),
                model == (TableView { rows: views(rows@), last_id: last_id as int }),
                0 <= previous <= last_id,
                i == 0 ==> previous == 0,
                i > 0 ==> previous == model.rows[i - 1].id,
                forall|k: int| 0 <= k < i ==> 1 <= (#[trigger] model.rows[k]).id <= last_id,
                forall|k: int, m: int|
                    0 <= k < m < i ==> (#[trigger] model.rows[k]).id < (#[trigger] model.rows[m]).id,
            decreases rows@.len() - i,
        {
            let id: i64 = rows[i].id;
            assert(model.rows[i as int].id == id);
            if id <= previous || id > last_id {
                proof {
                    if i > 0 && id <= previous {
                        assert(!(model.rows[i - 1].id < model.rows[i as int].id));
                    } else {
                        assert(!(1 <= model.rows[i as int].id <= model.last_id));
                    }
                    assert(!model.wf());
                }
                return None;
            }
            proof {
                assert forall|k: int, m: int| 0 <= k < m < i + 1 implies (#[trigger] model.rows[k]).id
                    < (#[trigger] model.rows[m]).id by {
                    if m == i && k < i - 1 {
                        assert(model.rows[k].id < model.rows[i - 1].id);
                    }
                }
            }
            previous = id;
            i = i + 1;
        }
        Some(JobTable { rows, last_id })
    }

    /// A copy of every stored row, in insertion order.
    pub fn rows(&self) -> (copy: Vec<PublicHighlightRetryJob>)
        ensures
            views(copy@) == self@.rows,
    {
        let mut copy: Vec<PublicHighlightRetryJob> = Vec::new();
        let mut i: usize = 0;
        while i < self.rows.len()
            invariant
                i <= self.rows@.len(),
                views(copy@) == self@.rows.take(i as int),
            decreases self.rows@.len() - i,
        {
            let ghost sofar = views(copy@);
            let job = self.rows[i].clone();
            copy.push(job);
            assert(views(copy@) =~= sofar.push(job@));
            assert(self@.rows.take(i + 1) =~= self@.rows.take(i as int).push(self@.rows[i as int]));
            i = i + 1;
        }
        assert(self@.rows.take(self.rows@.len() as int) =~= self@.rows);
        copy
    }

    /// The largest identity handed out so far; 0 before the first enqueue.
    pub fn last_id(&self) -> (id: i64)
        ensures
            id == self@.last_id,
    {
        self.last_id
    }

    /// Stores a new job, created at `now` and due at once, and returns its
    /// identity: one more than the last that was handed out. Fails, and
    /// changes nothing, when no identity is left.
    pub fn enqueue(&mut self, job_type: String, payload_json: String, now: i64) -> (outcome: Result<
        i64,
        StorageError,
    >)
        requires
            old(self).wf(),
        ensures
            final(self).wf(),
            match outcome {
                Ok(id) => {
                    &&& old(self)@.last_id < i64::MAX
                    &&& id == old(self)@.last_id + 1
                    &&& final(self)@ == old(self)@.enqueue(job_type@, payload_json@, now as int)
                },
                Err(e) => {
                    &&& old(self)@.last_id == i64::MAX
                    &&& e == StorageError::IdentitiesExhausted
                    &&& final(self)@ == old(self)@
                },
            },
    {
        if self.last_id == i64::MAX {
            return Err(StorageError::IdentitiesExhausted);
        }
        let id: i64 = self.last_id + 1;
        let job = PublicHighlightRetryJob::new(id, job_type, payload_json, now);
        self.rows.push(job);
        self.last_id = id;
        assert(self@.rows =~= old(self)@.rows.push(job@));
        Ok(id)
    }

    /// Deletes every row created before `cutoff`, whatever its retry state,
    /// and returns how many rows that were.
    pub fn purge_expired(&mut self, cutoff: i64) -> (deleted: usize)
        requires
            old(self).wf(),
        ensures
            final(self).wf(),
            final(self)@ == old(self)@.purge(cutoff as int),
            deleted == old(self)@.rows.len() - final(self)@.rows.len(),
    {
        let mut stored: Vec<PublicHighlightRetryJob> = Vec::new();
        core::mem::swap(&mut self.rows, &mut stored);
        let ghost before = views(stored@);
        let total = stored.len();
        let mut deleted: usize = 0;
        for job in it: stored
            invariant
                it.seq() == old(self).rows@,
                before == views(old(self).rows@),
                self.last_id == old(self).last_id,
                views(self.rows@) == before.take(it.index() as int).filter(survives(cutoff as int)),
                deleted + self.rows@.len() == it.index(),
                it.index() <= it.seq().len() == total,
        {
            proof {
                let i = it.index() as int;
                assert(before.take(i + 1) =~= before.take(i).push(before[i]));
                before.take(i).lemma_filter_push(before[i], survives(cutoff as int));
            }
            if job.is_expired(cutoff) {
                deleted = deleted + 1;
            } else {
                let ghost kept = views(self.rows@);
                self.rows.push(job);
                assert(views(self.rows@) =~= kept.push(job@));
            }
        }
        proof {
            assert(before.take(before.len() as int) =~= before);
            lemma_filter_keeps_wf(old(self)@, survives(cutoff as int));
        }
        deleted
    }

    /// The index of the row with identity `id`, by binary search over the
    /// identities, which grow along the rows.
    fn position_of(&self, id: i64) -> (found: Option<usize>)
        requires
            self.wf(),
        ensures
            match found {
                Some(k) => k < self@.rows.len() && self@.rows[k as int].id == id,
                None => !self@.holds(id as int),
            },
    {
        let mut lo: usize = 0;
        let mut hi: usize = self.rows.len();
        while lo < hi
            invariant
                self.wf(),
                lo <= hi <= self.rows@.len(),
                forall|i: int| 0 <= i < lo ==> (#[trigger] self@.rows[i]).id < id,
                forall|i: int| hi <= i < self.rows@.len() ==> (#[trigger] self@.rows[i]).id > id,
            decreases hi - lo,
        {
            let mid: usize = lo + (hi - lo) / 2;
            let here: i64 = self.rows[mid].id;
            assert(self@.rows[mid as int].id == here);
            if here == id {
                return Some(mid);
            } else if here < id {
                lo = mid + 1;
            } else {
                hi = mid;
            }
        }
        None
    }

    /// Whether a row with identity `id` is stored.
    pub fn contains(&self, id: i64) -> (held: bool)
        requires
            self.wf(),
        ensures
            held == self@.holds(id as int),
    {
        self.position_of(id).is_some()
    }

    /// A copy of the row with identity `id`, if one is stored.
    pub fn find(&self, id: i64) -> (found: Option<PublicHighlightRetryJob>)
        requires
            self.wf(),
        ensures
            match found {
                Some(job) => self@.holds(id as int) && job@ == self@.row(id as int),
                None => !self@.holds(id as int),
            },
    {
        match self.position_of(id) {
            Some(k) => {
                let job = self.rows[k].clone();
                proof {
                    lemma_row_at(self@, k as int);
                }
                Some(job)
            },
            None => None,
        }
    }

    /// Deletes the row with identity `id` and returns the number of rows
    /// deleted: 1, or 0 where no such row is stored, which is no failure.
    pub fn mark_success(&mut self, id: i64) -> (deleted: usize)
        requires
            old(self).wf(),
        ensures
            final(self).wf(),
            final(self)@ == old(self)@.mark_success(id as int),
            deleted == (if old(self)@.holds(id as int) { 1usize } else { 0usize }),
            !old(self)@.holds(id as int) ==> final(self)@ == old(self)@,
    {
        proof {
            lemma_filter_keeps_wf(self@, other_than(id as int));
        }
        match self.position_of(id) {
            Some(k) => {
                let _ = self.rows.remove(k);
                proof {
                    lemma_delete_is_remove(old(self)@, k as int);
                    assert(self@.rows =~= old(self)@.rows.remove(k as int));
                }
                1
            },
            None => {
                proof {
                    lemma_filter_keeps_all(self@.rows, other_than(id as int));
                }
                0
            },
        }
    }

    /// Overwrites attempts, retry time and last error of the row with
    /// identity `id` by the values given, and returns the number of rows
    /// changed: 1, or 0 where no such row is stored, which is no failure.
    pub fn mark_failure(
        &mut self,
        id: i64,
        attempts: i64,
        next_retry_at: i64,
        last_error: Option<String>,
    ) -> (changed: usize)
        requires
            old(self).wf(),
        ensures
            final(self).wf(),
            final(self)@ == old(self)@.mark_failure(
                id as int,
                attempts as int,
                next_retry_at as int,
                error_view(last_error),
            ),
            changed == (if old(self)@.holds(id as int) { 1usize } else { 0usize }),
            !old(self)@.holds(id as int) ==> final(self)@ == old(self)@,
    {
        let ghost report = report_failure(
            id as int,
            attempts as int,
            next_retry_at as int,
            error_view(last_error),
        );
        match self.position_of(id) {
            Some(k) => {
                self.rows[k].record_failure(attempts, next_retry_at, last_error);
                assert(self@.rows =~= old(self)@.rows.map_values(report));
                1
            },
            None => {
                assert(self@.rows =~= self@.rows.map_values(report));
                0
            },
        }
    }

    /// Up to `limit` of the rows that are due at `now` and were created at
    /// or after `cutoff`, earliest retry time first and, among equal retry
    /// times, in insertion order. A negative `limit` sets no bound. Nothing
    /// is claimed or changed: the same call again gives the same batch.
    pub fn ready_batch(&self, limit: i64, now: i64, cutoff: i64) -> (batch: Vec<
        PublicHighlightRetryJob,
    >)
        requires
            self.wf(),
        ensures
            is_ready_batch(views(batch@), self@.rows, limit as int, now as int, cutoff as int),
    {
        let mut batch: Vec<PublicHighlightRetryJob> = Vec::new();
        let total = self.rows.len();
        let mut i: usize = 0;
        proof {
            assert(self@.rows.take(0) =~= Seq::<JobView>::empty());
            reveal(Seq::filter);
        }
        while i < total
            invariant
                self.wf(),
                total == self.rows@.len(),
                i <= total,
                is_ready_batch(
                    views(batch@),
                    self@.rows.take(i as int),
                    limit as int,
                    now as int,
                    cutoff as int,
                ),
            decreases total - i,
        {
            let ghost chosen = views(batch@);
            let ghost row = self@.rows[i as int];
            if self.rows[i].is_ready(now, cutoff) {
                let p = insertion_point(&batch, &self.rows[i]);
                let full = limit >= 0 && batch.len() as u64 == limit as u64;
                if !full {
                    let job = self.rows[i].clone();
                    batch.insert(p, job);
                    proof {
                        assert(views(batch@) =~= chosen.insert(p as int, row));
                        lemma_batch_takes(
                            self@,
                            i as int,
                            chosen,
                            p as int,
                            limit as int,
                            now as int,
                            cutoff as int,
                        );
                    }
                } else if p < batch.len() {
                    let job = self.rows[i].clone();
                    batch.insert(p, job);
                    let _ = batch.pop();
                    proof {
                        assert(views(batch@) =~= chosen.insert(p as int, row).drop_last());
                        lemma_batch_takes_and_drops(
                            self@,
                            i as int,
                            chosen,
                            p as int,
                            limit as int,
                            now as int,
                            cutoff as int,
                        );
                    }
                } else {
                    proof {
                        lemma_batch_passes_over(
                            self@,
                            i as int,
                            chosen,
                            limit as int,
                            now as int,
                            cutoff as int,
                        );
                    }
                }
            } else {
                proof {
                    lemma_batch_passes_over(
                        self@,
                        i as int,
                        chosen,
                        limit as int,
                        now as int,
                        cutoff as int,
                    );
                }
            }
            i = i + 1;
        }
        assert(self@.rows.take(total as int) =~= self@.rows);
        batch
    }

    /// Purges, then selects: deletes every row created before `cutoff`,
    /// then hands out up to `limit` of the remaining rows that are due at
    /// `now`, in dispatch order. The rows handed out stay stored.
    pub fn select_ready(&mut self, limit: i64, now: i64, cutoff: i64) -> (batch: Vec<
        PublicHighlightRetryJob,
    >)
        requires
            old(self).wf(),
        ensures
            final(self).wf(),
            final(self)@ == old(self)@.purge(cutoff as int),
            forall|i: int|
                0 <= i < final(self)@.rows.len() ==> (#[trigger] final(self)@.rows[i]).created_at
                    >= cutoff,
            forall|k: int|
                0 <= k < batch@.len() ==> (#[trigger] batch@[k]).created_at >= cutoff
                    && batch@[k].next_retry_at <= now,
            is_ready_batch(
                views(batch@),
                final(self)@.rows,
                limit as int,
                now as int,
                cutoff as int,
            ),
    {
        let _ = self.purge_expired(cutoff);
        let batch = self.ready_batch(limit, now, cutoff);
        proof {
            assert forall|i: int| 0 <= i < self@.rows.len() implies (#[trigger] self@.rows[i]).created_at
                >= cutoff by {
                old(self)@.rows.lemma_filter_pred(survives(cutoff as int), i);
            }
            assert forall|k: int| 0 <= k < batch@.len() implies (#[trigger] batch@[k]).created_at
                >= cutoff && batch@[k].next_retry_at <= now by {
                assert(views(batch@)[k] == batch@[k]@);
            }
        }
        batch
    }
}

/// Where `job` goes into `batch` so that the dispatch order is kept: behind
/// every job that is due before it, by binary search.
fn insertion_point(batch: &Vec<PublicHighlightRetryJob>, job: &PublicHighlightRetryJob) -> (p: usize)
    requires
        in_due_order(views(batch@)),
    ensures
        p <= batch@.len(),
        forall|k: int| 0 <= k < p ==> (#[trigger] views(batch@)[k]).due_before(job@),
        forall|k: int| p <= k < batch@.len() ==> !(#[trigger] views(batch@)[k]).due_before(job@),
{
    let mut lo: usize = 0;
    let mut hi: usize = batch.len();
    while lo < hi
        invariant
            in_due_order(views(batch@)),
            lo <= hi <= batch@.len(),
            forall|k: int| 0 <= k < lo ==> (#[trigger] views(batch@)[k]).due_before(job@),
            forall|k: int| hi <= k < batch@.len() ==> !(#[trigger] views(batch@)[k]).due_before(job@),
        decreases hi - lo,
    {
        let mid: usize = lo + (hi - lo) / 2;
        assert(views(batch@)[mid as int] == batch@[mid as int]@);
        if batch[mid].is_due_before(job) {
            lo = mid + 1;
        } else {
            hi = mid;
        }
    }
    lo
}

} // verus!
