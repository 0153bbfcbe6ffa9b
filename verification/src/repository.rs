//! The queue repository: the operations that producers and schedulers call,
//! over a storage handle that is passed in explicitly.

use crate::clock::now_millis;
use crate::error::StorageError;
use crate::job::{error_view, PublicHighlightRetryJob};
use crate::model::{is_ready_batch, TableView};
use crate::table::{views, JobTable};
use vstd::prelude::*;

verus! {

/// The storage handle: the job table once storage is initialized, nothing
/// before.
pub struct QueueStore {
    table: Option<JobTable>,
}

impl View for QueueStore {
    type V = Option<TableView>;

    closed spec fn view(&self) -> Option<TableView> {
        match self.table {
            Some(table) => Some(table@),
            None => None,
        }
    }
}

impl QueueStore {
    /// The invariant of the handle: that of its table, where it has one.
    pub open spec fn wf(&self) -> bool {
        match self@ {
            Some(table) => table.wf(),
            None => true,
        }
    }

    /// A handle whose storage is not initialized: every operation on it
    /// fails.
    pub fn uninitialized() -> (store: Self)
        ensures
            store.wf(),
            store@ is None,
    {
        QueueStore { table: None }
    }

    /// A handle over an empty table.
    pub fn initialized() -> (store: Self)
        ensures
            store.wf(),
            store@ == Some(TableView::empty()),
    {
        QueueStore { table: Some(JobTable::new()) }
    }

    /// A handle over the table given.
    pub fn with_table(table: JobTable) -> (store: Self)
        requires
            table.wf(),
        ensures
            store.wf(),
            store@ == Some(table@),
    {
        QueueStore { table: Some(table) }
    }

    /// Whether storage is initialized.
    pub fn is_initialized(&self) -> (ready: bool)
        ensures
            ready == (self@ is Some),
    {
        self.table.is_some()
    }

    /// The table behind the handle, to read, where storage is initialized.
    pub fn table(&self) -> (table: Option<&JobTable>)
        ensures
            match table {
                Some(t) => self@ == Some(t@),
                None => self@ is None,
            },
    {
        self.table.as_ref()
    }

    /// The table behind the handle, or the failure that every operation
    /// reports while storage is not initialized.
    fn table_mut(&mut self) -> (access: Result<&mut JobTable, StorageError>)
        requires
            old(self).wf(),
        ensures
            match access {
                Ok(table) => {
                    &&& old(self)@ == Some(table@)
                    &&& final(self)@ == Some(final(table)@)
                },
                Err(e) => {
                    &&& e == StorageError::NotInitialized
                    &&& old(self)@ is None
                    &&& final(self)@ is None
                },
            },
    {
        match &mut self.table {
            Some(table) => Ok(table),
            None => Err(StorageError::NotInitialized),
        }
    }
}

/// Stores a new job, created at `now`, and returns its identity.
pub fn enqueue_public_highlight_job_at(
    store: &mut QueueStore,
    job_type: String,
    payload_json: String,
    now: i64,
) -> (outcome: Result<i64, StorageError>)
    requires
        old(store).wf(),
    ensures
        final(store).wf(),
        match old(store)@ {
            None => outcome == Err::<i64, StorageError>(StorageError::NotInitialized) && final(store)@ is None,
            Some(table) => match outcome {
                Ok(id) => {
                    &&& table.last_id < i64::MAX
                    &&& id == table.last_id + 1
                    &&& final(store)@ == Some(table.enqueue(job_type@, payload_json@, now as int))
                },
                Err(e) => {
                    &&& table.last_id == i64::MAX
                    &&& e == StorageError::IdentitiesExhausted
                    &&& final(store)@ == old(store)@
                },
            },
        },
{
    match store.table_mut() {
        Ok(table) => table.enqueue(job_type, payload_json, now),
        Err(e) => Err(e),
    }
}

/// Stores a new job, created at the time that the wall clock shows, and
/// returns its identity. Whatever the clock showed, the table is the old one
/// with that job enqueued at some time.
pub fn enqueue_public_highlight_job(
    store: &mut QueueStore,
    job_type: String,
    payload_json: String,
) -> (outcome: Result<i64, StorageError>)
    requires
        old(store).wf(),
    ensures
        final(store).wf(),
        match old(store)@ {
            None => outcome == Err::<i64, StorageError>(StorageError::NotInitialized) && final(store)@ is None,
            Some(table) => match outcome {
                Ok(id) => {
                    &&& table.last_id < i64::MAX
                    &&& id == table.last_id + 1
                    &&& exists|now: i64|
                        final(store)@ == Some(
                            #[trigger] table.enqueue(job_type@, payload_json@, now as int),
                        )
                },
                Err(e) => {
                    &&& table.last_id == i64::MAX
                    &&& e == StorageError::IdentitiesExhausted
                    &&& final(store)@ == old(store)@
                },
            },
        },
{
    let now = now_millis();
    enqueue_public_highlight_job_at(store, job_type, payload_json, now)
}

/// Deletes every job created before `cutoff`, then hands out up to `limit`
/// of the remaining jobs that are due at `now`, earliest retry time first.
pub fn get_public_highlight_retry_jobs(
    store: &mut QueueStore,
    limit: i64,
    now: i64,
    cutoff: i64,
) -> (outcome: Result<Vec<PublicHighlightRetryJob>, StorageError>)
    requires
        old(store).wf(),
    ensures
        final(store).wf(),
        match old(store)@ {
            None => {
                &&& outcome matches Err(e)
                &&& e == StorageError::NotInitialized
                &&& final(store)@ is None
            },
            Some(table) => {
                &&& final(store)@ == Some(table.purge(cutoff as int))
                &&& forall|i: int|
                    0 <= i < table.purge(cutoff as int).rows.len() ==> (#[trigger] table.purge(
                        cutoff as int,
                    ).rows[i]).created_at >= cutoff
                &&& outcome matches Ok(batch)
                &&& forall|k: int|
                    0 <= k < batch@.len() ==> (#[trigger] batch@[k]).created_at >= cutoff
                        && batch@[k].next_retry_at <= now
                &&& is_ready_batch(
                    views(batch@),
                    table.purge(cutoff as int).rows,
                    limit as int,
                    now as int,
                    cutoff as int,
                )
            },
        },
{
    match store.table_mut() {
        Ok(table) => Ok(table.select_ready(limit, now, cutoff)),
        Err(e) => Err(e),
    }
}

/// Reports that job `id` succeeded: its row is deleted. Where no such row is
/// stored nothing changes, and that is no failure.
pub fn mark_public_highlight_job_success(store: &mut QueueStore, id: i64) -> (outcome: Result<
    (),
    StorageError,
>)
    requires
        old(store).wf(),
    ensures
        final(store).wf(),
        match old(store)@ {
            None => outcome == Err::<(), StorageError>(StorageError::NotInitialized) && final(store)@ is None,
            Some(table) => outcome is Ok && final(store)@ == Some(table.mark_success(id as int)),
        },
{
    match store.table_mut() {
        Ok(table) => {
            let _ = table.mark_success(id);
            Ok(())
        },
        Err(e) => Err(e),
    }
}

/// Reports that job `id` failed: its attempts, retry time and last error
/// take the values given. Where no such row is stored nothing changes, and
/// that is no failure.
pub fn update_public_highlight_job_failure(
    store: &mut QueueStore,
    id: i64,
    attempts: i64,
    next_retry_at: i64,
    last_error: Option<String>,
) -> (outcome: Result<(), StorageError>)
    requires
        old(store).wf(),
    ensures
        final(store).wf(),
        match old(store)@ {
            None => outcome == Err::<(), StorageError>(StorageError::NotInitialized) && final(store)@ is None,
            Some(table) => outcome is Ok && final(store)@ == Some(
                table.mark_failure(
                    id as int,
                    attempts as int,
                    next_retry_at as int,
                    error_view(last_error),
                ),
            ),
        },
{
    match store.table_mut() {
        Ok(table) => {
            let _ = table.mark_failure(id, attempts, next_retry_at, last_error);
            Ok(())
        },
        Err(e) => Err(e),
    }
}

} // verus!
